//! The formats of a key-hash address.

use crate::codec::prefix::{accepted_prefix, check, prefix_failure_text, valid_prefix};
use crate::format::{Format, FormatError, FormatFault};
use vstd::prelude::*;

verus! {

/// A human-readable prefix: one to 83 printable ASCII characters, none of
/// them an upper-case letter.
#[derive(Debug, PartialEq, Eq)]
pub struct Prefix {
    text: String,
}

/// Why a text is no prefix: the `bech32` crate refuses it, or it holds an
/// upper-case letter.
pub open spec fn prefix_fault(text: Seq<char>) -> FormatFault {
    if accepted_prefix(text) {
        FormatFault::Prefix(text)
    } else {
        FormatFault::Foreign("bech32"@, prefix_failure_text(text))
    }
}

impl View for Prefix {
    type V = Seq<char>;

    closed spec fn view(&self) -> Seq<char> {
        self.text@
    }
}

impl Prefix {
    #[verifier::type_invariant]
    spec fn valid(&self) -> bool {
        valid_prefix(self.text@)
    }

    /// Makes a prefix of `text`, if it is one.
    pub fn new(text: &str) -> (r: Result<Prefix, FormatError>)
        ensures
            match r {
                Ok(prefix) => valid_prefix(text@) && prefix@ == text@,
                Err(error) => !valid_prefix(text@) && error@ == prefix_fault(text@),
            },
    {
        match check(text) {
            Err(error) => Err(FormatError::from(error)),
            Ok(_) => {
                let count: usize = text.unicode_len();
                let mut i: usize = 0;
                while i < count
                    invariant
                        i <= count,
                        count == text@.len(),
                        accepted_prefix(text@),
                        forall|k: int| 0 <= k < i ==> !crate::codec::prefix::upper_case(#[trigger] text@[k]),
                    decreases count - i,
                {
                    let c: char = text.get_char(i);
                    if 'A' <= c && c <= 'Z' {
                        return Err(FormatError::InvalidPrefix(text.to_owned()));
                    }
                    i += 1;
                }
                Ok(Prefix { text: text.to_owned() })
            },
        }
    }

    /// The prefix as text.
    pub fn as_str(&self) -> (text: &str)
        ensures
            text@ == self@,
            valid_prefix(text@),
    {
        proof {
            use_type_invariant(self);
        }
        self.text.as_str()
    }
}

impl Clone for Prefix {
    fn clone(&self) -> (copy: Self)
        ensures
            copy@ == self@,
    {
        proof {
            use_type_invariant(self);
        }
        Prefix { text: self.text.clone() }
    }
}

/// What guards the text of a format against a changed character.
#[derive(Clone, Copy, Debug, PartialEq, Eq, Structural)]
pub enum ChecksumKind {
    /// The first four bytes of SHA-256 applied twice to what comes before.
    DoubleSha256,
    /// The six symbols that bring the thirty-bit polynomial checksum to 1.
    Polymod,
    /// Nothing: every text of the right length and alphabet is an address.
    Unguarded,
}

/// One way of writing a key-hash address.
#[derive(Debug, PartialEq, Eq)]
pub enum KeyHashFormat {
    /// Base 58 of the version byte, the hash and four check bytes.
    Base58Check { version: u8 },
    /// The prefix, the separator `1`, and the symbols of a zero, of the hash
    /// and of the checksum.
    Bech32 { prefix: Prefix },
    /// The forty hexadecimal digits of the hash.
    Hex,
}

/// A format as a value of specifications.
pub enum FormatView {
    Base58Check { version: u8 },
    Bech32 { prefix: Seq<char> },
    Hex,
}

impl FormatView {
    /// True if the format's parameters are ones that a format can be made
    /// with.
    pub open spec fn valid(self) -> bool {
        self matches FormatView::Bech32 { prefix } ==> valid_prefix(prefix)
    }

    /// What guards the text of the format.
    pub open spec fn checksum(self) -> ChecksumKind {
        match self {
            FormatView::Base58Check { .. } => ChecksumKind::DoubleSha256,
            FormatView::Bech32 { .. } => ChecksumKind::Polymod,
            FormatView::Hex => ChecksumKind::Unguarded,
        }
    }
}

impl View for KeyHashFormat {
    type V = FormatView;

    open spec fn view(&self) -> FormatView {
        match self {
            KeyHashFormat::Base58Check { version } => FormatView::Base58Check { version: *version },
            KeyHashFormat::Bech32 { prefix } => FormatView::Bech32 { prefix: prefix@ },
            KeyHashFormat::Hex => FormatView::Hex,
        }
    }
}

impl Clone for KeyHashFormat {
    fn clone(&self) -> (copy: Self)
        ensures
            copy@ == self@,
    {
        match self {
            KeyHashFormat::Base58Check { version } => KeyHashFormat::Base58Check {
                version: *version,
            },
            KeyHashFormat::Bech32 { prefix } => KeyHashFormat::Bech32 { prefix: prefix.clone() },
            KeyHashFormat::Hex => KeyHashFormat::Hex,
        }
    }
}

impl Format for KeyHashFormat {

}

impl KeyHashFormat {
    /// The base-58 format with this version byte.
    pub fn base58check(version: u8) -> (format: Self)
        ensures
            format@ == (FormatView::Base58Check { version }),
    {
        KeyHashFormat::Base58Check { version }
    }

    /// The bech32 format with this prefix, if it is one.
    pub fn bech32(prefix: &str) -> (r: Result<Self, FormatError>)
        ensures
            match r {
                Ok(format) => valid_prefix(prefix@) && format@ == (FormatView::Bech32 {
                    prefix: prefix@,
                }),
                Err(error) => !valid_prefix(prefix@) && error@ == prefix_fault(prefix@),
            },
    {
        match Prefix::new(prefix) {
            Ok(prefix) => Ok(KeyHashFormat::Bech32 { prefix }),
            Err(error) => Err(error),
        }
    }

    /// The hexadecimal format.
    pub fn hex() -> (format: Self)
        ensures
            format@ == FormatView::Hex,
    {
        KeyHashFormat::Hex
    }

    /// What guards the text of the format.
    pub fn checksum(&self) -> (kind: ChecksumKind)
        ensures
            kind == self@.checksum(),
    {
        match self {
            KeyHashFormat::Base58Check { .. } => ChecksumKind::DoubleSha256,
            KeyHashFormat::Bech32 { .. } => ChecksumKind::Polymod,
            KeyHashFormat::Hex => ChecksumKind::Unguarded,
        }
    }
}

} // verus!
