//! The address capability and its failures.

use crate::codec::{base16, radix58};
use crate::format::Format;
use vstd::prelude::*;
use vstd::std_specs::convert::FromSpecImpl;

verus! {

/// An address: read from text under a format, and written back as text.
pub trait Address: Sized + View {
    type Format: Format;

    /// What reading `text` under `format` yields: the address, or the one
    /// failure that is reported.
    spec fn parse_spec(text: Seq<char>, format: <Self::Format as View>::V) -> Result<
        Self::V,
        AddressFault,
    >;

    /// The text of an address's payload under `format`.
    spec fn text_spec(address: Self::V, format: <Self::Format as View>::V) -> Seq<char>;

    /// The format that an address was made or checked under.
    spec fn format_spec(address: Self::V) -> <Self::Format as View>::V;

    /// Reads an address from `text` under `format`.
    fn parse(text: &str, format: &Self::Format) -> (r: Result<Self, AddressError>)
        ensures
            match r {
                Ok(address) => Self::parse_spec(text@, format@) == Ok::<Self::V, AddressFault>(
                    address@,
                ),
                Err(error) => Self::parse_spec(text@, format@) == Err::<Self::V, AddressFault>(
                    error@,
                ),
            },
    ;

    /// Writes the address under `format`. Under the address's own format the
    /// text reads back as the address.
    fn to_string(&self, format: &Self::Format) -> (text: String)
        ensures
            text@ == Self::text_spec(self@, format@),
            Self::format_spec(self@) == format@ ==> Self::parse_spec(text@, format@) == Ok::<
                Self::V,
                AddressFault,
            >(self@),
    ;

    /// True if `text` is an address under `format`.
    fn is_valid(text: &str, format: &Self::Format) -> (valid: bool)
        ensures
            valid == (Self::parse_spec(text@, format@) is Ok),
    ;
}

/// Why a text is no address, or why a key has none.
#[derive(Debug, PartialEq, Eq)]
pub enum AddressError {
    /// A failure inside another library: its name, and the failure as that
    /// library renders it.
    Crate(&'static str, String),
    /// The decoded bytes have this length, which the format does not allow.
    InvalidByteLength(usize),
    /// The text has this many characters, which the format does not allow.
    InvalidCharacterLength(usize),
    /// The character at this index cannot stand there.
    InvalidCharacter(char, usize),
    /// The checksum in the text is not the checksum of the rest.
    InvalidChecksum,
    /// The text carries this human-readable prefix, not the format's.
    InvalidPrefix(String),
    /// The text carries this version, not the format's.
    InvalidVersion(u8),
    /// A public key of this many bytes has no address under the format.
    UnsupportedKey(usize),
}

/// What an `AddressError` says, with texts as sequences of characters.
pub enum AddressFault {
    /// A failure inside the library of this name, as that library renders
    /// it.
    Foreign(Seq<char>, Seq<char>),
    ByteLength(usize),
    CharacterLength(usize),
    Character(char, usize),
    Checksum,
    Prefix(Seq<char>),
    Version(u8),
    UnsupportedKey(usize),
}

impl View for AddressError {
    type V = AddressFault;

    open spec fn view(&self) -> AddressFault {
        match self {
            AddressError::Crate(origin, message) => AddressFault::Foreign(origin@, message@),
            AddressError::InvalidByteLength(length) => AddressFault::ByteLength(*length),
            AddressError::InvalidCharacterLength(length) => AddressFault::CharacterLength(*length),
            AddressError::InvalidCharacter(c, index) => AddressFault::Character(*c, *index),
            AddressError::InvalidChecksum => AddressFault::Checksum,
            AddressError::InvalidPrefix(prefix) => AddressFault::Prefix(prefix@),
            AddressError::InvalidVersion(version) => AddressFault::Version(*version),
            AddressError::UnsupportedKey(length) => AddressFault::UnsupportedKey(*length),
        }
    }
}

impl From<base58::FromBase58Error> for AddressError {
    fn from(error: base58::FromBase58Error) -> (r: Self)
        ensures
            r matches AddressError::Crate(origin, message) && origin@ == "base58"@ && message@
                == radix58::base58_error_text(error),
    {
        AddressError::Crate("base58", radix58::render_error(&error))
    }
}

impl FromSpecImpl<base58::FromBase58Error> for AddressError {
    open spec fn obeys_from_spec() -> bool {
        false
    }

    open spec fn from_spec(error: base58::FromBase58Error) -> Self {
        arbitrary()
    }
}

impl From<hex::FromHexError> for AddressError {
    fn from(error: hex::FromHexError) -> (r: Self)
        ensures
            r matches AddressError::Crate(origin, message) && origin@ == "hex"@ && message@
                == base16::hex_error_text(error),
    {
        AddressError::Crate("hex", base16::render_error(&error))
    }
}

impl FromSpecImpl<hex::FromHexError> for AddressError {
    open spec fn obeys_from_spec() -> bool {
        false
    }

    open spec fn from_spec(error: hex::FromHexError) -> Self {
        arbitrary()
    }
}

} // verus!
