//! Base-58 text, written and read by the `base58` crate.

use vstd::prelude::*;

verus! {

/// `base58::FromBase58Error`, carried as it is: nothing in it is read.
#[verifier::external_type_specification]
#[verifier::external_body]
pub struct ExFromBase58Error(base58::FromBase58Error);

/// The longest text that the decoder is handed.
pub const MAX_TEXT: usize = 132;

/// The longest byte string whose text the decoder reads back.
pub const MAX_BYTES: usize = 128;

/// The base-58 text of a byte string, as `base58::ToBase58::to_base58` writes
/// it.
pub uninterp spec fn base58_text(bytes: Seq<u8>) -> Seq<char>;

/// The bytes of a base-58 text, as `base58::FromBase58::from_base58` reads
/// them; none where it reports an error.
pub uninterp spec fn base58_bytes(text: Seq<char>) -> Option<Seq<u8>>;

/// True for the 58 characters of the alphabet: the digits without `0`, the
/// upper-case letters without `I` and `O`, the lower-case letters without
/// `l`.
pub open spec fn base58_char(c: char) -> bool {
    let code = c as nat;
    ||| 49 <= code <= 57
    ||| 65 <= code <= 90 && code != 73 && code != 79
    ||| 97 <= code <= 122 && code != 108
}

/// True if every character is of the alphabet.
pub open spec fn all_base58(text: Seq<char>) -> bool {
    forall|i: int| 0 <= i < text.len() ==> base58_char(#[trigger] text[i])
}

/// The most characters that the text of `count` bytes can have.
pub open spec fn text_bound(count: nat) -> nat {
    count * 138 / 100 + 1
}

/// The text that the derived `Debug` of `base58::FromBase58Error` writes for
/// an error: the name of its variant, with the variant's fields.
pub uninterp spec fn base58_error_text(error: base58::FromBase58Error) -> Seq<char>;

/// The text that `Debug` writes for the error that `from_base58` reports on
/// a text that it refuses.
pub uninterp spec fn base58_failure_text(text: Seq<char>) -> Seq<char>;

/// The derived `Debug` of `base58::FromBase58Error`, whose text is a function
/// of the error alone.
#[verifier::external_body]
pub(crate) fn render_error(error: &base58::FromBase58Error) -> (message: String)
    ensures
        message@ == base58_error_text(*error),
{
    format!("{:?}", error)
}

/// `to_base58` on a byte slice. The text holds characters of the alphabet
/// only, it is no longer than the buffer that the encoder sets up for it,
/// and for up to 128 bytes the crate's decoder reads the same bytes back
/// from it.
#[verifier::external_body]
pub(crate) fn encode(bytes: &[u8]) -> (text: String)
    requires
        bytes@.len() <= MAX_BYTES,
    ensures
        text@ == base58_text(bytes@),
        all_base58(text@),
        text@.len() <= text_bound(bytes@.len()),
        base58_bytes(text@) == Some(bytes@),
{
    base58::ToBase58::to_base58(bytes)
}

/// `from_base58` on a text of at most 132 characters, the size of the
/// decoder's buffer: on a longer text the decoder may reach beyond it.
/// Within that length it refuses a text exactly if a character of it is not
/// of the alphabet. The error is the one that `base58_failure_text` renders,
/// which the text alone decides.
#[verifier::external_body]
pub(crate) fn decode(text: &str) -> (r: Result<Vec<u8>, base58::FromBase58Error>)
    requires
        text@.len() <= MAX_TEXT,
    ensures
        r is Ok <==> all_base58(text@),
        match r {
            Ok(bytes) => base58_bytes(text@) == Some(bytes@),
            Err(error) => base58_bytes(text@) is None && base58_error_text(error)
                == base58_failure_text(text@),
        },
{
    base58::FromBase58::from_base58(text)
}

} // verus!
