//! Hexadecimal text, written and read by the `hex` crate.

use vstd::prelude::*;

verus! {

/// `hex::FromHexError`, carried as it is: nothing in it is read.
#[verifier::external_type_specification]
#[verifier::external_body]
pub struct ExFromHexError(hex::FromHexError);

/// The lower-case character of a hexadecimal digit.
pub open spec fn digit_char(digit: nat) -> char
    recommends
        digit < 16,
{
    if digit < 10 {
        (48 + digit) as char
    } else {
        (87 + digit) as char
    }
}

/// The digit that a character stands for, in either case.
pub open spec fn char_digit(c: char) -> Option<nat> {
    let code = c as nat;
    if 48 <= code <= 57 {
        Some((code - 48) as nat)
    } else if 97 <= code <= 102 {
        Some((code - 87) as nat)
    } else if 65 <= code <= 70 {
        Some((code - 55) as nat)
    } else {
        None
    }
}

/// Two lower-case digits for each byte, high digit first.
pub open spec fn hex_text(bytes: Seq<u8>) -> Seq<char> {
    Seq::new(
        2 * bytes.len(),
        |i: int|
            digit_char(
                if i % 2 == 0 {
                    bytes[i / 2] as nat / 16
                } else {
                    bytes[i / 2] as nat % 16
                },
            ),
    )
}

/// True if the text is an even number of hexadecimal digits.
pub open spec fn is_hex(text: Seq<char>) -> bool {
    &&& text.len() % 2 == 0
    &&& forall|i: int| 0 <= i < text.len() ==> (#[trigger] char_digit(text[i])) is Some
}

/// The bytes that a hexadecimal text spells, if it is one.
pub open spec fn hex_bytes(text: Seq<char>) -> Option<Seq<u8>> {
    if is_hex(text) {
        Some(
            Seq::new(
                text.len() / 2,
                |i: int|
                    (char_digit(text[2 * i]).unwrap() * 16 + char_digit(
                        text[2 * i + 1],
                    ).unwrap()) as u8,
            ),
        )
    } else {
        None
    }
}

/// Reading what was written gives the bytes back.
pub proof fn lemma_hex_round_trip(bytes: Seq<u8>)
    ensures
        hex_text(bytes).len() == 2 * bytes.len(),
        hex_bytes(hex_text(bytes)) == Some(bytes),
{
    let text = hex_text(bytes);
    assert forall|i: int| 0 <= i < text.len() implies (#[trigger] char_digit(text[i])) is Some by {
        let byte = bytes[i / 2] as nat;
        assert(byte / 16 < 16 && byte % 16 < 16);
    }
    assert(is_hex(text));
    let back = hex_bytes(text).unwrap();
    assert forall|i: int| 0 <= i < bytes.len() implies back[i] == bytes[i] by {
        let byte = bytes[i] as nat;
        assert(byte / 16 < 16 && byte % 16 < 16);
        assert((2 * i) % 2 == 0 && (2 * i) / 2 == i);
        assert((2 * i + 1) % 2 == 1 && (2 * i + 1) / 2 == i);
        assert(text[2 * i] == digit_char(byte / 16));
        assert(text[2 * i + 1] == digit_char(byte % 16));
        assert(char_digit(digit_char(byte / 16)) == Some(byte / 16));
        assert(char_digit(digit_char(byte % 16)) == Some(byte % 16));
    }
    assert(back =~= bytes);
}

/// The text that the derived `Debug` of `hex::FromHexError` writes for an
/// error: the name of its variant, with the variant's fields.
pub uninterp spec fn hex_error_text(error: hex::FromHexError) -> Seq<char>;

/// The text that `Debug` writes for the error that `hex::decode` reports on
/// a text that it refuses.
pub uninterp spec fn hex_failure_text(text: Seq<char>) -> Seq<char>;

/// The derived `Debug` of `hex::FromHexError`, whose text is a function of
/// the error alone.
#[verifier::external_body]
pub(crate) fn render_error(error: &hex::FromHexError) -> (message: String)
    ensures
        message@ == hex_error_text(*error),
{
    format!("{:?}", error)
}

/// `hex::encode`, which writes each byte as two lower-case hexadecimal
/// digits, high digit first.
#[verifier::external_body]
pub(crate) fn encode(bytes: &[u8]) -> (text: String)
    ensures
        text@ == hex_text(bytes@),
{
    hex::encode(bytes)
}

/// `hex::decode`, which succeeds on an even number of hexadecimal digits of
/// either case, and then gives the byte of each pair. Any other text, one
/// with a character outside ASCII included, is an error: the error that
/// `hex_failure_text` renders, which the text alone decides.
#[verifier::external_body]
pub(crate) fn decode(text: &str) -> (r: Result<Vec<u8>, hex::FromHexError>)
    ensures
        match r {
            Ok(bytes) => hex_bytes(text@) == Some(bytes@),
            Err(error) => hex_bytes(text@) is None && hex_error_text(error) == hex_failure_text(
                text@,
            ),
        },
{
    hex::decode(text)
}

} // verus!
