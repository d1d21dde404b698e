//! The human-readable prefix of a bech32 text, checked by the `bech32` crate.

use bech32::primitives::hrp::Error as HrpError;
use vstd::prelude::*;

verus! {

/// The error of `bech32::primitives::hrp`, carried as it is: nothing in it
/// is read.
#[verifier::external_type_specification]
#[verifier::external_body]
pub struct ExHrpError(HrpError);

/// The longest prefix.
pub const MAX_PREFIX: usize = 83;

/// True for the printable ASCII characters, space excluded.
pub open spec fn printable(c: char) -> bool {
    33 <= c as nat <= 126
}

/// True for the upper-case ASCII letters.
pub open spec fn upper_case(c: char) -> bool {
    65 <= c as nat <= 90
}

/// True for the lower-case ASCII letters.
pub open spec fn lower_case(c: char) -> bool {
    97 <= c as nat <= 122
}

/// True if the `bech32` crate takes the text as a human-readable part: one to
/// 83 printable ASCII characters that do not mix the two cases.
pub open spec fn accepted_prefix(text: Seq<char>) -> bool {
    &&& 1 <= text.len() <= MAX_PREFIX
    &&& forall|i: int| 0 <= i < text.len() ==> printable(#[trigger] text[i])
    &&& !(exists|i: int, j: int|
        0 <= i < text.len() && 0 <= j < text.len() && lower_case(#[trigger] text[i])
            && upper_case(#[trigger] text[j]))
}

/// True for a character that a prefix of this library may hold: printable
/// ASCII other than an upper-case letter.
pub open spec fn prefix_char(c: char) -> bool {
    printable(c) && !upper_case(c)
}

/// True if the text is a prefix of this library: one that the `bech32` crate
/// takes, without upper-case letters.
pub open spec fn valid_prefix(text: Seq<char>) -> bool {
    &&& 1 <= text.len() <= MAX_PREFIX
    &&& forall|i: int| 0 <= i < text.len() ==> prefix_char(#[trigger] text[i])
}

/// The symbols that a prefix adds to the checksum: the high bits of each
/// character, a zero, the low five bits of each character.
pub open spec fn expand_prefix(prefix: Seq<char>) -> Seq<u8> {
    Seq::new(prefix.len(), |i: int| (prefix[i] as nat / 32) as u8) + seq![0u8] + Seq::new(
        prefix.len(),
        |i: int| (prefix[i] as nat % 32) as u8,
    )
}

/// The symbols that a prefix adds are symbols: each is below 32.
pub proof fn lemma_expand_symbols(prefix: Seq<char>)
    requires
        forall|i: int| 0 <= i < prefix.len() ==> prefix_char(#[trigger] prefix[i]),
    ensures
        expand_prefix(prefix).len() == 2 * prefix.len() + 1,
        forall|i: int| 0 <= i < expand_prefix(prefix).len() ==> #[trigger] expand_prefix(prefix)[i] < 32,
{
    let expanded = expand_prefix(prefix);
    assert forall|i: int| 0 <= i < expanded.len() implies #[trigger] expanded[i] < 32 by {
        if i < prefix.len() {
            assert(prefix_char(prefix[i]));
        } else if i > prefix.len() {
            assert(prefix_char(prefix[i - prefix.len() - 1]));
        }
    }
}

/// The text that the derived `Debug` of `bech32::primitives::hrp::Error`
/// writes for an error: the name of its variant, with the variant's fields.
pub uninterp spec fn prefix_error_text(error: bech32::primitives::hrp::Error) -> Seq<char>;

/// The text that `Debug` writes for the error that `Hrp::parse` reports on a
/// text that it refuses.
pub uninterp spec fn prefix_failure_text(text: Seq<char>) -> Seq<char>;

/// The derived `Debug` of `bech32::primitives::hrp::Error`, whose text is a
/// function of the error alone.
#[verifier::external_body]
pub(crate) fn render_error(error: &bech32::primitives::hrp::Error) -> (message: String)
    ensures
        message@ == prefix_error_text(*error),
{
    format!("{:?}", error)
}

/// `bech32::primitives::hrp::Hrp::parse`, which takes one to 83 printable
/// ASCII characters that do not mix upper and lower case, and nothing else.
/// The error on another text is the one that `prefix_failure_text` renders,
/// which the text alone decides.
#[verifier::external_body]
pub(crate) fn check(text: &str) -> (r: Result<(), bech32::primitives::hrp::Error>)
    ensures
        r is Ok <==> accepted_prefix(text@),
        r matches Err(error) ==> prefix_error_text(error) == prefix_failure_text(text@),
{
    match bech32::primitives::hrp::Hrp::parse(text) {
        Ok(_) => Ok(()),
        Err(error) => Err(error),
    }
}

/// Computes the symbols that a prefix adds to the checksum.
pub fn expand(prefix: &str) -> (symbols: Vec<u8>)
    requires
        forall|i: int| 0 <= i < prefix@.len() ==> prefix_char(#[trigger] prefix@[i]),
    ensures
        symbols@ == expand_prefix(prefix@),
{
    let count: usize = prefix.unicode_len();
    let mut symbols: Vec<u8> = Vec::new();
    let mut i: usize = 0;
    while i < count
        invariant
            i <= count,
            count == prefix@.len(),
            forall|k: int| 0 <= k < prefix@.len() ==> prefix_char(#[trigger] prefix@[k]),
            symbols@ == Seq::new(i as nat, |k: int| (prefix@[k] as nat / 32) as u8),
        decreases count - i,
    {
        let c: char = prefix.get_char(i);
        assert(prefix_char(prefix@[i as int]));
        symbols.push((c as u32 / 32) as u8);
        i += 1;
        assert(symbols@ =~= Seq::new(i as nat, |k: int| (prefix@[k] as nat / 32) as u8));
    }
    symbols.push(0);
    let ghost high = symbols@;
    let mut j: usize = 0;
    while j < count
        invariant
            j <= count,
            count == prefix@.len(),
            forall|k: int| 0 <= k < prefix@.len() ==> prefix_char(#[trigger] prefix@[k]),
            symbols@ == high + Seq::new(j as nat, |k: int| (prefix@[k] as nat % 32) as u8),
        decreases count - j,
    {
        let c: char = prefix.get_char(j);
        symbols.push((c as u32 % 32) as u8);
        j += 1;
        assert(symbols@ =~= high + Seq::new(j as nat, |k: int| (prefix@[k] as nat % 32) as u8));
    }
    assert(symbols@ =~= expand_prefix(prefix@));
    symbols
}

} // verus!
