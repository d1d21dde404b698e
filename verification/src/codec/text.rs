//! Building and reading text one character at a time.

use vstd::prelude::*;

verus! {

/// `String::push`, which appends one character.
#[verifier::external_body]
pub(crate) fn push_char(text: &mut String, c: char)
    ensures
        final(text)@ == old(text)@.push(c),
{
    text.push(c)
}

/// The characters of `text` from `from` up to `to`, as an owned text.
pub fn copy_range(text: &str, from: usize, to: usize) -> (part: String)
    requires
        from <= to <= text@.len(),
    ensures
        part@ == text@.subrange(from as int, to as int),
{
    let mut part: String = String::new();
    let mut i: usize = from;
    while i < to
        invariant
            from <= i <= to <= text@.len(),
            part@ == text@.subrange(from as int, i as int),
        decreases to - i,
    {
        let c: char = text.get_char(i);
        push_char(&mut part, c);
        proof {
            assert(text@.subrange(from as int, i + 1) =~= text@.subrange(
                from as int,
                i as int,
            ).push(c));
        }
        i += 1;
    }
    part
}

/// True if the two texts hold the same characters. Every character of the
/// shorter text is compared, whether or not an earlier one differs.
pub fn same_text(first: &str, second: &str) -> (same: bool)
    ensures
        same == (first@ == second@),
{
    let count: usize = first.unicode_len();
    if count != second.unicode_len() {
        return false;
    }
    let mut same: bool = true;
    let mut i: usize = 0;
    while i < count
        invariant
            i <= count,
            count == first@.len(),
            count == second@.len(),
            same <==> forall|k: int| 0 <= k < i ==> first@[k] == second@[k],
        decreases count - i,
    {
        if first.get_char(i) != second.get_char(i) {
            same = false;
        }
        i += 1;
    }
    proof {
        if same {
            assert(first@ =~= second@);
        }
    }
    same
}

} // verus!
