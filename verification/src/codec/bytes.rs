//! Joining byte strings.

use vstd::prelude::*;

verus! {

/// Appends `source` to `target`.
pub fn append(target: &mut Vec<u8>, source: &[u8])
    ensures
        final(target)@ == old(target)@ + source@,
{
    let mut i: usize = 0;
    while i < source.len()
        invariant
            i <= source.len(),
            target@ == old(target)@ + source@.take(i as int),
        decreases source.len() - i,
    {
        target.push(source[i]);
        proof {
            assert(source@.take(i + 1) =~= source@.take(i as int).push(source@[i as int]));
        }
        i += 1;
    }
    proof {
        assert(source@.take(i as int) =~= source@);
    }
}

} // verus!
