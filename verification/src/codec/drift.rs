//! How a difference between two checksum states moves while both states
//! take in the same symbols, and why a small difference does not shrink back
//! into one symbol within 84 steps.

use crate::codec::polymod::advance;
use vstd::prelude::*;

verus! {

/// The state that grows out of `seed` in `steps` steps that take in the
/// symbol 0: what the difference between two states becomes while both take
/// in the same symbols.
pub open spec fn drift(seed: u32, steps: nat) -> u32
    decreases steps,
{
    if steps == 0 {
        seed
    } else {
        advance(drift(seed, (steps - 1) as nat), 0)
    }
}

/// One step that takes in the symbol 0, written as one expression for the
/// proofs over bit vectors.
#[verifier::inline]
spec fn idle(state: u32) -> u32 {
    ((state & 0x1ffffff) << 5) ^ (if (state >> 25) & 1 != 0 {
        0x3b6a57b2u32
    } else {
        0u32
    }) ^ (if (state >> 25) & 2 != 0 {
        0x26508e6du32
    } else {
        0u32
    }) ^ (if (state >> 25) & 4 != 0 {
        0x1ea119fau32
    } else {
        0u32
    }) ^ (if (state >> 25) & 8 != 0 {
        0x3d4233ddu32
    } else {
        0u32
    }) ^ (if (state >> 25) & 16 != 0 {
        0x2a1462b3u32
    } else {
        0u32
    })
}

/// Two such steps.
#[verifier::inline]
spec fn idle_twice(state: u32) -> u32 {
    idle(idle(state))
}

/// The one expression is the step.
proof fn lemma_idle(state: u32)
    ensures
        advance(state, 0) == idle(state),
{
    let top: u32 = state >> 25;
    let s0: u32 = ((state & 0x1ffffff) << 5) ^ (0u8 as u32);
    let s1: u32 = if top & 1 != 0 { s0 ^ 0x3b6a57b2 } else { s0 };
    let s2: u32 = if top & 2 != 0 { s1 ^ 0x26508e6d } else { s1 };
    let s3: u32 = if top & 4 != 0 { s2 ^ 0x1ea119fa } else { s2 };
    let s4: u32 = if top & 8 != 0 { s3 ^ 0x3d4233dd } else { s3 };
    let s5: u32 = if top & 16 != 0 { s4 ^ 0x2a1462b3 } else { s4 };
    assert(s5 == idle(state)) by (bit_vector)
        requires
            top == state >> 25,
            s0 == ((state & 0x1ffffff) << 5) ^ (0u8 as u32),
            s1 == (if top & 1 != 0 { s0 ^ 0x3b6a57b2 } else { s0 }),
            s2 == (if top & 2 != 0 { s1 ^ 0x26508e6d } else { s1 }),
            s3 == (if top & 4 != 0 { s2 ^ 0x1ea119fa } else { s2 }),
            s4 == (if top & 8 != 0 { s3 ^ 0x3d4233dd } else { s3 }),
            s5 == (if top & 16 != 0 { s4 ^ 0x2a1462b3 } else { s4 }),
    ;
}

/// Two more steps of a drift.
proof fn lemma_drift_two(seed: u32, steps: nat)
    ensures
        drift(seed, steps + 1) == idle(drift(seed, steps)),
        drift(seed, steps + 2) == idle_twice(drift(seed, steps)),
{
    reveal_with_fuel(drift, 3);
    lemma_idle(drift(seed, steps));
    lemma_idle(drift(seed, steps + 1));
}

/// True if `seed` has drifted to 32 or more after each number of steps from
/// one to `steps`.
pub open spec fn drifts_clear(seed: u32, steps: nat) -> bool
    decreases steps,
{
    steps == 0 || (drift(seed, steps) >= 32 && drifts_clear(seed, (steps - 1) as nat))
}

/// What is clear up to some number of steps is clear at each of them.
pub proof fn lemma_drifts_clear_at(seed: u32, steps: nat, at: nat)
    requires
        drifts_clear(seed, steps),
        1 <= at <= steps,
    ensures
        drift(seed, at) >= 32,
    decreases steps,
{
    if at < steps {
        lemma_drifts_clear_at(seed, (steps - 1) as nat, at);
    }
}

/// A drift that is clear so far, and whose next two states are 32 or more,
/// is clear two steps further.
proof fn lemma_drifts_clear_two(seed: u32, steps: nat)
    requires
        drifts_clear(seed, steps),
        drift(seed, steps + 1) >= 32,
        drift(seed, steps + 2) >= 32,
    ensures
        drifts_clear(seed, steps + 2),
{
    reveal_with_fuel(drifts_clear, 3);
}

/// The seeds 1, 2 and 3 drift clear for 84 steps: a difference in the bits
/// above the low five of a prefix character has not shrunk into one symbol
/// when the low five bits of the same character come in, at most 84 symbols
/// later. The chain of states is followed two steps to a link, and the
/// solver for bit vectors computes it.
#[verifier::rlimit(100)]
pub proof fn lemma_small_seeds_drift_clear(seed: u32)
    requires
        1 <= seed <= 3,
    ensures
        drifts_clear(seed, 84),
{
    let c2: u32 = drift(seed, 2);
    let c4: u32 = drift(seed, 4);
    let c6: u32 = drift(seed, 6);
    let c8: u32 = drift(seed, 8);
    let c10: u32 = drift(seed, 10);
    let c12: u32 = drift(seed, 12);
    let c14: u32 = drift(seed, 14);
    let c16: u32 = drift(seed, 16);
    let c18: u32 = drift(seed, 18);
    let c20: u32 = drift(seed, 20);
    let c22: u32 = drift(seed, 22);
    let c24: u32 = drift(seed, 24);
    let c26: u32 = drift(seed, 26);
    let c28: u32 = drift(seed, 28);
    let c30: u32 = drift(seed, 30);
    let c32: u32 = drift(seed, 32);
    let c34: u32 = drift(seed, 34);
    let c36: u32 = drift(seed, 36);
    let c38: u32 = drift(seed, 38);
    let c40: u32 = drift(seed, 40);
    let c42: u32 = drift(seed, 42);
    let c44: u32 = drift(seed, 44);
    let c46: u32 = drift(seed, 46);
    let c48: u32 = drift(seed, 48);
    let c50: u32 = drift(seed, 50);
    let c52: u32 = drift(seed, 52);
    let c54: u32 = drift(seed, 54);
    let c56: u32 = drift(seed, 56);
    let c58: u32 = drift(seed, 58);
    let c60: u32 = drift(seed, 60);
    let c62: u32 = drift(seed, 62);
    let c64: u32 = drift(seed, 64);
    let c66: u32 = drift(seed, 66);
    let c68: u32 = drift(seed, 68);
    let c70: u32 = drift(seed, 70);
    let c72: u32 = drift(seed, 72);
    let c74: u32 = drift(seed, 74);
    let c76: u32 = drift(seed, 76);
    let c78: u32 = drift(seed, 78);
    let c80: u32 = drift(seed, 80);
    let c82: u32 = drift(seed, 82);
    lemma_drift_two(seed, 0);
    lemma_drift_two(seed, 2);
    lemma_drift_two(seed, 4);
    lemma_drift_two(seed, 6);
    lemma_drift_two(seed, 8);
    lemma_drift_two(seed, 10);
    lemma_drift_two(seed, 12);
    lemma_drift_two(seed, 14);
    lemma_drift_two(seed, 16);
    lemma_drift_two(seed, 18);
    lemma_drift_two(seed, 20);
    lemma_drift_two(seed, 22);
    lemma_drift_two(seed, 24);
    lemma_drift_two(seed, 26);
    lemma_drift_two(seed, 28);
    lemma_drift_two(seed, 30);
    lemma_drift_two(seed, 32);
    lemma_drift_two(seed, 34);
    lemma_drift_two(seed, 36);
    lemma_drift_two(seed, 38);
    lemma_drift_two(seed, 40);
    lemma_drift_two(seed, 42);
    lemma_drift_two(seed, 44);
    lemma_drift_two(seed, 46);
    lemma_drift_two(seed, 48);
    lemma_drift_two(seed, 50);
    lemma_drift_two(seed, 52);
    lemma_drift_two(seed, 54);
    lemma_drift_two(seed, 56);
    lemma_drift_two(seed, 58);
    lemma_drift_two(seed, 60);
    lemma_drift_two(seed, 62);
    lemma_drift_two(seed, 64);
    lemma_drift_two(seed, 66);
    lemma_drift_two(seed, 68);
    lemma_drift_two(seed, 70);
    lemma_drift_two(seed, 72);
    lemma_drift_two(seed, 74);
    lemma_drift_two(seed, 76);
    lemma_drift_two(seed, 78);
    lemma_drift_two(seed, 80);
    lemma_drift_two(seed, 82);
    assert(idle(seed) >= 32 && idle_twice(seed) >= 32
        && idle(c2) >= 32 && idle_twice(c2) >= 32
        && idle(c4) >= 32 && idle_twice(c4) >= 32
        && idle(c6) >= 32 && idle_twice(c6) >= 32
        && idle(c8) >= 32 && idle_twice(c8) >= 32
        && idle(c10) >= 32 && idle_twice(c10) >= 32
        && idle(c12) >= 32 && idle_twice(c12) >= 32
        && idle(c14) >= 32 && idle_twice(c14) >= 32
        && idle(c16) >= 32 && idle_twice(c16) >= 32
        && idle(c18) >= 32 && idle_twice(c18) >= 32
        && idle(c20) >= 32 && idle_twice(c20) >= 32
        && idle(c22) >= 32 && idle_twice(c22) >= 32
        && idle(c24) >= 32 && idle_twice(c24) >= 32
        && idle(c26) >= 32 && idle_twice(c26) >= 32
        && idle(c28) >= 32 && idle_twice(c28) >= 32
        && idle(c30) >= 32 && idle_twice(c30) >= 32
        && idle(c32) >= 32 && idle_twice(c32) >= 32
        && idle(c34) >= 32 && idle_twice(c34) >= 32
        && idle(c36) >= 32 && idle_twice(c36) >= 32
        && idle(c38) >= 32 && idle_twice(c38) >= 32
        && idle(c40) >= 32 && idle_twice(c40) >= 32
        && idle(c42) >= 32 && idle_twice(c42) >= 32
        && idle(c44) >= 32 && idle_twice(c44) >= 32
        && idle(c46) >= 32 && idle_twice(c46) >= 32
        && idle(c48) >= 32 && idle_twice(c48) >= 32
        && idle(c50) >= 32 && idle_twice(c50) >= 32
        && idle(c52) >= 32 && idle_twice(c52) >= 32
        && idle(c54) >= 32 && idle_twice(c54) >= 32
        && idle(c56) >= 32 && idle_twice(c56) >= 32
        && idle(c58) >= 32 && idle_twice(c58) >= 32
        && idle(c60) >= 32 && idle_twice(c60) >= 32
        && idle(c62) >= 32 && idle_twice(c62) >= 32
        && idle(c64) >= 32 && idle_twice(c64) >= 32
        && idle(c66) >= 32 && idle_twice(c66) >= 32
        && idle(c68) >= 32 && idle_twice(c68) >= 32
        && idle(c70) >= 32 && idle_twice(c70) >= 32
        && idle(c72) >= 32 && idle_twice(c72) >= 32
        && idle(c74) >= 32 && idle_twice(c74) >= 32
        && idle(c76) >= 32 && idle_twice(c76) >= 32
        && idle(c78) >= 32 && idle_twice(c78) >= 32
        && idle(c80) >= 32 && idle_twice(c80) >= 32
        && idle(c82) >= 32 && idle_twice(c82) >= 32) by (bit_vector)
        requires
            1 <= seed <= 3,
            c2 == idle_twice(seed),
            c4 == idle_twice(c2),
            c6 == idle_twice(c4),
            c8 == idle_twice(c6),
            c10 == idle_twice(c8),
            c12 == idle_twice(c10),
            c14 == idle_twice(c12),
            c16 == idle_twice(c14),
            c18 == idle_twice(c16),
            c20 == idle_twice(c18),
            c22 == idle_twice(c20),
            c24 == idle_twice(c22),
            c26 == idle_twice(c24),
            c28 == idle_twice(c26),
            c30 == idle_twice(c28),
            c32 == idle_twice(c30),
            c34 == idle_twice(c32),
            c36 == idle_twice(c34),
            c38 == idle_twice(c36),
            c40 == idle_twice(c38),
            c42 == idle_twice(c40),
            c44 == idle_twice(c42),
            c46 == idle_twice(c44),
            c48 == idle_twice(c46),
            c50 == idle_twice(c48),
            c52 == idle_twice(c50),
            c54 == idle_twice(c52),
            c56 == idle_twice(c54),
            c58 == idle_twice(c56),
            c60 == idle_twice(c58),
            c62 == idle_twice(c60),
            c64 == idle_twice(c62),
            c66 == idle_twice(c64),
            c68 == idle_twice(c66),
            c70 == idle_twice(c68),
            c72 == idle_twice(c70),
            c74 == idle_twice(c72),
            c76 == idle_twice(c74),
            c78 == idle_twice(c76),
            c80 == idle_twice(c78),
            c82 == idle_twice(c80),
    ;
    lemma_drifts_clear_two(seed, 0);
    lemma_drifts_clear_two(seed, 2);
    lemma_drifts_clear_two(seed, 4);
    lemma_drifts_clear_two(seed, 6);
    lemma_drifts_clear_two(seed, 8);
    lemma_drifts_clear_two(seed, 10);
    lemma_drifts_clear_two(seed, 12);
    lemma_drifts_clear_two(seed, 14);
    lemma_drifts_clear_two(seed, 16);
    lemma_drifts_clear_two(seed, 18);
    lemma_drifts_clear_two(seed, 20);
    lemma_drifts_clear_two(seed, 22);
    lemma_drifts_clear_two(seed, 24);
    lemma_drifts_clear_two(seed, 26);
    lemma_drifts_clear_two(seed, 28);
    lemma_drifts_clear_two(seed, 30);
    lemma_drifts_clear_two(seed, 32);
    lemma_drifts_clear_two(seed, 34);
    lemma_drifts_clear_two(seed, 36);
    lemma_drifts_clear_two(seed, 38);
    lemma_drifts_clear_two(seed, 40);
    lemma_drifts_clear_two(seed, 42);
    lemma_drifts_clear_two(seed, 44);
    lemma_drifts_clear_two(seed, 46);
    lemma_drifts_clear_two(seed, 48);
    lemma_drifts_clear_two(seed, 50);
    lemma_drifts_clear_two(seed, 52);
    lemma_drifts_clear_two(seed, 54);
    lemma_drifts_clear_two(seed, 56);
    lemma_drifts_clear_two(seed, 58);
    lemma_drifts_clear_two(seed, 60);
    lemma_drifts_clear_two(seed, 62);
    lemma_drifts_clear_two(seed, 64);
    lemma_drifts_clear_two(seed, 66);
    lemma_drifts_clear_two(seed, 68);
    lemma_drifts_clear_two(seed, 70);
    lemma_drifts_clear_two(seed, 72);
    lemma_drifts_clear_two(seed, 74);
    lemma_drifts_clear_two(seed, 76);
    lemma_drifts_clear_two(seed, 78);
    lemma_drifts_clear_two(seed, 80);
    lemma_drifts_clear_two(seed, 82);
}

} // verus!
