//! The thirty-bit checksum over five-bit symbols that closes a bech32 text.
//!
//! The checksum state is advanced one symbol at a time. Each step is linear
//! over GF(2), which is what both the construction of a checksum and the
//! detection of a changed symbol rest on.

use crate::codec::drift::{
    drift, lemma_drifts_clear_at, lemma_small_seeds_drift_clear,
};
use vstd::prelude::*;

verus! {

/// True if every element fits in five bits.
pub open spec fn all_symbols(symbols: Seq<u8>) -> bool {
    forall|i: int| 0 <= i < symbols.len() ==> #[trigger] symbols[i] < 32
}

/// The state after one more symbol: the low twenty-five bits move up by
/// five, the symbol comes in below them, and each of the five bits that fall
/// out at the top adds its constant.
pub open spec fn advance(state: u32, symbol: u8) -> u32 {
    let top: u32 = state >> 25;
    let s0: u32 = ((state & 0x1ffffff) << 5) ^ (symbol as u32);
    let s1: u32 = if top & 1 != 0 { s0 ^ 0x3b6a57b2 } else { s0 };
    let s2: u32 = if top & 2 != 0 { s1 ^ 0x26508e6d } else { s1 };
    let s3: u32 = if top & 4 != 0 { s2 ^ 0x1ea119fa } else { s2 };
    let s4: u32 = if top & 8 != 0 { s3 ^ 0x3d4233dd } else { s3 };
    if top & 16 != 0 { s4 ^ 0x2a1462b3 } else { s4 }
}

/// The state after a run of symbols, first symbol first.
pub open spec fn absorb(state: u32, symbols: Seq<u8>) -> u32
    decreases symbols.len(),
{
    if symbols.len() == 0 {
        state
    } else {
        advance(absorb(state, symbols.drop_last()), symbols.last())
    }
}

/// The checksum state of a whole symbol sequence. A sequence that ends in its
/// own checksum has state 1.
pub open spec fn polymod(symbols: Seq<u8>) -> u32 {
    absorb(1, symbols)
}

/// The symbol at `position` (0 is the most significant) of a thirty-bit word.
pub open spec fn word_symbol(word: u32, position: int) -> u8 {
    if position == 0 {
        ((word >> 25) & 31) as u8
    } else if position == 1 {
        ((word >> 20) & 31) as u8
    } else if position == 2 {
        ((word >> 15) & 31) as u8
    } else if position == 3 {
        ((word >> 10) & 31) as u8
    } else if position == 4 {
        ((word >> 5) & 31) as u8
    } else {
        (word & 31) as u8
    }
}

/// The six symbols of a thirty-bit word, most significant first.
pub open spec fn word_symbols(word: u32) -> Seq<u8> {
    Seq::new(6, |position: int| word_symbol(word, position))
}

/// The six symbols which, absorbed after `state`, leave the state 1.
pub open spec fn closing_symbols(state: u32) -> Seq<u8> {
    word_symbols(absorb(state, Seq::new(6, |i: int| 0u8)) ^ 1)
}

/// The checksum of a symbol sequence.
pub open spec fn checksum(symbols: Seq<u8>) -> Seq<u8> {
    closing_symbols(polymod(symbols))
}

/// A step that takes in a symbol leaves a state of thirty bits.
pub proof fn lemma_advance_bound(state: u32, symbol: u8)
    requires
        symbol < 32,
    ensures
        advance(state, symbol) < 0x4000_0000,
{
    let top: u32 = state >> 25;
    let s0: u32 = ((state & 0x1ffffff) << 5) ^ (symbol as u32);
    let s1: u32 = if top & 1 != 0 { s0 ^ 0x3b6a57b2 } else { s0 };
    let s2: u32 = if top & 2 != 0 { s1 ^ 0x26508e6d } else { s1 };
    let s3: u32 = if top & 4 != 0 { s2 ^ 0x1ea119fa } else { s2 };
    let s4: u32 = if top & 8 != 0 { s3 ^ 0x3d4233dd } else { s3 };
    let s5: u32 = if top & 16 != 0 { s4 ^ 0x2a1462b3 } else { s4 };
    assert(s0 < 0x4000_0000) by (bit_vector)
        requires
            symbol < 32,
            s0 == ((state & 0x1ffffff) << 5) ^ (symbol as u32),
    ;
    assert(s5 < 0x4000_0000) by (bit_vector)
        requires
            s0 < 0x4000_0000,
            s1 == s0 ^ 0x3b6a57b2 || s1 == s0,
            s2 == s1 ^ 0x26508e6d || s2 == s1,
            s3 == s2 ^ 0x1ea119fa || s3 == s2,
            s4 == s3 ^ 0x3d4233dd || s4 == s3,
            s5 == s4 ^ 0x2a1462b3 || s5 == s4,
    ;
}

/// One step is additive: the step of a sum is the sum of the steps.
pub proof fn lemma_advance_linear(a: u32, b: u32, v: u8, w: u8)
    ensures
        advance(a ^ b, v ^ w) == advance(a, v) ^ advance(b, w),
{
    let ta: u32 = a >> 25;
    let a0: u32 = ((a & 0x1ffffff) << 5) ^ (v as u32);
    let a1: u32 = if ta & 1 != 0 { a0 ^ 0x3b6a57b2 } else { a0 };
    let a2: u32 = if ta & 2 != 0 { a1 ^ 0x26508e6d } else { a1 };
    let a3: u32 = if ta & 4 != 0 { a2 ^ 0x1ea119fa } else { a2 };
    let a4: u32 = if ta & 8 != 0 { a3 ^ 0x3d4233dd } else { a3 };
    let a5: u32 = if ta & 16 != 0 { a4 ^ 0x2a1462b3 } else { a4 };
    let tb: u32 = b >> 25;
    let b0: u32 = ((b & 0x1ffffff) << 5) ^ (w as u32);
    let b1: u32 = if tb & 1 != 0 { b0 ^ 0x3b6a57b2 } else { b0 };
    let b2: u32 = if tb & 2 != 0 { b1 ^ 0x26508e6d } else { b1 };
    let b3: u32 = if tb & 4 != 0 { b2 ^ 0x1ea119fa } else { b2 };
    let b4: u32 = if tb & 8 != 0 { b3 ^ 0x3d4233dd } else { b3 };
    let b5: u32 = if tb & 16 != 0 { b4 ^ 0x2a1462b3 } else { b4 };
    let c: u32 = a ^ b;
    let x: u8 = v ^ w;
    let tc: u32 = c >> 25;
    let c0: u32 = ((c & 0x1ffffff) << 5) ^ (x as u32);
    let c1: u32 = if tc & 1 != 0 { c0 ^ 0x3b6a57b2 } else { c0 };
    let c2: u32 = if tc & 2 != 0 { c1 ^ 0x26508e6d } else { c1 };
    let c3: u32 = if tc & 4 != 0 { c2 ^ 0x1ea119fa } else { c2 };
    let c4: u32 = if tc & 8 != 0 { c3 ^ 0x3d4233dd } else { c3 };
    let c5: u32 = if tc & 16 != 0 { c4 ^ 0x2a1462b3 } else { c4 };
    assert(c0 == a0 ^ b0 && tc == ta ^ tb) by (bit_vector)
        requires
            c == a ^ b,
            x == v ^ w,
            ta == a >> 25,
            tb == b >> 25,
            tc == c >> 25,
            a0 == ((a & 0x1ffffff) << 5) ^ (v as u32),
            b0 == ((b & 0x1ffffff) << 5) ^ (w as u32),
            c0 == ((c & 0x1ffffff) << 5) ^ (x as u32),
    ;
    assert(c1 == a1 ^ b1) by (bit_vector)
        requires
            c0 == a0 ^ b0,
            tc == ta ^ tb,
            a1 == (if ta & 1 != 0 { a0 ^ 0x3b6a57b2 } else { a0 }),
            b1 == (if tb & 1 != 0 { b0 ^ 0x3b6a57b2 } else { b0 }),
            c1 == (if tc & 1 != 0 { c0 ^ 0x3b6a57b2 } else { c0 }),
    ;
    assert(c2 == a2 ^ b2) by (bit_vector)
        requires
            c1 == a1 ^ b1,
            tc == ta ^ tb,
            a2 == (if ta & 2 != 0 { a1 ^ 0x26508e6d } else { a1 }),
            b2 == (if tb & 2 != 0 { b1 ^ 0x26508e6d } else { b1 }),
            c2 == (if tc & 2 != 0 { c1 ^ 0x26508e6d } else { c1 }),
    ;
    assert(c3 == a3 ^ b3) by (bit_vector)
        requires
            c2 == a2 ^ b2,
            tc == ta ^ tb,
            a3 == (if ta & 4 != 0 { a2 ^ 0x1ea119fa } else { a2 }),
            b3 == (if tb & 4 != 0 { b2 ^ 0x1ea119fa } else { b2 }),
            c3 == (if tc & 4 != 0 { c2 ^ 0x1ea119fa } else { c2 }),
    ;
    assert(c4 == a4 ^ b4) by (bit_vector)
        requires
            c3 == a3 ^ b3,
            tc == ta ^ tb,
            a4 == (if ta & 8 != 0 { a3 ^ 0x3d4233dd } else { a3 }),
            b4 == (if tb & 8 != 0 { b3 ^ 0x3d4233dd } else { b3 }),
            c4 == (if tc & 8 != 0 { c3 ^ 0x3d4233dd } else { c3 }),
    ;
    assert(c5 == a5 ^ b5) by (bit_vector)
        requires
            c4 == a4 ^ b4,
            tc == ta ^ tb,
            a5 == (if ta & 16 != 0 { a4 ^ 0x2a1462b3 } else { a4 }),
            b5 == (if tb & 16 != 0 { b4 ^ 0x2a1462b3 } else { b4 }),
            c5 == (if tc & 16 != 0 { c4 ^ 0x2a1462b3 } else { c4 }),
    ;
}

/// A step from a nonzero thirty-bit state with the symbol 0 is nonzero.
pub proof fn lemma_advance_kernel(state: u32)
    requires
        state < 0x4000_0000,
        state != 0,
    ensures
        advance(state, 0) != 0,
{
    let top: u32 = state >> 25;
    let s0: u32 = ((state & 0x1ffffff) << 5) ^ (0u8 as u32);
    let s1: u32 = if top & 1 != 0 { s0 ^ 0x3b6a57b2 } else { s0 };
    let s2: u32 = if top & 2 != 0 { s1 ^ 0x26508e6d } else { s1 };
    let s3: u32 = if top & 4 != 0 { s2 ^ 0x1ea119fa } else { s2 };
    let s4: u32 = if top & 8 != 0 { s3 ^ 0x3d4233dd } else { s3 };
    let s5: u32 = if top & 16 != 0 { s4 ^ 0x2a1462b3 } else { s4 };
    assert(s5 != 0) by (bit_vector)
        requires
            state < 0x4000_0000,
            state != 0,
            top == state >> 25,
            s0 == ((state & 0x1ffffff) << 5) ^ (0u8 as u32),
            s1 == (if top & 1 != 0 { s0 ^ 0x3b6a57b2 } else { s0 }),
            s2 == (if top & 2 != 0 { s1 ^ 0x26508e6d } else { s1 }),
            s3 == (if top & 4 != 0 { s2 ^ 0x1ea119fa } else { s2 }),
            s4 == (if top & 8 != 0 { s3 ^ 0x3d4233dd } else { s3 }),
            s5 == (if top & 16 != 0 { s4 ^ 0x2a1462b3 } else { s4 }),
    ;
}

/// The facts of exclusive-or that the proofs of this file use.
proof fn lemma_xor_facts(a: u32, b: u32, v: u8, w: u8)
    ensures
        a ^ a == 0,
        (a ^ b) ^ b == a,
        a ^ (a ^ b) == b,
        a ^ 0 == a,
        0 ^ a == a,
        a ^ b == 0 ==> a == b,
        a < 0x4000_0000 && b < 0x4000_0000 ==> a ^ b < 0x4000_0000,
        v ^ v == 0,
        v ^ 0 == v,
        0 ^ v == v,
        v < 32 && w < 32 ==> v ^ w < 32,
{
    assert(a ^ a == 0 && (a ^ b) ^ b == a && a ^ (a ^ b) == b && a ^ 0 == a && 0 ^ a == a && (a ^ b
        == 0 ==> a == b) && (a < 0x4000_0000 && b < 0x4000_0000 ==> a ^ b < 0x4000_0000))
        by (bit_vector);
    assert(v ^ v == 0 && v ^ 0 == v && 0 ^ v == v && (v < 32 && w < 32 ==> v ^ w < 32))
        by (bit_vector);
}

/// Two different thirty-bit states stay different after the same symbol.
pub proof fn lemma_advance_separates_states(a: u32, b: u32, symbol: u8)
    requires
        a < 0x4000_0000,
        b < 0x4000_0000,
        a != b,
    ensures
        advance(a, symbol) != advance(b, symbol),
{
    let d: u32 = a ^ b;
    lemma_xor_facts(a, b, symbol, symbol);
    lemma_advance_linear(a, b, symbol, symbol);
    lemma_advance_kernel(d);
    lemma_xor_facts(advance(a, symbol), advance(b, symbol), 0, 0);
}

/// One state gives different states for two different symbols.
pub proof fn lemma_advance_separates_symbols(state: u32, v: u8, w: u8)
    requires
        v != w,
    ensures
        advance(state, v) != advance(state, w),
{
    let top: u32 = state >> 25;
    let base: u32 = (state & 0x1ffffff) << 5;
    let a0: u32 = base ^ (v as u32);
    let a1: u32 = if top & 1 != 0 { a0 ^ 0x3b6a57b2 } else { a0 };
    let a2: u32 = if top & 2 != 0 { a1 ^ 0x26508e6d } else { a1 };
    let a3: u32 = if top & 4 != 0 { a2 ^ 0x1ea119fa } else { a2 };
    let a4: u32 = if top & 8 != 0 { a3 ^ 0x3d4233dd } else { a3 };
    let a5: u32 = if top & 16 != 0 { a4 ^ 0x2a1462b3 } else { a4 };
    let b0: u32 = base ^ (w as u32);
    let b1: u32 = if top & 1 != 0 { b0 ^ 0x3b6a57b2 } else { b0 };
    let b2: u32 = if top & 2 != 0 { b1 ^ 0x26508e6d } else { b1 };
    let b3: u32 = if top & 4 != 0 { b2 ^ 0x1ea119fa } else { b2 };
    let b4: u32 = if top & 8 != 0 { b3 ^ 0x3d4233dd } else { b3 };
    let b5: u32 = if top & 16 != 0 { b4 ^ 0x2a1462b3 } else { b4 };
    assert(a0 != b0) by (bit_vector)
        requires
            v != w,
            a0 == base ^ (v as u32),
            b0 == base ^ (w as u32),
    ;
    assert(a5 != b5) by (bit_vector)
        requires
            a0 != b0,
            (a1 == a0 ^ 0x3b6a57b2 && b1 == b0 ^ 0x3b6a57b2) || (a1 == a0 && b1 == b0),
            (a2 == a1 ^ 0x26508e6d && b2 == b1 ^ 0x26508e6d) || (a2 == a1 && b2 == b1),
            (a3 == a2 ^ 0x1ea119fa && b3 == b2 ^ 0x1ea119fa) || (a3 == a2 && b3 == b2),
            (a4 == a3 ^ 0x3d4233dd && b4 == b3 ^ 0x3d4233dd) || (a4 == a3 && b4 == b3),
            (a5 == a4 ^ 0x2a1462b3 && b5 == b4 ^ 0x2a1462b3) || (a5 == a4 && b5 == b4),
    ;
}

/// Absorbing a concatenation is absorbing its parts in turn.
pub proof fn lemma_absorb_concat(state: u32, front: Seq<u8>, back: Seq<u8>)
    ensures
        absorb(state, front + back) == absorb(absorb(state, front), back),
    decreases back.len(),
{
    if back.len() == 0 {
        assert(front + back =~= front);
    } else {
        assert((front + back).drop_last() =~= front + back.drop_last());
        lemma_absorb_concat(state, front, back.drop_last());
    }
}

/// A state of thirty bits stays one while it takes in symbols.
pub proof fn lemma_absorb_bound(state: u32, symbols: Seq<u8>)
    requires
        state < 0x4000_0000,
        all_symbols(symbols),
    ensures
        absorb(state, symbols) < 0x4000_0000,
    decreases symbols.len(),
{
    if symbols.len() > 0 {
        lemma_absorb_bound(state, symbols.drop_last());
        lemma_advance_bound(absorb(state, symbols.drop_last()), symbols.last());
    }
}

/// Two different thirty-bit states stay different after the same symbols.
pub proof fn lemma_absorb_separates_states(a: u32, b: u32, symbols: Seq<u8>)
    requires
        a < 0x4000_0000,
        b < 0x4000_0000,
        a != b,
        all_symbols(symbols),
    ensures
        absorb(a, symbols) != absorb(b, symbols),
    decreases symbols.len(),
{
    if symbols.len() > 0 {
        let front = symbols.drop_last();
        lemma_absorb_separates_states(a, b, front);
        lemma_absorb_bound(a, front);
        lemma_absorb_bound(b, front);
        lemma_advance_separates_states(absorb(a, front), absorb(b, front), symbols.last());
    }
}

/// Changing one symbol of a sequence changes its checksum state.
pub proof fn lemma_substitution_detected(first: Seq<u8>, second: Seq<u8>, position: int)
    requires
        first.len() == second.len(),
        0 <= position < first.len(),
        first[position] != second[position],
        forall|i: int| 0 <= i < first.len() && i != position ==> first[i] == second[i],
        all_symbols(first),
        all_symbols(second),
    ensures
        polymod(first) != polymod(second),
{
    let front = first.take(position);
    let back = first.skip(position + 1);
    assert(second.take(position) =~= front);
    assert(second.skip(position + 1) =~= back);
    let mid_first = front.push(first[position]);
    let mid_second = front.push(second[position]);
    assert(first =~= mid_first + back);
    assert(second =~= mid_second + back);
    assert(mid_first.drop_last() =~= front);
    assert(mid_second.drop_last() =~= front);
    let s = absorb(1, front);
    lemma_absorb_bound(1, front);
    lemma_advance_separates_symbols(s, first[position], second[position]);
    lemma_advance_bound(s, first[position]);
    lemma_advance_bound(s, second[position]);
    lemma_absorb_concat(1, mid_first, back);
    lemma_absorb_concat(1, mid_second, back);
    lemma_absorb_separates_states(absorb(1, mid_first), absorb(1, mid_second), back);
}

/// A state below 2^25 takes in a symbol without feedback.
proof fn lemma_advance_small(state: u32, symbol: u8)
    requires
        state < 0x200_0000,
    ensures
        advance(state, symbol) == (state << 5) ^ (symbol as u32),
{
    let top: u32 = state >> 25;
    assert(top & 1 == 0 && top & 2 == 0 && top & 4 == 0 && top & 8 == 0 && top & 16 == 0 && ((state
        & 0x1ffffff) << 5) == state << 5) by (bit_vector)
        requires
            state < 0x200_0000,
            top == state >> 25,
    ;
}

/// Absorbing six symbols is six steps.
proof fn lemma_absorb_six(state: u32, symbols: Seq<u8>)
    requires
        symbols.len() == 6,
    ensures
        absorb(state, symbols) == advance(
            advance(
                advance(
                    advance(advance(advance(state, symbols[0]), symbols[1]), symbols[2]),
                    symbols[3],
                ),
                symbols[4],
            ),
            symbols[5],
        ),
{
    let s5 = symbols.drop_last();
    let s4 = s5.drop_last();
    let s3 = s4.drop_last();
    let s2 = s3.drop_last();
    let s1 = s2.drop_last();
    let s0 = s1.drop_last();
    assert(absorb(state, s0) == state);
    assert(absorb(state, s1) == advance(absorb(state, s0), s1.last()));
    assert(absorb(state, s2) == advance(absorb(state, s1), s2.last()));
    assert(absorb(state, s3) == advance(absorb(state, s2), s3.last()));
    assert(absorb(state, s4) == advance(absorb(state, s3), s4.last()));
    assert(absorb(state, s5) == advance(absorb(state, s4), s5.last()));
}

/// The six symbols of a thirty-bit word, absorbed from the state 0, give the
/// word back.
proof fn lemma_absorb_word(word: u32)
    requires
        word < 0x4000_0000,
    ensures
        absorb(0, word_symbols(word)) == word,
        all_symbols(word_symbols(word)),
{
    let c = word_symbols(word);
    let c0 = c[0];
    let c1 = c[1];
    let c2 = c[2];
    let c3 = c[3];
    let c4 = c[4];
    let c5 = c[5];
    let q1: u32 = (0u32 << 5) ^ (c0 as u32);
    let q2: u32 = (q1 << 5) ^ (c1 as u32);
    let q3: u32 = (q2 << 5) ^ (c2 as u32);
    let q4: u32 = (q3 << 5) ^ (c3 as u32);
    let q5: u32 = (q4 << 5) ^ (c4 as u32);
    let q6: u32 = (q5 << 5) ^ (c5 as u32);
    assert(q1 < 0x20 && q2 < 0x400 && q3 < 0x8000 && q4 < 0x10_0000 && q5 < 0x200_0000 && q6
        == word && c0 < 32 && c1 < 32 && c2 < 32 && c3 < 32 && c4 < 32 && c5 < 32) by (bit_vector)
        requires
            word < 0x4000_0000,
            c0 == ((word >> 25) & 31) as u8,
            c1 == ((word >> 20) & 31) as u8,
            c2 == ((word >> 15) & 31) as u8,
            c3 == ((word >> 10) & 31) as u8,
            c4 == ((word >> 5) & 31) as u8,
            c5 == (word & 31) as u8,
            q1 == (0u32 << 5) ^ (c0 as u32),
            q2 == (q1 << 5) ^ (c1 as u32),
            q3 == (q2 << 5) ^ (c2 as u32),
            q4 == (q3 << 5) ^ (c3 as u32),
            q5 == (q4 << 5) ^ (c4 as u32),
            q6 == (q5 << 5) ^ (c5 as u32),
    ;
    lemma_advance_small(0, c0);
    lemma_advance_small(q1, c1);
    lemma_advance_small(q2, c2);
    lemma_advance_small(q3, c3);
    lemma_advance_small(q4, c4);
    lemma_advance_small(q5, c5);
    lemma_absorb_six(0, c);
}

/// Absorbing is additive in the state and the symbols, here for a run of
/// symbols against a run of zeros of the same length.
proof fn lemma_absorb_splits(state: u32, symbols: Seq<u8>)
    ensures
        absorb(state, symbols) == absorb(state, Seq::new(symbols.len(), |i: int| 0u8)) ^ absorb(
            0,
            symbols,
        ),
    decreases symbols.len(),
{
    let zeros = Seq::new(symbols.len(), |i: int| 0u8);
    if symbols.len() == 0 {
        lemma_xor_facts(state, 0, 0, 0);
    } else {
        let front = symbols.drop_last();
        let front_zeros = Seq::new(front.len(), |i: int| 0u8);
        assert(zeros.drop_last() =~= front_zeros);
        lemma_absorb_splits(state, front);
        let p = absorb(state, front_zeros);
        let q = absorb(0, front);
        lemma_advance_linear(p, q, 0, symbols.last());
        lemma_xor_facts(p, q, symbols.last(), 0);
    }
}

/// The closing symbols close: after them the state is 1.
pub proof fn lemma_closing_symbols(state: u32)
    requires
        state < 0x4000_0000,
    ensures
        absorb(state, closing_symbols(state)) == 1,
        closing_symbols(state).len() == 6,
        all_symbols(closing_symbols(state)),
{
    let zeros = Seq::new(6, |i: int| 0u8);
    let p = absorb(state, zeros);
    lemma_absorb_bound(state, zeros);
    let word: u32 = p ^ 1;
    lemma_xor_facts(p, 1, 0, 0);
    let c = word_symbols(word);
    lemma_absorb_word(word);
    lemma_absorb_splits(state, c);
    assert(Seq::new(c.len(), |i: int| 0u8) =~= zeros);
}

/// A symbol sequence followed by its checksum has the checksum state 1.
pub proof fn lemma_checksum_verifies(symbols: Seq<u8>)
    requires
        all_symbols(symbols),
    ensures
        polymod(symbols + checksum(symbols)) == 1,
        checksum(symbols).len() == 6,
        all_symbols(checksum(symbols)),
{
    lemma_absorb_bound(1, symbols);
    lemma_closing_symbols(polymod(symbols));
    lemma_absorb_concat(1, symbols, checksum(symbols));
}

/// Advances a checksum state by one symbol.
pub fn advance_state(state: u32, symbol: u8) -> (next: u32)
    ensures
        next == advance(state, symbol),
{
    let top: u32 = state >> 25;
    let mut next: u32 = ((state & 0x1ffffff) << 5) ^ (symbol as u32);
    if top & 1 != 0 {
        next = next ^ 0x3b6a57b2;
    }
    if top & 2 != 0 {
        next = next ^ 0x26508e6d;
    }
    if top & 4 != 0 {
        next = next ^ 0x1ea119fa;
    }
    if top & 8 != 0 {
        next = next ^ 0x3d4233dd;
    }
    if top & 16 != 0 {
        next = next ^ 0x2a1462b3;
    }
    next
}

/// Advances a checksum state by a run of symbols.
pub fn absorb_symbols(state: u32, symbols: &[u8]) -> (next: u32)
    ensures
        next == absorb(state, symbols@),
{
    let mut next: u32 = state;
    let mut i: usize = 0;
    while i < symbols.len()
        invariant
            i <= symbols.len(),
            next == absorb(state, symbols@.take(i as int)),
        decreases symbols.len() - i,
    {
        proof {
            assert(symbols@.take(i + 1).drop_last() =~= symbols@.take(i as int));
        }
        next = advance_state(next, symbols[i]);
        i += 1;
    }
    proof {
        assert(symbols@.take(i as int) =~= symbols@);
    }
    next
}

/// The six symbols that close a sequence whose checksum state is `state`.
pub fn closing(state: u32) -> (symbols: Vec<u8>)
    ensures
        symbols@ == closing_symbols(state),
{
    let mut word: u32 = state;
    let mut i: usize = 0;
    while i < 6
        invariant
            i <= 6,
            word == absorb(state, Seq::new(i as nat, |k: int| 0u8)),
        decreases 6 - i,
    {
        proof {
            assert(Seq::new((i + 1) as nat, |k: int| 0u8).drop_last() =~= Seq::new(
                i as nat,
                |k: int| 0u8,
            ));
        }
        word = advance_state(word, 0);
        i += 1;
    }
    word = word ^ 1;
    proof {
        assert(((word >> 25) & 31) < 32 && ((word >> 20) & 31) < 32 && ((word >> 15) & 31) < 32 && (
        (word >> 10) & 31) < 32 && ((word >> 5) & 31) < 32 && (word & 31) < 32) by (bit_vector);
    }
    let mut symbols: Vec<u8> = Vec::with_capacity(6);
    symbols.push(((word >> 25) & 31) as u8);
    symbols.push(((word >> 20) & 31) as u8);
    symbols.push(((word >> 15) & 31) as u8);
    symbols.push(((word >> 10) & 31) as u8);
    symbols.push(((word >> 5) & 31) as u8);
    symbols.push((word & 31) as u8);
    proof {
        assert(symbols@ =~= closing_symbols(state));
    }
    symbols
}

/// While two states take in the same symbols, their difference drifts.
proof fn lemma_drift_tracks(a: u32, b: u32, symbols: Seq<u8>)
    ensures
        absorb(a, symbols) ^ absorb(b, symbols) == drift(a ^ b, symbols.len()),
    decreases symbols.len(),
{
    if symbols.len() > 0 {
        let front = symbols.drop_last();
        let last = symbols.last();
        lemma_drift_tracks(a, b, front);
        lemma_advance_linear(absorb(a, front), absorb(b, front), last, last);
        lemma_xor_facts(0, 0, last, last);
    }
}

/// Two different symbols below 4 differ by 1, 2 or 3.
pub proof fn lemma_small_difference(first: u8, second: u8)
    requires
        first < 4,
        second < 4,
        first != second,
    ensures
        1 <= first ^ second <= 3,
{
    assert(1 <= first ^ second <= 3) by (bit_vector)
        requires
            first < 4,
            second < 4,
            first != second,
    ;
}

/// Changing two symbols of a sequence, no more than 84 places apart and the
/// first of them by 1, 2 or 3, changes its checksum state. The second may
/// be changed in any way, or not at all.
pub proof fn lemma_pair_detected(first: Seq<u8>, second: Seq<u8>, near: int, far: int)
    requires
        first.len() == second.len(),
        0 <= near < far < first.len(),
        far - near <= 84,
        1 <= first[near] ^ second[near] <= 3,
        forall|i: int|
            0 <= i < first.len() && i != near && i != far ==> first[i] == second[i],
        all_symbols(first),
        all_symbols(second),
    ensures
        polymod(first) != polymod(second),
{
    let front = first.take(near);
    let mid = first.subrange(near + 1, far);
    let back = first.skip(far + 1);
    assert(second.take(near) =~= front);
    assert(second.subrange(near + 1, far) =~= mid);
    assert(second.skip(far + 1) =~= back);
    let start = absorb(1, front);
    lemma_absorb_bound(1, front);
    // The first change: the two states differ by the change itself.
    let x = first[near];
    let y = second[near];
    let seed: u32 = (x ^ y) as u32;
    let a1 = advance(start, x);
    let b1 = advance(start, y);
    lemma_advance_linear(start, start, x, y);
    lemma_xor_facts(start, start, x, y);
    lemma_advance_small(0, x ^ y);
    assert((0u32 << 5) ^ ((x ^ y) as u32) == (x ^ y) as u32) by (bit_vector);
    assert(a1 ^ b1 == seed);
    lemma_advance_bound(start, x);
    lemma_advance_bound(start, y);
    // Between the changes: the difference drifts.
    let a2 = absorb(a1, mid);
    let b2 = absorb(b1, mid);
    lemma_drift_tracks(a1, b1, mid);
    lemma_absorb_bound(a1, mid);
    lemma_absorb_bound(b1, mid);
    // The second change meets a difference of 32 or more, and cannot undo it.
    let x2 = first[far];
    let y2 = second[far];
    let a3 = advance(a2, x2);
    let b3 = advance(b2, y2);
    let gap = (far - near) as nat;
    lemma_advance_linear(a2, b2, x2, y2);
    lemma_advance_linear(a2 ^ b2, 0, 0, x2 ^ y2);
    lemma_xor_facts(a2 ^ b2, 0, x2 ^ y2, x2);
    lemma_xor_facts(a3, b3, x2, y2);
    lemma_advance_small(0, x2 ^ y2);
    assert((0u32 << 5) ^ ((x2 ^ y2) as u32) == (x2 ^ y2) as u32) by (bit_vector);
    assert(drift(seed, gap) == advance(drift(seed, (gap - 1) as nat), 0));
    lemma_small_seeds_drift_clear(seed);
    lemma_drifts_clear_at(seed, 84, gap);
    let grown = drift(seed, gap);
    let change: u32 = (x2 ^ y2) as u32;
    assert(grown ^ change != 0) by (bit_vector)
        requires
            grown >= 32,
            change < 32,
    ;
    assert(a3 ^ b3 == grown ^ change);
    assert(a3 != b3);
    lemma_advance_bound(a2, x2);
    lemma_advance_bound(b2, y2);
    lemma_absorb_separates_states(a3, b3, back);
    // The whole sequences, put together again.
    let head_first = front.push(x);
    let head_second = front.push(y);
    assert(head_first.drop_last() =~= front);
    assert(head_second.drop_last() =~= front);
    let upto_first = (head_first + mid).push(x2);
    let upto_second = (head_second + mid).push(y2);
    assert(upto_first.drop_last() =~= head_first + mid);
    assert(upto_second.drop_last() =~= head_second + mid);
    assert(first =~= upto_first + back);
    assert(second =~= upto_second + back);
    lemma_absorb_concat(1, head_first, mid);
    lemma_absorb_concat(1, head_second, mid);
    lemma_absorb_concat(1, upto_first, back);
    lemma_absorb_concat(1, upto_second, back);
}

} // verus!
