//! Regrouping of a bit string between eight-bit bytes and five-bit symbols.
//!
//! Both groupings are read as one number, first group most significant. The
//! symbols of a byte string are the digits, in base 32, of the number that
//! the bytes spell in base 256, shifted left by the zero bits that fill the
//! last symbol.

use vstd::prelude::*;

verus! {

/// The number that `digits` spell in `base`, first digit most significant.
pub open spec fn value(digits: Seq<u8>, base: nat) -> nat
    decreases digits.len(),
{
    if digits.len() == 0 {
        0
    } else {
        value(digits.drop_last(), base) * base + digits.last() as nat
    }
}

/// The last `count` digits of `number` in `base`, most significant first.
pub open spec fn digits(number: nat, base: nat, count: nat) -> Seq<u8>
    decreases count,
{
    if count == 0 || base == 0 {
        Seq::empty()
    } else {
        digits(number / base, base, (count - 1) as nat).push((number % base) as u8)
    }
}

/// `base` to the power `count`.
pub open spec fn span(base: nat, count: nat) -> nat
    decreases count,
{
    if count == 0 {
        1
    } else {
        base * span(base, (count - 1) as nat)
    }
}

/// True if every element is below `base`.
pub open spec fn all_below(digits: Seq<u8>, base: nat) -> bool {
    forall|i: int| 0 <= i < digits.len() ==> (#[trigger] digits[i] as nat) < base
}

/// Number of zero bits that fill the last symbol of `byte_count` bytes.
pub open spec fn padding_bits(byte_count: nat) -> nat {
    ((5 - (8 * byte_count) % 5) % 5) as nat
}

/// Number of symbols that hold `byte_count` bytes.
pub open spec fn symbol_count(byte_count: nat) -> nat {
    (8 * byte_count + 4) / 5
}

/// The five-bit symbols that hold the bits of `bytes`, zero bits filling the
/// last symbol.
pub open spec fn symbols_of_bytes(bytes: Seq<u8>) -> Seq<u8> {
    digits(
        value(bytes, 256) * span(2, padding_bits(bytes.len())),
        32,
        symbol_count(bytes.len()),
    )
}

/// The bytes whose bits the symbols hold: none if an element is no symbol, if
/// five bits or more are left over, or if a left-over bit is set.
pub open spec fn bytes_of_symbols(symbols: Seq<u8>) -> Option<Seq<u8>> {
    let spare = ((5 * symbols.len()) % 8) as nat;
    let number = value(symbols, 32);
    if all_below(symbols, 32) && spare < 5 && number % span(2, spare) == 0 {
        Some(digits(number / span(2, spare), 256, (5 * symbols.len() / 8) as nat))
    } else {
        None
    }
}

/// A power with a sum as exponent is the product of the powers.
pub proof fn lemma_span_adds(base: nat, first: nat, second: nat)
    ensures
        span(base, first + second) == span(base, first) * span(base, second),
    decreases first,
{
    if first == 0 {
        assert(span(base, first) == 1);
        assert(first + second == second);
        assert(1 * span(base, second) == span(base, second));
    } else {
        lemma_span_adds(base, (first - 1) as nat, second);
        assert((first + second - 1) as nat == (first - 1) as nat + second);
        let a = span(base, (first - 1) as nat);
        let b = span(base, second);
        assert(base * (a * b) == (base * a) * b) by (nonlinear_arith);
    }
}

/// Powers of 2^width are powers of two.
pub proof fn lemma_span_of_power(width: nat, count: nat)
    ensures
        span(span(2, width), count) == span(2, width * count),
    decreases count,
{
    if count == 0 {
        assert(width * count == 0);
    } else {
        lemma_span_of_power(width, (count - 1) as nat);
        assert(width * count == width + width * (count - 1)) by (nonlinear_arith)
            requires
                count > 0,
        ;
        lemma_span_adds(2, width, width * ((count - 1) as nat));
    }
}

/// The powers of two up to 2^12.
pub proof fn lemma_span_two(count: nat)
    requires
        count <= 12,
    ensures
        count == 0 <==> span(2, count) == 1,
        count == 1 <==> span(2, count) == 2,
        count == 2 <==> span(2, count) == 4,
        count == 3 <==> span(2, count) == 8,
        count == 4 <==> span(2, count) == 16,
        count == 5 <==> span(2, count) == 32,
        count == 6 <==> span(2, count) == 64,
        count == 7 <==> span(2, count) == 128,
        count == 8 <==> span(2, count) == 256,
        count == 9 <==> span(2, count) == 512,
        count == 10 <==> span(2, count) == 1024,
        count == 11 <==> span(2, count) == 2048,
        count == 12 <==> span(2, count) == 4096,
{
    reveal_with_fuel(span, 14);
}

/// Digits below the base are the digits of the number they spell.
pub proof fn lemma_digits_of_value(symbols: Seq<u8>, base: nat)
    requires
        0 < base <= 256,
        all_below(symbols, base),
    ensures
        digits(value(symbols, base), base, symbols.len()) == symbols,
    decreases symbols.len(),
{
    if symbols.len() > 0 {
        let front = symbols.drop_last();
        let last = symbols.last() as nat;
        lemma_digits_of_value(front, base);
        let number = value(front, base) * base + last;
        assert(number / base == value(front, base) && number % base == last) by (nonlinear_arith)
            requires
                number == value(front, base) * base + last,
                last < base,
        ;
        assert(digits(number, base, symbols.len()) =~= symbols);
    } else {
        assert(digits(value(symbols, base), base, symbols.len()) =~= symbols);
    }
}

/// `count` digits spell a number below base^count.
pub proof fn lemma_value_bound(symbols: Seq<u8>, base: nat)
    requires
        base > 0,
        all_below(symbols, base),
    ensures
        value(symbols, base) < span(base, symbols.len()),
    decreases symbols.len(),
{
    if symbols.len() > 0 {
        let front = symbols.drop_last();
        let last = symbols.last() as nat;
        lemma_value_bound(front, base);
        let v = value(front, base);
        let s = span(base, front.len());
        assert(v * base + last < base * s) by (nonlinear_arith)
            requires
                v < s,
                last < base,
        ;
    }
}

/// The digits of a number below base^count spell it, and are digits.
pub proof fn lemma_value_of_digits(number: nat, base: nat, count: nat)
    requires
        0 < base <= 256,
        number < span(base, count),
    ensures
        value(digits(number, base, count), base) == number,
        digits(number, base, count).len() == count,
        all_below(digits(number, base, count), base),
    decreases count,
{
    if count > 0 {
        let rest = (count - 1) as nat;
        let s = span(base, rest);
        assert(number / base < s) by (nonlinear_arith)
            requires
                number < base * s,
                base > 0,
        ;
        lemma_value_of_digits(number / base, base, rest);
        let front = digits(number / base, base, rest);
        let all = digits(number, base, count);
        assert(all.drop_last() =~= front);
        assert(number % base < base) by (nonlinear_arith)
            requires
                base > 0,
        ;
        assert((number / base) * base + number % base == number) by (nonlinear_arith)
            requires
                base > 0,
        ;
        assert forall|i: int| 0 <= i < all.len() implies (#[trigger] all[i] as nat) < base by {
            if i < rest {
                assert(all[i] == front[i]);
            }
        }
    }
}

/// The length of a digit string is the count asked for.
pub proof fn lemma_digits_len(number: nat, base: nat, count: nat)
    requires
        base > 0,
    ensures
        digits(number, base, count).len() == count,
    decreases count,
{
    if count > 0 {
        lemma_digits_len(number / base, base, (count - 1) as nat);
    }
}

/// Regrouping bytes into symbols and back gives the bytes.
pub proof fn lemma_regroup_round_trip(bytes: Seq<u8>)
    ensures
        bytes_of_symbols(symbols_of_bytes(bytes)) == Some(bytes),
        symbols_of_bytes(bytes).len() == symbol_count(bytes.len()),
        all_below(symbols_of_bytes(bytes), 32),
{
    let n = bytes.len();
    let m = symbol_count(n);
    let pad = padding_bits(n);
    assert(8 * n + pad == 5 * m);
    let v = value(bytes, 256);
    let factor = span(2, pad);
    lemma_span_two(pad);
    lemma_span_two(8);
    lemma_span_two(5);
    assert(all_below(bytes, 256));
    lemma_value_bound(bytes, 256);
    lemma_span_of_power(8, n);
    lemma_span_of_power(5, m);
    lemma_span_adds(2, 8 * n, pad);
    assert(v * factor < span(32, m)) by (nonlinear_arith)
        requires
            v < span(256, n),
            span(256, n) * factor == span(32, m),
            factor > 0,
    ;
    lemma_value_of_digits(v * factor, 32, m);
    let symbols = symbols_of_bytes(bytes);
    assert(symbols == digits(v * factor, 32, m));
    let spare = ((5 * symbols.len()) % 8) as nat;
    assert(spare == pad);
    assert(5 * symbols.len() / 8 == n);
    assert((v * factor) % factor == 0 && (v * factor) / factor == v) by (nonlinear_arith)
        requires
            factor > 0,
    ;
    lemma_digits_of_value(bytes, 256);
}

/// Symbols whose bits fill whole bytes always have bytes.
pub proof fn lemma_whole_bytes(symbols: Seq<u8>)
    requires
        all_below(symbols, 32),
        (5 * symbols.len()) % 8 == 0,
    ensures
        bytes_of_symbols(symbols) is Some,
        bytes_of_symbols(symbols).unwrap().len() == 5 * symbols.len() / 8,
{
    lemma_span_two(0);
    lemma_digits_len(value(symbols, 32) / 1, 256, (5 * symbols.len() / 8) as nat);
}

/// Splitting the top group off an accumulator.
proof fn lemma_take_group(acc: nat, high: nat, low: nat, group: nat, front: nat)
    requires
        low > 0,
        high == group * low,
        acc < high,
    ensures
        acc / low < group,
        acc % low < low,
        (front * group + acc / low) * low + acc % low == front * high + acc,
{
    assert(acc / low < group) by (nonlinear_arith)
        requires
            low > 0,
            acc < group * low,
    ;
    assert(acc % low < low && (acc / low) * low + acc % low == acc) by (nonlinear_arith)
        requires
            low > 0,
    ;
    assert((front * group + acc / low) * low == front * (group * low) + (acc / low) * low)
        by (nonlinear_arith);
}

/// Taking one more group into an accumulator.
proof fn lemma_add_group(front: nat, scale: nat, acc: nat, group: nat, next: nat)
    requires
        acc < scale,
        next < group,
    ensures
        acc * group + next < scale * group,
        (front * scale + acc) * group + next == front * (scale * group) + (acc * group + next),
{
    assert(acc * group + next < scale * group) by (nonlinear_arith)
        requires
            acc < scale,
            next < group,
    ;
    assert((front * scale + acc) * group + next == front * (scale * group) + (acc * group + next))
        by (nonlinear_arith);
}

/// One more digit at the end multiplies the number by the base and adds
/// the digit.
proof fn lemma_value_push(symbols: Seq<u8>, base: nat, next: u8)
    ensures
        value(symbols.push(next), base) == value(symbols, base) * base + next as nat,
{
    assert(symbols.push(next).drop_last() =~= symbols);
}

/// Regroups bytes into five-bit symbols, zero bits filling the last one.
pub fn bytes_to_symbols(bytes: &[u8]) -> (symbols: Vec<u8>)
    ensures
        symbols@ == symbols_of_bytes(bytes@),
{
    let mut symbols: Vec<u8> = Vec::new();
    let mut acc: u32 = 0;
    let mut scale: u32 = 1;
    let ghost mut bits: nat = 0;
    let mut i: usize = 0;
    while i < bytes.len()
        invariant
            i <= bytes.len(),
            bits < 5,
            scale == span(2, bits),
            acc < scale,
            all_below(symbols@, 32),
            5 * symbols@.len() + bits == 8 * i,
            value(symbols@, 32) * scale + acc == value(bytes@.take(i as int), 256),
        decreases bytes.len() - i,
    {
        proof {
            lemma_span_two(bits);
            lemma_span_two(bits + 8);
            assert(bytes@.take(i + 1).drop_last() =~= bytes@.take(i as int));
            lemma_add_group(
                value(symbols@, 32),
                scale as nat,
                acc as nat,
                256,
                bytes[i as int] as nat,
            );
            bits = bits + 8;
        }
        acc = acc * 256 + bytes[i] as u32;
        scale = scale * 256;
        while scale >= 32
            invariant
                i < bytes.len(),
                bits <= 12,
                scale == span(2, bits),
                acc < scale,
                all_below(symbols@, 32),
                5 * symbols@.len() + bits == 8 * (i + 1),
                value(symbols@, 32) * scale + acc == value(bytes@.take(i + 1), 256),
            decreases scale,
        {
            proof {
                lemma_span_two(bits);
                lemma_span_two((bits - 5) as nat);
                lemma_take_group(
                    acc as nat,
                    scale as nat,
                    (scale / 32) as nat,
                    32,
                    value(symbols@, 32),
                );
                lemma_value_push(symbols@, 32, (acc / (scale / 32)) as u8);
                bits = (bits - 5) as nat;
            }
            scale = scale / 32;
            let symbol: u8 = (acc / scale) as u8;
            acc = acc % scale;
            symbols.push(symbol);
        }
        proof {
            lemma_span_two(bits);
        }
        i += 1;
    }
    proof {
        lemma_span_two(bits);
        assert(bytes@.take(i as int) =~= bytes@);
    }
    let ghost total = value(bytes@, 256);
    let ghost front = value(symbols@, 32);
    let ghost pad = padding_bits(bytes@.len());
    if scale > 1 {
        let fill: u32 = 32 / scale;
        proof {
            lemma_span_two((5 - bits) as nat);
            assert(pad == 5 - bits);
            if scale == 2 {
                assert(fill == 16 && bits == 1);
            } else if scale == 4 {
                assert(fill == 8 && bits == 2);
            } else if scale == 8 {
                assert(fill == 4 && bits == 3);
            } else {
                assert(bits == 4);
                assert(scale == 16);
                assert(fill == 2);
            }
            assert(fill == span(2, pad));
            assert(scale * fill == 32);
            lemma_add_group(front, scale as nat, acc as nat, fill as nat, 0);
            assert(acc * fill < 32);
            lemma_value_push(symbols@, 32, (acc * fill) as u8);
            assert(front * 32 + acc * fill == total * span(2, pad));
        }
        symbols.push((acc * fill) as u8);
    } else {
        proof {
            assert(bits == 0 && acc == 0);
            assert(pad == 0);
            assert(span(2, pad) == 1);
            assert(front * 1 == front);
            assert(total * 1 == total);
        }
    }
    proof {
        assert(value(symbols@, 32) == total * span(2, pad));
        assert(symbols@.len() == symbol_count(bytes@.len()));
        lemma_digits_of_value(symbols@, 32);
    }
    symbols
}

/// Regroups five-bit symbols into bytes: none if an element is no symbol, if
/// five bits or more are left over, or if a left-over bit is set.
pub fn symbols_to_bytes(symbols: &[u8]) -> (bytes: Option<Vec<u8>>)
    ensures
        match bytes {
            Some(found) => bytes_of_symbols(symbols@) == Some(found@),
            None => bytes_of_symbols(symbols@) is None,
        },
{
    let mut bytes: Vec<u8> = Vec::new();
    let mut acc: u32 = 0;
    let mut scale: u32 = 1;
    let ghost mut bits: nat = 0;
    let mut i: usize = 0;
    while i < symbols.len()
        invariant
            i <= symbols.len(),
            bits < 8,
            scale == span(2, bits),
            acc < scale,
            all_below(symbols@.take(i as int), 32),
            all_below(bytes@, 256),
            8 * bytes@.len() + bits == 5 * i,
            value(bytes@, 256) * scale + acc == value(symbols@.take(i as int), 32),
        decreases symbols.len() - i,
    {
        let symbol: u8 = symbols[i];
        if symbol >= 32 {
            return None;
        }
        proof {
            lemma_span_two(bits);
            lemma_span_two(bits + 5);
            assert(symbols@.take(i + 1).drop_last() =~= symbols@.take(i as int));
            lemma_add_group(value(bytes@, 256), scale as nat, acc as nat, 32, symbol as nat);
            bits = bits + 5;
            assert forall|k: int| 0 <= k < i + 1 implies (#[trigger] symbols@.take(i + 1)[k] as nat)
                < 32 by {
                if k < i {
                    assert(symbols@.take(i as int)[k] == symbols@[k]);
                }
            }
        }
        acc = acc * 32 + symbol as u32;
        scale = scale * 32;
        if scale >= 256 {
            proof {
                lemma_span_two((bits - 8) as nat);
                lemma_take_group(
                    acc as nat,
                    scale as nat,
                    (scale / 256) as nat,
                    256,
                    value(bytes@, 256),
                );
                lemma_value_push(bytes@, 256, (acc / (scale / 256)) as u8);
                bits = (bits - 8) as nat;
            }
            scale = scale / 256;
            let byte: u8 = (acc / scale) as u8;
            acc = acc % scale;
            bytes.push(byte);
        }
        proof {
            lemma_span_two(bits);
        }
        i += 1;
    }
    proof {
        lemma_span_two(bits);
        assert(symbols@.take(i as int) =~= symbols@);
        let front = value(bytes@, 256);
        assert((front * scale + acc) % (scale as int) == acc && (front * scale + acc) / (
        scale as int) == front) by (nonlinear_arith)
            requires
                acc < scale,
        ;
        lemma_digits_of_value(bytes@, 256);
    }
    if scale >= 32 || acc != 0 {
        None
    } else {
        Some(bytes)
    }
}

} // verus!
