//! The thirty-two characters that stand for the five-bit symbols of a bech32
//! text, and the symbols that a human-readable prefix adds to the checksum.

use vstd::prelude::*;

verus! {

/// The character of each symbol, by the symbol's value.
pub const CHARSET: [char; 32] = [
    'q', 'p', 'z', 'r', 'y', '9', 'x', '8', 'g', 'f', '2', 't', 'v', 'd', 'w', '0',
    's', '3', 'j', 'n', '5', '4', 'k', 'h', 'c', 'e', '6', 'm', 'u', 'a', '7', 'l',
];

/// The character that stands for a symbol.
pub open spec fn symbol_char(symbol: u8) -> char
    recommends
        symbol < 32,
{
    CHARSET@[symbol as int]
}

/// The symbol below `limit` that `c` stands for, if there is one.
pub open spec fn symbol_below(c: char, limit: nat) -> Option<u8>
    decreases limit,
{
    if limit == 0 {
        None
    } else if limit <= 32 && CHARSET@[limit - 1] == c {
        Some((limit - 1) as u8)
    } else {
        symbol_below(c, (limit - 1) as nat)
    }
}

/// The symbol that `c` stands for, if it is one of the thirty-two.
pub open spec fn char_symbol(c: char) -> Option<u8> {
    symbol_below(c, 32)
}

/// The characters of a run of symbols.
pub open spec fn symbol_chars(symbols: Seq<u8>) -> Seq<char> {
    Seq::new(symbols.len(), |i: int| symbol_char(symbols[i]))
}

/// True if every character stands for a symbol.
pub open spec fn all_symbol_chars(text: Seq<char>) -> bool {
    forall|i: int| 0 <= i < text.len() ==> (#[trigger] char_symbol(text[i])) is Some
}

/// The symbols of a run of characters that all stand for one.
pub open spec fn char_symbols(text: Seq<char>) -> Seq<u8> {
    Seq::new(text.len(), |i: int| char_symbol(text[i]).unwrap())
}

/// What the search below `limit` finds is the symbol of the character, and
/// where it finds none no symbol below `limit` has the character.
pub proof fn lemma_symbol_below(c: char, limit: nat)
    requires
        limit <= 32,
    ensures
        match symbol_below(c, limit) {
            Some(symbol) => symbol < limit && symbol_char(symbol) == c,
            None => forall|k: u8| k < limit ==> symbol_char(k) != c,
        },
    decreases limit,
{
    if limit > 0 {
        lemma_symbol_below(c, (limit - 1) as nat);
        if CHARSET@[limit - 1] != c {
            match symbol_below(c, limit) {
                Some(symbol) => {},
                None => {
                    assert forall|k: u8| k < limit implies symbol_char(k) != c by {
                        if k < limit - 1 {
                        } else {
                            assert(k as int == limit - 1);
                        }
                    }
                },
            }
        }
    }
}

/// No character stands for two symbols.
pub proof fn lemma_charset_distinct(first: u8, second: u8)
    requires
        first < 32,
        second < 32,
        first != second,
    ensures
        symbol_char(first) != symbol_char(second),
{
}

/// The character of a symbol stands for that symbol, and it is a lower-case
/// letter or a digit other than `1`.
pub proof fn lemma_char_of_symbol(symbol: u8)
    requires
        symbol < 32,
    ensures
        char_symbol(symbol_char(symbol)) == Some(symbol),
        symbol_char(symbol) != '1',
{
    let c = symbol_char(symbol);
    lemma_symbol_below(c, 32);
    match char_symbol(c) {
        Some(found) => {
            if found != symbol {
                lemma_charset_distinct(found, symbol);
            }
        },
        None => {
            assert(symbol_char(symbol) != c);
        },
    }
}

/// A character that stands for a symbol is the character of that symbol.
pub proof fn lemma_symbol_of_char(c: char)
    requires
        char_symbol(c) is Some,
    ensures
        char_symbol(c).unwrap() < 32,
        symbol_char(char_symbol(c).unwrap()) == c,
{
    lemma_symbol_below(c, 32);
}

/// Symbols survive the trip through their characters.
pub proof fn lemma_symbols_round_trip(symbols: Seq<u8>)
    requires
        forall|i: int| 0 <= i < symbols.len() ==> #[trigger] symbols[i] < 32,
    ensures
        all_symbol_chars(symbol_chars(symbols)),
        char_symbols(symbol_chars(symbols)) == symbols,
{
    let text = symbol_chars(symbols);
    assert forall|i: int| 0 <= i < text.len() implies (#[trigger] char_symbol(text[i])) is Some by {
        lemma_char_of_symbol(symbols[i]);
    }
    assert forall|i: int| 0 <= i < symbols.len() implies char_symbols(text)[i] == symbols[i] by {
        lemma_char_of_symbol(symbols[i]);
    }
    assert(char_symbols(text) =~= symbols);
}

/// The character that stands for a symbol.
pub fn encode_symbol(symbol: u8) -> (c: char)
    requires
        symbol < 32,
    ensures
        c == symbol_char(symbol),
{
    CHARSET[symbol as usize]
}

/// The symbol that a character stands for, if any.
pub fn decode_symbol(c: char) -> (symbol: Option<u8>)
    ensures
        symbol == char_symbol(c),
{
    let mut limit: usize = 32;
    while limit > 0
        invariant
            limit <= 32,
            symbol_below(c, limit as nat) == char_symbol(c),
        decreases limit,
    {
        if CHARSET[limit - 1] == c {
            return Some((limit - 1) as u8);
        }
        limit -= 1;
    }
    None
}

} // verus!
