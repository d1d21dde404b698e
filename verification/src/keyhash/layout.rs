//! How the twenty bytes of a key hash are laid out as text, and read back,
//! in each family of formats.

use crate::address::{AddressError, AddressFault};
use crate::codec::base16::{hex_bytes, hex_failure_text, hex_text};
use crate::codec::bytes::append;
use crate::codec::charset::{
    char_symbol, char_symbols, decode_symbol, encode_symbol, lemma_symbol_of_char, symbol_chars,
};
use crate::codec::digest::{check_bytes, compute_check_bytes};
use crate::codec::polymod::{
    absorb_symbols, all_symbols, checksum, closing, lemma_checksum_verifies, polymod,
};
use crate::codec::prefix::{
    expand, expand_prefix, lemma_expand_symbols, prefix_char, valid_prefix,
};
use crate::codec::radix58::{all_base58, base58_bytes, base58_failure_text, base58_text};
use crate::codec::regroup::{
    bytes_of_symbols, bytes_to_symbols, lemma_regroup_round_trip, lemma_whole_bytes,
    symbols_of_bytes, symbols_to_bytes,
};
use crate::codec::text::{copy_range, push_char, same_text};
use crate::codec::{base16, radix58};
use vstd::prelude::*;
use vstd::slice::{slice_subrange, slice_to_vec};

verus! {

/// Number of bytes in a key hash.
pub const PAYLOAD_BYTES: usize = 20;

/// Number of characters in a hexadecimal address.
pub const HEX_CHARS: usize = 40;

/// Number of bytes under the base-58 checksum: the version and the hash.
pub const BODY_BYTES: usize = 21;

/// Number of bytes in a base-58 address: the body and four check bytes.
pub const FRAME_BYTES: usize = 25;

/// The most characters in a base-58 address.
pub const BASE58_MAX_CHARS: usize = 35;

/// The symbol that opens the data of a bech32 address.
pub const WITNESS_VERSION: u8 = 0;

/// Number of symbols under the bech32 checksum: the opening symbol and the
/// hash.
pub const DATA_SYMBOLS: usize = 33;

/// Number of characters after the separator of a bech32 address.
pub const TAIL_CHARS: usize = 39;

/// The fewest characters in a bech32 address: a prefix of one.
pub const BECH32_MIN_CHARS: usize = 41;

/// The most characters in a bech32 address: a prefix of 83.
pub const BECH32_MAX_CHARS: usize = 123;

/// The hash that a hexadecimal text holds, or why it holds none.
pub open spec fn hex_parse(text: Seq<char>) -> Result<Seq<u8>, AddressFault> {
    if text.len() != HEX_CHARS {
        Err(AddressFault::CharacterLength(text.len() as usize))
    } else {
        match hex_bytes(text) {
            Some(payload) => Ok(payload),
            None => Err(AddressFault::Foreign("hex"@, hex_failure_text(text))),
        }
    }
}

/// The bytes that a base-58 address spells: version, hash, check bytes.
pub open spec fn frame(version: u8, payload: Seq<u8>) -> Seq<u8> {
    let body = seq![version] + payload;
    body + check_bytes(body)
}

/// The base-58 text of a hash under a version.
pub open spec fn base58check_text(version: u8, payload: Seq<u8>) -> Seq<char> {
    base58_text(frame(version, payload))
}

/// The hash that a base-58 text holds under a version, or why it holds none.
pub open spec fn base58check_parse(text: Seq<char>, version: u8) -> Result<Seq<u8>, AddressFault> {
    if text.len() > BASE58_MAX_CHARS {
        Err(AddressFault::CharacterLength(text.len() as usize))
    } else if !all_base58(text) {
        Err(AddressFault::Foreign("base58"@, base58_failure_text(text)))
    } else {
        match base58_bytes(text) {
            None => Err(AddressFault::Foreign("base58"@, base58_failure_text(text))),
            Some(bytes) => if bytes.len() != FRAME_BYTES {
                Err(AddressFault::ByteLength(bytes.len() as usize))
            } else if check_bytes(bytes.take(BODY_BYTES as int)) != bytes.skip(BODY_BYTES as int) {
                Err(AddressFault::Checksum)
            } else if bytes[0] != version {
                Err(AddressFault::Version(bytes[0]))
            } else {
                Ok(bytes.subrange(1, BODY_BYTES as int))
            },
        }
    }
}

/// The symbols under the bech32 checksum: the opening symbol and the hash.
pub open spec fn data_symbols(payload: Seq<u8>) -> Seq<u8> {
    seq![WITNESS_VERSION] + symbols_of_bytes(payload)
}

/// The bech32 text of a hash under a prefix.
pub open spec fn bech32_text(prefix: Seq<char>, payload: Seq<u8>) -> Seq<char> {
    let data = data_symbols(payload);
    prefix + seq!['1'] + symbol_chars(data + checksum(expand_prefix(prefix) + data))
}

/// True if the character at `i` can stand there in a bech32 address whose
/// separator is at `split`: before it a prefix character, at it a `1`, after
/// it the character of a symbol.
pub open spec fn admissible(text: Seq<char>, split: int, i: int) -> bool {
    if i < split {
        prefix_char(text[i])
    } else if i == split {
        text[i] == '1'
    } else {
        char_symbol(text[i]) is Some
    }
}

/// The first index from `from` on whose character cannot stand there, or the
/// length of the text if there is none.
pub open spec fn first_inadmissible(text: Seq<char>, split: int, from: int) -> int
    decreases text.len() - from,
{
    if from < 0 || from >= text.len() {
        text.len() as int
    } else if !admissible(text, split, from) {
        from
    } else {
        first_inadmissible(text, split, from + 1)
    }
}

/// True if a `1` stands at `split` and none after it.
pub open spec fn separated(text: Seq<char>, split: int) -> bool {
    &&& text[split] == '1'
    &&& forall|k: int| split < k < text.len() ==> text[k] != '1'
}

/// The hash that a bech32 text holds under a prefix, or why it holds none.
/// Only text without upper-case letters is an address.
///
/// The separator is looked for 40 characters from the end. A text that is
/// not as long as an address under `prefix` is taken for an address under
/// another prefix if a `1` stands there and none after it; otherwise its
/// length is at fault. The checksum is tested with the prefix that the text
/// carries, and that prefix is held against `prefix` only then.
pub open spec fn bech32_parse(text: Seq<char>, prefix: Seq<char>) -> Result<Seq<u8>, AddressFault> {
    let count = text.len() as int;
    let split = count - TAIL_CHARS - 1;
    let bad = first_inadmissible(text, split, 0);
    let head = text.take(split);
    let symbols = char_symbols(text.skip(split + 1));
    if count < BECH32_MIN_CHARS || count > BECH32_MAX_CHARS {
        Err(AddressFault::CharacterLength(count as usize))
    } else if count != prefix.len() + TAIL_CHARS + 1 && !separated(text, split) {
        Err(AddressFault::CharacterLength(count as usize))
    } else if bad < count {
        Err(AddressFault::Character(text[bad], bad as usize))
    } else if polymod(expand_prefix(head) + symbols) != 1 {
        Err(AddressFault::Checksum)
    } else if symbols[0] != WITNESS_VERSION {
        Err(AddressFault::Version(symbols[0]))
    } else if head != prefix {
        Err(AddressFault::Prefix(head))
    } else {
        Ok(bytes_of_symbols(symbols.subrange(1, DATA_SYMBOLS as int)).unwrap())
    }
}

/// Every index before `upto` is admissible exactly if the first
/// inadmissible index from 0 is the first from `upto`.
pub proof fn lemma_admissible_prefix(text: Seq<char>, split: int, from: int, upto: int)
    requires
        0 <= from <= upto <= text.len(),
        forall|k: int| from <= k < upto ==> admissible(text, split, k),
    ensures
        first_inadmissible(text, split, from) == first_inadmissible(text, split, upto),
    decreases upto - from,
{
    if from < upto {
        lemma_admissible_prefix(text, split, from + 1, upto);
    }
}

/// The first inadmissible index is inadmissible, and nothing before it is.
pub proof fn lemma_first_inadmissible(text: Seq<char>, split: int, from: int)
    requires
        0 <= from <= text.len(),
    ensures
        from <= first_inadmissible(text, split, from) <= text.len(),
        first_inadmissible(text, split, from) < text.len() ==> !admissible(
            text,
            split,
            first_inadmissible(text, split, from),
        ),
        forall|k: int|
            from <= k < first_inadmissible(text, split, from) ==> admissible(text, split, k),
    decreases text.len() - from,
{
    if from < text.len() && admissible(text, split, from) {
        lemma_first_inadmissible(text, split, from + 1);
    }
}

/// Writes a hash as hexadecimal text.
pub(crate) fn write_hex(payload: &[u8]) -> (text: String)
    ensures
        text@ == hex_text(payload@),
{
    base16::encode(payload)
}

/// Reads a hash from hexadecimal text.
pub(crate) fn read_hex(text: &str) -> (r: Result<Vec<u8>, AddressError>)
    ensures
        match r {
            Ok(payload) => hex_parse(text@) == Ok::<Seq<u8>, AddressFault>(payload@),
            Err(error) => hex_parse(text@) == Err::<Seq<u8>, AddressFault>(error@),
        },
{
    let count: usize = text.unicode_len();
    if count != HEX_CHARS {
        return Err(AddressError::InvalidCharacterLength(count));
    }
    match base16::decode(text) {
        Ok(payload) => Ok(payload),
        Err(error) => Err(AddressError::from(error)),
    }
}

/// Writes a hash as base-58 text under a version.
pub(crate) fn write_base58check(version: u8, payload: &[u8]) -> (text: String)
    requires
        payload@.len() == PAYLOAD_BYTES,
    ensures
        text@ == base58check_text(version, payload@),
        base58check_parse(text@, version) == Ok::<Seq<u8>, AddressFault>(payload@),
        forall|other: u8|
            other != version ==> base58check_parse(text@, other) == Err::<Seq<u8>, AddressFault>(
                AddressFault::Version(version),
            ),
        text@.len() <= BASE58_MAX_CHARS,
{
    let mut bytes: Vec<u8> = Vec::with_capacity(FRAME_BYTES);
    bytes.push(version);
    append(&mut bytes, payload);
    let check: Vec<u8> = compute_check_bytes(bytes.as_slice());
    let ghost body = bytes@;
    append(&mut bytes, check.as_slice());
    proof {
        assert(body =~= seq![version] + payload@);
        assert(bytes@ =~= frame(version, payload@));
        assert(bytes@.take(BODY_BYTES as int) =~= body);
        assert(bytes@.skip(BODY_BYTES as int) =~= check_bytes(body));
        assert(bytes@.subrange(1, BODY_BYTES as int) =~= payload@);
    }
    radix58::encode(bytes.as_slice())
}

/// Reads a hash from base-58 text under a version. The four check bytes are
/// all compared, whether or not an earlier one differs.
pub(crate) fn read_base58check(text: &str, version: u8) -> (r: Result<Vec<u8>, AddressError>)
    ensures
        match r {
            Ok(payload) => base58check_parse(text@, version) == Ok::<Seq<u8>, AddressFault>(
                payload@,
            ),
            Err(error) => base58check_parse(text@, version) == Err::<Seq<u8>, AddressFault>(
                error@,
            ),
        },
{
    let count: usize = text.unicode_len();
    if count > BASE58_MAX_CHARS {
        return Err(AddressError::InvalidCharacterLength(count));
    }
    match radix58::decode(text) {
        Err(error) => Err(AddressError::from(error)),
        Ok(bytes) => {
            if bytes.len() != FRAME_BYTES {
                return Err(AddressError::InvalidByteLength(bytes.len()));
            }
            let check: Vec<u8> = compute_check_bytes(
                slice_subrange(bytes.as_slice(), 0, BODY_BYTES),
            );
            let mut same: bool = true;
            let mut i: usize = 0;
            while i < 4
                invariant
                    i <= 4,
                    bytes@.len() == FRAME_BYTES,
                    check@.len() == 4,
                    same <==> forall|k: int| 0 <= k < i ==> check@[k] == bytes@[BODY_BYTES + k],
                decreases 4 - i,
            {
                if check[i] != bytes[BODY_BYTES + i] {
                    same = false;
                }
                i += 1;
            }
            proof {
                let tail = bytes@.skip(BODY_BYTES as int);
                assert(bytes@.take(BODY_BYTES as int) =~= bytes@.subrange(0, BODY_BYTES as int));
                if same {
                    assert(check@ =~= tail);
                } else {
                    let k = choose|k: int| 0 <= k < 4 && check@[k] != bytes@[BODY_BYTES + k];
                    assert(tail[k] == bytes@[BODY_BYTES + k]);
                }
            }
            if !same {
                return Err(AddressError::InvalidChecksum);
            }
            if bytes[0] != version {
                return Err(AddressError::InvalidVersion(bytes[0]));
            }
            Ok(slice_to_vec(slice_subrange(bytes.as_slice(), 1, BODY_BYTES)))
        },
    }
}

/// Writes a hash as bech32 text under a prefix.
pub(crate) fn write_bech32(prefix: &str, payload: &[u8]) -> (text: String)
    requires
        valid_prefix(prefix@),
        payload@.len() == PAYLOAD_BYTES,
    ensures
        text@ == bech32_text(prefix@, payload@),
{
    let mut data: Vec<u8> = Vec::new();
    data.push(WITNESS_VERSION);
    let hash_symbols: Vec<u8> = bytes_to_symbols(payload);
    append(&mut data, hash_symbols.as_slice());
    let mut stream: Vec<u8> = expand(prefix);
    append(&mut stream, data.as_slice());
    let state: u32 = absorb_symbols(1, stream.as_slice());
    let check: Vec<u8> = closing(state);
    let ghost covered = data@;
    proof {
        assert(covered =~= data_symbols(payload@));
        lemma_regroup_round_trip(payload@);
        lemma_expand_symbols(prefix@);
        assert(all_symbols(stream@));
        lemma_checksum_verifies(stream@);
    }
    append(&mut data, check.as_slice());
    let mut text: String = prefix.to_owned();
    push_char(&mut text, '1');
    let mut i: usize = 0;
    while i < data.len()
        invariant
            i <= data.len(),
            all_symbols(data@),
            text@ == prefix@ + seq!['1'] + symbol_chars(data@.take(i as int)),
        decreases data.len() - i,
    {
        let c: char = encode_symbol(data[i]);
        push_char(&mut text, c);
        proof {
            assert(symbol_chars(data@.take(i + 1)) =~= symbol_chars(data@.take(i as int)).push(c));
            assert(text@ =~= prefix@ + seq!['1'] + symbol_chars(data@.take(i + 1)));
        }
        i += 1;
    }
    proof {
        assert(data@.take(i as int) =~= data@);
    }
    text
}

/// Reads a hash from bech32 text under a prefix.
pub(crate) fn read_bech32(text: &str, prefix: &str) -> (r: Result<Vec<u8>, AddressError>)
    ensures
        match r {
            Ok(payload) => bech32_parse(text@, prefix@) == Ok::<Seq<u8>, AddressFault>(payload@),
            Err(error) => bech32_parse(text@, prefix@) == Err::<Seq<u8>, AddressFault>(error@),
        },
{
    let count: usize = text.unicode_len();
    if count < BECH32_MIN_CHARS || count > BECH32_MAX_CHARS {
        return Err(AddressError::InvalidCharacterLength(count));
    }
    let split: usize = count - TAIL_CHARS - 1;
    if prefix.unicode_len() != split {
        let mut apart: bool = text.get_char(split) == '1';
        let mut k: usize = split + 1;
        while k < count
            invariant
                split < k <= count,
                count == text@.len(),
                apart <==> (text@[split as int] == '1' && forall|j: int|
                    split < j < k ==> text@[j] != '1'),
            decreases count - k,
        {
            if text.get_char(k) == '1' {
                apart = false;
            }
            k += 1;
        }
        if !apart {
            return Err(AddressError::InvalidCharacterLength(count));
        }
    }
    let mut symbols: Vec<u8> = Vec::with_capacity(TAIL_CHARS);
    let mut i: usize = 0;
    while i < count
        invariant
            i <= count,
            count == text@.len(),
            BECH32_MIN_CHARS <= count <= BECH32_MAX_CHARS,
            split == count - TAIL_CHARS - 1,
            count == prefix@.len() + TAIL_CHARS + 1 || separated(text@, split as int),
            forall|k: int| 0 <= k < i ==> admissible(text@, split as int, k),
            symbols@.len() == (if i > split {
                i - split - 1
            } else {
                0
            }),
            forall|k: int|
                0 <= k < symbols@.len() ==> char_symbol(#[trigger] text@[split + 1 + k]) == Some(
                    symbols@[k],
                ),
        decreases count - i,
    {
        let c: char = text.get_char(i);
        let mut fits: bool = true;
        if i < split {
            let code: u32 = c as u32;
            fits = 33 <= code && code <= 126 && !(65 <= code && code <= 90);
        } else if i == split {
            fits = c == '1';
        } else {
            match decode_symbol(c) {
                Some(symbol) => {
                    symbols.push(symbol);
                },
                None => {
                    fits = false;
                },
            }
        }
        proof {
            assert(fits == admissible(text@, split as int, i as int));
        }
        if !fits {
            proof {
                lemma_admissible_prefix(text@, split as int, 0, i as int);
                assert(first_inadmissible(text@, split as int, i as int) == i);
            }
            return Err(AddressError::InvalidCharacter(c, i));
        }
        i += 1;
    }
    let head: String = copy_range(text, 0, split);
    proof {
        lemma_admissible_prefix(text@, split as int, 0, count as int);
        assert(head@ =~= text@.take(split as int));
        let tail = text@.skip(split + 1);
        assert forall|k: int| 0 <= k < symbols@.len() implies symbols@[k] == char_symbols(
            tail,
        )[k] by {
            assert(tail[k] == text@[split + 1 + k]);
        }
        assert(symbols@ =~= char_symbols(tail));
        assert forall|k: int| 0 <= k < head@.len() implies prefix_char(#[trigger] head@[k]) by {
            assert(admissible(text@, split as int, k));
        }
        assert forall|k: int| 0 <= k < symbols@.len() implies #[trigger] symbols@[k] < 32 by {
            lemma_symbol_of_char(text@[split + 1 + k]);
        }
    }
    let mut stream: Vec<u8> = expand(head.as_str());
    append(&mut stream, symbols.as_slice());
    if absorb_symbols(1, stream.as_slice()) != 1 {
        return Err(AddressError::InvalidChecksum);
    }
    if symbols[0] != WITNESS_VERSION {
        return Err(AddressError::InvalidVersion(symbols[0]));
    }
    let same: bool = same_text(head.as_str(), prefix);
    if !same {
        return Err(AddressError::InvalidPrefix(head));
    }
    proof {
        let hash = symbols@.subrange(1, DATA_SYMBOLS as int);
        assert forall|k: int| 0 <= k < hash.len() implies (#[trigger] hash[k] as nat) < 32 by {
            assert(hash[k] == symbols@[k + 1]);
        }
        lemma_whole_bytes(hash);
    }
    match symbols_to_bytes(slice_subrange(symbols.as_slice(), 1, DATA_SYMBOLS)) {
        Some(payload) => Ok(payload),
        None => {
            // Thirty-two symbols fill twenty bytes and leave no bit over.
            proof {
                assert(false);
            }
            Err(AddressError::InvalidChecksum)
        },
    }
}

} // verus!
