//! What holds of every key-hash address and every text.

use crate::address::AddressFault;
use crate::codec::base16::{char_digit, hex_failure_text, hex_text, lemma_hex_round_trip};
use crate::codec::charset::{
    char_symbol, char_symbols, lemma_char_of_symbol, lemma_symbol_of_char,
    lemma_symbols_round_trip, symbol_chars,
};
use crate::codec::digest::check_bytes;
use crate::codec::polymod::{
    all_symbols, checksum, lemma_checksum_verifies, lemma_pair_detected, lemma_small_difference,
    lemma_substitution_detected,
};
use crate::codec::prefix::{expand_prefix, lemma_expand_symbols, prefix_char, valid_prefix};
use crate::codec::radix58::{
    all_base58, base58_bytes, base58_char, base58_failure_text, base58_text, text_bound,
};
use crate::codec::regroup::{lemma_regroup_round_trip, lemma_whole_bytes, symbols_of_bytes};
use crate::keyhash::address::{parse_spec, payload_spec, text_spec, AddressView};
use crate::keyhash::format::FormatView;
use crate::keyhash::layout::{
    admissible, base58check_parse, bech32_parse, bech32_text, data_symbols, first_inadmissible, frame, hex_parse,
    lemma_admissible_prefix, lemma_first_inadmissible, separated, BASE58_MAX_CHARS,
    BECH32_MAX_CHARS, BECH32_MIN_CHARS, BODY_BYTES, DATA_SYMBOLS, FRAME_BYTES, HEX_CHARS,
    PAYLOAD_BYTES, TAIL_CHARS,
};
use vstd::prelude::*;

verus! {

/// Two characters that differ have different codes.
proof fn lemma_codes_differ(first: char, second: char)
    requires
        first != second,
    ensures
        first as nat != second as nat,
{
}

/// Whatever the character of a symbol is, it is not the separator.
proof fn lemma_symbol_char_apart(c: char)
    requires
        char_symbol(c) is Some,
    ensures
        c != '1',
{
    lemma_symbol_of_char(c);
    lemma_char_of_symbol(char_symbol(c).unwrap());
}

/// What a bech32 text that passes every check of characters is made of.
proof fn lemma_bech32_parts(text: Seq<char>)
    requires
        BECH32_MIN_CHARS <= text.len() <= BECH32_MAX_CHARS,
        first_inadmissible(text, text.len() - TAIL_CHARS - 1, 0) >= text.len(),
    ensures
        forall|k: int|
            0 <= k < text.len() - TAIL_CHARS - 1 ==> prefix_char(
                #[trigger] text.take(text.len() - TAIL_CHARS - 1)[k],
            ),
        separated(text, text.len() - TAIL_CHARS - 1),
        char_symbols(text.skip(text.len() - TAIL_CHARS)).len() == TAIL_CHARS,
        all_symbols(char_symbols(text.skip(text.len() - TAIL_CHARS))),
        all_symbols(expand_prefix(text.take(text.len() - TAIL_CHARS - 1))),
{
    let split = text.len() - TAIL_CHARS - 1;
    lemma_first_inadmissible(text, split, 0);
    let head = text.take(split);
    let tail = text.skip(split + 1);
    assert forall|k: int| 0 <= k < split implies prefix_char(#[trigger] head[k]) by {
        assert(admissible(text, split, k));
    }
    assert(admissible(text, split, split));
    assert forall|k: int| split < k < text.len() implies text[k] != '1' by {
        assert(admissible(text, split, k));
        lemma_symbol_char_apart(text[k]);
    }
    let symbols = char_symbols(tail);
    assert forall|k: int| 0 <= k < symbols.len() implies #[trigger] symbols[k] < 32 by {
        assert(admissible(text, split, split + 1 + k));
        assert(tail[k] == text[split + 1 + k]);
        lemma_symbol_of_char(tail[k]);
    }
    lemma_expand_symbols(head);
}

/// A hash that was read from a text has twenty bytes.
pub proof fn lemma_parsed_payload(text: Seq<char>, format: FormatView)
    ensures
        payload_spec(text, format) matches Ok(payload) ==> payload.len() == PAYLOAD_BYTES,
{
    match format {
        FormatView::Bech32 { prefix } => {
            if bech32_parse(text, prefix) is Ok {
                let split = text.len() - TAIL_CHARS - 1;
                lemma_bech32_parts(text);
                let symbols = char_symbols(text.skip(split + 1));
                let hash = symbols.subrange(1, DATA_SYMBOLS as int);
                assert forall|k: int| 0 <= k < hash.len() implies (#[trigger] hash[k] as nat)
                    < 32 by {
                    assert(hash[k] == symbols[k + 1]);
                }
                lemma_whole_bytes(hash);
            }
        },
        _ => {},
    }
}

/// The hexadecimal text of a hash reads back as the hash, and has forty
/// characters.
pub proof fn round_trip_hex(payload: Seq<u8>)
    requires
        payload.len() == PAYLOAD_BYTES,
    ensures
        hex_text(payload).len() == HEX_CHARS,
        hex_parse(hex_text(payload)) == Ok::<Seq<u8>, AddressFault>(payload),
{
    lemma_hex_round_trip(payload);
}

/// The bech32 text of a hash under a prefix reads back as the hash under
/// that prefix. It is forty characters longer than the prefix.
pub proof fn round_trip_bech32(payload: Seq<u8>, prefix: Seq<char>)
    requires
        payload.len() == PAYLOAD_BYTES,
        valid_prefix(prefix),
    ensures
        bech32_text(prefix, payload).len() == prefix.len() + TAIL_CHARS + 1,
        bech32_parse(bech32_text(prefix, payload), prefix) == Ok::<Seq<u8>, AddressFault>(payload),
{
    let data = data_symbols(payload);
    let expanded = expand_prefix(prefix);
    let check = checksum(expanded + data);
    let all = data + check;
    let text = bech32_text(prefix, payload);
    let split = prefix.len() as int;
    lemma_regroup_round_trip(payload);
    lemma_expand_symbols(prefix);
    assert(all_symbols(expanded + data));
    lemma_checksum_verifies(expanded + data);
    assert(all_symbols(all));
    assert(all.len() == TAIL_CHARS);
    assert(text.len() == split + 1 + TAIL_CHARS);
    lemma_symbols_round_trip(all);
    let chars = symbol_chars(all);
    assert forall|k: int| 0 <= k < text.len() implies admissible(text, split, k) by {
        if k < split {
            assert(text[k] == prefix[k]);
        } else if k > split {
            assert(text[k] == chars[k - split - 1]);
            assert(char_symbol(chars[k - split - 1]) is Some);
        }
    }
    lemma_admissible_prefix(text, split, 0, text.len() as int);
    assert(text.take(split) =~= prefix);
    assert(text.skip(split + 1) =~= chars);
    assert(expanded + all =~= (expanded + data) + check);
    assert(all.subrange(1, DATA_SYMBOLS as int) =~= symbols_of_bytes(payload));
    assert(all[0] == data[0]);
}

/// Round trip: the text of an address under a format reads back, under that
/// format, as the address.
///
/// For base 58 this rests on the encoder of the `base58` crate writing
/// characters of the alphabet, within the length that it keeps to, and on
/// its decoder reading back what the encoder wrote.
pub proof fn round_trip(payload: Seq<u8>, format: FormatView)
    requires
        payload.len() == PAYLOAD_BYTES,
        format.valid(),
        format matches FormatView::Base58Check { version } ==> {
            let bytes = frame(version, payload);
            &&& base58_bytes(base58_text(bytes)) == Some(bytes)
            &&& all_base58(base58_text(bytes))
            &&& base58_text(bytes).len() <= text_bound(bytes.len())
        },
    ensures
        parse_spec(text_spec(payload, format), format) == Ok::<AddressView, AddressFault>(
            AddressView { payload, format },
        ),
{
    match format {
        FormatView::Base58Check { version } => {
            let body = seq![version] + payload;
            let bytes = frame(version, payload);
            assert(bytes.take(BODY_BYTES as int) =~= body);
            assert(bytes.skip(BODY_BYTES as int) =~= bytes.subrange(
                BODY_BYTES as int,
                FRAME_BYTES as int,
            ));
            assert(bytes.skip(BODY_BYTES as int) =~= check_bytes(body));
            assert(bytes.subrange(1, BODY_BYTES as int) =~= payload);
        },
        FormatView::Bech32 { prefix } => {
            round_trip_bech32(payload, prefix);
        },
        FormatView::Hex => {
            round_trip_hex(payload);
        },
    }
}

/// Cross-format rejection: a text that is an address under one format is
/// none under any other. Under another version or prefix of the same family
/// the fault names the version or prefix that the text carries; under a
/// format of another family the length of the text is at fault.
pub proof fn cross_format_rejection(text: Seq<char>, first: FormatView, second: FormatView)
    requires
        parse_spec(text, first) is Ok,
        first != second,
    ensures
        match (first, second) {
            (
                FormatView::Base58Check { version },
                FormatView::Base58Check { version: other },
            ) => parse_spec(text, second) == Err::<AddressView, AddressFault>(
                AddressFault::Version(version),
            ),
            (FormatView::Bech32 { prefix }, FormatView::Bech32 { prefix: other }) => parse_spec(
                text,
                second,
            ) == Err::<AddressView, AddressFault>(AddressFault::Prefix(prefix)),
            _ => parse_spec(text, second) == Err::<AddressView, AddressFault>(
                AddressFault::CharacterLength(text.len() as usize),
            ),
        },
{
    match (first, second) {
        (FormatView::Bech32 { prefix }, FormatView::Bech32 { prefix: other }) => {
            assert(prefix != other);
            let split = text.len() - TAIL_CHARS - 1;
            assert(text.take(split) == prefix);
            lemma_bech32_parts(text);
        },
        _ => {},
    }
}

/// Length boundaries: a text that is too short or too long for a format, or
/// that spells too few or too many bytes, is refused for its length.
pub proof fn length_boundaries(text: Seq<char>, format: FormatView)
    ensures
        match format {
            FormatView::Hex => text.len() != HEX_CHARS ==> parse_spec(text, format) == Err::<
                AddressView,
                AddressFault,
            >(AddressFault::CharacterLength(text.len() as usize)),
            FormatView::Base58Check { version } => {
                &&& text.len() > BASE58_MAX_CHARS ==> parse_spec(text, format) == Err::<
                    AddressView,
                    AddressFault,
                >(AddressFault::CharacterLength(text.len() as usize))
                &&& text.len() <= BASE58_MAX_CHARS && all_base58(text) ==> (base58_bytes(
                    text,
                ) matches Some(bytes)
                    ==> bytes.len() != FRAME_BYTES ==> parse_spec(text, format) == Err::<
                    AddressView,
                    AddressFault,
                >(AddressFault::ByteLength(bytes.len() as usize)))
            },
            FormatView::Bech32 { prefix } => text.len() < BECH32_MIN_CHARS || text.len()
                > BECH32_MAX_CHARS ==> parse_spec(text, format) == Err::<
                AddressView,
                AddressFault,
            >(AddressFault::CharacterLength(text.len() as usize)),
        },
{
}

/// Length boundaries of bech32: an address under a prefix, cut short by its
/// last character or with one more character at its end, is refused under
/// that prefix for its length.
pub proof fn length_boundaries_bech32(text: Seq<char>, prefix: Seq<char>, more: char)
    requires
        bech32_parse(text, prefix) is Ok,
    ensures
        bech32_parse(text.drop_last(), prefix) == Err::<Seq<u8>, AddressFault>(
            AddressFault::CharacterLength((text.len() - 1) as usize),
        ),
        bech32_parse(text.push(more), prefix) == Err::<Seq<u8>, AddressFault>(
            AddressFault::CharacterLength((text.len() + 1) as usize),
        ),
{
    let split = text.len() - TAIL_CHARS - 1;
    assert(text.take(split) == prefix);
    assert(split == prefix.len());
    lemma_bech32_parts(text);
    let short = text.drop_last();
    assert(short[split] == '1');
    let long = text.push(more);
    assert(long[split + 1] == text[split + 1]);
}

/// Checksum sensitivity of bech32: if one character of an address is
/// replaced by another, the text is refused under the same prefix, for a
/// character that cannot stand where it does or for its checksum.
pub proof fn substitution_detected(
    text: Seq<char>,
    changed: Seq<char>,
    prefix: Seq<char>,
    position: int,
)
    requires
        bech32_parse(text, prefix) is Ok,
        changed.len() == text.len(),
        0 <= position < text.len(),
        changed[position] != text[position],
        forall|k: int| 0 <= k < text.len() && k != position ==> changed[k] == text[k],
    ensures
        bech32_parse(changed, prefix) is Err,
        bech32_parse(changed, prefix)->Err_0 is Character || bech32_parse(changed, prefix)->Err_0
            == AddressFault::Checksum,
{
    let count = text.len() as int;
    let split = count - TAIL_CHARS - 1;
    assert(text.take(split) == prefix);
    assert(split == prefix.len());
    lemma_bech32_parts(text);
    lemma_first_inadmissible(text, split, 0);
    if first_inadmissible(changed, split, 0) >= count {
        lemma_bech32_parts(changed);
        lemma_first_inadmissible(changed, split, 0);
        assert(admissible(changed, split, position));
        assert(admissible(text, split, split));
        assert(position != split);
        let head = text.take(split);
        let expanded = expand_prefix(head);
        let before = char_symbols(text.skip(split + 1));
        if position > split {
            assert(changed.take(split) =~= head);
            let after = char_symbols(changed.skip(split + 1));
            let at = position - split - 1;
            assert(text.skip(split + 1)[at] == text[position]);
            assert(changed.skip(split + 1)[at] == changed[position]);
            assert(admissible(text, split, position));
            lemma_symbol_of_char(text[position]);
            lemma_symbol_of_char(changed[position]);
            assert(before[at] != after[at]);
            assert forall|k: int| 0 <= k < before.len() && k != at implies before[k]
                == after[k] by {
                assert(text.skip(split + 1)[k] == text[split + 1 + k]);
                assert(changed.skip(split + 1)[k] == changed[split + 1 + k]);
            }
            let first = expanded + before;
            let second = expanded + after;
            assert(all_symbols(first));
            assert(all_symbols(second));
            lemma_substitution_detected(first, second, expanded.len() + at);
        } else {
            let other = changed.take(split);
            let other_expanded = expand_prefix(other);
            assert(changed.skip(split + 1) =~= text.skip(split + 1));
            assert(head[position] == text[position]);
            assert(other[position] == changed[position]);
            assert forall|k: int| 0 <= k < split && k != position implies head[k] == other[k] by {
                assert(head[k] == text[k]);
                assert(other[k] == changed[k]);
            }
            let old_code = text[position] as nat;
            let new_code = changed[position] as nat;
            lemma_codes_differ(text[position], changed[position]);
            assert(old_code == 32 * (old_code / 32) + old_code % 32);
            assert(new_code == 32 * (new_code / 32) + new_code % 32);
            assert(prefix_char(head[position]));
            assert(prefix_char(other[position]));
            let high = position;
            let low = split + 1 + position;
            let first = expanded + before;
            let second = other_expanded + before;
            assert(first[high] == (head[position] as nat / 32) as u8);
            assert(second[high] == (other[position] as nat / 32) as u8);
            assert(first[low] == (head[position] as nat % 32) as u8);
            assert(second[low] == (other[position] as nat % 32) as u8);
            assert forall|k: int|
                0 <= k < first.len() && k != high && k != low implies first[k] == second[k] by {
                if k < split {
                    assert(first[k] == (head[k] as nat / 32) as u8);
                    assert(second[k] == (other[k] as nat / 32) as u8);
                } else if k == split {
                } else if k < 2 * split + 1 {
                    assert(first[k] == (head[k - split - 1] as nat % 32) as u8);
                    assert(second[k] == (other[k - split - 1] as nat % 32) as u8);
                } else {
                    assert(first[k] == before[k - expanded.len()]);
                    assert(second[k] == before[k - other_expanded.len()]);
                }
            }
            assert(all_symbols(first));
            assert(all_symbols(second));
            if old_code / 32 == new_code / 32 {
                assert(old_code % 32 != new_code % 32);
                lemma_substitution_detected(first, second, low);
            } else if old_code % 32 == new_code % 32 {
                lemma_substitution_detected(first, second, high);
            } else {
                lemma_small_difference(first[high], second[high]);
                lemma_pair_detected(first, second, high, low);
            }
        }
    } else {
        lemma_first_inadmissible(changed, split, 0);
    }
}

/// Checksum sensitivity of hexadecimal, as far as it goes: if one character
/// of an address is replaced by one that is no hexadecimal digit, the text is
/// refused with the failure of the `hex` crate; if it is replaced by a digit,
/// the text is an address again, since nothing guards it.
pub proof fn substitution_in_hex(text: Seq<char>, changed: Seq<char>, position: int)
    requires
        hex_parse(text) is Ok,
        changed.len() == text.len(),
        0 <= position < text.len(),
        forall|k: int| 0 <= k < text.len() && k != position ==> changed[k] == text[k],
    ensures
        char_digit(changed[position]) is None ==> hex_parse(changed) == Err::<
            Seq<u8>,
            AddressFault,
        >(AddressFault::Foreign("hex"@, hex_failure_text(changed))),
        char_digit(changed[position]) is Some ==> hex_parse(changed) is Ok,
{
    if char_digit(changed[position]) is Some {
        assert forall|k: int| 0 <= k < changed.len() implies (#[trigger] char_digit(
            changed[k],
        )) is Some by {
            if k != position {
                assert(char_digit(text[k]) is Some);
            }
        }
    }
}

/// Checksum sensitivity of base 58, as far as the alphabet goes: if one
/// character of an address is replaced by one that is not of the alphabet,
/// the text is refused with the failure of the `base58` crate. What becomes
/// of a character replaced by another of the alphabet rests on the hash
/// behind the check bytes, and is not stated.
pub proof fn substitution_in_base58(
    text: Seq<char>,
    changed: Seq<char>,
    version: u8,
    position: int,
)
    requires
        base58check_parse(text, version) is Ok,
        changed.len() == text.len(),
        0 <= position < text.len(),
        !base58_char(changed[position]),
    ensures
        base58check_parse(changed, version) == Err::<Seq<u8>, AddressFault>(
            AddressFault::Foreign("base58"@, base58_failure_text(changed)),
        ),
{
}

} // verus!
