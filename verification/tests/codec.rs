use rschain_core::codec::bytes::append;
use rschain_core::codec::charset::{decode_symbol, encode_symbol};
use rschain_core::codec::digest::{compute_check_bytes, hash_key};
use rschain_core::codec::polymod::{absorb_symbols, advance_state, closing};
use rschain_core::codec::prefix::expand;
use rschain_core::codec::regroup::{bytes_to_symbols, symbols_to_bytes};
use rschain_core::codec::text::{copy_range, same_text};

fn symbols_of(text: &str) -> Vec<u8> {
    text.chars().map(|c| decode_symbol(c).unwrap()).collect()
}

#[test]
fn symbols_and_their_characters() {
    let charset = "qpzry9x8gf2tvdw0s3jn54khce6mua7l";
    for (value, c) in charset.chars().enumerate() {
        assert_eq!(encode_symbol(value as u8), c);
        assert_eq!(decode_symbol(c), Some(value as u8));
    }
    for c in ['1', 'b', 'i', 'o', 'Q', 'A', ' ', '\u{e9}'] {
        assert_eq!(decode_symbol(c), None);
    }
}

#[test]
fn prefix_expansion() {
    assert_eq!(expand("bc"), vec![3, 3, 0, 2, 3]);
    assert_eq!(expand("a"), vec![3, 0, 1]);
    assert_eq!(expand("1~!"), vec![1, 3, 1, 0, 17, 30, 1]);
}

#[test]
fn one_step_of_the_checksum() {
    assert_eq!(advance_state(1, 0), 32);
    assert_eq!(advance_state(0, 7), 7);
    assert_eq!(advance_state(1 << 25, 0), 0x3b6a57b2);
    assert_eq!(advance_state(2 << 25, 0), 0x26508e6d);
    assert_eq!(advance_state(4 << 25, 0), 0x1ea119fa);
    assert_eq!(advance_state(8 << 25, 0), 0x3d4233dd);
    assert_eq!(advance_state(16 << 25, 0), 0x2a1462b3);
    assert_eq!(advance_state(31 << 25, 1), 0x3b6a57b2 ^ 0x26508e6d ^ 0x1ea119fa ^ 0x3d4233dd ^ 0x2a1462b3 ^ 1);
    assert_eq!(advance_state(0x1ffffff, 31), 0x3fffffff);
}

#[test]
fn valid_texts_have_the_checksum_state_one() {
    for (prefix, data) in [
        ("a", "2uel5l"),
        ("abcdef", "qpzry9x8gf2tvdw0s3jn54khce6mua7lmqqqxw"),
        ("split", "checkupstagehandshakeupstreamerranterredcaperred2y9e3w"),
        ("bc", "qw508d6qejxtdg4y5r3zarvary0c5xw7kv8f3t4"),
    ] {
        let mut stream = expand(prefix);
        append(&mut stream, &symbols_of(data));
        assert_eq!(absorb_symbols(1, &stream), 1);
        let covered = stream.len() - 6;
        let state = absorb_symbols(1, &stream[..covered]);
        assert_eq!(closing(state), stream[covered..].to_vec());
    }
    assert_eq!(absorb_symbols(1, &[]), 1);
    assert_eq!(absorb_symbols(5, &[]), 5);
}

#[test]
fn regrouping_of_known_bytes() {
    assert_eq!(bytes_to_symbols(&[]), Vec::<u8>::new());
    assert_eq!(bytes_to_symbols(&[0xff]), vec![31, 28]);
    assert_eq!(bytes_to_symbols(&[0x01]), vec![0, 4]);
    assert_eq!(bytes_to_symbols(&[0xff, 0xff]), vec![31, 31, 31, 16]);
    assert_eq!(bytes_to_symbols(&[0x00, 0x44, 0x32, 0x14, 0xc7]), vec![0, 1, 2, 3, 4, 5, 6, 7]);
    assert_eq!(
        bytes_to_symbols(&[0x75, 0x1e, 0x76, 0xe8, 0x19]),
        symbols_of("w508d6qe")
    );
    assert_eq!(symbols_to_bytes(&[]), Some(vec![]));
    assert_eq!(symbols_to_bytes(&[31, 28]), Some(vec![0xff]));
    assert_eq!(symbols_to_bytes(&[0, 1, 2, 3, 4, 5, 6, 7]), Some(vec![0x00, 0x44, 0x32, 0x14, 0xc7]));
    assert_eq!(symbols_to_bytes(&[31, 29]), None);
    assert_eq!(symbols_to_bytes(&[31]), None);
    assert_eq!(symbols_to_bytes(&[0]), None);
    assert_eq!(symbols_to_bytes(&[31, 28, 0]), None);
    assert_eq!(symbols_to_bytes(&[32, 0]), None);
    assert_eq!(symbols_to_bytes(&[0, 0, 0, 255]), None);
}

#[test]
fn regrouping_there_and_back() {
    for count in 0..40usize {
        let bytes: Vec<u8> = (0..count).map(|i| (i * 37 + 11) as u8).collect();
        let symbols = bytes_to_symbols(&bytes);
        assert_eq!(symbols.len(), (8 * count + 4) / 5);
        assert!(symbols.iter().all(|symbol| *symbol < 32));
        assert_eq!(symbols_to_bytes(&symbols), Some(bytes));
    }
}

#[test]
fn hashes_of_known_data() {
    assert_eq!(
        hash_key(&hex::decode("0279be667ef9dcbbac55a06295ce870b07029bfcdb2dce28d959f2815b16f81798").unwrap()),
        hex::decode("751e76e8199196d454941c45d1b3a323f1433bd6").unwrap()
    );
    assert_eq!(
        hash_key(&[]),
        hex::decode("b472a266d0bd89c13706a4132ccfb16f7c3b9fcb").unwrap()
    );
    assert_eq!(compute_check_bytes(&[]), vec![0x5d, 0xf6, 0xe0, 0xe2]);
    assert_eq!(
        compute_check_bytes(&hex::decode("00f54a5851e9372b87810a8e60cdd2e7cfd80b6e31").unwrap()),
        hex::decode("c7f18fe8").unwrap()
    );
}

#[test]
fn joining_and_copying() {
    let mut bytes = vec![1u8, 2];
    append(&mut bytes, &[3, 4, 5]);
    assert_eq!(bytes, vec![1, 2, 3, 4, 5]);
    append(&mut bytes, &[]);
    assert_eq!(bytes, vec![1, 2, 3, 4, 5]);
    assert_eq!(copy_range("h\u{e9}llo", 1, 3), "\u{e9}l");
    assert_eq!(copy_range("hello", 2, 2), "");
    assert_eq!(copy_range("hello", 0, 5), "hello");
    assert!(same_text("bc", "bc"));
    assert!(same_text("", ""));
    assert!(!same_text("bc", "bd"));
    assert!(!same_text("bc", "bcd"));
    assert!(!same_text("dc", "bc"));
}
