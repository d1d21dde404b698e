use rschain_core::address::{Address, AddressError};
use rschain_core::format::FormatError;
use rschain_core::keyhash::address::KeyHashAddress;
use rschain_core::keyhash::format::{ChecksumKind, KeyHashFormat, Prefix};
use rschain_core::public_key::PublicKey;
use rschain_core::secp256k1::Secp256k1PublicKey;

const KEY_ONE: &str = "0279be667ef9dcbbac55a06295ce870b07029bfcdb2dce28d959f2815b16f81798";
const HASH_ONE: &str = "751e76e8199196d454941c45d1b3a323f1433bd6";
const BASE58_ONE: &str = "1BgGZ9tcN4rm9KBzDn7KprQz87SZ26SAMH";
const BASE58_ONE_TEST: &str = "mrCDrCybB6J1vRfbwM5hemdJz73FwDBC8r";
const BECH32_ONE: &str = "bc1qw508d6qejxtdg4y5r3zarvary0c5xw7kv8f3t4";
const BECH32_ONE_TEST: &str = "tb1qw508d6qejxtdg4y5r3zarvary0c5xw7kxpjzsx";

fn address_one(format: &KeyHashFormat) -> KeyHashAddress {
    Secp256k1PublicKey::from_text(KEY_ONE).unwrap().to_address(format).unwrap()
}

fn bech32(prefix: &str) -> KeyHashFormat {
    KeyHashFormat::bech32(prefix).unwrap()
}

fn replace(text: &str, index: usize, c: char) -> String {
    text.chars().enumerate().map(|(i, old)| if i == index { c } else { old }).collect()
}

#[test]
fn known_hash_in_every_format() {
    let main = KeyHashFormat::base58check(0);
    let address = address_one(&main);
    assert_eq!(address.payload(), &hex::decode(HASH_ONE).unwrap()[..]);
    assert_eq!(address.format(), &main);
    assert_eq!(address.to_string(&main), BASE58_ONE);
    assert_eq!(address.to_string(&KeyHashFormat::base58check(0x6f)), BASE58_ONE_TEST);
    assert_eq!(address.to_string(&bech32("bc")), BECH32_ONE);
    assert_eq!(address.to_string(&bech32("tb")), BECH32_ONE_TEST);
    assert_eq!(address.to_string(&KeyHashFormat::hex()), HASH_ONE);
}

#[test]
fn bech32_text_is_what_the_bech32_crate_writes() {
    let hash = hex::decode(HASH_ONE).unwrap();
    for prefix in ["bc", "tb", "bcrt", "a", "x1y", "split-here.1"] {
        let format = bech32(prefix);
        let hrp = bech32::Hrp::parse(prefix).unwrap();
        let expected = bech32::segwit::encode_v0(hrp, &hash).unwrap();
        assert_eq!(address_one(&format).to_string(&format), expected);
    }
}

#[test]
fn text_parses_back_to_the_address() {
    let formats = [
        KeyHashFormat::base58check(0),
        KeyHashFormat::base58check(0x6f),
        KeyHashFormat::base58check(0xff),
        bech32("bc"),
        bech32("tb"),
        bech32("x1y"),
        KeyHashFormat::hex(),
    ];
    for format in formats.iter() {
        let address = address_one(format);
        let text = address.to_string(format);
        assert!(KeyHashAddress::is_valid(&text, format));
        assert_eq!(KeyHashAddress::parse(&text, format), Ok(address));
    }
}

#[test]
fn every_hash_of_one_repeated_byte_round_trips() {
    let formats = [KeyHashFormat::base58check(0), bech32("bc"), KeyHashFormat::hex()];
    for byte in [0u8, 1, 0x7f, 0x80, 0xff] {
        let text = hex::encode([byte; 20]);
        let address = KeyHashAddress::parse(&text, &KeyHashFormat::hex()).unwrap();
        assert_eq!(address.payload(), &[byte; 20][..]);
        for format in formats.iter() {
            let written = address.to_string(format);
            let read = KeyHashAddress::parse(&written, format).unwrap();
            assert_eq!(read.payload(), address.payload());
            assert_eq!(read.format(), format);
        }
    }
}

#[test]
fn known_texts_parse_to_the_known_hash() {
    let hash = hex::decode(HASH_ONE).unwrap();
    let cases = [
        (BASE58_ONE, KeyHashFormat::base58check(0)),
        (BASE58_ONE_TEST, KeyHashFormat::base58check(0x6f)),
        (BECH32_ONE, bech32("bc")),
        (BECH32_ONE_TEST, bech32("tb")),
        (HASH_ONE, KeyHashFormat::hex()),
        ("751E76E8199196D454941C45D1B3A323F1433BD6", KeyHashFormat::hex()),
    ];
    for (text, format) in cases.iter() {
        let address = KeyHashAddress::parse(text, format).unwrap();
        assert_eq!(address.payload(), &hash[..]);
        assert_eq!(address.format(), format);
        assert_eq!(address.clone(), address);
    }
}

#[test]
fn changed_character_of_bech32_is_detected() {
    let format = bech32("bc");
    let charset = "qpzry9x8gf2tvdw0s3jn54khce6mua7l";
    let original: Vec<char> = BECH32_ONE.chars().collect();
    for index in 3..original.len() {
        for c in charset.chars() {
            if c == original[index] {
                continue;
            }
            let changed = replace(BECH32_ONE, index, c);
            assert_eq!(
                KeyHashAddress::parse(&changed, &format),
                Err(AddressError::InvalidChecksum)
            );
        }
        for c in ['1', 'b', 'i', 'o', 'Q', ' ', '\u{e9}'] {
            let changed = replace(BECH32_ONE, index, c);
            assert_eq!(
                KeyHashAddress::parse(&changed, &format),
                Err(AddressError::InvalidCharacter(c, index))
            );
        }
    }
    assert_eq!(
        KeyHashAddress::parse(&replace(BECH32_ONE, 2, 'q'), &format),
        Err(AddressError::InvalidCharacter('q', 2))
    );
    assert_eq!(
        KeyHashAddress::parse(&replace(BECH32_ONE, 1, 'd'), &format),
        Err(AddressError::InvalidChecksum)
    );
    assert_eq!(
        KeyHashAddress::parse(&replace(BECH32_ONE, 0, 'B'), &format),
        Err(AddressError::InvalidCharacter('B', 0))
    );
}

#[test]
fn changed_character_of_a_bech32_prefix_is_detected() {
    let format = bech32("bc");
    for index in 0..2 {
        for code in 33u8..=126 {
            let c = code as char;
            if c == BECH32_ONE.chars().nth(index).unwrap() {
                continue;
            }
            let changed = replace(BECH32_ONE, index, c);
            let expected = if c.is_ascii_uppercase() {
                AddressError::InvalidCharacter(c, index)
            } else {
                AddressError::InvalidChecksum
            };
            assert_eq!(KeyHashAddress::parse(&changed, &format), Err(expected));
        }
        for c in [' ', '\u{7f}', '\u{e9}'] {
            let changed = replace(BECH32_ONE, index, c);
            assert_eq!(
                KeyHashAddress::parse(&changed, &format),
                Err(AddressError::InvalidCharacter(c, index))
            );
        }
    }
}

#[test]
fn changed_character_of_base58_is_detected() {
    let format = KeyHashFormat::base58check(0);
    let original: Vec<char> = BASE58_ONE.chars().collect();
    for index in 0..original.len() {
        for c in ['2', 'z', 'A'] {
            if c == original[index] {
                continue;
            }
            let changed = replace(BASE58_ONE, index, c);
            let read = KeyHashAddress::parse(&changed, &format);
            assert!(
                matches!(
                    read,
                    Err(AddressError::InvalidChecksum) | Err(AddressError::InvalidByteLength(_))
                ),
                "{:?}",
                read
            );
        }
        let changed = replace(BASE58_ONE, index, '0');
        match KeyHashAddress::parse(&changed, &format) {
            Err(AddressError::Crate(origin, message)) => {
                assert_eq!(origin, "base58");
                assert_eq!(message, format!("InvalidBase58Character('0', {})", index));
            }
            other => panic!("{:?}", other),
        }
    }
}

#[test]
fn address_under_another_version_or_prefix_is_refused() {
    assert_eq!(
        KeyHashAddress::parse(BASE58_ONE, &KeyHashFormat::base58check(0x6f)),
        Err(AddressError::InvalidVersion(0))
    );
    assert_eq!(
        KeyHashAddress::parse(BASE58_ONE_TEST, &KeyHashFormat::base58check(0)),
        Err(AddressError::InvalidVersion(0x6f))
    );
    assert_eq!(
        KeyHashAddress::parse(BECH32_ONE, &bech32("tb")),
        Err(AddressError::InvalidPrefix("bc".to_string()))
    );
    assert_eq!(
        KeyHashAddress::parse(BECH32_ONE, &bech32("bcrt")),
        Err(AddressError::InvalidPrefix("bc".to_string()))
    );
    assert_eq!(
        KeyHashAddress::parse(BECH32_ONE_TEST, &bech32("t")),
        Err(AddressError::InvalidPrefix("tb".to_string()))
    );
    let odd = bech32("x1y");
    let text = address_one(&odd).to_string(&odd);
    assert_eq!(
        KeyHashAddress::parse(&text, &bech32("bc")),
        Err(AddressError::InvalidPrefix("x1y".to_string()))
    );
}

#[test]
fn address_under_a_format_of_another_family_is_refused_for_its_length() {
    let texts = [
        (BASE58_ONE, KeyHashFormat::base58check(0)),
        (BECH32_ONE, bech32("bc")),
        (HASH_ONE, KeyHashFormat::hex()),
    ];
    for (text, own) in texts.iter() {
        for other in [KeyHashFormat::base58check(0), bech32("bc"), KeyHashFormat::hex()] {
            if &other == own {
                continue;
            }
            assert_eq!(
                KeyHashAddress::parse(text, &other),
                Err(AddressError::InvalidCharacterLength(text.chars().count()))
            );
            assert!(!KeyHashAddress::is_valid(text, &other));
        }
    }
}

#[test]
fn hex_text_one_byte_short_or_long() {
    let format = KeyHashFormat::hex();
    assert_eq!(
        KeyHashAddress::parse(&HASH_ONE[..38], &format),
        Err(AddressError::InvalidCharacterLength(38))
    );
    let long = format!("{}00", HASH_ONE);
    assert_eq!(
        KeyHashAddress::parse(&long, &format),
        Err(AddressError::InvalidCharacterLength(42))
    );
    assert_eq!(
        KeyHashAddress::parse(&HASH_ONE[..39], &format),
        Err(AddressError::InvalidCharacterLength(39))
    );
    assert_eq!(KeyHashAddress::parse("", &format), Err(AddressError::InvalidCharacterLength(0)));
}

#[test]
fn hex_text_with_a_character_that_is_no_digit() {
    let text = replace(HASH_ONE, 7, 'x');
    match KeyHashAddress::parse(&text, &KeyHashFormat::hex()) {
        Err(AddressError::Crate(origin, message)) => {
            assert_eq!(origin, "hex");
            assert_eq!(message, "InvalidHexCharacter { c: 'x', index: 7 }");
        }
        other => panic!("{:?}", other),
    }
}

#[test]
fn hex_has_no_checksum() {
    let text = replace(HASH_ONE, 0, '8');
    let address = KeyHashAddress::parse(&text, &KeyHashFormat::hex()).unwrap();
    assert_ne!(address.payload(), &hex::decode(HASH_ONE).unwrap()[..]);
}

#[test]
fn base58_text_of_one_byte_less_or_more() {
    let format = KeyHashFormat::base58check(0);
    let frame = base58::FromBase58::from_base58(BASE58_ONE).unwrap();
    assert_eq!(frame.len(), 25);
    let short = base58::ToBase58::to_base58(&frame[..24]);
    assert_eq!(
        KeyHashAddress::parse(&short, &format),
        Err(AddressError::InvalidByteLength(24))
    );
    let long = base58::ToBase58::to_base58(&[0xffu8; 26][..]);
    assert_eq!(long.chars().count(), 36);
    assert_eq!(
        KeyHashAddress::parse(&long, &format),
        Err(AddressError::InvalidCharacterLength(36))
    );
    let mut zeros = vec![0u8; 25];
    zeros.push(1);
    let padded = base58::ToBase58::to_base58(&zeros[..]);
    assert_eq!(
        KeyHashAddress::parse(&padded, &format),
        Err(AddressError::InvalidByteLength(26))
    );
    assert_eq!(KeyHashAddress::parse("", &format), Err(AddressError::InvalidByteLength(0)));
    let ones = "1".repeat(36);
    assert_eq!(
        KeyHashAddress::parse(&ones, &format),
        Err(AddressError::InvalidCharacterLength(36))
    );
    let far = "1".repeat(200);
    assert_eq!(
        KeyHashAddress::parse(&far, &format),
        Err(AddressError::InvalidCharacterLength(200))
    );
}

#[test]
fn base58_text_with_a_wrong_check_byte() {
    let format = KeyHashFormat::base58check(0);
    let mut frame = base58::FromBase58::from_base58(BASE58_ONE).unwrap();
    frame[24] ^= 1;
    let text = base58::ToBase58::to_base58(&frame[..]);
    assert_eq!(KeyHashAddress::parse(&text, &format), Err(AddressError::InvalidChecksum));
    frame[24] ^= 1;
    frame[21] ^= 0x80;
    let text = base58::ToBase58::to_base58(&frame[..]);
    assert_eq!(KeyHashAddress::parse(&text, &format), Err(AddressError::InvalidChecksum));
}

#[test]
fn bech32_text_one_character_short_or_long() {
    let format = bech32("bc");
    let short = &BECH32_ONE[..BECH32_ONE.len() - 1];
    assert_eq!(
        KeyHashAddress::parse(short, &format),
        Err(AddressError::InvalidCharacterLength(41))
    );
    let long = format!("{}q", BECH32_ONE);
    assert_eq!(
        KeyHashAddress::parse(&long, &format),
        Err(AddressError::InvalidCharacterLength(43))
    );
    let one = bech32("a");
    let text = address_one(&one).to_string(&one);
    assert_eq!(text.len(), 41);
    assert_eq!(
        KeyHashAddress::parse(&text[..40], &one),
        Err(AddressError::InvalidCharacterLength(40))
    );
    let widest = bech32(&"p".repeat(83));
    let text = address_one(&widest).to_string(&widest);
    assert_eq!(text.len(), 123);
    assert!(KeyHashAddress::is_valid(&text, &widest));
    let over = format!("{}q", text);
    assert_eq!(
        KeyHashAddress::parse(&over, &widest),
        Err(AddressError::InvalidCharacterLength(124))
    );
}

#[test]
fn bech32_text_with_another_opening_symbol() {
    let hash = hex::decode(HASH_ONE).unwrap();
    let text = bech32::segwit::encode_v1(bech32::hrp::BC, &hash).unwrap();
    let read = KeyHashAddress::parse(&text, &bech32("bc"));
    assert_eq!(read, Err(AddressError::InvalidChecksum));
    let mut data = vec![1u8];
    data.extend(rschain_core::codec::regroup::bytes_to_symbols(&hash));
    let mut stream = rschain_core::codec::prefix::expand("bc");
    stream.extend(data.iter());
    let state = rschain_core::codec::polymod::absorb_symbols(1, &stream);
    data.extend(rschain_core::codec::polymod::closing(state));
    let mut plain = "bc1".to_string();
    for symbol in data {
        plain.push(rschain_core::codec::charset::encode_symbol(symbol));
    }
    assert_eq!(plain.len(), BECH32_ONE.len());
    assert_eq!(
        KeyHashAddress::parse(&plain, &bech32("bc")),
        Err(AddressError::InvalidVersion(1))
    );
}

#[test]
fn prefix_must_be_printable_and_lower_case() {
    assert_eq!(Prefix::new("bc").unwrap().as_str(), "bc");
    assert_eq!(Prefix::new("bc").unwrap().clone(), Prefix::new("bc").unwrap());
    assert!(Prefix::new(&"a".repeat(83)).is_ok());
    assert_eq!(
        KeyHashFormat::bech32("BC"),
        Err(FormatError::InvalidPrefix("BC".to_string()))
    );
    for (text, cause) in [
        ("", "Empty"),
        ("bC", "MixedCase"),
        ("b c", "InvalidAsciiByte"),
        ("b\u{e9}", "NonAsciiChar"),
        (&"a".repeat(84)[..], "TooLong"),
    ] {
        match Prefix::new(text) {
            Err(FormatError::Crate(origin, message)) => {
                assert_eq!(origin, "bech32");
                assert!(message.contains(cause), "{}", message);
            }
            other => panic!("{:?}", other),
        }
    }
}

#[test]
fn formats_are_what_they_were_made_with() {
    assert_eq!(KeyHashFormat::base58check(5), KeyHashFormat::Base58Check { version: 5 });
    assert_eq!(
        bech32("tb"),
        KeyHashFormat::Bech32 { prefix: Prefix::new("tb").unwrap() }
    );
    assert_eq!(KeyHashFormat::hex(), KeyHashFormat::Hex);
    assert_eq!(bech32("tb").clone(), bech32("tb"));
    assert_eq!(KeyHashFormat::base58check(0).checksum(), ChecksumKind::DoubleSha256);
    assert_eq!(bech32("tb").checksum(), ChecksumKind::Polymod);
    assert_eq!(KeyHashFormat::hex().checksum(), ChecksumKind::Unguarded);
}

#[test]
fn bech32_agrees_with_the_bech32_crate_on_many_hashes() {
    let mut state: u64 = 0x1234_5678_9abc_def0;
    for round in 0..200 {
        let mut hash = [0u8; 20];
        for byte in hash.iter_mut() {
            state = state.wrapping_mul(6364136223846793005).wrapping_add(1442695040888963407);
            *byte = (state >> 56) as u8;
        }
        let prefix = ["bc", "tb", "bcrt", "ltc", "x1", "a-b.c"][round % 6];
        let format = bech32(prefix);
        let address = KeyHashAddress::parse(&hex::encode(hash), &KeyHashFormat::hex()).unwrap();
        let text = address.to_string(&format);
        let hrp = bech32::Hrp::parse(prefix).unwrap();
        assert_eq!(text, bech32::segwit::encode_v0(hrp, &hash).unwrap());
        let (read_hrp, version, program) = bech32::segwit::decode(&text).unwrap();
        assert_eq!(read_hrp, hrp);
        assert_eq!(version, bech32::Fe32::Q);
        assert_eq!(program, hash.to_vec());
        let back = KeyHashAddress::parse(&text, &format).unwrap();
        assert_eq!(back.payload(), &hash[..]);
    }
}

#[test]
fn base58_agrees_with_a_frame_built_by_hand() {
    let hash = hex::decode(HASH_ONE).unwrap();
    for version in [0u8, 5, 0x6f, 0xc4, 0xff] {
        let format = KeyHashFormat::base58check(version);
        let text = address_one(&format).to_string(&format);
        let frame = base58::FromBase58::from_base58(&text[..]).unwrap();
        assert_eq!(frame.len(), 25);
        assert_eq!(frame[0], version);
        assert_eq!(&frame[1..21], &hash[..]);
        assert_eq!(
            &frame[21..],
            &rschain_core::codec::digest::compute_check_bytes(&frame[..21])[..]
        );
    }
}

#[test]
fn base58_refuses_exactly_the_characters_outside_its_alphabet() {
    let format = KeyHashFormat::base58check(0);
    let alphabet = "123456789ABCDEFGHJKLMNPQRSTUVWXYZabcdefghijkmnopqrstuvwxyz";
    assert_eq!(alphabet.len(), 58);
    for code in 0u8..=127 {
        let c = code as char;
        let text = replace(BASE58_ONE, 9, c);
        let read = KeyHashAddress::parse(&text, &format);
        if alphabet.contains(c) {
            assert!(!matches!(read, Err(AddressError::Crate(_, _))), "{:?}", read);
            let run: String = std::iter::repeat(c).take(20).collect();
            let read = KeyHashAddress::parse(&run, &format);
            assert!(matches!(read, Err(AddressError::InvalidByteLength(_))), "{:?}", read);
        } else {
            assert_eq!(
                read,
                Err(AddressError::Crate("base58", format!("InvalidBase58Character({:?}, 9)", c)))
            );
        }
    }
    for c in ['\u{e9}', '\u{4e2d}'] {
        let text = replace(BASE58_ONE, 9, c);
        assert!(matches!(
            KeyHashAddress::parse(&text, &format),
            Err(AddressError::Crate("base58", _))
        ));
    }
}
