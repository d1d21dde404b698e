use rschain_core::address::AddressError;
use rschain_core::error::Error;
use rschain_core::keyhash::address::KeyHashAddress;
use rschain_core::keyhash::format::KeyHashFormat;
use rschain_core::public_key::{PublicKey, PublicKeyError};
use rschain_core::secp256k1::{Secp256k1PublicKey, Secp256k1SecretKey};
use std::str::FromStr;

const KEY_ONE: &str = "0279be667ef9dcbbac55a06295ce870b07029bfcdb2dce28d959f2815b16f81798";
const KEY_ONE_FULL: &str = "0479be667ef9dcbbac55a06295ce870b07029bfcdb2dce28d959f2815b16f81798483ada7726a3c4655da4fbfc0e1108a8fd17b448a68554199c47d08ffb10d4b8";
const SECRET_TWO: &str = "18e14a7b6a307f426a94f8114701e7c8e774e7f9a47e2c2035db29a206321725";
const KEY_TWO: &str = "0250863ad64a87ae8a2fe83c1af1a8403cb53f53e486d8511dad8a04887e5b2352";
const ORDER: &str = "fffffffffffffffffffffffffffffffebaaedce6af48a03bbfd25e8cd0364141";
const ORDER_LESS_ONE: &str = "fffffffffffffffffffffffffffffffebaaedce6af48a03bbfd25e8cd0364140";

fn secret_one() -> Secp256k1SecretKey {
    let mut bytes = vec![0u8; 32];
    bytes[31] = 1;
    Secp256k1SecretKey::from_bytes(&bytes).unwrap()
}

fn secret_of(text: &str) -> Result<Secp256k1SecretKey, Error> {
    Secp256k1SecretKey::from_bytes(&hex::decode(text).unwrap())
}

#[test]
fn key_of_secret_one_is_the_generator() {
    let key = Secp256k1PublicKey::from_secret_key(&secret_one());
    assert_eq!(key.to_text(), KEY_ONE);
    assert_eq!(key.as_bytes(), &hex::decode(KEY_ONE).unwrap()[..]);
    assert!(key.is_compressed());
}

#[test]
fn key_of_a_known_secret() {
    let key = Secp256k1PublicKey::from_secret_key(&secret_of(SECRET_TWO).unwrap());
    assert_eq!(key.to_text(), KEY_TWO);
}

#[test]
fn known_key_renders_known_addresses_and_they_parse_back() {
    let key = Secp256k1PublicKey::from_secret_key(&secret_of(SECRET_TWO).unwrap());
    let format = KeyHashFormat::base58check(0);
    let address = key.to_address(&format).unwrap();
    assert_eq!(
        address.payload(),
        &hex::decode("f54a5851e9372b87810a8e60cdd2e7cfd80b6e31").unwrap()[..]
    );
    let text = rschain_core::address::Address::to_string(&address, &format);
    assert_eq!(text, "1PMycacnJaSqwwJqjawXBErnLsZ7RkXUAs");
    let back = <KeyHashAddress as rschain_core::address::Address>::parse(&text, &format);
    assert_eq!(back, Ok(address));
}

#[test]
fn derivation_is_deterministic() {
    let first = Secp256k1PublicKey::from_secret_key(&secret_of(SECRET_TWO).unwrap());
    let second = Secp256k1PublicKey::from_secret_key(&secret_of(SECRET_TWO).unwrap());
    assert_eq!(first, second);
    assert_eq!(first.as_bytes(), second.as_bytes());
    let other = Secp256k1PublicKey::from_secret_key(&secret_one());
    assert_ne!(first, other);
}

#[test]
fn secret_key_must_be_in_range() {
    assert!(matches!(secret_of(&"00".repeat(32)), Err(Error::Secp256k1Error(_))));
    assert!(matches!(secret_of(ORDER), Err(Error::Secp256k1Error(_))));
    assert!(matches!(secret_of(&"ff".repeat(32)), Err(Error::Secp256k1Error(_))));
    assert!(secret_of(ORDER_LESS_ONE).is_ok());
    assert!(secret_of(&"00".repeat(31)).is_err());
    assert!(secret_of(&"01".repeat(33)).is_err());
    assert!(Secp256k1SecretKey::from_bytes(&[]).is_err());
}

#[test]
fn key_text_round_trip() {
    for text in [KEY_ONE, KEY_ONE_FULL, KEY_TWO] {
        let key = Secp256k1PublicKey::from_text(text).unwrap();
        assert_eq!(key.to_text(), text);
        assert_eq!(Secp256k1PublicKey::from_text(&key.to_text()), Ok(key.clone()));
        assert_eq!(Secp256k1PublicKey::from_str(text), Ok(key));
    }
}

#[test]
fn key_text_in_upper_case_reads_as_the_same_key() {
    let key = Secp256k1PublicKey::from_text(&KEY_ONE.to_uppercase()).unwrap();
    assert_eq!(key.to_text(), KEY_ONE);
}

#[test]
fn key_text_of_wrong_length() {
    assert_eq!(
        Secp256k1PublicKey::from_text(""),
        Err(PublicKeyError::InvalidCharacterLength(0))
    );
    assert_eq!(
        Secp256k1PublicKey::from_text(&KEY_ONE[..65]),
        Err(PublicKeyError::InvalidCharacterLength(65))
    );
    let long = format!("{}0", KEY_ONE);
    assert_eq!(
        Secp256k1PublicKey::from_text(&long),
        Err(PublicKeyError::InvalidCharacterLength(67))
    );
}

#[test]
fn key_text_with_a_character_that_is_no_digit() {
    let text = format!("{}g", &KEY_ONE[..65]);
    match Secp256k1PublicKey::from_text(&text) {
        Err(PublicKeyError::Crate(origin, message)) => {
            assert_eq!(origin, "hex");
            assert_eq!(message, "InvalidHexCharacter { c: 'g', index: 65 }");
        }
        other => panic!("{:?}", other),
    }
    let wide = format!("{}\u{e9}", &KEY_ONE[..65]);
    assert!(matches!(
        Secp256k1PublicKey::from_text(&wide),
        Err(PublicKeyError::Crate("hex", _))
    ));
}

#[test]
fn key_bytes_of_wrong_length() {
    assert_eq!(
        Secp256k1PublicKey::from_bytes(&[2u8; 32]),
        Err(PublicKeyError::InvalidByteLength(32))
    );
    assert_eq!(
        Secp256k1PublicKey::from_bytes(&[4u8; 64]),
        Err(PublicKeyError::InvalidByteLength(64))
    );
    assert_eq!(Secp256k1PublicKey::from_bytes(&[]), Err(PublicKeyError::InvalidByteLength(0)));
}

#[test]
fn key_bytes_with_a_wrong_first_byte() {
    let mut bytes = hex::decode(KEY_ONE).unwrap();
    bytes[0] = 5;
    assert_eq!(
        Secp256k1PublicKey::from_bytes(&bytes),
        Err(PublicKeyError::InvalidPrefix("05".to_string()))
    );
    bytes[0] = 4;
    assert_eq!(
        Secp256k1PublicKey::from_bytes(&bytes),
        Err(PublicKeyError::InvalidPrefix("04".to_string()))
    );
    let mut full = hex::decode(KEY_ONE_FULL).unwrap();
    full[0] = 0xab;
    assert_eq!(
        Secp256k1PublicKey::from_bytes(&full),
        Err(PublicKeyError::InvalidPrefix("ab".to_string()))
    );
    full[0] = 6;
    assert_eq!(
        Secp256k1PublicKey::from_bytes(&full),
        Err(PublicKeyError::InvalidPrefix("06".to_string()))
    );
}

#[test]
fn key_bytes_off_the_curve() {
    let mut bytes = vec![0u8; 33];
    bytes[0] = 2;
    match Secp256k1PublicKey::from_bytes(&bytes) {
        Err(PublicKeyError::Crate(origin, message)) => {
            assert_eq!(origin, "libsecp256k1");
            assert_eq!(message, "InvalidPublicKey");
        }
        other => panic!("{:?}", other),
    }
    let mut full = hex::decode(KEY_ONE_FULL).unwrap();
    full[64] ^= 1;
    assert!(matches!(
        Secp256k1PublicKey::from_bytes(&full),
        Err(PublicKeyError::Crate("libsecp256k1", _))
    ));
}

#[test]
fn full_key_has_no_bech32_address() {
    let key = Secp256k1PublicKey::from_text(KEY_ONE_FULL).unwrap();
    assert!(!key.is_compressed());
    let format = KeyHashFormat::bech32("bc").unwrap();
    assert_eq!(key.to_address(&format), Err(AddressError::UnsupportedKey(65)));
    let plain = KeyHashFormat::base58check(0);
    let address = key.to_address(&plain).unwrap();
    assert_eq!(
        rschain_core::address::Address::to_string(&address, &plain),
        "1EHNa6Q4Jz2uvNExL497mE43ikXhwF6kZm"
    );
    assert!(key.to_address(&KeyHashFormat::hex()).is_ok());
}
