use rschain_core::address::AddressError;
use rschain_core::amount::AmountError;
use rschain_core::error::Error;
use rschain_core::format::FormatError;
use rschain_core::public_key::PublicKeyError;
use rschain_core::transaction::TransactionError;

#[test]
fn foreign_failures_keep_their_origin_and_their_text() {
    let error = PublicKeyError::from(hex::FromHexError::OddLength);
    assert_eq!(error, PublicKeyError::Crate("hex", "OddLength".to_string()));
    let error = PublicKeyError::from(hex::FromHexError::InvalidHexCharacter { c: 'x', index: 3 });
    assert_eq!(
        error,
        PublicKeyError::Crate("hex", "InvalidHexCharacter { c: 'x', index: 3 }".to_string())
    );
    let error = PublicKeyError::from(base58::FromBase58Error::InvalidBase58Length);
    assert_eq!(error, PublicKeyError::Crate("base58", "InvalidBase58Length".to_string()));
    let error = PublicKeyError::from(base58::FromBase58Error::InvalidBase58Character('0', 4));
    assert_eq!(
        error,
        PublicKeyError::Crate("base58", "InvalidBase58Character('0', 4)".to_string())
    );
    let error = PublicKeyError::from(bech32::primitives::hrp::Error::Empty);
    assert_eq!(error, PublicKeyError::Crate("bech32", "Empty".to_string()));
    let error = PublicKeyError::from(libsecp256k1::Error::InvalidPublicKey);
    assert_eq!(error, PublicKeyError::Crate("libsecp256k1", "InvalidPublicKey".to_string()));
    let io = std::io::Error::new(std::io::ErrorKind::UnexpectedEof, "short");
    let expected = format!("{:?}", io);
    assert!(!expected.is_empty());
    assert_eq!(PublicKeyError::from(io), PublicKeyError::Crate("crate::no_std::io", expected));
    for kind in [std::io::ErrorKind::NotFound, std::io::ErrorKind::Other] {
        match PublicKeyError::from(std::io::Error::from(kind)) {
            PublicKeyError::Crate(origin, message) => {
                assert_eq!(origin, "crate::no_std::io");
                assert_eq!(message, format!("{:?}", std::io::Error::from(kind)));
                assert!(!message.is_empty());
            }
            other => panic!("{:?}", other),
        }
    }
    match PublicKeyError::from(std::io::Error::from_raw_os_error(2)) {
        PublicKeyError::Crate(origin, message) => {
            assert_eq!(origin, "crate::no_std::io");
            assert!(message.starts_with("Os {"));
        }
        other => panic!("{:?}", other),
    }
    assert_eq!(
        PublicKeyError::foreign("hex", "OddLength".to_string()),
        PublicKeyError::Crate("hex", "OddLength".to_string())
    );
    let error = PublicKeyError::from(libsecp256k1::Error::InvalidSecretKey);
    assert_eq!(error, PublicKeyError::Crate("libsecp256k1", "InvalidSecretKey".to_string()));
}

#[test]
fn address_and_format_failures_from_foreign_ones() {
    assert_eq!(
        AddressError::from(hex::FromHexError::InvalidStringLength),
        AddressError::Crate("hex", "InvalidStringLength".to_string())
    );
    assert_eq!(
        AddressError::from(base58::FromBase58Error::InvalidBase58Length),
        AddressError::Crate("base58", "InvalidBase58Length".to_string())
    );
    assert_eq!(
        FormatError::from(bech32::primitives::hrp::Error::MixedCase),
        FormatError::Crate("bech32", "MixedCase".to_string())
    );
}

#[test]
fn every_failure_converts_to_the_one_error() {
    assert!(matches!(
        Error::from(AddressError::InvalidChecksum),
        Error::InvalidAddress(AddressError::InvalidChecksum)
    ));
    assert!(matches!(
        Error::from(TransactionError::Message("m".to_string())),
        Error::InvalidTransaction(TransactionError::Message(_))
    ));
    assert!(matches!(
        Error::from(AmountError::InvalidAmount("1".to_string())),
        Error::InvalidAmount(AmountError::InvalidAmount(_))
    ));
    assert!(matches!(
        Error::from(PublicKeyError::NoSpendingKey),
        Error::InvalidPublickKey(PublicKeyError::NoSpendingKey)
    ));
    assert!(matches!(
        Error::from(PublicKeyError::NoViewingKey),
        Error::InvalidPublickKey(PublicKeyError::NoViewingKey)
    ));
    assert!(matches!(
        Error::from(FormatError::InvalidPrefix("X".to_string())),
        Error::InvalidFormat(FormatError::InvalidPrefix(_))
    ));
    assert!(matches!(
        Error::from(std::io::Error::new(std::io::ErrorKind::Other, "x")),
        Error::Io(_)
    ));
    assert!(matches!(Error::from(std::fmt::Error), Error::Fmt(_)));
    assert!(matches!(
        Error::from(hex::FromHexError::OddLength),
        Error::FromHex(hex::FromHexError::OddLength)
    ));
    assert!(matches!(
        Error::from("x".parse::<u8>().unwrap_err()),
        Error::ParseInt(_)
    ));
    assert!(matches!(
        Error::from(libsecp256k1::Error::InvalidSecretKey),
        Error::Secp256k1Error(libsecp256k1::Error::InvalidSecretKey)
    ));
    assert!(matches!(Error::RuntimeError("r".to_string()), Error::RuntimeError(_)));
}
