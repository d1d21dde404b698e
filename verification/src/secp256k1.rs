//! Keys on the curve secp256k1, with the arithmetic of the `libsecp256k1`
//! crate.

use crate::address::{AddressError, AddressFault};
use crate::codec::base16::{hex_bytes, hex_failure_text, hex_text, lemma_hex_round_trip};
use crate::codec::digest::{hash_key, key_hash};
use crate::codec::regroup::{span, value};
use crate::codec::base16;
use crate::error::Error;
use crate::keyhash::address::{AddressView, KeyHashAddress};
use crate::keyhash::format::{FormatView, KeyHashFormat};
use crate::keyhash::layout::PAYLOAD_BYTES;
use crate::public_key::{PublicKey, PublicKeyError, PublicKeyFault};
use libsecp256k1::Error as CurveError;
use vstd::prelude::*;
use vstd::slice::{slice_subrange, slice_to_vec};

verus! {

/// The error of `libsecp256k1`, carried as it is: nothing in it is read.
#[verifier::external_type_specification]
#[verifier::external_body]
pub struct ExCurveError(CurveError);

/// Number of bytes in a secret key.
pub const SECRET_KEY_BYTES: usize = 32;

/// Number of bytes in a compressed public key.
pub const COMPRESSED_BYTES: usize = 33;

/// Number of bytes in a full public key.
pub const FULL_BYTES: usize = 65;

/// Number of characters in the text of a compressed public key.
pub const COMPRESSED_CHARS: usize = 66;

/// Number of characters in the text of a full public key.
pub const FULL_CHARS: usize = 130;

/// The order of the curve's group: the number of its points.
pub open spec fn curve_order() -> nat {
    0xFFFF_FFFF_FFFF_FFFF_FFFF_FFFF_FFFF_FFFEnat * span(2, 128)
        + 0xBAAE_DCE6_AF48_A03B_BFD2_5E8C_D036_4141nat
}

/// True if the bytes are a secret key: 32 bytes that spell, first byte most
/// significant, a number above zero and below the order of the curve.
pub open spec fn valid_scalar(bytes: Seq<u8>) -> bool {
    &&& bytes.len() == SECRET_KEY_BYTES
    &&& 0 < value(bytes, 256) < curve_order()
}

/// True if `libsecp256k1::PublicKey::parse_slice` takes the bytes, with no
/// format named, as a point of the curve.
pub uninterp spec fn curve_point(bytes: Seq<u8>) -> bool;

/// The compressed public key of a secret key, as
/// `libsecp256k1::PublicKey::from_secret_key` derives it and
/// `serialize_compressed` writes it.
pub uninterp spec fn public_point(secret: Seq<u8>) -> Seq<u8>;

/// True if the bytes have the length and the first byte of a public key:
/// 33 bytes that start with 2 or 3, or 65 bytes that start with 4.
pub open spec fn key_shape(bytes: Seq<u8>) -> bool {
    ||| bytes.len() == COMPRESSED_BYTES && (bytes[0] == 2 || bytes[0] == 3)
    ||| bytes.len() == FULL_BYTES && bytes[0] == 4
}

/// True if the bytes are a public key.
pub open spec fn valid_key(bytes: Seq<u8>) -> bool {
    key_shape(bytes) && curve_point(bytes)
}

/// The public key that the bytes are, or why they are none.
pub open spec fn key_of_bytes(bytes: Seq<u8>) -> Result<Seq<u8>, PublicKeyFault> {
    if bytes.len() != COMPRESSED_BYTES && bytes.len() != FULL_BYTES {
        Err(PublicKeyFault::ByteLength(bytes.len() as usize))
    } else if !key_shape(bytes) {
        Err(PublicKeyFault::Prefix(hex_text(bytes.take(1))))
    } else if !curve_point(bytes) {
        Err(PublicKeyFault::Foreign("libsecp256k1"@, "InvalidPublicKey"@))
    } else {
        Ok(bytes)
    }
}

/// The public key that a text spells in hexadecimal, or why it spells none.
pub open spec fn key_of_text(text: Seq<char>) -> Result<Seq<u8>, PublicKeyFault> {
    if text.len() != COMPRESSED_CHARS && text.len() != FULL_CHARS {
        Err(PublicKeyFault::CharacterLength(text.len() as usize))
    } else {
        match hex_bytes(text) {
            None => Err(PublicKeyFault::Foreign("hex"@, hex_failure_text(text))),
            Some(bytes) => key_of_bytes(bytes),
        }
    }
}

/// The address of a public key under a format, or why it has none: a key
/// that is not compressed has no bech32 address.
pub open spec fn address_of_key(key: Seq<u8>, format: FormatView) -> Result<
    AddressView,
    AddressFault,
> {
    if format is Bech32 && key.len() != COMPRESSED_BYTES {
        Err(AddressFault::UnsupportedKey(key.len() as usize))
    } else {
        Ok(AddressView { payload: key_hash(key), format })
    }
}

/// Text round trip: the text of a public key reads back as the key.
pub proof fn key_text_round_trip(key: Seq<u8>)
    requires
        valid_key(key),
    ensures
        key_of_text(hex_text(key)) == Ok::<Seq<u8>, PublicKeyFault>(key),
{
    lemma_hex_round_trip(key);
}

/// The text that the derived `Debug` of `libsecp256k1::Error` writes for an
/// error: the name of its variant.
pub uninterp spec fn curve_error_text(error: libsecp256k1::Error) -> Seq<char>;

/// The derived `Debug` of `libsecp256k1::Error`, whose text is a function of
/// the error alone.
#[verifier::external_body]
pub(crate) fn render_error(error: &libsecp256k1::Error) -> (message: String)
    ensures
        message@ == curve_error_text(*error),
{
    format!("{:?}", error)
}

/// `libsecp256k1::SecretKey::parse_slice`, which takes 32 bytes that spell a
/// number above zero and below the order of the curve, and nothing else.
#[verifier::external_body]
fn check_scalar(bytes: &[u8]) -> (r: Result<(), libsecp256k1::Error>)
    ensures
        r is Ok <==> valid_scalar(bytes@),
{
    match libsecp256k1::SecretKey::parse_slice(bytes) {
        Ok(_) => Ok(()),
        Err(error) => Err(error),
    }
}

/// `libsecp256k1::PublicKey::parse_slice` with no format named. What it
/// takes is what `curve_point` is true of: the arithmetic behind it is not
/// stated here. For 33 or 65 bytes the only error it reports is
/// `InvalidPublicKey`, which `Debug` renders by that name.
#[verifier::external_body]
fn check_point(bytes: &[u8]) -> (r: Result<(), libsecp256k1::Error>)
    requires
        bytes@.len() == COMPRESSED_BYTES || bytes@.len() == FULL_BYTES,
    ensures
        r is Ok <==> curve_point(bytes@),
        r matches Err(error) ==> curve_error_text(error) == "InvalidPublicKey"@,
{
    match libsecp256k1::PublicKey::parse_slice(bytes, None) {
        Ok(_) => Ok(()),
        Err(error) => Err(error),
    }
}

/// `libsecp256k1::PublicKey::from_secret_key` on the secret key that the
/// bytes are, written by `serialize_compressed`: 33 bytes that start with 2
/// or 3, and that `parse_slice` takes back.
#[verifier::external_body]
fn derive_point(secret: &[u8]) -> (key: Vec<u8>)
    requires
        valid_scalar(secret@),
    ensures
        key@ == public_point(secret@),
        key@.len() == COMPRESSED_BYTES,
        key@[0] == 2 || key@[0] == 3,
        curve_point(key@),
{
    let scalar = libsecp256k1::SecretKey::parse_slice(secret).unwrap();
    libsecp256k1::PublicKey::from_secret_key(&scalar).serialize_compressed().to_vec()
}

/// A secret key of the curve.
pub struct Secp256k1SecretKey {
    bytes: Vec<u8>,
}

impl View for Secp256k1SecretKey {
    type V = Seq<u8>;

    closed spec fn view(&self) -> Seq<u8> {
        self.bytes@
    }
}

impl Secp256k1SecretKey {
    #[verifier::type_invariant]
    spec fn in_range(&self) -> bool {
        valid_scalar(self.bytes@)
    }

    /// Makes a secret key of `bytes`, if they are one.
    pub fn from_bytes(bytes: &[u8]) -> (r: Result<Self, Error>)
        ensures
            match r {
                Ok(key) => valid_scalar(bytes@) && key@ == bytes@,
                Err(error) => !valid_scalar(bytes@) && error is Secp256k1Error,
            },
    {
        match check_scalar(bytes) {
            Ok(_) => Ok(Secp256k1SecretKey { bytes: slice_to_vec(bytes) }),
            Err(error) => Err(Error::Secp256k1Error(error)),
        }
    }
}

/// A public key of the curve: a point, written compressed or in full.
#[derive(Debug, PartialEq, Eq)]
pub struct Secp256k1PublicKey {
    bytes: Vec<u8>,
}

impl View for Secp256k1PublicKey {
    type V = Seq<u8>;

    closed spec fn view(&self) -> Seq<u8> {
        self.bytes@
    }
}

impl Secp256k1PublicKey {
    #[verifier::type_invariant]
    spec fn on_curve(&self) -> bool {
        valid_key(self.bytes@)
    }

    /// Makes a public key of `bytes`, if they are one.
    pub fn from_bytes(bytes: &[u8]) -> (r: Result<Self, PublicKeyError>)
        ensures
            match r {
                Ok(key) => key_of_bytes(bytes@) == Ok::<Seq<u8>, PublicKeyFault>(key@),
                Err(error) => key_of_bytes(bytes@) == Err::<Seq<u8>, PublicKeyFault>(error@),
            },
    {
        let count: usize = bytes.len();
        if count != COMPRESSED_BYTES && count != FULL_BYTES {
            return Err(PublicKeyError::InvalidByteLength(count));
        }
        let first: u8 = bytes[0];
        let shaped: bool = if count == COMPRESSED_BYTES {
            first == 2 || first == 3
        } else {
            first == 4
        };
        if !shaped {
            proof {
                assert(bytes@.subrange(0, 1) =~= bytes@.take(1));
            }
            return Err(PublicKeyError::InvalidPrefix(base16::encode(slice_subrange(bytes, 0, 1))));
        }
        match check_point(bytes) {
            Ok(_) => Ok(Secp256k1PublicKey { bytes: slice_to_vec(bytes) }),
            Err(error) => Err(PublicKeyError::from(error)),
        }
    }

    /// Reads a public key from its hexadecimal text.
    pub fn from_text(text: &str) -> (r: Result<Self, PublicKeyError>)
        ensures
            match r {
                Ok(key) => key_of_text(text@) == Ok::<Seq<u8>, PublicKeyFault>(key@),
                Err(error) => key_of_text(text@) == Err::<Seq<u8>, PublicKeyFault>(error@),
            },
    {
        let count: usize = text.unicode_len();
        if count != COMPRESSED_CHARS && count != FULL_CHARS {
            return Err(PublicKeyError::InvalidCharacterLength(count));
        }
        match base16::decode(text) {
            Err(error) => Err(PublicKeyError::from(error)),
            Ok(bytes) => Self::from_bytes(bytes.as_slice()),
        }
    }

    /// Writes the public key as hexadecimal text, which reads back as the
    /// key.
    pub fn to_text(&self) -> (text: String)
        ensures
            text@ == hex_text(self@),
            key_of_text(text@) == Ok::<Seq<u8>, PublicKeyFault>(self@),
    {
        proof {
            use_type_invariant(self);
            key_text_round_trip(self.bytes@);
        }
        base16::encode(self.bytes.as_slice())
    }

    /// The bytes of the public key.
    pub fn as_bytes(&self) -> (bytes: &[u8])
        ensures
            bytes@ == self@,
            valid_key(bytes@),
    {
        proof {
            use_type_invariant(self);
        }
        self.bytes.as_slice()
    }

    /// True if the key is written compressed.
    pub fn is_compressed(&self) -> (compressed: bool)
        ensures
            compressed == (self@.len() == COMPRESSED_BYTES),
    {
        self.bytes.len() == COMPRESSED_BYTES
    }
}

impl Clone for Secp256k1PublicKey {
    fn clone(&self) -> (copy: Self)
        ensures
            copy@ == self@,
    {
        proof {
            use_type_invariant(self);
        }
        Secp256k1PublicKey { bytes: self.bytes.clone() }
    }
}

impl core::str::FromStr for Secp256k1PublicKey {
    type Err = PublicKeyError;

    fn from_str(text: &str) -> (r: Result<Self, PublicKeyError>)
        ensures
            match r {
                Ok(key) => key_of_text(text@) == Ok::<Seq<u8>, PublicKeyFault>(key@),
                Err(error) => key_of_text(text@) == Err::<Seq<u8>, PublicKeyFault>(error@),
            },
    {
        Self::from_text(text)
    }
}

impl PublicKey for Secp256k1PublicKey {
    type SecretKey = Secp256k1SecretKey;

    type Address = KeyHashAddress;

    type Format = KeyHashFormat;

    open spec fn derive_spec(secret_key: Seq<u8>) -> Seq<u8> {
        public_point(secret_key)
    }

    open spec fn address_spec(key: Seq<u8>, format: FormatView) -> Result<
        AddressView,
        AddressFault,
    > {
        address_of_key(key, format)
    }

    fn from_secret_key(secret_key: &Secp256k1SecretKey) -> (key: Self)
        ensures
            key@.len() == COMPRESSED_BYTES,
            valid_key(key@),
    {
        proof {
            use_type_invariant(secret_key);
        }
        Secp256k1PublicKey { bytes: derive_point(secret_key.bytes.as_slice()) }
    }

    fn to_address(&self, format: &KeyHashFormat) -> (r: Result<KeyHashAddress, AddressError>)
        ensures
            r matches Ok(address) ==> address@.payload.len() == PAYLOAD_BYTES,
    {
        let count: usize = self.bytes.len();
        let tagged: bool = match format {
            KeyHashFormat::Bech32 { prefix } => true,
            _ => false,
        };
        if tagged && count != COMPRESSED_BYTES {
            return Err(AddressError::UnsupportedKey(count));
        }
        let payload: Vec<u8> = hash_key(self.bytes.as_slice());
        Ok(KeyHashAddress::new(payload, format.clone()))
    }
}

} // verus!
