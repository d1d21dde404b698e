//! The public-key capability and its failures.

use crate::address::{Address, AddressError, AddressFault};
use crate::codec::{base16, prefix, radix58};
use crate::format::Format;
use vstd::prelude::*;
use vstd::std_specs::convert::FromSpecImpl;

verus! {

/// `std::io::Error`, carried as it is: nothing in it is read.
#[verifier::external_type_specification]
#[verifier::external_body]
pub struct ExIoError(std::io::Error);

/// A public key: derived from a secret key, rendered as an address under a
/// format.
pub trait PublicKey: Clone + core::fmt::Debug + Send + Sync + 'static + Sized + View {
    type SecretKey: View;

    type Address: Address;

    type Format: Format;

    /// The public key of a secret key.
    spec fn derive_spec(secret_key: <Self::SecretKey as View>::V) -> Self::V;

    /// The address of a public key under a format, or why it has none.
    spec fn address_spec(key: Self::V, format: <Self::Format as View>::V) -> Result<
        <Self::Address as View>::V,
        AddressFault,
    >;

    /// Returns the public key of a secret key. The key is a function of the
    /// secret key alone.
    fn from_secret_key(secret_key: &Self::SecretKey) -> (key: Self)
        ensures
            key@ == Self::derive_spec(secret_key@),
    ;

    /// Returns the address of this public key under `format`.
    fn to_address(&self, format: &Self::Format) -> (r: Result<Self::Address, AddressError>)
        ensures
            match r {
                Ok(address) => Self::address_spec(self@, format@) == Ok::<
                    <Self::Address as View>::V,
                    AddressFault,
                >(address@),
                Err(error) => Self::address_spec(self@, format@) == Err::<
                    <Self::Address as View>::V,
                    AddressFault,
                >(error@),
            },
    ;
}

/// Why a public key could not be read or used.
#[derive(Debug, PartialEq, Eq)]
pub enum PublicKeyError {
    /// A failure inside another library: its name, and the failure as that
    /// library renders it.
    Crate(&'static str, String),
    InvalidByteLength(usize),
    InvalidCharacterLength(usize),
    InvalidPrefix(String),
    NoSpendingKey,
    NoViewingKey,
}

/// What a `PublicKeyError` says, with texts as sequences of characters.
pub enum PublicKeyFault {
    /// A failure inside the library of this name, as that library renders
    /// it.
    Foreign(Seq<char>, Seq<char>),
    ByteLength(usize),
    CharacterLength(usize),
    Prefix(Seq<char>),
    NoSpendingKey,
    NoViewingKey,
}

impl View for PublicKeyError {
    type V = PublicKeyFault;

    open spec fn view(&self) -> PublicKeyFault {
        match self {
            PublicKeyError::Crate(origin, message) => PublicKeyFault::Foreign(origin@, message@),
            PublicKeyError::InvalidByteLength(length) => PublicKeyFault::ByteLength(*length),
            PublicKeyError::InvalidCharacterLength(length) => PublicKeyFault::CharacterLength(
                *length,
            ),
            PublicKeyError::InvalidPrefix(prefix) => PublicKeyFault::Prefix(prefix@),
            PublicKeyError::NoSpendingKey => PublicKeyFault::NoSpendingKey,
            PublicKeyError::NoViewingKey => PublicKeyFault::NoViewingKey,
        }
    }
}

impl PublicKeyError {
    /// The failure of another library: the library's name, and the failure
    /// as the library renders it.
    pub fn foreign(origin: &'static str, message: String) -> (r: Self)
        ensures
            r == PublicKeyError::Crate(origin, message),
    {
        PublicKeyError::Crate(origin, message)
    }
}

/// The `Debug` text of a `std::io::Error`. It may hold the message of the
/// operating system, so it has no name; whatever the error, it is not empty.
#[verifier::external_body]
pub(crate) fn render_io_error(error: &std::io::Error) -> (message: String)
    ensures
        message@.len() > 0,
{
    format!("{:?}", error)
}

impl From<std::io::Error> for PublicKeyError {
    fn from(error: std::io::Error) -> (r: Self)
        ensures
            r matches PublicKeyError::Crate(origin, message) && origin@ == "crate::no_std::io"@
                && message@.len() > 0,
    {
        PublicKeyError::foreign("crate::no_std::io", render_io_error(&error))
    }
}

impl FromSpecImpl<std::io::Error> for PublicKeyError {
    open spec fn obeys_from_spec() -> bool {
        false
    }

    open spec fn from_spec(error: std::io::Error) -> Self {
        arbitrary()
    }
}

impl From<base58::FromBase58Error> for PublicKeyError {
    fn from(error: base58::FromBase58Error) -> (r: Self)
        ensures
            r matches PublicKeyError::Crate(origin, message) && origin@ == "base58"@ && message@
                == radix58::base58_error_text(error),
    {
        PublicKeyError::foreign("base58", radix58::render_error(&error))
    }
}

impl FromSpecImpl<base58::FromBase58Error> for PublicKeyError {
    open spec fn obeys_from_spec() -> bool {
        false
    }

    open spec fn from_spec(error: base58::FromBase58Error) -> Self {
        arbitrary()
    }
}

impl From<bech32::primitives::hrp::Error> for PublicKeyError {
    fn from(error: bech32::primitives::hrp::Error) -> (r: Self)
        ensures
            r matches PublicKeyError::Crate(origin, message) && origin@ == "bech32"@ && message@
                == prefix::prefix_error_text(error),
    {
        PublicKeyError::foreign("bech32", prefix::render_error(&error))
    }
}

impl FromSpecImpl<bech32::primitives::hrp::Error> for PublicKeyError {
    open spec fn obeys_from_spec() -> bool {
        false
    }

    open spec fn from_spec(error: bech32::primitives::hrp::Error) -> Self {
        arbitrary()
    }
}

impl From<hex::FromHexError> for PublicKeyError {
    fn from(error: hex::FromHexError) -> (r: Self)
        ensures
            r matches PublicKeyError::Crate(origin, message) && origin@ == "hex"@ && message@
                == base16::hex_error_text(error),
    {
        PublicKeyError::foreign("hex", base16::render_error(&error))
    }
}

impl FromSpecImpl<hex::FromHexError> for PublicKeyError {
    open spec fn obeys_from_spec() -> bool {
        false
    }

    open spec fn from_spec(error: hex::FromHexError) -> Self {
        arbitrary()
    }
}

impl From<libsecp256k1::Error> for PublicKeyError {
    fn from(error: libsecp256k1::Error) -> (r: Self)
        ensures
            r matches PublicKeyError::Crate(origin, message) && origin@ == "libsecp256k1"@
                && message@ == crate::secp256k1::curve_error_text(error),
    {
        PublicKeyError::foreign("libsecp256k1", crate::secp256k1::render_error(&error))
    }
}

impl FromSpecImpl<libsecp256k1::Error> for PublicKeyError {
    open spec fn obeys_from_spec() -> bool {
        false
    }

    open spec fn from_spec(error: libsecp256k1::Error) -> Self {
        arbitrary()
    }
}

} // verus!
