//! The one error that every failure of this library converts to.

use crate::address::AddressError;
use crate::amount::AmountError;
use crate::format::FormatError;
use crate::public_key::PublicKeyError;
use crate::transaction::TransactionError;
use vstd::prelude::*;
use vstd::std_specs::convert::FromSpecImpl;

verus! {

/// `std::fmt::Error`, carried as it is: nothing in it is read.
#[verifier::external_type_specification]
#[verifier::external_body]
pub struct ExFmtError(std::fmt::Error);

/// `std::num::ParseIntError`, carried as it is: nothing in it is read.
#[verifier::external_type_specification]
#[verifier::external_body]
pub struct ExParseIntError(std::num::ParseIntError);

/// A failure of any part of the library, kept as it was, under the name of
/// the part it came from.
#[derive(Debug)]
pub enum Error {
    RuntimeError(String),
    InvalidAddress(AddressError),
    InvalidTransaction(TransactionError),
    InvalidAmount(AmountError),
    InvalidPublickKey(PublicKeyError),
    InvalidFormat(FormatError),
    Io(std::io::Error),
    Fmt(std::fmt::Error),
    FromHex(hex::FromHexError),
    ParseInt(std::num::ParseIntError),
    Secp256k1Error(libsecp256k1::Error),
}

impl From<AddressError> for Error {
    fn from(error: AddressError) -> (r: Self) {
        Error::InvalidAddress(error)
    }
}

impl FromSpecImpl<AddressError> for Error {
    open spec fn obeys_from_spec() -> bool {
        true
    }

    open spec fn from_spec(error: AddressError) -> Self {
        Error::InvalidAddress(error)
    }
}

impl From<TransactionError> for Error {
    fn from(error: TransactionError) -> (r: Self) {
        Error::InvalidTransaction(error)
    }
}

impl FromSpecImpl<TransactionError> for Error {
    open spec fn obeys_from_spec() -> bool {
        true
    }

    open spec fn from_spec(error: TransactionError) -> Self {
        Error::InvalidTransaction(error)
    }
}

impl From<AmountError> for Error {
    fn from(error: AmountError) -> (r: Self) {
        Error::InvalidAmount(error)
    }
}

impl FromSpecImpl<AmountError> for Error {
    open spec fn obeys_from_spec() -> bool {
        true
    }

    open spec fn from_spec(error: AmountError) -> Self {
        Error::InvalidAmount(error)
    }
}

impl From<PublicKeyError> for Error {
    fn from(error: PublicKeyError) -> (r: Self) {
        Error::InvalidPublickKey(error)
    }
}

impl FromSpecImpl<PublicKeyError> for Error {
    open spec fn obeys_from_spec() -> bool {
        true
    }

    open spec fn from_spec(error: PublicKeyError) -> Self {
        Error::InvalidPublickKey(error)
    }
}

impl From<FormatError> for Error {
    fn from(error: FormatError) -> (r: Self) {
        Error::InvalidFormat(error)
    }
}

impl FromSpecImpl<FormatError> for Error {
    open spec fn obeys_from_spec() -> bool {
        true
    }

    open spec fn from_spec(error: FormatError) -> Self {
        Error::InvalidFormat(error)
    }
}

impl From<std::io::Error> for Error {
    fn from(error: std::io::Error) -> (r: Self) {
        Error::Io(error)
    }
}

impl FromSpecImpl<std::io::Error> for Error {
    open spec fn obeys_from_spec() -> bool {
        true
    }

    open spec fn from_spec(error: std::io::Error) -> Self {
        Error::Io(error)
    }
}

impl From<std::fmt::Error> for Error {
    fn from(error: std::fmt::Error) -> (r: Self) {
        Error::Fmt(error)
    }
}

impl FromSpecImpl<std::fmt::Error> for Error {
    open spec fn obeys_from_spec() -> bool {
        true
    }

    open spec fn from_spec(error: std::fmt::Error) -> Self {
        Error::Fmt(error)
    }
}

impl From<hex::FromHexError> for Error {
    fn from(error: hex::FromHexError) -> (r: Self) {
        Error::FromHex(error)
    }
}

impl FromSpecImpl<hex::FromHexError> for Error {
    open spec fn obeys_from_spec() -> bool {
        true
    }

    open spec fn from_spec(error: hex::FromHexError) -> Self {
        Error::FromHex(error)
    }
}

impl From<std::num::ParseIntError> for Error {
    fn from(error: std::num::ParseIntError) -> (r: Self) {
        Error::ParseInt(error)
    }
}

impl FromSpecImpl<std::num::ParseIntError> for Error {
    open spec fn obeys_from_spec() -> bool {
        true
    }

    open spec fn from_spec(error: std::num::ParseIntError) -> Self {
        Error::ParseInt(error)
    }
}

impl From<libsecp256k1::Error> for Error {
    fn from(error: libsecp256k1::Error) -> (r: Self) {
        Error::Secp256k1Error(error)
    }
}

impl FromSpecImpl<libsecp256k1::Error> for Error {
    open spec fn obeys_from_spec() -> bool {
        true
    }

    open spec fn from_spec(error: libsecp256k1::Error) -> Self {
        Error::Secp256k1Error(error)
    }
}

} // verus!
