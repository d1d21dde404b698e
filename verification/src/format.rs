//! The format capability and its failures.

use crate::codec::prefix;
use vstd::prelude::*;
use vstd::std_specs::convert::FromSpecImpl;

verus! {

/// A format: the fixed parameters of one way of writing an address.
pub trait Format: Clone + Sized + View {

}

/// Why a format could not be made.
#[derive(Debug, PartialEq, Eq)]
pub enum FormatError {
    /// A failure inside another library: its name, and the failure as that
    /// library renders it.
    Crate(&'static str, String),
    /// This human-readable prefix holds an upper-case letter.
    InvalidPrefix(String),
}

/// What a `FormatError` says, with texts as sequences of characters.
pub enum FormatFault {
    /// A failure inside the library of this name, as that library renders
    /// it.
    Foreign(Seq<char>, Seq<char>),
    Prefix(Seq<char>),
}

impl View for FormatError {
    type V = FormatFault;

    open spec fn view(&self) -> FormatFault {
        match self {
            FormatError::Crate(origin, message) => FormatFault::Foreign(origin@, message@),
            FormatError::InvalidPrefix(prefix) => FormatFault::Prefix(prefix@),
        }
    }
}

impl From<bech32::primitives::hrp::Error> for FormatError {
    fn from(error: bech32::primitives::hrp::Error) -> (r: Self)
        ensures
            r matches FormatError::Crate(origin, message) && origin@ == "bech32"@ && message@
                == prefix::prefix_error_text(error),
    {
        FormatError::Crate("bech32", prefix::render_error(&error))
    }
}

impl FromSpecImpl<bech32::primitives::hrp::Error> for FormatError {
    open spec fn obeys_from_spec() -> bool {
        false
    }

    open spec fn from_spec(error: bech32::primitives::hrp::Error) -> Self {
        arbitrary()
    }
}

} // verus!
