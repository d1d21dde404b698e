//! The failures of an amount.

use vstd::prelude::*;

verus! {

/// Why an amount could not be read or used.
#[derive(Debug, PartialEq, Eq)]
pub enum AmountError {
    /// The amount, and the bound that it is beyond.
    AmountOutOfBounds(String, String),
    /// A failure inside another library: its name, and the failure as that
    /// library renders it.
    Crate(&'static str, String),
    InvalidAmount(String),
}

} // verus!
