//! The failures of a transaction.

use vstd::prelude::*;

verus! {

/// Why a transaction could not be built or read.
#[derive(Debug, PartialEq, Eq)]
pub enum TransactionError {
    /// A failure inside another library: its name, and the failure as that
    /// library renders it.
    Crate(&'static str, String),
    InvalidInputs(String),
    InvalidOutputs(String),
    Message(String),
}

} // verus!
