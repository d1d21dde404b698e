//! Key-to-address derivation for several address encodings.
//!
//! A secret key yields a public key; a public key and a format yield an
//! address; an address and a format yield text, and text parses back to the
//! address under the same format.

pub mod address;
pub mod amount;
pub mod codec;
pub mod error;
pub mod format;
pub mod keyhash;
pub mod public_key;
pub mod secp256k1;
pub mod transaction;
