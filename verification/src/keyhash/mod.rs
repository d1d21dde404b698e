//! Addresses that hold the twenty-byte hash of a public key, in three
//! families of text: base 58 with a version byte and a hashed checksum,
//! bech32 with a human-readable prefix and a polynomial checksum, and bare
//! hexadecimal.

pub mod address;
pub mod format;
pub mod laws;
pub mod layout;
