//! The encoders, decoders and checksums that every address format shares.

pub mod base16;
pub mod bytes;
pub mod charset;
pub mod digest;
pub mod drift;
pub mod polymod;
pub mod prefix;
pub mod radix58;
pub mod regroup;
pub mod text;
