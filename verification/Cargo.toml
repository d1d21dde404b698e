[package]
name = "rschain-core"
version = "0.1.0"
edition = "2021"
publish = false

[dependencies]
base58 = "0.2"
bech32 = "0.11"
hex = "0.4"
libsecp256k1 = "0.7"
ripemd = "0.1"
sha2 = "0.10"
