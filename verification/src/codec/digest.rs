//! The hash functions behind the key hash and the base-58 checksum, computed
//! by the `sha2` and `ripemd` crates.

use vstd::prelude::*;

verus! {

/// Number of bytes in the hash of a public key.
pub const KEY_HASH_BYTES: usize = 20;

/// The SHA-256 digest of `data`.
pub uninterp spec fn sha256_digest(data: Seq<u8>) -> Seq<u8>;

/// The RIPEMD-160 digest of `data`.
pub uninterp spec fn ripemd160_digest(data: Seq<u8>) -> Seq<u8>;

/// The hash that stands for a public key in an address: RIPEMD-160 of
/// SHA-256 of the key's bytes.
pub open spec fn key_hash(key: Seq<u8>) -> Seq<u8> {
    ripemd160_digest(sha256_digest(key))
}

/// The four check bytes of `data`: the first four bytes of SHA-256 applied
/// twice.
pub open spec fn check_bytes(data: Seq<u8>) -> Seq<u8> {
    Seq::new(4, |i: int| sha256_digest(sha256_digest(data))[i])
}

/// `sha2::Sha256::digest`: the digest, which has 32 bytes.
#[verifier::external_body]
pub(crate) fn sha256(data: &[u8]) -> (digest: Vec<u8>)
    ensures
        digest@ == sha256_digest(data@),
        digest@.len() == 32,
{
    <sha2::Sha256 as sha2::Digest>::digest(data).to_vec()
}

/// `ripemd::Ripemd160::digest`: the digest, which has 20 bytes.
#[verifier::external_body]
pub(crate) fn ripemd160(data: &[u8]) -> (digest: Vec<u8>)
    ensures
        digest@ == ripemd160_digest(data@),
        digest@.len() == 20,
{
    <ripemd::Ripemd160 as ripemd::Digest>::digest(data).to_vec()
}

/// Hashes the bytes of a public key.
pub fn hash_key(key: &[u8]) -> (hash: Vec<u8>)
    ensures
        hash@ == key_hash(key@),
        hash@.len() == KEY_HASH_BYTES,
{
    let inner: Vec<u8> = sha256(key);
    ripemd160(inner.as_slice())
}

/// Computes the four check bytes of `data`.
pub fn compute_check_bytes(data: &[u8]) -> (check: Vec<u8>)
    ensures
        check@ == check_bytes(data@),
{
    let inner: Vec<u8> = sha256(data);
    let outer: Vec<u8> = sha256(inner.as_slice());
    let mut check: Vec<u8> = Vec::with_capacity(4);
    check.push(outer[0]);
    check.push(outer[1]);
    check.push(outer[2]);
    check.push(outer[3]);
    proof {
        assert(check@ =~= check_bytes(data@));
    }
    check
}

} // verus!
