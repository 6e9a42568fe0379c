//! The hash functions that the contracts and the chain client use.

use vstd::prelude::*;

verus! {

/// The Keccak-256 digest of a byte string, as `stylus_sdk::crypto::keccak` computes it.
pub uninterp spec fn keccak256_digest(data: Seq<u8>) -> Seq<u8>;

/// Calls `stylus_sdk::crypto::keccak`, which hashes its argument with Keccak-256.
/// Trusted: the 32 bytes that come back depend on the argument alone.
#[verifier::external_body]
pub(crate) fn keccak(data: &[u8]) -> (digest: [u8; 32])
    ensures
        digest@ == keccak256_digest(data@),
{
    stylus_sdk::crypto::keccak(data).0
}

/// The 256-bit BLAKE2 digest of a byte string, as `ink::env::hash_bytes` computes it
/// with `Blake2x256`.
pub uninterp spec fn blake2x256_digest(data: Seq<u8>) -> Seq<u8>;

/// Calls `ink::env::hash_bytes` with `Blake2x256`, which writes the 256-bit BLAKE2b digest
/// of its input into the 32 bytes of its output.
/// Trusted: those bytes depend on the input alone.
#[verifier::external_body]
pub(crate) fn blake2x256(data: &[u8]) -> (digest: [u8; 32])
    ensures
        digest@ == blake2x256_digest(data@),
{
    let mut digest = [0u8; 32];
    ink::env::hash_bytes::<ink::env::hash::Blake2x256>(data, &mut digest);
    digest
}

/// The 256-bit BLAKE2 digest of a byte string, as `sp_core_hashing::blake2_256` computes it.
pub uninterp spec fn blake2_256_digest(data: Seq<u8>) -> Seq<u8>;

/// Calls `sp_core_hashing::blake2_256`, which hashes its argument with BLAKE2b to 256 bits.
/// Trusted: the 32 bytes that come back depend on the argument alone.
#[verifier::external_body]
pub(crate) fn blake2_256(data: &[u8]) -> (digest: [u8; 32])
    ensures
        digest@ == blake2_256_digest(data@),
{
    sp_core_hashing::blake2_256(data)
}

} // verus!
