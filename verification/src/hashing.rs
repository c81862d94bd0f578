//! Digests computed by the outside cryptography crates.
use vstd::prelude::*;
use alloy::signers::k256::sha2::{Digest, Sha256};

verus! {

/// The Keccak-256 digest of a byte string, as `alloy::primitives::keccak256`
/// computes it.
pub uninterp spec fn keccak256_digest(data: Seq<u8>) -> Seq<u8>;

/// The SHA-256 digest of a byte string, as the `sha2` crate computes it.
pub uninterp spec fn sha256_digest(data: Seq<u8>) -> Seq<u8>;

/// `alloy::primitives::keccak256`: the 32-byte Keccak-256 digest of `data`.
#[verifier::external_body]
pub fn keccak256(data: &[u8]) -> (digest: [u8; 32])
    ensures
        digest@ == keccak256_digest(data@),
{
    alloy::primitives::keccak256(data).0
}

/// `sha2::Sha256::digest` (through `alloy::signers::k256::sha2`): the
/// 32-byte SHA-256 digest of `data`.
#[verifier::external_body]
pub fn sha256(data: &[u8]) -> (digest: [u8; 32])
    ensures
        digest@ == sha256_digest(data@),
{
    Sha256::digest(data).into()
}

} // verus!
