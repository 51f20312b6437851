//! The two hash functions the node relies on. Both are computed by outside
//! crates; the library knows each only by name.

use vstd::prelude::*;

verus! {

/// The Keccak-256 digest of a byte string.
pub uninterp spec fn keccak256_digest(data: Seq<u8>) -> Seq<u8>;

/// The SHA-256 digest under which the Kademlia routing layer files a key.
pub uninterp spec fn kbucket_digest(preimage: Seq<u8>) -> Seq<u8>;

/// Calls `alloy::primitives::keccak256`. Trusted: the result is the
/// Keccak-256 digest of exactly the bytes given, which the contract names
/// without saying what it is.
#[verifier::external_body]
pub(crate) fn keccak256(data: &[u8]) -> (digest: [u8; 32])
    ensures
        digest@ == keccak256_digest(data@),
{
    alloy::primitives::keccak256(data).0
}

/// Calls `libp2p::kad::KBucketKey::new` and reads the key's
/// `hashed_bytes`. Trusted: the 32 bytes returned are a function of the
/// preimage alone, which the contract names without saying what it is.
#[verifier::external_body]
pub(crate) fn kbucket_key_bytes(preimage: &[u8]) -> (digest: [u8; 32])
    ensures
        digest@ == kbucket_digest(preimage@),
{
    let mut digest = [0u8; 32];
    digest.copy_from_slice(libp2p::kad::KBucketKey::new(preimage).hashed_bytes());
    digest
}

} // verus!
