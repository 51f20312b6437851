//! Nonce-keyed proofs that a node holds a chunk.
//!
//! A proof is the Keccak-256 digest of the verifier's nonce, written as
//! eight bytes least significant first, followed by the chunk's bytes.

use crate::bytes::{
    append_bytes, append_u64_le, le_bytes, lemma_concat_parts, lemma_le_bytes_injective,
    lemma_le_bytes_len, lemma_u64_fits_eight_bytes, slice_eq,
};
use crate::hashing::{keccak256, keccak256_digest};
use vstd::prelude::*;

verus! {

/// The number a verifier draws afresh for each challenge.
pub type Nonce = u64;

/// The eight bytes of a nonce, least significant first.
pub open spec fn nonce_le_bytes(nonce: Nonce) -> Seq<u8> {
    le_bytes(nonce as nat, 8)
}

/// What is hashed to prove possession of `value` under `nonce`.
pub open spec fn chunk_proof_preimage(value: Seq<u8>, nonce: Nonce) -> Seq<u8> {
    nonce_le_bytes(nonce) + value
}

/// The proof every honest node computes for `value` under `nonce`.
pub open spec fn chunk_proof_spec(value: Seq<u8>, nonce: Nonce) -> Seq<u8> {
    keccak256_digest(chunk_proof_preimage(value, nonce))
}

/// Proof that a node held a value when it was asked under some nonce.
#[derive(Clone, Copy, Debug, PartialEq, Eq)]
pub struct ChunkProof {
    pub digest: [u8; 32],
}

impl View for ChunkProof {
    type V = Seq<u8>;

    open spec fn view(&self) -> Seq<u8> {
        self.digest@
    }
}

/// Builds the byte string that is hashed into a proof.
pub fn proof_preimage(value: &[u8], nonce: Nonce) -> (preimage: Vec<u8>)
    ensures
        preimage@ == chunk_proof_preimage(value@, nonce),
{
    let mut preimage: Vec<u8> = Vec::new();
    append_u64_le(&mut preimage, nonce);
    append_bytes(&mut preimage, value);
    assert(preimage@ =~= chunk_proof_preimage(value@, nonce));
    preimage
}

impl ChunkProof {
    /// The proof of holding `value`, keyed by `nonce`.
    pub fn new(value: &[u8], nonce: Nonce) -> (proof: ChunkProof)
        ensures
            proof@ == chunk_proof_spec(value@, nonce),
    {
        let preimage = proof_preimage(value, nonce);
        ChunkProof { digest: keccak256(preimage.as_slice()) }
    }

    /// Whether `other` is byte for byte this proof.
    pub fn verify(&self, other: &ChunkProof) -> (same: bool)
        ensures
            same == (self@ == other@),
    {
        slice_eq(self.digest.as_slice(), other.digest.as_slice())
    }
}

/// Proofs are deterministic: any two proofs computed for the same value
/// under the same nonce are equal byte for byte.
pub proof fn lemma_chunk_proof_deterministic(
    value: Seq<u8>,
    nonce: Nonce,
    first: ChunkProof,
    second: ChunkProof,
)
    requires
        first@ == chunk_proof_spec(value, nonce),
        second@ == chunk_proof_spec(value, nonce),
    ensures
        first == second,
{
    assert(first.digest =~= second.digest);
}

/// The byte string that is hashed tells the nonce and the value: no two
/// different pairs of them are hashed from the same bytes. Two proofs can
/// therefore only agree for different values, or under different nonces,
/// where the hash function maps different byte strings to one digest.
pub proof fn lemma_preimage_injective(
    first_value: Seq<u8>,
    first_nonce: Nonce,
    second_value: Seq<u8>,
    second_nonce: Nonce,
)
    requires
        chunk_proof_preimage(first_value, first_nonce) == chunk_proof_preimage(
            second_value,
            second_nonce,
        ),
    ensures
        first_value == second_value,
        first_nonce == second_nonce,
{
    lemma_le_bytes_len(first_nonce as nat, 8);
    lemma_le_bytes_len(second_nonce as nat, 8);
    lemma_concat_parts(
        nonce_le_bytes(first_nonce),
        first_value,
        nonce_le_bytes(second_nonce),
        second_value,
    );
    lemma_u64_fits_eight_bytes(first_nonce);
    lemma_u64_fits_eight_bytes(second_nonce);
    lemma_le_bytes_injective(first_nonce as nat, second_nonce as nat, 8);
}

} // verus!
