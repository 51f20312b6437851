//! Requests a node receives from its peers and the responses it gives.

use crate::address::NetworkAddress;
use crate::address::RecordKey;
use crate::chunk_proof::{ChunkProof, Nonce};
use crate::evm::RewardsAddress;
use crate::quote::Quote;
use crate::store::RecordType;
use vstd::prelude::*;

verus! {

/// A question put to a node; every query is answered.
#[derive(Clone, Debug, PartialEq, Eq)]
pub enum Query {
    /// What would it cost to store the record at this address?
    GetStoreCost(NetworkAddress),
    /// Hand over the register stored at `key`.
    GetRegisterRecord { requester: NetworkAddress, key: NetworkAddress },
    /// Hand over the record at `key`, for replication.
    GetReplicatedRecord { requester: NetworkAddress, key: NetworkAddress },
    /// Prove that the chunks closest to `key` are held.
    GetChunkExistenceProof { key: NetworkAddress, nonce: Nonce, difficulty: usize },
    /// Is the node at this address considered faulty?
    CheckNodeInProblem(NetworkAddress),
}

/// An instruction sent to a node.
#[derive(Clone, Debug, PartialEq, Eq)]
pub enum Cmd {
    /// `holder` announces the keys it holds.
    Replicate { holder: NetworkAddress, keys: Vec<(NetworkAddress, RecordType)> },
}

/// What travels from peer to peer.
#[derive(Clone, Debug, PartialEq, Eq)]
pub enum Request {
    Cmd(Cmd),
    Query(Query),
}

/// Why a request could not be served.
#[derive(Clone, Debug, PartialEq, Eq)]
pub enum ProtocolError {
    /// The record is already stored; no quote is issued for it.
    RecordExists(RecordKey),
    /// The local store cost could not be determined.
    GetStoreCostFailed,
    /// The quote could not be signed.
    QuoteGenerationFailed,
    /// `holder` has no register under `key`.
    RegisterRecordNotFound { holder: NetworkAddress, key: NetworkAddress },
    /// `holder` has no record under `key`.
    ReplicatedRecordNotFound { holder: NetworkAddress, key: NetworkAddress },
    /// No chunk is held at this address.
    ChunkDoesNotExist(NetworkAddress),
}

/// One answer to a storage challenge: an address and the proof for the
/// chunk held there.
pub type ChunkProofAnswer = (NetworkAddress, Result<ChunkProof, ProtocolError>);

/// The answer to a [`Query`].
#[derive(Debug, PartialEq, Eq)]
pub enum QueryResponse {
    GetStoreCost {
        quote: Result<Quote, ProtocolError>,
        payment_address: RewardsAddress,
        peer_address: NetworkAddress,
    },
    GetRegisterRecord(Result<(NetworkAddress, Vec<u8>), ProtocolError>),
    GetReplicatedRecord(Result<(NetworkAddress, Vec<u8>), ProtocolError>),
    GetChunkExistenceProof(Vec<ChunkProofAnswer>),
    CheckNodeInProblem {
        reporter_address: NetworkAddress,
        target_address: NetworkAddress,
        is_in_trouble: bool,
    },
}

/// The answer to a [`Cmd`].
#[derive(Debug, PartialEq, Eq)]
pub enum CmdResponse {
    Replicate(Result<(), ProtocolError>),
}

/// What travels back.
#[derive(Debug, PartialEq, Eq)]
pub enum Response {
    Cmd(CmdResponse),
    Query(QueryResponse),
}

} // verus!
