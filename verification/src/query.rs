//! Answering the queries of peers.
//!
//! Every answer rests on something the node looks up locally: a price, a
//! record, its records, or its opinion of a peer. The lookup is made
//! before the query is handled, and its outcome is handed in.

use crate::address::{AddressView, NetworkAddress, PeerId, RecordKey};
use crate::bytes::{slice_eq, slice_to_vec};
use crate::challenge::{is_challenge_response, is_missing_answer, respond_x_closest_chunk_proof};
use crate::evm::RewardsAddress;
use crate::messages::{ChunkProofAnswer, ProtocolError, Query, QueryResponse, Response};
use crate::quote::{
    create_quote_for_storecost, is_quote_outcome, is_zero_cost, StoreCost, QUOTE_TTL_SECS,
};
use crate::store::{LocalStore, Record};
use vstd::prelude::*;

verus! {

/// What has to be looked up locally before a query can be answered.
#[derive(Debug, PartialEq, Eq)]
pub enum LookupRequest {
    /// The cost of storing the record under this key.
    StoreCost(RecordKey),
    /// The record under this key.
    Record(RecordKey),
    /// The node's records.
    Store,
    /// Whether the node shuns the peer at this address.
    ShunStatus(NetworkAddress),
    /// Nothing: the query names no record.
    Nothing,
}

/// What a local lookup found.
pub enum LocalLookup {
    /// The lookup failed, or none was made.
    Failed,
    /// What storing the record would cost.
    StoreCost(StoreCost),
    /// The record under the key, if one is held.
    Record(Option<Record>),
    /// The node's records.
    Store(LocalStore),
    /// Whether the node shuns the peer.
    ShunStatus(bool),
}

/// The lookup a query calls for.
pub fn required_lookup(query: &Query) -> (request: LookupRequest)
    ensures
        match *query {
            Query::GetStoreCost(address) => request matches LookupRequest::StoreCost(key) && key@
                == address@.bytes,
            Query::GetRegisterRecord { key, .. } | Query::GetReplicatedRecord { key, .. } => if key@.peer {
                request == LookupRequest::Nothing
            } else {
                request matches LookupRequest::Record(k) && k@ == key@.bytes
            },
            Query::GetChunkExistenceProof { .. } => request == LookupRequest::Store,
            Query::CheckNodeInProblem(address) => request matches LookupRequest::ShunStatus(a)
                && a@ == address@,
        },
{
    match query {
        Query::GetStoreCost(address) => LookupRequest::StoreCost(slice_to_vec(address.as_bytes())),
        Query::GetRegisterRecord { key, .. } => match key.to_record_key() {
            Some(record_key) => LookupRequest::Record(record_key),
            None => LookupRequest::Nothing,
        },
        Query::GetReplicatedRecord { key, .. } => match key.to_record_key() {
            Some(record_key) => LookupRequest::Record(record_key),
            None => LookupRequest::Nothing,
        },
        Query::GetChunkExistenceProof { .. } => LookupRequest::Store,
        Query::CheckNodeInProblem(address) => LookupRequest::ShunStatus(address.clone()),
    }
}

/// Whether the lookup found the record that `key` names.
pub open spec fn found_record(lookup: LocalLookup, key: AddressView) -> bool {
    &&& lookup matches LocalLookup::Record(Some(record))
    &&& !key.peer
    &&& record.key@ == key.bytes
}

/// The answer to a request for the record at `key`: the node's address
/// with the record's value, or the error that names the node as the
/// holder that does not hold it.
pub open spec fn record_answer(
    lookup: LocalLookup,
    own: PeerId,
    key: NetworkAddress,
    not_found: ProtocolError,
) -> Result<(NetworkAddress, Vec<u8>), ProtocolError> {
    if found_record(lookup, key@) {
        Ok((NetworkAddress::PeerAddr(own), lookup->Record_0->0.value))
    } else {
        Err(not_found)
    }
}

/// Whether answering the query takes a quote: it asks for a store cost,
/// and the lookup found one that is not zero.
pub open spec fn needs_quote(query: Query, lookup: LocalLookup) -> bool {
    &&& query is GetStoreCost
    &&& lookup matches LocalLookup::StoreCost(store_cost)
    &&& !is_zero_cost(store_cost.cost@)
}

/// Whether `response` is the answer that the node `own` owes to `query`,
/// given what the local lookup found.
pub open spec fn is_answer(
    response: Response,
    query: Query,
    lookup: LocalLookup,
    keypair: libp2p::identity::Keypair,
    own: PeerId,
    payment_address: RewardsAddress,
    now: u64,
) -> bool {
    match query {
        Query::GetStoreCost(address) => {
            &&& response matches Response::Query(
                QueryResponse::GetStoreCost { quote, payment_address: paid_at, peer_address },
            )
            &&& paid_at == payment_address
            &&& peer_address == NetworkAddress::PeerAddr(own)
            &&& match lookup {
                LocalLookup::StoreCost(store_cost) => is_quote_outcome(
                    quote,
                    keypair,
                    store_cost,
                    address@,
                    payment_address,
                    own,
                    now,
                ),
                _ => quote == Err::<crate::quote::Quote, ProtocolError>(
                    ProtocolError::GetStoreCostFailed,
                ),
            }
        },
        Query::GetRegisterRecord { key, .. } => response == Response::Query(
            QueryResponse::GetRegisterRecord(
                record_answer(
                    lookup,
                    own,
                    key,
                    ProtocolError::RegisterRecordNotFound {
                        holder: NetworkAddress::PeerAddr(own),
                        key,
                    },
                ),
            ),
        ),
        Query::GetReplicatedRecord { key, .. } => response == Response::Query(
            QueryResponse::GetReplicatedRecord(
                record_answer(
                    lookup,
                    own,
                    key,
                    ProtocolError::ReplicatedRecordNotFound {
                        holder: NetworkAddress::PeerAddr(own),
                        key,
                    },
                ),
            ),
        ),
        Query::GetChunkExistenceProof { key, nonce, difficulty } => {
            &&& response matches Response::Query(QueryResponse::GetChunkExistenceProof(answers))
            &&& match lookup {
                LocalLookup::Store(store) => is_challenge_response(
                    answers@,
                    store@,
                    key@,
                    nonce,
                    difficulty,
                ),
                _ => if difficulty == 1 {
                    answers@.len() == 1 && is_missing_answer(answers@[0], key@)
                } else {
                    answers@.len() == 0
                },
            }
        },
        Query::CheckNodeInProblem(target_address) => response == Response::Query(
            QueryResponse::CheckNodeInProblem {
                reporter_address: NetworkAddress::PeerAddr(own),
                target_address,
                is_in_trouble: lookup == LocalLookup::ShunStatus(true),
            },
        ),
    }
}

/// Answers a request for the record at `key`.
fn answer_record_request(
    lookup: LocalLookup,
    own: PeerId,
    key: NetworkAddress,
    register: bool,
) -> (answer: Result<(NetworkAddress, Vec<u8>), ProtocolError>)
    ensures
        answer == record_answer(
            lookup,
            own,
            key,
            if register {
                ProtocolError::RegisterRecordNotFound { holder: NetworkAddress::PeerAddr(own), key }
            } else {
                ProtocolError::ReplicatedRecordNotFound {
                    holder: NetworkAddress::PeerAddr(own),
                    key,
                }
            },
        ),
{
    let our_address = NetworkAddress::PeerAddr(own);
    let found = match lookup {
        LocalLookup::Record(Some(record)) => match &key {
            NetworkAddress::RecordAddr(record_key) => if slice_eq(
                record.key.as_slice(),
                record_key.as_slice(),
            ) {
                Some(record.value)
            } else {
                None
            },
            NetworkAddress::PeerAddr(_) => None,
        },
        _ => None,
    };
    match found {
        Some(value) => Ok((our_address, value)),
        None => if register {
            Err(ProtocolError::RegisterRecordNotFound { holder: our_address, key })
        } else {
            Err(ProtocolError::ReplicatedRecordNotFound { holder: our_address, key })
        },
    }
}

/// Answers a query of a peer, given what the local lookup for it found.
///
/// `own` is the node's identifier, `keypair` its identity key, with which
/// quotes are signed, and `now` the time in seconds at which a quote
/// would be issued. Only a quote reads the time: where one is needed,
/// its expiration has to fit the clock.
pub fn handle_query(
    keypair: &libp2p::identity::Keypair,
    own: PeerId,
    now: u64,
    query: Query,
    lookup: LocalLookup,
    payment_address: RewardsAddress,
) -> (response: Response)
    requires
        needs_quote(query, lookup) ==> now + QUOTE_TTL_SECS <= u64::MAX,
    ensures
        is_answer(response, query, lookup, *keypair, own, payment_address, now),
{
    let resp = match query {
        Query::GetStoreCost(address) => {
            let quote = match lookup {
                LocalLookup::StoreCost(store_cost) => create_quote_for_storecost(
                    keypair,
                    store_cost,
                    &address,
                    payment_address,
                    own,
                    now,
                ),
                _ => Err(ProtocolError::GetStoreCostFailed),
            };
            QueryResponse::GetStoreCost {
                quote,
                payment_address,
                peer_address: NetworkAddress::from_peer(own),
            }
        },
        Query::GetRegisterRecord { key, .. } => QueryResponse::GetRegisterRecord(
            answer_record_request(lookup, own, key, true),
        ),
        Query::GetReplicatedRecord { key, .. } => QueryResponse::GetReplicatedRecord(
            answer_record_request(lookup, own, key, false),
        ),
        Query::GetChunkExistenceProof { key, nonce, difficulty } => {
            let answers = match lookup {
                LocalLookup::Store(store) => respond_x_closest_chunk_proof(
                    &store,
                    &key,
                    nonce,
                    difficulty,
                ),
                _ => {
                    let mut answers: Vec<ChunkProofAnswer> = Vec::new();
                    if difficulty == 1 {
                        answers.push((key.clone(), Err(ProtocolError::ChunkDoesNotExist(key.clone()))));
                    }
                    answers
                },
            };
            QueryResponse::GetChunkExistenceProof(answers)
        },
        Query::CheckNodeInProblem(target_address) => {
            let is_in_trouble = match lookup {
                LocalLookup::ShunStatus(shunned) => shunned,
                _ => false,
            };
            QueryResponse::CheckNodeInProblem {
                reporter_address: NetworkAddress::from_peer(own),
                target_address,
                is_in_trouble,
            }
        },
    };
    Response::Query(resp)
}

} // verus!
