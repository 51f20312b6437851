use sn_node::address::{NetworkAddress, PeerId};
use sn_node::bytes::U256;
use sn_node::chunk_proof::ChunkProof;
use sn_node::evm::Address;
use sn_node::messages::{ProtocolError, Query, QueryResponse, Response};
use sn_node::query::{handle_query, required_lookup, LocalLookup, LookupRequest};
use sn_node::quote::{QuotingMetrics, StoreCost};
use sn_node::store::{LocalStore, Record, RecordType};

fn peer(byte: u8) -> PeerId {
    PeerId { bytes: [byte; 32] }
}

fn addr(n: u8) -> NetworkAddress {
    NetworkAddress::RecordAddr(vec![n; 32])
}

fn own() -> PeerId {
    peer(0xAA)
}

fn our_address() -> NetworkAddress {
    NetworkAddress::from_peer(own())
}

fn reward() -> Address {
    Address { bytes: [6; 20] }
}

fn answer(query: Query, lookup: LocalLookup) -> Response {
    let keypair = libp2p::identity::Keypair::generate_ed25519();
    handle_query(&keypair, own(), 1000, query, lookup, reward())
}

fn store_cost(n: u8) -> StoreCost {
    let mut bytes = [0u8; 32];
    bytes[31] = n;
    StoreCost {
        cost: U256 { bytes },
        quoting_metrics: QuotingMetrics {
            close_records_stored: 0,
            max_records: 0,
            received_payment_count: 0,
            live_time: 0,
        },
        bad_nodes: Vec::new(),
    }
}

#[test]
fn lookups_that_queries_call_for() {
    assert_eq!(required_lookup(&Query::GetStoreCost(addr(1))), LookupRequest::StoreCost(vec![1; 32]));
    assert_eq!(
        required_lookup(&Query::GetStoreCost(NetworkAddress::from_peer(peer(2)))),
        LookupRequest::StoreCost(vec![2; 32])
    );
    assert_eq!(
        required_lookup(&Query::GetRegisterRecord { requester: addr(9), key: addr(1) }),
        LookupRequest::Record(vec![1; 32])
    );
    assert_eq!(
        required_lookup(&Query::GetReplicatedRecord { requester: addr(9), key: addr(1) }),
        LookupRequest::Record(vec![1; 32])
    );
    assert_eq!(
        required_lookup(&Query::GetReplicatedRecord {
            requester: addr(9),
            key: NetworkAddress::from_peer(peer(1)),
        }),
        LookupRequest::Nothing
    );
    assert_eq!(
        required_lookup(&Query::GetChunkExistenceProof { key: addr(1), nonce: 1, difficulty: 1 }),
        LookupRequest::Store
    );
    assert_eq!(
        required_lookup(&Query::CheckNodeInProblem(addr(3))),
        LookupRequest::ShunStatus(addr(3))
    );
}

#[test]
fn chunk_proof_echo_through_the_query_handler() {
    let mut store = LocalStore::new();
    store.insert(Record {
        key: vec![0x01; 32],
        value: vec![0x61, 0x62, 0x63],
        record_type: RecordType::Chunk,
    });
    let key = NetworkAddress::RecordAddr(vec![0x01; 32]);
    let response = answer(
        Query::GetChunkExistenceProof { key: key.clone(), nonce: 7, difficulty: 1 },
        LocalLookup::Store(store),
    );
    let expected = alloy::primitives::keccak256([7u8, 0, 0, 0, 0, 0, 0, 0, 0x61, 0x62, 0x63]);
    assert_eq!(
        response,
        Response::Query(QueryResponse::GetChunkExistenceProof(vec![(
            key,
            Ok(ChunkProof { digest: expected.0 })
        )]))
    );
}

#[test]
fn chunk_proof_query_without_a_store() {
    let response = answer(
        Query::GetChunkExistenceProof { key: addr(1), nonce: 7, difficulty: 1 },
        LocalLookup::Failed,
    );
    assert_eq!(
        response,
        Response::Query(QueryResponse::GetChunkExistenceProof(vec![(
            addr(1),
            Err(ProtocolError::ChunkDoesNotExist(addr(1)))
        )]))
    );
    let response = answer(
        Query::GetChunkExistenceProof { key: addr(1), nonce: 7, difficulty: 3 },
        LocalLookup::Failed,
    );
    assert_eq!(response, Response::Query(QueryResponse::GetChunkExistenceProof(Vec::new())));
}

#[test]
fn register_record_found_and_not_found() {
    let record = Record { key: vec![1; 32], value: vec![4, 5, 6], record_type: RecordType::Register };
    let query = || Query::GetRegisterRecord { requester: addr(9), key: addr(1) };
    assert_eq!(
        answer(query(), LocalLookup::Record(Some(record))),
        Response::Query(QueryResponse::GetRegisterRecord(Ok((our_address(), vec![4, 5, 6]))))
    );
    let not_found = Response::Query(QueryResponse::GetRegisterRecord(Err(
        ProtocolError::RegisterRecordNotFound { holder: our_address(), key: addr(1) },
    )));
    assert_eq!(answer(query(), LocalLookup::Record(None)), not_found);
    assert_eq!(answer(query(), LocalLookup::Failed), not_found);
    let other = Record { key: vec![2; 32], value: vec![4], record_type: RecordType::Register };
    assert_eq!(answer(query(), LocalLookup::Record(Some(other))), not_found);
}

#[test]
fn replicated_record_found_and_not_found() {
    let record = Record { key: vec![1; 32], value: vec![4, 5, 6], record_type: RecordType::Chunk };
    let query = || Query::GetReplicatedRecord { requester: addr(9), key: addr(1) };
    assert_eq!(
        answer(query(), LocalLookup::Record(Some(record.clone()))),
        Response::Query(QueryResponse::GetReplicatedRecord(Ok((our_address(), vec![4, 5, 6]))))
    );
    assert_eq!(
        answer(query(), LocalLookup::ShunStatus(true)),
        Response::Query(QueryResponse::GetReplicatedRecord(Err(
            ProtocolError::ReplicatedRecordNotFound { holder: our_address(), key: addr(1) }
        )))
    );
    let peer_key = NetworkAddress::from_peer(peer(1));
    assert_eq!(
        answer(
            Query::GetReplicatedRecord { requester: addr(9), key: peer_key.clone() },
            LocalLookup::Record(Some(record))
        ),
        Response::Query(QueryResponse::GetReplicatedRecord(Err(
            ProtocolError::ReplicatedRecordNotFound { holder: our_address(), key: peer_key }
        )))
    );
}

#[test]
fn node_in_problem_defaults_to_false() {
    let response = |lookup| answer(Query::CheckNodeInProblem(addr(3)), lookup);
    let expected = |is_in_trouble| {
        Response::Query(QueryResponse::CheckNodeInProblem {
            reporter_address: our_address(),
            target_address: addr(3),
            is_in_trouble,
        })
    };
    assert_eq!(response(LocalLookup::ShunStatus(true)), expected(true));
    assert_eq!(response(LocalLookup::ShunStatus(false)), expected(false));
    assert_eq!(response(LocalLookup::Failed), expected(false));
}

#[test]
fn store_cost_failed() {
    let response = answer(Query::GetStoreCost(addr(1)), LocalLookup::Failed);
    assert_eq!(
        response,
        Response::Query(QueryResponse::GetStoreCost {
            quote: Err(ProtocolError::GetStoreCostFailed),
            payment_address: reward(),
            peer_address: our_address(),
        })
    );
}

#[test]
fn store_cost_of_a_stored_record() {
    let response = answer(Query::GetStoreCost(addr(1)), LocalLookup::StoreCost(store_cost(0)));
    assert_eq!(
        response,
        Response::Query(QueryResponse::GetStoreCost {
            quote: Err(ProtocolError::RecordExists(vec![1; 32])),
            payment_address: reward(),
            peer_address: our_address(),
        })
    );
}

#[test]
fn store_cost_is_quoted() {
    let response = answer(Query::GetStoreCost(addr(1)), LocalLookup::StoreCost(store_cost(9)));
    match response {
        Response::Query(QueryResponse::GetStoreCost { quote: Ok(quote), payment_address, peer_address }) => {
            assert_eq!(payment_address, reward());
            assert_eq!(peer_address, our_address());
            assert_eq!(quote.cost, store_cost(9).cost);
            assert_eq!(quote.reward_address, reward());
            assert_eq!(quote.expiration_secs, 4600);
            assert_eq!(quote.peer_address, our_address());
        }
        other => panic!("no quote in {other:?}"),
    }
}

#[test]
fn quoted_store_cost_is_signed_by_the_node() {
    let keypair = libp2p::identity::Keypair::generate_ed25519();
    let response = handle_query(
        &keypair,
        own(),
        1000,
        Query::GetStoreCost(addr(1)),
        LocalLookup::StoreCost(store_cost(9)),
        reward(),
    );
    match response {
        Response::Query(QueryResponse::GetStoreCost { quote: Ok(quote), .. }) => {
            assert!(!quote.signature.is_empty());
            assert!(keypair.public().verify(&quote.hash, &quote.signature));
            assert_eq!(quote.signature, keypair.sign(&quote.hash).expect("a signature"));
        }
        other => panic!("no quote in {other:?}"),
    }
}

#[test]
fn only_a_quote_reads_the_clock() {
    let keypair = libp2p::identity::Keypair::generate_ed25519();
    let response = handle_query(
        &keypair,
        own(),
        u64::MAX,
        Query::CheckNodeInProblem(addr(3)),
        LocalLookup::ShunStatus(true),
        reward(),
    );
    assert_eq!(
        response,
        Response::Query(QueryResponse::CheckNodeInProblem {
            reporter_address: our_address(),
            target_address: addr(3),
            is_in_trouble: true,
        })
    );
    let response = handle_query(
        &keypair,
        own(),
        u64::MAX,
        Query::GetStoreCost(addr(1)),
        LocalLookup::StoreCost(store_cost(0)),
        reward(),
    );
    assert_eq!(
        response,
        Response::Query(QueryResponse::GetStoreCost {
            quote: Err(ProtocolError::RecordExists(vec![1; 32])),
            payment_address: reward(),
            peer_address: our_address(),
        })
    );
    let response = handle_query(
        &keypair,
        own(),
        u64::MAX,
        Query::GetStoreCost(addr(1)),
        LocalLookup::Failed,
        reward(),
    );
    assert_eq!(
        response,
        Response::Query(QueryResponse::GetStoreCost {
            quote: Err(ProtocolError::GetStoreCostFailed),
            payment_address: reward(),
            peer_address: our_address(),
        })
    );
}
