use sn_node::address::{NetworkAddress, PeerId};
use sn_node::bytes::U256;
use sn_node::evm::Address;
use sn_node::messages::ProtocolError;
use sn_node::quote::{
    cost_is_zero, create_quote_for_storecost, quote_from_signature, quote_hash, Quote,
    QuotingMetrics, StoreCost, QUOTE_TTL_SECS,
};

fn peer(byte: u8) -> PeerId {
    PeerId { bytes: [byte; 32] }
}

fn amount(n: u8) -> U256 {
    let mut bytes = [0u8; 32];
    bytes[31] = n;
    U256 { bytes }
}

fn metrics() -> QuotingMetrics {
    QuotingMetrics { close_records_stored: 1, max_records: 2, received_payment_count: 3, live_time: 4 }
}

fn store_cost(n: u8) -> StoreCost {
    StoreCost { cost: amount(n), quoting_metrics: metrics(), bad_nodes: vec![peer(8), peer(9)] }
}

fn encoding_of(target_kind: u8, target: &[u8], cost: &U256, bad: &[PeerId], reward: &Address, expiration: u64, own: &PeerId) -> Vec<u8> {
    let mut out = vec![target_kind];
    out.extend((target.len() as u64).to_le_bytes());
    out.extend(target);
    out.extend(cost.bytes);
    for figure in [1u64, 2, 3, 4] {
        out.extend(figure.to_le_bytes());
    }
    out.extend((bad.len() as u64).to_le_bytes());
    for p in bad {
        out.extend(p.bytes);
    }
    out.extend(reward.bytes);
    out.extend(expiration.to_le_bytes());
    out.extend(own.bytes);
    out
}

#[test]
fn quote_ttl_is_an_hour() {
    assert_eq!(QUOTE_TTL_SECS, 3600);
}

#[test]
fn zero_cost_is_recognised() {
    assert!(cost_is_zero(&U256::zero()));
    assert!(!cost_is_zero(&amount(1)));
    let mut high = [0u8; 32];
    high[0] = 1;
    assert!(!cost_is_zero(&U256 { bytes: high }));
}

#[test]
fn hash_is_keccak_of_the_encoding() {
    let target = NetworkAddress::RecordAddr(vec![5; 32]);
    let reward = Address { bytes: [6; 20] };
    let bad = vec![peer(8), peer(9)];
    let hash = quote_hash(&target, &amount(10), &metrics(), &bad, &reward, 4600, &peer(1));
    let expected = alloy::primitives::keccak256(encoding_of(1, &[5; 32], &amount(10), &bad, &reward, 4600, &peer(1)));
    assert_eq!(hash, expected.0);
    let peer_target = NetworkAddress::from_peer(peer(5));
    let hash = quote_hash(&peer_target, &amount(10), &metrics(), &bad, &reward, 4600, &peer(1));
    let expected = alloy::primitives::keccak256(encoding_of(0, &[5; 32], &amount(10), &bad, &reward, 4600, &peer(1)));
    assert_eq!(hash, expected.0);
}

#[test]
fn hash_changes_with_every_term() {
    let target = NetworkAddress::RecordAddr(vec![5; 32]);
    let reward = Address { bytes: [6; 20] };
    let bad = vec![peer(8)];
    let base = quote_hash(&target, &amount(10), &metrics(), &bad, &reward, 4600, &peer(1));
    let other_target = NetworkAddress::RecordAddr(vec![4; 32]);
    assert_ne!(base, quote_hash(&other_target, &amount(10), &metrics(), &bad, &reward, 4600, &peer(1)));
    assert_ne!(base, quote_hash(&target, &amount(11), &metrics(), &bad, &reward, 4600, &peer(1)));
    let other_metrics = QuotingMetrics { live_time: 5, ..metrics() };
    assert_ne!(base, quote_hash(&target, &amount(10), &other_metrics, &bad, &reward, 4600, &peer(1)));
    assert_ne!(base, quote_hash(&target, &amount(10), &metrics(), &Vec::new(), &reward, 4600, &peer(1)));
    let other_reward = Address { bytes: [7; 20] };
    assert_ne!(base, quote_hash(&target, &amount(10), &metrics(), &bad, &other_reward, 4600, &peer(1)));
    assert_ne!(base, quote_hash(&target, &amount(10), &metrics(), &bad, &reward, 4601, &peer(1)));
    assert_ne!(base, quote_hash(&target, &amount(10), &metrics(), &bad, &reward, 4600, &peer(2)));
}

#[test]
fn signed_quote_states_its_terms() {
    let target = NetworkAddress::RecordAddr(vec![5; 32]);
    let reward = Address { bytes: [6; 20] };
    let quote = quote_from_signature(store_cost(10), &target, reward, peer(1), 1000, Some(vec![1, 2, 3]));
    let expected = Quote {
        hash: quote_hash(&target, &amount(10), &metrics(), &vec![peer(8), peer(9)], &reward, 4600, &peer(1)),
        cost: amount(10),
        pricing_metrics: metrics(),
        bad_nodes: vec![peer(8), peer(9)],
        reward_address: reward,
        expiration_secs: 4600,
        peer_address: NetworkAddress::from_peer(peer(1)),
        signature: vec![1, 2, 3],
    };
    assert_eq!(quote, Ok(expected));
}

#[test]
fn no_quote_for_a_record_that_costs_nothing() {
    let target = NetworkAddress::RecordAddr(vec![5; 32]);
    let reward = Address { bytes: [6; 20] };
    let quote = quote_from_signature(store_cost(0), &target, reward, peer(1), 1000, Some(vec![1]));
    assert_eq!(quote, Err(ProtocolError::RecordExists(vec![5; 32])));
    let quote = quote_from_signature(store_cost(0), &target, reward, peer(1), 1000, None);
    assert_eq!(quote, Err(ProtocolError::RecordExists(vec![5; 32])));
}

#[test]
fn no_quote_without_a_signature() {
    let target = NetworkAddress::RecordAddr(vec![5; 32]);
    let reward = Address { bytes: [6; 20] };
    let quote = quote_from_signature(store_cost(10), &target, reward, peer(1), 1000, None);
    assert_eq!(quote, Err(ProtocolError::QuoteGenerationFailed));
}

#[test]
fn issued_quote_is_signed_by_the_identity_key() {
    let keypair = libp2p::identity::Keypair::generate_ed25519();
    let target = NetworkAddress::RecordAddr(vec![5; 32]);
    let reward = Address { bytes: [6; 20] };
    let quote = create_quote_for_storecost(&keypair, store_cost(10), &target, reward, peer(1), 1000)
        .expect("a quote");
    assert_eq!(quote.expiration_secs, 1000 + 3600);
    assert!(quote.expiration_secs > 1000);
    assert_eq!(quote.cost, amount(10));
    assert_eq!(quote.peer_address, NetworkAddress::from_peer(peer(1)));
    assert_eq!(
        quote.hash,
        quote_hash(&target, &amount(10), &metrics(), &vec![peer(8), peer(9)], &reward, 4600, &peer(1))
    );
    assert!(keypair.public().verify(&quote.hash, &quote.signature));
    assert_ne!(quote.signature, quote.hash.to_vec());
}

#[test]
fn issuing_for_a_stored_record_says_so() {
    let keypair = libp2p::identity::Keypair::generate_ed25519();
    let target = NetworkAddress::RecordAddr(vec![5; 32]);
    let reward = Address { bytes: [6; 20] };
    let quote = create_quote_for_storecost(&keypair, store_cost(0), &target, reward, peer(1), 1000);
    assert_eq!(quote, Err(ProtocolError::RecordExists(vec![5; 32])));
}

#[test]
fn the_same_key_signs_the_same_hash_the_same_way() {
    let keypair = libp2p::identity::Keypair::generate_ed25519();
    let target = NetworkAddress::RecordAddr(vec![5; 32]);
    let reward = Address { bytes: [6; 20] };
    let first = create_quote_for_storecost(&keypair, store_cost(10), &target, reward, peer(1), 1000)
        .expect("a quote");
    let second = create_quote_for_storecost(&keypair, store_cost(10), &target, reward, peer(1), 1000)
        .expect("a quote");
    assert_eq!(first, second);
    assert_eq!(first.signature, keypair.sign(&first.hash).expect("a signature"));
    let other = libp2p::identity::Keypair::generate_ed25519();
    let third = create_quote_for_storecost(&other, store_cost(10), &target, reward, peer(1), 1000)
        .expect("a quote");
    assert_eq!(third.hash, first.hash);
    assert_ne!(third.signature, first.signature);
}

#[test]
fn a_record_that_costs_nothing_needs_no_time_to_spare() {
    let keypair = libp2p::identity::Keypair::generate_ed25519();
    let target = NetworkAddress::RecordAddr(vec![5; 32]);
    let reward = Address { bytes: [6; 20] };
    let quote = create_quote_for_storecost(&keypair, store_cost(0), &target, reward, peer(1), u64::MAX);
    assert_eq!(quote, Err(ProtocolError::RecordExists(vec![5; 32])));
    let quote = quote_from_signature(store_cost(10), &target, reward, peer(1), u64::MAX, None);
    assert_eq!(quote, Err(ProtocolError::QuoteGenerationFailed));
}
