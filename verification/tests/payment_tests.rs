use sn_node::bytes::U256;
use sn_node::evm::Address;
use sn_node::network::Network;
use sn_node::payment::{
    check_receipt, data_payment_topic, decode_data_payment, DataPayment, Log, PaymentCache,
    PaymentError, Receipt,
};

const Q: [u8; 32] = [0x11; 32];
const R: Address = Address { bytes: [0x22; 20] };

fn amount(n: u64) -> U256 {
    let mut bytes = [0u8; 32];
    bytes[24..].copy_from_slice(&n.to_be_bytes());
    U256 { bytes }
}

fn contract() -> Address {
    Network::ArbitrumOne.data_payments_address()
}

fn padded(address: &Address) -> [u8; 32] {
    let mut topic = [0u8; 32];
    topic[12..].copy_from_slice(&address.bytes);
    topic
}

fn payment_log(quote_hash: [u8; 32], reward: &Address, paid: u64) -> Log {
    Log {
        address: contract(),
        topics: vec![data_payment_topic(), quote_hash, padded(reward)],
        data: amount(paid).bytes.to_vec(),
    }
}

fn receipt(logs: Vec<Log>, block_timestamp: u64) -> Option<Receipt> {
    Some(Receipt { logs, block_timestamp })
}

fn verify(fetched: &Option<Receipt>, expected_amount: u64, expiration: u64) -> Result<(), PaymentError> {
    Network::ArbitrumOne.verify_data_payment(fetched, Q, R, amount(expected_amount), expiration)
}

#[test]
fn event_topic_is_the_digest_of_the_signature() {
    let expected = alloy::primitives::keccak256("DataPayment(bytes32,address,uint256)");
    assert_eq!(data_payment_topic(), expected.0);
}

#[test]
fn payment_ok() {
    let fetched = receipt(vec![payment_log(Q, &R, 1000)], 100);
    assert_eq!(verify(&fetched, 1000, 200), Ok(()));
}

#[test]
fn expired_quote() {
    let fetched = receipt(vec![payment_log(Q, &R, 1000)], 100);
    assert_eq!(verify(&fetched, 1000, 50), Err(PaymentError::QuoteExpired));
}

#[test]
fn payment_at_the_moment_of_expiration_is_accepted() {
    let fetched = receipt(vec![payment_log(Q, &R, 1000)], 100);
    assert_eq!(verify(&fetched, 1000, 100), Ok(()));
    assert_eq!(verify(&fetched, 1000, 99), Err(PaymentError::QuoteExpired));
}

#[test]
fn rpc_unavailable() {
    assert_eq!(verify(&None, 1000, 200), Err(PaymentError::RpcUnavailable));
}

#[test]
fn payment_not_found() {
    assert_eq!(verify(&receipt(Vec::new(), 100), 1000, 200), Err(PaymentError::PaymentNotFound));
    let other_quote = receipt(vec![payment_log([0x12; 32], &R, 1000)], 100);
    assert_eq!(verify(&other_quote, 1000, 200), Err(PaymentError::PaymentNotFound));
    let mut foreign = payment_log(Q, &R, 1000);
    foreign.address = Address { bytes: [9; 20] };
    assert_eq!(verify(&receipt(vec![foreign], 100), 1000, 200), Err(PaymentError::PaymentNotFound));
    let mut other_event = payment_log(Q, &R, 1000);
    other_event.topics[0] = [0; 32];
    assert_eq!(verify(&receipt(vec![other_event], 100), 1000, 200), Err(PaymentError::PaymentNotFound));
}

#[test]
fn wrong_recipient() {
    let fetched = receipt(vec![payment_log(Q, &Address { bytes: [0x23; 20] }, 1000)], 100);
    assert_eq!(verify(&fetched, 1000, 200), Err(PaymentError::WrongRecipient));
    assert_eq!(verify(&fetched, 5000, 50), Err(PaymentError::WrongRecipient));
}

#[test]
fn amount_mismatch() {
    let fetched = receipt(vec![payment_log(Q, &R, 999)], 100);
    assert_eq!(verify(&fetched, 1000, 200), Err(PaymentError::AmountMismatch));
    assert_eq!(verify(&fetched, 1000, 50), Err(PaymentError::AmountMismatch));
    let overpaid = receipt(vec![payment_log(Q, &R, 1001)], 100);
    assert_eq!(verify(&overpaid, 1000, 200), Ok(()));
}

#[test]
fn payment_is_found_among_other_logs() {
    let mut junk = payment_log(Q, &R, 1);
    junk.topics.pop();
    let fetched = receipt(vec![junk, payment_log([0x12; 32], &R, 5), payment_log(Q, &R, 1000)], 100);
    assert_eq!(verify(&fetched, 1000, 200), Ok(()));
}

#[test]
fn the_first_payment_for_the_quote_counts() {
    let fetched = receipt(vec![payment_log(Q, &R, 10), payment_log(Q, &R, 1000)], 100);
    assert_eq!(verify(&fetched, 1000, 200), Err(PaymentError::AmountMismatch));
}

#[test]
fn verifying_twice_gives_the_same_outcome() {
    for fetched in [
        receipt(vec![payment_log(Q, &R, 1000)], 100),
        receipt(vec![payment_log(Q, &R, 1)], 100),
        receipt(Vec::new(), 100),
        None,
    ] {
        assert_eq!(verify(&fetched, 1000, 200), verify(&fetched, 1000, 200));
    }
}

#[test]
fn decoding_a_log() {
    let topic = data_payment_topic();
    let log = payment_log(Q, &R, 1000);
    assert_eq!(
        decode_data_payment(&log, &contract(), &topic),
        Some(DataPayment { quote_hash: Q, reward_address: R, amount: amount(1000) })
    );
    let mut short = payment_log(Q, &R, 1000);
    short.data.pop();
    assert_eq!(decode_data_payment(&short, &contract(), &topic), None);
    let mut unpadded = payment_log(Q, &R, 1000);
    unpadded.topics[2][11] = 1;
    assert_eq!(decode_data_payment(&unpadded, &contract(), &topic), None);
    let mut extra = payment_log(Q, &R, 1000);
    extra.topics.push([0; 32]);
    assert_eq!(decode_data_payment(&extra, &contract(), &topic), None);
    assert_eq!(decode_data_payment(&log, &Address { bytes: [1; 20] }, &topic), None);
    assert_eq!(decode_data_payment(&log, &contract(), &[0; 32]), None);
}

#[test]
fn check_receipt_with_a_given_topic() {
    let topic = [0x77; 32];
    let log = Log { address: R, topics: vec![topic, Q, padded(&R)], data: amount(5).bytes.to_vec() };
    let receipt = Receipt { logs: vec![log], block_timestamp: 10 };
    assert_eq!(check_receipt(&receipt, &R, &topic, &Q, &R, &amount(5), 10), Ok(()));
    assert_eq!(
        check_receipt(&receipt, &R, &topic, &Q, &R, &amount(6), 10),
        Err(PaymentError::AmountMismatch)
    );
}

#[test]
fn custom_network_checks_its_own_contract() {
    let network = Network::try_new_custom(
        "http://localhost:8545",
        "0x5FbDB2315678afecb367f032d93F642f64180aa3",
        "0x8464135c8F25Da09e49BC8782676a84730C318bC",
    )
    .expect("a network");
    let at_arbitrum = receipt(vec![payment_log(Q, &R, 1000)], 100);
    assert_eq!(
        network.verify_data_payment(&at_arbitrum, Q, R, amount(1000), 200),
        Err(PaymentError::PaymentNotFound)
    );
    let mut log = payment_log(Q, &R, 1000);
    log.address = network.data_payments_address();
    assert_eq!(
        network.verify_data_payment(&receipt(vec![log], 100), Q, R, amount(1000), 200),
        Ok(())
    );
}

#[test]
fn cache_remembers_successes_only() {
    let mut cache = PaymentCache::new();
    assert!(!cache.is_verified(&[1; 32]));
    cache.record([1; 32], &Err(PaymentError::RpcUnavailable));
    cache.record([1; 32], &Err(PaymentError::PaymentNotFound));
    cache.record([1; 32], &Err(PaymentError::WrongRecipient));
    cache.record([1; 32], &Err(PaymentError::AmountMismatch));
    cache.record([1; 32], &Err(PaymentError::QuoteExpired));
    assert!(!cache.is_verified(&[1; 32]));
    cache.record([1; 32], &Ok(()));
    assert!(cache.is_verified(&[1; 32]));
    assert!(!cache.is_verified(&[2; 32]));
    cache.record([2; 32], &Err(PaymentError::QuoteExpired));
    assert!(cache.is_verified(&[1; 32]));
    assert!(!cache.is_verified(&[2; 32]));
}
