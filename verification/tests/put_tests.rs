use sn_node::payment::PaymentError;
use sn_node::put::store_paid_record;
use sn_node::random::random_index;
use sn_node::store::{LocalStore, Record, RecordType};

fn record(key: u8, value: &[u8]) -> Record {
    Record { key: vec![key; 32], value: value.to_vec(), record_type: RecordType::Chunk }
}

#[test]
fn verified_payment_stores_the_record() {
    let mut store = LocalStore::new();
    assert_eq!(store_paid_record(&mut store, record(1, b"paid"), Ok(())), Ok(()));
    assert_eq!(store.get_local(&[1; 32]), Some(&record(1, b"paid")));
    assert_eq!(store.len(), 1);
}

#[test]
fn rejected_payment_leaves_the_store_alone() {
    let mut store = LocalStore::new();
    store.insert(record(1, b"held"));
    for reason in [
        PaymentError::RpcUnavailable,
        PaymentError::PaymentNotFound,
        PaymentError::WrongRecipient,
        PaymentError::AmountMismatch,
        PaymentError::QuoteExpired,
    ] {
        assert_eq!(store_paid_record(&mut store, record(2, b"unpaid"), Err(reason)), Err(reason));
        assert_eq!(store_paid_record(&mut store, record(1, b"unpaid"), Err(reason)), Err(reason));
    }
    assert_eq!(store.len(), 1);
    assert_eq!(store.get_local(&[1; 32]), Some(&record(1, b"held")));
    assert!(store.get_local(&[2; 32]).is_none());
}

#[test]
fn random_index_stays_in_range() {
    for len in [1usize, 2, 3, 50, 1000] {
        for _ in 0..200 {
            assert!(random_index(len) < len);
        }
    }
    assert_eq!(random_index(1), 0);
}
