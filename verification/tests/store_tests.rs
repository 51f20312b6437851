use sn_node::address::NetworkAddress;
use sn_node::store::{LocalStore, Record, RecordType};

fn record(key: u8, value: &[u8], record_type: RecordType) -> Record {
    Record { key: vec![key; 32], value: value.to_vec(), record_type }
}

#[test]
fn new_store_is_empty() {
    let store = LocalStore::new();
    assert_eq!(store.len(), 0);
    assert!(store.get_local(&[1; 32]).is_none());
    assert!(store.get_all_addresses().is_empty());
}

#[test]
fn insert_then_get() {
    let mut store = LocalStore::new();
    store.insert(record(1, b"one", RecordType::Chunk));
    store.insert(record(2, b"two", RecordType::Register));
    assert_eq!(store.len(), 2);
    assert_eq!(store.get_local(&[1; 32]), Some(&record(1, b"one", RecordType::Chunk)));
    assert_eq!(store.get_local(&[2; 32]), Some(&record(2, b"two", RecordType::Register)));
    assert!(store.get_local(&[3; 32]).is_none());
    assert!(store.get_local(&[1; 31]).is_none());
}

#[test]
fn insert_replaces_record_under_same_key() {
    let mut store = LocalStore::new();
    store.insert(record(1, b"old", RecordType::Chunk));
    store.insert(record(2, b"two", RecordType::Chunk));
    store.insert(record(1, b"new", RecordType::Scratchpad));
    assert_eq!(store.len(), 2);
    assert_eq!(store.get_local(&[1; 32]), Some(&record(1, b"new", RecordType::Scratchpad)));
    assert_eq!(store.get_local(&[2; 32]), Some(&record(2, b"two", RecordType::Chunk)));
}

#[test]
fn all_addresses_lists_every_record_once() {
    let mut store = LocalStore::new();
    store.insert(record(1, b"one", RecordType::Chunk));
    store.insert(record(2, b"two", RecordType::Register));
    store.insert(record(1, b"uno", RecordType::Chunk));
    let all = store.get_all_addresses();
    assert_eq!(all.len(), 2);
    assert!(all.contains(&(NetworkAddress::RecordAddr(vec![1; 32]), RecordType::Chunk)));
    assert!(all.contains(&(NetworkAddress::RecordAddr(vec![2; 32]), RecordType::Register)));
}

#[test]
fn record_clone_is_equal() {
    let r = record(5, b"five", RecordType::Chunk);
    assert_eq!(r.clone(), r);
}

#[test]
fn only_chunks_are_chunks() {
    assert!(RecordType::Chunk.is_chunk());
    assert!(!RecordType::Register.is_chunk());
    assert!(!RecordType::Scratchpad.is_chunk());
}
