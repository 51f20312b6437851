use sn_node::address::{NetworkAddress, PeerId, CLOSE_GROUP_SIZE};
use sn_node::bytes::U256;

fn peer(byte: u8) -> PeerId {
    PeerId { bytes: [byte; 32] }
}

#[test]
fn close_group_size_is_five() {
    assert_eq!(CLOSE_GROUP_SIZE, 5);
}

#[test]
fn peer_ids_compare_by_bytes() {
    assert!(peer(1).same_as(&peer(1)));
    assert!(!peer(1).same_as(&peer(2)));
    assert!(peer(1) < peer(2));
}

#[test]
fn address_kinds_and_bytes() {
    let p = NetworkAddress::from_peer(peer(3));
    let r = NetworkAddress::from_record_key(vec![3; 32]);
    assert_eq!(p.as_bytes(), &[3u8; 32][..]);
    assert_eq!(r.as_bytes(), &[3u8; 32][..]);
    assert_eq!(p.as_peer_id(), Some(peer(3)));
    assert_eq!(r.as_peer_id(), None);
    assert_eq!(p.to_record_key(), None);
    assert_eq!(r.to_record_key(), Some(vec![3; 32]));
    assert!(!p.same_as(&r));
    assert!(p.same_as(&p.clone()));
    assert!(r.same_as(&NetworkAddress::RecordAddr(vec![3; 32])));
}

#[test]
fn tie_break_order_of_addresses() {
    let p = NetworkAddress::from_peer(peer(3));
    let r = NetworkAddress::from_record_key(vec![3; 32]);
    let smaller = NetworkAddress::from_record_key(vec![2; 32]);
    let prefix = NetworkAddress::from_record_key(vec![3; 31]);
    assert!(p.precedes(&r));
    assert!(!r.precedes(&p));
    assert!(!r.precedes(&r));
    assert!(smaller.precedes(&r));
    assert!(!r.precedes(&smaller));
    assert!(prefix.precedes(&r));
}

#[test]
fn key_digest_is_sha256_of_the_bytes() {
    let empty = NetworkAddress::from_record_key(Vec::new());
    let expected = [
        0xe3, 0xb0, 0xc4, 0x42, 0x98, 0xfc, 0x1c, 0x14, 0x9a, 0xfb, 0xf4, 0xc8, 0x99, 0x6f, 0xb9,
        0x24, 0x27, 0xae, 0x41, 0xe4, 0x64, 0x9b, 0x93, 0x4c, 0xa4, 0x95, 0x99, 0x1b, 0x78, 0x52,
        0xb8, 0x55,
    ];
    assert_eq!(empty.key_digest(), expected);
}

#[test]
fn key_digest_agrees_with_the_routing_layer() {
    let address = NetworkAddress::from_record_key(vec![1, 2, 3]);
    let key = libp2p::kad::KBucketKey::new(vec![1u8, 2, 3]);
    assert_eq!(&address.key_digest()[..], key.hashed_bytes());
}

#[test]
fn distance_is_xor_of_digests() {
    let a = NetworkAddress::from_record_key(vec![1, 2, 3]);
    let b = NetworkAddress::from_peer(peer(9));
    let d = a.distance(&b);
    assert_eq!(d, U256::xor(&a.key_digest(), &b.key_digest()));
    assert_eq!(d, b.distance(&a));
    assert_eq!(a.distance(&a), U256::zero());
}

#[test]
fn distance_orders_as_the_routing_layer_does() {
    let key = libp2p::kad::KBucketKey::new(vec![7u8; 32]);
    let own = NetworkAddress::from_record_key(vec![7; 32]);
    for x in 0..20u8 {
        for y in 0..20u8 {
            let kx = libp2p::kad::KBucketKey::new(vec![x; 5]);
            let ky = libp2p::kad::KBucketKey::new(vec![y; 5]);
            let ax = NetworkAddress::from_record_key(vec![x; 5]);
            let ay = NetworkAddress::from_record_key(vec![y; 5]);
            assert_eq!(
                key.distance(&kx) < key.distance(&ky),
                own.distance(&ax).lt(&own.distance(&ay))
            );
        }
    }
}
