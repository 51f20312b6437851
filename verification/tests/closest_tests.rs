use sn_node::address::{NetworkAddress, PeerId};
use sn_node::bytes::U256;
use sn_node::closest::{closest_chunk_addresses, insert_ranked, select_closest, Ranked};
use sn_node::store::RecordType;

fn distance(n: u8) -> U256 {
    let mut bytes = [0u8; 32];
    bytes[31] = n;
    U256 { bytes }
}

fn addr(n: u8) -> NetworkAddress {
    NetworkAddress::RecordAddr(vec![n; 32])
}

fn ranked(d: u8, a: u8) -> Ranked {
    Ranked { distance: distance(d), address: addr(a) }
}

#[test]
fn ranks_by_distance_then_address() {
    assert!(ranked(1, 9).ranks_before(&ranked(2, 0)));
    assert!(!ranked(2, 0).ranks_before(&ranked(1, 9)));
    assert!(ranked(1, 3).ranks_before(&ranked(1, 4)));
    assert!(!ranked(1, 4).ranks_before(&ranked(1, 3)));
    assert!(!ranked(1, 3).ranks_before(&ranked(1, 3)));
    let peer = Ranked {
        distance: distance(1),
        address: NetworkAddress::PeerAddr(PeerId { bytes: [3; 32] }),
    };
    assert!(peer.ranks_before(&ranked(1, 3)));
    assert!(!ranked(1, 3).ranks_before(&peer));
}

#[test]
fn difficulty_expansion_takes_the_three_closest_in_order() {
    // Distances to the key: A2 < A0 < A4 < A1 < A5 < A3.
    let pool = vec![
        ranked(20, 0),
        ranked(40, 1),
        ranked(10, 2),
        ranked(60, 3),
        ranked(30, 4),
        ranked(50, 5),
    ];
    let best = select_closest(pool, 3);
    let addresses: Vec<NetworkAddress> = best.into_iter().map(|r| r.address).collect();
    assert_eq!(addresses, vec![addr(2), addr(0), addr(4)]);
}

#[test]
fn select_all_when_limit_exceeds_pool() {
    let best = select_closest(vec![ranked(3, 3), ranked(1, 1), ranked(2, 2)], 10);
    assert_eq!(best, vec![ranked(1, 1), ranked(2, 2), ranked(3, 3)]);
}

#[test]
fn select_none_with_limit_zero_or_empty_pool() {
    assert!(select_closest(vec![ranked(3, 3), ranked(1, 1)], 0).is_empty());
    assert!(select_closest(Vec::new(), 5).is_empty());
}

#[test]
fn select_counts_a_repeated_entry_once() {
    let best = select_closest(vec![ranked(2, 2), ranked(1, 1), ranked(2, 2), ranked(1, 1)], 5);
    assert_eq!(best, vec![ranked(1, 1), ranked(2, 2)]);
}

#[test]
fn select_breaks_distance_ties_by_address() {
    let best = select_closest(vec![ranked(5, 9), ranked(5, 1), ranked(5, 4)], 2);
    assert_eq!(best, vec![ranked(5, 1), ranked(5, 4)]);
}

#[test]
fn select_is_independent_of_input_order() {
    let forward = select_closest((0..30u8).map(|n| ranked(n.wrapping_mul(37), n)).collect(), 5);
    let backward =
        select_closest((0..30u8).rev().map(|n| ranked(n.wrapping_mul(37), n)).collect(), 5);
    assert_eq!(forward, backward);
    assert_eq!(forward.len(), 5);
}

#[test]
fn insert_ranked_keeps_order_and_skips_duplicates() {
    let mut list = vec![ranked(1, 1), ranked(3, 3)];
    insert_ranked(&mut list, ranked(2, 2));
    assert_eq!(list, vec![ranked(1, 1), ranked(2, 2), ranked(3, 3)]);
    insert_ranked(&mut list, ranked(2, 2));
    assert_eq!(list.len(), 3);
    insert_ranked(&mut list, ranked(0, 7));
    insert_ranked(&mut list, ranked(9, 0));
    assert_eq!(
        list,
        vec![ranked(0, 7), ranked(1, 1), ranked(2, 2), ranked(3, 3), ranked(9, 0)]
    );
}

fn expected_closest(
    all: &[(NetworkAddress, RecordType)],
    key: &NetworkAddress,
    limit: usize,
) -> Vec<NetworkAddress> {
    let mut chunks: Vec<(Vec<u8>, Vec<u8>, NetworkAddress)> = all
        .iter()
        .filter(|(_, t)| *t == RecordType::Chunk)
        .map(|(a, _)| (key.distance(a).bytes.to_vec(), a.as_bytes().to_vec(), a.clone()))
        .collect();
    chunks.sort_by(|x, y| (&x.0, &x.1).cmp(&(&y.0, &y.1)));
    chunks.dedup();
    chunks.into_iter().take(limit).map(|(_, _, a)| a).collect()
}

#[test]
fn closest_chunk_addresses_sorted_by_true_distance() {
    let key = addr(200);
    let all: Vec<(NetworkAddress, RecordType)> = (0..12u8)
        .map(|n| (addr(n), if n % 4 == 3 { RecordType::Register } else { RecordType::Chunk }))
        .collect();
    for difficulty in [0usize, 2, 3, 5, 7, 100] {
        let limit = difficulty.min(5);
        assert_eq!(
            closest_chunk_addresses(&all, &key, difficulty),
            expected_closest(&all, &key, limit)
        );
    }
}

#[test]
fn closest_chunk_addresses_with_fewer_chunks_than_asked() {
    let key = addr(1);
    let all = vec![
        (addr(5), RecordType::Chunk),
        (addr(6), RecordType::Scratchpad),
        (addr(7), RecordType::Chunk),
    ];
    let closest = closest_chunk_addresses(&all, &key, 4);
    assert_eq!(closest, expected_closest(&all, &key, 4));
    assert_eq!(closest.len(), 2);
}
