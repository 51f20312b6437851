use sn_node::bytes::{append_bytes, append_u64_le, slice_eq, slice_lt, slice_to_vec, U256};

fn word(last: u8) -> [u8; 32] {
    let mut bytes = [0u8; 32];
    bytes[31] = last;
    bytes
}

#[test]
fn lexicographic_order_on_slices() {
    assert!(slice_lt(&[1, 2, 3], &[1, 2, 4]));
    assert!(!slice_lt(&[1, 2, 4], &[1, 2, 3]));
    assert!(slice_lt(&[1, 2], &[1, 2, 0]));
    assert!(!slice_lt(&[1, 2, 0], &[1, 2]));
    assert!(slice_lt(&[], &[0]));
    assert!(!slice_lt(&[], &[]));
    assert!(!slice_lt(&[7, 7], &[7, 7]));
    assert!(slice_lt(&[0, 255], &[1]));
}

#[test]
fn slice_equality() {
    assert!(slice_eq(&[], &[]));
    assert!(slice_eq(&[1, 2, 3], &[1, 2, 3]));
    assert!(!slice_eq(&[1, 2, 3], &[1, 2]));
    assert!(!slice_eq(&[1, 2, 3], &[1, 2, 4]));
}

#[test]
fn slice_copy() {
    assert_eq!(slice_to_vec(&[9, 8, 7]), vec![9, 8, 7]);
    assert_eq!(slice_to_vec(&[]), Vec::<u8>::new());
}

#[test]
fn append_keeps_what_was_there() {
    let mut out = vec![1u8, 2];
    append_u64_le(&mut out, 0x0100);
    assert_eq!(out, vec![1, 2, 0, 1, 0, 0, 0, 0, 0, 0]);
    append_bytes(&mut out, &[5, 6]);
    assert_eq!(out, vec![1, 2, 0, 1, 0, 0, 0, 0, 0, 0, 5, 6]);
}

#[test]
fn append_u64_le_of_extremes() {
    let mut out = Vec::new();
    append_u64_le(&mut out, 0);
    assert_eq!(out, vec![0u8; 8]);
    let mut out = Vec::new();
    append_u64_le(&mut out, u64::MAX);
    assert_eq!(out, vec![255u8; 8]);
}

#[test]
fn u256_xor_is_bytewise() {
    let mut a = [0u8; 32];
    let mut b = [0u8; 32];
    a[0] = 0b1100;
    b[0] = 0b1010;
    a[31] = 0xff;
    b[31] = 0x0f;
    let d = U256::xor(&a, &b);
    let mut expected = [0u8; 32];
    expected[0] = 0b0110;
    expected[31] = 0xf0;
    assert_eq!(d.bytes, expected);
    assert_eq!(U256::xor(&a, &a), U256::zero());
}

#[test]
fn u256_order_is_numeric() {
    let one = U256::from_be_bytes(word(1));
    let two = U256::from_be_bytes(word(2));
    let mut high = [0u8; 32];
    high[0] = 1;
    let big = U256::from_be_bytes(high);
    assert!(one.lt(&two));
    assert!(!two.lt(&one));
    assert!(!one.lt(&one));
    assert!(two.lt(&big));
    assert!(!big.lt(&two));
    assert!(one.same_as(&U256::from_be_bytes(word(1))));
    assert!(!one.same_as(&two));
    assert!(U256::zero().lt(&one));
}
