use custodial_wallet::bytes::{read_bytes, u64_from_le, u64_to_le, write_bytes};
use custodial_wallet::{key_is_empty, keys_equal};

#[test]
fn little_endian_bytes_of_a_number() {
    assert_eq!(u64_to_le(0), [0u8; 8]);
    assert_eq!(u64_to_le(1), [1, 0, 0, 0, 0, 0, 0, 0]);
    assert_eq!(u64_to_le(0x0102_0304_0506_0708), [8, 7, 6, 5, 4, 3, 2, 1]);
    assert_eq!(u64_to_le(u64::MAX), [0xFF; 8]);
    assert_eq!(u64_to_le(100), 100u64.to_le_bytes());
}

#[test]
fn number_of_little_endian_bytes() {
    assert_eq!(u64_from_le(&[0u8; 8]), 0);
    assert_eq!(u64_from_le(&[8, 7, 6, 5, 4, 3, 2, 1]), 0x0102_0304_0506_0708);
    assert_eq!(u64_from_le(&[0xFF; 8]), u64::MAX);
    assert_eq!(u64_from_le(&[0, 0, 0, 0, 0, 0, 0, 0x80]), 1 << 63);
    for value in [0u64, 255, 256, 65_535, 1 << 32, u64::MAX - 1] {
        assert_eq!(u64_from_le(&u64_to_le(value)), value);
    }
}

#[test]
fn write_bytes_replaces_one_field() {
    let mut target = [9u8; 10];
    write_bytes(&mut target, 3, &[1u8, 2, 3]);
    assert_eq!(target, [9, 9, 9, 1, 2, 3, 9, 9, 9, 9]);
    write_bytes(&mut target, 7, &[4u8, 5, 6]);
    assert_eq!(target, [9, 9, 9, 1, 2, 3, 9, 4, 5, 6]);
    write_bytes(&mut target, 10, &[0u8; 0]);
    assert_eq!(target, [9, 9, 9, 1, 2, 3, 9, 4, 5, 6]);
}

#[test]
fn read_bytes_copies_one_field() {
    let source = [0u8, 1, 2, 3, 4, 5, 6, 7];
    let middle: [u8; 3] = read_bytes(&source, 2);
    assert_eq!(middle, [2, 3, 4]);
    let whole: [u8; 8] = read_bytes(&source, 0);
    assert_eq!(whole, source);
    let none: [u8; 0] = read_bytes(&source, 8);
    assert_eq!(none, [0u8; 0]);
}

#[test]
fn only_the_all_zero_key_is_empty() {
    assert!(key_is_empty(&[0u8; 32]));
    assert!(!key_is_empty(&[1u8; 32]));
    let mut key = [0u8; 32];
    key[31] = 1;
    assert!(!key_is_empty(&key));
    key[31] = 0;
    key[0] = 0x80;
    assert!(!key_is_empty(&key));
}

#[test]
fn keys_are_compared_byte_by_byte() {
    let mut left = [5u8; 32];
    let right = [5u8; 32];
    assert!(keys_equal(&left, &right));
    left[31] = 6;
    assert!(!keys_equal(&left, &right));
    left[31] = 5;
    left[0] = 4;
    assert!(!keys_equal(&left, &right));
}
