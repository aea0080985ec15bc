//! Parser checks: each field type round-trips, and each malformed payload
//! is rejected with its own error.

use wlclient::parsing::{parse_i32, parse_str, parse_u32, parse_u32_array, Error, PayloadReader};

fn reader(bytes: &[u8]) -> PayloadReader {
    PayloadReader::new(bytes.to_vec())
}

#[test]
fn u32_round_trip() {
    let mut it = reader(&0xDEADBEEFu32.to_le_bytes());
    assert_eq!(parse_u32(&mut it).unwrap(), 0xDEADBEEF);
    assert_eq!(it.remaining_len(), 0);
}

#[test]
fn u32_missing_bytes() {
    let mut it = reader(&[1, 2, 3]);
    assert!(matches!(parse_u32(&mut it), Err(Error::MissingField(_))));
}

#[test]
fn i32_round_trip() {
    let mut it = reader(&(-5i32).to_le_bytes());
    assert_eq!(parse_i32(&mut it).unwrap(), -5);
}

#[test]
fn str_round_trip() {
    // "hey" -> size 4 (three bytes plus null), no padding.
    let mut payload = vec![4, 0, 0, 0];
    payload.extend_from_slice(b"hey");
    payload.push(0);
    let mut it = reader(&payload);
    assert_eq!(parse_str(&mut it).unwrap(), "hey");
    assert_eq!(it.remaining_len(), 0);
}

#[test]
fn str_with_padding_round_trip() {
    // "wayland" -> size 8, aligned to 8: no padding; "wl" -> size 3,
    // aligned to 4: one padding byte.
    let mut payload = vec![3, 0, 0, 0];
    payload.extend_from_slice(b"wl");
    payload.push(0);
    payload.push(0);
    payload.extend_from_slice(&7u32.to_le_bytes());
    let mut it = reader(&payload);
    assert_eq!(parse_str(&mut it).unwrap(), "wl");
    assert_eq!(parse_u32(&mut it).unwrap(), 7);
}

#[test]
fn str_size_beyond_available_is_missing_field() {
    // The size field claims more bytes than the payload holds.
    let payload = vec![200, 0, 0, 0, b'x', 0];
    let mut it = reader(&payload);
    assert!(matches!(parse_str(&mut it), Err(Error::MissingField(_))));
}

#[test]
fn str_invalid_utf8_is_its_own_error() {
    let payload = vec![3, 0, 0, 0, 0xFF, 0xFE, 0, 0];
    let mut it = reader(&payload);
    assert!(matches!(parse_str(&mut it), Err(Error::InvalidUtfString)));
}

#[test]
fn array_round_trip() {
    let mut payload = vec![8, 0, 0, 0];
    payload.extend_from_slice(&10u32.to_le_bytes());
    payload.extend_from_slice(&11u32.to_le_bytes());
    let mut it = reader(&payload);
    assert_eq!(parse_u32_array(&mut it).unwrap(), vec![10, 11]);
    assert_eq!(it.remaining_len(), 0);
}

#[test]
fn array_size_not_multiple_of_four() {
    let payload = vec![6, 0, 0, 0, 1, 2, 3, 4, 5, 6];
    let mut it = reader(&payload);
    assert_eq!(parse_u32_array(&mut it), Err(Error::InvalidArrayByteSize(6)));
}

#[test]
fn array_missing_elements() {
    let payload = vec![8, 0, 0, 0, 1, 2, 3, 4];
    let mut it = reader(&payload);
    assert!(matches!(parse_u32_array(&mut it), Err(Error::MissingField(_))));
}

#[test]
fn empty_array_round_trip() {
    let payload = 0u32.to_le_bytes().to_vec();
    let mut it = reader(&payload);
    assert_eq!(parse_u32_array(&mut it).unwrap(), Vec::<u32>::new());
    assert_eq!(it.remaining_len(), 0);
}
