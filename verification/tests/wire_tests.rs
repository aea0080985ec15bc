//! Byte-level checks of the wire encoding: alignment, word order, string
//! and array layout, and message framing.

use wlclient::wire_format::{
    frame_message, i32_bits, i32_from_bits, read_header, str_aligned_size, u32_from_wire,
    write_u32, write_values, EncodeError, WireMessage, WireMsgHeader, WireValue, HEADER_SIZE,
};

fn le(v: u32) -> [u8; 4] {
    v.to_le_bytes()
}

#[test]
fn header_size_is_eight() {
    assert_eq!(HEADER_SIZE, 8);
}

#[test]
fn aligned_size_formula() {
    // For all n, the aligned size is ((n + 3) / 4) * 4.
    assert_eq!(str_aligned_size(0), 0);
    assert_eq!(str_aligned_size(1), 4);
    assert_eq!(str_aligned_size(2), 4);
    assert_eq!(str_aligned_size(3), 4);
    assert_eq!(str_aligned_size(4), 4);
    assert_eq!(str_aligned_size(5), 8);
    assert_eq!(str_aligned_size(13), 16);
}

#[test]
fn u32_word_round_trip() {
    let mut out: Vec<u8> = Vec::new();
    write_u32(&mut out, 0xDEADBEEF);
    assert_eq!(out, vec![0xEF, 0xBE, 0xAD, 0xDE]);
    assert_eq!(u32_from_wire(out[0], out[1], out[2], out[3]), 0xDEADBEEF);
}

#[test]
fn i32_bits_round_trip() {
    assert_eq!(i32_bits(-1), 0xFFFF_FFFF);
    assert_eq!(i32_bits(7), 7);
    assert_eq!(i32_from_bits(0xFFFF_FFFF), -1);
    assert_eq!(i32_from_bits(7), 7);
}

#[test]
fn string_encoding_layout() {
    // A string of n UTF-8 bytes occupies 4 + aligned(n + 1) bytes: size
    // word (counting the null), bytes, null, zero padding.
    let mut out: Vec<u8> = Vec::new();
    let values = [WireValue::Str(String::from("abc"))];
    let fd = write_values(&mut out, &values).unwrap();
    assert_eq!(fd, None);
    assert_eq!(out, vec![4, 0, 0, 0, b'a', b'b', b'c', 0]);

    let mut out2: Vec<u8> = Vec::new();
    let values2 = [WireValue::Str(String::from("wl_shm"))];
    write_values(&mut out2, &values2).unwrap();
    // 6 bytes + null = 7, aligned to 8.
    let mut expected = vec![7, 0, 0, 0];
    expected.extend_from_slice(b"wl_shm");
    expected.push(0);
    expected.push(0);
    assert_eq!(out2, expected);

    // The empty string still carries its null terminator and padding.
    let mut out3: Vec<u8> = Vec::new();
    write_values(&mut out3, &[WireValue::Str(String::new())]).unwrap();
    assert_eq!(out3, vec![1, 0, 0, 0, 0, 0, 0, 0]);
}

#[test]
fn array_encoding_layout() {
    let mut out: Vec<u8> = Vec::new();
    write_values(&mut out, &[WireValue::Array(vec![1, 2, 3, 4, 5])]).unwrap();
    let mut expected = vec![5, 0, 0, 0, 1, 2, 3, 4, 5];
    expected.extend_from_slice(&[0, 0, 0]);
    assert_eq!(out, expected);
}

#[test]
fn file_descriptor_produces_no_inline_bytes() {
    let mut out: Vec<u8> = Vec::new();
    let values = [WireValue::Uint32(9), WireValue::FileDesc(5), WireValue::Int32(-2)];
    let fd = write_values(&mut out, &values).unwrap();
    assert_eq!(fd, Some(5));
    let mut expected = le(9).to_vec();
    expected.extend_from_slice(&le(0xFFFF_FFFE));
    assert_eq!(out, expected);
}

#[test]
fn two_file_descriptors_are_rejected() {
    let mut out: Vec<u8> = Vec::new();
    let values = [WireValue::FileDesc(5), WireValue::FileDesc(6)];
    assert_eq!(write_values(&mut out, &values), Err(EncodeError::TooManyFileDescriptors));
}

#[test]
fn frame_layout_and_header_round_trip() {
    let values = [WireValue::Uint32(2)];
    let msg = WireMessage { object_id: 1, request_id: 1, values: &values };
    let (bytes, fd) = frame_message(&msg).unwrap();
    assert_eq!(fd, None);
    assert_eq!(bytes.len() % 4, 0);
    let mut expected = le(1).to_vec();
    expected.extend_from_slice(&le((12 << 16) | 1));
    expected.extend_from_slice(&le(2));
    assert_eq!(bytes, expected);

    let header: WireMsgHeader = read_header(&bytes[..8]);
    assert_eq!(header.object_id, 1);
    assert_eq!(header.method_id, 1);
    assert_eq!(header.length, 12);
}

#[test]
fn frame_length_is_always_multiple_of_four() {
    let values = [
        WireValue::Uint32(7),
        WireValue::Str(String::from("hello")),
        WireValue::Int32(-1),
    ];
    let msg = WireMessage { object_id: 3, request_id: 0, values: &values };
    let (bytes, _) = frame_message(&msg).unwrap();
    assert_eq!(bytes.len() % 4, 0);
    let header = read_header(&bytes[..8]);
    assert_eq!(header.length as usize, bytes.len());
}
