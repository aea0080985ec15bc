//! The pattern-driven writer and parser agree: what one writes under a
//! declared pattern, the other reads back.

use wlclient::parser::{write_bytes, MsgArgType, MsgArgValue, Parser};

#[test]
fn pattern_round_trip() {
    let values = [
        MsgArgValue::Uint32(41),
        MsgArgValue::String(String::from("wl_compositor")),
        MsgArgValue::Int32(-9),
        MsgArgValue::Array(vec![5, 6, 7]),
    ];
    let mut buffer: Vec<u8> = Vec::new();
    write_bytes(&values, &mut buffer).unwrap();

    let pattern = [
        MsgArgType::Uint32,
        MsgArgType::String,
        MsgArgType::Int32,
        MsgArgType::Array,
    ];
    let parsed = Parser::new(&pattern).parse(&buffer).unwrap();
    assert_eq!(parsed.len(), 4);
    assert_eq!(parsed[0], MsgArgValue::Uint32(41));
    assert_eq!(parsed[1], MsgArgValue::String(String::from("wl_compositor")));
    assert_eq!(parsed[2], MsgArgValue::Int32(-9));
    assert_eq!(parsed[3], MsgArgValue::Array(vec![5, 6, 7]));
}

#[test]
fn parse_fails_on_truncated_buffer() {
    let pattern = [MsgArgType::Uint32, MsgArgType::Uint32];
    assert!(Parser::new(&pattern).parse(&[1, 0, 0, 0, 2]).is_err());
}

#[test]
fn into_accessors_unwrap_their_variant() {
    assert_eq!(MsgArgValue::Uint32(3).into_u32(), 3);
    assert_eq!(MsgArgValue::Int32(-3).into_i32(), -3);
    assert_eq!(MsgArgValue::String(String::from("ok")).into_str(), "ok");
    assert_eq!(MsgArgValue::Array(vec![1]).into_array(), vec![1]);
}

#[test]
fn word_array_layout() {
    let mut buffer: Vec<u8> = Vec::new();
    write_bytes(&[MsgArgValue::Array(vec![0x01020304])], &mut buffer).unwrap();
    assert_eq!(buffer, vec![4, 0, 0, 0, 0x04, 0x03, 0x02, 0x01]);
}
