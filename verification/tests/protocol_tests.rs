//! Schema checks: opcodes, interface recognition, request serialisation,
//! and typed event parsing with strict payload consumption.

use wlclient::parser::{write_bytes, MsgArgValue};
use wlclient::protocol::{
    make_request, parse_msg, Error, RawMessage, ShmPixelFormat, WaylandEvent, WaylandObject,
    WaylandRequest,
};

fn frame_payload(parts: &[&[u8]]) -> Vec<u8> {
    let mut out = Vec::new();
    for p in parts {
        out.extend_from_slice(p);
    }
    out
}

fn encoded_str(s: &str) -> Vec<u8> {
    let mut out = Vec::new();
    let sz = (s.len() + 1) as u32;
    out.extend_from_slice(&sz.to_le_bytes());
    out.extend_from_slice(s.as_bytes());
    out.push(0);
    while out.len() % 4 != 0 {
        out.push(0);
    }
    out
}

#[test]
fn request_opcodes_follow_declaration_order() {
    assert_eq!(WaylandRequest::DisplaySync(1).request_id(), 0);
    assert_eq!(WaylandRequest::DisplayGetRegistry(2).request_id(), 1);
    assert_eq!(
        WaylandRequest::RegistryBind {
            name: 1,
            interface: String::from("wl_shm"),
            version: 1,
            new_id: 3,
        }
        .request_id(),
        0
    );
    assert_eq!(WaylandRequest::SurfaceCommit.request_id(), 6);
    assert_eq!(WaylandRequest::SurfaceDamageBuffer { x: 0, y: 0, width: 1, height: 1 }
        .request_id(), 9);
    assert_eq!(WaylandRequest::XdgWmPong(9).request_id(), 3);
    assert_eq!(WaylandRequest::XdgSurfaceAckConfigure(1).request_id(), 4);
    assert_eq!(WaylandRequest::XdgTopLevelSetAppId(String::from("app")).request_id(), 3);
}

#[test]
fn from_interface_recognises_the_bootstrap_globals() {
    assert_eq!(WaylandObject::from_interface("wl_compositor"), Some(WaylandObject::Compositor));
    assert_eq!(WaylandObject::from_interface("xdg_wm_base"), Some(WaylandObject::XdgWmBase));
    assert_eq!(WaylandObject::from_interface("wl_shm"), Some(WaylandObject::Shm));
    assert_eq!(WaylandObject::from_interface("wl_output"), None);
    assert_eq!(WaylandObject::from_interface(""), None);
}

#[test]
fn pixel_format_codes() {
    assert_eq!(ShmPixelFormat::Argb.format_code(), 0);
    assert_eq!(ShmPixelFormat::Xrgb.format_code(), 1);
    assert_eq!(ShmPixelFormat::from_code(0), Some(ShmPixelFormat::Argb));
    assert_eq!(ShmPixelFormat::from_code(1), Some(ShmPixelFormat::Xrgb));
    // Other format codes are tolerated and kept numeric by the caller.
    assert_eq!(ShmPixelFormat::from_code(0x34325241), None);
}

#[test]
fn write_data_serialises_inline_arguments() {
    let mut buffer = Vec::new();
    let fd = WaylandRequest::ShmPoolCreateBuffer {
        buffer_id: 6,
        offset: 0,
        width: 2,
        height: 3,
        stride: 8,
        pixel_format: ShmPixelFormat::Xrgb,
    }
    .write_data(&mut buffer)
    .unwrap();
    assert_eq!(fd, None);
    let expected = frame_payload(&[
        &6u32.to_le_bytes(),
        &0u32.to_le_bytes(),
        &2u32.to_le_bytes(),
        &3u32.to_le_bytes(),
        &8u32.to_le_bytes(),
        &1u32.to_le_bytes(),
    ]);
    assert_eq!(buffer, expected);
}

#[test]
fn make_request_frames_the_bind() {
    let (bytes, fd) = make_request(
        2,
        WaylandRequest::RegistryBind {
            name: 1,
            interface: String::from("wl_compositor"),
            version: 4,
            new_id: 3,
        },
    )
    .unwrap();
    assert_eq!(fd, None);
    let payload = frame_payload(&[
        &1u32.to_le_bytes(),
        &encoded_str("wl_compositor"),
        &4u32.to_le_bytes(),
        &3u32.to_le_bytes(),
    ]);
    let total = (8 + payload.len()) as u32;
    let expected = frame_payload(&[
        &2u32.to_le_bytes(),
        &((total << 16) | 0).to_le_bytes(),
        &payload,
    ]);
    assert_eq!(bytes, expected);
    assert_eq!(bytes.len() % 4, 0);
}

#[test]
fn parse_registry_global_event() {
    let payload = frame_payload(&[
        &7u32.to_le_bytes(),
        &encoded_str("wl_shm"),
        &1u32.to_le_bytes(),
    ]);
    let msg = RawMessage { object_id: 2, event_id: 0, payload };
    let parsed = parse_msg(msg, WaylandObject::Registry).unwrap();
    assert_eq!(parsed.sender_id, 2);
    assert_eq!(parsed.sender_obj, WaylandObject::Registry);
    assert_eq!(
        parsed.event,
        WaylandEvent::RegistryGlobal { name: 7, interface: String::from("wl_shm"), version: 1 }
    );
}

#[test]
fn parse_display_error_event() {
    let payload = frame_payload(&[
        &3u32.to_le_bytes(),
        &2u32.to_le_bytes(),
        &encoded_str("out of memory"),
    ]);
    let msg = RawMessage { object_id: 1, event_id: 0, payload };
    let parsed = parse_msg(msg, WaylandObject::Display).unwrap();
    assert_eq!(
        parsed.event,
        WaylandEvent::DisplayError {
            object_id: 3,
            code: 2,
            message: String::from("out of memory"),
        }
    );
}

#[test]
fn parse_toplevel_configure_event() {
    let payload = frame_payload(&[
        &300u32.to_le_bytes(),
        &400u32.to_le_bytes(),
        &8u32.to_le_bytes(),
        &1u32.to_le_bytes(),
        &4u32.to_le_bytes(),
    ]);
    let msg = RawMessage { object_id: 9, event_id: 0, payload };
    let parsed = parse_msg(msg, WaylandObject::XdgTopLevel).unwrap();
    assert_eq!(
        parsed.event,
        WaylandEvent::XdgTopLevelConfigure { height: 300, width: 400, states: vec![1, 4] }
    );
}

#[test]
fn parse_empty_payload_events() {
    let msg = RawMessage { object_id: 5, event_id: 0, payload: Vec::new() };
    let parsed = parse_msg(msg, WaylandObject::Buffer).unwrap();
    assert_eq!(parsed.event, WaylandEvent::BufferRelease);

    let msg = RawMessage { object_id: 6, event_id: 1, payload: Vec::new() };
    let parsed = parse_msg(msg, WaylandObject::XdgTopLevel).unwrap();
    assert_eq!(parsed.event, WaylandEvent::XdgTopLevelClose);
}

#[test]
fn unknown_opcode_is_no_event() {
    let msg = RawMessage { object_id: 5, event_id: 9, payload: Vec::new() };
    match parse_msg(msg, WaylandObject::Buffer) {
        Err(Error::NoEvent(9)) => {},
        other => panic!("expected NoEvent, got {:?}", other),
    }
}

#[test]
fn extra_bytes_are_rejected_with_attribution() {
    let mut payload = 42u32.to_le_bytes().to_vec();
    payload.extend_from_slice(&[0, 0, 0, 0]);
    let msg = RawMessage { object_id: 7, event_id: 0, payload };
    match parse_msg(msg, WaylandObject::CallBack) {
        Err(Error::UnexpectedExtraBytes { object_id, event_id, extra_bytes }) => {
            assert_eq!(object_id, 7);
            assert_eq!(event_id, 0);
            assert_eq!(extra_bytes, 4);
        },
        other => panic!("expected UnexpectedExtraBytes, got {:?}", other),
    }
}

#[test]
fn one_trailing_byte_is_one_extra_byte() {
    // The same payload plus a single trailing byte is rejected, attributed
    // to the frame's object and opcode.
    let mut payload = 42u32.to_le_bytes().to_vec();
    payload.push(0);
    let msg = RawMessage { object_id: 7, event_id: 0, payload };
    match parse_msg(msg, WaylandObject::CallBack) {
        Err(Error::UnexpectedExtraBytes { object_id: 7, event_id: 0, extra_bytes: 1 }) => {},
        other => panic!("expected one extra byte, got {:?}", other),
    }
}

#[test]
fn event_round_trip_through_writer() {
    // Encoding an event's arguments with the writer and parsing them back
    // with the event's own parser returns the event.
    let mut payload = Vec::new();
    write_bytes(
        &[
            MsgArgValue::Uint32(11),
            MsgArgValue::String(String::from("xdg_wm_base")),
            MsgArgValue::Uint32(2),
        ],
        &mut payload,
    )
    .unwrap();
    let msg = RawMessage { object_id: 2, event_id: 0, payload };
    let parsed = parse_msg(msg, WaylandObject::Registry).unwrap();
    assert_eq!(
        parsed.event,
        WaylandEvent::RegistryGlobal {
            name: 11,
            interface: String::from("xdg_wm_base"),
            version: 2,
        }
    );
}
