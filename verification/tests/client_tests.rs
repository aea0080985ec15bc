//! End-to-end engine scenarios: the bootstrap round-trip, deletion
//! acknowledgement, pool creation, ping/pong, parse-error survival, and
//! frame extraction across arbitrary read splits.

use wlclient::client::{Dispatch, WaylandClient};
use wlclient::error::{read_result, Error};
use wlclient::protocol::{RawMessage, WaylandEvent, WaylandObject, WaylandRequest};

fn encoded_str(s: &str) -> Vec<u8> {
    let mut out = Vec::new();
    let sz = (s.len() + 1) as u32;
    out.extend_from_slice(&sz.to_le_bytes());
    out.extend_from_slice(s.as_bytes());
    out.push(0);
    while out.len() % 4 != 0 {
        out.push(0);
    }
    out
}

fn frame(object_id: u32, opcode: u16, payload: &[u8]) -> Vec<u8> {
    let mut out = Vec::new();
    out.extend_from_slice(&object_id.to_le_bytes());
    let total = (8 + payload.len()) as u32;
    out.extend_from_slice(&(((total) << 16) | opcode as u32).to_le_bytes());
    out.extend_from_slice(payload);
    out
}

fn global_payload(name: u32, interface: &str, version: u32) -> Vec<u8> {
    let mut out = Vec::new();
    out.extend_from_slice(&name.to_le_bytes());
    out.extend_from_slice(&encoded_str(interface));
    out.extend_from_slice(&version.to_le_bytes());
    out
}

fn deliver(client: &mut WaylandClient<i32>, bytes: &[u8]) -> RawMessage {
    client.feed(bytes);
    client.next_msg().unwrap().unwrap()
}

#[test]
fn bootstrap_round_trip() {
    let mut c: WaylandClient<i32> = WaylandClient::new();

    // On creation the client has sent exactly display.get_registry(id=2).
    let out = c.take_output();
    assert_eq!(out.len(), 1);
    assert_eq!(out[0].bytes, frame(1, 1, &2u32.to_le_bytes()));
    assert_eq!(out[0].fd, None);

    // Server: registry.global(name=1, "wl_compositor", 4).
    let msg = deliver(&mut c, &frame(2, 0, &global_payload(1, "wl_compositor", 4)));
    assert!(matches!(c.dispatch(msg).unwrap(), Dispatch::Handled));
    let out = c.take_output();
    assert_eq!(out.len(), 1);
    let mut bind1 = 1u32.to_le_bytes().to_vec();
    bind1.extend_from_slice(&encoded_str("wl_compositor"));
    bind1.extend_from_slice(&4u32.to_le_bytes());
    bind1.extend_from_slice(&3u32.to_le_bytes());
    assert_eq!(out[0].bytes, frame(2, 0, &bind1));

    // Server: registry.global(name=2, "wl_shm", 1).
    let msg = deliver(&mut c, &frame(2, 0, &global_payload(2, "wl_shm", 1)));
    assert!(matches!(c.dispatch(msg).unwrap(), Dispatch::Handled));
    let out = c.take_output();
    assert_eq!(out.len(), 1);
    let mut bind2 = 2u32.to_le_bytes().to_vec();
    bind2.extend_from_slice(&encoded_str("wl_shm"));
    bind2.extend_from_slice(&1u32.to_le_bytes());
    bind2.extend_from_slice(&4u32.to_le_bytes());
    assert_eq!(out[0].bytes, frame(2, 0, &bind2));

    // The client issues sync on a fresh callback: id 5.
    let cb = c.sync().unwrap();
    assert_eq!(cb, 5);
    let out = c.take_output();
    assert_eq!(out.len(), 1);
    assert_eq!(out[0].bytes, frame(1, 0, &5u32.to_le_bytes()));

    // Server: callback.done(0).  The bootstrap completes.
    assert!(!c.bootstrap_done());
    let msg = deliver(&mut c, &frame(5, 0, &0u32.to_le_bytes()));
    assert!(matches!(c.dispatch(msg).unwrap(), Dispatch::Handled));
    assert!(c.bootstrap_done());

    // The recognised globals are bound to the ids the binds named.
    assert_eq!(c.get_global(WaylandObject::Compositor), Some(3));
    assert_eq!(c.get_global(WaylandObject::Shm), Some(4));
}

#[test]
fn deletion_acknowledgement() {
    let mut c: WaylandClient<i32> = WaylandClient::new();
    let cb = c.new_object(WaylandObject::CallBack).unwrap();
    assert_eq!(cb, 3);
    c.add_event_handler(cb, WaylandObject::CallBack, 7).unwrap();
    c.send_request(1, WaylandRequest::DisplaySync(cb)).unwrap();

    // Server: callback.done(42).
    let done = RawMessage { object_id: cb, event_id: 0, payload: 42u32.to_le_bytes().to_vec() };
    match c.dispatch(done).unwrap() {
        Dispatch::User(h, m) => {
            assert_eq!(h, 7);
            assert_eq!(m.sender_id, cb);
            assert_eq!(m.event, WaylandEvent::CallBackDone(42));
            assert!(c.restore_handler(cb, WaylandObject::CallBack, h));
        },
        Dispatch::Handled => panic!("expected the user handler"),
    }

    // Server: display.delete_id(cb).  The entry disappears.
    let del = RawMessage { object_id: 1, event_id: 1, payload: cb.to_le_bytes().to_vec() };
    assert!(matches!(c.dispatch(del).unwrap(), Dispatch::Handled));
    assert_eq!(c.get_object_interface(cb), None);

    // A later event for the dead id is reported and dropped, not fatal.
    let late = RawMessage { object_id: cb, event_id: 0, payload: 9u32.to_le_bytes().to_vec() };
    assert!(matches!(c.dispatch(late), Err(Error::NoSuchObject)));

    // The engine still works afterwards.
    assert_eq!(c.get_object_interface(1), Some(WaylandObject::Display));
}

#[test]
fn create_pool_attaches_the_descriptor() {
    let mut c: WaylandClient<i32> = WaylandClient::new();
    let msg = deliver(&mut c, &frame(2, 0, &global_payload(2, "wl_shm", 1)));
    c.dispatch(msg).unwrap();
    let _ = c.take_output();

    let pool = c.create_pool(5, 4096).unwrap();
    assert_eq!(pool, 4);
    assert_eq!(c.get_object_interface(pool), Some(WaylandObject::ShmPool));

    let out = c.take_output();
    assert_eq!(out.len(), 1);
    // Inline arguments are exactly (pool_id, size); the descriptor travels
    // out of band.
    let mut payload = pool.to_le_bytes().to_vec();
    payload.extend_from_slice(&4096u32.to_le_bytes());
    assert_eq!(out[0].bytes, frame(3, 0, &payload));
    assert_eq!(out[0].fd, Some(5));
}

#[test]
fn create_pool_needs_the_memory_global() {
    let mut c: WaylandClient<i32> = WaylandClient::new();
    assert!(matches!(c.create_pool(5, 64), Err(Error::MissingGlobal(WaylandObject::Shm))));
}

#[test]
fn ping_is_answered_with_pong_before_anything_else() {
    let mut c: WaylandClient<i32> = WaylandClient::new();
    let msg = deliver(&mut c, &frame(2, 0, &global_payload(3, "xdg_wm_base", 2)));
    c.dispatch(msg).unwrap();
    let _ = c.take_output();
    let wm = c.get_global(WaylandObject::XdgWmBase).unwrap();
    assert_eq!(wm, 3);

    // Server: window-system-base.ping(serial).
    let ping = RawMessage {
        object_id: wm,
        event_id: 0,
        payload: 0xDEADBEEFu32.to_le_bytes().to_vec(),
    };
    assert!(matches!(c.dispatch(ping).unwrap(), Dispatch::Handled));

    // The pong with the same serial is already queued on the same object.
    let out = c.take_output();
    assert_eq!(out.len(), 1);
    assert_eq!(out[0].bytes, frame(wm, 3, &0xDEADBEEFu32.to_le_bytes()));
    assert_eq!(out[0].fd, None);
}

#[test]
fn extra_bytes_error_is_survivable() {
    let mut c: WaylandClient<i32> = WaylandClient::new();
    let cb = c.new_object(WaylandObject::CallBack).unwrap();
    c.add_event_handler(cb, WaylandObject::CallBack, 1).unwrap();

    // A frame 4 bytes longer than the done event's argument.
    let mut payload = 42u32.to_le_bytes().to_vec();
    payload.extend_from_slice(&[0, 0, 0, 0]);
    let bad = RawMessage { object_id: cb, event_id: 0, payload };
    match c.dispatch(bad) {
        Err(Error::WlProtocolError(wlclient::protocol::Error::UnexpectedExtraBytes {
            object_id,
            event_id,
            extra_bytes,
        })) => {
            assert_eq!(object_id, cb);
            assert_eq!(event_id, 0);
            assert_eq!(extra_bytes, 4);
        },
        other => panic!("expected UnexpectedExtraBytes, got {:?}", other),
    }

    // The loop survives: the next, well-formed frame dispatches normally.
    let good = RawMessage { object_id: cb, event_id: 0, payload: 42u32.to_le_bytes().to_vec() };
    match c.dispatch(good).unwrap() {
        Dispatch::User(h, m) => {
            assert_eq!(h, 1);
            assert_eq!(m.event, WaylandEvent::CallBackDone(42));
        },
        Dispatch::Handled => panic!("expected the user handler"),
    }
}

#[test]
fn close_leaves_later_events_unconsumed() {
    let mut c: WaylandClient<i32> = WaylandClient::new();
    let tl = c.new_object(WaylandObject::XdgTopLevel).unwrap();
    c.add_event_handler(tl, WaylandObject::XdgTopLevel, 9).unwrap();

    // Two frames arrive together: close, then a configure-bounds.
    let mut bounds = 100u32.to_le_bytes().to_vec();
    bounds.extend_from_slice(&200u32.to_le_bytes());
    let mut stream = frame(tl, 1, &[]);
    stream.extend_from_slice(&frame(tl, 2, &bounds));
    c.feed(&stream);

    let first = c.next_msg().unwrap().unwrap();
    match c.dispatch(first).unwrap() {
        Dispatch::User(h, m) => {
            assert_eq!(h, 9);
            assert_eq!(m.event, WaylandEvent::XdgTopLevelClose);
            // The application's handler exits the process here; dispatching
            // the close consumed nothing beyond its own frame.
        },
        Dispatch::Handled => panic!("expected the user handler"),
    }

    // The second frame is still whole in the buffer.
    let second = c.next_msg().unwrap().unwrap();
    assert_eq!(second.object_id, tl);
    assert_eq!(second.event_id, 2);
}

#[test]
fn concatenated_frames_survive_any_read_split() {
    // F1 then F2, delivered in ragged chunks, parse as F1 then F2.
    let f1 = frame(9, 0, &1u32.to_le_bytes());
    let f2 = frame(9, 1, &2u32.to_le_bytes());
    let mut all = f1.clone();
    all.extend_from_slice(&f2);

    for split in [1usize, 3, 7, 8, 11, 13, 20] {
        let mut c: WaylandClient<i32> = WaylandClient::new();
        let (a, b) = all.split_at(split);
        c.feed(a);
        let mut frames = Vec::new();
        while let Some(m) = c.next_msg().unwrap() {
            frames.push(m);
        }
        c.feed(b);
        while let Some(m) = c.next_msg().unwrap() {
            frames.push(m);
        }
        assert_eq!(frames.len(), 2, "split at {}", split);
        assert_eq!(frames[0].object_id, 9);
        assert_eq!(frames[0].event_id, 0);
        assert_eq!(frames[0].payload, 1u32.to_le_bytes().to_vec());
        assert_eq!(frames[1].event_id, 1);
        assert_eq!(frames[1].payload, 2u32.to_le_bytes().to_vec());
    }
}

#[test]
fn a_zero_byte_read_is_fatal() {
    assert!(matches!(read_result(0), Err(Error::PeerClosed)));
    assert_eq!(read_result(17).unwrap(), 17);
}

#[test]
fn bad_frame_length_is_rejected() {
    let mut c: WaylandClient<i32> = WaylandClient::new();
    // A header announcing a 4-byte total length, shorter than the header.
    let mut bytes = 1u32.to_le_bytes().to_vec();
    bytes.extend_from_slice(&((4u32 << 16) | 0).to_le_bytes());
    c.feed(&bytes);
    assert!(matches!(c.next_msg(), Err(Error::BadFrameLength(4))));
}

#[test]
fn display_error_is_recorded() {
    let mut c: WaylandClient<i32> = WaylandClient::new();
    let mut payload = 1u32.to_le_bytes().to_vec();
    payload.extend_from_slice(&2u32.to_le_bytes());
    payload.extend_from_slice(&encoded_str("bad object"));
    let msg = RawMessage { object_id: 1, event_id: 0, payload };
    assert!(matches!(c.dispatch(msg).unwrap(), Dispatch::Handled));
    let (obj, code, text) = c.last_display_error().clone().unwrap();
    assert_eq!(obj, 1);
    assert_eq!(code, 2);
    assert_eq!(text, "bad object");
}

#[test]
fn upgrade_to_global_checks_interface_and_uniqueness() {
    let mut c: WaylandClient<i32> = WaylandClient::new();
    let s = c.new_object(WaylandObject::Surface).unwrap();
    assert!(matches!(
        c.upgrade_to_global(s, WaylandObject::Buffer),
        Err(Error::InvalidInterface)
    ));
    assert!(matches!(c.upgrade_to_global(99, WaylandObject::Surface), Err(Error::NoSuchObject)));
    c.upgrade_to_global(s, WaylandObject::Surface).unwrap();
    assert_eq!(c.get_global(WaylandObject::Surface), Some(s));
    let s2 = c.new_object(WaylandObject::Surface).unwrap();
    assert!(matches!(
        c.upgrade_to_global(s2, WaylandObject::Surface),
        Err(Error::GlobalAlreadyRegistered)
    ));
    // A typed reference check passes only for the recorded interface.
    assert_eq!(c.get_reference(s, WaylandObject::Surface), Some(s));
    assert_eq!(c.get_reference(s, WaylandObject::Buffer), None);
}

#[test]
fn send_request_queues_typed_requests() {
    let mut c: WaylandClient<i32> = WaylandClient::new();
    let _ = c.take_output();
    let s = c.new_object(WaylandObject::Surface).unwrap();
    c.send_request(s, WaylandRequest::SurfaceCommit).unwrap();
    c.send_request(s, WaylandRequest::SurfaceSetBufferScale(2)).unwrap();
    let out = c.take_output();
    assert_eq!(out.len(), 2);
    assert_eq!(out[0].bytes, frame(s, 6, &[]));
    assert_eq!(out[1].bytes, frame(s, 8, &2u32.to_le_bytes()));
}

#[test]
fn oversize_request_is_rejected() {
    let mut c: WaylandClient<i32> = WaylandClient::new();
    let _ = c.take_output();
    let tl = c.new_object(WaylandObject::XdgTopLevel).unwrap();
    // A title too long for the frame's 16-bit length field.
    let title: String = std::iter::repeat('x').take(0x10000).collect();
    assert!(matches!(
        c.send_request(tl, WaylandRequest::XdgTopLevelSetTitle(title)),
        Err(Error::RequestError(_))
    ));
    // Nothing was queued.
    assert!(c.take_output().is_empty());
}

#[test]
fn a_duplicate_global_advert_is_ignored() {
    let mut c: WaylandClient<i32> = WaylandClient::new();
    let msg = deliver(&mut c, &frame(2, 0, &global_payload(2, "wl_shm", 1)));
    c.dispatch(msg).unwrap();
    assert_eq!(c.get_global(WaylandObject::Shm), Some(3));
    let _ = c.take_output();

    // The same interface advertised again: no new object, no new bind.
    let msg = deliver(&mut c, &frame(2, 0, &global_payload(9, "wl_shm", 1)));
    assert!(matches!(c.dispatch(msg).unwrap(), Dispatch::Handled));
    assert_eq!(c.get_global(WaylandObject::Shm), Some(3));
    assert!(c.take_output().is_empty());
    assert_eq!(c.get_object_interface(4), None);
}

#[test]
fn unrecognised_globals_are_left_alone() {
    let mut c: WaylandClient<i32> = WaylandClient::new();
    let _ = c.take_output();
    let msg = deliver(&mut c, &frame(2, 0, &global_payload(5, "wl_output", 3)));
    assert!(matches!(c.dispatch(msg).unwrap(), Dispatch::Handled));
    assert!(c.take_output().is_empty());
    assert_eq!(c.get_object_interface(3), None);
}
