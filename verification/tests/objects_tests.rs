//! Object-table checks: allocation records the interface, handler
//! installation succeeds exactly under its three conditions, and a handler
//! installed during dispatch wins over the reinstall of the old one.

use wlclient::objects::{WlHandlerRegistryError, WlObjectManager};
use wlclient::protocol::WaylandObject;

#[test]
fn allocation_records_interface_until_removal() {
    let mut mgr: WlObjectManager<i32> = WlObjectManager::new();
    let a = mgr.new_object(WaylandObject::Display).unwrap();
    let b = mgr.new_object(WaylandObject::Registry).unwrap();
    assert_eq!(a, 1);
    assert_eq!(b, 2);
    assert_eq!(mgr.get_object_interface(a), Some(WaylandObject::Display));
    assert_eq!(mgr.get_object_interface(b), Some(WaylandObject::Registry));
    mgr.remove_object(a);
    assert_eq!(mgr.get_object_interface(a), None);
    assert_eq!(mgr.get_object_interface(b), Some(WaylandObject::Registry));
}

#[test]
fn ids_count_up_and_are_not_reused() {
    let mut mgr: WlObjectManager<i32> = WlObjectManager::new();
    let a = mgr.new_object(WaylandObject::Surface).unwrap();
    mgr.remove_object(a);
    let b = mgr.new_object(WaylandObject::Surface).unwrap();
    assert_eq!(b, a + 1);
}

#[test]
fn add_handler_conditions() {
    let mut mgr: WlObjectManager<i32> = WlObjectManager::new();
    let id = mgr.new_object(WaylandObject::Surface).unwrap();

    // Succeeds when the object exists, the interface matches, and the slot
    // is free.
    assert_eq!(mgr.add_handler(id, WaylandObject::Surface, 10), Ok(()));

    // A second install fails: the slot holds a handler.
    assert_eq!(
        mgr.add_handler(id, WaylandObject::Surface, 11),
        Err(WlHandlerRegistryError::HandlerAlreadlyInPlace)
    );

    // A missing object fails.
    assert_eq!(
        mgr.add_handler(99, WaylandObject::Surface, 12),
        Err(WlHandlerRegistryError::NoSuchObject)
    );

    // A mismatched interface fails.
    let other = mgr.new_object(WaylandObject::Buffer).unwrap();
    assert_eq!(
        mgr.add_handler(other, WaylandObject::Surface, 13),
        Err(WlHandlerRegistryError::InvalidInterface)
    );
}

#[test]
fn remove_handler_clears_the_slot() {
    let mut mgr: WlObjectManager<i32> = WlObjectManager::new();
    let id = mgr.new_object(WaylandObject::Surface).unwrap();
    mgr.add_handler(id, WaylandObject::Surface, 10).unwrap();
    assert_eq!(mgr.remove_handler(id), Ok(()));
    assert_eq!(mgr.add_handler(id, WaylandObject::Surface, 11), Ok(()));
    assert_eq!(mgr.remove_handler(42), Err(WlHandlerRegistryError::NoSuchObject));
}

#[test]
fn reentrant_install_wins_over_reinstall() {
    let mut mgr: WlObjectManager<i32> = WlObjectManager::new();
    let id = mgr.new_object(WaylandObject::CallBack).unwrap();
    mgr.add_handler(id, WaylandObject::CallBack, 1).unwrap();

    // Dispatch checks the handler out, leaving the slot empty.
    let (interface, taken) = mgr.checkout(id).unwrap();
    assert_eq!(interface, WaylandObject::CallBack);
    assert_eq!(taken, Some(1));

    // Re-entrant code installs a new handler while the old one runs.
    assert_eq!(mgr.add_handler(id, WaylandObject::CallBack, 2), Ok(()));

    // The reinstall of the old handler silently fails ...
    assert_eq!(
        mgr.add_handler(id, WaylandObject::CallBack, 1),
        Err(WlHandlerRegistryError::HandlerAlreadlyInPlace)
    );

    // ... and the slot holds the newer handler.
    let (_, held) = mgr.checkout(id).unwrap();
    assert_eq!(held, Some(2));
}

#[test]
fn checkout_empties_the_slot() {
    let mut mgr: WlObjectManager<i32> = WlObjectManager::new();
    let id = mgr.new_object(WaylandObject::CallBack).unwrap();
    mgr.add_handler(id, WaylandObject::CallBack, 7).unwrap();
    let (_, first) = mgr.checkout(id).unwrap();
    assert_eq!(first, Some(7));
    let (_, second) = mgr.checkout(id).unwrap();
    assert_eq!(second, None);
    assert_eq!(mgr.checkout(12345), None);
}
