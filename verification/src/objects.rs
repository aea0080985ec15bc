//! The object table: every live object's interface and its single handler
//! slot.  Client-allocated ids are drawn from a counter that never reuses an
//! id; an entry lives from its allocation until the server acknowledges its
//! deletion.
//!
//! The handler slot holds at most one handler of the caller's chosen type
//! `H`; dispatch checks a handler out of the slot, runs it, and reinstalls
//! it only if the slot is still free, so a handler installed re-entrantly
//! during dispatch wins over the reinstall.

use crate::protocol::WaylandObject;
use std::collections::HashMap;
use vstd::prelude::*;

verus! {

broadcast use vstd::std_specs::hash::group_hash_axioms;

/// Why a handler operation on the table failed.
#[derive(Clone, Copy, Debug, PartialEq, Eq, Structural)]
pub enum WlHandlerRegistryError {
    NoSuchObject,
    HandlerAlreadlyInPlace,
    InvalidInterface,
}

/// One live object: its interface and its handler slot.
pub struct WlObjectEntry<H> {
    pub interface: WaylandObject,
    pub handler: Option<H>,
}

/// The object table.
pub struct WlObjectManager<H> {
    objects: HashMap<u32, WlObjectEntry<H>>,
    objects_id_count: u32,
}

/// Whether a handler may be installed: the object exists, the caller's
/// interface matches the recorded one, and the slot is free.
pub open spec fn spec_add_allowed<H>(
    m: Map<u32, WlObjectEntry<H>>,
    object_id: u32,
    interface: WaylandObject,
) -> bool {
    m.contains_key(object_id) && m[object_id].interface == interface && m[object_id].handler
        is None
}

impl<H> WlObjectManager<H> {
    /// The table's model: each live id with its interface and handler slot.
    pub closed spec fn model(self) -> Map<u32, WlObjectEntry<H>> {
        self.objects@
    }

    /// The last id handed out; ids count up from 1 and are never reused.
    pub closed spec fn last_id(self) -> u32 {
        self.objects_id_count
    }

    /// Every live id was handed out by the counter.
    pub closed spec fn wf(self) -> bool {
        forall|k: u32| self.objects@.contains_key(k) ==> 1 <= k <= self.objects_id_count
    }

    pub fn new() -> (r: WlObjectManager<H>)
        ensures
            r.wf(),
            r.model() == Map::<u32, WlObjectEntry<H>>::empty(),
            r.last_id() == 0,
    {
        WlObjectManager { objects: HashMap::new(), objects_id_count: 0 }
    }

    /// Allocates the next id and inserts an entry with an empty handler
    /// slot.  Fails exactly when the counter has reached the last usable id.
    pub fn new_object(&mut self, interface: WaylandObject) -> (r: Option<u32>)
        requires
            old(self).wf(),
        ensures
            final(self).wf(),
            r is Some <==> old(self).last_id() < u32::MAX - 1,
            r matches Some(id) ==> {
                &&& id == old(self).last_id() + 1
                &&& !old(self).model().contains_key(id)
                &&& final(self).model() == old(self).model().insert(
                    id,
                    WlObjectEntry { interface, handler: None::<H> },
                )
                &&& final(self).last_id() == id
            },
            r is None ==> *final(self) == *old(self),
    {
        if self.objects_id_count >= u32::MAX - 1 {
            return None;
        }
        let id = self.objects_id_count + 1;
        self.objects_id_count = id;
        let _ = self.objects.insert(id, WlObjectEntry { interface, handler: None });
        Some(id)
    }

    /// Installs a handler.  Succeeds exactly when the object exists, the
    /// interface matches, and no handler is currently installed; on success
    /// only that slot changes.
    pub fn add_handler(&mut self, object_id: u32, interface: WaylandObject, handler: H) -> (r:
        Result<(), WlHandlerRegistryError>)
        requires
            old(self).wf(),
        ensures
            final(self).wf(),
            final(self).last_id() == old(self).last_id(),
            r is Ok <==> spec_add_allowed(old(self).model(), object_id, interface),
            r is Ok ==> final(self).model() == old(self).model().insert(
                object_id,
                WlObjectEntry { interface, handler: Some(handler) },
            ),
            r is Err ==> final(self).model() == old(self).model(),
            r == Err::<(), WlHandlerRegistryError>(WlHandlerRegistryError::NoSuchObject) <==> !old(
                self,
            ).model().contains_key(object_id),
            r == Err::<(), WlHandlerRegistryError>(WlHandlerRegistryError::InvalidInterface) <==> (
            old(self).model().contains_key(object_id) && old(self).model()[object_id].interface
                != interface),
            r == Err::<(), WlHandlerRegistryError>(WlHandlerRegistryError::HandlerAlreadlyInPlace)
                <==> (old(self).model().contains_key(object_id)
                && old(self).model()[object_id].interface == interface
                && old(self).model()[object_id].handler is Some),
    {
        let entry = match self.objects.remove(&object_id) {
            Some(e) => e,
            None => {
                proof {
                    assert(self.objects@ =~= old(self).objects@.remove(object_id));
                    assert(self.objects@ =~= old(self).objects@);
                }
                return Err(WlHandlerRegistryError::NoSuchObject);
            },
        };
        if entry.interface.interface_id() != interface.interface_id() {
            let _ = self.objects.insert(object_id, entry);
            proof {
                lemma_interface_id_injective(old(self).model()[object_id].interface, interface);
                assert(self.objects@ =~= old(self).objects@);
            }
            return Err(WlHandlerRegistryError::InvalidInterface);
        }
        if entry.handler.is_some() {
            let _ = self.objects.insert(object_id, entry);
            proof {
                lemma_interface_id_injective(old(self).model()[object_id].interface, interface);
                assert(self.objects@ =~= old(self).objects@);
            }
            return Err(WlHandlerRegistryError::HandlerAlreadlyInPlace);
        }
        let _ = self.objects.insert(object_id, WlObjectEntry { interface, handler: Some(handler) });
        proof {
            lemma_interface_id_injective(old(self).model()[object_id].interface, interface);
            assert(self.objects@ =~= old(self).objects@.insert(
                object_id,
                WlObjectEntry { interface, handler: Some(handler) },
            ));
        }
        Ok(())
    }

    /// Clears the handler slot.  Succeeds exactly when the object exists.
    pub fn remove_handler(&mut self, object_id: u32) -> (r: Result<(), WlHandlerRegistryError>)
        requires
            old(self).wf(),
        ensures
            final(self).wf(),
            final(self).last_id() == old(self).last_id(),
            r is Ok <==> old(self).model().contains_key(object_id),
            r is Ok ==> final(self).model() == old(self).model().insert(
                object_id,
                WlObjectEntry {
                    interface: old(self).model()[object_id].interface,
                    handler: None::<H>,
                },
            ),
            r is Err ==> final(self).model() == old(self).model() && r == Err::<
                (),
                WlHandlerRegistryError,
            >(WlHandlerRegistryError::NoSuchObject),
    {
        let entry = match self.objects.remove(&object_id) {
            Some(e) => e,
            None => {
                proof {
                    assert(self.objects@ =~= old(self).objects@);
                }
                return Err(WlHandlerRegistryError::NoSuchObject);
            },
        };
        let _ = self.objects.insert(
            object_id,
            WlObjectEntry { interface: entry.interface, handler: None },
        );
        proof {
            assert(self.objects@ =~= old(self).objects@.insert(
                object_id,
                WlObjectEntry {
                    interface: old(self).model()[object_id].interface,
                    handler: None::<H>,
                },
            ));
        }
        Ok(())
    }

    /// The interface recorded for an id, while the id is live.
    pub fn get_object_interface(&self, object_id: u32) -> (r: Option<WaylandObject>)
        ensures
            r is Some <==> self.model().contains_key(object_id),
            r matches Some(i) ==> i == self.model()[object_id].interface,
    {
        match self.objects.get(&object_id) {
            Some(entry) => Some(entry.interface),
            None => None,
        }
    }

    /// Checks an object out for dispatch: returns its interface and takes
    /// the handler from the slot, leaving the slot empty so that re-entrant
    /// code may install a new handler while the old one runs.
    pub fn checkout(&mut self, object_id: u32) -> (r: Option<(WaylandObject, Option<H>)>)
        requires
            old(self).wf(),
        ensures
            final(self).wf(),
            final(self).last_id() == old(self).last_id(),
            r is Some <==> old(self).model().contains_key(object_id),
            r matches Some((interface, handler)) ==> {
                &&& interface == old(self).model()[object_id].interface
                &&& handler == old(self).model()[object_id].handler
                &&& final(self).model() == old(self).model().insert(
                    object_id,
                    WlObjectEntry { interface, handler: None::<H> },
                )
            },
            r is None ==> final(self).model() == old(self).model(),
    {
        let entry = match self.objects.remove(&object_id) {
            Some(e) => e,
            None => {
                proof {
                    assert(self.objects@ =~= old(self).objects@);
                }
                return None;
            },
        };
        let interface = entry.interface;
        let _ = self.objects.insert(object_id, WlObjectEntry { interface, handler: None });
        proof {
            assert(self.objects@ =~= old(self).objects@.insert(
                object_id,
                WlObjectEntry { interface, handler: None::<H> },
            ));
        }
        Some((interface, entry.handler))
    }

    /// Erases the entry unconditionally.
    pub fn remove_object(&mut self, object_id: u32)
        requires
            old(self).wf(),
        ensures
            final(self).wf(),
            final(self).last_id() == old(self).last_id(),
            final(self).model() == old(self).model().remove(object_id),
    {
        let _ = self.objects.remove(&object_id);
    }
}

/// Interface tags are distinct, so equal tags mean equal interfaces.
pub proof fn lemma_interface_id_injective(a: WaylandObject, b: WaylandObject)
    ensures
        a.spec_interface_id() == b.spec_interface_id() <==> a == b,
{
}

/// The object-table allocation law: a freshly allocated id records exactly
/// the interface passed at allocation, and once the entry is removed the
/// table reports nothing for that id.
pub proof fn lemma_allocation_interface<H>(
    pre: Map<u32, WlObjectEntry<H>>,
    id: u32,
    interface: WaylandObject,
)
    ensures
        pre.insert(id, WlObjectEntry { interface, handler: None::<H> }).contains_key(id),
        pre.insert(id, WlObjectEntry { interface, handler: None::<H> })[id].interface == interface,
        !pre.insert(id, WlObjectEntry { interface, handler: None::<H> }).remove(id).contains_key(
            id,
        ),
{
}

/// The re-entrant installation law: after dispatch checks a handler out, a
/// handler installed during the call occupies the slot; installing it is
/// allowed at that point, while the attempt to reinstall the old handler
/// afterwards is not, so the newer handler stays.
pub proof fn lemma_reentrant_install_wins<H>(
    pre: Map<u32, WlObjectEntry<H>>,
    object_id: u32,
    interface: WaylandObject,
    h_new: H,
)
    requires
        pre.contains_key(object_id),
        pre[object_id].interface == interface,
    ensures
        ({
            let after_checkout = pre.insert(
                object_id,
                WlObjectEntry { interface, handler: None::<H> },
            );
            let after_install = after_checkout.insert(
                object_id,
                WlObjectEntry { interface, handler: Some(h_new) },
            );
            &&& spec_add_allowed(after_checkout, object_id, interface)
            &&& !spec_add_allowed(after_install, object_id, interface)
            &&& after_install[object_id].handler == Some(h_new)
        }),
{
}

} // verus!
