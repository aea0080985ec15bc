//! The client engine: object allocation, globals, request framing, frame
//! extraction, and event dispatch.
//!
//! The engine performs no I/O.  Requests it issues are queued as framed
//! messages for the surrounding process to write; bytes read off the stream
//! are fed in and dispatched one frame at a time.  Handlers of the caller's
//! type `H` live in the object table; the engine's own reactions -- error
//! recording, deletion acknowledgement, registry binding, ping replies, and
//! the bootstrap sync -- run inside `dispatch` itself.

use crate::buffer::ByteBuffer;
use crate::error::Error;
use crate::objects::{spec_add_allowed, WlObjectEntry, WlObjectManager};
use crate::protocol::{
    make_request, parse_msg, spec_msg_parses, RawMessage, WaylandEvent, WaylandEventMessage,
    WaylandObject, WaylandRequest,
};
use crate::wire_format::{
    spec_encode_str, spec_encode_values, spec_fd_count, spec_fd_of, spec_frame_with_payload,
    spec_message_frame, spec_value_fits, spec_values_fit, WireValue,
};
use std::collections::HashMap;
use vstd::bytes::{lemma_auto_spec_u32_to_from_le_bytes, spec_u32_from_le_bytes,
    spec_u32_to_le_bytes};
use vstd::prelude::*;

verus! {

broadcast use vstd::std_specs::hash::group_hash_axioms;

/// A framed request waiting to be written to the socket, together with the
/// file descriptor to attach out of band, if any.
pub struct OutMessage {
    pub bytes: Vec<u8>,
    pub fd: Option<i32>,
}

/// A sink for framed requests: the process around the library implements it
/// over the real socket, framing the message and writing it with its file
/// descriptor attached out of band.  Returns how many bytes were written.
pub trait WaylandStream {
    fn send(&self, msg: &crate::wire_format::WireMessage<'_>) -> Result<usize, Error>;
}

/// The engine's own reactions, installed in handler slots it manages.
#[derive(Clone, Copy, Debug, PartialEq, Eq, Structural)]
pub enum BuiltinHandler {
    /// Records display errors and honours deletion acknowledgements.
    Display,
    /// Binds recognised globals as the registry announces them.
    Registry,
    /// Replies to pings from the window-system base.
    Ping,
    /// Marks the bootstrap round-trip complete.
    SyncDone,
    /// Consumes events nobody cares about.
    Ignore,
}

/// A handler slot: one of the engine's own reactions, or a caller's handler.
pub enum Handler<H> {
    Builtin(BuiltinHandler),
    User(H),
}

/// The client engine.
pub struct WaylandClient<H> {
    objects: WlObjectManager<Handler<H>>,
    globals: HashMap<u32, u32>,
    buffer: ByteBuffer,
    out: Vec<OutMessage>,
    done: bool,
    last_error: Option<(u32, u32, String)>,
}

/// All numeric wire values fit trivially, carry no descriptor, and occupy
/// 4 bytes each.
pub proof fn lemma_numeric_values(vs: Seq<WireValue>)
    requires
        forall|i: int| 0 <= i < vs.len() ==> (#[trigger] vs[i] is Uint32 || vs[i] is Int32),
    ensures
        spec_values_fit(vs),
        spec_fd_count(vs) == 0,
        spec_fd_of(vs) is None,
        spec_encode_values(vs).len() == 4 * vs.len(),
    decreases vs.len(),
{
    lemma_auto_spec_u32_to_from_le_bytes();
    if vs.len() > 0 {
        lemma_numeric_values(vs.skip(1));
        assert(forall|i: int|
            0 <= i < vs.skip(1).len() ==> #[trigger] vs.skip(1)[i] == vs[i + 1]);
    }
}

impl<H> WaylandClient<H> {
    /// The object table: each live id's interface and handler slot.
    pub closed spec fn objects_model(self) -> Map<u32, WlObjectEntry<Handler<H>>> {
        self.objects.model()
    }

    /// The last object id handed out.
    pub closed spec fn last_id(self) -> u32 {
        self.objects.last_id()
    }

    /// The globals: interface tag to object id.
    pub closed spec fn globals_model(self) -> Map<u32, u32> {
        self.globals@
    }

    /// The queued outgoing messages, oldest first.
    pub closed spec fn out_model(self) -> Seq<OutMessage> {
        self.out@
    }

    /// Whether the bootstrap sync has completed.
    pub closed spec fn spec_done(self) -> bool {
        self.done
    }

    /// The last error the display reported: offending object, code, text.
    pub closed spec fn spec_last_error(self) -> Option<(u32, u32, String)> {
        self.last_error
    }

    /// The bytes read off the stream and not yet consumed.
    pub closed spec fn recv_model(self) -> Seq<u8> {
        self.buffer.cached()
    }

    pub closed spec fn wf(self) -> bool {
        self.objects.wf() && self.buffer.wf() && self.buffer.capacity() == 0x10010
    }

    /// Whether the object table has room for another allocation.
    pub open spec fn spec_can_allocate(self) -> bool {
        self.last_id() < u32::MAX - 1
    }

    /// Everything but the read buffer is as it was.
    pub open spec fn spec_same_engine(pre: WaylandClient<H>, post: WaylandClient<H>) -> bool {
        &&& post.objects_model() == pre.objects_model()
        &&& post.last_id() == pre.last_id()
        &&& post.globals_model() == pre.globals_model()
        &&& post.out_model() == pre.out_model()
        &&& post.spec_done() == pre.spec_done()
        &&& post.spec_last_error() == pre.spec_last_error()
    }

    /// Builds the engine: the display is object 1 with the engine's display
    /// handler, the registry is object 2 with the registry handler, and the
    /// registry request is already queued for the wire.
    pub fn new() -> (r: WaylandClient<H>)
        ensures
            r.wf(),
            r.objects_model() == Map::<u32, WlObjectEntry<Handler<H>>>::empty().insert(
                1u32,
                WlObjectEntry {
                    interface: WaylandObject::Display,
                    handler: Some(Handler::Builtin(BuiltinHandler::Display)),
                },
            ).insert(
                2u32,
                WlObjectEntry {
                    interface: WaylandObject::Registry,
                    handler: Some(Handler::Builtin(BuiltinHandler::Registry)),
                },
            ),
            r.last_id() == 2,
            r.globals_model() == Map::<u32, u32>::empty().insert(
                WaylandObject::Display.spec_interface_id(),
                1u32,
            ).insert(WaylandObject::Registry.spec_interface_id(), 2u32),
            r.out_model().len() == 1,
            r.out_model()[0].bytes@ == spec_message_frame(
                1u32,
                1u32,
                WaylandRequest::DisplayGetRegistry(2u32).spec_values(),
            ),
            r.out_model()[0].fd is None,
            !r.spec_done(),
            r.spec_last_error() is None,
            r.recv_model() == Seq::<u8>::empty(),
    {
        let mut objects: WlObjectManager<Handler<H>> = WlObjectManager::new();
        let display_id = match objects.new_object(WaylandObject::Display) {
            Some(id) => id,
            None => vstd::pervasive::unreached(),
        };
        let r1 = objects.add_handler(
            display_id,
            WaylandObject::Display,
            Handler::Builtin(BuiltinHandler::Display),
        );
        proof {
            assert(r1 is Ok);
        }
        let registry_id = match objects.new_object(WaylandObject::Registry) {
            Some(id) => id,
            None => vstd::pervasive::unreached(),
        };
        let r2 = objects.add_handler(
            registry_id,
            WaylandObject::Registry,
            Handler::Builtin(BuiltinHandler::Registry),
        );
        proof {
            assert(r2 is Ok);
        }
        let mut globals: HashMap<u32, u32> = HashMap::new();
        let _ = globals.insert(WaylandObject::Display.interface_id(), display_id);
        let _ = globals.insert(WaylandObject::Registry.interface_id(), registry_id);
        let request = WaylandRequest::DisplayGetRegistry(registry_id);
        proof {
            lemma_numeric_values(request.spec_values());
        }
        let (bytes, fd) = match make_request(display_id, request) {
            Ok(m) => m,
            Err(_) => vstd::pervasive::unreached(),
        };
        let mut out: Vec<OutMessage> = Vec::new();
        out.push(OutMessage { bytes, fd });
        let r = WaylandClient {
            objects,
            globals,
            buffer: ByteBuffer::new(0x10010),
            out,
            done: false,
            last_error: None,
        };
        proof {
            assert(r.objects_model() =~= Map::<u32, WlObjectEntry<Handler<H>>>::empty().insert(
                1u32,
                WlObjectEntry {
                    interface: WaylandObject::Display,
                    handler: Some(Handler::Builtin(BuiltinHandler::Display)),
                },
            ).insert(
                2u32,
                WlObjectEntry {
                    interface: WaylandObject::Registry,
                    handler: Some(Handler::Builtin(BuiltinHandler::Registry)),
                },
            ));
            assert(r.globals_model() =~= Map::<u32, u32>::empty().insert(
                WaylandObject::Display.spec_interface_id(),
                1u32,
            ).insert(WaylandObject::Registry.spec_interface_id(), 2u32));
        }
        r
    }

    /// Whether the bootstrap sync has fired.
    pub fn bootstrap_done(&self) -> (r: bool)
        ensures
            r == self.spec_done(),
    {
        self.done
    }

    /// The last error the display reported, if any: the offending object,
    /// the numeric code, and the diagnostic text.
    pub fn last_display_error(&self) -> (r: &Option<(u32, u32, String)>)
        ensures
            *r == self.spec_last_error(),
    {
        &self.last_error
    }

    /// Hands the queued outgoing messages to the writer, oldest first, and
    /// clears the queue.
    pub fn take_output(&mut self) -> (r: Vec<OutMessage>)
        requires
            old(self).wf(),
        ensures
            final(self).wf(),
            r@ == old(self).out_model(),
            final(self).out_model() == Seq::<OutMessage>::empty(),
            final(self).objects_model() == old(self).objects_model(),
            final(self).last_id() == old(self).last_id(),
            final(self).globals_model() == old(self).globals_model(),
            final(self).spec_done() == old(self).spec_done(),
            final(self).spec_last_error() == old(self).spec_last_error(),
            final(self).recv_model() == old(self).recv_model(),
    {
        let mut taken: Vec<OutMessage> = Vec::new();
        std::mem::swap(&mut taken, &mut self.out);
        taken
    }

    /// The object id bound for an interface's global, while one is bound.
    pub fn get_global(&self, interface: WaylandObject) -> (r: Option<u32>)
        ensures
            r is Some <==> self.globals_model().contains_key(interface.spec_interface_id()),
            r matches Some(id) ==> id == self.globals_model()[interface.spec_interface_id()],
    {
        match self.globals.get(&interface.interface_id()) {
            Some(id) => Some(*id),
            None => None,
        }
    }

    /// The id itself, if the object is live and of the expected interface:
    /// a typed reference check.
    pub fn get_reference(&self, object_id: u32, interface: WaylandObject) -> (r: Option<u32>)
        ensures
            r is Some <==> (self.objects_model().contains_key(object_id) && self.objects_model()
                [object_id].interface == interface),
            r matches Some(id) ==> id == object_id,
    {
        match self.objects.get_object_interface(object_id) {
            Some(found) => {
                if found.interface_id() == interface.interface_id() {
                    proof {
                        crate::objects::lemma_interface_id_injective(
                            self.objects_model()[object_id].interface,
                            interface,
                        );
                    }
                    Some(object_id)
                } else {
                    proof {
                        crate::objects::lemma_interface_id_injective(
                            self.objects_model()[object_id].interface,
                            interface,
                        );
                    }
                    None
                }
            },
            None => None,
        }
    }

    /// The interface recorded for an id, while the id is live.
    pub fn get_object_interface(&self, object_id: u32) -> (r: Option<WaylandObject>)
        ensures
            r is Some <==> self.objects_model().contains_key(object_id),
            r matches Some(i) ==> i == self.objects_model()[object_id].interface,
    {
        self.objects.get_object_interface(object_id)
    }

    /// Allocates a fresh object of the interface with an empty handler slot.
    /// Fails exactly when the id space is exhausted.
    pub fn new_object(&mut self, interface: WaylandObject) -> (r: Option<u32>)
        requires
            old(self).wf(),
        ensures
            final(self).wf(),
            r is Some <==> old(self).spec_can_allocate(),
            r matches Some(id) ==> {
                &&& id == old(self).last_id() + 1
                &&& !old(self).objects_model().contains_key(id)
                &&& final(self).objects_model() == old(self).objects_model().insert(
                    id,
                    WlObjectEntry { interface, handler: None::<Handler<H>> },
                )
                &&& final(self).last_id() == id
            },
            r is None ==> final(self).objects_model() == old(self).objects_model() && final(self).last_id() == old(self).last_id(),
            final(self).globals_model() == old(self).globals_model(),
            final(self).out_model() == old(self).out_model(),
            final(self).spec_done() == old(self).spec_done(),
            final(self).spec_last_error() == old(self).spec_last_error(),
            final(self).recv_model() == old(self).recv_model(),
    {
        self.objects.new_object(interface)
    }

    /// Installs a caller's handler on an object: the object must exist, the
    /// interface must match, and the slot must be free.
    pub fn add_event_handler(&mut self, object_id: u32, interface: WaylandObject, handler: H) -> (r:
        Result<(), Error>)
        requires
            old(self).wf(),
        ensures
            final(self).wf(),
            r is Ok <==> spec_add_allowed(old(self).objects_model(), object_id, interface),
            r is Ok ==> final(self).objects_model() == old(self).objects_model().insert(
                object_id,
                WlObjectEntry { interface, handler: Some(Handler::User(handler)) },
            ),
            r is Err ==> final(self).objects_model() == old(self).objects_model(),
            r matches Err(e) ==> (e is NoSuchObject <==> !old(self).objects_model().contains_key(
                object_id,
            )),
            r matches Err(e) ==> (e is InvalidInterface <==> (old(self).objects_model().contains_key(object_id) && old(self).objects_model()
                [object_id].interface != interface)),
            r matches Err(e) ==> (e is HandlerAlreadlyInPlace <==> (old(self).objects_model().contains_key(object_id) && old(self).objects_model()
                [object_id].interface == interface && old(self).objects_model()
                [object_id].handler is Some)),
            final(self).last_id() == old(self).last_id(),
            final(self).globals_model() == old(self).globals_model(),
            final(self).out_model() == old(self).out_model(),
            final(self).spec_done() == old(self).spec_done(),
            final(self).spec_last_error() == old(self).spec_last_error(),
            final(self).recv_model() == old(self).recv_model(),
    {
        match self.objects.add_handler(object_id, interface, Handler::User(handler)) {
            Ok(()) => Ok(()),
            Err(e) => Err(Error::from_registry(e)),
        }
    }

    /// Clears an object's handler slot.
    pub fn remove_event_handler(&mut self, object_id: u32) -> (r: Result<(), Error>)
        requires
            old(self).wf(),
        ensures
            final(self).wf(),
            r is Ok <==> old(self).objects_model().contains_key(object_id),
            r is Ok ==> final(self).objects_model() == old(self).objects_model().insert(
                object_id,
                WlObjectEntry {
                    interface: old(self).objects_model()[object_id].interface,
                    handler: None::<Handler<H>>,
                },
            ),
            r is Err ==> final(self).objects_model() == old(self).objects_model() && (r matches
            Err(e) && e is NoSuchObject),
            final(self).last_id() == old(self).last_id(),
            final(self).globals_model() == old(self).globals_model(),
            final(self).out_model() == old(self).out_model(),
            final(self).spec_done() == old(self).spec_done(),
            final(self).spec_last_error() == old(self).spec_last_error(),
            final(self).recv_model() == old(self).recv_model(),
    {
        match self.objects.remove_handler(object_id) {
            Ok(()) => Ok(()),
            Err(e) => Err(Error::from_registry(e)),
        }
    }

    /// Offers a handler back to its slot after dispatch.  If the slot was
    /// filled while the handler ran, or the object is gone, the newer state
    /// wins and the offer reports false.
    pub fn restore_handler(&mut self, object_id: u32, interface: WaylandObject, handler: H) -> (r:
        bool)
        requires
            old(self).wf(),
        ensures
            final(self).wf(),
            r <==> spec_add_allowed(old(self).objects_model(), object_id, interface),
            r ==> final(self).objects_model() == old(self).objects_model().insert(
                object_id,
                WlObjectEntry { interface, handler: Some(Handler::User(handler)) },
            ),
            !r ==> final(self).objects_model() == old(self).objects_model(),
            final(self).last_id() == old(self).last_id(),
            final(self).globals_model() == old(self).globals_model(),
            final(self).out_model() == old(self).out_model(),
            final(self).spec_done() == old(self).spec_done(),
            final(self).spec_last_error() == old(self).spec_last_error(),
            final(self).recv_model() == old(self).recv_model(),
    {
        match self.objects.add_handler(object_id, interface, Handler::User(handler)) {
            Ok(()) => true,
            Err(_) => false,
        }
    }

    /// Records a live object as the global for its interface.  The object
    /// must exist, its interface must match, and no global may be bound for
    /// that interface yet.
    pub fn upgrade_to_global(&mut self, object_id: u32, interface: WaylandObject) -> (r: Result<
        (),
        Error,
    >)
        requires
            old(self).wf(),
        ensures
            final(self).wf(),
            r is Ok <==> (old(self).objects_model().contains_key(object_id) && old(self).objects_model()[object_id].interface == interface && !old(self).globals_model().contains_key(interface.spec_interface_id())),
            r is Ok ==> final(self).globals_model() == old(self).globals_model().insert(
                interface.spec_interface_id(),
                object_id,
            ),
            r is Err ==> final(self).globals_model() == old(self).globals_model(),
            r matches Err(e) ==> (e is NoSuchObject <==> !old(self).objects_model().contains_key(
                object_id,
            )),
            r matches Err(e) ==> (e is InvalidInterface <==> (old(self).objects_model().contains_key(object_id) && old(self).objects_model()
                [object_id].interface != interface)),
            r matches Err(e) ==> (e is GlobalAlreadyRegistered <==> (old(self).objects_model().contains_key(object_id) && old(self).objects_model()
                [object_id].interface == interface && old(self).globals_model().contains_key(
                interface.spec_interface_id(),
            ))),
            final(self).objects_model() == old(self).objects_model(),
            final(self).last_id() == old(self).last_id(),
            final(self).out_model() == old(self).out_model(),
            final(self).spec_done() == old(self).spec_done(),
            final(self).spec_last_error() == old(self).spec_last_error(),
            final(self).recv_model() == old(self).recv_model(),
    {
        let recorded = match self.objects.get_object_interface(object_id) {
            Some(i) => i,
            None => {
                return Err(Error::NoSuchObject);
            },
        };
        if recorded.interface_id() != interface.interface_id() {
            proof {
                crate::objects::lemma_interface_id_injective(
                    old(self).objects_model()[object_id].interface,
                    interface,
                );
            }
            return Err(Error::InvalidInterface);
        }
        proof {
            crate::objects::lemma_interface_id_injective(
                old(self).objects_model()[object_id].interface,
                interface,
            );
        }
        if self.globals.contains_key(&interface.interface_id()) {
            return Err(Error::GlobalAlreadyRegistered);
        }
        let _ = self.globals.insert(interface.interface_id(), object_id);
        Ok(())
    }

    /// Frames a request and queues it for the wire.  Fails exactly when the
    /// request cannot be framed: an oversize string or array, more than one
    /// file descriptor, or a frame beyond the 16-bit length field.
    pub fn send_request(&mut self, object_id: u32, request: WaylandRequest) -> (r: Result<
        (),
        Error,
    >)
        requires
            old(self).wf(),
        ensures
            final(self).wf(),
            r is Ok <==> spec_values_fit(request.spec_values()) && spec_fd_count(
                request.spec_values(),
            ) <= 1 && 8 + spec_encode_values(request.spec_values()).len() <= 0xFFFF,
            r is Ok ==> {
                &&& final(self).out_model().len() == old(self).out_model().len() + 1
                &&& final(self).out_model() == old(self).out_model().push(
                    final(self).out_model().last(),
                )
                &&& final(self).out_model().last().bytes@ == spec_message_frame(
                    object_id,
                    request.spec_request_id() as u32,
                    request.spec_values(),
                )
                &&& final(self).out_model().last().fd == spec_fd_of(request.spec_values())
            },
            r is Err ==> final(self).out_model() == old(self).out_model() && (r matches Err(e)
                && e is RequestError),
            final(self).objects_model() == old(self).objects_model(),
            final(self).last_id() == old(self).last_id(),
            final(self).globals_model() == old(self).globals_model(),
            final(self).spec_done() == old(self).spec_done(),
            final(self).spec_last_error() == old(self).spec_last_error(),
            final(self).recv_model() == old(self).recv_model(),
    {
        match make_request(object_id, request) {
            Ok((bytes, fd)) => {
                self.out.push(OutMessage { bytes, fd });
                Ok(())
            },
            Err(e) => Err(Error::RequestError(e)),
        }
    }
}

} // verus!

verus! {

/// The wire values of the create-pool request: the new pool id inline, the
/// descriptor out of band, the size inline.
pub proof fn lemma_pool_values(pool_id: u32, fd: i32, size: i32)
    ensures
        ({
            let vs = WaylandRequest::ShmCreatePool { pool_id, fd, size }.spec_values();
            &&& spec_values_fit(vs)
            &&& spec_fd_count(vs) == 1
            &&& spec_fd_of(vs) == Some(fd)
            &&& spec_encode_values(vs).len() == 8
        }),
{
    lemma_auto_spec_u32_to_from_le_bytes();
    let vs = WaylandRequest::ShmCreatePool { pool_id, fd, size }.spec_values();
    assert(vs.skip(1) =~= seq![WireValue::FileDesc(fd), WireValue::Int32(size)]);
    assert(vs.skip(1).skip(1) =~= seq![WireValue::Int32(size)]);
    assert(vs.skip(1).skip(1).skip(1) =~= Seq::<WireValue>::empty());
    reveal_with_fuel(spec_encode_values, 5);
    reveal_with_fuel(spec_fd_count, 5);
    reveal_with_fuel(spec_fd_of, 5);
    assert forall|i: int| 0 <= i < vs.len() implies spec_value_fits(#[trigger] vs[i]) by {}
}

impl<H> WaylandClient<H> {
    /// Allocates a one-shot callback, queues the sync request on the
    /// display, and completes the bootstrap when its done event arrives.
    /// Returns the callback's id.
    pub fn sync(&mut self) -> (r: Result<u32, Error>)
        requires
            old(self).wf(),
        ensures
            final(self).wf(),
            r is Ok <==> old(self).spec_can_allocate(),
            r matches Ok(cb) ==> {
                &&& cb == old(self).last_id() + 1
                &&& final(self).objects_model() == old(self).objects_model().insert(
                    cb,
                    WlObjectEntry {
                        interface: WaylandObject::CallBack,
                        handler: Some(Handler::Builtin(BuiltinHandler::SyncDone)),
                    },
                )
                &&& final(self).last_id() == cb
                &&& final(self).out_model() == old(self).out_model().push(
                    final(self).out_model().last(),
                )
                &&& final(self).out_model().last().bytes@ == spec_message_frame(
                    1u32,
                    0u32,
                    WaylandRequest::DisplaySync(cb).spec_values(),
                )
                &&& final(self).out_model().last().fd is None
            },
            r is Err ==> (r matches Err(e) && e is IdSpaceExhausted) && final(self).objects_model()
                == old(self).objects_model() && final(self).out_model() == old(self).out_model()
                && final(self).last_id() == old(self).last_id(),
            final(self).globals_model() == old(self).globals_model(),
            final(self).spec_done() == old(self).spec_done(),
            final(self).spec_last_error() == old(self).spec_last_error(),
            final(self).recv_model() == old(self).recv_model(),
    {
        let callback = match self.objects.new_object(WaylandObject::CallBack) {
            Some(id) => id,
            None => {
                return Err(Error::IdSpaceExhausted);
            },
        };
        let install = self.objects.add_handler(
            callback,
            WaylandObject::CallBack,
            Handler::Builtin(BuiltinHandler::SyncDone),
        );
        proof {
            assert(install is Ok);
        }
        let request = WaylandRequest::DisplaySync(callback);
        proof {
            lemma_numeric_values(request.spec_values());
        }
        let (bytes, fd) = match make_request(1u32, request) {
            Ok(m) => m,
            Err(_) => vstd::pervasive::unreached(),
        };
        self.out.push(OutMessage { bytes, fd });
        proof {
            assert(self.objects_model() =~= old(self).objects_model().insert(
                callback,
                WlObjectEntry {
                    interface: WaylandObject::CallBack,
                    handler: Some(Handler::Builtin(BuiltinHandler::SyncDone)),
                },
            ));
        }
        Ok(callback)
    }

    /// Allocates a pool object and queues the create-pool request: the pool
    /// id and size travel inline, the backing file's descriptor out of
    /// band.  The caller keeps the mapping; the descriptor is used exactly
    /// once, on this request.
    pub fn create_pool(&mut self, fd: i32, size: i32) -> (r: Result<u32, Error>)
        requires
            old(self).wf(),
            size > 0,
        ensures
            final(self).wf(),
            r is Ok <==> old(self).globals_model().contains_key(
                WaylandObject::Shm.spec_interface_id(),
            ) && old(self).spec_can_allocate(),
            r matches Ok(pool_id) ==> {
                &&& pool_id == old(self).last_id() + 1
                &&& final(self).objects_model() == old(self).objects_model().insert(
                    pool_id,
                    WlObjectEntry {
                        interface: WaylandObject::ShmPool,
                        handler: None::<Handler<H>>,
                    },
                )
                &&& final(self).last_id() == pool_id
                &&& final(self).out_model() == old(self).out_model().push(
                    final(self).out_model().last(),
                )
                &&& final(self).out_model().last().bytes@ == spec_message_frame(
                    old(self).globals_model()[WaylandObject::Shm.spec_interface_id()],
                    0u32,
                    (WaylandRequest::ShmCreatePool { pool_id, fd, size }).spec_values(),
                )
                &&& final(self).out_model().last().fd == Some(fd)
            },
            r matches Err(e) ==> (e is MissingGlobal <==> !old(self).globals_model().contains_key(
                WaylandObject::Shm.spec_interface_id(),
            )),
            r matches Err(e) ==> (e is IdSpaceExhausted <==> (old(self).globals_model().contains_key(WaylandObject::Shm.spec_interface_id()) && !old(self).spec_can_allocate())),
            r is Err ==> final(self).objects_model() == old(self).objects_model() && final(self).out_model() == old(self).out_model() && final(self).last_id() == old(self).last_id(),
            final(self).globals_model() == old(self).globals_model(),
            final(self).spec_done() == old(self).spec_done(),
            final(self).spec_last_error() == old(self).spec_last_error(),
            final(self).recv_model() == old(self).recv_model(),
    {
        let shm_id = match self.get_global(WaylandObject::Shm) {
            Some(id) => id,
            None => {
                return Err(Error::MissingGlobal(WaylandObject::Shm));
            },
        };
        let pool_id = match self.objects.new_object(WaylandObject::ShmPool) {
            Some(id) => id,
            None => {
                return Err(Error::IdSpaceExhausted);
            },
        };
        let request = WaylandRequest::ShmCreatePool { pool_id, fd, size };
        proof {
            lemma_pool_values(pool_id, fd, size);
        }
        let (bytes, out_fd) = match make_request(shm_id, request) {
            Ok(m) => m,
            Err(_) => vstd::pervasive::unreached(),
        };
        self.out.push(OutMessage { bytes, fd: out_fd });
        Ok(pool_id)
    }

    /// Compacts the read buffer and reports how many bytes the next stream
    /// read may deliver.
    pub fn prepare_read(&mut self) -> (n: usize)
        requires
            old(self).wf(),
        ensures
            final(self).wf(),
            WaylandClient::spec_same_engine(*old(self), *final(self)),
            final(self).recv_model() == old(self).recv_model(),
            n == 0x10010 - old(self).recv_model().len(),
    {
        self.buffer.compact();
        self.buffer.tail_space()
    }

    /// Appends bytes a stream read delivered.  The caller reads at most
    /// what `prepare_read` reported.
    pub fn feed(&mut self, chunk: &[u8])
        requires
            old(self).wf(),
            old(self).recv_model().len() + chunk@.len() <= 0x10010,
        ensures
            final(self).wf(),
            WaylandClient::spec_same_engine(*old(self), *final(self)),
            final(self).recv_model() == old(self).recv_model() + chunk@,
    {
        let space = self.buffer.tail_space();
        if space < chunk.len() {
            self.buffer.compact();
        }
        self.buffer.fill(chunk);
    }

    /// The length field of the frame at the front of the read buffer.
    pub open spec fn spec_frame_len(c: Seq<u8>) -> int {
        (spec_u32_from_le_bytes(c.subrange(4, 8)) >> 16) as int
    }

    /// What taking one frame from a buffer holding `c` returns and leaves:
    /// too few bytes yield nothing, a length field below the header size is
    /// an error, and a complete frame is split into header fields and
    /// payload and consumed whole.
    pub open spec fn spec_next_msg_post(
        c: Seq<u8>,
        rest: Seq<u8>,
        r: Result<Option<RawMessage>, Error>,
    ) -> bool {
        let len = WaylandClient::<H>::spec_frame_len(c);
        &&& ((r matches Ok(m) && m is None) <==> (c.len() < 8 || (c.len() >= 8 && len >= 8
            && c.len() < len)))
        &&& (r is Err <==> (c.len() >= 8 && len < 8))
        &&& (r matches Err(e) ==> (e matches Error::BadFrameLength(l) && l == len))
        &&& ((r matches Ok(m) && m is Some) <==> (c.len() >= 8 && len >= 8 && c.len() >= len))
        &&& (r matches Ok(m) ==> (m matches Some(frame) ==> {
            &&& frame.object_id == spec_u32_from_le_bytes(c.subrange(0, 4))
            &&& frame.event_id == (spec_u32_from_le_bytes(c.subrange(4, 8)) & 0xFFFF) as u16
            &&& frame.payload@ == c.subrange(8, len)
            &&& rest == c.skip(len)
        }))
        &&& ((r matches Ok(m) && m is None) ==> rest == c)
        &&& (r is Err ==> rest == c)
    }

    /// Takes one complete frame off the read buffer, or reports that more
    /// bytes are needed.  A frame whose length field is shorter than its
    /// own header is rejected.
    pub fn next_msg(&mut self) -> (r: Result<Option<RawMessage>, Error>)
        requires
            old(self).wf(),
        ensures
            final(self).wf(),
            WaylandClient::spec_same_engine(*old(self), *final(self)),
            WaylandClient::<H>::spec_next_msg_post(
                old(self).recv_model(),
                final(self).recv_model(),
                r,
            ),
    {
        let ghost c = old(self).recv_model();
        let header_bytes = match self.buffer.peek_bytes(8) {
            Some(b) => b,
            None => {
                return Ok(None);
            },
        };
        proof {
            assert(header_bytes@.subrange(0, 4) =~= c.subrange(0, 4));
            assert(header_bytes@.subrange(4, 8) =~= c.subrange(4, 8));
        }
        let header = crate::wire_format::WireMsgHeader::build(header_bytes.as_slice());
        proof {
            let w = spec_u32_from_le_bytes(c.subrange(4, 8));
            assert(w >> 16 <= 0xFFFF && w & 0xFFFF <= 0xFFFF) by (bit_vector);
        }
        let length: usize = header.length as usize;
        if length < 8 {
            proof {
                assert(c.len() >= 8);
                assert(header.length as int == WaylandClient::<H>::spec_frame_len(c));
                assert(self.buffer.cached() == c);
            }
            return Err(Error::BadFrameLength(header.length));
        }
        let cached = self.buffer.cached_bytes();
        if cached < length {
            return Ok(None);
        }
        let skipped = self.buffer.read_bytes(8);
        proof {
            assert(skipped is Some);
        }
        let payload = match self.buffer.read_bytes(length - 8) {
            Some(p) => p,
            None => vstd::pervasive::unreached(),
        };
        proof {
            assert(payload@ =~= c.subrange(8, length as int));
            assert(self.buffer.cached() =~= c.skip(length as int));
        }
        Ok(Some(RawMessage { object_id: header.object_id, event_id: header.method_id, payload }))
    }
}

} // verus!

use crate::parser::{spec_args_match, MsgArgType, MsgArgValue};
use crate::parsing::{spec_parse_str, spec_parse_u32};
use crate::protocol::{spec_event_args, spec_event_key, spec_event_pattern};
use vstd::utf8::encode_utf8;

verus! {

/// The first word of a payload.
pub open spec fn spec_word0(b: Seq<u8>) -> u32 {
    spec_parse_u32(b)->Some_0.0
}

/// The second word of a payload of plain words.
pub open spec fn spec_word1(b: Seq<u8>) -> u32 {
    spec_parse_u32(spec_parse_u32(b)->Some_0.1)->Some_0.0
}

/// The characters of the string that follows the first two words, as in the
/// display's error event.
pub open spec fn spec_err_message(b: Seq<u8>) -> Seq<char> {
    spec_parse_str(spec_parse_u32(spec_parse_u32(b)->Some_0.1)->Some_0.1)->Some_0.0
}

/// The characters of the interface name in a registry global event: the
/// string that follows the first word.
pub open spec fn spec_global_iface(b: Seq<u8>) -> Seq<char> {
    spec_parse_str(spec_parse_u32(b)->Some_0.1)->Some_0.0
}

/// The version word that closes a registry global event.
pub open spec fn spec_global_version(b: Seq<u8>) -> u32 {
    spec_parse_u32(spec_parse_str(spec_parse_u32(b)->Some_0.1)->Some_0.1)->Some_0.0
}

/// A single-word event carries the payload's first word.
proof fn lemma_fields_u32(payload: Seq<u8>, v: u32)
    requires
        spec_args_match(
            seq![MsgArgType::Uint32],
            payload,
            seq![MsgArgValue::Uint32(v)],
            Seq::<u8>::empty(),
        ),
    ensures
        spec_parse_u32(payload) is Some,
        v == spec_word0(payload),
{
}

/// The display error event's fields are the two leading words and the
/// string after them.
proof fn lemma_fields_error(payload: Seq<u8>, o: u32, c: u32, m: String)
    requires
        spec_args_match(
            seq![MsgArgType::Uint32, MsgArgType::Uint32, MsgArgType::String],
            payload,
            seq![MsgArgValue::Uint32(o), MsgArgValue::Uint32(c), MsgArgValue::String(m)],
            Seq::<u8>::empty(),
        ),
    ensures
        o == spec_word0(payload),
        c == spec_word1(payload),
        m@ == spec_err_message(payload),
{
    reveal_with_fuel(spec_args_match, 5);
    let p = seq![MsgArgType::Uint32, MsgArgType::Uint32, MsgArgType::String];
    let vs = seq![MsgArgValue::Uint32(o), MsgArgValue::Uint32(c), MsgArgValue::String(m)];
    assert(p.skip(1) =~= seq![MsgArgType::Uint32, MsgArgType::String]);
    assert(vs.skip(1) =~= seq![MsgArgValue::Uint32(c), MsgArgValue::String(m)]);
    assert(p.skip(1).skip(1) =~= seq![MsgArgType::String]);
    assert(vs.skip(1).skip(1) =~= seq![MsgArgValue::String(m)]);
}

/// The registry global event's fields are the name word, the interface
/// string, and the version word.
proof fn lemma_fields_global(payload: Seq<u8>, n: u32, s: String, v: u32)
    requires
        spec_args_match(
            seq![MsgArgType::Uint32, MsgArgType::String, MsgArgType::Uint32],
            payload,
            seq![MsgArgValue::Uint32(n), MsgArgValue::String(s), MsgArgValue::Uint32(v)],
            Seq::<u8>::empty(),
        ),
    ensures
        n == spec_word0(payload),
        s@ == spec_global_iface(payload),
        v == spec_global_version(payload),
{
    reveal_with_fuel(spec_args_match, 5);
    let p = seq![MsgArgType::Uint32, MsgArgType::String, MsgArgType::Uint32];
    let vs = seq![MsgArgValue::Uint32(n), MsgArgValue::String(s), MsgArgValue::Uint32(v)];
    assert(p.skip(1) =~= seq![MsgArgType::String, MsgArgType::Uint32]);
    assert(vs.skip(1) =~= seq![MsgArgValue::String(s), MsgArgValue::Uint32(v)]);
    assert(p.skip(1).skip(1) =~= seq![MsgArgType::Uint32]);
    assert(vs.skip(1).skip(1) =~= seq![MsgArgValue::Uint32(v)]);
}

/// The bind request's payload: name word, interface string, version word,
/// and the fresh id.
pub proof fn lemma_bind_values(name: u32, interface: String, version: u32, new_id: u32)
    ensures
        ({
            let vs = (WaylandRequest::RegistryBind {
                name,
                interface,
                version,
                new_id,
            }).spec_values();
            &&& spec_encode_values(vs) == spec_u32_to_le_bytes(name) + spec_encode_str(interface@)
                + spec_u32_to_le_bytes(version) + spec_u32_to_le_bytes(new_id)
            &&& spec_fd_count(vs) == 0
            &&& spec_fd_of(vs) is None
            &&& (spec_values_fit(vs) <==> encode_utf8(interface@).len() + 4 <= 0xFFFF_FFFF)
            &&& spec_encode_values(vs).len() == 12 + spec_encode_str(interface@).len()
        }),
{
    lemma_auto_spec_u32_to_from_le_bytes();
    let vs = (WaylandRequest::RegistryBind { name, interface, version, new_id }).spec_values();
    assert(vs.skip(1) =~= seq![
        WireValue::Str(interface),
        WireValue::Uint32(version),
        WireValue::Uint32(new_id),
    ]);
    assert(vs.skip(1).skip(1) =~= seq![WireValue::Uint32(version), WireValue::Uint32(new_id)]);
    assert(vs.skip(1).skip(1).skip(1) =~= seq![WireValue::Uint32(new_id)]);
    assert(vs.skip(1).skip(1).skip(1).skip(1) =~= Seq::<WireValue>::empty());
    reveal_with_fuel(spec_encode_values, 6);
    reveal_with_fuel(spec_fd_count, 6);
    reveal_with_fuel(spec_fd_of, 6);
    assert(spec_encode_values(vs) =~= spec_u32_to_le_bytes(name) + spec_encode_str(interface@)
        + spec_u32_to_le_bytes(version) + spec_u32_to_le_bytes(new_id));
    if encode_utf8(interface@).len() + 4 <= 0xFFFF_FFFF {
        assert forall|i: int| 0 <= i < vs.len() implies spec_value_fits(#[trigger] vs[i]) by {}
    }
}

/// The handler slot the engine installs on a freshly bound global: the
/// window-system base answers pings, the memory-pool provider's format
/// announcements are consumed, anything else waits for a caller's handler.
pub open spec fn spec_builtin_slot<H>(ob: WaylandObject) -> Option<Handler<H>> {
    if ob == WaylandObject::XdgWmBase {
        Some(Handler::Builtin(BuiltinHandler::Ping))
    } else if ob == WaylandObject::Shm {
        Some(Handler::Builtin(BuiltinHandler::Ignore))
    } else {
        None
    }
}

/// Whether a bind request for this interface name fits one frame.
pub open spec fn spec_bindable(iface: Seq<char>) -> bool {
    encode_utf8(iface).len() + 4 <= 0xFFFF_FFFF && 20 + spec_encode_str(iface).len() <= 0xFFFF
}

/// The frame of a bind request.
pub open spec fn spec_bind_frame(
    registry_id: u32,
    name: u32,
    iface: Seq<char>,
    version: u32,
    new_id: u32,
) -> Seq<u8> {
    spec_frame_with_payload(
        registry_id,
        0,
        spec_u32_to_le_bytes(name) + spec_encode_str(iface) + spec_u32_to_le_bytes(version)
            + spec_u32_to_le_bytes(new_id),
    )
}

/// What dispatch hands back to the surrounding process.
#[derive(Debug)]
pub enum Dispatch<H> {
    /// The engine consumed the event itself.
    Handled,
    /// Run this handler on the message, then offer it back with
    /// `restore_handler`.
    User(H, WaylandEventMessage),
}

} // verus!

verus! {

impl<H> WaylandClient<H> {
    /// What one dispatch does, as a relation between the engine before and
    /// after, the frame, and the outcome.
    pub open spec fn spec_dispatch_post(
        pre: WaylandClient<H>,
        post: WaylandClient<H>,
        msg: RawMessage,
        r: Result<Dispatch<H>, Error>,
    ) -> bool {
        let m = pre.objects_model();
        let id = msg.object_id;
        let eid = msg.event_id;
        let payload = msg.payload@;
        let contains = m.contains_key(id);
        let intf = m[id].interface;
        let parses = spec_msg_parses(intf, eid, payload);
        let slot = m[id].handler;
        &&& ((r matches Err(e) && e is NoSuchObject) <==> !contains)
        &&& ((r matches Err(e) && e is NoSuchObject) ==> WaylandClient::spec_same_engine(
            pre,
            post,
        ))
        &&& ((r matches Err(e) && e is WlProtocolError) <==> (contains && !parses))
        &&& ((r matches Err(e) && e is WlProtocolError) ==> WaylandClient::spec_same_engine(
            pre,
            post,
        ))
        &&& ((r matches Err(e) && e is NoHandler) <==> (contains && parses && slot is None))
        &&& ((r matches Err(e) && e is NoHandler) ==> WaylandClient::spec_same_engine(pre, post))
        &&& (r matches Err(e) ==> (e matches Error::NoHandler { object_id: a, event_id: b } ==> a
            == id && b == eid))
        &&& ((r matches Ok(d) && d is User) <==> (contains && parses && (slot matches Some(h) && h
            is User)))
        &&& (r matches Ok(d) ==> (d matches Dispatch::User(h, em) ==> {
            &&& slot == Some(Handler::User(h))
            &&& em.sender_id == id
            &&& em.sender_obj == intf
            &&& spec_event_key(em.event) == (intf, eid)
            &&& (spec_event_pattern(intf, eid) matches Some(p) && spec_args_match(
                p,
                payload,
                spec_event_args(em.event),
                Seq::<u8>::empty(),
            ))
            &&& post.objects_model() == m.insert(
                id,
                WlObjectEntry { interface: intf, handler: None::<Handler<H>> },
            )
            &&& post.last_id() == pre.last_id()
            &&& post.globals_model() == pre.globals_model()
            &&& post.out_model() == pre.out_model()
            &&& post.spec_done() == pre.spec_done()
            &&& post.spec_last_error() == pre.spec_last_error()
        }))
        &&& ((r matches Ok(d) && d is Handled) <==> (contains && parses && (slot matches Some(h)
            && h is Builtin)))
        &&& ((r matches Ok(d) && d is Handled) ==> WaylandClient::spec_builtin_post(
            pre,
            post,
            msg,
        ))
    }

    /// What the engine's own reaction does for each built-in handler kind.
    pub open spec fn spec_builtin_post(
        pre: WaylandClient<H>,
        post: WaylandClient<H>,
        msg: RawMessage,
    ) -> bool {
        let m = pre.objects_model();
        let id = msg.object_id;
        let eid = msg.event_id;
        let payload = msg.payload@;
        let intf = m[id].interface;
        let kind = m[id].handler->Some_0->Builtin_0;
        let is_delete = kind == BuiltinHandler::Display && intf == WaylandObject::Display && eid
            == 1;
        let is_error = kind == BuiltinHandler::Display && intf == WaylandObject::Display && eid
            == 0;
        let is_global = kind == BuiltinHandler::Registry && intf == WaylandObject::Registry && eid
            == 0;
        let is_ping = kind == BuiltinHandler::Ping && intf == WaylandObject::XdgWmBase && eid
            == 0;
        let is_done = kind == BuiltinHandler::SyncDone && intf == WaylandObject::CallBack && eid
            == 0;
        &&& (is_delete ==> {
            &&& post.objects_model() == m.remove(spec_word0(payload))
            &&& post.last_id() == pre.last_id()
            &&& post.globals_model() == pre.globals_model()
            &&& post.out_model() == pre.out_model()
            &&& post.spec_done() == pre.spec_done()
            &&& post.spec_last_error() == pre.spec_last_error()
        })
        &&& (is_error ==> {
            &&& post.objects_model() == m
            &&& post.last_id() == pre.last_id()
            &&& post.globals_model() == pre.globals_model()
            &&& post.out_model() == pre.out_model()
            &&& post.spec_done() == pre.spec_done()
            &&& (post.spec_last_error() matches Some((a, b, t)) && a == spec_word0(payload) && b
                == spec_word1(payload) && t@ == spec_err_message(payload))
        })
        &&& (is_ping ==> {
            &&& post.objects_model() == m
            &&& post.last_id() == pre.last_id()
            &&& post.globals_model() == pre.globals_model()
            &&& post.out_model() == pre.out_model().push(post.out_model().last())
            &&& post.out_model().last().bytes@ == spec_frame_with_payload(
                id,
                3,
                spec_u32_to_le_bytes(spec_word0(payload)),
            )
            &&& post.out_model().last().fd is None
            &&& post.spec_done() == pre.spec_done()
            &&& post.spec_last_error() == pre.spec_last_error()
        })
        &&& (is_done ==> {
            &&& post.objects_model() == m
            &&& post.last_id() == pre.last_id()
            &&& post.globals_model() == pre.globals_model()
            &&& post.out_model() == pre.out_model()
            &&& post.spec_done()
            &&& post.spec_last_error() == pre.spec_last_error()
        })
        &&& (is_global ==> WaylandClient::spec_global_post(pre, post, msg))
        &&& (!(is_delete || is_error || is_global || is_ping || is_done)
            ==> WaylandClient::spec_same_engine(pre, post))
    }

    /// What binding an advertised global does: a recognised, not yet bound
    /// interface is allocated a fresh object, recorded as the global, given
    /// the engine's handler for its kind, and bound on the wire.
    pub open spec fn spec_global_post(
        pre: WaylandClient<H>,
        post: WaylandClient<H>,
        msg: RawMessage,
    ) -> bool {
        let m = pre.objects_model();
        let id = msg.object_id;
        let payload = msg.payload@;
        let iface = spec_global_iface(payload);
        let g = WaylandObject::spec_from_interface(iface);
        &&& (g is None ==> WaylandClient::spec_same_engine(pre, post))
        &&& (g matches Some(ob) ==> {
            let tag = ob.spec_interface_id();
            &&& (pre.globals_model().contains_key(tag) ==> WaylandClient::spec_same_engine(
                pre,
                post,
            ))
            &&& (!pre.globals_model().contains_key(tag) && !pre.spec_can_allocate()
                ==> WaylandClient::spec_same_engine(pre, post))
            &&& (!pre.globals_model().contains_key(tag) && pre.spec_can_allocate() ==> {
                let nid = (pre.last_id() + 1) as u32;
                &&& post.objects_model() == m.insert(
                    nid,
                    WlObjectEntry { interface: ob, handler: spec_builtin_slot::<H>(ob) },
                )
                &&& post.last_id() == nid
                &&& post.globals_model() == pre.globals_model().insert(tag, nid)
                &&& (spec_bindable(iface) ==> post.out_model() == pre.out_model().push(
                    post.out_model().last(),
                ) && post.out_model().last().bytes@ == spec_bind_frame(
                    id,
                    spec_word0(payload),
                    iface,
                    spec_global_version(payload),
                    nid,
                ) && post.out_model().last().fd is None)
                &&& (!spec_bindable(iface) ==> post.out_model() == pre.out_model())
                &&& post.spec_done() == pre.spec_done()
                &&& post.spec_last_error() == pre.spec_last_error()
            })
        })
    }

    /// Dispatches one frame: resolves the object, parses the typed event,
    /// takes the handler out of the slot, and either runs the engine's own
    /// reaction or hands the caller's handler back to be run.  A frame for
    /// an unknown object, an unparseable frame, and a frame for an object
    /// without a handler are errors that leave the engine unchanged, so the
    /// loop drops the frame and goes on.
    #[verifier::rlimit(100)]
    #[verifier::spinoff_prover]
    pub fn dispatch(&mut self, msg: RawMessage) -> (r: Result<Dispatch<H>, Error>)
        requires
            old(self).wf(),
        ensures
            final(self).wf(),
            final(self).recv_model() == old(self).recv_model(),
            WaylandClient::spec_dispatch_post(*old(self), *final(self), msg, r),
    {
        let object_id = msg.object_id;
        let event_id = msg.event_id;
        let interface = match self.objects.get_object_interface(object_id) {
            Some(i) => i,
            None => {
                return Err(Error::NoSuchObject);
            },
        };
        let ghost payload = msg.payload@;
        let parsed = match parse_msg(msg, interface) {
            Ok(m) => m,
            Err(e) => {
                return Err(Error::WlProtocolError(e));
            },
        };
        let (_, slot) = match self.objects.checkout(object_id) {
            Some(x) => x,
            None => vstd::pervasive::unreached(),
        };
        let handler = match slot {
            Some(h) => h,
            None => {
                proof {
                    assert(self.objects_model() =~= old(self).objects_model());
                }
                return Err(Error::NoHandler { object_id, event_id });
            },
        };
        match handler {
            Handler::User(h) => Ok(Dispatch::User(h, parsed)),
            Handler::Builtin(kind) => {
                let ghost pre = *old(self);
                let ghost m = pre.objects_model();
                let ghost entry0 = WlObjectEntry::<Handler<H>> {
                    interface,
                    handler: Some(Handler::Builtin(kind)),
                };
                let ghost cleared = WlObjectEntry::<Handler<H>> {
                    interface,
                    handler: None::<Handler<H>>,
                };
                match (kind, parsed.event) {
                    (BuiltinHandler::Display, WaylandEvent::DisplayError {
                        object_id: culprit,
                        code,
                        message,
                    }) => {
                        let ghost msnap = message;
                        proof {
                            lemma_fields_error(payload, culprit, code, msnap);
                        }
                        self.last_error = Some((culprit, code, message));
                        let rr = self.objects.add_handler(
                            object_id,
                            interface,
                            Handler::Builtin(kind),
                        );
                        proof {
                            assert(rr is Ok);
                            assert(self.objects_model() =~= m);
                            assert(WaylandClient::spec_builtin_post(pre, *self, msg));
                        }
                    },
                    (BuiltinHandler::Display, WaylandEvent::DisplayDelete(deleted)) => {
                        proof {
                            lemma_fields_u32(payload, deleted);
                        }
                        self.objects.remove_object(deleted);
                        let rr = self.objects.add_handler(
                            object_id,
                            interface,
                            Handler::Builtin(kind),
                        );
                        proof {
                            if deleted == object_id {
                                assert(rr is Err);
                                assert(self.objects_model() =~= m.remove(deleted));
                            } else {
                                assert(rr is Ok);
                                assert(self.objects_model() =~= m.remove(deleted));
                            }
                            assert(WaylandClient::spec_builtin_post(pre, *self, msg));
                        }
                    },
                    (BuiltinHandler::Registry, WaylandEvent::RegistryGlobal {
                        name,
                        interface: iface,
                        version,
                    }) => {
                        let ghost ifsnap = iface;
                        proof {
                            lemma_fields_global(payload, name, ifsnap, version);
                        }
                        match WaylandObject::from_interface(&iface) {
                            None => {},
                            Some(ob) => {
                                if !self.globals.contains_key(&ob.interface_id()) {
                                    match self.objects.new_object(ob) {
                                        None => {},
                                        Some(nid) => {
                                            match ob {
                                                WaylandObject::XdgWmBase => {
                                                    let ar = self.objects.add_handler(
                                                        nid,
                                                        ob,
                                                        Handler::Builtin(BuiltinHandler::Ping),
                                                    );
                                                    proof {
                                                        assert(ar is Ok);
                                                    }
                                                },
                                                WaylandObject::Shm => {
                                                    let ar = self.objects.add_handler(
                                                        nid,
                                                        ob,
                                                        Handler::Builtin(BuiltinHandler::Ignore),
                                                    );
                                                    proof {
                                                        assert(ar is Ok);
                                                    }
                                                },
                                                _ => {},
                                            }
                                            let _ = self.globals.insert(ob.interface_id(), nid);
                                            proof {
                                                lemma_bind_values(name, ifsnap, version, nid);
                                            }
                                            let _ = self.send_request(
                                                object_id,
                                                WaylandRequest::RegistryBind {
                                                    name,
                                                    interface: iface,
                                                    version,
                                                    new_id: nid,
                                                },
                                            );
                                            proof {
                                                assert(self.globals_model()
                                                    =~= pre.globals_model().insert(
                                                    ob.spec_interface_id(),
                                                    nid,
                                                ));
                                            }
                                        },
                                    }
                                }
                            },
                        }
                        let rr = self.objects.add_handler(
                            object_id,
                            interface,
                            Handler::Builtin(kind),
                        );
                        proof {
                            assert(rr is Ok);
                            let g = WaylandObject::spec_from_interface(spec_global_iface(payload));
                            if g is Some {
                                let ob = g->Some_0;
                                let tag = ob.spec_interface_id();
                                if !pre.globals_model().contains_key(tag)
                                    && pre.spec_can_allocate() {
                                    let nid = (pre.last_id() + 1) as u32;
                                    assert(self.objects_model() =~= m.insert(
                                        nid,
                                        WlObjectEntry {
                                            interface: ob,
                                            handler: spec_builtin_slot::<H>(ob),
                                        },
                                    ));
                                } else {
                                    assert(self.objects_model() =~= m);
                                    assert(self.globals_model() =~= pre.globals_model());
                                }
                            } else {
                                assert(self.objects_model() =~= m);
                                assert(self.globals_model() =~= pre.globals_model());
                            }
                            assert(WaylandClient::spec_builtin_post(pre, *self, msg));
                        }
                    },
                    (BuiltinHandler::Ping, WaylandEvent::XdgWmBasePing { serial }) => {
                        proof {
                            lemma_fields_u32(payload, serial);
                            lemma_numeric_values(
                                (WaylandRequest::XdgWmPong(serial)).spec_values(),
                            );
                        }
                        let sres = self.send_request(object_id, WaylandRequest::XdgWmPong(serial));
                        let rr = self.objects.add_handler(
                            object_id,
                            interface,
                            Handler::Builtin(kind),
                        );
                        proof {
                            assert(sres is Ok);
                            assert(rr is Ok);
                            let vs = (WaylandRequest::XdgWmPong(serial)).spec_values();
                            assert(vs.skip(1) =~= Seq::<WireValue>::empty());
                            reveal_with_fuel(spec_encode_values, 2);
                            assert(spec_encode_values(vs) =~= spec_u32_to_le_bytes(serial));
                            assert(self.objects_model() =~= m);
                            assert(WaylandClient::spec_builtin_post(pre, *self, msg));
                        }
                    },
                    (BuiltinHandler::SyncDone, WaylandEvent::CallBackDone(_)) => {
                        self.done = true;
                        let rr = self.objects.add_handler(
                            object_id,
                            interface,
                            Handler::Builtin(kind),
                        );
                        proof {
                            assert(rr is Ok);
                            assert(self.objects_model() =~= m);
                            assert(WaylandClient::spec_builtin_post(pre, *self, msg));
                        }
                    },
                    (_, _) => {
                        let rr = self.objects.add_handler(
                            object_id,
                            interface,
                            Handler::Builtin(kind),
                        );
                        proof {
                            assert(rr is Ok);
                            assert(self.objects_model() =~= m);
                            assert(WaylandClient::spec_builtin_post(pre, *self, msg));
                        }
                    },
                }
                Ok(Dispatch::Handled)
            },
        }
    }
}

} // verus!
