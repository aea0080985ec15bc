//! The protocol schema: every interface, its requests with their wire
//! layout, and its events with their typed decoding.
//!
//! Request opcodes equal the position of the request in its interface's
//! declaration; event opcodes likewise.

use crate::parser::{spec_args_match, spec_encode_args, MsgArgType, MsgArgValue};
use crate::parsing::{
    parse_i32, parse_str, parse_u32, parse_u32_array, spec_parse_str, spec_parse_u32,
    spec_parse_u32_array, PayloadReader,
};
use crate::wire_format::{u32_of_i32, WireValue};
use vstd::prelude::*;

verus! {

/// Every interface the client knows, by its stable tag.
#[derive(Clone, Copy, Debug, PartialEq, Eq, Hash, Structural)]
pub enum WaylandObject {
    Display,
    Registry,
    CallBack,
    Compositor,
    Surface,
    Region,
    Shm,
    ShmPool,
    Buffer,
    XdgWmBase,
    XdgSurface,
    XdgTopLevel,
    XdgPositioner,
    XdgPopUp,
}

impl WaylandObject {
    /// The stable numeric tag of the interface.
    pub fn interface_id(self) -> (r: u32)
        ensures
            r == self.spec_interface_id(),
    {
        match self {
            WaylandObject::Display => 1,
            WaylandObject::Registry => 2,
            WaylandObject::CallBack => 3,
            WaylandObject::Compositor => 4,
            WaylandObject::Surface => 5,
            WaylandObject::Region => 6,
            WaylandObject::Shm => 7,
            WaylandObject::ShmPool => 8,
            WaylandObject::Buffer => 9,
            WaylandObject::XdgWmBase => 10,
            WaylandObject::XdgSurface => 11,
            WaylandObject::XdgTopLevel => 12,
            WaylandObject::XdgPositioner => 13,
            WaylandObject::XdgPopUp => 14,
        }
    }

    pub open spec fn spec_interface_id(self) -> u32 {
        match self {
            WaylandObject::Display => 1,
            WaylandObject::Registry => 2,
            WaylandObject::CallBack => 3,
            WaylandObject::Compositor => 4,
            WaylandObject::Surface => 5,
            WaylandObject::Region => 6,
            WaylandObject::Shm => 7,
            WaylandObject::ShmPool => 8,
            WaylandObject::Buffer => 9,
            WaylandObject::XdgWmBase => 10,
            WaylandObject::XdgSurface => 11,
            WaylandObject::XdgTopLevel => 12,
            WaylandObject::XdgPositioner => 13,
            WaylandObject::XdgPopUp => 14,
        }
    }

    /// The interface's display name, as used in traces.
    pub fn display_name(self) -> &'static str {
        match self {
            WaylandObject::Display => "wl_display",
            WaylandObject::Registry => "wl_registry",
            WaylandObject::CallBack => "wl_callback",
            WaylandObject::Compositor => "wl_compositor",
            WaylandObject::Surface => "wl_surface",
            WaylandObject::Region => "wl_region",
            WaylandObject::Shm => "wl_shm",
            WaylandObject::ShmPool => "wl_shm_pool",
            WaylandObject::Buffer => "wl_buffer",
            WaylandObject::XdgWmBase => "xdg_wm_base",
            WaylandObject::XdgSurface => "xdg_surface",
            WaylandObject::XdgTopLevel => "xdg_toplevel",
            WaylandObject::XdgPositioner => "xdg_positioner",
            WaylandObject::XdgPopUp => "xdg_popup",
        }
    }

    /// The interfaces the bootstrap recognises among advertised globals.
    pub open spec fn spec_from_interface(name: Seq<char>) -> Option<WaylandObject> {
        if name == "wl_compositor"@ {
            Some(WaylandObject::Compositor)
        } else if name == "xdg_wm_base"@ {
            Some(WaylandObject::XdgWmBase)
        } else if name == "wl_shm"@ {
            Some(WaylandObject::Shm)
        } else {
            None
        }
    }

    /// Maps an advertised interface name to the interface the client binds.
    pub fn from_interface(interface: &str) -> (r: Option<WaylandObject>)
        ensures
            r == WaylandObject::spec_from_interface(interface@),
    {
        let owned = interface.to_owned();
        if owned == "wl_compositor".to_owned() {
            Some(WaylandObject::Compositor)
        } else if owned == "xdg_wm_base".to_owned() {
            Some(WaylandObject::XdgWmBase)
        } else if owned == "wl_shm".to_owned() {
            Some(WaylandObject::Shm)
        } else {
            None
        }
    }
}

/// The two pixel formats every server must support.
#[derive(Clone, Copy, Debug, PartialEq, Eq, Structural)]
pub enum ShmPixelFormat {
    Argb,
    Xrgb,
}

impl ShmPixelFormat {
    /// The numeric format code on the wire.
    pub fn format_code(self) -> (r: u32)
        ensures
            r == self.spec_format_code(),
    {
        match self {
            ShmPixelFormat::Argb => 0,
            ShmPixelFormat::Xrgb => 1,
        }
    }

    pub open spec fn spec_format_code(self) -> u32 {
        match self {
            ShmPixelFormat::Argb => 0,
            ShmPixelFormat::Xrgb => 1,
        }
    }

    /// The format for a code the server announced; codes other than the two
    /// mandatory ones are kept numeric by the caller.
    pub fn from_code(code: u32) -> (r: Option<ShmPixelFormat>)
        ensures
            r == Some(ShmPixelFormat::Argb) <==> code == 0,
            r == Some(ShmPixelFormat::Xrgb) <==> code == 1,
            r is None <==> code > 1,
    {
        match code {
            0 => Some(ShmPixelFormat::Argb),
            1 => Some(ShmPixelFormat::Xrgb),
            _ => None,
        }
    }
}

/// Every request the client can issue, with its arguments.
#[derive(Debug, PartialEq, Eq)]
pub enum WaylandRequest {
    DisplaySync(u32),
    DisplayGetRegistry(u32),
    RegistryBind { name: u32, interface: String, version: u32, new_id: u32 },
    CompositorCreateSurface(u32),
    SurfaceDestroy,
    SurfaceAttach { buffer: u32, x: i32, y: i32 },
    SurfaceDamage { x: i32, y: i32, width: i32, height: i32 },
    SurfaceFrame(u32),
    SurfaceSetOpaqueRegion(u32),
    SurfaceSetInputRegion(u32),
    SurfaceCommit,
    SurfaceSetBufferTransform(i32),
    SurfaceSetBufferScale(i32),
    SurfaceDamageBuffer { x: i32, y: i32, width: i32, height: i32 },
    ShmCreatePool { pool_id: u32, fd: i32, size: i32 },
    ShmPoolCreateBuffer {
        buffer_id: u32,
        offset: i32,
        width: i32,
        height: i32,
        stride: i32,
        pixel_format: ShmPixelFormat,
    },
    ShmPoolDestroy,
    ShmPoolResize(i32),
    BufferDestroy,
    XdgWmDestroy,
    XdgWmCreatePositioner(u32),
    XdgWmGetSurface { new_id: u32, surface: u32 },
    XdgWmPong(u32),
    XdgSurfaceDestroy,
    XdgSurfaceGetToplevel(u32),
    XdgSurfaceGetPopup { popup: u32, parent: u32, positioner: u32 },
    XdgSurfaceSetWindowGeometry { x: i32, y: i32, width: i32, height: i32 },
    XdgSurfaceAckConfigure(u32),
    XdgTopLevelDestroy,
    XdgTopLevelSetParent(u32),
    XdgTopLevelSetTitle(String),
    XdgTopLevelSetAppId(String),
}

impl WaylandRequest {
    /// The interface the request belongs to.
    pub open spec fn spec_object(self) -> WaylandObject {
        match self {
            WaylandRequest::DisplaySync(..) => WaylandObject::Display,
            WaylandRequest::DisplayGetRegistry(..) => WaylandObject::Display,
            WaylandRequest::RegistryBind { .. } => WaylandObject::Registry,
            WaylandRequest::CompositorCreateSurface(..) => WaylandObject::Compositor,
            WaylandRequest::SurfaceDestroy => WaylandObject::Surface,
            WaylandRequest::SurfaceAttach { .. } => WaylandObject::Surface,
            WaylandRequest::SurfaceDamage { .. } => WaylandObject::Surface,
            WaylandRequest::SurfaceFrame(..) => WaylandObject::Surface,
            WaylandRequest::SurfaceSetOpaqueRegion(..) => WaylandObject::Surface,
            WaylandRequest::SurfaceSetInputRegion(..) => WaylandObject::Surface,
            WaylandRequest::SurfaceCommit => WaylandObject::Surface,
            WaylandRequest::SurfaceSetBufferTransform(..) => WaylandObject::Surface,
            WaylandRequest::SurfaceSetBufferScale(..) => WaylandObject::Surface,
            WaylandRequest::SurfaceDamageBuffer { .. } => WaylandObject::Surface,
            WaylandRequest::ShmCreatePool { .. } => WaylandObject::Shm,
            WaylandRequest::ShmPoolCreateBuffer { .. } => WaylandObject::ShmPool,
            WaylandRequest::ShmPoolDestroy => WaylandObject::ShmPool,
            WaylandRequest::ShmPoolResize(..) => WaylandObject::ShmPool,
            WaylandRequest::BufferDestroy => WaylandObject::Buffer,
            WaylandRequest::XdgWmDestroy => WaylandObject::XdgWmBase,
            WaylandRequest::XdgWmCreatePositioner(..) => WaylandObject::XdgWmBase,
            WaylandRequest::XdgWmGetSurface { .. } => WaylandObject::XdgWmBase,
            WaylandRequest::XdgWmPong(..) => WaylandObject::XdgWmBase,
            WaylandRequest::XdgSurfaceDestroy => WaylandObject::XdgSurface,
            WaylandRequest::XdgSurfaceGetToplevel(..) => WaylandObject::XdgSurface,
            WaylandRequest::XdgSurfaceGetPopup { .. } => WaylandObject::XdgSurface,
            WaylandRequest::XdgSurfaceSetWindowGeometry { .. } => WaylandObject::XdgSurface,
            WaylandRequest::XdgSurfaceAckConfigure(..) => WaylandObject::XdgSurface,
            WaylandRequest::XdgTopLevelDestroy => WaylandObject::XdgTopLevel,
            WaylandRequest::XdgTopLevelSetParent(..) => WaylandObject::XdgTopLevel,
            WaylandRequest::XdgTopLevelSetTitle(..) => WaylandObject::XdgTopLevel,
            WaylandRequest::XdgTopLevelSetAppId(..) => WaylandObject::XdgTopLevel,
        }
    }

    /// The request's opcode: its position in its interface's declaration.
    pub open spec fn spec_request_id(self) -> u16 {
        match self {
            WaylandRequest::DisplaySync(..) => 0,
            WaylandRequest::DisplayGetRegistry(..) => 1,
            WaylandRequest::RegistryBind { .. } => 0,
            WaylandRequest::CompositorCreateSurface(..) => 0,
            WaylandRequest::SurfaceDestroy => 0,
            WaylandRequest::SurfaceAttach { .. } => 1,
            WaylandRequest::SurfaceDamage { .. } => 2,
            WaylandRequest::SurfaceFrame(..) => 3,
            WaylandRequest::SurfaceSetOpaqueRegion(..) => 4,
            WaylandRequest::SurfaceSetInputRegion(..) => 5,
            WaylandRequest::SurfaceCommit => 6,
            WaylandRequest::SurfaceSetBufferTransform(..) => 7,
            WaylandRequest::SurfaceSetBufferScale(..) => 8,
            WaylandRequest::SurfaceDamageBuffer { .. } => 9,
            WaylandRequest::ShmCreatePool { .. } => 0,
            WaylandRequest::ShmPoolCreateBuffer { .. } => 0,
            WaylandRequest::ShmPoolDestroy => 1,
            WaylandRequest::ShmPoolResize(..) => 2,
            WaylandRequest::BufferDestroy => 0,
            WaylandRequest::XdgWmDestroy => 0,
            WaylandRequest::XdgWmCreatePositioner(..) => 1,
            WaylandRequest::XdgWmGetSurface { .. } => 2,
            WaylandRequest::XdgWmPong(..) => 3,
            WaylandRequest::XdgSurfaceDestroy => 0,
            WaylandRequest::XdgSurfaceGetToplevel(..) => 1,
            WaylandRequest::XdgSurfaceGetPopup { .. } => 2,
            WaylandRequest::XdgSurfaceSetWindowGeometry { .. } => 3,
            WaylandRequest::XdgSurfaceAckConfigure(..) => 4,
            WaylandRequest::XdgTopLevelDestroy => 0,
            WaylandRequest::XdgTopLevelSetParent(..) => 1,
            WaylandRequest::XdgTopLevelSetTitle(..) => 2,
            WaylandRequest::XdgTopLevelSetAppId(..) => 3,
        }
    }

    /// The request's opcode, executable form.
    pub fn request_id(&self) -> (r: u16)
        ensures
            r == self.spec_request_id(),
    {
        match self {
            WaylandRequest::DisplaySync(..) => 0,
            WaylandRequest::DisplayGetRegistry(..) => 1,
            WaylandRequest::RegistryBind { .. } => 0,
            WaylandRequest::CompositorCreateSurface(..) => 0,
            WaylandRequest::SurfaceDestroy => 0,
            WaylandRequest::SurfaceAttach { .. } => 1,
            WaylandRequest::SurfaceDamage { .. } => 2,
            WaylandRequest::SurfaceFrame(..) => 3,
            WaylandRequest::SurfaceSetOpaqueRegion(..) => 4,
            WaylandRequest::SurfaceSetInputRegion(..) => 5,
            WaylandRequest::SurfaceCommit => 6,
            WaylandRequest::SurfaceSetBufferTransform(..) => 7,
            WaylandRequest::SurfaceSetBufferScale(..) => 8,
            WaylandRequest::SurfaceDamageBuffer { .. } => 9,
            WaylandRequest::ShmCreatePool { .. } => 0,
            WaylandRequest::ShmPoolCreateBuffer { .. } => 0,
            WaylandRequest::ShmPoolDestroy => 1,
            WaylandRequest::ShmPoolResize(..) => 2,
            WaylandRequest::BufferDestroy => 0,
            WaylandRequest::XdgWmDestroy => 0,
            WaylandRequest::XdgWmCreatePositioner(..) => 1,
            WaylandRequest::XdgWmGetSurface { .. } => 2,
            WaylandRequest::XdgWmPong(..) => 3,
            WaylandRequest::XdgSurfaceDestroy => 0,
            WaylandRequest::XdgSurfaceGetToplevel(..) => 1,
            WaylandRequest::XdgSurfaceGetPopup { .. } => 2,
            WaylandRequest::XdgSurfaceSetWindowGeometry { .. } => 3,
            WaylandRequest::XdgSurfaceAckConfigure(..) => 4,
            WaylandRequest::XdgTopLevelDestroy => 0,
            WaylandRequest::XdgTopLevelSetParent(..) => 1,
            WaylandRequest::XdgTopLevelSetTitle(..) => 2,
            WaylandRequest::XdgTopLevelSetAppId(..) => 3,
        }
    }

    /// The wire values of the request's arguments, in declaration order.
    pub open spec fn spec_values(self) -> Seq<WireValue> {
        match self {
            WaylandRequest::DisplaySync(cb) => seq![WireValue::Uint32(cb)],
            WaylandRequest::DisplayGetRegistry(id) => seq![WireValue::Uint32(id)],
            WaylandRequest::RegistryBind { name, interface, version, new_id } => seq![
                WireValue::Uint32(name),
                WireValue::Str(interface),
                WireValue::Uint32(version),
                WireValue::Uint32(new_id),
            ],
            WaylandRequest::CompositorCreateSurface(id) => seq![WireValue::Uint32(id)],
            WaylandRequest::SurfaceDestroy => seq![],
            WaylandRequest::SurfaceAttach { buffer, x, y } => seq![
                WireValue::Uint32(buffer),
                WireValue::Int32(x),
                WireValue::Int32(y),
            ],
            WaylandRequest::SurfaceDamage { x, y, width, height } => seq![
                WireValue::Int32(x),
                WireValue::Int32(y),
                WireValue::Int32(width),
                WireValue::Int32(height),
            ],
            WaylandRequest::SurfaceFrame(cb) => seq![WireValue::Uint32(cb)],
            WaylandRequest::SurfaceSetOpaqueRegion(r) => seq![WireValue::Uint32(r)],
            WaylandRequest::SurfaceSetInputRegion(r) => seq![WireValue::Uint32(r)],
            WaylandRequest::SurfaceCommit => seq![],
            WaylandRequest::SurfaceSetBufferTransform(t) => seq![WireValue::Int32(t)],
            WaylandRequest::SurfaceSetBufferScale(s) => seq![WireValue::Int32(s)],
            WaylandRequest::SurfaceDamageBuffer { x, y, width, height } => seq![
                WireValue::Int32(x),
                WireValue::Int32(y),
                WireValue::Int32(width),
                WireValue::Int32(height),
            ],
            WaylandRequest::ShmCreatePool { pool_id, fd, size } => seq![
                WireValue::Uint32(pool_id),
                WireValue::FileDesc(fd),
                WireValue::Int32(size),
            ],
            WaylandRequest::ShmPoolCreateBuffer {
                buffer_id,
                offset,
                width,
                height,
                stride,
                pixel_format,
            } => seq![
                WireValue::Uint32(buffer_id),
                WireValue::Int32(offset),
                WireValue::Int32(width),
                WireValue::Int32(height),
                WireValue::Int32(stride),
                WireValue::Uint32(pixel_format.spec_format_code()),
            ],
            WaylandRequest::ShmPoolDestroy => seq![],
            WaylandRequest::ShmPoolResize(size) => seq![WireValue::Int32(size)],
            WaylandRequest::BufferDestroy => seq![],
            WaylandRequest::XdgWmDestroy => seq![],
            WaylandRequest::XdgWmCreatePositioner(id) => seq![WireValue::Uint32(id)],
            WaylandRequest::XdgWmGetSurface { new_id, surface } => seq![
                WireValue::Uint32(new_id),
                WireValue::Uint32(surface),
            ],
            WaylandRequest::XdgWmPong(serial) => seq![WireValue::Uint32(serial)],
            WaylandRequest::XdgSurfaceDestroy => seq![],
            WaylandRequest::XdgSurfaceGetToplevel(id) => seq![WireValue::Uint32(id)],
            WaylandRequest::XdgSurfaceGetPopup { popup, parent, positioner } => seq![
                WireValue::Uint32(popup),
                WireValue::Uint32(parent),
                WireValue::Uint32(positioner),
            ],
            WaylandRequest::XdgSurfaceSetWindowGeometry { x, y, width, height } => seq![
                WireValue::Int32(x),
                WireValue::Int32(y),
                WireValue::Int32(width),
                WireValue::Int32(height),
            ],
            WaylandRequest::XdgSurfaceAckConfigure(serial) => seq![WireValue::Uint32(serial)],
            WaylandRequest::XdgTopLevelDestroy => seq![],
            WaylandRequest::XdgTopLevelSetParent(id) => seq![WireValue::Uint32(id)],
            WaylandRequest::XdgTopLevelSetTitle(title) => seq![WireValue::Str(title)],
            WaylandRequest::XdgTopLevelSetAppId(app_id) => seq![WireValue::Str(app_id)],
        }
    }
}

} // verus!

use crate::parser::{spec_parse_args, Parser};
use crate::parsing;

verus! {

/// Every event the server can send, one variant per interface and opcode.
#[derive(Debug, PartialEq, Eq)]
pub enum WaylandEvent {
    DisplayError { object_id: u32, code: u32, message: String },
    DisplayDelete(u32),
    RegistryGlobal { name: u32, interface: String, version: u32 },
    CallBackDone(u32),
    ShmFormat(u32),
    SurfaceEnter { output_id: u32 },
    SurfaceLeave { output_id: u32 },
    SurfacePreferredBufferScale { factor: i32 },
    SurfacePreferredBufferTransform { output_transform: u32 },
    BufferRelease,
    XdgWmBasePing { serial: u32 },
    XdgSurfaceConfigure { serial_nr: u32 },
    XdgTopLevelConfigure { height: i32, width: i32, states: Vec<u32> },
    XdgTopLevelClose,
    XdgTopLevelConfigureBounds { width: i32, height: i32 },
    XdgTopLevelWmCapabilities { capabilities: Vec<u32> },
}

/// Why a frame could not be turned into a typed event.
#[derive(Debug)]
pub enum Error {
    /// The interface declares no event with this opcode.
    NoEvent(u16),
    /// The payload held more bytes than the event's arguments consume.
    UnexpectedExtraBytes { object_id: u32, event_id: u16, extra_bytes: usize },
    /// A declared argument failed to parse.
    ParsingError(parsing::Error),
}

/// One frame as read off the wire, before typing.
#[derive(Debug)]
pub struct RawMessage {
    pub object_id: u32,
    pub event_id: u16,
    pub payload: Vec<u8>,
}

/// A typed event together with the object it addresses.
#[derive(Debug)]
pub struct WaylandEventMessage {
    pub sender_id: u32,
    pub sender_obj: WaylandObject,
    pub event: WaylandEvent,
}

/// The declared argument pattern of the event with this opcode, if the
/// interface has one.
pub open spec fn spec_event_pattern(obj: WaylandObject, event_id: u16) -> Option<Seq<MsgArgType>> {
    match (obj, event_id) {
        (WaylandObject::Display, 0u16) => Some(
            seq![MsgArgType::Uint32, MsgArgType::Uint32, MsgArgType::String],
        ),
        (WaylandObject::Display, 1u16) => Some(seq![MsgArgType::Uint32]),
        (WaylandObject::Registry, 0u16) => Some(
            seq![MsgArgType::Uint32, MsgArgType::String, MsgArgType::Uint32],
        ),
        (WaylandObject::CallBack, 0u16) => Some(seq![MsgArgType::Uint32]),
        (WaylandObject::Shm, 0u16) => Some(seq![MsgArgType::Uint32]),
        (WaylandObject::Surface, 0u16) => Some(seq![MsgArgType::Uint32]),
        (WaylandObject::Surface, 1u16) => Some(seq![MsgArgType::Uint32]),
        (WaylandObject::Surface, 2u16) => Some(seq![MsgArgType::Int32]),
        (WaylandObject::Surface, 3u16) => Some(seq![MsgArgType::Uint32]),
        (WaylandObject::Buffer, 0u16) => Some(Seq::empty()),
        (WaylandObject::XdgWmBase, 0u16) => Some(seq![MsgArgType::Uint32]),
        (WaylandObject::XdgSurface, 0u16) => Some(seq![MsgArgType::Uint32]),
        (WaylandObject::XdgTopLevel, 0u16) => Some(
            seq![MsgArgType::Int32, MsgArgType::Int32, MsgArgType::Array],
        ),
        (WaylandObject::XdgTopLevel, 1u16) => Some(Seq::empty()),
        (WaylandObject::XdgTopLevel, 2u16) => Some(seq![MsgArgType::Int32, MsgArgType::Int32]),
        (WaylandObject::XdgTopLevel, 3u16) => Some(seq![MsgArgType::Array]),
        _ => None,
    }
}

/// The interface and opcode an event belongs to.
pub open spec fn spec_event_key(e: WaylandEvent) -> (WaylandObject, u16) {
    match e {
        WaylandEvent::DisplayError { .. } => (WaylandObject::Display, 0u16),
        WaylandEvent::DisplayDelete(..) => (WaylandObject::Display, 1u16),
        WaylandEvent::RegistryGlobal { .. } => (WaylandObject::Registry, 0u16),
        WaylandEvent::CallBackDone(..) => (WaylandObject::CallBack, 0u16),
        WaylandEvent::ShmFormat(..) => (WaylandObject::Shm, 0u16),
        WaylandEvent::SurfaceEnter { .. } => (WaylandObject::Surface, 0u16),
        WaylandEvent::SurfaceLeave { .. } => (WaylandObject::Surface, 1u16),
        WaylandEvent::SurfacePreferredBufferScale { .. } => (WaylandObject::Surface, 2u16),
        WaylandEvent::SurfacePreferredBufferTransform { .. } => (WaylandObject::Surface, 3u16),
        WaylandEvent::BufferRelease => (WaylandObject::Buffer, 0u16),
        WaylandEvent::XdgWmBasePing { .. } => (WaylandObject::XdgWmBase, 0u16),
        WaylandEvent::XdgSurfaceConfigure { .. } => (WaylandObject::XdgSurface, 0u16),
        WaylandEvent::XdgTopLevelConfigure { .. } => (WaylandObject::XdgTopLevel, 0u16),
        WaylandEvent::XdgTopLevelClose => (WaylandObject::XdgTopLevel, 1u16),
        WaylandEvent::XdgTopLevelConfigureBounds { .. } => (WaylandObject::XdgTopLevel, 2u16),
        WaylandEvent::XdgTopLevelWmCapabilities { .. } => (WaylandObject::XdgTopLevel, 3u16),
    }
}

/// The argument values an event carries, in declaration order.
pub open spec fn spec_event_args(e: WaylandEvent) -> Seq<MsgArgValue> {
    match e {
        WaylandEvent::DisplayError { object_id, code, message } => seq![
            MsgArgValue::Uint32(object_id),
            MsgArgValue::Uint32(code),
            MsgArgValue::String(message),
        ],
        WaylandEvent::DisplayDelete(id) => seq![MsgArgValue::Uint32(id)],
        WaylandEvent::RegistryGlobal { name, interface, version } => seq![
            MsgArgValue::Uint32(name),
            MsgArgValue::String(interface),
            MsgArgValue::Uint32(version),
        ],
        WaylandEvent::CallBackDone(data) => seq![MsgArgValue::Uint32(data)],
        WaylandEvent::ShmFormat(format) => seq![MsgArgValue::Uint32(format)],
        WaylandEvent::SurfaceEnter { output_id } => seq![MsgArgValue::Uint32(output_id)],
        WaylandEvent::SurfaceLeave { output_id } => seq![MsgArgValue::Uint32(output_id)],
        WaylandEvent::SurfacePreferredBufferScale { factor } => seq![MsgArgValue::Int32(factor)],
        WaylandEvent::SurfacePreferredBufferTransform { output_transform } => seq![
            MsgArgValue::Uint32(output_transform),
        ],
        WaylandEvent::BufferRelease => seq![],
        WaylandEvent::XdgWmBasePing { serial } => seq![MsgArgValue::Uint32(serial)],
        WaylandEvent::XdgSurfaceConfigure { serial_nr } => seq![MsgArgValue::Uint32(serial_nr)],
        WaylandEvent::XdgTopLevelConfigure { height, width, states } => seq![
            MsgArgValue::Int32(height),
            MsgArgValue::Int32(width),
            MsgArgValue::Array(states),
        ],
        WaylandEvent::XdgTopLevelClose => seq![],
        WaylandEvent::XdgTopLevelConfigureBounds { width, height } => seq![
            MsgArgValue::Int32(width),
            MsgArgValue::Int32(height),
        ],
        WaylandEvent::XdgTopLevelWmCapabilities { capabilities } => seq![
            MsgArgValue::Array(capabilities),
        ],
    }
}

/// Runs a declared pattern against the reader.
fn run_pattern(iter: &mut PayloadReader, pattern: Vec<MsgArgType>) -> (r: Result<
    Vec<MsgArgValue>,
    parsing::Error,
>)
    requires
        old(iter).wf(),
    ensures
        final(iter).wf(),
        r is Ok <==> spec_parse_args(pattern@, old(iter).remaining()) is Some,
        r matches Ok(vs) ==> spec_args_match(
            pattern@,
            old(iter).remaining(),
            vs@,
            final(iter).remaining(),
        ) && vs@.len() == pattern@.len(),
{
    let parser = Parser::new(pattern.as_slice());
    parser.parse_reader(iter)
}

} // verus!

verus! {

/// A successful field-wise match determines what the whole-pattern parse
/// returns, and in particular where it stops.
pub proof fn lemma_args_match_agrees(p: Seq<MsgArgType>, b: Seq<u8>, vs: Seq<MsgArgValue>,
    rest: Seq<u8>)
    requires
        spec_args_match(p, b, vs, rest),
    ensures
        spec_parse_args(p, b) matches Some(pr) && pr.1 == rest,
    decreases p.len(),
{
    if p.len() == 0 {
    } else {
        match p[0] {
            MsgArgType::Uint32 => {
                let pr0 = spec_parse_u32(b)->Some_0;
                lemma_args_match_agrees(p.skip(1), pr0.1, vs.skip(1), rest);
            },
            MsgArgType::Int32 => {
                let pr0 = spec_parse_u32(b)->Some_0;
                lemma_args_match_agrees(p.skip(1), pr0.1, vs.skip(1), rest);
            },
            MsgArgType::String => {
                let pr0 = spec_parse_str(b)->Some_0;
                lemma_args_match_agrees(p.skip(1), pr0.1, vs.skip(1), rest);
            },
            MsgArgType::Array => {
                let pr0 = spec_parse_u32_array(b)->Some_0;
                lemma_args_match_agrees(p.skip(1), pr0.1, vs.skip(1), rest);
            },
        }
    }
}

/// Parses the payload of an event frame into the typed event of the given
/// interface and opcode.  Succeeds exactly when the interface declares the
/// opcode and every declared argument parses; the returned event belongs to
/// that opcode and carries exactly the parsed argument values.
#[verifier::rlimit(100)]
#[verifier::spinoff_prover]
pub fn parse_event(obj: WaylandObject, event_id: u16, iter: &mut PayloadReader) -> (r: Result<
    WaylandEvent,
    Error,
>)
    requires
        old(iter).wf(),
    ensures
        final(iter).wf(),
        r is Ok <==> (spec_event_pattern(obj, event_id) matches Some(p) && spec_parse_args(
            p,
            old(iter).remaining(),
        ) is Some),
        r matches Ok(e) ==> spec_event_key(e) == (obj, event_id),
        r matches Ok(e) ==> (spec_event_pattern(obj, event_id) matches Some(p) && spec_args_match(
            p,
            old(iter).remaining(),
            spec_event_args(e),
            final(iter).remaining(),
        )),
        r matches Err(err) ==> (err is NoEvent <==> spec_event_pattern(obj, event_id) is None),
        r matches Err(err) ==> (err matches Error::NoEvent(id) ==> id == event_id && *final(iter)
            == *old(iter)),
        r matches Err(err) ==> err is NoEvent || err is ParsingError,
{
    let ghost rem0 = old(iter).remaining();
    match (obj, event_id) {
        (WaylandObject::Display, 0u16) => {
            let mut pattern: Vec<MsgArgType> = Vec::new();
            pattern.push(MsgArgType::Uint32);
            pattern.push(MsgArgType::Uint32);
            pattern.push(MsgArgType::String);
            let ghost pat = pattern@;
            proof {
                assert(pat =~= spec_event_pattern(obj, event_id)->Some_0);
            }
            let mut values = match run_pattern(iter, pattern) {
                Ok(v) => v,
                Err(e) => {
                    return Err(Error::ParsingError(e));
                },
            };
            let ghost vs = values@;
            proof {
                crate::parser::lemma_args_match_types(pat, rem0, vs, iter.remaining());
                assert(vs.remove(0) =~= vs.skip(1));
                if vs.len() >= 2 {
                    assert(vs.skip(1)[0] == vs[1]);
                    assert(vs.skip(1).remove(0) =~= vs.skip(1).skip(1));
                }
                if vs.len() >= 3 {
                    assert(vs.skip(1).skip(1)[0] == vs[2]);
                }
            }
            let a0 = values.remove(0);
            let a1 = values.remove(0);
            let a2 = values.remove(0);
            let e = WaylandEvent::DisplayError {
                object_id: a0.into_u32(),
                code: a1.into_u32(),
                message: a2.into_str(),
            };
            proof {
                assert(spec_event_args(e) =~= vs);
            }
            Ok(e)
        },
        (WaylandObject::Display, 1u16) => {
            let mut pattern: Vec<MsgArgType> = Vec::new();
            pattern.push(MsgArgType::Uint32);
            let ghost pat = pattern@;
            proof {
                assert(pat =~= spec_event_pattern(obj, event_id)->Some_0);
            }
            let mut values = match run_pattern(iter, pattern) {
                Ok(v) => v,
                Err(e) => {
                    return Err(Error::ParsingError(e));
                },
            };
            let ghost vs = values@;
            proof {
                crate::parser::lemma_args_match_types(pat, rem0, vs, iter.remaining());
                assert(vs.remove(0) =~= vs.skip(1));
                if vs.len() >= 2 {
                    assert(vs.skip(1)[0] == vs[1]);
                    assert(vs.skip(1).remove(0) =~= vs.skip(1).skip(1));
                }
                if vs.len() >= 3 {
                    assert(vs.skip(1).skip(1)[0] == vs[2]);
                }
            }
            let a0 = values.remove(0);
            let e = WaylandEvent::DisplayDelete(a0.into_u32());
            proof {
                assert(spec_event_args(e) =~= vs);
            }
            Ok(e)
        },
        (WaylandObject::Registry, 0u16) => {
            let mut pattern: Vec<MsgArgType> = Vec::new();
            pattern.push(MsgArgType::Uint32);
            pattern.push(MsgArgType::String);
            pattern.push(MsgArgType::Uint32);
            let ghost pat = pattern@;
            proof {
                assert(pat =~= spec_event_pattern(obj, event_id)->Some_0);
            }
            let mut values = match run_pattern(iter, pattern) {
                Ok(v) => v,
                Err(e) => {
                    return Err(Error::ParsingError(e));
                },
            };
            let ghost vs = values@;
            proof {
                crate::parser::lemma_args_match_types(pat, rem0, vs, iter.remaining());
                assert(vs.remove(0) =~= vs.skip(1));
                if vs.len() >= 2 {
                    assert(vs.skip(1)[0] == vs[1]);
                    assert(vs.skip(1).remove(0) =~= vs.skip(1).skip(1));
                }
                if vs.len() >= 3 {
                    assert(vs.skip(1).skip(1)[0] == vs[2]);
                }
            }
            let a0 = values.remove(0);
            let a1 = values.remove(0);
            let a2 = values.remove(0);
            let e = WaylandEvent::RegistryGlobal {
                name: a0.into_u32(),
                interface: a1.into_str(),
                version: a2.into_u32(),
            };
            proof {
                assert(spec_event_args(e) =~= vs);
            }
            Ok(e)
        },
        (WaylandObject::CallBack, 0u16) => {
            let mut pattern: Vec<MsgArgType> = Vec::new();
            pattern.push(MsgArgType::Uint32);
            let ghost pat = pattern@;
            proof {
                assert(pat =~= spec_event_pattern(obj, event_id)->Some_0);
            }
            let mut values = match run_pattern(iter, pattern) {
                Ok(v) => v,
                Err(e) => {
                    return Err(Error::ParsingError(e));
                },
            };
            let ghost vs = values@;
            proof {
                crate::parser::lemma_args_match_types(pat, rem0, vs, iter.remaining());
                assert(vs.remove(0) =~= vs.skip(1));
                if vs.len() >= 2 {
                    assert(vs.skip(1)[0] == vs[1]);
                    assert(vs.skip(1).remove(0) =~= vs.skip(1).skip(1));
                }
                if vs.len() >= 3 {
                    assert(vs.skip(1).skip(1)[0] == vs[2]);
                }
            }
            let a0 = values.remove(0);
            let e = WaylandEvent::CallBackDone(a0.into_u32());
            proof {
                assert(spec_event_args(e) =~= vs);
            }
            Ok(e)
        },
        (WaylandObject::Shm, 0u16) => {
            let mut pattern: Vec<MsgArgType> = Vec::new();
            pattern.push(MsgArgType::Uint32);
            let ghost pat = pattern@;
            proof {
                assert(pat =~= spec_event_pattern(obj, event_id)->Some_0);
            }
            let mut values = match run_pattern(iter, pattern) {
                Ok(v) => v,
                Err(e) => {
                    return Err(Error::ParsingError(e));
                },
            };
            let ghost vs = values@;
            proof {
                crate::parser::lemma_args_match_types(pat, rem0, vs, iter.remaining());
                assert(vs.remove(0) =~= vs.skip(1));
                if vs.len() >= 2 {
                    assert(vs.skip(1)[0] == vs[1]);
                    assert(vs.skip(1).remove(0) =~= vs.skip(1).skip(1));
                }
                if vs.len() >= 3 {
                    assert(vs.skip(1).skip(1)[0] == vs[2]);
                }
            }
            let a0 = values.remove(0);
            let e = WaylandEvent::ShmFormat(a0.into_u32());
            proof {
                assert(spec_event_args(e) =~= vs);
            }
            Ok(e)
        },
        (WaylandObject::Surface, 0u16) => {
            let mut pattern: Vec<MsgArgType> = Vec::new();
            pattern.push(MsgArgType::Uint32);
            let ghost pat = pattern@;
            proof {
                assert(pat =~= spec_event_pattern(obj, event_id)->Some_0);
            }
            let mut values = match run_pattern(iter, pattern) {
                Ok(v) => v,
                Err(e) => {
                    return Err(Error::ParsingError(e));
                },
            };
            let ghost vs = values@;
            proof {
                crate::parser::lemma_args_match_types(pat, rem0, vs, iter.remaining());
                assert(vs.remove(0) =~= vs.skip(1));
                if vs.len() >= 2 {
                    assert(vs.skip(1)[0] == vs[1]);
                    assert(vs.skip(1).remove(0) =~= vs.skip(1).skip(1));
                }
                if vs.len() >= 3 {
                    assert(vs.skip(1).skip(1)[0] == vs[2]);
                }
            }
            let a0 = values.remove(0);
            let e = WaylandEvent::SurfaceEnter { output_id: a0.into_u32() };
            proof {
                assert(spec_event_args(e) =~= vs);
            }
            Ok(e)
        },
        (WaylandObject::Surface, 1u16) => {
            let mut pattern: Vec<MsgArgType> = Vec::new();
            pattern.push(MsgArgType::Uint32);
            let ghost pat = pattern@;
            proof {
                assert(pat =~= spec_event_pattern(obj, event_id)->Some_0);
            }
            let mut values = match run_pattern(iter, pattern) {
                Ok(v) => v,
                Err(e) => {
                    return Err(Error::ParsingError(e));
                },
            };
            let ghost vs = values@;
            proof {
                crate::parser::lemma_args_match_types(pat, rem0, vs, iter.remaining());
                assert(vs.remove(0) =~= vs.skip(1));
                if vs.len() >= 2 {
                    assert(vs.skip(1)[0] == vs[1]);
                    assert(vs.skip(1).remove(0) =~= vs.skip(1).skip(1));
                }
                if vs.len() >= 3 {
                    assert(vs.skip(1).skip(1)[0] == vs[2]);
                }
            }
            let a0 = values.remove(0);
            let e = WaylandEvent::SurfaceLeave { output_id: a0.into_u32() };
            proof {
                assert(spec_event_args(e) =~= vs);
            }
            Ok(e)
        },
        (WaylandObject::Surface, 2u16) => {
            let mut pattern: Vec<MsgArgType> = Vec::new();
            pattern.push(MsgArgType::Int32);
            let ghost pat = pattern@;
            proof {
                assert(pat =~= spec_event_pattern(obj, event_id)->Some_0);
            }
            let mut values = match run_pattern(iter, pattern) {
                Ok(v) => v,
                Err(e) => {
                    return Err(Error::ParsingError(e));
                },
            };
            let ghost vs = values@;
            proof {
                crate::parser::lemma_args_match_types(pat, rem0, vs, iter.remaining());
                assert(vs.remove(0) =~= vs.skip(1));
                if vs.len() >= 2 {
                    assert(vs.skip(1)[0] == vs[1]);
                    assert(vs.skip(1).remove(0) =~= vs.skip(1).skip(1));
                }
                if vs.len() >= 3 {
                    assert(vs.skip(1).skip(1)[0] == vs[2]);
                }
            }
            let a0 = values.remove(0);
            let e = WaylandEvent::SurfacePreferredBufferScale { factor: a0.into_i32() };
            proof {
                assert(spec_event_args(e) =~= vs);
            }
            Ok(e)
        },
        (WaylandObject::Surface, 3u16) => {
            let mut pattern: Vec<MsgArgType> = Vec::new();
            pattern.push(MsgArgType::Uint32);
            let ghost pat = pattern@;
            proof {
                assert(pat =~= spec_event_pattern(obj, event_id)->Some_0);
            }
            let mut values = match run_pattern(iter, pattern) {
                Ok(v) => v,
                Err(e) => {
                    return Err(Error::ParsingError(e));
                },
            };
            let ghost vs = values@;
            proof {
                crate::parser::lemma_args_match_types(pat, rem0, vs, iter.remaining());
                assert(vs.remove(0) =~= vs.skip(1));
                if vs.len() >= 2 {
                    assert(vs.skip(1)[0] == vs[1]);
                    assert(vs.skip(1).remove(0) =~= vs.skip(1).skip(1));
                }
                if vs.len() >= 3 {
                    assert(vs.skip(1).skip(1)[0] == vs[2]);
                }
            }
            let a0 = values.remove(0);
            let e = WaylandEvent::SurfacePreferredBufferTransform {
                output_transform: a0.into_u32(),
            };
            proof {
                assert(spec_event_args(e) =~= vs);
            }
            Ok(e)
        },
        (WaylandObject::Buffer, 0u16) => {
            proof {
                assert(spec_event_pattern(obj, event_id)->Some_0 =~= Seq::<MsgArgType>::empty());
                assert(spec_event_args(WaylandEvent::BufferRelease) =~= Seq::<
                    MsgArgValue,
                >::empty());
            }
            Ok(WaylandEvent::BufferRelease)
        },
        (WaylandObject::XdgWmBase, 0u16) => {
            let mut pattern: Vec<MsgArgType> = Vec::new();
            pattern.push(MsgArgType::Uint32);
            let ghost pat = pattern@;
            proof {
                assert(pat =~= spec_event_pattern(obj, event_id)->Some_0);
            }
            let mut values = match run_pattern(iter, pattern) {
                Ok(v) => v,
                Err(e) => {
                    return Err(Error::ParsingError(e));
                },
            };
            let ghost vs = values@;
            proof {
                crate::parser::lemma_args_match_types(pat, rem0, vs, iter.remaining());
                assert(vs.remove(0) =~= vs.skip(1));
                if vs.len() >= 2 {
                    assert(vs.skip(1)[0] == vs[1]);
                    assert(vs.skip(1).remove(0) =~= vs.skip(1).skip(1));
                }
                if vs.len() >= 3 {
                    assert(vs.skip(1).skip(1)[0] == vs[2]);
                }
            }
            let a0 = values.remove(0);
            let e = WaylandEvent::XdgWmBasePing { serial: a0.into_u32() };
            proof {
                assert(spec_event_args(e) =~= vs);
            }
            Ok(e)
        },
        (WaylandObject::XdgSurface, 0u16) => {
            let mut pattern: Vec<MsgArgType> = Vec::new();
            pattern.push(MsgArgType::Uint32);
            let ghost pat = pattern@;
            proof {
                assert(pat =~= spec_event_pattern(obj, event_id)->Some_0);
            }
            let mut values = match run_pattern(iter, pattern) {
                Ok(v) => v,
                Err(e) => {
                    return Err(Error::ParsingError(e));
                },
            };
            let ghost vs = values@;
            proof {
                crate::parser::lemma_args_match_types(pat, rem0, vs, iter.remaining());
                assert(vs.remove(0) =~= vs.skip(1));
                if vs.len() >= 2 {
                    assert(vs.skip(1)[0] == vs[1]);
                    assert(vs.skip(1).remove(0) =~= vs.skip(1).skip(1));
                }
                if vs.len() >= 3 {
                    assert(vs.skip(1).skip(1)[0] == vs[2]);
                }
            }
            let a0 = values.remove(0);
            let e = WaylandEvent::XdgSurfaceConfigure { serial_nr: a0.into_u32() };
            proof {
                assert(spec_event_args(e) =~= vs);
            }
            Ok(e)
        },
        (WaylandObject::XdgTopLevel, 0u16) => {
            let mut pattern: Vec<MsgArgType> = Vec::new();
            pattern.push(MsgArgType::Int32);
            pattern.push(MsgArgType::Int32);
            pattern.push(MsgArgType::Array);
            let ghost pat = pattern@;
            proof {
                assert(pat =~= spec_event_pattern(obj, event_id)->Some_0);
            }
            let mut values = match run_pattern(iter, pattern) {
                Ok(v) => v,
                Err(e) => {
                    return Err(Error::ParsingError(e));
                },
            };
            let ghost vs = values@;
            proof {
                crate::parser::lemma_args_match_types(pat, rem0, vs, iter.remaining());
                assert(vs.remove(0) =~= vs.skip(1));
                if vs.len() >= 2 {
                    assert(vs.skip(1)[0] == vs[1]);
                    assert(vs.skip(1).remove(0) =~= vs.skip(1).skip(1));
                }
                if vs.len() >= 3 {
                    assert(vs.skip(1).skip(1)[0] == vs[2]);
                }
            }
            let a0 = values.remove(0);
            let a1 = values.remove(0);
            let a2 = values.remove(0);
            let e = WaylandEvent::XdgTopLevelConfigure {
                height: a0.into_i32(),
                width: a1.into_i32(),
                states: a2.into_array(),
            };
            proof {
                assert(spec_event_args(e) =~= vs);
            }
            Ok(e)
        },
        (WaylandObject::XdgTopLevel, 1u16) => {
            proof {
                assert(spec_event_pattern(obj, event_id)->Some_0 =~= Seq::<MsgArgType>::empty());
                assert(spec_event_args(WaylandEvent::XdgTopLevelClose) =~= Seq::<
                    MsgArgValue,
                >::empty());
            }
            Ok(WaylandEvent::XdgTopLevelClose)
        },
        (WaylandObject::XdgTopLevel, 2u16) => {
            let mut pattern: Vec<MsgArgType> = Vec::new();
            pattern.push(MsgArgType::Int32);
            pattern.push(MsgArgType::Int32);
            let ghost pat = pattern@;
            proof {
                assert(pat =~= spec_event_pattern(obj, event_id)->Some_0);
            }
            let mut values = match run_pattern(iter, pattern) {
                Ok(v) => v,
                Err(e) => {
                    return Err(Error::ParsingError(e));
                },
            };
            let ghost vs = values@;
            proof {
                crate::parser::lemma_args_match_types(pat, rem0, vs, iter.remaining());
                assert(vs.remove(0) =~= vs.skip(1));
                if vs.len() >= 2 {
                    assert(vs.skip(1)[0] == vs[1]);
                    assert(vs.skip(1).remove(0) =~= vs.skip(1).skip(1));
                }
                if vs.len() >= 3 {
                    assert(vs.skip(1).skip(1)[0] == vs[2]);
                }
            }
            let a0 = values.remove(0);
            let a1 = values.remove(0);
            let e = WaylandEvent::XdgTopLevelConfigureBounds {
                width: a0.into_i32(),
                height: a1.into_i32(),
            };
            proof {
                assert(spec_event_args(e) =~= vs);
            }
            Ok(e)
        },
        (WaylandObject::XdgTopLevel, 3u16) => {
            let mut pattern: Vec<MsgArgType> = Vec::new();
            pattern.push(MsgArgType::Array);
            let ghost pat = pattern@;
            proof {
                assert(pat =~= spec_event_pattern(obj, event_id)->Some_0);
            }
            let mut values = match run_pattern(iter, pattern) {
                Ok(v) => v,
                Err(e) => {
                    return Err(Error::ParsingError(e));
                },
            };
            let ghost vs = values@;
            proof {
                crate::parser::lemma_args_match_types(pat, rem0, vs, iter.remaining());
                assert(vs.remove(0) =~= vs.skip(1));
                if vs.len() >= 2 {
                    assert(vs.skip(1)[0] == vs[1]);
                    assert(vs.skip(1).remove(0) =~= vs.skip(1).skip(1));
                }
                if vs.len() >= 3 {
                    assert(vs.skip(1).skip(1)[0] == vs[2]);
                }
            }
            let a0 = values.remove(0);
            let e = WaylandEvent::XdgTopLevelWmCapabilities { capabilities: a0.into_array() };
            proof {
                assert(spec_event_args(e) =~= vs);
            }
            Ok(e)
        },
        _ => Err(Error::NoEvent(event_id)),
    }
}

/// Whether a payload holds exactly one complete event of the interface and
/// opcode: the declared arguments parse and consume the whole payload.
pub open spec fn spec_msg_parses(obj: WaylandObject, event_id: u16, payload: Seq<u8>) -> bool {
    match spec_event_pattern(obj, event_id) {
        Some(p) => match spec_parse_args(p, payload) {
            Some(pr) => pr.1.len() == 0,
            None => false,
        },
        None => false,
    }
}

/// Turns one raw frame into a typed event message.  The parser must consume
/// the payload exactly: leftover bytes are rejected as `UnexpectedExtraBytes`
/// attributed to the frame's object and opcode.
pub fn parse_msg(msg: RawMessage, obj: WaylandObject) -> (r: Result<WaylandEventMessage, Error>)
    ensures
        r is Ok <==> spec_msg_parses(obj, msg.event_id, msg.payload@),
        r matches Ok(m) ==> m.sender_id == msg.object_id && m.sender_obj == obj && spec_event_key(
            m.event,
        ) == (obj, msg.event_id) && (spec_event_pattern(obj, msg.event_id) matches Some(p)
            && spec_args_match(p, msg.payload@, spec_event_args(m.event), Seq::<u8>::empty())),
        r matches Err(err) ==> (err matches Error::UnexpectedExtraBytes {
            object_id,
            event_id,
            extra_bytes,
        } ==> object_id == msg.object_id && event_id == msg.event_id && extra_bytes > 0 && (
        spec_event_pattern(obj, msg.event_id) matches Some(p) && spec_parse_args(
            p,
            msg.payload@,
        ) matches Some(pr) && pr.1.len() == extra_bytes)),
        r matches Err(err) ==> (err is NoEvent <==> spec_event_pattern(obj, msg.event_id)
            is None),
{
    let object_id = msg.object_id;
    let event_id = msg.event_id;
    let mut iter = PayloadReader::new(msg.payload);
    let event = match parse_event(obj, event_id, &mut iter) {
        Ok(e) => e,
        Err(e) => {
            return Err(e);
        },
    };
    let remaining = iter.remaining_len();
    proof {
        lemma_args_match_agrees(
            spec_event_pattern(obj, event_id)->Some_0,
            msg.payload@,
            spec_event_args(event),
            iter.remaining(),
        );
    }
    if remaining != 0 {
        return Err(
            Error::UnexpectedExtraBytes { object_id, event_id, extra_bytes: remaining },
        );
    }
    proof {
        assert(iter.remaining() =~= Seq::<u8>::empty());
    }
    Ok(WaylandEventMessage { sender_id: object_id, sender_obj: obj, event })
}

} // verus!

use crate::parser::{lemma_args_round_trip, spec_args_fit, spec_pattern_of};
use crate::wire_format::{frame_message, spec_encode_values, spec_fd_of, spec_message_frame,
    spec_values_fit, write_values, EncodeError, WireMessage};

verus! {

impl WaylandRequest {
    /// The request's wire values, consuming the request.
    pub fn values(self) -> (r: Vec<WireValue>)
        ensures
            r@ == self.spec_values(),
    {
        let ghost snapshot = self;
        let mut v: Vec<WireValue> = Vec::new();
        match self {
            WaylandRequest::DisplaySync(cb) => {
                v.push(WireValue::Uint32(cb));
            },
            WaylandRequest::DisplayGetRegistry(id) => {
                v.push(WireValue::Uint32(id));
            },
            WaylandRequest::RegistryBind { name, interface, version, new_id } => {
                v.push(WireValue::Uint32(name));
                v.push(WireValue::Str(interface));
                v.push(WireValue::Uint32(version));
                v.push(WireValue::Uint32(new_id));
            },
            WaylandRequest::CompositorCreateSurface(id) => {
                v.push(WireValue::Uint32(id));
            },
            WaylandRequest::SurfaceDestroy => {},
            WaylandRequest::SurfaceAttach { buffer, x, y } => {
                v.push(WireValue::Uint32(buffer));
                v.push(WireValue::Int32(x));
                v.push(WireValue::Int32(y));
            },
            WaylandRequest::SurfaceDamage { x, y, width, height } => {
                v.push(WireValue::Int32(x));
                v.push(WireValue::Int32(y));
                v.push(WireValue::Int32(width));
                v.push(WireValue::Int32(height));
            },
            WaylandRequest::SurfaceFrame(cb) => {
                v.push(WireValue::Uint32(cb));
            },
            WaylandRequest::SurfaceSetOpaqueRegion(r) => {
                v.push(WireValue::Uint32(r));
            },
            WaylandRequest::SurfaceSetInputRegion(r) => {
                v.push(WireValue::Uint32(r));
            },
            WaylandRequest::SurfaceCommit => {},
            WaylandRequest::SurfaceSetBufferTransform(t) => {
                v.push(WireValue::Int32(t));
            },
            WaylandRequest::SurfaceSetBufferScale(s) => {
                v.push(WireValue::Int32(s));
            },
            WaylandRequest::SurfaceDamageBuffer { x, y, width, height } => {
                v.push(WireValue::Int32(x));
                v.push(WireValue::Int32(y));
                v.push(WireValue::Int32(width));
                v.push(WireValue::Int32(height));
            },
            WaylandRequest::ShmCreatePool { pool_id, fd, size } => {
                v.push(WireValue::Uint32(pool_id));
                v.push(WireValue::FileDesc(fd));
                v.push(WireValue::Int32(size));
            },
            WaylandRequest::ShmPoolCreateBuffer {
                buffer_id,
                offset,
                width,
                height,
                stride,
                pixel_format,
            } => {
                v.push(WireValue::Uint32(buffer_id));
                v.push(WireValue::Int32(offset));
                v.push(WireValue::Int32(width));
                v.push(WireValue::Int32(height));
                v.push(WireValue::Int32(stride));
                v.push(WireValue::Uint32(pixel_format.format_code()));
            },
            WaylandRequest::ShmPoolDestroy => {},
            WaylandRequest::ShmPoolResize(size) => {
                v.push(WireValue::Int32(size));
            },
            WaylandRequest::BufferDestroy => {},
            WaylandRequest::XdgWmDestroy => {},
            WaylandRequest::XdgWmCreatePositioner(id) => {
                v.push(WireValue::Uint32(id));
            },
            WaylandRequest::XdgWmGetSurface { new_id, surface } => {
                v.push(WireValue::Uint32(new_id));
                v.push(WireValue::Uint32(surface));
            },
            WaylandRequest::XdgWmPong(serial) => {
                v.push(WireValue::Uint32(serial));
            },
            WaylandRequest::XdgSurfaceDestroy => {},
            WaylandRequest::XdgSurfaceGetToplevel(id) => {
                v.push(WireValue::Uint32(id));
            },
            WaylandRequest::XdgSurfaceGetPopup { popup, parent, positioner } => {
                v.push(WireValue::Uint32(popup));
                v.push(WireValue::Uint32(parent));
                v.push(WireValue::Uint32(positioner));
            },
            WaylandRequest::XdgSurfaceSetWindowGeometry { x, y, width, height } => {
                v.push(WireValue::Int32(x));
                v.push(WireValue::Int32(y));
                v.push(WireValue::Int32(width));
                v.push(WireValue::Int32(height));
            },
            WaylandRequest::XdgSurfaceAckConfigure(serial) => {
                v.push(WireValue::Uint32(serial));
            },
            WaylandRequest::XdgTopLevelDestroy => {},
            WaylandRequest::XdgTopLevelSetParent(id) => {
                v.push(WireValue::Uint32(id));
            },
            WaylandRequest::XdgTopLevelSetTitle(title) => {
                v.push(WireValue::Str(title));
            },
            WaylandRequest::XdgTopLevelSetAppId(app_id) => {
                v.push(WireValue::Str(app_id));
            },
        }
        proof {
            assert(v@ =~= snapshot.spec_values());
        }
        v
    }

    /// Serialises the request's arguments into `buffer`, returning the file
    /// descriptor to pass out of band, if any.
    pub fn write_data(self, buffer: &mut Vec<u8>) -> (r: Result<Option<i32>, EncodeError>)
        ensures
            r is Ok <==> spec_values_fit(self.spec_values()) && crate::wire_format::spec_fd_count(
                self.spec_values(),
            ) <= 1,
            r matches Ok(fd) ==> final(buffer)@ == old(buffer)@ + spec_encode_values(
                self.spec_values(),
            ) && fd == spec_fd_of(self.spec_values()),
    {
        let values = self.values();
        write_values(buffer, values.as_slice())
    }
}

/// Frames one request for the wire: header, then the encoded arguments.
/// Returns the frame bytes and the file descriptor to pass out of band.
pub fn make_request(object_id: u32, request: WaylandRequest) -> (r: Result<
    (Vec<u8>, Option<i32>),
    EncodeError,
>)
    ensures
        r is Ok <==> spec_values_fit(request.spec_values()) && crate::wire_format::spec_fd_count(
            request.spec_values(),
        ) <= 1 && 8 + spec_encode_values(request.spec_values()).len() <= 0xFFFF,
        r matches Ok((bytes, fd)) ==> {
            &&& bytes@ == spec_message_frame(
                object_id,
                request.spec_request_id() as u32,
                request.spec_values(),
            )
            &&& fd == spec_fd_of(request.spec_values())
            &&& bytes@.len() == 8 + spec_encode_values(request.spec_values()).len()
            &&& bytes@.len() % 4 == 0
        },
{
    let ghost snapshot = request;
    let opcode = request.request_id();
    proof {
        assert(snapshot.spec_request_id() <= 9);
    }
    let values = request.values();
    let msg = WireMessage { object_id, request_id: opcode as u32, values: values.as_slice() };
    frame_message(&msg)
}

/// The event round-trip law: an event's encoded arguments, fed back to the
/// parser of its own interface and opcode, yield exactly the event's
/// argument values and leave nothing over.
pub proof fn lemma_event_round_trip(e: WaylandEvent)
    requires
        spec_args_fit(spec_event_args(e)),
    ensures
        spec_event_pattern(spec_event_key(e).0, spec_event_key(e).1) matches Some(p)
            && spec_args_match(
            p,
            spec_encode_args(spec_event_args(e)),
            spec_event_args(e),
            Seq::<u8>::empty(),
        ),
        spec_msg_parses(
            spec_event_key(e).0,
            spec_event_key(e).1,
            spec_encode_args(spec_event_args(e)),
        ),
{
    let args = spec_event_args(e);
    let enc = spec_encode_args(args);
    lemma_args_round_trip(args, Seq::<u8>::empty());
    assert(enc + Seq::<u8>::empty() =~= enc);
    let key = spec_event_key(e);
    match e {
        WaylandEvent::DisplayError { .. } => {
            assert(spec_pattern_of(args) =~= spec_event_pattern(key.0, key.1)->Some_0);
        },
        WaylandEvent::DisplayDelete(..) => {
            assert(spec_pattern_of(args) =~= spec_event_pattern(key.0, key.1)->Some_0);
        },
        WaylandEvent::RegistryGlobal { .. } => {
            assert(spec_pattern_of(args) =~= spec_event_pattern(key.0, key.1)->Some_0);
        },
        WaylandEvent::CallBackDone(..) => {
            assert(spec_pattern_of(args) =~= spec_event_pattern(key.0, key.1)->Some_0);
        },
        WaylandEvent::ShmFormat(..) => {
            assert(spec_pattern_of(args) =~= spec_event_pattern(key.0, key.1)->Some_0);
        },
        WaylandEvent::SurfaceEnter { .. } => {
            assert(spec_pattern_of(args) =~= spec_event_pattern(key.0, key.1)->Some_0);
        },
        WaylandEvent::SurfaceLeave { .. } => {
            assert(spec_pattern_of(args) =~= spec_event_pattern(key.0, key.1)->Some_0);
        },
        WaylandEvent::SurfacePreferredBufferScale { .. } => {
            assert(spec_pattern_of(args) =~= spec_event_pattern(key.0, key.1)->Some_0);
        },
        WaylandEvent::SurfacePreferredBufferTransform { .. } => {
            assert(spec_pattern_of(args) =~= spec_event_pattern(key.0, key.1)->Some_0);
        },
        WaylandEvent::BufferRelease => {
            assert(spec_pattern_of(args) =~= spec_event_pattern(key.0, key.1)->Some_0);
        },
        WaylandEvent::XdgWmBasePing { .. } => {
            assert(spec_pattern_of(args) =~= spec_event_pattern(key.0, key.1)->Some_0);
        },
        WaylandEvent::XdgSurfaceConfigure { .. } => {
            assert(spec_pattern_of(args) =~= spec_event_pattern(key.0, key.1)->Some_0);
        },
        WaylandEvent::XdgTopLevelConfigure { .. } => {
            assert(spec_pattern_of(args) =~= spec_event_pattern(key.0, key.1)->Some_0);
        },
        WaylandEvent::XdgTopLevelClose => {
            assert(spec_pattern_of(args) =~= spec_event_pattern(key.0, key.1)->Some_0);
        },
        WaylandEvent::XdgTopLevelConfigureBounds { .. } => {
            assert(spec_pattern_of(args) =~= spec_event_pattern(key.0, key.1)->Some_0);
        },
        WaylandEvent::XdgTopLevelWmCapabilities { .. } => {
            assert(spec_pattern_of(args) =~= spec_event_pattern(key.0, key.1)->Some_0);
        },
    }
    lemma_args_match_agrees(
        spec_event_pattern(key.0, key.1)->Some_0,
        enc,
        args,
        Seq::<u8>::empty(),
    );
}

} // verus!
