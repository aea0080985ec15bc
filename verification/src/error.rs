//! The errors the client surfaces to its callers.

use crate::objects::WlHandlerRegistryError;
use crate::protocol;
use crate::wire_format::EncodeError;
use vstd::prelude::*;

verus! {

/// Everything that can go wrong inside the client.
#[derive(Debug)]
pub enum Error {
    /// The addressed object is not in the table.
    NoSuchObject,
    /// A handler is already installed on the object.
    HandlerAlreadlyInPlace,
    /// The object's recorded interface differs from the caller's.
    InvalidInterface,
    /// A frame could not be decoded into a typed event.
    WlProtocolError(protocol::Error),
    /// The addressed object has no handler for the delivered event.
    NoHandler { object_id: u32, event_id: u16 },
    /// A required global was never advertised by the server.
    MissingGlobal(crate::protocol::WaylandObject),
    /// A global for this interface is already registered.
    GlobalAlreadyRegistered,
    /// The client-side id counter is exhausted.
    IdSpaceExhausted,
    /// A request could not be serialised.
    RequestError(EncodeError),
    /// A frame announces a length shorter than its own header.
    BadFrameLength(u16),
    /// The stream delivered zero bytes: the peer closed the connection.
    PeerClosed,
    /// Writing to the socket failed; the process around the library maps
    /// its I/O failures here.
    StreamWrite,
}

impl Error {
    /// Lifts an object-table error.
    pub fn from_registry(e: WlHandlerRegistryError) -> (r: Error)
        ensures
            e == WlHandlerRegistryError::NoSuchObject ==> r is NoSuchObject,
            e == WlHandlerRegistryError::HandlerAlreadlyInPlace ==> r is HandlerAlreadlyInPlace,
            e == WlHandlerRegistryError::InvalidInterface ==> r is InvalidInterface,
    {
        match e {
            WlHandlerRegistryError::NoSuchObject => Error::NoSuchObject,
            WlHandlerRegistryError::HandlerAlreadlyInPlace => Error::HandlerAlreadlyInPlace,
            WlHandlerRegistryError::InvalidInterface => Error::InvalidInterface,
        }
    }
}

/// Classifies the byte count a stream read returned: a zero-byte read is
/// fatal, the peer has closed the stream.
pub fn read_result(count: usize) -> (r: Result<usize, Error>)
    ensures
        r is Ok <==> count != 0,
        r matches Ok(n) ==> n == count,
        r is Err <==> count == 0,
        r matches Err(e) ==> e is PeerClosed,
{
    if count == 0 {
        Err(Error::PeerClosed)
    } else {
        Ok(count)
    }
}

} // verus!
