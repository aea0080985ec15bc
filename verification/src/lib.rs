//! Client-side implementation of a Unix-domain display-server protocol:
//! length-prefixed binary frames over a stream socket, dynamically created
//! typed objects identified by numeric IDs, and per-object event handlers.
//!
//! The crate is organised as a sans-I/O engine: every decision the client
//! makes -- encoding requests, parsing frames, managing the object table,
//! bootstrapping the globals -- is ordinary verified code over plain values.
//! The surrounding process performs the socket reads and writes and hands
//! the bytes in and out.

pub mod buffer;
pub mod client;
pub mod error;
pub mod objects;
pub mod parser;
pub mod protocol;
pub mod parsing;
pub mod wire_format;
