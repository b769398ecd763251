//! Client-side core of a unary request/response protocol.
//!
//! Every operation is one round trip: the client opens a fresh stream,
//! writes a single length-prefixed request frame, reads a single
//! length-prefixed response frame, and closes the stream.  This crate
//! holds the verified part of that exchange: the wire codec, the
//! request-code table, the framing rules, the per-operation request
//! builders and response parsers, and a reference peer used to state
//! end-to-end guarantees.  The I/O itself is left to the caller.

pub mod codec;
pub mod frame;
pub mod ops;
pub mod peer;
pub mod request_code;
pub mod types;
pub mod wire;
pub mod wire_tidb;
