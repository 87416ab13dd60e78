//! Wire-level core of the WebSocket protocol: the binary frame codec
//! (header bits, variable payload-length fields, payload masking) and the
//! handshake responder that derives the accept token and formats the two
//! possible HTTP responses. Every function is a pure transformation on
//! byte buffers and strings; socket I/O belongs to the caller.

pub mod frame;
pub mod handshake;
pub mod mask;
