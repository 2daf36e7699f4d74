//! A client for cameras that stream over a session-oriented control protocol.
//!
//! The library holds the logic and leaves the sockets to the caller: `session` turns
//! requests and responses into text and keeps the sequence counter, `codec` reads the
//! headers of transport packets, `reassembler` and `capture` gather packet payloads into
//! access units, and `decoder` hands a finished unit to the video decoder.

pub mod capture;
pub mod codec;
pub mod decoder;
pub mod error;
pub mod reassembler;
pub mod session;
pub mod text;
