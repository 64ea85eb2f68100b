//! HTTP/3 (RFC 9114) and QPACK (RFC 9204) protocol logic: QUIC
//! variable-length integers, HTTP/3 frames and SETTINGS, reading frames from
//! a stream as its bytes arrive, QPACK prefix integers, string literals and
//! stream instructions, field-section validation, HTTP datagrams, the
//! decisions a connection takes on its peer's control stream, and the error
//! codes and errors of connections and streams.
//!
//! The library does no I/O: callers hand it the bytes they received and
//! perform the actions it returns.
use vstd::prelude::*;

pub mod varint;
pub mod qpack;
pub mod proto;
pub mod frame;
pub mod frame_stream;
pub mod buf;
pub mod quic;
pub mod text;
pub mod error;
pub mod error2;
pub mod shared_state;
pub mod connection_errors;
pub mod connection;
pub mod config;
pub mod params;
pub mod client;
pub mod server;
pub mod ext;
pub mod datagram_handler;
pub mod datagram_traits;
pub mod webtransport;

verus! {
} // verus!
