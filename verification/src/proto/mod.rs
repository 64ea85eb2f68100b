//! HTTP/3 protocol elements (RFC 9114): frames, settings, stream types and
//! error codes.
use vstd::prelude::*;

pub mod settings;
pub mod frame;
pub mod stream;
pub mod error;
pub mod headers;
pub mod header_lines;

verus! {
} // verus!
