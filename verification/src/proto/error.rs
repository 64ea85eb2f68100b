//! HTTP/3 error codes as carried in frames (RFC 9114 section 8.1).
use vstd::prelude::*;

verus! {

/// No error.
pub const NO_ERROR: u32 = 0x100;
/// General protocol error.
pub const GENERAL_PROTOCOL_ERROR: u32 = 0x101;
/// Internal error.
pub const INTERNAL_ERROR: u32 = 0x102;
/// Stream creation error.
pub const STREAM_CREATION_ERROR: u32 = 0x103;
/// Critical stream was closed.
pub const CLOSED_CRITICAL_STREAM: u32 = 0x104;
/// Frame not permitted in the current state.
pub const FRAME_UNEXPECTED: u32 = 0x105;
/// Frame violated layout or size rules.
pub const FRAME_ERROR: u32 = 0x106;
/// Peer generating excessive load.
pub const EXCESSIVE_LOAD: u32 = 0x107;
/// An identifier was used incorrectly.
pub const ID_ERROR: u32 = 0x108;
/// SETTINGS frame contained invalid values.
pub const SETTINGS_ERROR: u32 = 0x109;
/// No SETTINGS frame received.
pub const MISSING_SETTINGS: u32 = 0x10A;
/// Request not processed.
pub const REQUEST_REJECTED: u32 = 0x10B;
/// Data no longer needed.
pub const REQUEST_CANCELLED: u32 = 0x10C;
/// Stream terminated early.
pub const REQUEST_INCOMPLETE: u32 = 0x10D;
/// TCP reset or error on CONNECT request.
pub const CONNECT_ERROR: u32 = 0x10F;
/// Retry over HTTP/1.1.
pub const VERSION_FALLBACK: u32 = 0x110;
/// Decoding of a field section failed.
pub const QPACK_DECOMPRESSION_FAILED: u32 = 0x200;
/// Error on the encoder stream.
pub const QPACK_ENCODER_STREAM_ERROR: u32 = 0x201;
/// Error on the decoder stream.
pub const QPACK_DECODER_STREAM_ERROR: u32 = 0x202;

/// An HTTP/3 error code.
#[derive(Copy, Clone, Eq, PartialEq, Debug, Structural)]
pub struct ErrorCode(pub u32);

impl ErrorCode {
    /// The code as a variable-length integer.
    pub fn to_varint(self) -> (v: u64)
        ensures
            v == self.0,
    {
        self.0 as u64
    }

    /// The code read from a variable-length integer: its low 32 bits.
    pub fn from_varint(v: u64) -> (c: ErrorCode)
        ensures
            c.0 == v % 0x1_0000_0000,
    {
        proof {
            assert((v as u32) == v % 0x1_0000_0000) by (bit_vector);
        }
        ErrorCode(v as u32)
    }
}

} // verus!
