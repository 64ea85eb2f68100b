//! Errors of reading encoder instructions on the QPACK encoder stream.
use vstd::prelude::*;
use crate::error::{Code, InternalConnectionError, QPACK_ENCODER_STREAM_ERROR};

verus! {

/// Error type for parsing encoder instructions
#[derive(Debug)]
pub enum ParseEncoderInstructionError {
    /// The buffer is not long enough to read the instruction; the caller
    /// decides what to do, as not all data may have arrived yet
    UnexpectedEnd,
    /// Failed to interpret the instruction
    ConnectionError(InternalConnectionError),
}

impl ParseEncoderInstructionError {
    /// An instruction that cannot be interpreted: a connection error of type
    /// `QPACK_ENCODER_STREAM_ERROR` with `message`.
    pub fn connection_error(message: String) -> (e: Self)
        ensures
            e matches ParseEncoderInstructionError::ConnectionError(c) && c.code.code == QPACK_ENCODER_STREAM_ERROR
                && c.message == message,
    {
        ParseEncoderInstructionError::ConnectionError(InternalConnectionError::new(
            Code::new(QPACK_ENCODER_STREAM_ERROR),
            message,
        ))
    }
}

} // verus!
