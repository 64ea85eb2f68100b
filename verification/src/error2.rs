//! The errors of connections and request streams, in the form that tells
//! whether an error concerns the whole connection or one stream.
use vstd::prelude::*;
use crate::error::{
    Code, H3_FRAME_ERROR, H3_FRAME_UNEXPECTED, H3_ID_ERROR, H3_INTERNAL_ERROR, H3_SETTINGS_ERROR,
};
use crate::frame::FrameError;
use crate::quic::ConnectionErrorIncoming;

verus! {

/// Whether an error affects the connection or the stream
#[derive(Debug, Clone, Copy, PartialEq, Eq, Structural, Hash)]
pub enum ErrorScope {
    /// The error affects the connection
    Connection,
    /// The error affects the stream
    Stream,
}

/// An error found on a request stream, which has not yet affected the
/// connection or the stream.
#[derive(Debug, Clone, Copy, PartialEq, Eq, Hash)]
pub struct InternalRequestStreamError {
    /// The error scope
    pub scope: ErrorScope,
    /// The error code
    pub code: Code,
    /// The error message
    pub message: &'static str,
}

impl InternalRequestStreamError {
    /// Create a new internal request stream error
    pub fn new(scope: ErrorScope, code: Code, message: &'static str) -> (e: Self)
        ensures
            e.scope == scope,
            e.code == code,
            e.message == message,
    {
        Self { scope, code, message }
    }
}

/// An error found on the connection, which has not yet closed it.
#[derive(Debug, Clone, Copy, PartialEq, Eq, Hash)]
pub struct InternalConnectionError {
    /// The error code
    pub code: Code,
    /// The error message
    pub message: &'static str,
}

/// The code a frame error closes the connection with, `None` for the frame
/// errors that do not close it (RFC 9114 sections 7.1 and 7.2.8): unknown
/// frames are skipped, and an oversized frame is refused by the stream that
/// holds it.
pub open spec fn spec_frame_error_connection_code(value: FrameError) -> Option<u64> {
    match value {
        FrameError::Settings(_) => Some(H3_SETTINGS_ERROR),
        FrameError::UnsupportedFrame(_) => Some(H3_FRAME_UNEXPECTED),
        FrameError::SkipUnknown { .. } => None,
        FrameError::TooLarge { .. } => None,
        FrameError::InvalidStreamId(_) | FrameError::InvalidPushId(_) => Some(H3_ID_ERROR),
        FrameError::Incomplete(_) | FrameError::Malformed | FrameError::InvalidFrameValue => Some(H3_FRAME_ERROR),
    }
}

impl InternalConnectionError {
    /// Create a new internal connection error
    pub fn new(code: Code, message: &'static str) -> (e: Self)
        ensures
            e.code == code,
            e.message == message,
    {
        Self { code, message }
    }

    /// The connection error a frame error is, if it is one.
    pub fn frame_error_is_connection_error(value: FrameError) -> (r: Option<Self>)
        ensures
            match spec_frame_error_connection_code(value) {
                Some(c) => r matches Some(e) && e.code.code == c && e.message@ == ""@,
                None => r is None,
            },
    {
        let code = match value {
            FrameError::Settings(_) => H3_SETTINGS_ERROR,
            FrameError::UnsupportedFrame(_) => H3_FRAME_UNEXPECTED,
            FrameError::SkipUnknown { .. } => return None,
            FrameError::TooLarge { .. } => return None,
            FrameError::InvalidStreamId(_) | FrameError::InvalidPushId(_) => H3_ID_ERROR,
            FrameError::Incomplete(_) | FrameError::Malformed | FrameError::InvalidFrameValue => H3_FRAME_ERROR,
        };
        Some(InternalConnectionError::new(Code::new(code), ""))
    }
}

/// A local error.
#[derive(Debug, Clone, Hash)]
pub enum LocalError {
    /// The application closed the connection
    Application {
        /// The error code
        code: Code,
        /// The error reason
        reason: String,
    },
    /// The connection is closing
    Closing,
}

/// Whether the error occurred on the local or remote side of the connection
#[derive(Debug, Clone)]
pub enum ConnectionError {
    /// The error occurred on the local side of the connection
    Local {
        /// The error
        error: LocalError,
    },
    /// Error returned by the quic layer: a QUIC error, or the peer closed the
    /// connection with an error
    Remote(ConnectionErrorIncoming),
    /// Timeout occurred
    Timeout,
}

impl ConnectionError {
    /// The error of a connection in the closing state
    pub fn closing() -> (e: Self)
        ensures
            e matches ConnectionError::Local { error: LocalError::Closing },
    {
        ConnectionError::Local { error: LocalError::Closing }
    }
}

/// A stream error.
#[derive(Debug, Clone)]
pub enum StreamError {
    /// The error occurred on the stream
    StreamError {
        /// The error code
        code: Code,
        /// The error reason
        reason: String,
    },
    /// Stream was Reset by the peer
    RemoteReset {
        /// Reset code received from the peer
        code: Code,
    },
    /// The error occurred on the connection
    ConnectionError(ConnectionError),
    /// A field section larger than MAX_FIELD_SECTION_SIZE
    HeaderTooBig {
        /// The actual size of the header block
        actual_size: u64,
        /// The maximum size of the header block
        max_size: u64,
    },
    /// Undefined error propagated by the quic layer, described by its message
    Undefined(String),
}

/// An error the QUIC layer reports before any HTTP/3 connection exists:
/// the connection error it becomes, and the code and reason to close the
/// QUIC connection with where this endpoint must close it. A timeout is a
/// timeout; an internal error of the QUIC layer closes with
/// `H3_INTERNAL_ERROR` and its text; anything else the QUIC layer reported
/// is remote and has closed the connection already.
pub fn handle_quic_error_raw(error: ConnectionErrorIncoming) -> (r: (ConnectionError, Option<(Code, String)>))
    ensures
        match error {
            ConnectionErrorIncoming::Timeout => r matches (ConnectionError::Timeout, None),
            ConnectionErrorIncoming::InternalError(reason) => r.1 == Some((Code { code: H3_INTERNAL_ERROR }, reason))
                && r.0 == (ConnectionError::Local {
                error: LocalError::Application { code: Code { code: H3_INTERNAL_ERROR }, reason },
            }),
            _ => r.1 is None && r.0 == ConnectionError::Remote(error),
        },
{
    match error {
        ConnectionErrorIncoming::Timeout => (ConnectionError::Timeout, None),
        ConnectionErrorIncoming::InternalError(reason) => {
            let code = Code::new(H3_INTERNAL_ERROR);
            let close_reason = reason.clone();
            (ConnectionError::Local { error: LocalError::Application { code, reason } }, Some((code, close_reason)))
        },
        _ => (ConnectionError::Remote(error), None),
    }
}

/// An error this endpoint finds before any HTTP/3 connection exists: the
/// local connection error it becomes, and the code and reason to close the
/// QUIC connection with.
pub fn close_raw_connection_with_h3_error(internal_error: InternalConnectionError) -> (r: (ConnectionError, (Code, String)))
    ensures
        r.1.0 == internal_error.code,
        r.1.1@ == internal_error.message@,
        r.0 == (ConnectionError::Local {
            error: LocalError::Application { code: internal_error.code, reason: r.1.1 },
        }),
{
    let reason = internal_error.message.to_owned();
    let close_reason = reason.clone();
    (
        ConnectionError::Local { error: LocalError::Application { code: internal_error.code, reason } },
        (internal_error.code, close_reason),
    )
}

} // verus!
