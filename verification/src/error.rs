//! Error codes of HTTP/3 (RFC 9114 section 8.1, RFC 9204 section 6,
//! RFC 9297 section 5) and the errors that a connection or a stream reports.
//!
//! Errors come from two places: this endpoint finds that the peer broke the
//! protocol (an `InternalConnectionError`), or the QUIC layer reports that the
//! connection was closed (a `ConnectionErrorIncoming`). A connection closed
//! with `H3_NO_ERROR`, locally or by the peer, was closed without an error.
use vstd::prelude::*;
use crate::frame::FrameProtocolError;
use crate::proto::settings::spec_settings_error_message;
use crate::quic::{ConnectionErrorIncoming, StreamErrorIncoming};
use crate::text::{push_decimal, spec_decimal};

verus! {

/// No error; used when the connection or stream is closed without one.
pub const H3_NO_ERROR: u64 = 0x100;
/// The peer broke the protocol in a way no more specific code covers.
pub const H3_GENERAL_PROTOCOL_ERROR: u64 = 0x101;
/// An internal error in the HTTP stack.
pub const H3_INTERNAL_ERROR: u64 = 0x102;
/// The peer created a stream that will not be accepted.
pub const H3_STREAM_CREATION_ERROR: u64 = 0x103;
/// A stream required by the connection was closed or reset.
pub const H3_CLOSED_CRITICAL_STREAM: u64 = 0x104;
/// A frame was received that is not permitted in the current state or stream.
pub const H3_FRAME_UNEXPECTED: u64 = 0x105;
/// A frame that fails its layout requirements or has an invalid size.
pub const H3_FRAME_ERROR: u64 = 0x106;
/// The peer is generating excessive load.
pub const H3_EXCESSIVE_LOAD: u64 = 0x107;
/// A stream or push identifier was used incorrectly.
pub const H3_ID_ERROR: u64 = 0x108;
/// An error in the payload of a SETTINGS frame.
pub const H3_SETTINGS_ERROR: u64 = 0x109;
/// No SETTINGS frame at the start of the control stream.
pub const H3_MISSING_SETTINGS: u64 = 0x10a;
/// The server rejected a request without performing any processing.
pub const H3_REQUEST_REJECTED: u64 = 0x10b;
/// The request or its response is cancelled.
pub const H3_REQUEST_CANCELLED: u64 = 0x10c;
/// The client's stream terminated without a fully formed request.
pub const H3_REQUEST_INCOMPLETE: u64 = 0x10d;
/// An HTTP message was malformed.
pub const H3_MESSAGE_ERROR: u64 = 0x10e;
/// The TCP connection of a CONNECT request was reset or closed.
pub const H3_CONNECT_ERROR: u64 = 0x10f;
/// The request should be retried over HTTP/1.1.
pub const H3_VERSION_FALLBACK: u64 = 0x110;
/// The decoder failed to interpret an encoded field section.
pub const QPACK_DECOMPRESSION_FAILED: u64 = 0x200;
/// The decoder failed to interpret an encoder instruction.
pub const QPACK_ENCODER_STREAM_ERROR: u64 = 0x201;
/// The encoder failed to interpret a decoder instruction.
pub const QPACK_DECODER_STREAM_ERROR: u64 = 0x202;
/// An HTTP/3 datagram could not be parsed.
pub const H3_DATAGRAM_ERROR: u64 = 0x33;

/// An HTTP/3 error code.
#[derive(Debug, Clone, Copy, PartialEq, Eq, Structural, Hash)]
pub struct Code {
    /// The code's value on the wire.
    pub code: u64,
}

impl Code {
    /// The code with the given value.
    pub fn new(code: u64) -> (c: Code)
        ensures
            c.code == code,
    {
        Code { code }
    }

    /// The code's value on the wire.
    pub fn value(&self) -> (v: u64)
        ensures
            v == self.code,
    {
        self.code
    }
}

impl From<u64> for Code {
    fn from(code: u64) -> (c: Code) {
        Code { code }
    }
}

impl vstd::std_specs::convert::FromSpecImpl<u64> for Code {
    open spec fn obeys_from_spec() -> bool {
        true
    }

    open spec fn from_spec(code: u64) -> Code {
        Code { code }
    }
}

/// An error this endpoint found, which has not yet closed the connection: the
/// code to close it with and the reason.
#[derive(Debug, Hash)]
pub struct InternalConnectionError {
    /// The error code
    pub code: Code,
    /// The error message
    pub message: String,
}

/// The text of the error a malformed or truncated frame payload is closed with.
pub open spec fn spec_frame_payload_message() -> Seq<char> {
    "frame payload that contains additional bytes after the identified fields or a frame payload that terminates before the end of the identified fields"@
}

/// The code a frame error closes the connection with (RFC 9114 sections 7.1
/// and 7.2.8).
pub open spec fn spec_frame_error_code(e: FrameProtocolError) -> u64 {
    match e {
        FrameProtocolError::InvalidStreamId(_) | FrameProtocolError::InvalidPushId(_) => H3_ID_ERROR,
        FrameProtocolError::Settings(_) => H3_SETTINGS_ERROR,
        FrameProtocolError::ForbiddenFrame(_) => H3_FRAME_UNEXPECTED,
        FrameProtocolError::InvalidFrameValue | FrameProtocolError::Malformed => H3_FRAME_ERROR,
    }
}

/// The reason a frame error closes the connection with.
pub open spec fn spec_frame_error_message(e: FrameProtocolError) -> Seq<char> {
    match e {
        FrameProtocolError::InvalidStreamId(id) => "invalid stream id: "@ + spec_decimal(id as nat),
        FrameProtocolError::InvalidPushId(id) => "invalid push id: "@ + spec_decimal(id as nat),
        FrameProtocolError::Settings(s) => spec_settings_error_message(s),
        FrameProtocolError::ForbiddenFrame(n) => "received a forbidden frame with number "@ + spec_decimal(
            n as nat,
        ),
        FrameProtocolError::InvalidFrameValue | FrameProtocolError::Malformed => spec_frame_payload_message(),
    }
}

impl InternalConnectionError {
    /// An error with the given code and reason.
    pub fn new(code: Code, message: String) -> (e: Self)
        ensures
            e.code == code,
            e.message == message,
    {
        Self { code, message }
    }

    /// The error a frame error closes the connection with.
    pub fn got_frame_error(value: FrameProtocolError) -> (e: Self)
        ensures
            e.code.code == spec_frame_error_code(value),
            e.message@ == spec_frame_error_message(value),
    {
        match value {
            FrameProtocolError::InvalidStreamId(id) => {
                let mut message = "invalid stream id: ".to_owned();
                push_decimal(&mut message, id);
                InternalConnectionError { code: Code::new(H3_ID_ERROR), message }
            },
            FrameProtocolError::InvalidPushId(id) => {
                let mut message = "invalid push id: ".to_owned();
                push_decimal(&mut message, id);
                InternalConnectionError { code: Code::new(H3_ID_ERROR), message }
            },
            FrameProtocolError::Settings(error) => InternalConnectionError {
                code: Code::new(H3_SETTINGS_ERROR),
                message: error.to_string(),
            },
            FrameProtocolError::ForbiddenFrame(number) => {
                let mut message = "received a forbidden frame with number ".to_owned();
                push_decimal(&mut message, number);
                InternalConnectionError { code: Code::new(H3_FRAME_UNEXPECTED), message }
            },
            FrameProtocolError::InvalidFrameValue | FrameProtocolError::Malformed => InternalConnectionError {
                code: Code::new(H3_FRAME_ERROR),
                message: "frame payload that contains additional bytes after the identified fields or a frame payload that terminates before the end of the identified fields".to_owned(),
            },
        }
    }
}

/// Where a connection error came from.
#[derive(Debug)]
pub enum ErrorOrigin {
    /// This endpoint found the error.
    Internal(InternalConnectionError),
    /// The QUIC layer reported it.
    Quic(ConnectionErrorIncoming),
}

impl From<InternalConnectionError> for ErrorOrigin {
    fn from(error: InternalConnectionError) -> (r: ErrorOrigin) {
        ErrorOrigin::Internal(error)
    }
}

impl vstd::std_specs::convert::FromSpecImpl<InternalConnectionError> for ErrorOrigin {
    open spec fn obeys_from_spec() -> bool {
        true
    }

    open spec fn from_spec(error: InternalConnectionError) -> ErrorOrigin {
        ErrorOrigin::Internal(error)
    }
}

impl From<ConnectionErrorIncoming> for ErrorOrigin {
    fn from(error: ConnectionErrorIncoming) -> (r: ErrorOrigin) {
        ErrorOrigin::Quic(error)
    }
}

impl vstd::std_specs::convert::FromSpecImpl<ConnectionErrorIncoming> for ErrorOrigin {
    open spec fn obeys_from_spec() -> bool {
        true
    }

    open spec fn from_spec(error: ConnectionErrorIncoming) -> ErrorOrigin {
        ErrorOrigin::Quic(error)
    }
}

/// A local error.
#[derive(Debug, Hash)]
pub enum LocalError {
    /// The application closed the connection
    Application {
        /// The error code
        code: Code,
        /// The error reason
        reason: String,
    },
    /// Graceful closing of the connection initiated by the local peer
    Closing,
}

impl From<InternalConnectionError> for LocalError {
    fn from(err: InternalConnectionError) -> (r: LocalError) {
        LocalError::Application { code: err.code, reason: err.message }
    }
}

impl vstd::std_specs::convert::FromSpecImpl<InternalConnectionError> for LocalError {
    open spec fn obeys_from_spec() -> bool {
        true
    }

    open spec fn from_spec(err: InternalConnectionError) -> LocalError {
        LocalError::Application { code: err.code, reason: err.message }
    }
}

/// The closure of a connection: by this endpoint, by the peer or the QUIC
/// layer, or by a timeout.
#[derive(Debug)]
pub enum ConnectionError {
    /// The error occurred on the local side of the connection
    Local {
        /// The error
        error: LocalError,
    },
    /// Error returned by the quic layer: a QUIC error, or the peer closed the
    /// connection with an error
    Remote(ConnectionErrorIncoming),
    /// Timeout occurred
    Timeout,
}

/// Whether a connection error is a closure with `H3_NO_ERROR`, local or remote.
pub open spec fn spec_connection_no_error(e: ConnectionError) -> bool {
    match e {
        ConnectionError::Local { error: LocalError::Application { code, .. } } => code.code == H3_NO_ERROR,
        ConnectionError::Remote(ConnectionErrorIncoming::ApplicationClose { error_code }) => error_code
            == H3_NO_ERROR,
        _ => false,
    }
}

impl ConnectionError {
    /// Returns if the error is H3_NO_ERROR local or remote
    pub fn is_h3_no_error(&self) -> (b: bool)
        ensures
            b == spec_connection_no_error(*self),
    {
        match self {
            ConnectionError::Local { error: LocalError::Application { code, .. } } => code.code == H3_NO_ERROR,
            ConnectionError::Remote(ConnectionErrorIncoming::ApplicationClose { error_code }) => *error_code
                == H3_NO_ERROR,
            _ => false,
        }
    }
}

/// The connection error that an error of the given origin becomes: an error
/// found here closes locally with its code and reason, a QUIC timeout is a
/// timeout, and anything else the QUIC layer reported is remote.
pub open spec fn spec_convert_to_connection_error(error: ErrorOrigin) -> ConnectionError {
    match error {
        ErrorOrigin::Internal(e) => ConnectionError::Local {
            error: LocalError::Application { code: e.code, reason: e.message },
        },
        ErrorOrigin::Quic(ConnectionErrorIncoming::Timeout) => ConnectionError::Timeout,
        ErrorOrigin::Quic(e) => ConnectionError::Remote(e),
    }
}

/// Converts an error origin into the connection error it becomes.
pub fn convert_to_connection_error(error: ErrorOrigin) -> (r: ConnectionError)
    ensures
        r == spec_convert_to_connection_error(error),
{
    match error {
        ErrorOrigin::Internal(internal_error) => ConnectionError::Local {
            error: LocalError::Application { code: internal_error.code, reason: internal_error.message },
        },
        ErrorOrigin::Quic(ConnectionErrorIncoming::Timeout) => ConnectionError::Timeout,
        ErrorOrigin::Quic(connection_error) => ConnectionError::Remote(connection_error),
    }
}

/// A stream error.
#[derive(Debug)]
pub enum StreamError {
    /// The error occurred on the stream
    StreamError {
        /// The error code
        code: Code,
        /// The error reason
        reason: String,
    },
    /// The remote peer terminated the corresponding stream side: a reset of
    /// its sending side or a STOP_SENDING on its receiving side
    RemoteTerminate {
        /// Reset code received from the peer
        code: Code,
    },
    /// The error occurred on the connection
    ConnectionError(ConnectionError),
    /// A field section larger than MAX_FIELD_SECTION_SIZE
    HeaderTooBig {
        /// The actual size of the header block
        actual_size: u64,
        /// The maximum size of the header block
        max_size: u64,
    },
    /// Received a GoAway frame from the remote; stream operations cannot be
    /// performed
    RemoteClosing,
    /// Undefined error propagated by the quic layer, described by its message
    Undefined(String),
}

/// Whether a stream error is a closure with `H3_NO_ERROR`.
pub open spec fn spec_stream_no_error(e: StreamError) -> bool {
    match e {
        StreamError::StreamError { code, .. } => code.code == H3_NO_ERROR,
        StreamError::RemoteTerminate { code } => code.code == H3_NO_ERROR,
        StreamError::ConnectionError(c) => spec_connection_no_error(c),
        _ => false,
    }
}

impl StreamError {
    /// Returns if the error is H3_NO_ERROR
    pub fn is_h3_no_error(&self) -> (b: bool)
        ensures
            b == spec_stream_no_error(*self),
    {
        match self {
            StreamError::StreamError { code, .. } => code.code == H3_NO_ERROR,
            StreamError::RemoteTerminate { code } => code.code == H3_NO_ERROR,
            StreamError::ConnectionError(conn_error) => conn_error.is_h3_no_error(),
            _ => false,
        }
    }
}

impl Clone for InternalConnectionError {
    fn clone(&self) -> (r: Self)
        ensures
            r == *self,
    {
        InternalConnectionError { code: self.code, message: self.message.clone() }
    }
}

impl Clone for ErrorOrigin {
    fn clone(&self) -> (r: Self)
        ensures
            r == *self,
    {
        match self {
            ErrorOrigin::Internal(e) => ErrorOrigin::Internal(e.clone()),
            ErrorOrigin::Quic(e) => ErrorOrigin::Quic(e.clone()),
        }
    }
}

impl Clone for LocalError {
    fn clone(&self) -> (r: Self)
        ensures
            r == *self,
    {
        match self {
            LocalError::Application { code, reason } => LocalError::Application { code: *code, reason: reason.clone() },
            LocalError::Closing => LocalError::Closing,
        }
    }
}

impl Clone for ConnectionError {
    fn clone(&self) -> (r: Self)
        ensures
            r == *self,
    {
        match self {
            ConnectionError::Local { error } => ConnectionError::Local { error: error.clone() },
            ConnectionError::Remote(e) => ConnectionError::Remote(e.clone()),
            ConnectionError::Timeout => ConnectionError::Timeout,
        }
    }
}

} // verus!
