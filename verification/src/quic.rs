//! Errors that the QUIC transport reports to the HTTP/3 layer.
use vstd::prelude::*;

verus! {

/// Error type to communicate that the quic connection was closed
#[derive(Debug, PartialEq, Eq)]
pub enum ConnectionErrorIncoming {
    /// Error from the http3 layer
    ApplicationClose {
        /// http3 error code
        error_code: u64,
    },
    /// Quic connection timeout
    Timeout,
    /// An internal error occurred within the transport; h3 closes the
    /// connection with H3_INTERNAL_ERROR
    InternalError(String),
    /// An unknown error, not relevant to h3, described by its message
    Undefined(String),
}

/// Error type to communicate that the stream was closed
#[derive(Debug, PartialEq, Eq)]
pub enum StreamErrorIncoming {
    /// Stream is closed because the whole connection is closed
    ConnectionErrorIncoming {
        /// Connection error
        connection_error: ConnectionErrorIncoming,
    },
    /// Stream side was closed by the peer
    StreamTerminated {
        /// Error code sent by the peer
        error_code: u64,
    },
    /// An unknown error, not relevant to h3, described by its message
    Unknown(String),
}

impl Clone for ConnectionErrorIncoming {
    fn clone(&self) -> (r: Self)
        ensures
            r == *self,
    {
        match self {
            ConnectionErrorIncoming::ApplicationClose { error_code } => ConnectionErrorIncoming::ApplicationClose {
                error_code: *error_code,
            },
            ConnectionErrorIncoming::Timeout => ConnectionErrorIncoming::Timeout,
            ConnectionErrorIncoming::InternalError(s) => ConnectionErrorIncoming::InternalError(s.clone()),
            ConnectionErrorIncoming::Undefined(s) => ConnectionErrorIncoming::Undefined(s.clone()),
        }
    }
}

impl Clone for StreamErrorIncoming {
    fn clone(&self) -> (r: Self)
        ensures
            r == *self,
    {
        match self {
            StreamErrorIncoming::ConnectionErrorIncoming { connection_error } => StreamErrorIncoming::ConnectionErrorIncoming {
                connection_error: connection_error.clone(),
            },
            StreamErrorIncoming::StreamTerminated { error_code } => StreamErrorIncoming::StreamTerminated {
                error_code: *error_code,
            },
            StreamErrorIncoming::Unknown(s) => StreamErrorIncoming::Unknown(s.clone()),
        }
    }
}

/// Checks whether a stream was opened during 0-RTT (RFC 8470 section 5.2).
pub trait Is0rtt {
    /// Whether the stream was opened during the 0-RTT phase.
    fn is_0rtt(&self) -> bool;
}

} // verus!
