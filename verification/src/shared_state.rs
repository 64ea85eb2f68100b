//! The state a connection shares with its streams: the connection-wide error,
//! the peer's limit on field sections, and whether the peer is closing.
//!
//! The first connection error recorded is the one every stream reports: a
//! later error does not replace it.
use vstd::prelude::*;
use crate::error::{
    convert_to_connection_error, spec_convert_to_connection_error, Code, ConnectionError,
    ErrorOrigin, InternalConnectionError, StreamError, H3_FRAME_ERROR, spec_frame_error_code,
    spec_frame_error_message,
};
use crate::frame::FrameStreamError;
use crate::quic::{ConnectionErrorIncoming, StreamErrorIncoming};

verus! {

/// The largest value of a variable-length integer, `2^62 - 1`.
pub const VARINT_MAX: u64 = 0x3fff_ffff_ffff_ffff;

/// The state shared by a connection and its streams.
pub struct SharedState {
    /// maximum size for a header we send
    pub peer_max_field_section_size: u64,
    /// connection-wide error, concerns all request streams and drivers
    pub error: Option<ErrorOrigin>,
    /// The last stream identifier the peer is willing to accept, once it sent
    /// a GOAWAY frame
    pub closing: Option<u64>,
    /// Stream ID of the last accepted Stream
    pub last_accepted_stream: Option<u64>,
}

impl Default for SharedState {
    fn default() -> (s: Self)
        ensures
            s.peer_max_field_section_size == VARINT_MAX,
            s.error is None,
            s.closing is None,
            s.last_accepted_stream is None,
    {
        SharedState { peer_max_field_section_size: VARINT_MAX, error: None, closing: None, last_accepted_stream: None }
    }
}

/// Recording `error` when `current` is the recorded error: the error recorded
/// afterwards and the one reported.
pub open spec fn spec_set_conn_error(current: Option<ErrorOrigin>, error: ErrorOrigin) -> (Option<ErrorOrigin>, ErrorOrigin) {
    match current {
        Some(e) => (Some(e), e),
        None => (Some(error), error),
    }
}

/// The stream error that a stream error reported by the QUIC layer becomes,
/// with the connection error that is recorded first.
pub open spec fn spec_quic_stream_error(current: Option<ErrorOrigin>, error: StreamErrorIncoming) -> (Option<ErrorOrigin>, StreamError) {
    match error {
        StreamErrorIncoming::ConnectionErrorIncoming { connection_error } => {
            let (next, e) = spec_set_conn_error(current, ErrorOrigin::Quic(connection_error));
            (next, StreamError::ConnectionError(spec_convert_to_connection_error(e)))
        },
        StreamErrorIncoming::StreamTerminated { error_code } => (current, StreamError::RemoteTerminate {
            code: Code { code: error_code },
        }),
        StreamErrorIncoming::Unknown(msg) => (current, StreamError::Undefined(msg)),
    }
}

impl SharedState {
    /// Records `error` as the connection error unless one is recorded
    /// already; returns the recorded one.
    pub fn set_conn_error(&mut self, error: ErrorOrigin) -> (r: ErrorOrigin)
        ensures
            (final(self).error, r) == spec_set_conn_error(old(self).error, error),
            final(self).peer_max_field_section_size == old(self).peer_max_field_section_size,
            final(self).closing == old(self).closing,
            final(self).last_accepted_stream == old(self).last_accepted_stream,
    {
        match &self.error {
            Some(e) => e.clone(),
            None => {
                self.error = Some(error.clone());
                error
            },
        }
    }

    /// The recorded connection error, if any.
    pub fn get_conn_error(&self) -> (r: Option<ErrorOrigin>)
        ensures
            r == self.error,
    {
        match &self.error {
            Some(e) => Some(e.clone()),
            None => None,
        }
    }

    /// Whether the peer sent a GOAWAY frame.
    pub fn is_closing(&self) -> (b: bool)
        ensures
            b == self.closing is Some,
    {
        self.closing.is_some()
    }

    /// The recorded connection error if there is one, else `err`.
    pub fn maybe_conn_err(&self, err: ErrorOrigin) -> (r: ErrorOrigin)
        ensures
            r == (match self.error {
                Some(e) => e,
                None => err,
            }),
    {
        match &self.error {
            Some(e) => e.clone(),
            None => err,
        }
    }

    /// A connection error found on a stream: records it (unless an earlier
    /// one is recorded) and reports the recorded one to the stream.
    pub fn handle_connection_error_on_stream(&mut self, internal_error: InternalConnectionError) -> (r: StreamError)
        ensures
            ({
                let (next, e) = spec_set_conn_error(old(self).error, ErrorOrigin::Internal(internal_error));
                &&& final(self).error == next
                &&& r == StreamError::ConnectionError(spec_convert_to_connection_error(e))
            }),
            final(self).closing == old(self).closing,
    {
        let err = self.set_conn_error(ErrorOrigin::Internal(internal_error));
        StreamError::ConnectionError(convert_to_connection_error(err))
    }

    /// A stream error reported by the QUIC layer: a closed connection is
    /// recorded as the connection error (unless an earlier one is), a
    /// terminated stream reports the peer's code.
    pub fn handle_quic_stream_error(&mut self, error: StreamErrorIncoming) -> (r: StreamError)
        ensures
            (final(self).error, r) == spec_quic_stream_error(old(self).error, error),
            final(self).closing == old(self).closing,
    {
        match error {
            StreamErrorIncoming::ConnectionErrorIncoming { connection_error } => {
                let err = self.set_conn_error(ErrorOrigin::Quic(connection_error));
                StreamError::ConnectionError(convert_to_connection_error(err))
            },
            StreamErrorIncoming::StreamTerminated { error_code } => StreamError::RemoteTerminate {
                code: Code::new(error_code),
            },
            StreamErrorIncoming::Unknown(msg) => StreamError::Undefined(msg),
        }
    }

    /// `RemoteClosing` when the peer is closing the connection, so no new
    /// request or push may start.
    pub fn check_peer_connection_closing(&self) -> (r: Option<StreamError>)
        ensures
            r == (if self.closing is Some {
                Some(StreamError::RemoteClosing)
            } else {
                None
            }),
    {
        if self.is_closing() {
            return Some(StreamError::RemoteClosing);
        }
        None
    }

    /// An error reading frames on a request stream: a transport error is
    /// handled as `handle_quic_stream_error`; a protocol error, or a stream
    /// that ends inside a frame (`H3_FRAME_ERROR`), is a connection error; a
    /// frame too large to buffer is refused as a field section over the
    /// limit.
    pub fn handle_frame_stream_error_on_request_stream(&mut self, error: FrameStreamError) -> (r: StreamError)
        ensures
            match error {
                FrameStreamError::Quic(e) => (final(self).error, r) == spec_quic_stream_error(old(self).error, e),
                FrameStreamError::Proto(p) => exists|ie: InternalConnectionError| {
                    &&& ie.code.code == spec_frame_error_code(p)
                    &&& ie.message@ == spec_frame_error_message(p)
                    &&& spec_recorded_on_stream(old(self).error, ie, final(self).error, r)
                },
                FrameStreamError::UnexpectedEnd => exists|ie: InternalConnectionError| {
                    &&& ie.code.code == H3_FRAME_ERROR
                    &&& ie.message@ == "received incomplete frame"@
                    &&& spec_recorded_on_stream(old(self).error, ie, final(self).error, r)
                },
                FrameStreamError::PayloadTooLarge { actual_size, max_size, .. } => final(self).error == old(self).error
                    && r == (StreamError::HeaderTooBig { actual_size, max_size }),
            },
    {
        match error {
            FrameStreamError::Quic(error) => self.handle_quic_stream_error(error),
            FrameStreamError::Proto(frame_error) => {
                let e = InternalConnectionError::got_frame_error(frame_error);
                let ghost ie = e;
                let r = self.handle_connection_error_on_stream(e);
                assert(spec_recorded_on_stream(old(self).error, ie, self.error, r));
                r
            },
            FrameStreamError::UnexpectedEnd => {
                let e = InternalConnectionError::new(Code::new(H3_FRAME_ERROR), "received incomplete frame".to_owned());
                let ghost ie = e;
                let r = self.handle_connection_error_on_stream(e);
                assert(spec_recorded_on_stream(old(self).error, ie, self.error, r));
                r
            },
            FrameStreamError::PayloadTooLarge { actual_size, max_size, .. } => StreamError::HeaderTooBig {
                actual_size,
                max_size,
            },
        }
    }
}

/// Recording the connection error `ie` found on a stream, when `current` is
/// the recorded error, leaves `next` recorded and reports `r` to the stream.
pub open spec fn spec_recorded_on_stream(
    current: Option<ErrorOrigin>,
    ie: InternalConnectionError,
    next: Option<ErrorOrigin>,
    r: StreamError,
) -> bool {
    let (n, e) = spec_set_conn_error(current, ErrorOrigin::Internal(ie));
    &&& next == n
    &&& r == StreamError::ConnectionError(spec_convert_to_connection_error(e))
}

/// The first connection error recorded stays: recording another one keeps
/// it and reports it, and recording into an empty state records the new one.
pub proof fn lemma_first_error_wins(current: Option<ErrorOrigin>, a: ErrorOrigin, b: ErrorOrigin)
    ensures
        ({
            let (s1, r1) = spec_set_conn_error(current, a);
            let (s2, r2) = spec_set_conn_error(s1, b);
            &&& s2 == s1
            &&& r2 == r1
            &&& s1 is Some
            &&& current is None ==> r1 == a
            &&& current matches Some(e) ==> r1 == e
        }),
{
}

/// Anything that holds the state of a connection.
pub trait ConnectionState {
    /// The shared state held.
    spec fn spec_shared_state(&self) -> SharedState;

    /// The shared state held.
    fn shared_state(&self) -> (s: &SharedState)
        ensures
            *s == self.spec_shared_state(),
    ;

    /// The connection's error if one is recorded, else `err`.
    fn maybe_conn_err(&self, err: ErrorOrigin) -> (r: ErrorOrigin)
        ensures
            r == (match self.spec_shared_state().error {
                Some(e) => e,
                None => err,
            }),
    {
        self.shared_state().maybe_conn_err(err)
    }
}

/// Anything that holds the state of a connection and reports errors to a
/// stream through it.
pub trait CloseStream: ConnectionState {
    /// The shared state held, to change it.
    fn shared_state_mut(&mut self) -> (s: &mut SharedState)
        ensures
            *s == old(self).spec_shared_state(),
            final(self).spec_shared_state() == *final(s),
    ;

    /// A connection error found on the stream: recorded (unless an earlier
    /// one is) and reported to the stream.
    fn handle_connection_error_on_stream(&mut self, internal_error: InternalConnectionError) -> (r: StreamError)
        ensures
            spec_recorded_on_stream(old(self).spec_shared_state().error, internal_error, final(self).spec_shared_state().error, r),
    {
        self.shared_state_mut().handle_connection_error_on_stream(internal_error)
    }

    /// A stream error reported by the QUIC layer.
    fn handle_quic_stream_error(&mut self, error: StreamErrorIncoming) -> (r: StreamError)
        ensures
            (final(self).spec_shared_state().error, r) == spec_quic_stream_error(old(self).spec_shared_state().error, error),
    {
        self.shared_state_mut().handle_quic_stream_error(error)
    }

    /// `RemoteClosing` when the peer is closing the connection.
    fn check_peer_connection_closing(&self) -> (r: Option<StreamError>)
        ensures
            r == (if self.spec_shared_state().closing is Some {
                Some(StreamError::RemoteClosing)
            } else {
                None
            }),
    {
        self.shared_state().check_peer_connection_closing()
    }
}

} // verus!
