//! How a connection ends on an error: the one connection error it reports,
//! and whether it must close the QUIC connection, with which code and reason.
//!
//! The connection reports a single error for its whole life. The first error
//! recorded in the shared state is the one reported, and the QUIC connection
//! is closed at most once, when that error is first handled. Closing itself is
//! the caller's work: these functions return the code and reason to close with.
use vstd::prelude::*;
use crate::error::{
    convert_to_connection_error, spec_convert_to_connection_error, Code, ConnectionError, ErrorOrigin,
    H3_INTERNAL_ERROR,
};
use crate::quic::ConnectionErrorIncoming;
use crate::shared_state::{spec_set_conn_error, SharedState};

verus! {

/// The code and reason to close the QUIC connection with when `error` ends
/// the connection: an error found here closes with its own code and message,
/// an internal error of the QUIC layer with `H3_INTERNAL_ERROR` and its text;
/// anything else the QUIC layer reported has closed the connection already.
pub open spec fn spec_close_reason(error: ErrorOrigin) -> Option<(Code, String)> {
    match error {
        ErrorOrigin::Internal(e) => Some((e.code, e.message)),
        ErrorOrigin::Quic(ConnectionErrorIncoming::InternalError(reason)) => Some(
            (Code { code: H3_INTERNAL_ERROR }, reason),
        ),
        _ => None,
    }
}

/// The code and reason to close the QUIC connection with, if `error` asks
/// for the connection to be closed.
pub fn close_if_needed(error: &ErrorOrigin) -> (r: Option<(Code, String)>)
    ensures
        r == spec_close_reason(*error),
{
    match error {
        ErrorOrigin::Internal(internal_error) => Some((internal_error.code, internal_error.message.clone())),
        ErrorOrigin::Quic(ConnectionErrorIncoming::InternalError(reason)) => Some(
            (Code::new(H3_INTERNAL_ERROR), reason.clone()),
        ),
        _ => None,
    }
}

/// Handling `error` on a connection that reported `handled` so far, with
/// `recorded` as the recorded connection error: the error the connection
/// reports, what it must close with, and the error recorded afterwards.
pub open spec fn spec_handle_connection_error(
    handled: Option<ConnectionError>,
    recorded: Option<ErrorOrigin>,
    error: ErrorOrigin,
) -> (ConnectionError, Option<(Code, String)>, Option<ErrorOrigin>) {
    match handled {
        Some(h) => (h, None, recorded),
        None => {
            let (next, e) = spec_set_conn_error(recorded, error);
            (spec_convert_to_connection_error(e), spec_close_reason(e), next)
        },
    }
}

/// Looking for a connection error on a connection that reported `handled`
/// so far, with `recorded` as the recorded connection error: `None` while
/// there is none, else the error reported and what the connection must close
/// with.
pub open spec fn spec_poll_connection_error(handled: Option<ConnectionError>, recorded: Option<ErrorOrigin>) -> Option<
    (ConnectionError, Option<(Code, String)>),
> {
    match handled {
        Some(h) => Some((h, None)),
        None => match recorded {
            Some(e) => Some((spec_convert_to_connection_error(e), spec_close_reason(e))),
            None => None,
        },
    }
}

/// The state by which a connection decides how an error ends it.
pub struct ConnectionInner {
    /// The state shared with the connection's streams
    pub shared: SharedState,
    /// The error the connection reported, once it reported one
    pub handled_connection_error: Option<ConnectionError>,
}

impl ConnectionInner {
    /// A connection that has reported no error yet.
    pub fn new(shared: SharedState) -> (c: Self)
        ensures
            c.shared == shared,
            c.handled_connection_error is None,
    {
        ConnectionInner { shared, handled_connection_error: None }
    }

    /// Handles an error on the connection. The first error handled is
    /// recorded (unless a stream recorded one first) and reported, with the
    /// code and reason to close the QUIC connection with where it must be
    /// closed; once an error was reported, every later call reports it again
    /// and asks for no closing.
    pub fn handle_connection_error(&mut self, error: ErrorOrigin) -> (r: (ConnectionError, Option<(Code, String)>))
        ensures
            ({
                let (e, close, next) = spec_handle_connection_error(
                    old(self).handled_connection_error,
                    old(self).shared.error,
                    error,
                );
                &&& r == (e, close)
                &&& final(self).handled_connection_error == Some(e)
                &&& final(self).shared.error == next
            }),
            final(self).shared.peer_max_field_section_size == old(self).shared.peer_max_field_section_size,
            final(self).shared.closing == old(self).shared.closing,
            final(self).shared.last_accepted_stream == old(self).shared.last_accepted_stream,
    {
        if let Some(handled) = &self.handled_connection_error {
            return (handled.clone(), None);
        }
        let err = self.shared.set_conn_error(error);
        let close = close_if_needed(&err);
        let e = convert_to_connection_error(err);
        self.handled_connection_error = Some(e.clone());
        (e, close)
    }

    /// Looks for a connection error: `None` while none is recorded, else the
    /// error the connection reports, with the code and reason to close with
    /// the first time it is reported.
    pub fn poll_connection_error(&mut self) -> (r: Option<(ConnectionError, Option<(Code, String)>)>)
        ensures
            r == spec_poll_connection_error(old(self).handled_connection_error, old(self).shared.error),
            final(self).shared == old(self).shared,
            final(self).handled_connection_error == (match r {
                Some((e, _)) => Some(e),
                None => old(self).handled_connection_error,
            }),
    {
        if let Some(handled) = &self.handled_connection_error {
            return Some((handled.clone(), None));
        }
        match self.shared.get_conn_error() {
            Some(err) => {
                let close = close_if_needed(&err);
                let e = convert_to_connection_error(err);
                self.handled_connection_error = Some(e.clone());
                Some((e, close))
            },
            None => None,
        }
    }
}

/// A connection reports one error and closes at most once: after an error
/// was handled, handling any other error, or looking for one, reports the
/// same error, asks for no closing and leaves the recorded error as it was.
pub proof fn lemma_connection_closes_once(
    handled: Option<ConnectionError>,
    recorded: Option<ErrorOrigin>,
    a: ErrorOrigin,
    b: ErrorOrigin,
)
    ensures
        ({
            let (e1, _c1, n1) = spec_handle_connection_error(handled, recorded, a);
            let (e2, c2, n2) = spec_handle_connection_error(Some(e1), n1, b);
            &&& e2 == e1
            &&& c2 is None
            &&& n2 == n1
            &&& spec_poll_connection_error(Some(e1), n1) == Some((e1, None::<(Code, String)>))
        }),
{
}

/// The error a connection reports is the first one recorded: when a stream
/// recorded an error before the connection handled any, the connection
/// reports that error, not the one it was handed.
pub proof fn lemma_reports_first_recorded(first: ErrorOrigin, error: ErrorOrigin)
    ensures
        spec_handle_connection_error(None, Some(first), error) == (
            spec_convert_to_connection_error(first),
            spec_close_reason(first),
            Some(first),
        ),
        spec_poll_connection_error(None, Some(first)) == Some(
            (spec_convert_to_connection_error(first), spec_close_reason(first)),
        ),
{
}

} // verus!
