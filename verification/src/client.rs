//! Client builders: the configuration a client connection starts with.
use vstd::prelude::*;
use crate::error::{Code, ConnectionError, InternalConnectionError, LocalError, StreamError, spec_connection_no_error};
use crate::shared_state::{spec_set_conn_error, SharedState, VARINT_MAX};
use crate::error::ErrorOrigin;
use crate::quic::ConnectionErrorIncoming;

pub mod builder;

verus! {

/// Start building a new HTTP/3 client
pub fn builder() -> (b: Builder)
    ensures
        b.max_field_section_size == VARINT_MAX,
        b.send_grease,
{
    Builder::new()
}

/// HTTP/3 client builder
#[derive(Debug, PartialEq, Eq, Structural)]
pub struct Builder {
    /// The largest field section the client accepts
    pub max_field_section_size: u64,
    /// Whether the client sends grease
    pub send_grease: bool,
}

impl Builder {
    fn new() -> (b: Self)
        ensures
            b.max_field_section_size == VARINT_MAX,
            b.send_grease,
    {
        Builder { max_field_section_size: VARINT_MAX, send_grease: true }
    }

    /// Set the maximum header size this client is willing to accept
    pub fn max_field_section_size(&mut self, value: u64) -> (r: &mut Self)
        ensures
            *r == (Builder { max_field_section_size: value, ..*old(self) }),
            *final(self) == *final(r),
    {
        self.max_field_section_size = value;
        self
    }
}

/// The code a client connection closes with once every request sender is
/// gone: `HTTP_NO_ERROR = 0`.
pub const HTTP_NO_ERROR: u64 = 0;

/// A request sender of the client goes away; `count_before` is how many
/// senders there were before it went. The last one to go ends the connection
/// without error: `HTTP_NO_ERROR = 0` with the reason "Connection closed by
/// client", recorded unless a connection error is recorded already. Returns
/// whether it was the last.
pub fn release_sender(shared: &mut SharedState, count_before: usize) -> (last: bool)
    ensures
        last == (count_before == 1),
        last ==> exists|ie: InternalConnectionError| {
            &&& ie.code.code == HTTP_NO_ERROR
            &&& ie.message@ == "Connection closed by client"@
            &&& final(shared).error == spec_set_conn_error(old(shared).error, ErrorOrigin::Internal(ie)).0
        },
        !last ==> final(shared).error == old(shared).error,
        final(shared).closing == old(shared).closing,
        final(shared).peer_max_field_section_size == old(shared).peer_max_field_section_size,
{
    if count_before == 1 {
        let e = InternalConnectionError::new(Code::new(HTTP_NO_ERROR), "Connection closed by client".to_owned());
        let ghost ie = e;
        let _ = shared.set_conn_error(ErrorOrigin::Internal(e));
        assert(ie.message@ == "Connection closed by client"@);
        true
    } else {
        false
    }
}

/// Before a request is sent: refused with `RemoteClosing` once the peer is
/// closing the connection, and then no stream is to be opened; otherwise
/// the request may open its stream.
pub fn send_request_start(shared: &SharedState) -> (r: Result<(), StreamError>)
    ensures
        shared.closing is Some ==> r == Err::<(), StreamError>(StreamError::RemoteClosing),
        shared.closing is None ==> r is Ok,
{
    match shared.check_peer_connection_closing() {
        Some(e) => Err(e),
        None => Ok(()),
    }
}

/// A request was sent: whether it carries the grease frame, which only the
/// first request sent does; grease is not sent again.
pub fn take_send_grease(send_grease_frame: &mut bool) -> (grease: bool)
    ensures
        grease == *old(send_grease_frame),
        !*final(send_grease_frame),
{
    let g = *send_grease_frame;
    *send_grease_frame = false;
    g
}

/// Whether a connection closed without error: `H3_NO_ERROR` or
/// `HTTP_NO_ERROR = 0` from either side.
pub open spec fn spec_closed_without_error(e: ConnectionError) -> bool {
    ||| spec_connection_no_error(e)
    ||| (e matches ConnectionError::Local { error: LocalError::Application { code, .. } } && code.code == HTTP_NO_ERROR)
    ||| (e matches ConnectionError::Remote(ConnectionErrorIncoming::ApplicationClose { error_code })
        && error_code == HTTP_NO_ERROR)
}

/// How waiting for the connection's end resolves once it closed with `e`:
/// `Ok` when it closed without error (`H3_NO_ERROR` from either side, the
/// peer's close with `HTTP_NO_ERROR = 0`, or this client's own close with
/// `HTTP_NO_ERROR` once every request sender is gone), the error otherwise.
pub fn close_result(e: ConnectionError) -> (r: Result<(), ConnectionError>)
    ensures
        spec_closed_without_error(e) ==> r is Ok,
        !spec_closed_without_error(e) ==> r == Err::<(), ConnectionError>(e),
{
    if e.is_h3_no_error() {
        return Ok(());
    }
    if let ConnectionError::Local { error: LocalError::Application { code, .. } } = &e {
        if code.code == HTTP_NO_ERROR {
            return Ok(());
        }
    }
    if let ConnectionError::Remote(ConnectionErrorIncoming::ApplicationClose { error_code }) = &e {
        if *error_code == HTTP_NO_ERROR {
            return Ok(());
        }
    }
    Err(e)
}

} // verus!
