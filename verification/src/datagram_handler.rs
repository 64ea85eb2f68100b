//! Sending HTTP datagrams (RFC 9297) for a request stream: framing the
//! payload and turning the QUIC layer's refusals into errors of the library.
use vstd::prelude::*;
use crate::error::{ConnectionError, ErrorOrigin};
use crate::ext::Datagram;
use crate::quic::ConnectionErrorIncoming;
use crate::shared_state::{CloseStream, ConnectionState, SharedState, spec_set_conn_error};
use crate::varint;

verus! {

/// Why the QUIC layer did not send a datagram.
#[derive(Debug, Clone, PartialEq, Eq)]
pub enum SendDatagramErrorIncoming {
    /// The peer is not accepting datagrams: it does not support them, disabled
    /// them, or any other reason
    NotAvailable,
    /// The datagram is too large to send
    TooLarge,
    /// Connection error
    ConnectionError(ConnectionErrorIncoming),
}

/// Sending datagrams over a QUIC connection; implemented by QUIC libraries.
pub trait SendDatagram {
    /// Sends the encoded datagram `data`.
    fn send_datagram(&mut self, data: Vec<u8>) -> Result<(), SendDatagramErrorIncoming>;
}

/// The QUIC datagram that carries `payload` for the request stream
/// `stream_id`: its quarter stream identifier, then the payload (RFC 9297
/// section 2.1).
pub open spec fn spec_datagram_bytes(stream_id: u64, payload: Seq<u8>) -> Seq<u8> {
    varint::spec_encode((stream_id / 4) as u64) + payload
}

/// The QUIC datagram that carries `payload` for the request stream
/// `stream_id`.
pub fn encode_datagram(stream_id: u64, payload: Vec<u8>) -> (v: Vec<u8>)
    requires
        stream_id % 4 == 0,
        stream_id <= varint::MAX_VALUE,
    ensures
        v@ == spec_datagram_bytes(stream_id, payload@),
{
    let ghost p = payload@;
    let datagram = Datagram::new(stream_id, payload);
    let mut encoded: Vec<u8> = Vec::new();
    datagram.encode(&mut encoded);
    assert(encoded@ =~= spec_datagram_bytes(stream_id, p));
    encoded
}

/// Types of errors when sending a datagram.
#[derive(Debug)]
pub enum SendDatagramError {
    /// The peer is not accepting datagrams on the quic layer
    NotAvailable,
    /// The datagram is too large to send
    TooLarge,
    /// Connection error
    ConnectionError(ConnectionError),
}

impl SendDatagramError {
    /// The text of the error. A connection error is rendered by its kind
    /// alone, without the text of the connection error it carries.
    pub fn to_string(&self) -> (s: String)
        ensures
            self is NotAvailable ==> s@ == "Datagrams are not available"@,
            self is TooLarge ==> s@ == "Datagram is too large"@,
            self is ConnectionError ==> s@ == "Connection error"@,
    {
        match self {
            SendDatagramError::NotAvailable => "Datagrams are not available".to_owned(),
            SendDatagramError::TooLarge => "Datagram is too large".to_owned(),
            SendDatagramError::ConnectionError(_) => "Connection error".to_owned(),
        }
    }
}

/// Gives the ability to send datagrams for one request stream.
pub struct DatagramSender<H: SendDatagram> {
    /// The QUIC layer's datagram sender
    pub handler: H,
    /// The connection's shared state
    pub shared_state: SharedState,
    /// The request stream the datagrams belong to
    pub stream_id: u64,
}

impl<H: SendDatagram> ConnectionState for DatagramSender<H> {
    open spec fn spec_shared_state(&self) -> SharedState {
        self.shared_state
    }

    fn shared_state(&self) -> (s: &SharedState) {
        &self.shared_state
    }
}

impl<H: SendDatagram> CloseStream for DatagramSender<H> {
    fn shared_state_mut(&mut self) -> (s: &mut SharedState) {
        &mut self.shared_state
    }
}

impl<H: SendDatagram> DatagramSender<H> {
    /// Sends `data` as a datagram of the stream: the QUIC layer is handed
    /// `encode_datagram(stream_id, data)`, and its answer decides the
    /// result; a refusal is turned into a datagram error (see `spec_handled`).
    pub fn send_datagram(&mut self, data: Vec<u8>) -> (r: Result<(), SendDatagramError>)
        requires
            old(self).stream_id % 4 == 0,
            old(self).stream_id <= varint::MAX_VALUE,
        ensures
            final(self).stream_id == old(self).stream_id,
            r matches Err(e) ==> exists|i: SendDatagramErrorIncoming| spec_handled(old(self).shared_state.error, i, final(self).shared_state.error, e),
            r is Ok ==> final(self).shared_state.error == old(self).shared_state.error,
    {
        let encoded = encode_datagram(self.stream_id, data);
        match self.handler.send_datagram(encoded) {
            Ok(()) => Ok(()),
            Err(e) => {
                let ghost i = e;
                let r = handle_send_datagram_error(&mut self.shared_state, e);
                assert(spec_handled(old(self).shared_state.error, i, self.shared_state.error, r));
                Err(r)
            },
        }
    }
}

/// Handling the QUIC layer's refusal `i` when `current` is the recorded
/// connection error leaves `next` recorded and reports `e`.
pub open spec fn spec_handled(
    current: Option<ErrorOrigin>,
    i: SendDatagramErrorIncoming,
    next: Option<ErrorOrigin>,
    e: SendDatagramError,
) -> bool {
    match i {
        SendDatagramErrorIncoming::NotAvailable => next == current && e is NotAvailable,
        SendDatagramErrorIncoming::TooLarge => next == current && e is TooLarge,
        SendDatagramErrorIncoming::ConnectionError(c) => {
            &&& next == spec_set_conn_error(current, ErrorOrigin::Quic(c)).0
            &&& e == SendDatagramError::ConnectionError(ConnectionError::Remote(c))
        },
    }
}

/// Turns the QUIC layer's refusal into a datagram error; a closed connection
/// is recorded as the connection error (unless one is recorded already) and
/// reported as the error the QUIC layer gave.
pub fn handle_send_datagram_error(state: &mut SharedState, error: SendDatagramErrorIncoming) -> (r: SendDatagramError)
    ensures
        spec_handled(old(state).error, error, final(state).error, r),
{
    match error {
        SendDatagramErrorIncoming::NotAvailable => SendDatagramError::NotAvailable,
        SendDatagramErrorIncoming::TooLarge => SendDatagramError::TooLarge,
        SendDatagramErrorIncoming::ConnectionError(error) => {
            let _ = state.set_conn_error(ErrorOrigin::Quic(error.clone()));
            SendDatagramError::ConnectionError(ConnectionError::Remote(error))
        },
    }
}

} // verus!
