//! Datagram errors in the form that reports connection errors with their
//! scope.
use vstd::prelude::*;
use crate::datagram_handler::SendDatagramErrorIncoming;
use crate::error2::ConnectionError;

verus! {

/// Types of errors when sending a datagram.
#[derive(Debug)]
pub enum SendDatagramError {
    /// The peer is not accepting datagrams on the quic layer
    NotAvailable,
    /// The datagram is too large to send
    TooLarge,
    /// Connection error
    ConnectionError(ConnectionError),
}

/// The datagram error for a refusal that leaves the connection open.
pub fn handle_send_datagram_error(error: SendDatagramErrorIncoming) -> (r: SendDatagramError)
    requires
        !(error is ConnectionError),
    ensures
        error is NotAvailable ==> r is NotAvailable,
        error is TooLarge ==> r is TooLarge,
{
    match error {
        SendDatagramErrorIncoming::NotAvailable => SendDatagramError::NotAvailable,
        SendDatagramErrorIncoming::TooLarge => SendDatagramError::TooLarge,
        SendDatagramErrorIncoming::ConnectionError(_) => SendDatagramError::NotAvailable,
    }
}

} // verus!
