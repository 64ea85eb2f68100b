use h3::proto::headers::HeaderField;
use h3::webtransport::{accept_session, validate_wt_connect};
use h3::error::{Code, InternalConnectionError};
use h3::shared_state::{CloseStream, ConnectionState};
use h3::datagram_handler::{encode_datagram, handle_send_datagram_error, DatagramSender, SendDatagram, SendDatagramError, SendDatagramErrorIncoming};
use h3::error::{ErrorOrigin, StreamError, H3_DATAGRAM_ERROR};
use h3::ext::{Datagram, InvalidProtocol, Protocol};
use h3::quic::ConnectionErrorIncoming;
use h3::shared_state::SharedState;
use std::str::FromStr;

#[test]
fn protocol_text() {
    assert_eq!(Protocol::web_transport().as_str(), "webtransport");
    assert_eq!(Protocol::connect_udp().as_str(), "connect-udp");
    assert_eq!(Protocol::from_str("webtransport").ok(), Some(Protocol::web_transport()));
    assert_eq!(Protocol::parse("connect-udp"), Ok(Protocol::connect_udp()));
    assert_eq!(Protocol::parse("WebTransport"), Err(InvalidProtocol));
}

#[test]
fn datagram_roundtrip() {
    let d = Datagram::new(8, b"hi".to_vec());
    let mut buf = vec![];
    d.encode(&mut buf);
    assert_eq!(buf, vec![2, b'h', b'i']);
    let d = Datagram::decode(&buf).unwrap();
    assert_eq!(d.stream_id(), 8);
    assert_eq!(d.payload(), &b"hi".to_vec());
    assert_eq!(d.into_payload(), b"hi".to_vec());
}

#[test]
fn malformed_datagrams() {
    let e = Datagram::decode(&[]).unwrap_err();
    assert_eq!(e.code.value(), H3_DATAGRAM_ERROR);
    assert_eq!(e.message, "Malformed datagram frame");
    // A quarter stream id of 2^60 gives a stream id past 2^62 - 1.
    let e = Datagram::decode(&[0xd0, 0, 0, 0, 0, 0, 0, 0]).unwrap_err();
    assert_eq!(e.message, "Invalid stream id");
}

struct Refusing(SendDatagramErrorIncoming);

impl SendDatagram for Refusing {
    fn send_datagram(&mut self, _data: Vec<u8>) -> Result<(), SendDatagramErrorIncoming> {
        Err(self.0.clone())
    }
}

struct Recording(Vec<Vec<u8>>);

impl SendDatagram for Recording {
    fn send_datagram(&mut self, data: Vec<u8>) -> Result<(), SendDatagramErrorIncoming> {
        self.0.push(data);
        Ok(())
    }
}

#[test]
fn sender_frames_datagrams() {
    let mut s = DatagramSender { handler: Recording(vec![]), shared_state: SharedState::default(), stream_id: 4 };
    assert!(s.send_datagram(b"x".to_vec()).is_ok());
    assert_eq!(s.handler.0, vec![vec![1, b'x']]);
}

#[test]
fn sender_reports_refusals() {
    let mut s = DatagramSender {
        handler: Refusing(SendDatagramErrorIncoming::TooLarge),
        shared_state: SharedState::default(),
        stream_id: 0,
    };
    assert!(matches!(s.send_datagram(vec![]), Err(SendDatagramError::TooLarge)));
    let mut state = SharedState::default();
    let e = handle_send_datagram_error(&mut state, SendDatagramErrorIncoming::ConnectionError(ConnectionErrorIncoming::Timeout));
    assert!(matches!(e, SendDatagramError::ConnectionError(_)));
    assert!(matches!(state.error, Some(ErrorOrigin::Quic(ConnectionErrorIncoming::Timeout))));
    assert_eq!(SendDatagramError::NotAvailable.to_string(), "Datagrams are not available");
}

#[test]
fn sender_reports_the_connection_error() {
    let mut s = DatagramSender { handler: Recording(vec![]), shared_state: SharedState::default(), stream_id: 0 };
    assert!(matches!(s.maybe_conn_err(ErrorOrigin::Quic(ConnectionErrorIncoming::Timeout)), ErrorOrigin::Quic(_)));
    s.shared_state.set_conn_error(ErrorOrigin::Internal(InternalConnectionError::new(Code::new(0x102), "x".to_string())));
    assert!(matches!(s.maybe_conn_err(ErrorOrigin::Quic(ConnectionErrorIncoming::Timeout)), ErrorOrigin::Internal(_)));
}

#[test]
fn sender_closes_streams_through_shared_state() {

    let mut s = DatagramSender { handler: Recording(vec![]), shared_state: SharedState::default(), stream_id: 0 };
    assert!(s.check_peer_connection_closing().is_none());
    let e = s.handle_connection_error_on_stream(InternalConnectionError::new(Code::new(0x106), "x".to_string()));
    assert!(matches!(e, StreamError::ConnectionError(_)));
    assert!(s.shared_state.error.is_some());
    let e = s.handle_quic_stream_error(h3::quic::StreamErrorIncoming::StreamTerminated { error_code: 7 });
    assert!(matches!(e, StreamError::RemoteTerminate { .. }));
}

#[test]
fn webtransport_session_acceptance() {
    assert!(validate_wt_connect(b"CONNECT", Some(Protocol::web_transport())));
    assert!(!validate_wt_connect(b"CONNECT", Some(Protocol::connect_udp())));
    assert!(!validate_wt_connect(b"GET", Some(Protocol::web_transport())));
    let e = accept_session(false, true, b"CONNECT", Some(Protocol::web_transport())).unwrap_err();
    assert_eq!(e.message, "webtransport is not supported by client");
    let e = accept_session(true, false, b"CONNECT", Some(Protocol::web_transport())).unwrap_err();
    assert_eq!(e.message, "datagrams are not supported by client");
    let (status, fields) = accept_session(true, true, b"CONNECT", Some(Protocol::web_transport())).unwrap();
    assert_eq!(status, 200);
    assert_eq!(fields, vec![HeaderField::new(b"sec-webtransport-http3-draft".to_vec(), b"draft02".to_vec())]);
    let (status, fields) = accept_session(true, true, b"GET", None).unwrap();
    assert_eq!(status, 400);
    assert!(fields.is_empty());
}

#[test]
fn datagram_bytes_carry_the_quarter_stream_id() {
    assert_eq!(encode_datagram(8, b"hi".to_vec()), vec![2, b'h', b'i']);
    assert_eq!(encode_datagram(256, vec![]), vec![0x40, 64]);
}
