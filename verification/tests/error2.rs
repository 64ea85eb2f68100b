use h3::error::{Code, H3_ID_ERROR, H3_INTERNAL_ERROR};
use h3::error2::{
    close_raw_connection_with_h3_error, handle_quic_error_raw, ConnectionError, InternalConnectionError, LocalError,
};
use h3::quic::ConnectionErrorIncoming;

#[test]
fn raw_quic_timeout_is_a_timeout() {
    let (e, close) = handle_quic_error_raw(ConnectionErrorIncoming::Timeout);
    assert!(matches!(e, ConnectionError::Timeout));
    assert!(close.is_none());
}

#[test]
fn raw_quic_internal_error_closes_with_internal_error() {
    let (e, close) = handle_quic_error_raw(ConnectionErrorIncoming::InternalError("bad state".to_string()));
    match e {
        ConnectionError::Local { error: LocalError::Application { code, reason } } => {
            assert_eq!(code.value(), H3_INTERNAL_ERROR);
            assert_eq!(reason, "bad state");
        }
        _ => panic!("expected a local error"),
    }
    let (code, reason) = close.unwrap();
    assert_eq!(code.value(), H3_INTERNAL_ERROR);
    assert_eq!(reason, "bad state");
}

#[test]
fn raw_quic_closure_is_remote() {
    let (e, close) = handle_quic_error_raw(ConnectionErrorIncoming::ApplicationClose { error_code: 0x100 });
    assert!(matches!(e, ConnectionError::Remote(ConnectionErrorIncoming::ApplicationClose { error_code: 0x100 })));
    assert!(close.is_none());
}

#[test]
fn raw_h3_error_closes_with_its_code() {
    let (e, (code, reason)) =
        close_raw_connection_with_h3_error(InternalConnectionError::new(Code::new(H3_ID_ERROR), "bad id"));
    assert_eq!(code.value(), H3_ID_ERROR);
    assert_eq!(reason, "bad id");
    assert!(matches!(
        e,
        ConnectionError::Local { error: LocalError::Application { code, reason } }
            if code.value() == H3_ID_ERROR && reason == "bad id"
    ));
}
