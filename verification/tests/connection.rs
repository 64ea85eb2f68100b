use h3::connection::{
    accept_outcome, accept_recv, check_field_section_size, control_precheck, control_read_error, first_request_frame,
    client_control_frame, handle_control_frame, initial_settings, server_control_frame, poll_accept_recv, poll_control, shutdown, shutdown_goaway_id, start_stream,
    AcceptAction, UniStreams,
    REQUEST_HEADER_FIELDS_TOO_LARGE,
};
use h3::error::{
    convert_to_connection_error, Code, ConnectionError, ErrorOrigin, InternalConnectionError, LocalError,
    StreamError, H3_CLOSED_CRITICAL_STREAM, H3_FRAME_ERROR, H3_FRAME_UNEXPECTED, H3_ID_ERROR,
    H3_EXCESSIVE_LOAD, H3_GENERAL_PROTOCOL_ERROR, H3_INTERNAL_ERROR, H3_MISSING_SETTINGS, H3_NO_ERROR,
    H3_SETTINGS_ERROR, H3_STREAM_CREATION_ERROR,
};
use h3::frame::{FrameProtocolError, FrameStreamError, StreamFrame};
use h3::proto::settings::{Settings, SettingsError, MAX_HEADER_LIST_SIZE};
use h3::quic::{ConnectionErrorIncoming, StreamErrorIncoming};
use h3::shared_state::{SharedState, VARINT_MAX};
use h3::connection_errors::{close_if_needed, ConnectionInner};
use h3::client::{close_result, release_sender, send_request_start, take_send_grease, HTTP_NO_ERROR};

fn internal(code: u64, msg: &str) -> InternalConnectionError {
    InternalConnectionError::new(Code::new(code), msg.to_string())
}

#[test]
fn second_control_stream_is_refused() {
    let mut s = UniStreams::default();
    assert!(accept_recv(&mut s, 0).is_ok());
    assert!(s.control);
    let e = accept_recv(&mut s, 0).unwrap_err();
    assert_eq!(e.code.value(), H3_STREAM_CREATION_ERROR);
    assert_eq!(e.message, "got two control streams");
}

#[test]
fn second_encoder_and_decoder_streams_are_refused() {
    let mut s = UniStreams::default();
    assert!(accept_recv(&mut s, 2).is_ok());
    assert!(accept_recv(&mut s, 3).is_ok());
    assert_eq!(accept_recv(&mut s, 2).unwrap_err().message, "got two encoder streams");
    assert_eq!(accept_recv(&mut s, 3).unwrap_err().message, "got two decoder streams");
    // Push and unknown (grease) stream types carry no meaning here.
    assert!(accept_recv(&mut s, 1).is_ok());
    assert!(accept_recv(&mut s, 0x21).is_ok());
}

#[test]
fn first_settings_sets_peer_field_section_size() {
    let mut shared = SharedState::default();
    let mut got = false;
    let mut settings = Settings::default();
    settings.insert(MAX_HEADER_LIST_SIZE, 8192).unwrap();
    let r = handle_control_frame(&mut shared, &mut got, Some(StreamFrame::Settings(settings)));
    assert!(matches!(r, Ok(StreamFrame::Settings(_))));
    assert!(got);
    assert_eq!(shared.peer_max_field_section_size, 8192);

    // A second SETTINGS is unexpected.
    let e = handle_control_frame(&mut shared, &mut got, Some(StreamFrame::Settings(Settings::default()))).unwrap_err();
    assert_eq!(e.code.value(), H3_FRAME_UNEXPECTED);
    assert_eq!(e.message, "on control stream: Settings");
    assert!(matches!(shared.error, Some(ErrorOrigin::Internal(_))));
}

#[test]
fn settings_without_field_section_size_means_unlimited() {
    let mut shared = SharedState::default();
    shared.peer_max_field_section_size = 1;
    let mut got = false;
    handle_control_frame(&mut shared, &mut got, Some(StreamFrame::Settings(Settings::default()))).unwrap();
    assert_eq!(shared.peer_max_field_section_size, VARINT_MAX);
}

#[test]
fn closed_control_stream_is_critical() {
    let mut shared = SharedState::default();
    let mut got = true;
    let e = handle_control_frame(&mut shared, &mut got, None).unwrap_err();
    assert_eq!(e.code.value(), H3_CLOSED_CRITICAL_STREAM);
    assert_eq!(e.message, "control stream closed");
}

#[test]
fn cancel_push_before_settings_is_missing_settings() {
    let mut shared = SharedState::default();
    let mut got = false;
    let e = handle_control_frame(&mut shared, &mut got, Some(StreamFrame::CancelPush(3))).unwrap_err();
    assert_eq!(e.code.value(), H3_MISSING_SETTINGS);
    assert_eq!(e.message, "received CancelPush(3) before settings on control stream");
    let mut got = true;
    assert!(handle_control_frame(&mut shared, &mut got, Some(StreamFrame::MaxPushId(3))).is_ok());
}

#[test]
fn data_on_control_stream_is_unexpected() {
    let mut shared = SharedState::default();
    let mut got = true;
    let e = handle_control_frame(&mut shared, &mut got, Some(StreamFrame::Data(4))).unwrap_err();
    assert_eq!(e.code.value(), H3_FRAME_UNEXPECTED);
    assert_eq!(e.message, "on control stream: Data");
}

#[test]
fn goaway_may_only_decrease() {
    let mut shared = SharedState::default();
    let mut got = true;
    assert!(handle_control_frame(&mut shared, &mut got, Some(StreamFrame::Goaway(8))).is_ok());
    assert_eq!(shared.closing, Some(8));
    assert!(handle_control_frame(&mut shared, &mut got, Some(StreamFrame::Goaway(4))).is_ok());
    assert_eq!(shared.closing, Some(4));
    let e = handle_control_frame(&mut shared, &mut got, Some(StreamFrame::Goaway(12))).unwrap_err();
    assert_eq!(e.code.value(), H3_ID_ERROR);
    assert_eq!(e.message, "received a GoAway(12) greater than the former one (4)");
    assert_eq!(shared.closing, Some(4));
    // A GOAWAY from the other side is accepted and leaves the closing id.
    assert!(handle_control_frame(&mut shared, &mut got, Some(StreamFrame::Goaway(101))).is_ok());
    assert_eq!(shared.closing, Some(4));
}

#[test]
fn first_connection_error_wins() {
    let mut shared = SharedState::default();
    let first = shared.set_conn_error(ErrorOrigin::Internal(internal(H3_ID_ERROR, "first")));
    assert!(matches!(first, ErrorOrigin::Internal(ref e) if e.message == "first"));
    let second = shared.set_conn_error(ErrorOrigin::Quic(ConnectionErrorIncoming::Timeout));
    assert!(matches!(second, ErrorOrigin::Internal(ref e) if e.message == "first"));
    assert!(matches!(shared.get_conn_error(), Some(ErrorOrigin::Internal(ref e)) if e.message == "first"));
    assert!(matches!(
        shared.maybe_conn_err(ErrorOrigin::Quic(ConnectionErrorIncoming::Timeout)),
        ErrorOrigin::Internal(_)
    ));
}

#[test]
fn stream_sees_the_connection_error() {
    let mut shared = SharedState::default();
    let e = shared.handle_connection_error_on_stream(internal(H3_FRAME_ERROR, "bad frame"));
    match e {
        StreamError::ConnectionError(ConnectionError::Local {
            error: LocalError::Application { code, reason },
        }) => {
            assert_eq!(code.value(), H3_FRAME_ERROR);
            assert_eq!(reason, "bad frame");
        }
        other => panic!("unexpected {:?}", other),
    }
    // The transport closing later does not replace the first error.
    let e = shared.handle_quic_stream_error(StreamErrorIncoming::ConnectionErrorIncoming {
        connection_error: ConnectionErrorIncoming::Timeout,
    });
    assert!(matches!(e, StreamError::ConnectionError(ConnectionError::Local { .. })));
}

#[test]
fn quic_stream_errors() {
    let mut shared = SharedState::default();
    assert!(matches!(
        shared.handle_quic_stream_error(StreamErrorIncoming::StreamTerminated { error_code: 0x10c }),
        StreamError::RemoteTerminate { code } if code.value() == 0x10c
    ));
    assert!(matches!(
        shared.handle_quic_stream_error(StreamErrorIncoming::Unknown("x".to_string())),
        StreamError::Undefined(ref m) if m == "x"
    ));
    assert!(shared.error.is_none());
    assert!(matches!(
        shared.handle_quic_stream_error(StreamErrorIncoming::ConnectionErrorIncoming {
            connection_error: ConnectionErrorIncoming::Timeout
        }),
        StreamError::ConnectionError(ConnectionError::Timeout)
    ));
}

#[test]
fn frame_errors_on_request_stream() {
    let mut shared = SharedState::default();
    let e = shared.handle_frame_stream_error_on_request_stream(FrameStreamError::UnexpectedEnd);
    assert!(matches!(
        e,
        StreamError::ConnectionError(ConnectionError::Local {
            error: LocalError::Application { ref code, ref reason }
        }) if code.value() == H3_FRAME_ERROR && reason == "received incomplete frame"
    ));
    let mut shared = SharedState::default();
    let e = shared.handle_frame_stream_error_on_request_stream(FrameStreamError::Proto(
        FrameProtocolError::Settings(SettingsError::Repeated(6)),
    ));
    assert!(matches!(
        e,
        StreamError::ConnectionError(ConnectionError::Local {
            error: LocalError::Application { ref code, ref reason }
        }) if code.value() == H3_SETTINGS_ERROR && reason == "got setting 0x6 twice"
    ));
    let mut shared = SharedState::default();
    let e = shared.handle_frame_stream_error_on_request_stream(FrameStreamError::PayloadTooLarge {
        frame_type: 1,
        actual_size: 100,
        max_size: 10,
    });
    assert!(matches!(e, StreamError::HeaderTooBig { actual_size: 100, max_size: 10 }));
    assert!(shared.error.is_none());
}

#[test]
fn peer_closing_refuses_new_streams() {
    let mut shared = SharedState::default();
    assert!(shared.check_peer_connection_closing().is_none());
    shared.closing = Some(4);
    assert!(matches!(shared.check_peer_connection_closing(), Some(StreamError::RemoteClosing)));
}

#[test]
fn frame_error_messages() {
    let e = InternalConnectionError::got_frame_error(FrameProtocolError::InvalidStreamId(42));
    assert_eq!(e.code.value(), H3_ID_ERROR);
    assert_eq!(e.message, "invalid stream id: 42");
    let e = InternalConnectionError::got_frame_error(FrameProtocolError::ForbiddenFrame(2));
    assert_eq!(e.code.value(), H3_FRAME_UNEXPECTED);
    assert_eq!(e.message, "received a forbidden frame with number 2");
    let e = InternalConnectionError::got_frame_error(FrameProtocolError::Settings(
        SettingsError::InvalidSettingValue(0x21, 70),
    ));
    assert_eq!(e.message, "setting 0x21 has invalid value 70");
    let e = InternalConnectionError::got_frame_error(FrameProtocolError::Malformed);
    assert_eq!(e.code.value(), H3_FRAME_ERROR);
}

#[test]
fn no_error_closures() {
    let local = ConnectionError::Local {
        error: LocalError::Application { code: Code::new(H3_NO_ERROR), reason: String::new() },
    };
    assert!(local.is_h3_no_error());
    assert!(ConnectionError::Remote(ConnectionErrorIncoming::ApplicationClose { error_code: 0x100 }).is_h3_no_error());
    assert!(!ConnectionError::Remote(ConnectionErrorIncoming::ApplicationClose { error_code: 0x101 }).is_h3_no_error());
    assert!(!ConnectionError::Timeout.is_h3_no_error());
    assert!(StreamError::RemoteTerminate { code: Code::new(H3_NO_ERROR) }.is_h3_no_error());
    assert!(StreamError::ConnectionError(local).is_h3_no_error());
    assert!(!StreamError::RemoteClosing.is_h3_no_error());
}

#[test]
fn error_origins_become_connection_errors() {
    assert!(matches!(
        convert_to_connection_error(ErrorOrigin::Quic(ConnectionErrorIncoming::Timeout)),
        ConnectionError::Timeout
    ));
    assert!(matches!(
        convert_to_connection_error(ErrorOrigin::Quic(ConnectionErrorIncoming::InternalError("x".to_string()))),
        ConnectionError::Remote(ConnectionErrorIncoming::InternalError(_))
    ));
    let local: LocalError = internal(H3_ID_ERROR, "m").into();
    assert!(matches!(local, LocalError::Application { ref reason, .. } if reason == "m"));
    let origin: ErrorOrigin = ConnectionErrorIncoming::Timeout.into();
    assert!(matches!(origin, ErrorOrigin::Quic(ConnectionErrorIncoming::Timeout)));
    let c: Code = 0x105u64.into();
    assert_eq!(c.value(), 0x105);
}

#[test]
fn request_stream_starts_with_headers() {
    assert_eq!(first_request_frame(Some(StreamFrame::Headers(vec![1, 2]))).unwrap(), vec![1, 2]);
    let e = first_request_frame(None).unwrap_err();
    assert_eq!(e.code.value(), 0x10d);
    assert_eq!(e.message, "request stream closed before headers");
    let e = first_request_frame(Some(StreamFrame::Data(3))).unwrap_err();
    assert_eq!(e.code.value(), H3_FRAME_UNEXPECTED);
    assert_eq!(e.message, "first request frame is not headers");
}

#[test]
fn field_section_size_limit() {
    assert!(check_field_section_size(10, 10).is_none());
    assert!(matches!(
        check_field_section_size(11, 10),
        Some(StreamError::HeaderTooBig { actual_size: 11, max_size: 10 })
    ));
}

#[test]
fn initial_settings_announce_the_limit() {
    let s = initial_settings(8192, false);
    assert_eq!(s.get(MAX_HEADER_LIST_SIZE), Some(8192));
    let mut buf = vec![];
    s.encode(&mut buf);
    assert_eq!(buf, vec![0x04, 0x03, 0x06, 0x60, 0x00]);
    let s = initial_settings(100, true);
    assert_eq!(s.get(MAX_HEADER_LIST_SIZE), Some(100));
    let mut buf = vec![];
    s.encode(&mut buf);
    // The grease setting adds an identifier and a value of 0.
    assert!(buf.len() > 5);
}

#[test]
fn internal_error_closes_the_connection_once() {
    let mut c = ConnectionInner::new(SharedState::default());
    assert!(c.poll_connection_error().is_none());
    let (e, close) = c.handle_connection_error(ErrorOrigin::Internal(internal(H3_ID_ERROR, "bad id")));
    assert!(matches!(
        &e,
        ConnectionError::Local { error: LocalError::Application { code, reason } }
            if code.value() == H3_ID_ERROR && reason == "bad id"
    ));
    let (code, reason) = close.unwrap();
    assert_eq!(code.value(), H3_ID_ERROR);
    assert_eq!(reason, "bad id");
    let (e2, close2) = c.handle_connection_error(ErrorOrigin::Internal(internal(H3_FRAME_ERROR, "later")));
    assert!(close2.is_none());
    assert!(matches!(
        &e2,
        ConnectionError::Local { error: LocalError::Application { code, reason } }
            if code.value() == H3_ID_ERROR && reason == "bad id"
    ));
    let (e3, close3) = c.poll_connection_error().unwrap();
    assert!(close3.is_none());
    assert!(matches!(e3, ConnectionError::Local { .. }));
}

#[test]
fn quic_internal_error_closes_with_internal_error_code() {
    let mut c = ConnectionInner::new(SharedState::default());
    let (e, close) = c.handle_connection_error(ErrorOrigin::Quic(ConnectionErrorIncoming::InternalError(
        "broken".to_string(),
    )));
    assert!(matches!(&e, ConnectionError::Remote(ConnectionErrorIncoming::InternalError(s)) if s == "broken"));
    let (code, reason) = close.unwrap();
    assert_eq!(code.value(), H3_INTERNAL_ERROR);
    assert_eq!(reason, "broken");
}

#[test]
fn quic_closure_needs_no_close() {
    let mut c = ConnectionInner::new(SharedState::default());
    let (e, close) = c.handle_connection_error(ErrorOrigin::Quic(ConnectionErrorIncoming::Timeout));
    assert!(matches!(e, ConnectionError::Timeout));
    assert!(close.is_none());
    let mut c = ConnectionInner::new(SharedState::default());
    let (e, close) = c.handle_connection_error(ErrorOrigin::Quic(ConnectionErrorIncoming::ApplicationClose {
        error_code: H3_NO_ERROR,
    }));
    assert!(e.is_h3_no_error());
    assert!(close.is_none());
}

#[test]
fn connection_reports_the_error_a_stream_recorded() {
    let mut shared = SharedState::default();
    let _ = shared.handle_connection_error_on_stream(internal(H3_FRAME_UNEXPECTED, "from a stream"));
    let mut c = ConnectionInner::new(shared);
    let (e, close) = c.poll_connection_error().unwrap();
    assert!(matches!(
        &e,
        ConnectionError::Local { error: LocalError::Application { code, .. } } if code.value() == H3_FRAME_UNEXPECTED
    ));
    assert_eq!(close.unwrap().1, "from a stream");
    let mut shared = SharedState::default();
    let _ = shared.handle_connection_error_on_stream(internal(H3_FRAME_UNEXPECTED, "from a stream"));
    let mut c = ConnectionInner::new(shared);
    let (e, close) = c.handle_connection_error(ErrorOrigin::Internal(internal(H3_ID_ERROR, "mine")));
    assert!(matches!(
        &e,
        ConnectionError::Local { error: LocalError::Application { code, .. } } if code.value() == H3_FRAME_UNEXPECTED
    ));
    assert_eq!(close.unwrap().0.value(), H3_FRAME_UNEXPECTED);
}

#[test]
fn close_reasons() {
    assert!(close_if_needed(&ErrorOrigin::Quic(ConnectionErrorIncoming::Timeout)).is_none());
    assert!(close_if_needed(&ErrorOrigin::Quic(ConnectionErrorIncoming::Undefined("x".to_string()))).is_none());
    let (code, reason) = close_if_needed(&ErrorOrigin::Internal(internal(H3_SETTINGS_ERROR, "s"))).unwrap();
    assert_eq!(code.value(), H3_SETTINGS_ERROR);
    assert_eq!(reason, "s");
}

#[test]
fn last_sender_closes_the_connection_without_error() {
    let mut shared = SharedState::default();
    assert!(!release_sender(&mut shared, 3));
    assert!(shared.error.is_none());
    assert!(release_sender(&mut shared, 1));
    match shared.error.as_ref().unwrap() {
        ErrorOrigin::Internal(e) => {
            assert_eq!(e.code.value(), HTTP_NO_ERROR);
            assert_eq!(HTTP_NO_ERROR, 0);
            assert_eq!(e.message, "Connection closed by client");
        }
        _ => panic!("expected an internal error"),
    }
    let e = convert_to_connection_error(shared.error.clone().unwrap());
    assert!(matches!(e, ConnectionError::Local { error: LocalError::Application { code, .. } } if code.value() == 0));
}

#[test]
fn last_sender_keeps_an_earlier_error() {
    let mut shared = SharedState::default();
    let _ = shared.set_conn_error(ErrorOrigin::Quic(ConnectionErrorIncoming::Timeout));
    assert!(release_sender(&mut shared, 1));
    assert!(matches!(shared.error, Some(ErrorOrigin::Quic(ConnectionErrorIncoming::Timeout))));
}

#[test]
fn recorded_error_stops_accepting_streams() {
    let mut shared = SharedState::default();
    let mut s = UniStreams::default();
    assert!(control_precheck(&shared).is_none());
    assert!(poll_accept_recv(&mut shared, &mut s, Some(0)).is_ok());
    assert!(s.control);
    match poll_accept_recv(&mut shared, &mut s, Some(0)) {
        Err(ErrorOrigin::Internal(e)) => {
            assert_eq!(e.code.value(), H3_STREAM_CREATION_ERROR);
            assert_eq!(e.message, "got two control streams");
        }
        _ => panic!("expected a stream creation error"),
    }
    // the error is recorded, and returned at once from now on
    assert!(matches!(control_precheck(&shared), Some(ErrorOrigin::Internal(_))));
    let before = s;
    match poll_accept_recv(&mut shared, &mut s, Some(2)) {
        Err(ErrorOrigin::Internal(e)) => assert_eq!(e.message, "got two control streams"),
        _ => panic!("expected the recorded error"),
    }
    assert_eq!(s, before);
}

#[test]
fn end_of_peer_streams_is_a_protocol_error() {
    let mut shared = SharedState::default();
    let mut s = UniStreams::default();
    match poll_accept_recv(&mut shared, &mut s, None) {
        Err(ErrorOrigin::Internal(e)) => {
            assert_eq!(e.code.value(), H3_GENERAL_PROTOCOL_ERROR);
            assert_eq!(e.message, "Connection closed unexpected");
        }
        _ => panic!("expected a protocol error"),
    }
    assert!(shared.error.is_none());
}

#[test]
fn control_read_errors() {
    let e = control_read_error(FrameStreamError::UnexpectedEnd);
    assert!(matches!(e, ErrorOrigin::Internal(ie) if ie.code.value() == H3_FRAME_ERROR));
    let e = control_read_error(FrameStreamError::Quic(StreamErrorIncoming::StreamTerminated { error_code: 1 }));
    assert!(matches!(e, ErrorOrigin::Internal(ie) if ie.code.value() == H3_CLOSED_CRITICAL_STREAM));
    let e = control_read_error(FrameStreamError::Quic(StreamErrorIncoming::ConnectionErrorIncoming {
        connection_error: ConnectionErrorIncoming::Timeout,
    }));
    assert!(matches!(e, ErrorOrigin::Quic(ConnectionErrorIncoming::Timeout)));
    let e = control_read_error(FrameStreamError::PayloadTooLarge { frame_type: 4, actual_size: 10, max_size: 5 });
    assert!(matches!(e, ErrorOrigin::Internal(ie) if ie.code.value() == H3_EXCESSIVE_LOAD));
    let e = control_read_error(FrameStreamError::Proto(FrameProtocolError::Malformed));
    assert!(matches!(e, ErrorOrigin::Internal(ie) if ie.code.value() == H3_FRAME_ERROR));
}

#[test]
fn poll_control_handles_frames_and_failures() {
    let mut shared = SharedState::default();
    let mut got = false;
    assert!(poll_control(&mut shared, &mut got, Err(FrameStreamError::UnexpectedEnd)).is_err());
    assert!(shared.error.is_none());
    assert!(matches!(poll_control(&mut shared, &mut got, Ok(Some(StreamFrame::Goaway(8)))), Ok(StreamFrame::Goaway(8))));
    match poll_control(&mut shared, &mut got, Ok(None)) {
        Err(ErrorOrigin::Internal(e)) => assert_eq!(e.code.value(), H3_CLOSED_CRITICAL_STREAM),
        _ => panic!("expected a closed critical stream"),
    }
    assert!(shared.error.is_some());
}

#[test]
fn accept_decisions() {
    assert_eq!(accept_outcome(true, 10, 5), AcceptAction::End);
    assert_eq!(
        accept_outcome(false, 10, 5),
        AcceptAction::RejectTooLarge { status: 431, actual_size: 10, max_size: 5 }
    );
    assert_eq!(REQUEST_HEADER_FIELDS_TOO_LARGE, 431);
    assert_eq!(accept_outcome(false, 5, 5), AcceptAction::Proceed);
}

#[test]
fn send_request_decisions() {
    let mut shared = SharedState::default();
    assert!(send_request_start(&shared).is_ok());
    shared.closing = Some(4);
    assert!(matches!(send_request_start(&shared), Err(StreamError::RemoteClosing)));
    let mut grease = true;
    assert!(take_send_grease(&mut grease));
    assert!(!grease);
    assert!(!take_send_grease(&mut grease));
}

#[test]
fn close_results() {
    assert!(close_result(ConnectionError::Remote(ConnectionErrorIncoming::ApplicationClose { error_code: H3_NO_ERROR }))
        .is_ok());
    assert!(close_result(convert_to_connection_error(ErrorOrigin::Internal(internal(HTTP_NO_ERROR, "bye")))).is_ok());
    assert!(close_result(ConnectionError::Timeout).is_err());
    assert!(close_result(convert_to_connection_error(ErrorOrigin::Internal(internal(H3_ID_ERROR, "x")))).is_err());
    // The peer closing with HTTP_NO_ERROR = 0 is a close without error.
    assert!(close_result(ConnectionError::Remote(ConnectionErrorIncoming::ApplicationClose { error_code: HTTP_NO_ERROR }))
        .is_ok());
    assert!(close_result(ConnectionError::Remote(ConnectionErrorIncoming::ApplicationClose { error_code: H3_ID_ERROR }))
        .is_err());
}

#[test]
fn graceful_shutdown_ids() {
    assert_eq!(shutdown_goaway_id(None, 5), 0);
    assert_eq!(shutdown_goaway_id(Some(8), 3), 20);
    assert_eq!(shutdown_goaway_id(Some(VARINT_MAX - 3), 10), VARINT_MAX - 3);
    let mut shared = SharedState::default();
    start_stream(&mut shared, 12);
    assert_eq!(shared.last_accepted_stream, Some(12));
    assert_eq!(shutdown(&mut shared, 2), 20);
    assert_eq!(shared.closing, Some(20));
}

#[test]
fn accepted_control_frames_change_the_state() {
    let mut shared = SharedState::default();
    let mut got = false;
    let mut settings = Settings::default();
    settings.insert(MAX_HEADER_LIST_SIZE, 4096).unwrap();
    assert!(poll_control(&mut shared, &mut got, Ok(Some(StreamFrame::Settings(settings)))).is_ok());
    assert!(got);
    assert_eq!(shared.peer_max_field_section_size, 4096);
    assert!(poll_control(&mut shared, &mut got, Ok(Some(StreamFrame::Goaway(8)))).is_ok());
    assert_eq!(shared.closing, Some(8));
    assert!(poll_control(&mut shared, &mut got, Ok(Some(StreamFrame::Goaway(4)))).is_ok());
    assert_eq!(shared.closing, Some(4));
}

#[test]
fn failed_control_read_gives_its_error() {
    let mut shared = SharedState::default();
    let mut got = false;
    let r = poll_control(
        &mut shared,
        &mut got,
        Err(FrameStreamError::Quic(StreamErrorIncoming::ConnectionErrorIncoming {
            connection_error: ConnectionErrorIncoming::ApplicationClose { error_code: H3_NO_ERROR },
        })),
    );
    assert!(matches!(
        r,
        Err(ErrorOrigin::Quic(ConnectionErrorIncoming::ApplicationClose { error_code: H3_NO_ERROR }))
    ));
    match poll_control(&mut shared, &mut got, Err(FrameStreamError::UnexpectedEnd)) {
        Err(ErrorOrigin::Internal(e)) => {
            assert_eq!(e.code.value(), H3_FRAME_ERROR);
            assert_eq!(e.message, "received incomplete frame");
        }
        other => panic!("unexpected {:?}", other),
    }
    assert!(shared.error.is_none() && shared.closing.is_none() && shared.last_accepted_stream.is_none());
    assert_eq!(shared.peer_max_field_section_size, VARINT_MAX);
    assert!(!got);
}

#[test]
fn client_control_frames() {
    let mut shared = SharedState::default();
    assert!(client_control_frame(&mut shared, &StreamFrame::Goaway(8)).is_none());
    assert!(client_control_frame(&mut shared, &StreamFrame::Settings(Settings::default())).is_none());
    assert!(shared.error.is_none());
    let e = client_control_frame(&mut shared, &StreamFrame::Goaway(3)).unwrap();
    assert_eq!(e.code.value(), H3_ID_ERROR);
    assert_eq!(e.message, "non-request StreamId in a GoAway frame: 3");
    match &shared.error {
        Some(ErrorOrigin::Internal(r)) => assert_eq!(r.message, e.message),
        other => panic!("unexpected {:?}", other),
    }
    let mut shared = SharedState::default();
    let e = client_control_frame(&mut shared, &StreamFrame::MaxPushId(5)).unwrap();
    assert_eq!(e.code.value(), H3_FRAME_UNEXPECTED);
    assert_eq!(e.message, "on client control stream: MaxPushId(5)");
}

#[test]
fn server_control_frames() {
    assert!(server_control_frame(&StreamFrame::Goaway(3)).is_none());
    assert!(server_control_frame(&StreamFrame::MaxPushId(5)).is_none());
    assert!(server_control_frame(&StreamFrame::CancelPush(5)).is_none());
    let e = server_control_frame(&StreamFrame::Goaway(4)).unwrap();
    assert_eq!(e.code.value(), H3_ID_ERROR);
    assert_eq!(e.message, "non-push StreamId in a GoAway frame: 4");
    let e = server_control_frame(&StreamFrame::Headers(vec![1])).unwrap();
    assert_eq!(e.code.value(), H3_FRAME_UNEXPECTED);
    assert_eq!(e.message, "on server control stream: Headers");
}
