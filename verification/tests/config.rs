use h3::client;
use h3::config::{ClientConfig, ServerConfig, DEFAULT_MAX_FIELD_SECTION_SIZE};
use h3::error2::{ErrorScope, InternalConnectionError, InternalRequestStreamError};
use h3::error::{Code, H3_FRAME_ERROR, H3_FRAME_UNEXPECTED, H3_SETTINGS_ERROR};
use h3::frame::FrameError;
use h3::params::Params;
use h3::proto::error::ErrorCode;
use h3::proto::settings::SettingsError;
use h3::proto::stream::StreamType;
use h3::server;

#[test]
fn config_builders() {
    let c = ClientConfig::new().disable_grease().max_field_section_size(100);
    assert!(!c.conn.enable_grease);
    assert!(!c.conn.enable_webtransport);
    assert_eq!(c.conn.max_field_section_size, 100);
    let s = ServerConfig::new().enable_webtransport();
    assert!(s.conn.enable_grease);
    assert!(s.conn.enable_webtransport);
    assert_eq!(s.conn.max_field_section_size, DEFAULT_MAX_FIELD_SECTION_SIZE);
}

#[test]
fn params_builder() {
    let p = Params::default().enable_webtransport().disable_grease().max_field_section_size(7);
    assert_eq!(p, Params { enable_webtransport: true, grease: false, max_field_section_size: 7 });
    assert_eq!(Params::default().max_field_section_size, (1u64 << 62) - 1);
}

#[test]
fn client_builders() {
    let mut b = client::builder();
    assert!(b.send_grease);
    assert_eq!(b.max_field_section_size, (1u64 << 62) - 1);
    b.max_field_section_size(8192);
    assert_eq!(b.max_field_section_size, 8192);

    let mut b = client::builder::builder();
    b.max_field_section_size(8192).send_grease(false).enable_datagram(true).enable_extended_connect(true).send_settings(false);
    assert_eq!(b.config.settings.max_field_section_size, 8192);
    assert!(!b.config.send_grease);
    assert!(b.config.settings.enable_datagram);
    assert!(b.config.settings.enable_extended_connect);
    assert!(!b.config.send_settings);
    assert!(!b.config.settings.enable_webtransport);
}

#[test]
fn server_builder() {
    let mut b = server::builder();
    assert_eq!(b.max_field_section_size, (1u64 << 62) - 1);
    b.max_field_section_size(1);
    assert_eq!(b.max_field_section_size, 1);
}

#[test]
fn stream_types() {
    let t = StreamType::new(0);
    assert_eq!(t.to_string(), "Control");
    assert_eq!(StreamType::new(2).to_string(), "Encoder");
    assert_eq!(StreamType::new(3).to_string(), "Decoder");
    assert_eq!(StreamType::new(1).to_string(), "StreamType(1)");
    let mut buf = vec![];
    StreamType::new(0x54).encode(&mut buf);
    assert_eq!(buf, vec![0x40, 0x54]);
    let (t, next) = StreamType::decode(&buf, 0).unwrap();
    assert_eq!(t.value(), 0x54);
    assert_eq!(next, 2);
    assert!(StreamType::decode(&buf[..1], 0).is_err());
}

#[test]
fn error_codes() {
    assert_eq!(ErrorCode::from_varint(0x1_0000_0102).0, 0x102);
    assert_eq!(ErrorCode(0x100).to_varint(), 0x100);
}

#[test]
fn frame_errors_and_scope() {
    let e = InternalConnectionError::frame_error_is_connection_error(FrameError::Malformed).unwrap();
    assert_eq!(e.code.value(), H3_FRAME_ERROR);
    let e = InternalConnectionError::frame_error_is_connection_error(FrameError::UnsupportedFrame(2)).unwrap();
    assert_eq!(e.code.value(), H3_FRAME_UNEXPECTED);
    let e = InternalConnectionError::frame_error_is_connection_error(FrameError::Settings(SettingsError::Malformed)).unwrap();
    assert_eq!(e.code.value(), H3_SETTINGS_ERROR);
    assert!(InternalConnectionError::frame_error_is_connection_error(FrameError::SkipUnknown { ty: 0x21, len: 3 }).is_none());
    let e = InternalConnectionError::frame_error_is_connection_error(FrameError::InvalidPushId(3)).unwrap();
    assert_eq!(e.code.value(), 0x108);
    let e = InternalConnectionError::frame_error_is_connection_error(FrameError::InvalidFrameValue).unwrap();
    assert_eq!(e.code.value(), H3_FRAME_ERROR);
    let r = InternalRequestStreamError::new(ErrorScope::Stream, Code::new(0x10e), "bad");
    assert_eq!(r.scope, ErrorScope::Stream);
    assert_eq!(r.message, "bad");
}
