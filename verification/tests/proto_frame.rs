use h3::proto::frame::PartialData;
use h3::frame::Error as FrameReadError;
use h3::qpack::encoder_instructions::ParseEncoderInstructionError;
use h3::proto::frame::{
    DataFrame, Error, Frame, HeadersFrame, PushPromiseFrame, SettingId, SettingsFrame,
};
use h3::proto::settings::{MAX_HEADER_LIST_SIZE, QPACK_MAX_BLOCKED_STREAMS, QPACK_MAX_TABLE_CAPACITY};
use h3::varint;

fn decode_all(buf: &[u8]) -> (Result<Frame, Error>, usize) {
    Frame::decode(buf, 0)
}

fn codec_frame_check(frame: Frame, wire: &[u8]) {
    let mut buf = Vec::new();
    frame.encode(&mut buf);
    assert_eq!(&buf, &wire);
    let (decoded, pos) = decode_all(&buf);
    assert_eq!(decoded.unwrap(), frame);
    assert_eq!(pos, buf.len());
}

#[test]
fn unknown_frame_type() {
    let buf = [22u8, 4, 0, 255, 128, 0, 3, 1, 2];
    let (r, pos) = Frame::decode(&buf, 0);
    assert_eq!(r, Err(Error::UnknownFrame(22)));
    let (r, _) = Frame::decode(&buf, pos);
    assert_eq!(r, Ok(Frame::CancelPush(2)));
}

#[test]
fn len_unexpected_end() {
    let (r, _) = decode_all(&[0, 255]);
    assert_eq!(r, Err(Error::Incomplete(3)));
}

#[test]
fn type_unexpected_end() {
    let (r, _) = decode_all(&[255]);
    assert_eq!(r, Err(Error::Incomplete(2)));
}

#[test]
fn buffer_too_short() {
    let (r, _) = decode_all(&[4, 4, 0, 255, 128]);
    assert_eq!(r, Err(Error::Incomplete(6)));
}

fn settings(entries: &[(u64, u64)]) -> SettingsFrame {
    let mut s = SettingsFrame::default();
    for &(id, v) in entries {
        s.insert(SettingId(id), v).unwrap();
    }
    s
}

#[test]
fn frame_settings_frame() {
    codec_frame_check(
        Frame::Settings(settings(&[
            (MAX_HEADER_LIST_SIZE, 0xfad1),
            (QPACK_MAX_TABLE_CAPACITY, 0xfad2),
            (QPACK_MAX_BLOCKED_STREAMS, 0xfad3),
        ])),
        &[4, 15, 6, 128, 0, 250, 209, 1, 128, 0, 250, 210, 7, 128, 0, 250, 211],
    );
}

#[test]
fn settings_frame_emtpy() {
    codec_frame_check(Frame::Settings(SettingsFrame::default()), &[4, 0]);
}

#[test]
fn data_frame() {
    codec_frame_check(
        Frame::Data(DataFrame { payload: b"foo bar".to_vec() }),
        &[0, 7, 102, 111, 111, 32, 98, 97, 114],
    );
}

#[test]
fn simple_frames() {
    codec_frame_check(Frame::CancelPush(2), &[3, 1, 2]);
    codec_frame_check(Frame::Goaway(2), &[7, 1, 2]);
    codec_frame_check(Frame::MaxPushId(2), &[13, 1, 2]);
    codec_frame_check(Frame::DuplicatePush(2), &[14, 1, 2]);
}

#[test]
fn headers_frames() {
    codec_frame_check(
        Frame::Headers(HeadersFrame { encoded: b"TODO QPACK".to_vec() }),
        &[1, 10, 84, 79, 68, 79, 32, 81, 80, 65, 67, 75],
    );
    codec_frame_check(
        Frame::PushPromise(PushPromiseFrame { id: 134, encoded: b"TODO QPACK".to_vec() }),
        &[5, 12, 64, 134, 84, 79, 68, 79, 32, 81, 80, 65, 67, 75],
    );
}

#[test]
fn reserved_frame() {
    let mut raw = vec![];
    varint::encode(0x21 + 2 * 0x1f, &mut raw);
    raw.extend(&[6, 0, 255, 128, 0, 250, 218]);
    let (decoded, _) = decode_all(&raw);
    assert_eq!(decoded, Ok(Frame::Reserved));
}

#[test]
fn forbidden_h2_frame() {
    let (decoded, pos) = decode_all(&[8, 1, 0]);
    assert_eq!(decoded, Err(Error::UnsupportedFrame(8)));
    assert_eq!(pos, 0);
}

#[test]
fn incomplete_data_frame() {
    let (decoded, _) = decode_all(&[0, 7, 102, 111]);
    assert_eq!(decoded, Err(Error::IncompleteData));
}

#[test]
fn settings_repeated_and_exceeded() {
    let (decoded, _) = decode_all(&[4, 4, 6, 1, 6, 2]);
    assert_eq!(decoded, Err(Error::SettingRepeated(SettingId(6))));
    let (decoded, _) = decode_all(&[4, 3, 6, 1, 0]);
    assert_eq!(decoded, Err(Error::Malformed));
}

#[test]
fn settings_frame_insert_rules() {
    let mut s = SettingsFrame::default();
    assert!(s.insert(SettingId(0x42), 1).is_ok());
    assert!(s.insert(SettingId(6), 1).is_ok());
    assert!(s.insert(SettingId(6), 2).is_err());
    let mut buf = Vec::new();
    Frame::Settings(s).encode(&mut buf);
    assert_eq!(buf, vec![4, 2, 6, 1]);
}

#[test]
fn partial_data_frame_arrives_in_pieces() {
    // DATA, length 5, two payload bytes so far.
    let (mut partial, first) = PartialData::decode(&[0, 5, b'a', b'b']).unwrap();
    assert_eq!(first.payload, b"ab".to_vec());
    assert_eq!(partial.remaining(), 3);
    let next = partial.decode_data(b"cdefg");
    assert_eq!(next.payload, b"cde".to_vec());
    assert_eq!(partial.remaining(), 0);
    assert!(matches!(PartialData::decode(&[0]), Err(Error::UnexpectedEnd)));
}

#[test]
fn frame_error_codes() {
    assert_eq!(FrameReadError::Io("x".to_string()).code().0, 0x101);
    assert_eq!(FrameReadError::Proto(Error::Settings("bad".to_string())).code().0, 0x109);
    assert_eq!(FrameReadError::Proto(Error::UnsupportedFrame(2)).code().0, 0x105);
    assert_eq!(FrameReadError::Proto(Error::Malformed).code().0, 0x106);
}

#[test]
fn encoder_instruction_connection_error() {
    match ParseEncoderInstructionError::connection_error("bad index".to_string()) {
        ParseEncoderInstructionError::ConnectionError(e) => {
            assert_eq!(e.code.value(), 0x201);
            assert_eq!(e.message, "bad index");
        }
        _ => panic!("expected a connection error"),
    }
}

#[test]
fn frame_text() {
    assert_eq!(Frame::CancelPush(3).to_string(), "CancelPush(3)");
    assert_eq!(Frame::Data(DataFrame { payload: b"abc".to_vec() }).to_string(), "Data(3 bytes)");
    assert_eq!(Frame::Goaway(8).to_string(), "GoAway(8)");
    assert_eq!(Frame::Reserved.to_string(), "Reserved");
}
