use h3::frame::{FrameStreamError, StreamFrame, DEFAULT_MAX_BUFFERED_FRAME};
use h3::frame_stream::{DataStep, FrameStep, FrameStream};
use h3::proto::frame::{DataFrame, Frame, HeadersFrame};

fn encoded(frames: &[Frame]) -> Vec<u8> {
    let mut buf = Vec::new();
    for f in frames {
        f.encode(&mut buf);
    }
    buf
}

fn headers(bytes: &[u8]) -> Frame {
    Frame::Headers(HeadersFrame { encoded: bytes.to_vec() })
}

fn data(bytes: &[u8]) -> Frame {
    Frame::Data(DataFrame { payload: bytes.to_vec() })
}

fn stream_with(chunks: &[&[u8]], end: bool) -> FrameStream {
    let mut s = FrameStream::new_with_max_buffered_frame(DEFAULT_MAX_BUFFERED_FRAME);
    for c in chunks {
        s.receive(c);
    }
    if end {
        s.finish();
    }
    s
}

#[test]
fn poll_full_request() {
    let bytes = encoded(&[headers(b"header"), data(b"body"), headers(b"trailer")]);
    let mut s = stream_with(&[&bytes], true);
    assert!(matches!(s.poll_next(), Ok(FrameStep::Frame(StreamFrame::Headers(_)))));
    assert!(matches!(s.poll_next(), Ok(FrameStep::Frame(StreamFrame::Data(4)))));
    assert_eq!(s.poll_data(), Ok(DataStep::Data(b"body".to_vec())));
    assert_eq!(s.poll_data(), Ok(DataStep::End));
    assert!(matches!(s.poll_next(), Ok(FrameStep::Frame(StreamFrame::Headers(_)))));
    assert!(matches!(s.poll_next(), Ok(FrameStep::End)));
    assert!(s.is_eos());
}

#[test]
fn poll_next_incomplete_frame() {
    let mut bytes = encoded(&[headers(b"header")]);
    bytes.truncate(bytes.len() - 1);
    let mut s = stream_with(&[&bytes], false);
    assert!(matches!(s.poll_next(), Ok(FrameStep::NeedData)));
    s.finish();
    assert!(matches!(s.poll_next(), Err(FrameStreamError::UnexpectedEnd)));
}

#[test]
fn truncated_unknown_frame_is_an_unexpected_end() {
    let mut s = stream_with(&[&[22, 4, b'a', b'b']], true);
    assert!(matches!(s.poll_next(), Err(FrameStreamError::UnexpectedEnd)));
}

#[test]
fn stream_oversized_buffered_frame_fails_from_header_alone() {
    let mut s = FrameStream::new_with_max_buffered_frame(62);
    s.receive(&[1, 63]);
    assert!(matches!(
        s.poll_next(),
        Err(FrameStreamError::PayloadTooLarge { frame_type: 1, actual_size: 63, max_size: 62 })
    ));
}

#[test]
fn poll_data_split() {
    let bytes = encoded(&[data(b"body")]);
    let (first, second) = bytes.split_at(bytes.len() - 2);
    let mut s = stream_with(&[first, second], false);
    // We get the total size of data about to be received
    assert!(matches!(s.poll_next(), Ok(FrameStep::Frame(StreamFrame::Data(4)))));
    // Then we get parts of body, chunked as they arrived
    assert!(matches!(s.poll_data(), Ok(DataStep::Data(b)) if b.len() == 2));
    assert!(matches!(s.poll_data(), Ok(DataStep::Data(b)) if b.len() == 2));
}

#[test]
fn poll_data_waits_for_the_next_chunk() {
    let bytes = encoded(&[data(b"body")]);
    let (first, second) = bytes.split_at(bytes.len() - 2);
    let mut s = stream_with(&[first], false);
    assert!(matches!(s.poll_next(), Ok(FrameStep::Frame(StreamFrame::Data(4)))));
    assert_eq!(s.poll_data(), Ok(DataStep::Data(b"bo".to_vec())));
    assert_eq!(s.poll_data(), Ok(DataStep::NeedData));
    s.receive(second);
    assert_eq!(s.poll_data(), Ok(DataStep::Data(b"dy".to_vec())));
    assert!(!s.has_data());
    assert_eq!(s.poll_data(), Ok(DataStep::End));
}

#[test]
fn poll_data_unexpected_end() {
    let mut s = stream_with(&[&[0, 4, b'b']], true);
    assert!(matches!(s.poll_next(), Ok(FrameStep::Frame(StreamFrame::Data(4)))));
    assert_eq!(s.poll_data(), Err(FrameStreamError::UnexpectedEnd));
}

#[test]
fn poll_data_ignores_unknown_frames() {
    let mut bytes = vec![0x21, 0, 0x21, 6];
    bytes.extend_from_slice(b"grease");
    bytes.extend_from_slice(&encoded(&[data(b"body")]));
    let mut s = stream_with(&[&bytes], false);
    assert!(matches!(s.poll_next(), Ok(FrameStep::Frame(StreamFrame::Data(4)))));
    assert_eq!(s.poll_data(), Ok(DataStep::Data(b"body".to_vec())));
}

#[test]
fn poll_data_eos_but_buffered_data() {
    let mut s = stream_with(&[&[0, 4, b'b', b'o']], false);
    assert!(matches!(s.poll_next(), Ok(FrameStep::Frame(StreamFrame::Data(4)))));
    s.receive(b"dy");
    s.finish();
    assert_eq!(s.poll_data(), Ok(DataStep::Data(b"bo".to_vec())));
    assert_eq!(s.poll_data(), Ok(DataStep::Data(b"dy".to_vec())));
}

#[test]
fn poll_data_never_joins_chunks() {
    let mut s = stream_with(&[&[0, 6], b"a", b"bc", b"def"], true);
    assert!(matches!(s.poll_next(), Ok(FrameStep::Frame(StreamFrame::Data(6)))));
    assert_eq!(s.poll_data(), Ok(DataStep::Data(b"a".to_vec())));
    assert_eq!(s.poll_data(), Ok(DataStep::Data(b"bc".to_vec())));
    assert_eq!(s.poll_data(), Ok(DataStep::Data(b"def".to_vec())));
    assert_eq!(s.poll_data(), Ok(DataStep::End));
    assert!(matches!(s.poll_next(), Ok(FrameStep::End)));
}

#[test]
fn poll_data_stops_at_the_payload_end_inside_a_chunk() {
    let mut bytes = encoded(&[data(b"ab")]);
    bytes.extend_from_slice(&encoded(&[headers(b"t")]));
    let mut s = stream_with(&[&bytes], true);
    assert!(matches!(s.poll_next(), Ok(FrameStep::Frame(StreamFrame::Data(2)))));
    assert_eq!(s.poll_data(), Ok(DataStep::Data(b"ab".to_vec())));
    assert_eq!(s.poll_data(), Ok(DataStep::End));
    assert!(matches!(s.poll_next(), Ok(FrameStep::Frame(StreamFrame::Headers(_)))));
}

#[test]
fn poll_next_applies_backpressure_before_reading_more_chunks() {
    const FRAMES_PER_CHUNK: usize = 16;
    let payload = vec![0u8; 1024];
    let frames: Vec<Frame> = (0..FRAMES_PER_CHUNK).map(|_| headers(&payload)).collect();
    let chunk = encoded(&frames);
    let mut s = stream_with(&[&chunk], false);
    // Every complete frame is handed out before more bytes are asked for.
    for _ in 0..FRAMES_PER_CHUNK {
        assert!(matches!(s.poll_next(), Ok(FrameStep::Frame(StreamFrame::Headers(_)))));
    }
    assert!(matches!(s.poll_next(), Ok(FrameStep::NeedData)));
    s.receive(&chunk);
    assert!(matches!(s.poll_next(), Ok(FrameStep::Frame(StreamFrame::Headers(_)))));
}
