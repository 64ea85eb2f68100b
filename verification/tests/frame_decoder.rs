use h3::buf::BufList;
use h3::frame::{FrameDecoder, FrameStreamError, StreamFrame};
use h3::proto::frame::{DataFrame, Frame, HeadersFrame};
use h3::varint;

fn headers(bytes: &[u8]) -> Frame {
    Frame::Headers(HeadersFrame { encoded: bytes.to_vec() })
}

fn data(bytes: &[u8]) -> Frame {
    Frame::Data(DataFrame { payload: bytes.to_vec() })
}

fn encoded(frames: &[Frame]) -> Vec<u8> {
    let mut buf = Vec::new();
    for f in frames {
        f.encode(&mut buf);
    }
    buf
}

#[test]
fn frame_one_frame() {
    let mut buf = BufList::from_vec(encoded(&[headers(b"salut")]));
    let mut decoder = FrameDecoder::default();
    assert!(matches!(decoder.decode(&mut buf), Ok(Some(StreamFrame::Headers(_)))));
}

#[test]
fn frame_incomplete_frame() {
    let mut bytes = encoded(&[headers(b"salut")]);
    bytes.truncate(bytes.len() - 1);
    let mut buf = BufList::from_vec(bytes);
    let mut decoder = FrameDecoder::default();
    assert!(matches!(decoder.decode(&mut buf), Ok(None)));
}

#[test]
fn frame_header_spread_multiple_buf() {
    let bytes = encoded(&[headers(b"salut")]);
    let mut buf_list = BufList::new();
    buf_list.push(&bytes[..1]);
    buf_list.push(&bytes[1..]);
    let mut decoder = FrameDecoder::default();
    assert!(matches!(decoder.decode(&mut buf_list), Ok(Some(StreamFrame::Headers(_)))));
}

#[test]
fn frame_varint_spread_multiple_buf() {
    let bytes = encoded(&[headers("salut".repeat(1024).as_bytes())]);
    let mut buf_list = BufList::new();
    buf_list.push(&bytes[..2]);
    buf_list.push(&bytes[2..]);
    let mut decoder = FrameDecoder::default();
    assert!(matches!(decoder.decode(&mut buf_list), Ok(Some(StreamFrame::Headers(_)))));
}

#[test]
fn frame_two_frames_then_incomplete() {
    let mut bytes = encoded(&[headers(b"header"), data(b"body"), headers(b"trailer")]);
    bytes.truncate(bytes.len() - 1);
    let mut buf = BufList::from_vec(bytes);
    let mut decoder = FrameDecoder::default();
    assert!(matches!(decoder.decode(&mut buf), Ok(Some(StreamFrame::Headers(_)))));
    assert!(matches!(decoder.decode(&mut buf), Ok(Some(StreamFrame::Data(4)))));
    // the DATA payload is left to the caller
    buf.advance(4);
    assert!(matches!(decoder.decode(&mut buf), Ok(None)));
}

#[test]
fn skips_unknown_payload_incrementally_then_decodes_next_frame() {
    let mut first = vec![22, 63];
    first.extend([0_u8; 10]);
    let mut buf = BufList::from_vec(first);
    let mut decoder = FrameDecoder::default();

    assert!(matches!(decoder.decode(&mut buf), Ok(None)));
    assert_eq!(buf.remaining(), 0);
    assert_eq!(decoder.skipping_left(), 53);

    let mut rest = vec![0_u8; 53];
    rest.extend([0, 4]);
    buf.push(&rest);

    assert!(matches!(decoder.decode(&mut buf), Ok(Some(StreamFrame::Data(4)))));
    assert_eq!(decoder.skipping_left(), 0);
    assert_eq!(buf.remaining(), 0);
}

#[test]
fn an_enormous_unknown_frame_costs_nothing_to_ignore() {
    const DECLARED: u64 = 4 * 1024 * 1024 * 1024;
    const CHUNK: usize = 1024 * 1024;

    let mut header = Vec::new();
    varint::encode(0x21, &mut header);
    varint::encode(DECLARED, &mut header);

    let mut buf = BufList::from_vec(header);
    let mut decoder = FrameDecoder::default();

    assert!(matches!(decoder.decode(&mut buf), Ok(None)));
    assert_eq!(decoder.skipping_left(), DECLARED);
    assert_eq!(buf.remaining(), 0);

    let chunk = vec![0_u8; CHUNK];
    for _ in 0..(DECLARED / CHUNK as u64) - 1 {
        buf.push(&chunk);
        assert!(matches!(decoder.decode(&mut buf), Ok(None)));
        assert_eq!(buf.remaining(), 0, "a payload being ignored was retained");
    }
    assert_eq!(decoder.skipping_left(), CHUNK as u64);

    let mut tail = vec![0_u8; CHUNK];
    headers(b"salut").encode(&mut tail);
    buf.push(&tail);

    assert!(matches!(decoder.decode(&mut buf), Ok(Some(StreamFrame::Headers(_)))));
    assert_eq!(decoder.skipping_left(), 0);
    assert_eq!(buf.remaining(), 0);
}

#[test]
fn oversized_buffered_frame_fails_from_header_alone() {
    let mut buf = BufList::from_vec(vec![1, 63]);
    let mut decoder = FrameDecoder::new(62);
    assert_eq!(
        decoder.decode(&mut buf),
        Err(FrameStreamError::PayloadTooLarge { frame_type: 1, actual_size: 63, max_size: 62 })
    );
    assert_eq!(buf.remaining(), 0);
}

#[test]
fn truncated_unknown_frame_leaves_decoder_incomplete() {
    let mut buf = BufList::from_vec(vec![22, 4, b'a', b'b']);
    let mut decoder = FrameDecoder::default();
    assert!(matches!(decoder.decode(&mut buf), Ok(None)));
    assert!(decoder.is_incomplete());
    assert_eq!(decoder.skipping_left(), 2);
}

#[test]
fn mod_one_frame() {
    let mut buf = BufList::from_vec(encoded(&[headers(b"salut")]));
    let mut decoder = FrameDecoder::default();
    assert!(matches!(decoder.decode(&mut buf), Ok(Some(StreamFrame::Headers(_)))));
}

#[test]
fn mod_incomplete_frame() {
    let mut bytes = encoded(&[headers(b"salut")]);
    bytes.truncate(bytes.len() - 1);
    let mut buf = BufList::from_vec(bytes);
    let mut decoder = FrameDecoder::default();
    assert!(matches!(decoder.decode(&mut buf), Ok(None)));
}

#[test]
fn mod_header_spread_multiple_buf() {
    let bytes = encoded(&[headers(b"salut")]);
    let mut buf_list = BufList::new();
    buf_list.push(&bytes[..1]);
    buf_list.push(&bytes[1..]);
    let mut decoder = FrameDecoder::default();
    assert!(matches!(decoder.decode(&mut buf_list), Ok(Some(StreamFrame::Headers(_)))));
}

#[test]
fn mod_varint_spread_multiple_buf() {
    let bytes = encoded(&[headers("salut".repeat(1024).as_bytes())]);
    let mut buf_list = BufList::new();
    buf_list.push(&bytes[..2]);
    buf_list.push(&bytes[2..]);
    let mut decoder = FrameDecoder::default();
    assert!(matches!(decoder.decode(&mut buf_list), Ok(Some(StreamFrame::Headers(_)))));
}

#[test]
fn mod_two_frames_then_incomplete() {
    let mut bytes = encoded(&[headers(b"header"), data(b"body"), headers(b"trailer")]);
    bytes.truncate(bytes.len() - 1);
    let mut buf = BufList::from_vec(bytes);
    let mut decoder = FrameDecoder::default();
    assert!(matches!(decoder.decode(&mut buf), Ok(Some(StreamFrame::Headers(_)))));
    assert!(matches!(decoder.decode(&mut buf), Ok(Some(StreamFrame::Data(_)))));
    buf.advance(4);
    assert!(matches!(decoder.decode(&mut buf), Ok(None)));
}

#[test]
fn forbidden_http2_frame_is_refused() {
    let mut buf = BufList::from_vec(vec![0x2, 1, 0]);
    let mut decoder = FrameDecoder::default();
    assert!(matches!(
        decoder.decode(&mut buf),
        Err(FrameStreamError::Proto(h3::frame::FrameProtocolError::ForbiddenFrame(2)))
    ));
}

#[test]
fn goaway_with_trailing_bytes_is_malformed() {
    let mut buf = BufList::from_vec(vec![0x7, 2, 1, 9]);
    let mut decoder = FrameDecoder::default();
    assert!(matches!(
        decoder.decode(&mut buf),
        Err(FrameStreamError::Proto(h3::frame::FrameProtocolError::Malformed))
    ));
    let mut buf = BufList::from_vec(vec![0x7, 1, 5]);
    assert!(matches!(decoder.decode(&mut buf), Ok(Some(StreamFrame::Goaway(5)))));
}

#[test]
fn buf_list_hands_out_chunks_as_they_arrived() {
    let mut buf = BufList::new();
    buf.push(b"ab");
    buf.push(b"");
    buf.push(b"cde");
    assert_eq!(buf.remaining(), 5);
    buf.advance(1);
    assert_eq!(buf.take_chunk(10), Some(b"b".to_vec()));
    assert_eq!(buf.take_chunk(2), Some(b"cd".to_vec()));
    assert_eq!(buf.take_chunk(2), Some(b"e".to_vec()));
    assert_eq!(buf.take_chunk(2), None);
    assert!(!buf.has_remaining());
}

#[test]
fn buf_list_advance_across_chunks() {
    let mut buf = BufList::from_vec(b"abc".to_vec());
    buf.push(b"de");
    buf.push(b"fgh");
    buf.advance(4);
    assert_eq!(buf.bytes(), b"efgh");
    assert_eq!(buf.take_chunk(8), Some(b"e".to_vec()));
    assert_eq!(buf.take_chunk(8), Some(b"fgh".to_vec()));
}
