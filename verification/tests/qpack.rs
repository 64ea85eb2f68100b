use h3::qpack::huffman;
use h3::qpack::prefix_int;
use h3::qpack::prefix_string::{self, Error, HuffmanDecodingError};
use h3::qpack::qpack_result::ParseProgressResult;
use h3::qpack::stream::{
    DecoderInstruction, Duplicate, DynamicTableSizeUpdate, EncoderInstruction, HeaderAck,
    InsertCountIncrement, InsertWithNameRef, InsertWithoutNameRef, ParseError, StreamCancel,
};
use h3::qpack::string_decoder::{new_prefix_string_parser, StringDecodeError};

fn all_chunkings(buf: &[u8]) -> Vec<Vec<Vec<u8>>> {
    if buf.is_empty() {
        return vec![vec![]];
    }
    let mut result = Vec::new();
    for i in 1..=buf.len() {
        let first = buf[0..i].to_vec();
        if i == buf.len() {
            result.push(vec![first]);
            continue;
        }
        for rest in all_chunkings(&buf[i..]) {
            let mut c = vec![first.clone()];
            c.extend(rest);
            result.push(c);
        }
    }
    result
}

/// Some chunkings of `buf`: pieces of each fixed size, and every split in
/// two and in three.
fn sampled_chunkings(buf: &[u8]) -> Vec<Vec<Vec<u8>>> {
    let mut result = Vec::new();
    for size in 1..=buf.len() {
        result.push(buf.chunks(size).map(|c| c.to_vec()).collect());
    }
    for i in 1..buf.len() {
        result.push(vec![buf[..i].to_vec(), buf[i..].to_vec()]);
        for j in i + 1..buf.len() {
            result.push(vec![buf[..i].to_vec(), buf[i..j].to_vec(), buf[j..].to_vec()]);
        }
    }
    result
}

fn build_prefix_string(value: &[u8]) -> Vec<u8> {
    let mut buf = Vec::new();
    prefix_int::encode(7, 0, value.len() as u64, &mut buf);
    buf.extend_from_slice(value);
    buf
}

fn build_huffman_prefix_string(value: &[u8]) -> Vec<u8> {
    let encoded = huffman::encode(value);
    let mut buf = Vec::new();
    prefix_int::encode(7, 1, encoded.len() as u64, &mut buf);
    buf.extend_from_slice(&encoded);
    buf
}

/// Feeds `data` in every possible chunking; each must end in `Done(expected)`.
fn check_all_chunkings(data: &[u8], expected: (u8, Vec<u8>)) {
    check_chunkings(all_chunkings(data), expected);
}

fn check_chunkings(chunkings: Vec<Vec<Vec<u8>>>, expected: (u8, Vec<u8>)) {
    for chunking in chunkings {
        let mut decoder = Some(new_prefix_string_parser::<7>());
        let mut result = None;
        for chunk in chunking.iter() {
            match decoder.take().unwrap().parse_progress(chunk, 0) {
                (ParseProgressResult::Done(v), next) => {
                    assert_eq!(next, chunk.len());
                    result = Some(v);
                    break;
                }
                (ParseProgressResult::MoreData(d), next) => {
                    assert_eq!(next, chunk.len());
                    decoder = Some(d);
                }
                (ParseProgressResult::Error(e), _) => panic!("unexpected error {:?}", e),
            }
        }
        assert_eq!(result, Some(expected.clone()));
    }
}

#[test]
fn decode_non_huffman() {
    let buf = vec![0b0100_0011, b'b', b'a', b'r'];
    assert_eq!(prefix_string::decode(6, &buf, 0).unwrap(), (b"bar".to_vec(), 4));
}

#[test]
fn decode_too_short() {
    let buf = vec![0b0100_0011, b'b', b'a'];
    assert_eq!(prefix_string::decode(6, &buf, 0), Err(Error::UnexpectedEnd));
}

#[test]
fn codec_6() {
    let mut buf = Vec::new();
    prefix_string::encode(6, 0b01, b"name without ref", &mut buf);
    assert_eq!(
        &buf,
        &[0b0110_1100, 168, 116, 149, 79, 6, 76, 231, 181, 42, 88, 89, 127]
    );
    assert_eq!(
        prefix_string::decode(6, &buf, 0).unwrap(),
        (b"name without ref".to_vec(), 13)
    );
}

#[test]
fn codec_8() {
    let mut buf = Vec::new();
    prefix_string::encode(8, 0b01, b"name with ref", &mut buf);
    assert_eq!(&buf, &[0b100_01010, 168, 116, 149, 79, 6, 76, 234, 88, 89, 127]);
    assert_eq!(
        prefix_string::decode(8, &buf, 0).unwrap(),
        (b"name with ref".to_vec(), 11)
    );
}

#[test]
fn codec_8_empty() {
    let mut buf = Vec::new();
    prefix_string::encode(8, 0b01, b"", &mut buf);
    assert_eq!(&buf, &[0b100_00000]);
    assert_eq!(prefix_string::decode(8, &buf, 0).unwrap(), (b"".to_vec(), 1));
}

#[test]
fn decode_huffman_literal_with_bad_padding() {
    // H set, one byte: the code of 'a' (00011) and three zero bits.
    let buf = vec![0b0110_0001, 0b0001_1000];
    assert_eq!(
        prefix_string::decode(6, &buf, 0),
        Err(Error::HuffmanDecoding(HuffmanDecodingError::InvalidPadding))
    );
}

#[test]
fn huffman_rfc_examples() {
    let cases: Vec<(&[u8], Vec<u8>)> = vec![
        (b"www.example.com", vec![0xf1, 0xe3, 0xc2, 0xe5, 0xf2, 0x3a, 0x6b, 0xa0, 0xab, 0x90, 0xf4, 0xff]),
        (b"no-cache", vec![0xa8, 0xeb, 0x10, 0x64, 0x9c, 0xbf]),
        (b"custom-key", vec![0x25, 0xa8, 0x49, 0xe9, 0x5b, 0xa9, 0x7d, 0x7f]),
        (b"custom-value", vec![0x25, 0xa8, 0x49, 0xe9, 0x5b, 0xb8, 0xe8, 0xb4, 0xbf]),
        (b"a", vec![0x1f]),
        (b"", vec![]),
    ];
    for (plain, coded) in cases {
        assert_eq!(huffman::encode(plain), coded);
        assert_eq!(huffman::decode(&coded), Ok(plain.to_vec()));
    }
}

#[test]
fn huffman_all_bytes_read_back() {
    let all: Vec<u8> = (0..=255u8).collect();
    let coded = huffman::encode(&all);
    assert_eq!(huffman::decode(&coded), Ok(all));
}

#[test]
fn huffman_decoding_gives_the_encoding() {
    for a in 0..=255u8 {
        for b in [0x00u8, 0x3f, 0x7f, 0xbf, 0xff] {
            let bytes = [a, b];
            if let Ok(v) = huffman::decode(&bytes) {
                assert_eq!(huffman::encode(&v), bytes.to_vec());
            }
        }
    }
}

#[test]
fn huffman_decode_errors() {
    // 'a' followed by eight one bits: padding longer than seven bits.
    assert_eq!(huffman::decode(&[0x1f, 0xff]), Err(HuffmanDecodingError::InvalidPadding));
    // 'a' followed by three zero bits: padding that is not ones.
    assert_eq!(huffman::decode(&[0x18]), Err(HuffmanDecodingError::InvalidPadding));
    // Thirty one bits: the end-of-string code among the data.
    assert_eq!(huffman::decode(&[0xff, 0xff, 0xff, 0xfc]), Err(HuffmanDecodingError::EndOfString));
}

#[test]
fn huffman_decoder_fed_in_pieces() {
    let coded = huffman::encode(b"www.example.com");
    for split in 0..=coded.len() {
        let mut d = huffman::HuffmanDecoder::new();
        d.feed(&coded, 0, split);
        d.feed(&coded, split, coded.len());
        assert_eq!(d.finish(), Ok(b"www.example.com".to_vec()));
    }
}

#[test]
fn decode_plain_small_all_chunkings() {
    let input = b"hello";
    let data = build_prefix_string(input);
    check_all_chunkings(&data, (0u8, input.to_vec()));
}

#[test]
fn decode_huffman_small_all_chunkings() {
    let input = b"hello";
    let data = build_huffman_prefix_string(input);
    check_all_chunkings(&data, (0u8, input.to_vec()));
}

#[test]
fn decode_huffman_long_sampled_chunkings() {
    let input = b"The quick brown fox jumps over the lazy dog 1234567890!";
    let data = build_huffman_prefix_string(input);
    check_chunkings(sampled_chunkings(&data), (0u8, input.to_vec()));
}

#[test]
fn decode_plain_empty() {
    let input: &[u8] = b"";
    let data = build_prefix_string(input);
    check_all_chunkings(&data, (0u8, input.to_vec()));
}

#[test]
fn string_decoder_keeps_flags_above_h() {
    // Flags 0b10 above H = 0, with a 6-bit length prefix.
    let data = vec![0b1000_0010, b'o', b'k'];
    match new_prefix_string_parser::<6>().parse_progress(&data, 0) {
        (ParseProgressResult::Done((flags, v)), next) => {
            assert_eq!(flags, 0b1);
            assert_eq!(v, b"ok".to_vec());
            assert_eq!(next, 3);
        }
        _ => panic!("expected a string"),
    }
}

#[test]
fn string_decoder_reports_huffman_error_at_end() {
    // H set, length 1, a byte whose padding is not all ones.
    let data = vec![0b1000_0001, 0b0001_1000];
    match new_prefix_string_parser::<7>().parse_progress(&data, 0) {
        (ParseProgressResult::Error(e), next) => {
            assert_eq!(e, StringDecodeError::HuffmanDecodeError(HuffmanDecodingError::InvalidPadding));
            assert_eq!(next, 2);
        }
        _ => panic!("expected an error"),
    }
}

#[test]
fn string_decoder_stops_at_string_end() {
    let mut data = build_prefix_string(b"abc");
    data.extend_from_slice(b"rest");
    match new_prefix_string_parser::<7>().parse_progress(&data, 0) {
        (ParseProgressResult::Done((0, v)), next) => {
            assert_eq!(v, b"abc".to_vec());
            assert_eq!(next, 4);
        }
        _ => panic!("expected a string"),
    }
}

#[test]
fn insert_with_name_ref() {
    let instruction = InsertWithNameRef::new_static(0, b"value".to_vec());
    let mut buf = vec![];
    instruction.encode(&mut buf);
    assert_eq!(
        InsertWithNameRef::decode(&buf, 0),
        Ok(Some((InsertWithNameRef::new_static(0, b"value".to_vec()), buf.len())))
    );
}

#[test]
fn insert_with_dynamic_name_ref() {
    let instruction = InsertWithNameRef::new_dynamic(70, b"v".to_vec());
    let mut buf = vec![];
    instruction.encode(&mut buf);
    // 'v' is Huffman-coded as 1110111, filled up with one bit.
    assert_eq!(buf, vec![0b1011_1111, 7, 0b1000_0001, 0b1110_1111]);
    assert_eq!(
        InsertWithNameRef::decode(&buf, 0),
        Ok(Some((InsertWithNameRef::new_dynamic(70, b"v".to_vec()), 4)))
    );
    assert_eq!(InsertWithNameRef::decode(&buf[..3], 0), Ok(None));
}

#[test]
fn insert_without_name_ref() {
    let instruction = InsertWithoutNameRef::new(b"name".to_vec(), b"value".to_vec());
    let mut buf = vec![];
    instruction.encode(&mut buf);
    assert_eq!(
        InsertWithoutNameRef::decode(&buf, 0),
        Ok(Some((InsertWithoutNameRef::new(b"name".to_vec(), b"value".to_vec()), buf.len())))
    );
}

#[test]
fn insert_duplicate() {
    let instruction = Duplicate(42);
    let mut buf = vec![];
    instruction.encode(&mut buf);
    assert_eq!(Duplicate::decode(&buf, 0), Ok(Some((instruction, buf.len()))));
}

#[test]
fn dynamic_table_size_update() {
    let instruction = DynamicTableSizeUpdate(42);
    let mut buf = vec![];
    instruction.encode(&mut buf);
    assert_eq!(
        DynamicTableSizeUpdate::decode(&buf, 0),
        Ok(Some((instruction, buf.len())))
    );
}

#[test]
fn insert_count_increment() {
    let instruction = InsertCountIncrement(42);
    let mut buf = vec![];
    instruction.encode(&mut buf);
    assert_eq!(
        InsertCountIncrement::decode(&buf, 0),
        Ok(Some((instruction, buf.len())))
    );
}

#[test]
fn header_ack() {
    let instruction = HeaderAck(42);
    let mut buf = vec![];
    instruction.encode(&mut buf);
    assert_eq!(HeaderAck::decode(&buf, 0), Ok(Some((instruction, buf.len()))));
}

#[test]
fn stream_cancel() {
    let instruction = StreamCancel(42);
    let mut buf = vec![];
    instruction.encode(&mut buf);
    assert_eq!(StreamCancel::decode(&buf, 0), Ok(Some((instruction, buf.len()))));
}

#[test]
fn instruction_with_wrong_prefix_is_refused() {
    // A Duplicate read as a Set Dynamic Table Capacity.
    let mut buf = vec![];
    Duplicate(3).encode(&mut buf);
    assert_eq!(
        DynamicTableSizeUpdate::decode(&buf, 0),
        Err(ParseError::InvalidPrefix(0))
    );
}

#[test]
fn instruction_kinds_from_first_byte() {
    assert_eq!(EncoderInstruction::decode(0b1000_0000), EncoderInstruction::InsertWithNameRef);
    assert_eq!(EncoderInstruction::decode(0b0100_0000), EncoderInstruction::InsertWithoutNameRef);
    assert_eq!(EncoderInstruction::decode(0b0010_0000), EncoderInstruction::DynamicTableSizeUpdate);
    assert_eq!(EncoderInstruction::decode(0b0001_1111), EncoderInstruction::Duplicate);
    assert_eq!(DecoderInstruction::decode(0b1000_0001), DecoderInstruction::HeaderAck);
    assert_eq!(DecoderInstruction::decode(0b0100_0001), DecoderInstruction::StreamCancel);
    assert_eq!(DecoderInstruction::decode(0b0011_1111), DecoderInstruction::InsertCountIncrement);
}
