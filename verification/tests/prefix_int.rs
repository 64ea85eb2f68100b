use h3::qpack::prefix_int::{encode, new_prefix_int_parser, PrefixIntParseError};
use h3::qpack::qpack_result::ParseProgressResult;

/// Generates all possible ways to chunk a buffer into a series of contiguous parts
fn all_chunking_combinations(buf: &[u8]) -> Vec<Vec<Vec<u8>>> {
    if buf.is_empty() {
        return vec![vec![]];
    }
    if buf.len() == 1 {
        return vec![vec![buf.to_vec()]];
    }
    let mut result = Vec::new();
    for i in 1..=buf.len() {
        let first_chunk = buf[0..i].to_vec();
        if i == buf.len() {
            result.push(vec![first_chunk]);
            continue;
        }
        let remainder_chunking = all_chunking_combinations(&buf[i..]);
        for chunking in remainder_chunking {
            let mut new_chunking = vec![first_chunk.clone()];
            new_chunking.extend(chunking);
            result.push(new_chunking);
        }
    }
    result
}

fn check_codec<const F: u8>(flags: u8, value: u64, data: &[u8]) {
    for chunking in all_chunking_combinations(data) {
        let mut parser = new_prefix_int_parser::<F>();
        let mut chunks = chunking.iter();
        loop {
            let buf = chunks.next().unwrap().clone();
            parser = match parser.parse_progress(&buf, 0).0 {
                ParseProgressResult::Error(e) => panic!("Encountered error while parsing {:?}", e),
                ParseProgressResult::Done(result_value) => {
                    assert_eq!(result_value, (flags, value));
                    break;
                }
                ParseProgressResult::MoreData(m) => m,
            }
        }
    }
}

fn check_overflow<const F: u8>(data: &[u8]) {
    for chunking in all_chunking_combinations(data) {
        let mut parser = new_prefix_int_parser::<F>();
        let mut chunks = chunking.iter();
        loop {
            let buf = chunks.next().unwrap().clone();
            parser = match parser.parse_progress(&buf, 0).0 {
                ParseProgressResult::Error(PrefixIntParseError::Overflow) => break,
                ParseProgressResult::Done(result_value) => {
                    panic!("Expected overflow, but got {:?}", result_value)
                }
                ParseProgressResult::MoreData(m) => m,
            }
        }
    }
}

#[test]
fn codec_5_bits() {
    check_codec::<5>(0b101, 10, &[0b1010_1010]);
    check_codec::<5>(0b101, 0, &[0b1010_0000]);
    check_codec::<5>(0b010, 1337, &[0b0101_1111, 154, 10]);
    check_codec::<5>(0b010, 31, &[0b0101_1111, 0]);
    check_codec::<5>(
        0b010,
        0x80_00_00_00_00_00_00_1E,
        &[95, 255, 255, 255, 255, 255, 255, 255, 255, 127],
    );
}

#[test]
fn codec_8_bits() {
    check_codec::<8>(0, 42, &[0b0010_1010]);
    check_codec::<8>(0, 424_242, &[255, 179, 240, 25]);
    check_codec::<8>(
        0,
        0x80_00_00_00_00_00_00_FE,
        &[255, 255, 255, 255, 255, 255, 255, 255, 255, 127],
    );
}

#[test]
fn overflow_1() {
    check_overflow::<1>(&[255, 128, 254, 255, 255, 255, 255, 255, 255, 255, 255, 1]);
}
#[test]
fn overflow_2() {
    check_overflow::<2>(&[255, 128, 254, 255, 255, 255, 255, 255, 255, 255, 255, 1]);
}
#[test]
fn overflow_3() {
    check_overflow::<3>(&[255, 128, 254, 255, 255, 255, 255, 255, 255, 255, 255, 1]);
}
#[test]
fn overflow_4() {
    check_overflow::<4>(&[255, 128, 254, 255, 255, 255, 255, 255, 255, 255, 255, 1]);
}
#[test]
fn overflow_5() {
    check_overflow::<5>(&[255, 128, 254, 255, 255, 255, 255, 255, 255, 255, 255, 1]);
}
#[test]
fn overflow_6() {
    check_overflow::<6>(&[255, 128, 254, 255, 255, 255, 255, 255, 255, 255, 255, 1]);
}
#[test]
fn overflow_7() {
    check_overflow::<7>(&[255, 128, 254, 255, 255, 255, 255, 255, 255, 255, 255, 1]);
}
#[test]
fn overflow_8() {
    check_overflow::<8>(&[255, 128, 254, 255, 255, 255, 255, 255, 255, 255, 255, 1]);
}

#[test]
fn number_never_ends_with_0x80() {
    check_codec::<4>(0b0001, 143, &[31, 128, 1]);
}

#[test]
fn test_prefix_int_parser() {
    let buf = [0b011_00010u8];
    let parser = new_prefix_int_parser::<5>();
    let (result, pos) = parser.parse_progress(&buf, 0);
    assert!(matches!(result, ParseProgressResult::Done((0b011, 0b00010))));
    assert_eq!(pos, 1);
}

#[test]
fn test_prefix_int_two_buffer() {
    let buf = [0b011_11111u8];
    let parser = new_prefix_int_parser::<5>();
    let parser = match parser.parse_progress(&buf, 0).0 {
        ParseProgressResult::MoreData(parser) => parser,
        _ => panic!("Expected MoreData"),
    };
    let buffer2 = [0b00000001u8];
    let (result, _) = parser.parse_progress(&buffer2, 0);
    assert!(matches!(result, ParseProgressResult::Done((0b011, 32))));
}

#[test]
fn encode_then_parse_roundtrip() {
    for &(flags, value) in &[(0b010u8, 1337u64), (0b101, 10), (0b010, 31), (0, 0)] {
        let mut buf = Vec::new();
        encode(5, flags, value, &mut buf);
        buf.push(0xAA);
        let (result, pos) = new_prefix_int_parser::<5>().parse_progress(&buf, 0);
        assert!(matches!(result, ParseProgressResult::Done(r) if r == (flags, value)));
        assert_eq!(pos, buf.len() - 1);
    }
}

#[test]
fn encode_exact_bytes() {
    let mut buf = Vec::new();
    encode(5, 0b010, 1337, &mut buf);
    assert_eq!(buf, vec![0b0101_1111, 154, 10]);
    let mut buf = Vec::new();
    encode(8, 0, 424_242, &mut buf);
    assert_eq!(buf, vec![255, 179, 240, 25]);
}

#[test]
fn parse_stops_at_integer_end() {
    let buf = [7u8, 0b0101_1111, 154, 10, 99];
    let (result, pos) = new_prefix_int_parser::<5>().parse_progress(&buf, 1);
    assert!(matches!(result, ParseProgressResult::Done((0b010, 1337))));
    assert_eq!(pos, 4);
}
