use h3::varint::{decode, encode, size, UnexpectedEnd};

#[test]
fn encodes_each_length_class() {
    for &(v, bytes) in &[
        (37u64, &[0x25u8][..]),
        (15293, &[0x7b, 0xbd][..]),
        (494878333, &[0x9d, 0x7f, 0x3e, 0x7d][..]),
        (151288809941952652, &[0xc2, 0x19, 0x7c, 0x5e, 0xff, 0x14, 0xe8, 0x8c][..]),
    ] {
        let mut buf = Vec::new();
        encode(v, &mut buf);
        assert_eq!(buf, bytes);
        assert_eq!(size(v), bytes.len());
        assert_eq!(decode(&buf, 0), Ok((v, bytes.len())));
    }
}

#[test]
fn non_minimal_encoding_decodes() {
    assert_eq!(decode(&[0x40, 0x25], 0), Ok((37, 2)));
}

#[test]
fn truncated_is_unexpected_end() {
    assert_eq!(decode(&[0x7b], 0), Err(UnexpectedEnd));
    assert_eq!(decode(&[], 0), Err(UnexpectedEnd));
    assert_eq!(decode(&[1, 2], 2), Err(UnexpectedEnd));
}
