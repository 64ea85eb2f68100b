//! QUIC variable-length integers (RFC 9000, section 16).
use vstd::prelude::*;

verus! {

/// Largest value a QUIC variable-length integer can hold: 2^62 - 1.
pub const MAX_VALUE: u64 = 0x3fff_ffff_ffff_ffff;

/// Largest encoded size of a variable-length integer, in bytes.
pub const MAX_SIZE: usize = 8;

/// Returned when a buffer ends before a complete integer could be read.
#[derive(Debug, Clone, Copy, PartialEq, Eq)]
pub struct UnexpectedEnd;

/// Number of bytes of the shortest encoding of `v`.
pub open spec fn spec_size(v: u64) -> nat {
    if v < 0x40 {
        1
    } else if v < 0x4000 {
        2
    } else if v < 0x4000_0000 {
        4
    } else {
        8
    }
}

/// The shortest encoding of `v` (meaningful for `v <= MAX_VALUE`).
pub open spec fn spec_encode(v: u64) -> Seq<u8> {
    if v < 0x40 {
        seq![v as u8]
    } else if v < 0x4000 {
        seq![(0x40u64 | (v >> 8u64)) as u8, v as u8]
    } else if v < 0x4000_0000 {
        seq![(0x80u64 | (v >> 24u64)) as u8, (v >> 16u64) as u8, (v >> 8u64) as u8, v as u8]
    } else {
        seq![
            (0xc0u64 | (v >> 56u64)) as u8,
            (v >> 48u64) as u8,
            (v >> 40u64) as u8,
            (v >> 32u64) as u8,
            (v >> 24u64) as u8,
            (v >> 16u64) as u8,
            (v >> 8u64) as u8,
            v as u8,
        ]
    }
}

/// Length, in bytes, of the integer whose first byte is `first`:
/// the two most significant bits give its base-2 logarithm.
pub open spec fn spec_tag_len(first: u8) -> nat {
    if first < 0x40 {
        1
    } else if first < 0x80 {
        2
    } else if first < 0xc0 {
        4
    } else {
        8
    }
}

/// Big-endian value of the first `n` bytes of `s`, the first byte without its
/// two length bits.
pub open spec fn spec_value(s: Seq<u8>, n: nat) -> u64 {
    let b0 = (s[0] & 0x3f) as u64;
    if n == 1 {
        b0
    } else if n == 2 {
        (b0 << 8u64) | s[1] as u64
    } else if n == 4 {
        (b0 << 24u64) | ((s[1] as u64) << 16u64) | ((s[2] as u64) << 8u64) | s[3] as u64
    } else {
        (b0 << 56u64) | ((s[1] as u64) << 48u64) | ((s[2] as u64) << 40u64) | ((s[3] as u64)
            << 32u64) | ((s[4] as u64) << 24u64) | ((s[5] as u64) << 16u64) | ((s[6] as u64)
            << 8u64) | s[7] as u64
    }
}

/// Reads one integer from the front of `s`: its value and encoded length, or
/// `None` when `s` ends first.
pub open spec fn spec_decode(s: Seq<u8>) -> Option<(u64, nat)> {
    if s.len() == 0 {
        None
    } else {
        let n = spec_tag_len(s[0]);
        if s.len() < n {
            None
        } else {
            Some((spec_value(s, n), n))
        }
    }
}

/// Size of the encoding of `v`, in bytes.
pub fn size(v: u64) -> (n: usize)
    ensures
        n == spec_size(v),
{
    if v < 0x40 {
        1
    } else if v < 0x4000 {
        2
    } else if v < 0x4000_0000 {
        4
    } else {
        8
    }
}

proof fn lemma_value_bound(s: Seq<u8>, n: nat)
    requires
        s.len() >= n,
        n == 1 || n == 2 || n == 4 || n == 8,
    ensures
        spec_value(s, n) <= MAX_VALUE,
{
    let f = s[0];
    let b0 = (f & 0x3f) as u64;
    assert(b0 <= 0x3f) by (bit_vector)
        requires
            b0 == (f & 0x3f) as u64,
    ;
    if n == 1 {
    } else if n == 2 {
        let b1 = s[1];
        assert((b0 << 8u64) | b1 as u64 <= MAX_VALUE) by (bit_vector)
            requires
                b0 <= 0x3f,
        ;
    } else if n == 4 {
        let (b1, b2, b3) = (s[1], s[2], s[3]);
        assert((b0 << 24u64) | ((b1 as u64) << 16u64) | ((b2 as u64) << 8u64) | b3 as u64
            <= MAX_VALUE) by (bit_vector)
            requires
                b0 <= 0x3f,
        ;
    } else {
        let (b1, b2, b3, b4, b5, b6, b7) = (s[1], s[2], s[3], s[4], s[5], s[6], s[7]);
        assert((b0 << 56u64) | ((b1 as u64) << 48u64) | ((b2 as u64) << 40u64) | ((b3 as u64)
            << 32u64) | ((b4 as u64) << 24u64) | ((b5 as u64) << 16u64) | ((b6 as u64) << 8u64)
            | b7 as u64 <= MAX_VALUE) by (bit_vector)
            requires
                b0 <= 0x3f,
        ;
    }
}

/// Every decoded value fits in 62 bits, and the encoded length is one of
/// 1, 2, 4 or 8 and no more than what was available.
pub proof fn lemma_decode_bounds(s: Seq<u8>)
    ensures
        spec_decode(s) matches Some((v, n)) ==> {
            &&& v <= MAX_VALUE
            &&& (n == 1 || n == 2 || n == 4 || n == 8)
            &&& n <= s.len()
        },
{
    if let Some((v, n)) = spec_decode(s) {
        lemma_value_bound(s, n);
    }
}

/// Decoding what `spec_encode` wrote gives back the value, whatever follows it,
/// and consumes exactly `spec_size(v)` bytes.
pub proof fn lemma_encode_decode(v: u64, rest: Seq<u8>)
    requires
        v <= MAX_VALUE,
    ensures
        spec_encode(v).len() == spec_size(v),
        spec_decode(spec_encode(v) + rest) == Some((v, spec_size(v))),
{
    let e = spec_encode(v);
    let s = e + rest;
    if v < 0x40 {
        assert(s[0] == e[0]);
        assert(v < 0x40 ==> (v as u8) < 0x40 && ((v as u8) & 0x3f) as u64 == v) by (bit_vector);
    } else if v < 0x4000 {
        assert(s[0] == e[0] && s[1] == e[1]);
        let b0 = (0x40u64 | (v >> 8u64)) as u8;
        let b1 = v as u8;
        assert(0x40 <= v < 0x4000 ==> 0x40 <= b0 < 0x80 && ((((b0 & 0x3f) as u64) << 8u64)
            | b1 as u64) == v) by (bit_vector)
            requires
                b0 == (0x40u64 | (v >> 8u64)) as u8,
                b1 == v as u8,
        ;
    } else if v < 0x4000_0000 {
        assert(s[0] == e[0] && s[1] == e[1] && s[2] == e[2] && s[3] == e[3]);
        let b0 = (0x80u64 | (v >> 24u64)) as u8;
        let b1 = (v >> 16u64) as u8;
        let b2 = (v >> 8u64) as u8;
        let b3 = v as u8;
        assert(0x4000 <= v < 0x4000_0000 ==> 0x80 <= b0 < 0xc0 && ((((b0 & 0x3f) as u64)
            << 24u64) | ((b1 as u64) << 16u64) | ((b2 as u64) << 8u64) | b3 as u64) == v)
            by (bit_vector)
            requires
                b0 == (0x80u64 | (v >> 24u64)) as u8,
                b1 == (v >> 16u64) as u8,
                b2 == (v >> 8u64) as u8,
                b3 == v as u8,
        ;
    } else {
        assert(s[0] == e[0] && s[1] == e[1] && s[2] == e[2] && s[3] == e[3] && s[4] == e[4]
            && s[5] == e[5] && s[6] == e[6] && s[7] == e[7]);
        let b0 = (0xc0u64 | (v >> 56u64)) as u8;
        let b1 = (v >> 48u64) as u8;
        let b2 = (v >> 40u64) as u8;
        let b3 = (v >> 32u64) as u8;
        let b4 = (v >> 24u64) as u8;
        let b5 = (v >> 16u64) as u8;
        let b6 = (v >> 8u64) as u8;
        let b7 = v as u8;
        assert(0x4000_0000 <= v <= 0x3fff_ffff_ffff_ffff ==> 0xc0 <= b0 && ((((b0 & 0x3f) as u64)
            << 56u64) | ((b1 as u64) << 48u64) | ((b2 as u64) << 40u64) | ((b3 as u64) << 32u64)
            | ((b4 as u64) << 24u64) | ((b5 as u64) << 16u64) | ((b6 as u64) << 8u64)
            | b7 as u64) == v) by (bit_vector)
            requires
                b0 == (0xc0u64 | (v >> 56u64)) as u8,
                b1 == (v >> 48u64) as u8,
                b2 == (v >> 40u64) as u8,
                b3 == (v >> 32u64) as u8,
                b4 == (v >> 24u64) as u8,
                b5 == (v >> 16u64) as u8,
                b6 == (v >> 8u64) as u8,
                b7 == v as u8,
        ;
    }
}

/// Decoding only looks at the bytes it consumes: appending bytes after a
/// complete integer does not change what is read.
pub proof fn lemma_decode_prefix(s: Seq<u8>, rest: Seq<u8>)
    requires
        spec_decode(s).is_some(),
    ensures
        spec_decode(s + rest) == spec_decode(s),
{
    let n = spec_tag_len(s[0]);
    let t = s + rest;
    assert(t[0] == s[0]);
    assert(forall|i: int| 0 <= i < s.len() ==> t[i] == s[i]);
    assert(spec_value(t, n) == spec_value(s, n));
}

/// Reads one integer from `buf` starting at `pos`; returns its value and the
/// position just after it.
pub fn decode(buf: &[u8], pos: usize) -> (r: Result<(u64, usize), UnexpectedEnd>)
    requires
        pos <= buf@.len(),
    ensures
        match r {
            Ok((v, next)) => spec_decode(buf@.skip(pos as int)) == Some((v, (next - pos) as nat))
                && pos < next <= buf@.len(),
            Err(_) => spec_decode(buf@.skip(pos as int)) is None,
        },
{
    let ghost s = buf@.skip(pos as int);
    if pos >= buf.len() {
        return Err(UnexpectedEnd);
    }
    let first = buf[pos];
    assert(s[0] == first);
    let n: usize = if first < 0x40 {
        1
    } else if first < 0x80 {
        2
    } else if first < 0xc0 {
        4
    } else {
        8
    };
    if buf.len() - pos < n {
        return Err(UnexpectedEnd);
    }
    let b0 = (first & 0x3f) as u64;
    let v: u64 = if n == 1 {
        b0
    } else if n == 2 {
        assert(s[1] == buf@[pos + 1]);
        (b0 << 8u64) | buf[pos + 1] as u64
    } else if n == 4 {
        assert(s[1] == buf@[pos + 1] && s[2] == buf@[pos + 2] && s[3] == buf@[pos + 3]);
        (b0 << 24u64) | ((buf[pos + 1] as u64) << 16u64) | ((buf[pos + 2] as u64) << 8u64)
            | buf[pos + 3] as u64
    } else {
        assert(s[1] == buf@[pos + 1] && s[2] == buf@[pos + 2] && s[3] == buf@[pos + 3] && s[4]
            == buf@[pos + 4] && s[5] == buf@[pos + 5] && s[6] == buf@[pos + 6] && s[7]
            == buf@[pos + 7]);
        (b0 << 56u64) | ((buf[pos + 1] as u64) << 48u64) | ((buf[pos + 2] as u64) << 40u64) | ((
        buf[pos + 3] as u64) << 32u64) | ((buf[pos + 4] as u64) << 24u64) | ((buf[pos + 5] as u64)
            << 16u64) | ((buf[pos + 6] as u64) << 8u64) | buf[pos + 7] as u64
    };
    Ok((v, pos + n))
}

/// Appends the encoding of `v` to `out`.
pub fn encode(v: u64, out: &mut Vec<u8>)
    requires
        v <= MAX_VALUE,
    ensures
        final(out)@ == old(out)@ + spec_encode(v),
{
    if v < 0x40 {
        out.push(v as u8);
    } else if v < 0x4000 {
        out.push((0x40u64 | (v >> 8u64)) as u8);
        out.push(v as u8);
    } else if v < 0x4000_0000 {
        out.push((0x80u64 | (v >> 24u64)) as u8);
        out.push((v >> 16u64) as u8);
        out.push((v >> 8u64) as u8);
        out.push(v as u8);
    } else {
        out.push((0xc0u64 | (v >> 56u64)) as u8);
        out.push((v >> 48u64) as u8);
        out.push((v >> 40u64) as u8);
        out.push((v >> 32u64) as u8);
        out.push((v >> 24u64) as u8);
        out.push((v >> 16u64) as u8);
        out.push((v >> 8u64) as u8);
        out.push(v as u8);
    }
    assert(final(out)@ =~= old(out)@ + spec_encode(v));
}

} // verus!
