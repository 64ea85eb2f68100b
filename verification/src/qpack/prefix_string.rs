//! QPACK string literals (RFC 9204 section 4.1.2): a prefix integer holding
//! the length, with the Huffman flag `H` just above the prefix, then the
//! bytes of the string, Huffman-coded when `H` is set.
//!
//! Literals are written Huffman-coded; both forms are read.
use vstd::prelude::*;
use vstd::arithmetic::power2::pow2;
use crate::qpack::prefix_int;
use crate::qpack::huffman;
pub use crate::qpack::huffman::HuffmanDecodingError;

verus! {

/// Errors of reading a string literal.
#[derive(Debug, PartialEq, Eq, Clone, Copy)]
pub enum Error {
    /// The buffer ends inside the literal.
    UnexpectedEnd,
    /// The length is not a valid prefix integer.
    Integer(prefix_int::Error),
    /// The literal could not be Huffman-decoded.
    HuffmanDecoding(HuffmanDecodingError),
}

/// Reading a literal whose length has a `size - 1`-bit prefix from the front
/// of `s`: the string and the encoded length.
pub open spec fn spec_decode(size: u8, s: Seq<u8>) -> Result<(Seq<u8>, nat), Error> {
    match prefix_int::spec_decode((size - 1) as u8, s) {
        Err(prefix_int::Error::UnexpectedEnd) => Err(Error::UnexpectedEnd),
        Err(e) => Err(Error::Integer(e)),
        Ok((flags, len, n)) => if s.len() - n < len {
            Err(Error::UnexpectedEnd)
        } else if flags & 1 == 0 {
            Ok((s.subrange(n as int, n + len), n + len as nat))
        } else {
            match huffman::spec_huffman_decode(s.subrange(n as int, n + len)) {
                Ok(v) => Ok((v, n + len as nat)),
                Err(e) => Err(Error::HuffmanDecoding(e)),
            }
        },
    }
}

/// The encoding of the literal `value` under the flag bits `flags`: `H` set
/// and the Huffman-coded string.
pub open spec fn spec_encode(size: u8, flags: u8, value: Seq<u8>) -> Seq<u8> {
    let h = huffman::spec_huffman_encode(value);
    prefix_int::spec_encode((size - 1) as nat, ((flags << 1u8) | 1u8) as u8, h.len() as u64) + h
}

/// Reads a string literal from `buf` at `pos`; returns it and the position
/// after it.
pub fn decode(size: u8, buf: &[u8], pos: usize) -> (r: Result<(Vec<u8>, usize), Error>)
    requires
        2 <= size <= 9,
        pos <= buf@.len(),
    ensures
        match spec_decode(size, buf@.skip(pos as int)) {
            Ok((v, n)) => r matches Ok((w, next)) && w@ == v && next == pos + n,
            Err(e) => r == Err::<(Vec<u8>, usize), Error>(e),
        },
{
    let ghost s = buf@.skip(pos as int);
    let (flags, len, p) = match prefix_int::decode(size - 1, buf, pos) {
        Ok(x) => x,
        Err(prefix_int::Error::UnexpectedEnd) => return Err(Error::UnexpectedEnd),
        Err(e) => return Err(Error::Integer(e)),
    };
    if ((buf.len() - p) as u64) < len {
        return Err(Error::UnexpectedEnd);
    }
    let end = p + len as usize;
    let payload = vstd::slice::slice_subrange(buf, p, end);
    assert(payload@ =~= s.subrange((p - pos) as int, (p - pos) + len));
    if flags & 1 == 0 {
        Ok((vstd::slice::slice_to_vec(payload), end))
    } else {
        match huffman::decode(payload) {
            Ok(v) => Ok((v, end)),
            Err(e) => Err(Error::HuffmanDecoding(e)),
        }
    }
}

/// Appends the literal `value`, Huffman-coded, with the flag bits `flags`
/// above the `H` bit and a `size - 1`-bit length prefix.
pub fn encode(size: u8, flags: u8, value: &[u8], buf: &mut Vec<u8>)
    requires
        2 <= size <= 9,
    ensures
        final(buf)@ == old(buf)@ + spec_encode(size, flags, value@),
{
    let encoded = huffman::encode(value);
    prefix_int::encode(size - 1, (flags << 1u8) | 1u8, encoded.len() as u64, buf);
    buf.extend_from_slice(encoded.as_slice());
    assert(buf@ =~= old(buf)@ + spec_encode(size, flags, value@));
}

/// Literals read back as written: decoding the encoding of `value`, followed
/// by anything, gives `value` and the encoding's length, when the flag bits
/// fit above the `H` bit.
pub proof fn lemma_decode_encode(size: u8, flags: u8, value: Seq<u8>, rest: Seq<u8>)
    requires
        2 <= size <= 8,
        flags < pow2((8 - size) as nat),
        value.len() < pow2(60),
    ensures
        spec_decode(size, spec_encode(size, flags, value) + rest) == Ok::<(Seq<u8>, nat), Error>(
            (value, spec_encode(size, flags, value).len()),
        ),
{
    let f2 = ((flags << 1u8) | 1u8) as u8;
    let h = huffman::spec_huffman_encode(value);
    vstd::arithmetic::power2::lemma2_to64();
    vstd::arithmetic::power2::lemma2_to64_rest();
    if 2 < size {
        vstd::arithmetic::power2::lemma_pow2_strictly_increases((8 - size) as nat, 6);
    }
    huffman::lemma_encode_len(value);
    assert(flags < 128);
    assert(f2 == flags * 2 + 1 && f2 & 1 == 1) by (bit_vector)
        requires
            f2 == ((flags << 1u8) | 1u8) as u8,
            flags < 128,
    ;
    vstd::arithmetic::power2::lemma_pow2_adds((8 - size) as nat, 1);
    assert((8 - size) as nat + 1 == (8 - (size - 1)) as nat);
    assert(pow2((8 - size) as nat) * pow2(1) == pow2((8 - (size - 1)) as nat));
    assert(f2 < pow2((8 - (size - 1)) as nat));
    let ie = prefix_int::spec_encode((size - 1) as nat, f2, h.len() as u64);
    assert(spec_encode(size, flags, value) + rest =~= ie + (h + rest));
    prefix_int::lemma_decode_encode((size - 1) as u8, f2, h.len() as u64, h + rest);
    let s = spec_encode(size, flags, value) + rest;
    assert(s.subrange(ie.len() as int, (ie.len() + h.len()) as int) =~= h);
    huffman::lemma_huffman_encode_bits(value);
    huffman::lemma_decode_encode(value, h);
}

} // verus!
