//! Incremental reading of a QPACK string literal: the bytes may come in any
//! number of pieces, and the decoder keeps what it has read between them.
//!
//! The length is a prefix integer with an `S`-bit prefix; the bit above it is
//! the Huffman flag `H`. A literal with `H` set is Huffman-decoded as its
//! bytes come in; a decoding error is reported once all of them are read.
use vstd::prelude::*;
use crate::qpack::prefix_int::{self, new_prefix_int_parser, PrefixIntParseError, PrefixIntParser};
use vstd::arithmetic::power2::pow2;
use crate::qpack::huffman::{self, HuffmanDecoder, HuffmanDecodingError, HuffmanState};
use crate::qpack::qpack_result::ParseProgressResult;

verus! {

/// Errors of the string decoder.
#[derive(Debug, PartialEq, Eq, Clone, Copy)]
pub enum StringDecodeError {
    /// The length is not a valid prefix integer.
    PrefixIntParseError(PrefixIntParseError),
    /// The literal could not be Huffman-decoded.
    HuffmanDecodeError(HuffmanDecodingError),
}

enum DecoderState<const S: u8> {
    Integer(PrefixIntParser<S>),
    HuffmanString { len: u64, read: u64, decoder: HuffmanDecoder, flags: u8 },
    PlainString { len: u64, value: Vec<u8>, flags: u8 },
}

/// What a string decoder holds: the length parser; or the declared length,
/// how many bytes were read and the Huffman decoder they went to; or the
/// declared length and the bytes read so far; with the flag bits above `H`.
pub ghost enum StringDecoderView<const S: u8> {
    Integer(PrefixIntParser<S>),
    HuffmanString { len: u64, read: u64, decoder: HuffmanState, flags: u8 },
    PlainString { len: u64, value: Seq<u8>, flags: u8 },
}

/// A string literal decoder that can be fed a piece at a time.
pub struct StatefulPrefixStringDecoder<const S: u8> {
    state: DecoderState<S>,
}

impl<const S: u8> View for StatefulPrefixStringDecoder<S> {
    type V = StringDecoderView<S>;

    closed spec fn view(&self) -> StringDecoderView<S> {
        match self.state {
            DecoderState::Integer(p) => StringDecoderView::Integer(p),
            DecoderState::HuffmanString { len, read, decoder, flags } => StringDecoderView::HuffmanString {
                len,
                read,
                decoder: decoder@,
                flags,
            },
            DecoderState::PlainString { len, value, flags } => StringDecoderView::PlainString {
                len,
                value: value@,
                flags,
            },
        }
    }
}

/// The outcome of a step with the decoder and the string taken by their views.
pub open spec fn spec_result_view<const S: u8>(
    r: ParseProgressResult<StatefulPrefixStringDecoder<S>, StringDecodeError, (u8, Vec<u8>)>,
) -> ParseProgressResult<StringDecoderView<S>, StringDecodeError, (u8, Seq<u8>)> {
    match r {
        ParseProgressResult::MoreData(d) => ParseProgressResult::MoreData(d@),
        ParseProgressResult::Done((flags, v)) => ParseProgressResult::Done((flags, v@)),
        ParseProgressResult::Error(e) => ParseProgressResult::Error(e),
    }
}

impl<const S: u8> StringDecoderView<S> {
    /// The state is consistent: fewer bytes read than declared.
    pub open spec fn wf(self) -> bool {
        match self {
            StringDecoderView::Integer(_) => true,
            StringDecoderView::HuffmanString { len, read, decoder, .. } => read <= len && decoder.wf(),
            StringDecoderView::PlainString { len, value, .. } => value.len() <= len,
        }
    }

    /// Reading Huffman-coded bytes from `s`: as many as are still missing,
    /// or all of `s` when fewer are there; once all are read, the decoded
    /// string or the decoding error. Returns the outcome and the number of
    /// bytes consumed.
    pub open spec fn spec_huffman(len: u64, read: u64, decoder: HuffmanState, flags: u8, s: Seq<u8>) -> (
        ParseProgressResult<Self, StringDecodeError, (u8, Seq<u8>)>,
        nat,
    ) {
        let missing = len - read;
        let k = if s.len() < missing { s.len() } else { missing as nat };
        let d = decoder.run(huffman::spec_bytes_bits(s.take(k as int)));
        if read + k == len {
            match d.finish() {
                Ok(v) => (ParseProgressResult::Done((flags, v)), k),
                Err(e) => (ParseProgressResult::Error(StringDecodeError::HuffmanDecodeError(e)), k),
            }
        } else {
            (
                ParseProgressResult::MoreData(
                    StringDecoderView::HuffmanString { len, read: (read + k) as u64, decoder: d, flags },
                ),
                k,
            )
        }
    }

    /// Reading the string bytes from `s`: as many as are still missing, or
    /// all of `s` when fewer are there. Returns the outcome and the number
    /// of bytes consumed.
    pub open spec fn spec_plain(len: u64, value: Seq<u8>, flags: u8, s: Seq<u8>) -> (
        ParseProgressResult<Self, StringDecodeError, (u8, Seq<u8>)>,
        nat,
    ) {
        let missing = len - value.len();
        let k = if s.len() < missing { s.len() } else { missing as nat };
        let v = value + s.take(k as int);
        if v.len() == len {
            (ParseProgressResult::Done((flags, v)), k)
        } else {
            (ParseProgressResult::MoreData(StringDecoderView::PlainString { len, value: v, flags }), k)
        }
    }

    /// Reading the string bytes from `s` once the length `len` and the flag
    /// bits `flags`, `H` the lowest, are read.
    pub open spec fn spec_body(flags: u8, len: u64, s: Seq<u8>) -> (
        ParseProgressResult<Self, StringDecodeError, (u8, Seq<u8>)>,
        nat,
    ) {
        if flags & 1 == 1 {
            Self::spec_huffman(len, 0, HuffmanState::start(Seq::empty()), flags >> 1u8, s)
        } else {
            Self::spec_plain(len, Seq::empty(), flags >> 1u8, s)
        }
    }

    /// Feeding the bytes `s` to the decoder: the outcome and how many bytes
    /// were consumed.
    pub open spec fn spec_parse(self, s: Seq<u8>) -> (
        ParseProgressResult<Self, StringDecodeError, (u8, Seq<u8>)>,
        nat,
    ) {
        match self {
            StringDecoderView::Integer(p) => match p.spec_parse(s) {
                (ParseProgressResult::MoreData(p2), n) => (
                    ParseProgressResult::MoreData(StringDecoderView::Integer(p2)),
                    n,
                ),
                (ParseProgressResult::Error(e), n) => (
                    ParseProgressResult::Error(StringDecodeError::PrefixIntParseError(e)),
                    n,
                ),
                (ParseProgressResult::Done((flags, len)), n) => {
                    let (r, m) = Self::spec_body(flags, len, s.skip(n as int));
                    (r, n + m)
                },
            },
            StringDecoderView::HuffmanString { len, read, decoder, flags } => Self::spec_huffman(
                len,
                read,
                decoder,
                flags,
                s,
            ),
            StringDecoderView::PlainString { len, value, flags } => Self::spec_plain(len, value, flags, s),
        }
    }
}

/// A decoder that has read nothing.
pub fn new_prefix_string_parser<const S: u8>() -> (d: StatefulPrefixStringDecoder<S>)
    requires
        1 <= S <= 8,
    ensures
        d@ == StringDecoderView::<S>::Integer(PrefixIntParser::<S>::spec_fresh()),
{
    let p = new_prefix_int_parser::<S>();
    proof {
        p.lemma_fresh();
    }
    StatefulPrefixStringDecoder { state: DecoderState::Integer(p) }
}

impl<const S: u8> StatefulPrefixStringDecoder<S> {
    #[verifier::type_invariant]
    closed spec fn inv(self) -> bool {
        self@.wf()
    }

    fn read_plain(len: u64, value: Vec<u8>, flags: u8, buf: &[u8], pos: usize) -> (r: (
        ParseProgressResult<Self, StringDecodeError, (u8, Vec<u8>)>,
        usize,
    ))
        requires
            pos <= buf@.len(),
            value@.len() <= len,
        ensures
            pos <= r.1 <= buf@.len(),
            (spec_result_view(r.0), (r.1 - pos) as nat) == StringDecoderView::<S>::spec_plain(
                len,
                value@,
                flags,
                buf@.skip(pos as int),
            ),
    {
        let mut value = value;
        let to_read: u64 = len - value.len() as u64;
        let available: u64 = (buf.len() - pos) as u64;
        let read: usize = if to_read < available { to_read as usize } else { available as usize };
        let ghost v0 = value@;
        let mut i: usize = 0;
        while i < read
            invariant
                read <= buf@.len() - pos,
                pos <= buf@.len(),
                buf@.len() <= usize::MAX,
                i <= read,
                value@ == v0 + buf@.skip(pos as int).take(i as int),
            decreases read - i,
        {
            value.push(buf[pos + i]);
            i = i + 1;
            assert(value@ =~= v0 + buf@.skip(pos as int).take(i as int));
        }
        if value.len() as u64 == len {
            (ParseProgressResult::Done((flags, value)), pos + read)
        } else {
            (ParseProgressResult::MoreData(StatefulPrefixStringDecoder {
                state: DecoderState::PlainString { len, value, flags },
            }), pos + read)
        }
    }

    fn read_huffman(len: u64, read: u64, decoder: HuffmanDecoder, flags: u8, buf: &[u8], pos: usize) -> (r: (
        ParseProgressResult<Self, StringDecodeError, (u8, Vec<u8>)>,
        usize,
    ))
        requires
            pos <= buf@.len(),
            read <= len,
            decoder@.wf(),
        ensures
            pos <= r.1 <= buf@.len(),
            (spec_result_view(r.0), (r.1 - pos) as nat) == StringDecoderView::<S>::spec_huffman(
                len,
                read,
                decoder@,
                flags,
                buf@.skip(pos as int),
            ),
    {
        let mut decoder = decoder;
        let to_read: u64 = len - read;
        let available: u64 = (buf.len() - pos) as u64;
        let k: usize = if to_read < available { to_read as usize } else { available as usize };
        decoder.feed(buf, pos, pos + k);
        proof {
            assert(buf@.subrange(pos as int, pos + k) =~= buf@.skip(pos as int).take(k as int));
        }
        if read + k as u64 == len {
            match decoder.finish() {
                Ok(v) => (ParseProgressResult::Done((flags, v)), pos + k),
                Err(e) => (ParseProgressResult::Error(StringDecodeError::HuffmanDecodeError(e)), pos + k),
            }
        } else {
            (ParseProgressResult::MoreData(StatefulPrefixStringDecoder {
                state: DecoderState::HuffmanString { len, read: read + k as u64, decoder, flags },
            }), pos + k)
        }
    }

    /// Feeds the bytes of `buf` from `pos` on to the decoder. Returns the
    /// outcome and the position after the last byte read: `Done` with the
    /// flag bits above `H` and the string once it is complete, `MoreData`
    /// with the updated decoder when `buf` ran out first, or an error.
    pub fn parse_progress(self, buf: &[u8], pos: usize) -> (r: (
        ParseProgressResult<Self, StringDecodeError, (u8, Vec<u8>)>,
        usize,
    ))
        requires
            pos <= buf@.len(),
        ensures
            pos <= r.1 <= buf@.len(),
            (spec_result_view(r.0), (r.1 - pos) as nat) == self@.spec_parse(buf@.skip(pos as int)),
    {
        proof {
            use_type_invariant(&self);
        }
        match self.state {
            DecoderState::Integer(p) => {
                match p.parse_progress(buf, pos) {
                    (ParseProgressResult::MoreData(p2), next) => (
                        ParseProgressResult::MoreData(StatefulPrefixStringDecoder {
                            state: DecoderState::Integer(p2),
                        }),
                        next,
                    ),
                    (ParseProgressResult::Error(e), next) => (
                        ParseProgressResult::Error(StringDecodeError::PrefixIntParseError(e)),
                        next,
                    ),
                    (ParseProgressResult::Done((flags, len)), next) => {
                        proof {
                            assert(buf@.skip(next as int) =~= buf@.skip(pos as int).skip(next - pos));
                        }
                        if flags & 1 == 1 {
                            let decoder = HuffmanDecoder::new();
                            Self::read_huffman(len, 0, decoder, flags >> 1u8, buf, next)
                        } else {
                            let value: Vec<u8> = Vec::new();
                            proof {
                                assert(buf@.skip(next as int) =~= buf@.skip(pos as int).skip(next - pos));
                            }
                            Self::read_plain(len, value, flags >> 1u8, buf, next)
                        }
                    },
                }
            },
            DecoderState::HuffmanString { len, read, decoder, flags } => Self::read_huffman(
                len,
                read,
                decoder,
                flags,
                buf,
                pos,
            ),
            DecoderState::PlainString { len, value, flags } => Self::read_plain(len, value, flags, buf, pos),
        }
    }
}

/// Feeding a decoder in two pieces is feeding it at once: one that needed
/// more data after `s1` continues on `s2` exactly as the original would on
/// `s1 + s2`, and an outcome reached within `s1` ignores what follows.
pub proof fn lemma_string_parse_concat<const S: u8>(d: StringDecoderView<S>, s1: Seq<u8>, s2: Seq<u8>)
    requires
        d.wf(),
    ensures
        match d.spec_parse(s1) {
            (ParseProgressResult::MoreData(next), n) => {
                &&& n == s1.len()
                &&& next.wf()
                &&& d.spec_parse(s1 + s2) == ({
                    let (r, m) = next.spec_parse(s2);
                    (r, m + s1.len())
                })
            },
            (r, n) => n <= s1.len() && d.spec_parse(s1 + s2) == (r, n),
        },
{
    match d {
        StringDecoderView::Integer(p) => {
            p.lemma_parse_concat(s1, s2);
            lemma_int_parse_len(p, s1);
            match p.spec_parse(s1) {
                (ParseProgressResult::MoreData(p2), n) => {
                    match p2.spec_parse(s2) {
                        (ParseProgressResult::Done((flags, len)), m) => {
                            lemma_int_parse_len(p2, s2);
                            assert((s1 + s2).skip((m + s1.len()) as int) =~= s2.skip(m as int));
                        },
                        _ => {},
                    }
                },
                (ParseProgressResult::Done((flags, len)), n) => {
                    assert((s1 + s2).skip(n as int) =~= s1.skip(n as int) + s2);
                    lemma_body_concat::<S>(flags, len, s1.skip(n as int), s2);
                },
                _ => {},
            }
        },
        StringDecoderView::HuffmanString { len, read, decoder, flags } => {
            lemma_huffman_concat::<S>(len, read, decoder, flags, s1, s2);
        },
        StringDecoderView::PlainString { len, value, flags } => {
            lemma_plain_concat::<S>(len, value, flags, s1, s2);
        },
    }
}

proof fn lemma_int_parse_len<const F: u8>(p: PrefixIntParser<F>, s: Seq<u8>)
    ensures
        p.spec_parse(s).1 <= s.len(),
    decreases s.len(),
{
    if s.len() > 0 {
        match p.spec_step(s[0]) {
            ParseProgressResult::MoreData(next) => lemma_int_parse_len(next, s.drop_first()),
            _ => {},
        }
    }
}

proof fn lemma_body_concat<const S: u8>(flags: u8, len: u64, s1: Seq<u8>, s2: Seq<u8>)
    ensures
        match StringDecoderView::<S>::spec_body(flags, len, s1) {
            (ParseProgressResult::MoreData(next), n) => {
                &&& n == s1.len()
                &&& next.wf()
                &&& StringDecoderView::<S>::spec_body(flags, len, s1 + s2) == ({
                    let (r, m) = next.spec_parse(s2);
                    (r, m + s1.len())
                })
            },
            (r, n) => n <= s1.len() && StringDecoderView::<S>::spec_body(flags, len, s1 + s2) == (r, n),
        },
{
    if flags & 1 == 1 {
        huffman::lemma_start_wf();
        lemma_huffman_concat::<S>(len, 0, HuffmanState::start(Seq::empty()), flags >> 1u8, s1, s2);
    } else {
        lemma_plain_concat::<S>(len, Seq::empty(), flags >> 1u8, s1, s2);
    }
}

proof fn lemma_huffman_concat<const S: u8>(
    len: u64,
    read: u64,
    decoder: HuffmanState,
    flags: u8,
    s1: Seq<u8>,
    s2: Seq<u8>,
)
    requires
        read <= len,
        decoder.wf(),
    ensures
        match StringDecoderView::<S>::spec_huffman(len, read, decoder, flags, s1) {
            (ParseProgressResult::MoreData(next), n) => {
                &&& n == s1.len()
                &&& next.wf()
                &&& StringDecoderView::<S>::spec_huffman(len, read, decoder, flags, s1 + s2) == ({
                    let (r, m) = next.spec_parse(s2);
                    (r, m + s1.len())
                })
            },
            (r, n) => n <= s1.len() && StringDecoderView::<S>::spec_huffman(len, read, decoder, flags, s1 + s2)
                == (r, n),
        },
{
    let missing = len - read;
    if s1.len() < missing {
        let d1 = decoder.run(huffman::spec_bytes_bits(s1.take(s1.len() as int)));
        assert(s1.take(s1.len() as int) =~= s1);
        huffman::lemma_run_wf(decoder, huffman::spec_bytes_bits(s1));
        let k = if s2.len() < missing - s1.len() { s2.len() } else { (missing - s1.len()) as nat };
        assert((s1 + s2).take((s1.len() + k) as int) =~= s1 + s2.take(k as int));
        huffman::lemma_bytes_bits_concat(s1, s2.take(k as int));
        huffman::lemma_run_concat(decoder, huffman::spec_bytes_bits(s1), huffman::spec_bytes_bits(s2.take(k as int)));
    } else {
        assert((s1 + s2).take(missing) =~= s1.take(missing));
    }
}

proof fn lemma_plain_concat<const S: u8>(len: u64, value: Seq<u8>, flags: u8, s1: Seq<u8>, s2: Seq<u8>)
    requires
        value.len() <= len,
    ensures
        match StringDecoderView::<S>::spec_plain(len, value, flags, s1) {
            (ParseProgressResult::MoreData(next), n) => {
                &&& n == s1.len()
                &&& next.wf()
                &&& StringDecoderView::<S>::spec_plain(len, value, flags, s1 + s2) == ({
                    let (r, m) = next.spec_parse(s2);
                    (r, m + s1.len())
                })
            },
            (r, n) => n <= s1.len() && StringDecoderView::<S>::spec_plain(len, value, flags, s1 + s2) == (r, n),
        },
{
    let missing = len - value.len();
    if s1.len() < missing {
        let v1 = value + s1;
        assert(s1.take(s1.len() as int) =~= s1);
        let k = if s2.len() < missing - s1.len() { s2.len() } else { (missing - s1.len()) as nat };
        assert(value + (s1 + s2).take((s1.len() + k) as int) =~= v1 + s2.take(k as int));
    } else {
        assert((s1 + s2).take(missing) =~= s1.take(missing));
    }
}

/// A literal reads back as written: a fresh decoder fed the literal
/// `value` with the flag bits `flags` above `H = 0`, and anything after it,
/// gives `flags` and `value` and consumes exactly the literal.
pub proof fn lemma_string_roundtrip<const S: u8>(flags: u8, value: Seq<u8>, rest: Seq<u8>)
    requires
        1 <= S <= 7,
        flags < 128,
        ((flags << 1u8) as u8) < pow2((8 - S) as nat),
        value.len() < pow2(63),
    ensures
        ({
            let enc = prefix_int::spec_encode(S as nat, (flags << 1u8) as u8, value.len() as u64) + value;
            StringDecoderView::<S>::Integer(PrefixIntParser::<S>::spec_fresh()).spec_parse(enc + rest) == (
                ParseProgressResult::<StringDecoderView<S>, StringDecodeError, (u8, Seq<u8>)>::Done((flags, value)),
                enc.len(),
            )
        }),
{
    let f2 = (flags << 1u8) as u8;
    let len = value.len() as u64;
    let a = prefix_int::spec_encode(S as nat, f2, len);
    let p = PrefixIntParser::<S>::spec_fresh();
    vstd::arithmetic::power2::lemma2_to64();
    vstd::arithmetic::power2::lemma2_to64_rest();
    assert(pow2(63) <= prefix_int::spec_mask(S as nat) + pow2(63));
    p.lemma_fresh();
    assert((a + value) + rest =~= a + (value + rest));
    p.lemma_encode_roundtrip(f2, len, value + rest);
    assert(f2 & 1 == 0 && f2 >> 1u8 == flags) by (bit_vector)
        requires
            f2 == (flags << 1u8) as u8,
            flags < 128,
    ;
    assert((a + (value + rest)).skip(a.len() as int) =~= value + rest);
    assert((value + rest).take(len as int) =~= value);
}

#[verifier::spinoff_prover]
/// The Huffman-coded bytes `h` of `value`, and anything after them, read as
/// a literal's string decode to `value` and consume exactly `h`.
proof fn lemma_huffman_body<const S: u8>(flags: u8, value: Seq<u8>, rest: Seq<u8>)
    requires
        huffman::spec_huffman_encode(value).len() < pow2(64),
    ensures
        ({
            let h = huffman::spec_huffman_encode(value);
            StringDecoderView::<S>::spec_huffman(h.len() as u64, 0, HuffmanState::start(Seq::empty()), flags, h + rest)
                == (
                ParseProgressResult::<StringDecoderView<S>, StringDecodeError, (u8, Seq<u8>)>::Done((flags, value)),
                h.len(),
            )
        }),
{
    let h = huffman::spec_huffman_encode(value);
    vstd::arithmetic::power2::lemma2_to64();
    assert((h + rest).take(h.len() as int) =~= h);
    huffman::lemma_huffman_encode_bits(value);
    huffman::lemma_decode_encode(value, h);
}

/// A Huffman-coded literal reads back as written: a fresh decoder fed the
/// literal `value`, Huffman-coded, with the flag bits `flags` above `H = 1`,
/// and anything after it, gives `flags` and `value` and consumes exactly the
/// literal.
pub proof fn lemma_string_huffman_roundtrip<const S: u8>(flags: u8, value: Seq<u8>, rest: Seq<u8>)
    requires
        1 <= S <= 7,
        flags < 128,
        (((flags << 1u8) | 1u8) as u8) < pow2((8 - S) as nat),
        value.len() < pow2(60),
    ensures
        ({
            let h = huffman::spec_huffman_encode(value);
            let enc = prefix_int::spec_encode(S as nat, ((flags << 1u8) | 1u8) as u8, h.len() as u64) + h;
            StringDecoderView::<S>::Integer(PrefixIntParser::<S>::spec_fresh()).spec_parse(enc + rest) == (
                ParseProgressResult::<StringDecoderView<S>, StringDecodeError, (u8, Seq<u8>)>::Done((flags, value)),
                enc.len(),
            )
        }),
{
    let f2 = ((flags << 1u8) | 1u8) as u8;
    let h = huffman::spec_huffman_encode(value);
    let len = h.len() as u64;
    let a = prefix_int::spec_encode(S as nat, f2, len);
    let p = PrefixIntParser::<S>::spec_fresh();
    vstd::arithmetic::power2::lemma2_to64();
    vstd::arithmetic::power2::lemma2_to64_rest();
    huffman::lemma_encode_len(value);
    assert(pow2(63) <= prefix_int::spec_mask(S as nat) + pow2(63));
    p.lemma_fresh();
    assert((a + h) + rest =~= a + (h + rest));
    p.lemma_encode_roundtrip(f2, len, h + rest);
    assert(f2 & 1 == 1 && f2 >> 1u8 == flags) by (bit_vector)
        requires
            f2 == ((flags << 1u8) | 1u8) as u8,
            flags < 128,
    ;
    assert((a + (h + rest)).skip(a.len() as int) =~= h + rest);
    lemma_huffman_body::<S>(flags, value, rest);
}

} // verus!
