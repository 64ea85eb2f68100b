//! QPACK prefix integers (RFC 7541 section 5.1, RFC 9204 section 4.1.1).
//!
//! The first byte carries `8 - F` flag bits above an `F`-bit prefix. A value
//! smaller than the all-ones prefix is stored there; otherwise the prefix is
//! all ones and the remainder follows in 7-bit groups, least significant
//! first, each byte but the last with its high bit set.
use vstd::prelude::*;
use vstd::arithmetic::power2::{pow2, lemma_pow2_adds, lemma_pow2_pos, lemma_pow2_strictly_increases, lemma2_to64, lemma2_to64_rest};
use vstd::arithmetic::div_mod::{lemma_fundamental_div_mod, lemma_fundamental_div_mod_converse};
use vstd::arithmetic::mul::{lemma_mul_inequality, lemma_mul_is_distributive_add_other_way, lemma_mul_is_associative};
use crate::qpack::qpack_result::ParseProgressResult;

verus! {

/// Errors of the prefix-integer parser.
#[derive(Debug, PartialEq, Eq, Clone, Copy)]
pub enum PrefixIntParseError {
    /// The continuation bytes run past 63 bits.
    Overflow,
}

/// Continuation bytes stop contributing once the shift reaches this many bits.
pub const MAX_POWER: u8 = 63;

/// The all-ones prefix of `f` bits: `2^f - 1`.
pub open spec fn spec_mask(f: nat) -> nat {
    (pow2(f) - 1) as nat
}

/// Bytes that continue a prefix integer after its first byte: `r` in 7-bit
/// groups, least significant first, all but the last with the high bit set.
pub open spec fn spec_encode_tail(r: nat) -> Seq<u8>
    decreases r,
{
    if r < 128 {
        seq![r as u8]
    } else {
        seq![(r % 128 + 128) as u8] + spec_encode_tail(r / 128)
    }
}

/// The encoding of `value` with an `f`-bit prefix under the flag bits `flags`
/// (flags are shifted above the prefix and truncated to the byte).
pub open spec fn spec_encode(f: nat, flags: u8, value: u64) -> Seq<u8> {
    let hi = (flags as nat * pow2(f)) % 256;
    let m = spec_mask(f);
    if (value as nat) < m {
        seq![(hi + value) as u8]
    } else {
        seq![(hi + m) as u8] + spec_encode_tail((value - m) as nat)
    }
}

/// PrefixIntParser is a parser for prefix integers.
/// It is used to decode and encode prefix integers in the QPACK format.
#[derive(Debug)]
pub struct PrefixIntParser<const F: u8> {
    value: u64,
    position: u8,
    flags: Option<u8>,
}

/// Creates a new PrefixIntParser with the given size.
/// The size is the number of bits used to encode the prefix integer.
/// The size must be between 1 and 8.
pub fn new_prefix_int_parser<const F2: u8>() -> (p: PrefixIntParser<F2>)
    requires
        1 <= F2 <= 8,
    ensures
        p.is_fresh(),
{
    PrefixIntParser { value: 0, position: 0, flags: None }
}

proof fn lemma_pow2_values()
    ensures
        pow2(0) == 1,
        pow2(1) == 2,
        pow2(2) == 4,
        pow2(3) == 8,
        pow2(4) == 16,
        pow2(5) == 32,
        pow2(6) == 64,
        pow2(7) == 128,
        pow2(8) == 256,
        pow2(56) == 0x100_0000_0000_0000,
        pow2(63) == 0x8000_0000_0000_0000,
{
    lemma2_to64();
    lemma2_to64_rest();
}

/// How the first byte splits into flag bits and prefix value.
proof fn lemma_first_byte(first: u8, f: u8)
    requires
        1 <= f <= 8,
    ensures
        (if f == 8 { 0 } else { first >> f }) as nat == first as nat / pow2(f as nat),
        (first & (0xFFu8 >> (8 - f) as u8)) as nat == first as nat % pow2(f as nat),
        (0xFFu8 >> (8 - f) as u8) as nat == spec_mask(f as nat),
{
    lemma_pow2_values();
    if f == 1 {
        assert(first >> 1 == first / 2 && first & 1 == first % 2 && 0xFFu8 >> 7u8 == 1) by (bit_vector);
    } else if f == 2 {
        assert(first >> 2 == first / 4 && first & 3 == first % 4 && 0xFFu8 >> 6u8 == 3) by (bit_vector);
    } else if f == 3 {
        assert(first >> 3 == first / 8 && first & 7 == first % 8 && 0xFFu8 >> 5u8 == 7) by (bit_vector);
    } else if f == 4 {
        assert(first >> 4 == first / 16 && first & 15 == first % 16 && 0xFFu8 >> 4u8 == 15) by (bit_vector);
    } else if f == 5 {
        assert(first >> 5 == first / 32 && first & 31 == first % 32 && 0xFFu8 >> 3u8 == 31) by (bit_vector);
    } else if f == 6 {
        assert(first >> 6 == first / 64 && first & 63 == first % 64 && 0xFFu8 >> 2u8 == 63) by (bit_vector);
    } else if f == 7 {
        assert(first >> 7 == first / 128 && first & 127 == first % 128 && 0xFFu8 >> 1u8 == 127) by (bit_vector);
    } else {
        assert(first & 255 == first && 0xFFu8 >> 0u8 == 255) by (bit_vector);
        assert(first as nat % 256 == first as nat);
    }
}

impl<const F: u8> PrefixIntParser<F> {
    /// The parser has not read anything yet.
    pub closed spec fn is_fresh(self) -> bool {
        self.flags is None && self.value == 0 && self.position == 0
    }

    #[verifier::type_invariant]
    closed spec fn wf(self) -> bool {
        &&& 1 <= F <= 8
        &&& match self.flags {
            None => self.value == 0 && self.position == 0,
            Some(_) => {
                &&& self.position % 7 == 0
                &&& self.position <= 56
                &&& spec_mask(F as nat) <= self.value
                &&& self.value < spec_mask(F as nat) + pow2(self.position as nat)
            },
        }
    }

    /// The effect of one byte on the parser.
    pub closed spec fn spec_step(self, b: u8) -> ParseProgressResult<Self, PrefixIntParseError, (u8, u64)> {
        match self.flags {
            None => {
                let low = b as nat % pow2(F as nat);
                let flags = (b as nat / pow2(F as nat)) as u8;
                if low < spec_mask(F as nat) {
                    ParseProgressResult::Done((flags, low as u64))
                } else {
                    ParseProgressResult::MoreData(
                        PrefixIntParser { value: spec_mask(F as nat) as u64, position: 0, flags: Some(flags) },
                    )
                }
            },
            Some(flags) => {
                let value = self.value + (b as nat % 128) * pow2(self.position as nat);
                let position = self.position + 7;
                if b < 128 {
                    ParseProgressResult::Done((flags, value as u64))
                } else if position >= MAX_POWER {
                    ParseProgressResult::Error(PrefixIntParseError::Overflow)
                } else {
                    ParseProgressResult::MoreData(
                        PrefixIntParser { value: value as u64, position: position as u8, flags: Some(flags) },
                    )
                }
            },
        }
    }

    /// Feeding the bytes `s` one at a time: the outcome, and how many bytes were
    /// consumed (all of them when more data is needed).
    pub open spec fn spec_parse(self, s: Seq<u8>) -> (ParseProgressResult<Self, PrefixIntParseError, (u8, u64)>, nat)
        decreases s.len(),
    {
        if s.len() == 0 {
            (ParseProgressResult::MoreData(self), 0)
        } else {
            match self.spec_step(s[0]) {
                ParseProgressResult::MoreData(next) => {
                    let (r, n) = next.spec_parse(s.drop_first());
                    (r, n + 1)
                },
                r => (r, 1),
            }
        }
    }

    fn mask() -> (m: u8)
        requires
            1 <= F <= 8,
        ensures
            m as nat == spec_mask(F as nat),
    {
        proof {
            lemma_first_byte(0, F);
        }
        0xFFu8 >> (8 - F)
    }

    fn step(self, b: u8) -> (r: ParseProgressResult<Self, PrefixIntParseError, (u8, u64)>)
        ensures
            r == self.spec_step(b),
    {
        proof {
            use_type_invariant(&self);
            lemma_pow2_values();
        }
        let mut this = self;
        match this.flags {
            None => {
                proof {
                    lemma_first_byte(b, F);
                }
                let flags = if F == 8 { 0 } else { b >> F };
                let value = b & Self::mask();
                if value < Self::mask() {
                    ParseProgressResult::Done((flags, value as u64))
                } else {
                    let m = Self::mask();
                    proof {
                        assert(pow2(0) == 1);
                    }
                    ParseProgressResult::MoreData(
                        PrefixIntParser { value: m as u64, position: 0, flags: Some(flags) },
                    )
                }
            },
            Some(flags) => {
                let p = this.position;
                let low = (b & 127) as u64;
                proof {
                    assert(b & 127 == b % 128) by (bit_vector);
                    assert(p <= 56);
                    if p < 56 {
                        lemma_pow2_strictly_increases(p as nat, 56);
                    }
                    assert(low * pow2(p as nat) <= 127 * pow2(p as nat)) by {
                        lemma_mul_inequality(low as int, 127, pow2(p as nat) as int);
                    }
                    assert(127 * pow2(p as nat) <= 127 * pow2(56)) by {
                        lemma_mul_inequality(pow2(p as nat) as int, pow2(56) as int, 127);
                    }
                    vstd::bits::lemma_u64_shl_is_mul(low, p as u64);
                    lemma_pow2_adds(p as nat, 7);
                    lemma_pow2_pos(p as nat);
                    assert(this.value + low * pow2(p as nat) < spec_mask(F as nat) + pow2(p as nat) * 128);
                    assert(pow2((p + 7) as nat) == pow2(p as nat) * 128);
                    if p + 7 < 63 {
                        lemma_pow2_strictly_increases((p + 7) as nat, 63);
                    }
                    assert(pow2((p + 7) as nat) <= pow2(63));
                }
                let value = this.value + (low << (p as u64));
                let position = p + 7;
                if b & 128 == 0 {
                    proof {
                        assert(b & 128 == 0 <==> b < 128) by (bit_vector);
                    }
                    ParseProgressResult::Done((flags, value))
                } else if position >= MAX_POWER {
                    proof {
                        assert(b & 128 != 0 <==> b >= 128) by (bit_vector);
                    }
                    ParseProgressResult::Error(PrefixIntParseError::Overflow)
                } else {
                    proof {
                        assert(b & 128 != 0 <==> b >= 128) by (bit_vector);
                    }
                    ParseProgressResult::MoreData(
                        PrefixIntParser { value, position, flags: Some(flags) },
                    )
                }
            },
        }
    }

    /// Parses bytes of `buf` from `pos` on to make progress on the prefix
    /// integer. Returns the outcome and the position after the last byte read:
    /// `Done((flags, value))` once the integer is complete, `MoreData` with the
    /// updated parser when `buf` ran out first, or `Error(Overflow)`.
    pub fn parse_progress(self, buf: &[u8], pos: usize) -> (r: (
        ParseProgressResult<Self, PrefixIntParseError, (u8, u64)>,
        usize,
    ))
        requires
            pos <= buf@.len(),
        ensures
            pos <= r.1 <= buf@.len(),
            (r.0, (r.1 - pos) as nat) == self.spec_parse(buf@.skip(pos as int)),
    {
        let mut st = self;
        let mut i = pos;
        loop
            invariant
                pos <= i <= buf@.len(),
                self.spec_parse(buf@.skip(pos as int)) == ({
                    let (r, n) = st.spec_parse(buf@.skip(i as int));
                    (r, n + (i - pos) as nat)
                }),
            decreases buf@.len() - i,
        {
            if i >= buf.len() {
                return (ParseProgressResult::MoreData(st), i);
            }
            let b = buf[i];
            proof {
                assert(buf@.skip(i as int)[0] == b);
                assert(buf@.skip(i as int).drop_first() =~= buf@.skip(i + 1));
            }
            match st.step(b) {
                ParseProgressResult::MoreData(next) => {
                    st = next;
                    i = i + 1;
                },
                ParseProgressResult::Done(v) => {
                    return (ParseProgressResult::Done(v), i + 1);
                },
                ParseProgressResult::Error(e) => {
                    return (ParseProgressResult::Error(e), i + 1);
                },
            }
        }
    }

    /// Feeding bytes in two pieces is feeding them at once: a parser that needed
    /// more data after `s1` continues on `s2` exactly as the original would on
    /// `s1 + s2`, and an outcome reached within `s1` ignores what follows.
    pub proof fn lemma_parse_concat(self, s1: Seq<u8>, s2: Seq<u8>)
        ensures
            match self.spec_parse(s1) {
                (ParseProgressResult::MoreData(next), n) => {
                    &&& n == s1.len()
                    &&& self.spec_parse(s1 + s2) == ({
                        let (r, m) = next.spec_parse(s2);
                        (r, m + s1.len())
                    })
                },
                (r, n) => self.spec_parse(s1 + s2) == (r, n),
            },
        decreases s1.len(),
    {
        if s1.len() == 0 {
            assert(s1 + s2 =~= s2);
        } else {
            assert((s1 + s2)[0] == s1[0]);
            assert((s1 + s2).drop_first() =~= s1.drop_first() + s2);
            match self.spec_step(s1[0]) {
                ParseProgressResult::MoreData(next) => {
                    next.lemma_parse_concat(s1.drop_first(), s2);
                },
                _ => {},
            }
        }
    }
}


/// The flag bits shifted above an `f`-bit prefix, truncated to the byte.
fn flag_bits(size: u8, flags: u8) -> (hi: u8)
    requires
        1 <= size <= 8,
    ensures
        hi as nat == (flags as nat * pow2(size as nat)) % 256,
        hi as nat % pow2(size as nat) == 0,
{
    proof {
        lemma_pow2_values();
    }
    if size == 8 {
        assert((flags as nat * 256) % 256 == 0) by (nonlinear_arith);
        0
    } else {
        let hi = flags << size;
        proof {
            if size == 1 {
                assert(hi as nat == (flags as nat * 2) % 256 && hi % 2 == 0) by (bit_vector)
                    requires hi == flags << 1u8;
            } else if size == 2 {
                assert(hi as nat == (flags as nat * 4) % 256 && hi % 4 == 0) by (bit_vector)
                    requires hi == flags << 2u8;
            } else if size == 3 {
                assert(hi as nat == (flags as nat * 8) % 256 && hi % 8 == 0) by (bit_vector)
                    requires hi == flags << 3u8;
            } else if size == 4 {
                assert(hi as nat == (flags as nat * 16) % 256 && hi % 16 == 0) by (bit_vector)
                    requires hi == flags << 4u8;
            } else if size == 5 {
                assert(hi as nat == (flags as nat * 32) % 256 && hi % 32 == 0) by (bit_vector)
                    requires hi == flags << 5u8;
            } else if size == 6 {
                assert(hi as nat == (flags as nat * 64) % 256 && hi % 64 == 0) by (bit_vector)
                    requires hi == flags << 6u8;
            } else {
                assert(hi as nat == (flags as nat * 128) % 256 && hi % 128 == 0) by (bit_vector)
                    requires hi == flags << 7u8;
            }
        }
        hi
    }
}

proof fn lemma_mask_bound(size: nat)
    requires
        1 <= size <= 8,
    ensures
        spec_mask(size) < 256,
        spec_mask(size) + 1 == pow2(size),
        pow2(size) * pow2((8 - size) as nat) == 256,
{
    lemma_pow2_values();
    lemma_pow2_adds(size, (8 - size) as nat);
    if size < 8 {
        lemma_pow2_strictly_increases(size, 8);
    }
}

/// Appends `value` as a prefix integer with a `size`-bit prefix and the flag
/// bits `flags` above it.
pub fn encode(size: u8, flags: u8, value: u64, buf: &mut Vec<u8>)
    requires
        1 <= size <= 8,
    ensures
        final(buf)@ == old(buf)@ + spec_encode(size as nat, flags, value),
{
    proof {
        lemma_first_byte(0, size);
        lemma_mask_bound(size as nat);
    }
    let mask: u8 = 0xFFu8 >> (8 - size);
    let hi = flag_bits(size, flags);
    let ghost target = old(buf)@ + spec_encode(size as nat, flags, value);
    proof {
        // hi is a multiple of 2^size below 256, so there is room for the prefix.
        let q = hi as nat / pow2(size as nat);
        lemma_fundamental_div_mod(hi as int, pow2(size as nat) as int);
        assert(hi as nat == pow2(size as nat) * q);
        let pp = pow2(size as nat);
        let p2 = pow2((8 - size) as nat);
        assert(q < p2) by (nonlinear_arith)
            requires
                hi as nat == pp * q,
                hi < 256,
                pp * p2 == 256,
                pp > 0,
        ;
        assert(pp * q + pp <= pp * p2) by (nonlinear_arith)
            requires
                q + 1 <= p2,
                pp > 0,
        ;
        assert(hi as nat + mask as nat <= 255);
    }
    if value < mask as u64 {
        buf.push(hi + value as u8);
        assert(buf@ =~= target);
        return;
    }
    buf.push(hi + mask);
    let mut remaining = value - mask as u64;
    assert(buf@ + spec_encode_tail(remaining as nat) =~= target);
    while remaining >= 128
        invariant
            buf@ + spec_encode_tail(remaining as nat) == target,
        decreases remaining,
    {
        let byte = (remaining % 128) as u8 + 128;
        buf.push(byte);
        remaining = remaining / 128;
        assert(buf@ + spec_encode_tail(remaining as nat) =~= target);
    }
    buf.push(remaining as u8);
    assert(buf@ =~= target);
}

impl<const F: u8> PrefixIntParser<F> {
    proof fn lemma_tail(self, r: nat, rest: Seq<u8>)
        requires
            self.flags is Some,
            self.position % 7 == 0,
            self.position <= 56,
            self.value + r * pow2(self.position as nat) <= u64::MAX,
            r < pow2((63 - self.position) as nat),
        ensures
            self.spec_parse(spec_encode_tail(r) + rest) == (
                ParseProgressResult::<Self, PrefixIntParseError, (u8, u64)>::Done(
                    (self.flags->0, (self.value + r * pow2(self.position as nat)) as u64),
                ),
                spec_encode_tail(r).len(),
            ),
        decreases r,
    {
        let s = spec_encode_tail(r) + rest;
        let p = self.position as nat;
        lemma_pow2_values();
        lemma_pow2_pos(p);
        if r < 128 {
            assert(s[0] == r as u8);
        } else {
            let b = (r % 128 + 128) as u8;
            assert(s[0] == b);
            assert(s.drop_first() =~= spec_encode_tail(r / 128) + rest);
            // there is room for another group: r >= 128 forces 63 - p > 7
            if 63 - p <= 7 {
                if 63 - p < 7 {
                    lemma_pow2_strictly_increases((63 - p) as nat, 7);
                }
                assert(false);
            }
            assert(p + 7 <= 56);
            let v2 = self.value + (r % 128) * pow2(p);
            lemma_pow2_adds(p, 7);
            lemma_pow2_adds(7, (56 - p) as nat);
            assert(pow2((63 - p) as nat) == 128 * pow2((56 - p) as nat));
            assert(r / 128 < pow2((56 - p) as nat)) by (nonlinear_arith)
                requires
                    r < 128 * pow2((56 - p) as nat),
            ;
            assert(v2 + (r / 128) * pow2(p + 7) == self.value + r * pow2(p)) by (nonlinear_arith)
                requires
                    v2 == self.value + (r % 128) * pow2(p),
                    pow2(p + 7) == pow2(p) * 128,
            {
                assert(r == 128 * (r / 128) + r % 128);
            }
            assert((r % 128) * pow2(p) <= r * pow2(p)) by (nonlinear_arith);
            assert(0 <= (r / 128) * pow2(p + 7)) by (nonlinear_arith);
            let next = PrefixIntParser::<F> {
                value: v2 as u64,
                position: (self.position + 7) as u8,
                flags: self.flags,
            };
            assert(b as nat % 128 == r % 128);
            assert(self.spec_step(b) == ParseProgressResult::<Self, PrefixIntParseError, (u8, u64)>::MoreData(next));
            next.lemma_tail(r / 128, rest);
        }
    }

    /// What `encode` writes with this parser's prefix size reads back: a fresh
    /// parser given the encoding of `(flags, value)`, followed by anything,
    /// completes with exactly `(flags, value)` after consuming the encoding.
    /// `flags` must fit above the prefix, and the part of `value` past the
    /// all-ones prefix must fit in the nine 7-bit groups the parser accepts.
    pub proof fn lemma_encode_roundtrip(self, flags: u8, value: u64, rest: Seq<u8>)
        requires
            self.is_fresh(),
            1 <= F <= 8,
            flags < pow2((8 - F) as nat),
            value < spec_mask(F as nat) + pow2(63),
        ensures
            self.spec_parse(spec_encode(F as nat, flags, value) + rest) == (
                ParseProgressResult::<Self, PrefixIntParseError, (u8, u64)>::Done((flags, value)),
                spec_encode(F as nat, flags, value).len(),
            ),
    {
        let f = F as nat;
        let m = spec_mask(f);
        lemma_mask_bound(f);
        lemma_pow2_values();
        let e = spec_encode(f, flags, value);
        let s = e + rest;
        let hi = (flags as nat * pow2(f)) % 256;
        assert(flags as nat * pow2(f) < 256) by (nonlinear_arith)
            requires
                flags < pow2((8 - f) as nat),
                pow2(f) * pow2((8 - f) as nat) == 256,
                pow2(f) > 0,
        ;
        assert(hi == flags as nat * pow2(f));
        assert(hi + pow2(f) <= 256) by (nonlinear_arith)
            requires
                hi == flags as nat * pow2(f),
                flags + 1 <= pow2((8 - f) as nat),
                pow2(f) * pow2((8 - f) as nat) == 256,
                pow2(f) > 0,
        ;
        let x: nat = if (value as nat) < m { value as nat } else { m };
        assert(x < pow2(f));
        assert(s[0] == (hi + x) as u8);
        assert((hi + x) / pow2(f) == flags as nat && (hi + x) % pow2(f) == x) by {
            lemma_fundamental_div_mod_converse((hi + x) as int, pow2(f) as int, flags as int, x as int);
        }
        if (value as nat) < m {
        } else {
            assert(s.drop_first() =~= spec_encode_tail((value - m) as nat) + rest);
            let next = PrefixIntParser::<F> { value: m as u64, position: 0, flags: Some(flags) };
            assert(self.spec_step(s[0]) == ParseProgressResult::<Self, PrefixIntParseError, (u8, u64)>::MoreData(next));
            assert(pow2(0) == 1);
            assert((value - m) as nat * 1 == (value - m) as nat);
            assert((63 - 0) as nat == 63);
            next.lemma_tail((value - m) as nat, rest);
        }
    }
}

/// Errors of reading a whole prefix integer at once.
#[derive(Debug, PartialEq, Eq, Clone, Copy)]
pub enum Error {
    /// The buffer ends inside the integer.
    UnexpectedEnd,
    /// The integer runs past 63 bits of continuation.
    Overflow,
}

/// The value the continuation bytes `t` add when the first of them is
/// shifted by `pos` bits: the low 7 bits of each, least significant first.
pub open spec fn spec_cont_sum(t: Seq<u8>, pos: nat) -> nat
    decreases t.len(),
{
    if t.len() == 0 {
        0
    } else {
        (t[0] as nat % 128) * pow2(pos) + spec_cont_sum(t.drop_first(), pos + 7)
    }
}

impl<const F: u8> PrefixIntParser<F> {
    proof fn lemma_value_from(self, t: Seq<u8>, k: nat)
        requires
            self.flags is Some,
            self.position % 7 == 0,
            self.position + 7 * k <= 56,
            1 <= F <= 8,
            spec_mask(F as nat) <= self.value,
            self.value < spec_mask(F as nat) + pow2(self.position as nat),
            t.len() > k,
            forall|i: int| 0 <= i < k ==> #[trigger] t[i] >= 128,
            t[k as int] < 128,
        ensures
            self.spec_parse(t) == (
                ParseProgressResult::<Self, PrefixIntParseError, (u8, u64)>::Done(
                    (self.flags->Some_0, (self.value + spec_cont_sum(t.take(k as int + 1), self.position as nat)) as u64),
                ),
                k + 1,
            ),
        decreases k,
    {
        let p = self.position as nat;
        let b = t[0];
        let value = self.value + (b as nat % 128) * pow2(p);
        let tk = t.take(k as int + 1);
        assert(tk[0] == b);
        assert(tk.drop_first() =~= t.drop_first().take(k as int));
        assert(spec_cont_sum(tk, p) == (b as nat % 128) * pow2(p) + spec_cont_sum(t.drop_first().take(k as int), p + 7));
        if k == 0 {
            assert(b < 128);
            assert(t.drop_first().take(0) =~= Seq::<u8>::empty());
            assert(self.spec_parse(t) == (self.spec_step(b), 1nat));
        } else {
            assert(b >= 128);
            lemma_pow2_values();
            lemma_pow2_adds(p, 7);
            lemma_pow2_pos(p);
            lemma_mul_inequality((b as nat % 128) as int, 127, pow2(p) as int);
            assert(pow2(p + 7) == pow2(p) * 128);
            if p + 7 < 63 {
                lemma_pow2_strictly_increases(p + 7, 63);
            }
            assert(value < spec_mask(F as nat) + pow2(p + 7));
            assert(spec_mask(F as nat) <= 255) by {
                lemma_pow2_strictly_increases(F as nat, 9);
            }
            assert(value < 0x1_0000_0000_0000_0000);
            let next = PrefixIntParser::<F> { value: value as u64, position: (p + 7) as u8, flags: self.flags };
            assert(self.spec_step(b) == ParseProgressResult::<Self, PrefixIntParseError, (u8, u64)>::MoreData(next));
            assert forall|i: int| 0 <= i < (k - 1) as nat implies #[trigger] t.drop_first()[i] >= 128 by {
                assert(t.drop_first()[i] == t[i + 1]);
            }
            assert(t.drop_first()[(k - 1) as int] == t[k as int]);
            next.lemma_value_from(t.drop_first(), (k - 1) as nat);
            assert(t.drop_first().take((k - 1) as int + 1) =~= t.drop_first().take(k as int));
        }
    }

    /// The value a prefix integer decodes to, for any bytes: a first byte
    /// whose prefix is not all ones is the value itself; otherwise the value
    /// is the all-ones prefix plus what the continuation bytes add (see
    /// `spec_cont_sum`), up to and including the first of them without bit 7
    /// (at most nine of them; see `lemma_overflow` for longer runs).
    pub proof fn lemma_decode_value(self, s: Seq<u8>, k: nat)
        requires
            self.is_fresh(),
            1 <= F <= 8,
            s.len() > 0,
        ensures
            s[0] as nat % pow2(F as nat) < spec_mask(F as nat) ==> self.spec_parse(s) == (
                ParseProgressResult::<Self, PrefixIntParseError, (u8, u64)>::Done(
                    ((s[0] as nat / pow2(F as nat)) as u8, (s[0] as nat % pow2(F as nat)) as u64),
                ),
                1nat,
            ),
            s[0] as nat % pow2(F as nat) == spec_mask(F as nat) && k <= 8 && s.len() > k + 1 && (forall|i: int|
                1 <= i <= k ==> #[trigger] s[i] >= 128) && s[k as int + 1] < 128 ==> self.spec_parse(s) == (
                ParseProgressResult::<Self, PrefixIntParseError, (u8, u64)>::Done(
                    (
                        (s[0] as nat / pow2(F as nat)) as u8,
                        (spec_mask(F as nat) + spec_cont_sum(s.subrange(1, k as int + 2), 0)) as u64,
                    ),
                ),
                k + 2,
            ),
    {
        lemma_pow2_values();
        if s[0] as nat % pow2(F as nat) < spec_mask(F as nat) {
            assert(self.spec_parse(s) == (self.spec_step(s[0]), 1nat));
        } else if s[0] as nat % pow2(F as nat) == spec_mask(F as nat) && k <= 8 && s.len() > k + 1 && (forall|i: int|
            1 <= i <= k ==> #[trigger] s[i] >= 128) && s[k as int + 1] < 128 {
            let flags = (s[0] as nat / pow2(F as nat)) as u8;
            let next = PrefixIntParser::<F> { value: spec_mask(F as nat) as u64, position: 0, flags: Some(flags) };
            assert(self.spec_step(s[0]) == ParseProgressResult::<Self, PrefixIntParseError, (u8, u64)>::MoreData(next));
            let t = s.drop_first();
            assert forall|i: int| 0 <= i < k implies #[trigger] t[i] >= 128 by {
                assert(t[i] == s[i + 1]);
            }
            assert(t[k as int] == s[k as int + 1]);
            assert(spec_mask(F as nat) <= 255) by {
                lemma_pow2_strictly_increases(F as nat, 9);
            }
            assert(pow2(0) == 1);
            next.lemma_value_from(t, k);
            assert(t.take(k as int + 1) =~= s.subrange(1, k as int + 2));
        }
    }
}

impl<const F: u8> PrefixIntParser<F> {
    proof fn lemma_overflow_from(self, t: Seq<u8>, m: nat)
        requires
            self.flags is Some,
            self.position % 7 == 0,
            self.position <= 56,
            self.position + 7 * m == 63,
            t.len() >= m,
            forall|i: int| 0 <= i < m ==> #[trigger] t[i] >= 128,
        ensures
            self.spec_parse(t) == (
                ParseProgressResult::<Self, PrefixIntParseError, (u8, u64)>::Error(PrefixIntParseError::Overflow),
                m,
            ),
        decreases m,
    {
        assert(t[0] >= 128);
        if self.position + 7 < 63 {
            let value = self.value + (t[0] as nat % 128) * pow2(self.position as nat);
            let next = PrefixIntParser::<F> {
                value: value as u64,
                position: (self.position + 7) as u8,
                flags: self.flags,
            };
            assert(self.spec_step(t[0]) == ParseProgressResult::<Self, PrefixIntParseError, (u8, u64)>::MoreData(next));
            assert forall|i: int| 0 <= i < (m - 1) as nat implies #[trigger] t.drop_first()[i] >= 128 by {
                assert(t.drop_first()[i] == t[i + 1]);
            }
            next.lemma_overflow_from(t.drop_first(), (m - 1) as nat);
        }
    }

    /// A prefix integer that never ends: when the first byte fills the
    /// prefix and the nine bytes after it all have bit 7 set, parsing ends in
    /// `Overflow` at the ninth of them, whatever follows, and never
    /// completes; fed in pieces, the same holds (see `lemma_parse_concat`).
    pub proof fn lemma_overflow(self, s: Seq<u8>)
        requires
            self.is_fresh(),
            1 <= F <= 8,
            s.len() >= 10,
            s[0] as nat % pow2(F as nat) == spec_mask(F as nat),
            forall|i: int| 1 <= i <= 9 ==> #[trigger] s[i] >= 128,
        ensures
            self.spec_parse(s) == (
                ParseProgressResult::<Self, PrefixIntParseError, (u8, u64)>::Error(PrefixIntParseError::Overflow),
                10nat,
            ),
    {
        lemma_pow2_values();
        let flags = (s[0] as nat / pow2(F as nat)) as u8;
        let next = PrefixIntParser::<F> { value: spec_mask(F as nat) as u64, position: 0, flags: Some(flags) };
        assert(self.spec_step(s[0]) == ParseProgressResult::<Self, PrefixIntParseError, (u8, u64)>::MoreData(next));
        assert forall|i: int| 0 <= i < 9 implies #[trigger] s.drop_first()[i] >= 128 by {
            assert(s.drop_first()[i] == s[i + 1]);
        }
        next.lemma_overflow_from(s.drop_first(), 9);
    }

    /// A first byte with all its bits set fills any prefix.
    pub proof fn lemma_full_prefix()
        requires
            1 <= F <= 8,
        ensures
            255nat % pow2(F as nat) == spec_mask(F as nat),
    {
        lemma_pow2_values();
        let p = pow2(F as nat);
        if F == 1 {
            assert(p == 2);
            assert(255nat % 2 == 1);
            assert(spec_mask(F as nat) == 1);
        } else if F == 2 {
            assert(p == 4);
            assert(255nat % 4 == 3);
            assert(spec_mask(F as nat) == 3);
        } else if F == 3 {
            assert(p == 8);
            assert(255nat % 8 == 7);
            assert(spec_mask(F as nat) == 7);
        } else if F == 4 {
            assert(p == 16);
            assert(255nat % 16 == 15);
            assert(spec_mask(F as nat) == 15);
        } else if F == 5 {
            assert(p == 32);
            assert(255nat % 32 == 31);
            assert(spec_mask(F as nat) == 31);
        } else if F == 6 {
            assert(p == 64);
            assert(255nat % 64 == 63);
            assert(spec_mask(F as nat) == 63);
        } else if F == 7 {
            assert(p == 128);
            assert(255nat % 128 == 127);
            assert(spec_mask(F as nat) == 127);
        } else {
            assert(p == 256);
            assert(255nat % 256 == 255);
            assert(spec_mask(F as nat) == 255);
        }
    }
}

impl<const F: u8> PrefixIntParser<F> {
    /// A parser that has not read anything.
    pub closed spec fn spec_fresh() -> Self {
        PrefixIntParser { value: 0, position: 0, flags: None }
    }

    /// Fresh parsers are all the same.
    pub proof fn lemma_fresh(self)
        ensures
            self.is_fresh() <==> self == Self::spec_fresh(),
    {
    }
}

/// Reading a whole prefix integer with an `F`-bit prefix from the front of
/// `s`: flags, value and encoded length.
pub open spec fn spec_outcome<const F: u8>(s: Seq<u8>) -> Result<(u8, u64, nat), Error> {
    match PrefixIntParser::<F>::spec_fresh().spec_parse(s) {
        (ParseProgressResult::Done((flags, value)), n) => Ok((flags, value, n)),
        (ParseProgressResult::Error(_), _) => Err(Error::Overflow),
        (ParseProgressResult::MoreData(_), _) => Err(Error::UnexpectedEnd),
    }
}

/// Reading a whole prefix integer with a `size`-bit prefix from the front of `s`.
pub open spec fn spec_decode(size: u8, s: Seq<u8>) -> Result<(u8, u64, nat), Error> {
    if size == 1 {
        spec_outcome::<1>(s)
    } else if size == 2 {
        spec_outcome::<2>(s)
    } else if size == 3 {
        spec_outcome::<3>(s)
    } else if size == 4 {
        spec_outcome::<4>(s)
    } else if size == 5 {
        spec_outcome::<5>(s)
    } else if size == 6 {
        spec_outcome::<6>(s)
    } else if size == 7 {
        spec_outcome::<7>(s)
    } else {
        spec_outcome::<8>(s)
    }
}

fn decode_with<const F: u8>(buf: &[u8], pos: usize) -> (r: Result<(u8, u64, usize), Error>)
    requires
        1 <= F <= 8,
        pos <= buf@.len(),
    ensures
        match spec_outcome::<F>(buf@.skip(pos as int)) {
            Ok((flags, value, n)) => r == Ok::<(u8, u64, usize), Error>((flags, value, (pos + n) as usize))
                && pos + n <= buf@.len(),
            Err(e) => r == Err::<(u8, u64, usize), Error>(e),
        },
{
    let p = new_prefix_int_parser::<F>();
    proof {
        p.lemma_fresh();
    }
    match p.parse_progress(buf, pos) {
        (ParseProgressResult::Done((flags, value)), next) => Ok((flags, value, next)),
        (ParseProgressResult::Error(_), _) => Err(Error::Overflow),
        (ParseProgressResult::MoreData(_), _) => Err(Error::UnexpectedEnd),
    }
}

/// Reads a prefix integer with a `size`-bit prefix from `buf` at `pos`:
/// its flags, its value and the position after it.
pub fn decode(size: u8, buf: &[u8], pos: usize) -> (r: Result<(u8, u64, usize), Error>)
    requires
        1 <= size <= 8,
        pos <= buf@.len(),
    ensures
        match spec_decode(size, buf@.skip(pos as int)) {
            Ok((flags, value, n)) => r == Ok::<(u8, u64, usize), Error>((flags, value, (pos + n) as usize))
                && pos + n <= buf@.len(),
            Err(e) => r == Err::<(u8, u64, usize), Error>(e),
        },
{
    if size == 1 {
        decode_with::<1>(buf, pos)
    } else if size == 2 {
        decode_with::<2>(buf, pos)
    } else if size == 3 {
        decode_with::<3>(buf, pos)
    } else if size == 4 {
        decode_with::<4>(buf, pos)
    } else if size == 5 {
        decode_with::<5>(buf, pos)
    } else if size == 6 {
        decode_with::<6>(buf, pos)
    } else if size == 7 {
        decode_with::<7>(buf, pos)
    } else {
        decode_with::<8>(buf, pos)
    }
}

proof fn lemma_outcome_roundtrip<const F: u8>(flags: u8, value: u64, rest: Seq<u8>)
    requires
        1 <= F <= 8,
        flags < pow2((8 - F) as nat),
        value < spec_mask(F as nat) + pow2(63),
    ensures
        spec_outcome::<F>(spec_encode(F as nat, flags, value) + rest) == Ok::<(u8, u64, nat), Error>(
            (flags, value, spec_encode(F as nat, flags, value).len()),
        ),
{
    PrefixIntParser::<F>::spec_fresh().lemma_encode_roundtrip(flags, value, rest);
}

/// What `encode` writes, `decode` reads back: for flags that fit above the
/// prefix and values whose part past the prefix fits in 63 bits, decoding
/// the encoding followed by anything gives the flags, the value and the
/// encoding's length.
pub proof fn lemma_decode_encode(size: u8, flags: u8, value: u64, rest: Seq<u8>)
    requires
        1 <= size <= 8,
        flags < pow2((8 - size) as nat),
        value < spec_mask(size as nat) + pow2(63),
    ensures
        spec_decode(size, spec_encode(size as nat, flags, value) + rest) == Ok::<(u8, u64, nat), Error>(
            (flags, value, spec_encode(size as nat, flags, value).len()),
        ),
{
    if size == 1 {
        lemma_outcome_roundtrip::<1>(flags, value, rest);
    } else if size == 2 {
        lemma_outcome_roundtrip::<2>(flags, value, rest);
    } else if size == 3 {
        lemma_outcome_roundtrip::<3>(flags, value, rest);
    } else if size == 4 {
        lemma_outcome_roundtrip::<4>(flags, value, rest);
    } else if size == 5 {
        lemma_outcome_roundtrip::<5>(flags, value, rest);
    } else if size == 6 {
        lemma_outcome_roundtrip::<6>(flags, value, rest);
    } else if size == 7 {
        lemma_outcome_roundtrip::<7>(flags, value, rest);
    } else {
        lemma_outcome_roundtrip::<8>(flags, value, rest);
    }
}
} // verus!
