//! QPACK encoder and decoder stream instructions (RFC 9204 sections 4.3 and
//! 4.4). Each `decode` reads one instruction from a buffer: `Ok(None)` when
//! the buffer ends inside it, otherwise the instruction and the position
//! after it.
use vstd::prelude::*;
use vstd::arithmetic::power2::pow2;
use crate::qpack::{prefix_int, prefix_string};

verus! {

/// Errors of reading an instruction.
#[derive(Debug, PartialEq, Eq)]
pub enum ParseError {
    /// An integer field is not valid.
    Integer(prefix_int::Error),
    /// A string field is not valid.
    String(prefix_string::Error),
    /// The bits above the integer do not match the instruction.
    InvalidPrefix(u8),
    /// An invalid base.
    InvalidBase(isize),
}

/// Kinds of encoder instructions, told apart by their first byte.
#[derive(Debug, PartialEq, Eq, Clone, Copy)]
pub enum EncoderInstruction {
    /// `001` Set Dynamic Table Capacity
    DynamicTableSizeUpdate,
    /// `1T` Insert With Name Reference
    InsertWithNameRef,
    /// `01` Insert With Literal Name
    InsertWithoutNameRef,
    /// `000` Duplicate
    Duplicate,
    /// No instruction starts this way.
    Unknown,
}

/// The kind of encoder instruction that starts with `first`.
pub open spec fn spec_encoder_instruction(first: u8) -> EncoderInstruction {
    if first >= 0x80 {
        EncoderInstruction::InsertWithNameRef
    } else if first >= 0x40 {
        EncoderInstruction::InsertWithoutNameRef
    } else if first < 0x20 {
        EncoderInstruction::Duplicate
    } else {
        EncoderInstruction::DynamicTableSizeUpdate
    }
}

impl EncoderInstruction {
    /// The kind of encoder instruction that starts with `first`.
    pub fn decode(first: u8) -> (r: Self)
        ensures
            r == spec_encoder_instruction(first),
    {
        proof {
            assert(first & 0x80 != 0 <==> first >= 0x80) by (bit_vector);
            assert(first < 0x80 ==> (first & 0x40 == 0x40 <==> first >= 0x40)) by (bit_vector);
            assert(first < 0x40 ==> (first & 0xe0 == 0 <==> first < 0x20)) by (bit_vector);
            assert(0x20 <= first < 0x40 ==> first & 0x20 == 0x20) by (bit_vector);
        }
        if first & 0b1000_0000 != 0 {
            EncoderInstruction::InsertWithNameRef
        } else if first & 0b0100_0000 == 0b0100_0000 {
            EncoderInstruction::InsertWithoutNameRef
        } else if first & 0b1110_0000 == 0 {
            EncoderInstruction::Duplicate
        } else if first & 0b0010_0000 == 0b0010_0000 {
            EncoderInstruction::DynamicTableSizeUpdate
        } else {
            EncoderInstruction::Unknown
        }
    }
}

/// Kinds of decoder instructions, told apart by their first byte.
#[derive(Debug, PartialEq, Eq, Clone, Copy)]
pub enum DecoderInstruction {
    /// `1` Section Acknowledgement
    HeaderAck,
    /// `01` Stream Cancellation
    StreamCancel,
    /// `00` Insert Count Increment
    InsertCountIncrement,
    /// No instruction starts this way.
    Unknown,
}

/// The kind of decoder instruction that starts with `first`.
pub open spec fn spec_decoder_instruction(first: u8) -> DecoderInstruction {
    if first < 0x40 {
        DecoderInstruction::InsertCountIncrement
    } else if first >= 0x80 {
        DecoderInstruction::HeaderAck
    } else {
        DecoderInstruction::StreamCancel
    }
}

impl DecoderInstruction {
    /// The kind of decoder instruction that starts with `first`.
    pub fn decode(first: u8) -> (r: Self)
        ensures
            r == spec_decoder_instruction(first),
    {
        proof {
            assert(first & 0xc0 == 0 <==> first < 0x40) by (bit_vector);
            assert(first & 0x80 != 0 <==> first >= 0x80) by (bit_vector);
            assert(0x40 <= first < 0x80 ==> first & 0x40 == 0x40) by (bit_vector);
        }
        if first & 0b1100_0000 == 0 {
            DecoderInstruction::InsertCountIncrement
        } else if first & 0b1000_0000 != 0 {
            DecoderInstruction::HeaderAck
        } else if first & 0b0100_0000 == 0b0100_0000 {
            DecoderInstruction::StreamCancel
        } else {
            DecoderInstruction::Unknown
        }
    }
}

/// Reading a prefix integer whose flag bits must equal `expected`: the value
/// and its length, `None` when the buffer ends first.
pub open spec fn spec_int_field(size: u8, expected: u8, s: Seq<u8>) -> Result<Option<(u64, nat)>, ParseError> {
    match prefix_int::spec_decode(size, s) {
        Ok((f, x, n)) => if f == expected {
            Ok(Some((x, n)))
        } else {
            Err(ParseError::InvalidPrefix(f))
        },
        Err(prefix_int::Error::UnexpectedEnd) => Ok(None),
        Err(e) => Err(ParseError::Integer(e)),
    }
}

fn int_field(size: u8, expected: u8, buf: &[u8], pos: usize) -> (r: Result<Option<(u64, usize)>, ParseError>)
    requires
        1 <= size <= 8,
        pos <= buf@.len(),
    ensures
        match spec_int_field(size, expected, buf@.skip(pos as int)) {
            Ok(Some((x, n))) => r == Ok::<Option<(u64, usize)>, ParseError>(Some((x, (pos + n) as usize)))
                && pos + n <= buf@.len(),
            Ok(None) => r == Ok::<Option<(u64, usize)>, ParseError>(None),
            Err(e) => r == Err::<Option<(u64, usize)>, ParseError>(e),
        },
{
    match prefix_int::decode(size, buf, pos) {
        Ok((f, x, next)) => if f == expected {
            Ok(Some((x, next)))
        } else {
            Err(ParseError::InvalidPrefix(f))
        },
        Err(prefix_int::Error::UnexpectedEnd) => Ok(None),
        Err(e) => Err(ParseError::Integer(e)),
    }
}

/// Reading a string literal field: the string and its length, `None` when
/// the buffer ends first.
pub open spec fn spec_string_field(size: u8, s: Seq<u8>) -> Result<Option<(Seq<u8>, nat)>, ParseError> {
    match prefix_string::spec_decode(size, s) {
        Ok((v, n)) => Ok(Some((v, n))),
        Err(prefix_string::Error::UnexpectedEnd) => Ok(None),
        Err(e) => Err(ParseError::String(e)),
    }
}

fn string_field(size: u8, buf: &[u8], pos: usize) -> (r: Result<Option<(Vec<u8>, usize)>, ParseError>)
    requires
        2 <= size <= 9,
        pos <= buf@.len(),
    ensures
        match spec_string_field(size, buf@.skip(pos as int)) {
            Ok(Some((v, n))) => r matches Ok(Some((w, next))) && w@ == v && next == pos + n,
            Ok(None) => r matches Ok(None),
            Err(e) => r == Err::<Option<(Vec<u8>, usize)>, ParseError>(e),
        },
{
    match prefix_string::decode(size, buf, pos) {
        Ok((v, next)) => Ok(Some((v, next))),
        Err(prefix_string::Error::UnexpectedEnd) => Ok(None),
        Err(e) => Err(ParseError::String(e)),
    }
}

/// Insert With Name Reference: a name from the static or dynamic table and a
/// literal value.
#[derive(Debug, PartialEq)]
pub enum InsertWithNameRef {
    /// The name is entry `index` of the static table.
    Static { index: usize, value: Vec<u8> },
    /// The name is the dynamic table entry at relative `index`.
    Dynamic { index: usize, value: Vec<u8> },
}

/// An Insert With Name Reference as plain values: static?, index, value.
pub open spec fn spec_insert_with_name_ref(i: InsertWithNameRef) -> (bool, usize, Seq<u8>) {
    match i {
        InsertWithNameRef::Static { index, value } => (true, index, value@),
        InsertWithNameRef::Dynamic { index, value } => (false, index, value@),
    }
}

/// Reading an Insert With Name Reference from the front of `s`.
pub open spec fn spec_decode_insert_with_name_ref(s: Seq<u8>) -> Result<Option<((bool, usize, Seq<u8>), nat)>, ParseError> {
    match prefix_int::spec_decode(6, s) {
        Err(prefix_int::Error::UnexpectedEnd) => Ok(None),
        Err(e) => Err(ParseError::Integer(e)),
        Ok((f, x, n)) => if f & 0b10 != 0b10 {
            Err(ParseError::InvalidPrefix(f))
        } else if x > usize::MAX {
            Err(ParseError::Integer(prefix_int::Error::Overflow))
        } else {
            match spec_string_field(8, s.skip(n as int)) {
                Err(e) => Err(e),
                Ok(None) => Ok(None),
                Ok(Some((v, m))) => Ok(Some(((f & 0b01 == 0b01, x as usize, v), n + m))),
            }
        },
    }
}

impl InsertWithNameRef {
    /// A reference to static table entry `index`.
    pub fn new_static(index: usize, value: Vec<u8>) -> (r: Self)
        ensures
            r == (InsertWithNameRef::Static { index, value }),
    {
        InsertWithNameRef::Static { index, value }
    }

    /// A reference to dynamic table entry `index`.
    pub fn new_dynamic(index: usize, value: Vec<u8>) -> (r: Self)
        ensures
            r == (InsertWithNameRef::Dynamic { index, value }),
    {
        InsertWithNameRef::Dynamic { index, value }
    }

    /// Reads the instruction from `buf` at `pos`.
    pub fn decode(buf: &[u8], pos: usize) -> (r: Result<Option<(Self, usize)>, ParseError>)
        requires
            pos <= buf@.len(),
        ensures
            match spec_decode_insert_with_name_ref(buf@.skip(pos as int)) {
                Ok(Some((i, n))) => r matches Ok(Some((j, next))) && spec_insert_with_name_ref(j) == i
                    && next == pos + n,
                Ok(None) => r matches Ok(None),
                Err(e) => r == Err::<Option<(Self, usize)>, ParseError>(e),
            },
    {
        let ghost s = buf@.skip(pos as int);
        let len = buf.len();
        let first = prefix_int::decode(6, buf, pos);
        let (flags, index, p) = match first {
            Ok(x) => x,
            Err(prefix_int::Error::UnexpectedEnd) => return Ok(None),
            Err(e) => return Err(ParseError::Integer(e)),
        };
        if flags & 0b10 != 0b10 {
            return Err(ParseError::InvalidPrefix(flags));
        }
        if index > usize::MAX as u64 {
            return Err(ParseError::Integer(prefix_int::Error::Overflow));
        }
        assert(pos <= p <= len);
        assert(buf@.skip(p as int) =~= s.skip((p - pos) as int));
        let (value, next) = match string_field(8, buf, p) {
            Ok(Some(x)) => x,
            Ok(None) => return Ok(None),
            Err(e) => return Err(e),
        };
        if flags & 0b01 == 0b01 {
            Ok(Some((InsertWithNameRef::new_static(index as usize, value), next)))
        } else {
            Ok(Some((InsertWithNameRef::new_dynamic(index as usize, value), next)))
        }
    }

    /// Appends the instruction to `buf`.
    pub fn encode(&self, buf: &mut Vec<u8>)
        ensures
            final(buf)@ == old(buf)@ + ({
                let (st, index, value) = spec_insert_with_name_ref(*self);
                prefix_int::spec_encode(6, if st { 0b11u8 } else { 0b10u8 }, index as u64)
                    + prefix_string::spec_encode(8, 0, value)
            }),
    {
        match self {
            InsertWithNameRef::Static { index, value } => {
                prefix_int::encode(6, 0b11, *index as u64, buf);
                prefix_string::encode(8, 0, value.as_slice(), buf);
            },
            InsertWithNameRef::Dynamic { index, value } => {
                prefix_int::encode(6, 0b10, *index as u64, buf);
                prefix_string::encode(8, 0, value.as_slice(), buf);
            },
        }
        assert(buf@ =~= old(buf)@ + ({
            let (st, index, value) = spec_insert_with_name_ref(*self);
            prefix_int::spec_encode(6, if st { 0b11u8 } else { 0b10u8 }, index as u64)
                + prefix_string::spec_encode(8, 0, value)
        }));
    }
}

/// Insert With Literal Name.
#[derive(Debug, PartialEq)]
pub struct InsertWithoutNameRef {
    /// The field name
    pub name: Vec<u8>,
    /// The field value
    pub value: Vec<u8>,
}

/// Reading an Insert With Literal Name from the front of `s`.
pub open spec fn spec_decode_insert_without_name_ref(s: Seq<u8>) -> Result<Option<((Seq<u8>, Seq<u8>), nat)>, ParseError> {
    match spec_string_field(6, s) {
        Err(e) => Err(e),
        Ok(None) => Ok(None),
        Ok(Some((name, n))) => match spec_string_field(8, s.skip(n as int)) {
            Err(e) => Err(e),
            Ok(None) => Ok(None),
            Ok(Some((value, m))) => Ok(Some(((name, value), n + m))),
        },
    }
}

impl InsertWithoutNameRef {
    /// An insertion of `(name, value)`.
    pub fn new(name: Vec<u8>, value: Vec<u8>) -> (r: Self)
        ensures
            r.name == name,
            r.value == value,
    {
        Self { name, value }
    }

    /// Reads the instruction from `buf` at `pos`.
    pub fn decode(buf: &[u8], pos: usize) -> (r: Result<Option<(Self, usize)>, ParseError>)
        requires
            pos <= buf@.len(),
        ensures
            match spec_decode_insert_without_name_ref(buf@.skip(pos as int)) {
                Ok(Some(((name, value), n))) => r matches Ok(Some((j, next))) && j.name@ == name
                    && j.value@ == value && next == pos + n,
                Ok(None) => r matches Ok(None),
                Err(e) => r == Err::<Option<(Self, usize)>, ParseError>(e),
            },
    {
        let ghost s = buf@.skip(pos as int);
        let (name, p) = match string_field(6, buf, pos) {
            Ok(Some(x)) => x,
            Ok(None) => return Ok(None),
            Err(e) => return Err(e),
        };
        assert(buf@.skip(p as int) =~= s.skip((p - pos) as int));
        let (value, next) = match string_field(8, buf, p) {
            Ok(Some(x)) => x,
            Ok(None) => return Ok(None),
            Err(e) => return Err(e),
        };
        Ok(Some((Self::new(name, value), next)))
    }

    /// Appends the instruction to `buf`.
    pub fn encode(&self, buf: &mut Vec<u8>)
        ensures
            final(buf)@ == old(buf)@ + prefix_string::spec_encode(6, 0b01, self.name@)
                + prefix_string::spec_encode(8, 0, self.value@),
    {
        prefix_string::encode(6, 0b01, self.name.as_slice(), buf);
        prefix_string::encode(8, 0, self.value.as_slice(), buf);
    }
}

/// Duplicate: copy of the dynamic table entry at a relative index.
#[derive(Debug, PartialEq, Eq, Clone, Copy)]
pub struct Duplicate(pub usize);

/// Set Dynamic Table Capacity.
#[derive(Debug, PartialEq, Eq, Clone, Copy)]
pub struct DynamicTableSizeUpdate(pub usize);

/// Insert Count Increment.
#[derive(Debug, PartialEq, Eq, Clone, Copy)]
pub struct InsertCountIncrement(pub usize);

/// Section Acknowledgement for a stream.
#[derive(Debug, PartialEq, Eq, Clone, Copy)]
pub struct HeaderAck(pub u64);

/// Stream Cancellation.
#[derive(Debug, PartialEq, Eq, Clone, Copy)]
pub struct StreamCancel(pub u64);

/// Reading an instruction made of one prefix integer whose flag bits must be
/// `expected` and whose value must fit in `usize` when `as_usize`.
pub open spec fn spec_decode_int_instruction(size: u8, expected: u8, as_usize: bool, s: Seq<u8>) -> Result<Option<(u64, nat)>, ParseError> {
    match spec_int_field(size, expected, s) {
        Ok(Some((x, n))) => if as_usize && x > usize::MAX {
            Err(ParseError::Integer(prefix_int::Error::Overflow))
        } else {
            Ok(Some((x, n)))
        },
        r => r,
    }
}

fn int_instruction(size: u8, expected: u8, as_usize: bool, buf: &[u8], pos: usize) -> (r: Result<Option<(u64, usize)>, ParseError>)
    requires
        1 <= size <= 8,
        pos <= buf@.len(),
    ensures
        match spec_decode_int_instruction(size, expected, as_usize, buf@.skip(pos as int)) {
            Ok(Some((x, n))) => r == Ok::<Option<(u64, usize)>, ParseError>(Some((x, (pos + n) as usize)))
                && pos + n <= buf@.len() && (as_usize ==> x <= usize::MAX),
            Ok(None) => r == Ok::<Option<(u64, usize)>, ParseError>(None),
            Err(e) => r == Err::<Option<(u64, usize)>, ParseError>(e),
        },
{
    match int_field(size, expected, buf, pos) {
        Ok(Some((x, next))) => if as_usize && x > usize::MAX as u64 {
            Err(ParseError::Integer(prefix_int::Error::Overflow))
        } else {
            Ok(Some((x, next)))
        },
        r => r,
    }
}

impl Duplicate {
    /// Reads the instruction (`000` then a 5-bit prefix index).
    pub fn decode(buf: &[u8], pos: usize) -> (r: Result<Option<(Self, usize)>, ParseError>)
        requires
            pos <= buf@.len(),
        ensures
            match spec_decode_int_instruction(5, 0, true, buf@.skip(pos as int)) {
                Ok(Some((x, n))) => r == Ok::<Option<(Self, usize)>, ParseError>(Some((Duplicate(x as usize), (pos + n) as usize))),
                Ok(None) => r == Ok::<Option<(Self, usize)>, ParseError>(None),
                Err(e) => r == Err::<Option<(Self, usize)>, ParseError>(e),
            },
    {
        match int_instruction(5, 0, true, buf, pos) {
            Ok(Some((x, next))) => Ok(Some((Duplicate(x as usize), next))),
            Ok(None) => Ok(None),
            Err(e) => Err(e),
        }
    }

    /// Appends the instruction.
    pub fn encode(&self, buf: &mut Vec<u8>)
        ensures
            final(buf)@ == old(buf)@ + prefix_int::spec_encode(5, 0, self.0 as u64),
    {
        prefix_int::encode(5, 0, self.0 as u64, buf);
    }
}

impl DynamicTableSizeUpdate {
    /// Reads the instruction (`001` then a 5-bit prefix capacity).
    pub fn decode(buf: &[u8], pos: usize) -> (r: Result<Option<(Self, usize)>, ParseError>)
        requires
            pos <= buf@.len(),
        ensures
            match spec_decode_int_instruction(5, 0b001, true, buf@.skip(pos as int)) {
                Ok(Some((x, n))) => r == Ok::<Option<(Self, usize)>, ParseError>(Some((DynamicTableSizeUpdate(x as usize), (pos + n) as usize))),
                Ok(None) => r == Ok::<Option<(Self, usize)>, ParseError>(None),
                Err(e) => r == Err::<Option<(Self, usize)>, ParseError>(e),
            },
    {
        match int_instruction(5, 0b001, true, buf, pos) {
            Ok(Some((x, next))) => Ok(Some((DynamicTableSizeUpdate(x as usize), next))),
            Ok(None) => Ok(None),
            Err(e) => Err(e),
        }
    }

    /// Appends the instruction.
    pub fn encode(&self, buf: &mut Vec<u8>)
        ensures
            final(buf)@ == old(buf)@ + prefix_int::spec_encode(5, 0b001, self.0 as u64),
    {
        prefix_int::encode(5, 0b001, self.0 as u64, buf);
    }
}

impl InsertCountIncrement {
    /// Reads the instruction (`00` then a 6-bit prefix increment).
    pub fn decode(buf: &[u8], pos: usize) -> (r: Result<Option<(Self, usize)>, ParseError>)
        requires
            pos <= buf@.len(),
        ensures
            match spec_decode_int_instruction(6, 0b00, true, buf@.skip(pos as int)) {
                Ok(Some((x, n))) => r == Ok::<Option<(Self, usize)>, ParseError>(Some((InsertCountIncrement(x as usize), (pos + n) as usize))),
                Ok(None) => r == Ok::<Option<(Self, usize)>, ParseError>(None),
                Err(e) => r == Err::<Option<(Self, usize)>, ParseError>(e),
            },
    {
        match int_instruction(6, 0b00, true, buf, pos) {
            Ok(Some((x, next))) => Ok(Some((InsertCountIncrement(x as usize), next))),
            Ok(None) => Ok(None),
            Err(e) => Err(e),
        }
    }

    /// Appends the instruction.
    pub fn encode(&self, buf: &mut Vec<u8>)
        ensures
            final(buf)@ == old(buf)@ + prefix_int::spec_encode(6, 0b00, self.0 as u64),
    {
        prefix_int::encode(6, 0b00, self.0 as u64, buf);
    }
}

impl HeaderAck {
    /// Reads the instruction (`1` then a 7-bit prefix stream id).
    pub fn decode(buf: &[u8], pos: usize) -> (r: Result<Option<(Self, usize)>, ParseError>)
        requires
            pos <= buf@.len(),
        ensures
            match spec_decode_int_instruction(7, 0b1, false, buf@.skip(pos as int)) {
                Ok(Some((x, n))) => r == Ok::<Option<(Self, usize)>, ParseError>(Some((HeaderAck(x), (pos + n) as usize))),
                Ok(None) => r == Ok::<Option<(Self, usize)>, ParseError>(None),
                Err(e) => r == Err::<Option<(Self, usize)>, ParseError>(e),
            },
    {
        match int_instruction(7, 0b1, false, buf, pos) {
            Ok(Some((x, next))) => Ok(Some((HeaderAck(x), next))),
            Ok(None) => Ok(None),
            Err(e) => Err(e),
        }
    }

    /// Appends the instruction.
    pub fn encode(&self, buf: &mut Vec<u8>)
        ensures
            final(buf)@ == old(buf)@ + prefix_int::spec_encode(7, 0b1, self.0),
    {
        prefix_int::encode(7, 0b1, self.0, buf);
    }
}

impl StreamCancel {
    /// Reads the instruction (`01` then a 6-bit prefix stream id).
    pub fn decode(buf: &[u8], pos: usize) -> (r: Result<Option<(Self, usize)>, ParseError>)
        requires
            pos <= buf@.len(),
        ensures
            match spec_decode_int_instruction(6, 0b01, false, buf@.skip(pos as int)) {
                Ok(Some((x, n))) => r == Ok::<Option<(Self, usize)>, ParseError>(Some((StreamCancel(x), (pos + n) as usize))),
                Ok(None) => r == Ok::<Option<(Self, usize)>, ParseError>(None),
                Err(e) => r == Err::<Option<(Self, usize)>, ParseError>(e),
            },
    {
        match int_instruction(6, 0b01, false, buf, pos) {
            Ok(Some((x, next))) => Ok(Some((StreamCancel(x), next))),
            Ok(None) => Ok(None),
            Err(e) => Err(e),
        }
    }

    /// Appends the instruction.
    pub fn encode(&self, buf: &mut Vec<u8>)
        ensures
            final(buf)@ == old(buf)@ + prefix_int::spec_encode(6, 0b01, self.0),
    {
        prefix_int::encode(6, 0b01, self.0, buf);
    }
}

/// An instruction made of one prefix integer reads back the value that was
/// written, whatever follows it.
pub proof fn lemma_int_instruction_roundtrip(size: u8, flags: u8, as_usize: bool, value: u64, rest: Seq<u8>)
    requires
        1 <= size <= 8,
        flags < pow2((8 - size) as nat),
        value < prefix_int::spec_mask(size as nat) + pow2(63),
        as_usize ==> value <= usize::MAX,
    ensures
        spec_decode_int_instruction(size, flags, as_usize, prefix_int::spec_encode(size as nat, flags, value) + rest)
            == Ok::<Option<(u64, nat)>, ParseError>(Some((value, prefix_int::spec_encode(size as nat, flags, value).len()))),
{
    prefix_int::lemma_decode_encode(size, flags, value, rest);
}

/// An encoded Insert With Name Reference reads back as itself, whatever
/// follows it.
pub proof fn lemma_insert_with_name_ref_roundtrip(st: bool, index: usize, value: Seq<u8>, rest: Seq<u8>)
    requires
        index < prefix_int::spec_mask(6) + pow2(63),
        value.len() < pow2(60),
    ensures
        ({
            let enc = prefix_int::spec_encode(6, if st { 0b11u8 } else { 0b10u8 }, index as u64)
                + prefix_string::spec_encode(8, 0, value);
            spec_decode_insert_with_name_ref(enc + rest) == Ok::<Option<((bool, usize, Seq<u8>), nat)>, ParseError>(
                Some(((st, index, value), enc.len())))
        }),
{
    let flags: u8 = if st { 0b11u8 } else { 0b10u8 };
    let a = prefix_int::spec_encode(6, flags, index as u64);
    let b = prefix_string::spec_encode(8, 0, value);
    vstd::arithmetic::power2::lemma2_to64();
    assert((a + b) + rest =~= a + (b + rest));
    prefix_int::lemma_decode_encode(6, flags, index as u64, b + rest);
    assert((a + (b + rest)).skip(a.len() as int) =~= b + rest);
    prefix_string::lemma_decode_encode(8, 0, value, rest);
    assert(flags & 0b10 == 0b10) by (bit_vector)
        requires flags == 0b11u8 || flags == 0b10u8;
    assert((flags & 0b01 == 0b01) == (flags == 0b11u8)) by (bit_vector)
        requires flags == 0b11u8 || flags == 0b10u8;
}

/// An encoded Insert With Literal Name reads back as itself, whatever
/// follows it.
pub proof fn lemma_insert_without_name_ref_roundtrip(name: Seq<u8>, value: Seq<u8>, rest: Seq<u8>)
    requires
        name.len() < pow2(60),
        value.len() < pow2(60),
    ensures
        ({
            let enc = prefix_string::spec_encode(6, 0b01, name) + prefix_string::spec_encode(8, 0, value);
            spec_decode_insert_without_name_ref(enc + rest) == Ok::<Option<((Seq<u8>, Seq<u8>), nat)>, ParseError>(
                Some(((name, value), enc.len())))
        }),
{
    let a = prefix_string::spec_encode(6, 0b01, name);
    let b = prefix_string::spec_encode(8, 0, value);
    vstd::arithmetic::power2::lemma2_to64();
    assert((a + b) + rest =~= a + (b + rest));
    prefix_string::lemma_decode_encode(6, 0b01, name, b + rest);
    assert((a + (b + rest)).skip(a.len() as int) =~= b + rest);
    prefix_string::lemma_decode_encode(8, 0, value, rest);
}

} // verus!
