//! Unidirectional stream types (RFC 9114 section 6.2): the variable-length
//! integer that opens a unidirectional stream.
use vstd::prelude::*;
use crate::varint;
use crate::text::{push_decimal, push_str, spec_decimal};

verus! {

/// The control stream.
pub const CONTROL: u64 = 0x00;
/// A push stream.
pub const PUSH: u64 = 0x01;
/// The QPACK encoder stream.
pub const ENCODER: u64 = 0x02;
/// The QPACK decoder stream.
pub const DECODER: u64 = 0x03;

/// The type of a unidirectional stream.
#[derive(Debug, PartialEq, Eq, Clone, Copy, Structural)]
pub struct StreamType(u64);

/// The text of a stream type.
pub open spec fn spec_stream_type_name(v: u64) -> Seq<char> {
    if v == CONTROL {
        "Control"@
    } else if v == ENCODER {
        "Encoder"@
    } else if v == DECODER {
        "Decoder"@
    } else {
        "StreamType("@ + spec_decimal(v as nat) + ")"@
    }
}

impl View for StreamType {
    type V = u64;

    closed spec fn view(&self) -> u64 {
        self.0
    }
}

impl StreamType {
    #[verifier::type_invariant]
    closed spec fn inv(self) -> bool {
        self.0 <= varint::MAX_VALUE
    }

    /// The stream type with the value `v`.
    pub fn new(v: u64) -> (t: StreamType)
        requires
            v <= varint::MAX_VALUE,
        ensures
            t@ == v,
    {
        StreamType(v)
    }

    /// The value of the stream type.
    pub fn value(&self) -> (v: u64)
        ensures
            v == self@,
            v <= varint::MAX_VALUE,
    {
        proof {
            use_type_invariant(self);
        }
        self.0
    }

    /// Reads a stream type from `buf` at `pos`: the type and the position
    /// after it, or `UnexpectedEnd`.
    pub fn decode(buf: &[u8], pos: usize) -> (r: Result<(StreamType, usize), varint::UnexpectedEnd>)
        requires
            pos <= buf@.len(),
        ensures
            match varint::spec_decode(buf@.skip(pos as int)) {
                Some((v, n)) => r matches Ok((t, next)) && t@ == v && next == pos + n,
                None => r is Err,
            },
    {
        match varint::decode(buf, pos) {
            Ok((v, next)) => {
                proof {
                    varint::lemma_decode_bounds(buf@.skip(pos as int));
                }
                Ok((StreamType(v), next))
            },
            Err(e) => Err(e),
        }
    }

    /// Appends the stream type.
    pub fn encode(&self, buf: &mut Vec<u8>)
        ensures
            final(buf)@ == old(buf)@ + varint::spec_encode(self@),
    {
        varint::encode(self.value(), buf);
    }

    /// The name of the stream type.
    pub fn to_string(&self) -> (s: String)
        ensures
            s@ == spec_stream_type_name(self@),
    {
        if self.0 == CONTROL {
            "Control".to_owned()
        } else if self.0 == ENCODER {
            "Encoder".to_owned()
        } else if self.0 == DECODER {
            "Decoder".to_owned()
        } else {
            let mut s = "StreamType(".to_owned();
            push_decimal(&mut s, self.0);
            push_str(&mut s, ")");
            s
        }
    }
}

} // verus!
