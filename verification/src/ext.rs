//! Extensions of HTTP/3: the `:protocol` pseudo-header of extended CONNECT
//! (RFC 8441 section 4) and HTTP datagrams (RFC 9297 section 2.1).
use vstd::prelude::*;
use crate::error::{Code, InternalConnectionError, H3_DATAGRAM_ERROR};
use crate::text::str_eq;
use crate::varint;

verus! {

#[derive(Copy, PartialEq, Eq, Debug, Clone, Structural)]
enum ProtocolInner {
    WebTransport,
    ConnectUdp,
}

/// Describes the `:protocol` pseudo-header for extended connect
#[derive(Copy, PartialEq, Eq, Debug, Clone, Structural)]
pub struct Protocol(ProtocolInner);

/// Error when parsing the protocol
#[derive(Debug, PartialEq, Eq, Clone, Copy, Structural)]
pub struct InvalidProtocol;

impl Protocol {
    /// The value of the `:protocol` pseudo-header.
    pub closed spec fn spec_str(self) -> Seq<char> {
        match self.0 {
            ProtocolInner::WebTransport => "webtransport"@,
            ProtocolInner::ConnectUdp => "connect-udp"@,
        }
    }

    /// Whether this is the WebTransport protocol.
    pub closed spec fn is_web_transport(self) -> bool {
        self.0 is WebTransport
    }

    /// WebTransport protocol
    pub fn web_transport() -> (p: Protocol)
        ensures
            p == Protocol::web_transport_spec(),
            p.is_web_transport(),
            p.spec_str() == "webtransport"@,
    {
        Protocol(ProtocolInner::WebTransport)
    }

    /// RFC 9298 protocol
    pub fn connect_udp() -> (p: Protocol)
        ensures
            p == Protocol::connect_udp_spec(),
            !p.is_web_transport(),
            p.spec_str() == "connect-udp"@,
    {
        Protocol(ProtocolInner::ConnectUdp)
    }

    /// Whether this is the WebTransport protocol.
    pub fn is_web_transport_exec(&self) -> (b: bool)
        ensures
            b == (*self == Protocol::web_transport_spec()),
    {
        match self.0 {
            ProtocolInner::WebTransport => true,
            ProtocolInner::ConnectUdp => false,
        }
    }

    /// Return a &str representation of the `:protocol` pseudo-header value
    pub fn as_str(&self) -> (s: &str)
        ensures
            s@ == self.spec_str(),
    {
        match self.0 {
            ProtocolInner::WebTransport => "webtransport",
            ProtocolInner::ConnectUdp => "connect-udp",
        }
    }

    /// Reads a `:protocol` value: `webtransport` or `connect-udp`, anything
    /// else is an `InvalidProtocol`.
    pub fn parse(s: &str) -> (r: Result<Protocol, InvalidProtocol>)
        ensures
            s@ == "webtransport"@ ==> r == Ok::<Protocol, InvalidProtocol>(Protocol::web_transport_spec()),
            s@ == "connect-udp"@ ==> r == Ok::<Protocol, InvalidProtocol>(Protocol::connect_udp_spec()),
            s@ != "webtransport"@ && s@ != "connect-udp"@ ==> r == Err::<Protocol, InvalidProtocol>(InvalidProtocol),
    {
        proof {
            reveal_strlit("webtransport");
            reveal_strlit("connect-udp");
            assert("webtransport"@[0] != "connect-udp"@[0]);
        }
        if str_eq(s, "webtransport") {
            Ok(Protocol(ProtocolInner::WebTransport))
        } else if str_eq(s, "connect-udp") {
            Ok(Protocol(ProtocolInner::ConnectUdp))
        } else {
            Err(InvalidProtocol)
        }
    }

    /// The WebTransport protocol.
    pub closed spec fn web_transport_spec() -> Protocol {
        Protocol(ProtocolInner::WebTransport)
    }

    /// The RFC 9298 protocol.
    pub closed spec fn connect_udp_spec() -> Protocol {
        Protocol(ProtocolInner::ConnectUdp)
    }

    /// A protocol is one of the two, and reads back from its own text.
    pub proof fn lemma_parse_as_str(self)
        ensures
            self == Protocol::web_transport_spec() || self == Protocol::connect_udp_spec(),
            self == Protocol::web_transport_spec() <==> self.spec_str() == "webtransport"@,
            self == Protocol::connect_udp_spec() <==> self.spec_str() == "connect-udp"@,
            "webtransport"@ != "connect-udp"@,
    {
        reveal_strlit("webtransport");
        reveal_strlit("connect-udp");
        assert("webtransport"@[0] != "connect-udp"@[0]);
    }
}

impl core::str::FromStr for Protocol {
    type Err = InvalidProtocol;

    fn from_str(s: &str) -> (r: Result<Self, Self::Err>)
        ensures
            s@ == "webtransport"@ ==> r == Ok::<Protocol, InvalidProtocol>(Protocol::web_transport_spec()),
            s@ == "connect-udp"@ ==> r == Ok::<Protocol, InvalidProtocol>(Protocol::connect_udp_spec()),
            s@ != "webtransport"@ && s@ != "connect-udp"@ ==> r == Err::<Protocol, InvalidProtocol>(InvalidProtocol),
    {
        Protocol::parse(s)
    }
}

/// An HTTP datagram: the request stream it belongs to and its payload.
#[derive(Debug)]
pub struct Datagram {
    stream_id: u64,
    payload: Vec<u8>,
}

impl View for Datagram {
    type V = (u64, Seq<u8>);

    closed spec fn view(&self) -> (u64, Seq<u8>) {
        (self.stream_id, self.payload@)
    }
}

/// Reading a datagram from `s`: the Quarter Stream ID (RFC 9297 section
/// 2.1) times four, and the rest as payload; `None` when the integer is
/// cut short or the stream id is past `2^62 - 1`.
pub open spec fn spec_decode_datagram(s: Seq<u8>) -> Option<(u64, Seq<u8>)> {
    match varint::spec_decode(s) {
        None => None,
        Some((q, n)) => if q * 4 > varint::MAX_VALUE {
            None
        } else {
            Some(((q * 4) as u64, s.skip(n as int)))
        },
    }
}

impl Datagram {
    #[verifier::type_invariant]
    closed spec fn inv(self) -> bool {
        self.stream_id % 4 == 0 && self.stream_id <= varint::MAX_VALUE
    }

    /// Creates a new datagram frame for the request stream `stream_id`.
    pub fn new(stream_id: u64, payload: Vec<u8>) -> (d: Self)
        requires
            stream_id % 4 == 0,
            stream_id <= varint::MAX_VALUE,
        ensures
            d@ == (stream_id, payload@),
    {
        Self { stream_id, payload }
    }

    /// Decodes a datagram frame from the QUIC datagram; a malformed one is a
    /// connection error of type `H3_DATAGRAM_ERROR`.
    pub fn decode(buf: &[u8]) -> (r: Result<Self, InternalConnectionError>)
        ensures
            match spec_decode_datagram(buf@) {
                Some(d) => r matches Ok(x) && x@ == d,
                None => r matches Err(e) && e.code.code == H3_DATAGRAM_ERROR && (e.message@ == "Malformed datagram frame"@
                    || e.message@ == "Invalid stream id"@),
            },
    {
        let (q, next) = match varint::decode(buf, 0) {
            Ok(x) => x,
            Err(_) => {
                assert(buf@.skip(0) =~= buf@);
                return Err(InternalConnectionError::new(Code::new(H3_DATAGRAM_ERROR), "Malformed datagram frame".to_owned()));
            },
        };
        assert(buf@.skip(0) =~= buf@);
        proof {
            varint::lemma_decode_bounds(buf@);
        }
        if q > varint::MAX_VALUE / 4 {
            return Err(InternalConnectionError::new(Code::new(H3_DATAGRAM_ERROR), "Invalid stream id".to_owned()));
        }
        let payload = vstd::slice::slice_to_vec(vstd::slice::slice_subrange(buf, next, buf.len()));
        assert(payload@ =~= buf@.skip(next as int));
        Ok(Datagram { stream_id: q * 4, payload })
    }

    /// Returns the associated stream id of the datagram
    pub fn stream_id(&self) -> (id: u64)
        ensures
            id == self@.0,
            id % 4 == 0,
            id <= varint::MAX_VALUE,
    {
        proof {
            use_type_invariant(self);
        }
        self.stream_id
    }

    /// Returns the datagram payload
    pub fn payload(&self) -> (p: &Vec<u8>)
        ensures
            p@ == self@.1,
    {
        &self.payload
    }

    /// Encode the datagram to wire format
    pub fn encode(self, buf: &mut Vec<u8>)
        ensures
            final(buf)@ == old(buf)@ + varint::spec_encode((self@.0 / 4) as u64) + self@.1,
    {
        proof {
            use_type_invariant(&self);
        }
        varint::encode(self.stream_id / 4, buf);
        let ghost mid = buf@;
        buf.extend_from_slice(self.payload.as_slice());
        assert(buf@ =~= mid + self.payload@);
    }

    /// Returns the datagram payload
    pub fn into_payload(self) -> (p: Vec<u8>)
        ensures
            p@ == self@.1,
    {
        self.payload
    }
}

/// A datagram reads back as written: its stream id and its payload.
pub proof fn lemma_datagram_roundtrip(stream_id: u64, payload: Seq<u8>)
    requires
        stream_id % 4 == 0,
        stream_id <= varint::MAX_VALUE,
    ensures
        spec_decode_datagram(varint::spec_encode((stream_id / 4) as u64) + payload) == Some((stream_id, payload)),
{
    let q = (stream_id / 4) as u64;
    varint::lemma_encode_decode(q, payload);
    let e = varint::spec_encode(q);
    assert((e + payload).skip(e.len() as int) =~= payload);
}

} // verus!
