//! Decoding frames as they arrive on a stream: frame headers are read as soon
//! as they are complete, DATA payloads are left to the caller, unknown frames
//! are discarded as their bytes arrive, and frames that must be buffered are
//! bounded in size.
use vstd::prelude::*;
use crate::buf::{lemma_advance_compose, lemma_advance_zero, spec_after_advance, spec_chunks_ok, BufList};
use crate::varint;
use crate::quic::StreamErrorIncoming;
use crate::proto::frame::{
    DATA, HEADERS, SETTINGS, CANCEL_PUSH, PUSH_PROMISE, GOAWAY, MAX_PUSH_ID, H2_PRIORITY, H2_PING,
    H2_WINDOW_UPDATE, H2_CONTINUATION, spec_is_h2_only, spec_sat_add,
};
use crate::proto::settings::{Settings, SettingsError, spec_decode_from as spec_settings_decode};

verus! {

/// Default ceiling on the declared length of a frame that must be buffered in
/// full before it can be parsed.
pub const DEFAULT_MAX_BUFFERED_FRAME: u64 = 1024 * 1024;

/// A frame as read from a stream; a DATA frame carries only its payload length.
#[derive(Debug, PartialEq)]
pub enum StreamFrame {
    /// DATA header with the length of the payload that follows
    Data(u64),
    /// HEADERS with the encoded field section
    Headers(Vec<u8>),
    /// SETTINGS
    Settings(Settings),
    /// CANCEL_PUSH
    CancelPush(u64),
    /// PUSH_PROMISE with its push identifier and encoded field section
    PushPromise(u64, Vec<u8>),
    /// GOAWAY
    Goaway(u64),
    /// MAX_PUSH_ID
    MaxPushId(u64),
}

/// The content of a [`StreamFrame`] as plain values.
pub ghost enum StreamFrameModel {
    Data(u64),
    Headers(Seq<u8>),
    Settings(Seq<(u64, u64)>),
    CancelPush(u64),
    PushPromise(u64, Seq<u8>),
    Goaway(u64),
    MaxPushId(u64),
}

impl View for StreamFrame {
    type V = StreamFrameModel;

    open spec fn view(&self) -> StreamFrameModel {
        match self {
            StreamFrame::Data(n) => StreamFrameModel::Data(*n),
            StreamFrame::Headers(p) => StreamFrameModel::Headers(p@),
            StreamFrame::Settings(s) => StreamFrameModel::Settings(s@),
            StreamFrame::CancelPush(v) => StreamFrameModel::CancelPush(*v),
            StreamFrame::PushPromise(v, p) => StreamFrameModel::PushPromise(*v, p@),
            StreamFrame::Goaway(v) => StreamFrameModel::Goaway(*v),
            StreamFrame::MaxPushId(v) => StreamFrameModel::MaxPushId(*v),
        }
    }
}

/// Outcomes of reading a frame other than a frame.
#[derive(Debug, PartialEq)]
pub enum FrameError {
    /// At least this many bytes are needed before the frame can be read.
    Incomplete(usize),
    /// An unknown frame: its header has been read and `len` payload bytes are
    /// to be discarded.
    SkipUnknown { ty: u64, len: u64 },
    /// A frame that must be buffered declared a payload above the limit.
    TooLarge { ty: u64, len: u64, limit: u64 },
    /// An HTTP/2 frame type that HTTP/3 forbids.
    UnsupportedFrame(u64),
    /// The payload does not have the form its type calls for.
    Malformed,
    /// The SETTINGS payload was refused.
    Settings(SettingsError),
    /// A stream identifier that is not allowed.
    InvalidStreamId(u64),
    /// A push identifier that is not allowed.
    InvalidPushId(u64),
    /// A field holds a value that is not allowed.
    InvalidFrameValue,
}

/// Frame types this reader gives a meaning to.
pub open spec fn spec_is_known(ty: u64) -> bool {
    ty == DATA || ty == HEADERS || ty == SETTINGS || ty == CANCEL_PUSH || ty == PUSH_PROMISE || ty
        == GOAWAY || ty == MAX_PUSH_ID
}

/// Reads the payload `p` of a buffered frame of the known type `ty`.
pub open spec fn spec_read_payload(ty: u64, p: Seq<u8>) -> Result<StreamFrameModel, FrameError> {
    if ty == HEADERS {
        Ok(StreamFrameModel::Headers(p))
    } else if ty == SETTINGS {
        match spec_settings_decode(p, Seq::empty()) {
            Ok(e) => Ok(StreamFrameModel::Settings(e)),
            Err(e) => Err(FrameError::Settings(e)),
        }
    } else if ty == PUSH_PROMISE {
        match varint::spec_decode(p) {
            Some((v, n)) => Ok(StreamFrameModel::PushPromise(v, p.skip(n as int))),
            None => Err(FrameError::Malformed),
        }
    } else {
        // CANCEL_PUSH, GOAWAY, MAX_PUSH_ID: exactly one integer
        match varint::spec_decode(p) {
            Some((v, n)) => if n == p.len() {
                Ok(
                    if ty == CANCEL_PUSH {
                        StreamFrameModel::CancelPush(v)
                    } else if ty == GOAWAY {
                        StreamFrameModel::Goaway(v)
                    } else {
                        StreamFrameModel::MaxPushId(v)
                    },
                )
            } else {
                Err(FrameError::Malformed)
            },
            None => Err(FrameError::Malformed),
        }
    }
}

/// Reading one frame from the front of `s`, buffering at most `max` payload
/// bytes: the outcome and how many bytes it takes up (the header alone for
/// DATA and unknown frames; nothing on an error or when more bytes are needed).
#[verifier::opaque]
pub open spec fn spec_read_frame(s: Seq<u8>, max: u64) -> (Result<StreamFrameModel, FrameError>, nat) {
    match varint::spec_decode(s) {
        None => (Err(FrameError::Incomplete(spec_sat_add(s.len(), 1))), 0),
        Some((ty, n1)) => match varint::spec_decode(s.skip(n1 as int)) {
            None => (Err(FrameError::Incomplete(spec_sat_add(s.len(), 1))), 0),
            Some((len, n2)) => {
                let hdr = n1 + n2;
                if ty == DATA {
                    (Ok(StreamFrameModel::Data(len)), hdr)
                } else if spec_is_h2_only(ty) {
                    (Err(FrameError::UnsupportedFrame(ty)), 0)
                } else if !spec_is_known(ty) {
                    (Err(FrameError::SkipUnknown { ty, len }), hdr)
                } else if len > max {
                    (Err(FrameError::TooLarge { ty, len, limit: max }), 0)
                } else if s.len() - hdr < len {
                    (Err(FrameError::Incomplete(spec_sat_add(hdr, len as nat))), 0)
                } else {
                    match spec_read_payload(ty, s.subrange(hdr as int, hdr + len)) {
                        Ok(f) => (Ok(f), hdr + len as nat),
                        Err(e) => (Err(e), 0),
                    }
                }
            },
        },
    }
}

/// Reads one frame from `buf` at `pos`, buffering at most `max` payload bytes.
pub fn read_frame(buf: &[u8], pos: usize, max: u64) -> (r: (Result<StreamFrame, FrameError>, usize))
    requires
        pos <= buf@.len(),
    ensures
        ({
            let (res, n) = spec_read_frame(buf@.skip(pos as int), max);
            &&& r.1 == pos + n
            &&& match res {
                Ok(f) => r.0 matches Ok(g) && g@ == f,
                Err(e) => r.0 == Err::<StreamFrame, FrameError>(e),
            }
        }),
{
    proof {
        reveal(spec_read_frame);
    }
    let ghost s = buf@.skip(pos as int);
    let remaining = buf.len() - pos;
    let (ty, p1) = match varint::decode(buf, pos) {
        Ok(x) => x,
        Err(_) => {
            let n = if remaining < usize::MAX { remaining + 1 } else { usize::MAX };
            return (Err(FrameError::Incomplete(n)), pos);
        },
    };
    assert(buf@.skip(p1 as int) =~= s.skip((p1 - pos) as int));
    let (len, p2) = match varint::decode(buf, p1) {
        Ok(x) => x,
        Err(_) => {
            let n = if remaining < usize::MAX { remaining + 1 } else { usize::MAX };
            return (Err(FrameError::Incomplete(n)), pos);
        },
    };
    let hdr = p2 - pos;
    if ty == DATA {
        return (Ok(StreamFrame::Data(len)), p2);
    }
    if ty == H2_PRIORITY || ty == H2_PING || ty == H2_WINDOW_UPDATE || ty == H2_CONTINUATION {
        return (Err(FrameError::UnsupportedFrame(ty)), pos);
    }
    if !(ty == HEADERS || ty == SETTINGS || ty == CANCEL_PUSH || ty == PUSH_PROMISE || ty == GOAWAY
        || ty == MAX_PUSH_ID) {
        return (Err(FrameError::SkipUnknown { ty, len }), p2);
    }
    if len > max {
        return (Err(FrameError::TooLarge { ty, len, limit: max }), pos);
    }
    let avail = buf.len() - p2;
    if (avail as u64) < len {
        let n = if len <= (usize::MAX - hdr) as u64 { hdr + len as usize } else { usize::MAX };
        return (Err(FrameError::Incomplete(n)), pos);
    }
    let end = p2 + len as usize;
    let payload = vstd::slice::slice_subrange(buf, p2, end);
    assert(payload@ =~= s.subrange(hdr as int, hdr + len));
    assert(payload@.skip(0) =~= payload@);
    if ty == HEADERS {
        (Ok(StreamFrame::Headers(vstd::slice::slice_to_vec(payload))), end)
    } else if ty == SETTINGS {
        match Settings::decode(payload) {
            Ok(st) => (Ok(StreamFrame::Settings(st)), end),
            Err(e) => (Err(FrameError::Settings(e)), pos),
        }
    } else if ty == PUSH_PROMISE {
        match varint::decode(payload, 0) {
            Ok((v, n)) => {
                let rest = vstd::slice::slice_subrange(payload, n, payload.len());
                assert(rest@ =~= payload@.skip(n as int));
                (Ok(StreamFrame::PushPromise(v, vstd::slice::slice_to_vec(rest))), end)
            },
            Err(_) => (Err(FrameError::Malformed), pos),
        }
    } else {
        match varint::decode(payload, 0) {
            Ok((v, n)) => {
                if n != payload.len() {
                    (Err(FrameError::Malformed), pos)
                } else if ty == CANCEL_PUSH {
                    (Ok(StreamFrame::CancelPush(v)), end)
                } else if ty == GOAWAY {
                    (Ok(StreamFrame::Goaway(v)), end)
                } else {
                    (Ok(StreamFrame::MaxPushId(v)), end)
                }
            },
            Err(_) => (Err(FrameError::Malformed), pos),
        }
    }
}


/// Protocol specific errors that can occur while decoding frames in a stream
#[derive(Debug, PartialEq)]
pub enum FrameProtocolError {
    /// The payload does not have the form its type calls for
    Malformed,
    /// Known (http2) frames that should generate an error
    ForbiddenFrame(u64),
    /// A field holds a value that is not allowed
    InvalidFrameValue,
    /// The SETTINGS payload was refused
    Settings(SettingsError),
    /// An invalid stream identifier
    InvalidStreamId(u64),
    /// An invalid push identifier
    InvalidPushId(u64),
}

/// Errors that can occur while decoding frames
#[derive(Debug, PartialEq)]
pub enum FrameStreamError {
    /// A frame broke the protocol
    Proto(FrameProtocolError),
    /// The transport reported an error
    Quic(StreamErrorIncoming),
    /// The stream ended inside a frame
    UnexpectedEnd,
    /// A frame that must be buffered to be parsed declared a payload past the
    /// decoder's ceiling.
    PayloadTooLarge { frame_type: u64, actual_size: u64, max_size: u64 },
}

/// What a call of `FrameDecoder::decode` reports, with the frame as plain values.
pub ghost enum DecodeOutcome {
    Frame(StreamFrameModel),
    NeedMore,
    Failed(FrameStreamError),
}

/// Decodes frames from the bytes received on a stream.
#[derive(Debug)]
pub struct FrameDecoder {
    expected: Option<usize>,
    /// Payload bytes of an unknown frame still to be discarded.
    skipping: u64,
    max_buffered: u64,
}

/// `min(a, b)`.
pub open spec fn spec_min(a: u64, b: nat) -> nat {
    if (a as nat) < b {
        a as nat
    } else {
        b
    }
}

impl FrameDecoder {
    /// A decoder that buffers frames of up to `max_buffered` payload bytes.
    pub fn new(max_buffered: u64) -> (d: Self)
        ensures
            d.expected() is None,
            d.skipping() == 0,
            d.max_buffered() == max_buffered,
    {
        FrameDecoder { expected: None, skipping: 0, max_buffered }
    }

    /// A decoder with the default buffering ceiling.
    pub fn default() -> (d: Self)
        ensures
            d.expected() is None,
            d.skipping() == 0,
            d.max_buffered() == DEFAULT_MAX_BUFFERED_FRAME,
    {
        Self::new(DEFAULT_MAX_BUFFERED_FRAME)
    }

    /// Bytes the next frame needs before reading it is tried again.
    pub closed spec fn expected(self) -> Option<usize> {
        self.expected
    }

    /// Payload bytes of an unknown frame still to be discarded.
    pub closed spec fn skipping(self) -> u64 {
        self.skipping
    }

    /// The buffering ceiling.
    pub closed spec fn max_buffered(self) -> u64 {
        self.max_buffered
    }

    /// Payload bytes of an unknown frame still to be discarded.
    pub fn skipping_left(&self) -> (n: u64)
        ensures
            n == self.skipping(),
    {
        self.skipping
    }

    /// Whether a frame has been started and not finished.
    pub fn is_incomplete(&self) -> (b: bool)
        ensures
            b == (self.expected() is Some || self.skipping() > 0),
    {
        self.expected.is_some() || self.skipping > 0
    }

    /// The decoder with other bookkeeping.
    pub closed spec fn with(self, expected: Option<usize>, skipping: u64) -> Self {
        FrameDecoder { expected, skipping, max_buffered: self.max_buffered }
    }

    /// One call of `decode` on the received bytes `s`: the outcome, the
    /// decoder afterwards, and how many bytes of `s` were consumed.
    pub open spec fn spec_decode(self, s: Seq<u8>) -> (DecodeOutcome, Self, nat)
        decreases s.len(),
    {
        if s.len() == 0 {
            (DecodeOutcome::NeedMore, self, 0)
        } else if self.skipping() > 0 {
            let discard = spec_min(self.skipping(), s.len());
            let d = self.with(self.expected(), (self.skipping() - discard) as u64);
            if d.skipping() > 0 {
                (DecodeOutcome::NeedMore, d, discard)
            } else {
                let (r, d2, n) = d.spec_decode(s.skip(discard as int));
                (r, d2, n + discard)
            }
        } else if self.expected() matches Some(min) && s.len() < min {
            (DecodeOutcome::NeedMore, self, 0)
        } else {
            match spec_read_frame(s, self.max_buffered()) {
                (Ok(f), n) => (DecodeOutcome::Frame(f), self.with(None, 0), n),
                (Err(FrameError::SkipUnknown { ty, len }), n) => {
                    if 0 < n <= s.len() {
                        let (r, d2, m) = self.with(None, len).spec_decode(s.skip(n as int));
                        (r, d2, m + n)
                    } else {
                        (DecodeOutcome::NeedMore, self.with(None, len), n)
                    }
                },
                (Err(FrameError::TooLarge { ty, len, limit }), _) => (
                    DecodeOutcome::Failed(
                        FrameStreamError::PayloadTooLarge { frame_type: ty, actual_size: len, max_size: limit },
                    ),
                    self.with(None, self.skipping()),
                    s.len(),
                ),
                (Err(FrameError::Incomplete(min)), _) => (
                    DecodeOutcome::NeedMore,
                    self.with(Some(min), self.skipping()),
                    0,
                ),
                (Err(FrameError::UnsupportedFrame(ty)), _) => (
                    DecodeOutcome::Failed(FrameStreamError::Proto(FrameProtocolError::ForbiddenFrame(ty))),
                    self,
                    0,
                ),
                (Err(FrameError::Settings(e)), _) => (
                    DecodeOutcome::Failed(FrameStreamError::Proto(FrameProtocolError::Settings(e))),
                    self,
                    0,
                ),
                (Err(FrameError::Malformed), _) => (
                    DecodeOutcome::Failed(FrameStreamError::Proto(FrameProtocolError::Malformed)),
                    self,
                    0,
                ),
                (Err(FrameError::InvalidStreamId(id)), _) => (
                    DecodeOutcome::Failed(FrameStreamError::Proto(FrameProtocolError::InvalidStreamId(id))),
                    self,
                    0,
                ),
                (Err(FrameError::InvalidPushId(id)), _) => (
                    DecodeOutcome::Failed(FrameStreamError::Proto(FrameProtocolError::InvalidPushId(id))),
                    self,
                    0,
                ),
                (Err(FrameError::InvalidFrameValue), _) => (
                    DecodeOutcome::Failed(FrameStreamError::Proto(FrameProtocolError::InvalidFrameValue)),
                    self,
                    0,
                ),
            }
        }
    }

    /// Decodes the next frame from `src`. Unknown frames are skipped (their
    /// payload discarded as it arrives), DATA frames are returned as soon as
    /// their header is complete, and other frames once they are whole.
    /// Returns `Ok(None)` when more bytes are needed.
    pub fn decode(&mut self, src: &mut BufList) -> (r: Result<Option<StreamFrame>, FrameStreamError>)
        ensures
            ({
                let (out, d, n) = old(self).spec_decode(old(src)@);
                &&& *final(self) == d
                &&& n <= old(src)@.len()
                &&& final(src)@ == old(src)@.skip(n as int)
                &&& final(src).chunk_ends() == spec_after_advance(old(src).chunk_ends(), n as int)
                &&& match out {
                    DecodeOutcome::Frame(f) => r matches Ok(Some(g)) && g@ == f,
                    DecodeOutcome::NeedMore => r matches Ok(None),
                    DecodeOutcome::Failed(e) => r == Err::<Option<StreamFrame>, FrameStreamError>(e),
                }
            }),
            old(self).skipping() > 0 && old(src)@.len() < old(self).skipping() ==> {
                &&& r matches Ok(None)
                &&& final(src)@.len() == 0
                &&& final(self).skipping() == old(self).skipping() - old(src)@.len()
                &&& final(self).expected() == old(self).expected()
            },
    {
        proof {
            if old(self).skipping() > 0 {
                old(self).lemma_skip(old(src)@);
                old(self).lemma_with(old(self).expected(), (old(self).skipping() - old(src)@.len()) as u64);
            }
        }
        self.decode_frame(src)
    }

    /// The work of `decode`.
    fn decode_frame(&mut self, src: &mut BufList) -> (r: Result<Option<StreamFrame>, FrameStreamError>)
        ensures
            ({
                let (out, d, n) = old(self).spec_decode(old(src)@);
                &&& *final(self) == d
                &&& n <= old(src)@.len()
                &&& final(src)@ == old(src)@.skip(n as int)
                &&& final(src).chunk_ends() == spec_after_advance(old(src).chunk_ends(), n as int)
                &&& match out {
                    DecodeOutcome::Frame(f) => r matches Ok(Some(g)) && g@ == f,
                    DecodeOutcome::NeedMore => r matches Ok(None),
                    DecodeOutcome::Failed(e) => r == Err::<Option<StreamFrame>, FrameStreamError>(e),
                }
            }),
    {
        let ghost d0 = *self;
        let ghost s0 = src@;
        let ghost e0 = src.chunk_ends();
        let _ = src.remaining();
        proof {
            lemma_advance_zero(e0, s0.len() as int);
        }
        loop
            invariant
                d0 == *old(self),
                s0 == old(src)@,
                e0 == old(src).chunk_ends(),
                spec_chunks_ok(e0, s0.len() as int),
                src.chunk_ends() == spec_after_advance(e0, s0.len() - src@.len()),
                src@.len() <= s0.len(),
                src@ == s0.skip((s0.len() - src@.len()) as int),
                self.max_buffered == d0.max_buffered,
                d0.spec_decode(s0) == ({
                    let (r, d, n) = self.spec_decode(src@);
                    (r, d, n + (s0.len() - src@.len()) as nat)
                }),
            decreases src@.len(),
        {
            let ghost s = src@;
            let ghost consumed = (s0.len() - s.len()) as nat;
            if !src.has_remaining() {
                assert(s0.skip(consumed as int) =~= s);
                return Ok(None);
            }
            if self.skipping > 0 {
                let rem = src.remaining() as u64;
                let discard = if self.skipping < rem { self.skipping } else { rem };
                proof {
                    lemma_advance_compose(e0, s0.len() as int, s0.len() - s.len(), discard as int);
                }
                src.advance(discard as usize);
                self.skipping = self.skipping - discard;
                assert(src@ =~= s0.skip((s0.len() - src@.len()) as int));
                if self.skipping > 0 {
                    return Ok(None);
                }
                continue;
            }
            if let Some(min) = self.expected {
                if src.remaining() < min {
                    return Ok(None);
                }
            }
            let (decoded, pos) = read_frame(src.bytes(), 0, self.max_buffered);
            assert(src@.skip(0) =~= src@);
            proof {
                reveal(spec_read_frame);
            }
            match decoded {
                Err(FrameError::SkipUnknown { ty, len }) => {
                    proof {
                        varint::lemma_decode_bounds(s);
                    }
                    proof {
                        lemma_advance_compose(e0, s0.len() as int, s0.len() - s.len(), pos as int);
                    }
                    src.advance(pos);
                    self.expected = None;
                    self.skipping = len;
                    assert(src@ =~= s0.skip((s0.len() - src@.len()) as int));
                    continue;
                },
                Err(FrameError::TooLarge { ty, len, limit }) => {
                    let all = src.remaining();
                    proof {
                        lemma_advance_compose(e0, s0.len() as int, s0.len() - s.len(), all as int);
                    }
                    src.advance(all);
                    self.expected = None;
                    assert(src@ =~= s0.skip(s0.len() as int));
                    return Err(FrameStreamError::PayloadTooLarge { frame_type: ty, actual_size: len, max_size: limit });
                },
                Err(FrameError::Incomplete(min)) => {
                    self.expected = Some(min);
                    return Ok(None);
                },
                Ok(frame) => {
                    proof {
                        lemma_advance_compose(e0, s0.len() as int, s0.len() - s.len(), pos as int);
                    }
                    src.advance(pos);
                    self.expected = None;
                    assert(src@ =~= s0.skip((s0.len() - src@.len()) as int));
                    return Ok(Some(frame));
                },
                Err(FrameError::UnsupportedFrame(ty)) => {
                    return Err(FrameStreamError::Proto(FrameProtocolError::ForbiddenFrame(ty)));
                },
                Err(FrameError::Settings(e)) => {
                    return Err(FrameStreamError::Proto(FrameProtocolError::Settings(e)));
                },
                Err(FrameError::Malformed) => {
                    return Err(FrameStreamError::Proto(FrameProtocolError::Malformed));
                },
                Err(FrameError::InvalidStreamId(id)) => {
                    return Err(FrameStreamError::Proto(FrameProtocolError::InvalidStreamId(id)));
                },
                Err(FrameError::InvalidPushId(id)) => {
                    return Err(FrameStreamError::Proto(FrameProtocolError::InvalidPushId(id)));
                },
                Err(FrameError::InvalidFrameValue) => {
                    return Err(FrameStreamError::Proto(FrameProtocolError::InvalidFrameValue));
                },
            }
        }
    }
}

/// Reading a frame whose header is `(ty, len)` at the front of the bytes:
/// the header is the first `hdr` bytes, and an unknown type is skipped.
proof fn lemma_read_header(ty: u64, len: u64, rest: Seq<u8>, max: u64)
    requires
        ty <= varint::MAX_VALUE,
        len <= varint::MAX_VALUE,
    ensures
        ({
            let s = varint::spec_encode(ty) + varint::spec_encode(len) + rest;
            let hdr = varint::spec_size(ty) + varint::spec_size(len);
            &&& 0 < hdr <= s.len()
            &&& s.skip(hdr as int) == rest
            &&& ty == DATA ==> spec_read_frame(s, max) == (Ok::<StreamFrameModel, FrameError>(StreamFrameModel::Data(len)), hdr)
            &&& !spec_is_known(ty) && !spec_is_h2_only(ty) ==> spec_read_frame(s, max) == (
                Err::<StreamFrameModel, FrameError>(FrameError::SkipUnknown { ty, len }),
                hdr,
            )
        }),
{
    reveal(spec_read_frame);
    let e1 = varint::spec_encode(ty);
    let e2 = varint::spec_encode(len);
    let s = e1 + e2 + rest;
    varint::lemma_encode_decode(ty, e2 + rest);
    varint::lemma_encode_decode(len, rest);
    assert(s =~= e1 + (e2 + rest));
    let n1 = varint::spec_size(ty);
    assert(s.skip(n1 as int) =~= e2 + rest);
    let hdr = n1 + varint::spec_size(len);
    assert(s.skip(hdr as int) =~= rest);
}

/// Reading a buffered frame of a known, non-DATA type `ty` whose payload
/// `p` is all there: the payload is read, and the frame takes up the header
/// and the payload.
proof fn lemma_read_buffered(ty: u64, p: Seq<u8>, rest: Seq<u8>, max: u64)
    requires
        ty <= varint::MAX_VALUE,
        spec_is_known(ty),
        ty != DATA,
        p.len() <= max,
        p.len() <= varint::MAX_VALUE,
    ensures
        ({
            let s = varint::spec_encode(ty) + varint::spec_encode(p.len() as u64) + p + rest;
            let hdr = varint::spec_size(ty) + varint::spec_size(p.len() as u64);
            spec_read_frame(s, max) == match spec_read_payload(ty, p) {
                Ok(f) => (Ok::<StreamFrameModel, FrameError>(f), hdr + p.len()),
                Err(e) => (Err::<StreamFrameModel, FrameError>(e), 0nat),
            }
        }),
{
    reveal(spec_read_frame);
    let e1 = varint::spec_encode(ty);
    let e2 = varint::spec_encode(p.len() as u64);
    let s = e1 + e2 + p + rest;
    varint::lemma_encode_decode(ty, e2 + p + rest);
    varint::lemma_encode_decode(p.len() as u64, p + rest);
    assert(s =~= e1 + (e2 + p + rest));
    let n1 = varint::spec_size(ty);
    assert(s.skip(n1 as int) =~= e2 + (p + rest));
    let hdr = n1 + varint::spec_size(p.len() as u64);
    assert(s.subrange(hdr as int, (hdr + p.len()) as int) =~= p);
    assert(!spec_is_h2_only(ty));
}

/// A frame that carries one identifier reads back as the frame of its type:
/// the bytes of a CANCEL_PUSH (type 0x3), GOAWAY (type 0x7) or MAX_PUSH_ID
/// (type 0xd) frame whose payload is the identifier `id` read as that frame
/// with `id`, taking up the whole frame, whatever follows.
pub proof fn lemma_read_id_frames(id: u64, rest: Seq<u8>, max: u64)
    requires
        id <= varint::MAX_VALUE,
        varint::spec_size(id) <= max,
    ensures
        ({
            let p = varint::spec_encode(id);
            let len = varint::spec_encode(varint::spec_size(id) as u64);
            let n = 2 + varint::spec_size(id);
            &&& spec_read_frame(seq![0x03u8] + len + p + rest, max) == (
                Ok::<StreamFrameModel, FrameError>(StreamFrameModel::CancelPush(id)),
                n,
            )
            &&& spec_read_frame(seq![0x07u8] + len + p + rest, max) == (
                Ok::<StreamFrameModel, FrameError>(StreamFrameModel::Goaway(id)),
                n,
            )
            &&& spec_read_frame(seq![0x0du8] + len + p + rest, max) == (
                Ok::<StreamFrameModel, FrameError>(StreamFrameModel::MaxPushId(id)),
                n,
            )
        }),
{
    let p = varint::spec_encode(id);
    varint::lemma_encode_decode(id, Seq::empty());
    assert(p + Seq::<u8>::empty() =~= p);
    assert(varint::spec_encode(3) =~= seq![0x03u8]);
    assert(varint::spec_encode(7) =~= seq![0x07u8]);
    assert(varint::spec_encode(13) =~= seq![0x0du8]);
    lemma_read_buffered(CANCEL_PUSH, p, rest, max);
    lemma_read_buffered(GOAWAY, p, rest, max);
    lemma_read_buffered(MAX_PUSH_ID, p, rest, max);
}

/// A PUSH_PROMISE frame (type 0x5) reads back as its push identifier and
/// encoded field section, taking up the whole frame, whatever follows.
pub proof fn lemma_read_push_promise_frame(id: u64, p: Seq<u8>, rest: Seq<u8>, max: u64)
    requires
        id <= varint::MAX_VALUE,
        varint::spec_size(id) + p.len() <= max,
        varint::spec_size(id) + p.len() <= varint::MAX_VALUE,
    ensures
        ({
            let payload = varint::spec_encode(id) + p;
            let len = varint::spec_encode(payload.len() as u64);
            spec_read_frame(seq![0x05u8] + len + payload + rest, max) == (
                Ok::<StreamFrameModel, FrameError>(StreamFrameModel::PushPromise(id, p)),
                1 + varint::spec_size(payload.len() as u64) + payload.len(),
            )
        }),
{
    let payload = varint::spec_encode(id) + p;
    varint::lemma_encode_decode(id, p);
    assert(varint::spec_encode(5) =~= seq![0x05u8]);
    assert(payload.skip(varint::spec_size(id) as int) =~= p);
    lemma_read_buffered(PUSH_PROMISE, payload, rest, max);
}

/// A HEADERS frame (type 0x1) reads back as its encoded field section,
/// taking up the whole frame, whatever follows.
pub proof fn lemma_read_headers_frame(p: Seq<u8>, rest: Seq<u8>, max: u64)
    requires
        p.len() <= max,
        p.len() <= varint::MAX_VALUE,
    ensures
        ({
            let len = varint::spec_encode(p.len() as u64);
            spec_read_frame(seq![0x01u8] + len + p + rest, max) == (
                Ok::<StreamFrameModel, FrameError>(StreamFrameModel::Headers(p)),
                1 + varint::spec_size(p.len() as u64) + p.len(),
            )
        }),
{
    assert(varint::spec_encode(1) =~= seq![0x01u8]);
    lemma_read_buffered(HEADERS, p, rest, max);
}

impl FrameDecoder {
    /// The bookkeeping that `with` sets is what the decoder then holds.
    pub proof fn lemma_with(self, e: Option<usize>, k: u64)
        ensures
            self.with(e, k).expected() == e,
            self.with(e, k).skipping() == k,
            self.with(e, k).max_buffered() == self.max_buffered(),
            self.expected() is None && self.skipping() == 0 ==> self.with(None, 0) == self,
    {
    }

    /// Discarding an unknown payload: with `k` bytes still to discard, fewer
    /// than `k` bytes received are all consumed and `k` minus them are left;
    /// otherwise the `k` bytes are dropped and decoding goes on after them
    /// in the same call.
    pub proof fn lemma_skip(self, s: Seq<u8>)
        requires
            self.skipping() > 0,
        ensures
            s.len() < self.skipping() ==> self.spec_decode(s) == (
                DecodeOutcome::NeedMore,
                self.with(self.expected(), (self.skipping() - s.len()) as u64),
                s.len(),
            ),
            s.len() >= self.skipping() ==> self.spec_decode(s) == ({
                let (o, d, n) = self.with(self.expected(), 0).spec_decode(s.skip(self.skipping() as int));
                (o, d, (n + self.skipping()) as nat)
            }),
    {
        if s.len() == 0 {
            assert(self.with(self.expected(), self.skipping()) == self);
        }
    }

    /// An unknown frame (neither known nor forbidden) at the front of `s`,
    /// read by a decoder in between frames: its header is consumed, and its
    /// payload is discarded as far as it is there. When part of the payload
    /// is missing, everything is consumed and the rest is left to discard;
    /// when it is all there, decoding goes on after it in the same call.
    pub proof fn lemma_unknown_frame(self, ty: u64, len: u64, rest: Seq<u8>)
        requires
            self.expected() is None,
            self.skipping() == 0,
            ty <= varint::MAX_VALUE,
            len <= varint::MAX_VALUE,
            !spec_is_known(ty),
            !spec_is_h2_only(ty),
        ensures
            ({
                let s = varint::spec_encode(ty) + varint::spec_encode(len) + rest;
                let hdr = varint::spec_size(ty) + varint::spec_size(len);
                &&& rest.len() < len ==> self.spec_decode(s) == (
                    DecodeOutcome::NeedMore,
                    self.with(None, (len - rest.len()) as u64),
                    s.len(),
                )
                &&& rest.len() >= len ==> self.spec_decode(s) == ({
                    let (o, d, n) = self.spec_decode(rest.skip(len as int));
                    (o, d, (n + hdr + len) as nat)
                })
            }),
    {
        let s = varint::spec_encode(ty) + varint::spec_encode(len) + rest;
        let hdr = varint::spec_size(ty) + varint::spec_size(len);
        lemma_read_header(ty, len, rest, self.max_buffered());
        let d = self.with(None, len);
        if len == 0 {
            assert(d == self);
            assert(rest.skip(0) =~= rest);
        } else {
            d.lemma_skip(rest);
            if rest.len() >= len {
                assert(d.with(None, 0) == self);
            }
        }
    }

    /// A DATA frame header at the front of `s`, read by a decoder in between
    /// frames: the header is consumed and the frame is returned with its
    /// payload length; the payload is left to the caller.
    pub proof fn lemma_data_header(self, len: u64, rest: Seq<u8>)
        requires
            self.expected() is None,
            self.skipping() == 0,
            len <= varint::MAX_VALUE,
        ensures
            self.spec_decode(varint::spec_encode(DATA) + varint::spec_encode(len) + rest) == (
                DecodeOutcome::Frame(StreamFrameModel::Data(len)),
                self,
                varint::spec_size(DATA) + varint::spec_size(len),
            ),
    {
        lemma_read_header(DATA, len, rest, self.max_buffered());
        assert(self.with(None, 0) == self);
    }
}

impl FrameDecoder {
    /// Ignoring an unknown frame retains nothing: whenever a call of `decode`
    /// leaves payload bytes of an unknown frame still to discard, it has
    /// consumed every received byte. A frame refused as too large also
    /// releases every received byte.
    pub proof fn lemma_skipping_retains_nothing(self, s: Seq<u8>)
        ensures
            ({
                let (out, d, n) = self.spec_decode(s);
                &&& n <= s.len()
                &&& d.skipping() > 0 ==> n == s.len()
                &&& d.max_buffered() == self.max_buffered()
                &&& out matches DecodeOutcome::Failed(FrameStreamError::PayloadTooLarge { .. })
                    ==> n == s.len()
            }),
        decreases s.len(),
    {
        reveal(spec_read_frame);
        if s.len() == 0 {
        } else if self.skipping() > 0 {
            let discard = spec_min(self.skipping(), s.len());
            let d = self.with(self.expected(), (self.skipping() - discard) as u64);
            if d.skipping() > 0 {
            } else {
                d.lemma_skipping_retains_nothing(s.skip(discard as int));
            }
        } else if self.expected() matches Some(min) && s.len() < min {
        } else {
            match spec_read_frame(s, self.max_buffered()) {
                (Err(FrameError::SkipUnknown { ty, len }), n) => {
                    if 0 < n <= s.len() {
                        self.with(None, len).lemma_skipping_retains_nothing(s.skip(n as int));
                    } else {
                        varint::lemma_decode_bounds(s);
                    }
                },
                (Ok(f), n) => {
                    varint::lemma_decode_bounds(s);
                    if let Some((ty, n1)) = varint::spec_decode(s) {
                        varint::lemma_decode_bounds(s.skip(n1 as int));
                    }
                },
                _ => {},
            }
        }
    }
}
/// Reading a frame only looks at the bytes it needs: once the bytes present
/// settle the outcome (anything but `Incomplete`), bytes after them change
/// nothing.
proof fn lemma_read_frame_prefix(s: Seq<u8>, x: Seq<u8>, max: u64)
    requires
        !(spec_read_frame(s, max).0 matches Err(FrameError::Incomplete(_))),
    ensures
        spec_read_frame(s + x, max) == spec_read_frame(s, max),
{
    reveal(spec_read_frame);
    let (ty, n1) = varint::spec_decode(s).unwrap();
    varint::lemma_decode_prefix(s, x);
    varint::lemma_decode_bounds(s);
    assert((s + x).skip(n1 as int) =~= s.skip(n1 as int) + x);
    let (len, n2) = varint::spec_decode(s.skip(n1 as int)).unwrap();
    varint::lemma_decode_prefix(s.skip(n1 as int), x);
    varint::lemma_decode_bounds(s.skip(n1 as int));
    let hdr = n1 + n2;
    if hdr + len <= s.len() {
        assert((s + x).subrange(hdr as int, hdr + len) =~= s.subrange(hdr as int, hdr + len));
    }
}

/// How many bytes reading a frame takes up: at most all of them, at least
/// one for a frame or an unknown frame's header, none on the other errors.
proof fn lemma_read_frame_len(s: Seq<u8>, max: u64)
    ensures
        spec_read_frame(s, max).1 <= s.len(),
        spec_read_frame(s, max).0 is Ok ==> spec_read_frame(s, max).1 > 0,
        spec_read_frame(s, max).0 matches Err(FrameError::SkipUnknown { .. }) ==> spec_read_frame(s, max).1 > 0,
        spec_read_frame(s, max).0 matches Err(e) && !(e is SkipUnknown) ==> spec_read_frame(s, max).1 == 0,
{
    reveal(spec_read_frame);
    varint::lemma_decode_bounds(s);
    if let Some((ty, n1)) = varint::spec_decode(s) {
        varint::lemma_decode_bounds(s.skip(n1 as int));
    }
}

/// A frame found incomplete stays incomplete while fewer bytes than the
/// announced minimum are there.
proof fn lemma_read_frame_incomplete(s: Seq<u8>, x: Seq<u8>, max: u64)
    requires
        spec_read_frame(s, max).0 matches Err(FrameError::Incomplete(min)) && (s + x).len() < min,
    ensures
        spec_read_frame(s + x, max).0 matches Err(FrameError::Incomplete(_)),
{
    reveal(spec_read_frame);
    let min = spec_read_frame(s, max).0->Err_0->Incomplete_0;
    match varint::spec_decode(s) {
        None => {
            assert(x.len() == 0);
            assert(s + x =~= s);
        },
        Some((ty, n1)) => {
            varint::lemma_decode_prefix(s, x);
            varint::lemma_decode_bounds(s);
            assert((s + x).skip(n1 as int) =~= s.skip(n1 as int) + x);
            match varint::spec_decode(s.skip(n1 as int)) {
                None => {
                    assert(x.len() == 0);
                    assert(s + x =~= s);
                },
                Some((len, n2)) => {
                    varint::lemma_decode_prefix(s.skip(n1 as int), x);
                    varint::lemma_decode_bounds(s.skip(n1 as int));
                },
            }
        },
    }
}

impl FrameDecoder {
    /// The decoder's bookkeeping agrees with the bytes `b` it holds: while it
    /// discards an unknown payload it waits for no frame, and when it waits
    /// for `min` bytes no frame can be read from `b` and fewer than `min`
    /// bytes after it.
    pub open spec fn spec_consistent(self, b: Seq<u8>) -> bool {
        &&& self.skipping() > 0 ==> self.expected() is None
        &&& self.expected() matches Some(min) ==> forall|x: Seq<u8>|
            #![trigger spec_read_frame(b + x, self.max_buffered())]
            (b + x).len() < min ==> spec_read_frame(b + x, self.max_buffered()).0 matches Err(
                FrameError::Incomplete(_),
            )
    }

    proof fn lemma_expected_irrelevant(self, e: FrameDecoder, s: Seq<u8>)
        requires
            self.skipping() == 0,
            e == self.with(e.expected(), 0),
            s.len() > 0,
            !(self.expected() matches Some(min) && s.len() < min),
            !(e.expected() matches Some(min) && s.len() < min),
        ensures
            self.spec_decode(s).0 == e.spec_decode(s).0,
            self.spec_decode(s).2 == e.spec_decode(s).2,
            self.spec_decode(s).1.skipping() == e.spec_decode(s).1.skipping(),
    {
        assert(e.max_buffered() == self.max_buffered());
        assert(self.with(None, 0) == e.with(None, 0));
        match spec_read_frame(s, self.max_buffered()) {
            (Err(FrameError::SkipUnknown { ty, len }), n) => {
                assert(self.with(None, len) == e.with(None, len));
            },
            _ => {},
        }
    }

    /// What `lemma_decode_concat` states of `s1` and `s2`.
    pub open spec fn spec_concat_holds(self, s1: Seq<u8>, s2: Seq<u8>) -> bool {
        let (o1, d1, n1) = self.spec_decode(s1);
        let (o, d, n) = self.spec_decode(s1 + s2);
        &&& n1 <= s1.len()
        &&& d1.spec_consistent(s1.skip(n1 as int))
        &&& match o1 {
            DecodeOutcome::NeedMore => {
                let (o2, d2, n2) = d1.spec_decode(s1.skip(n1 as int) + s2);
                &&& o2 == o
                &&& n1 + n2 == n
                &&& d2.skipping() == d.skipping()
            },
            DecodeOutcome::Frame(_) => o == o1 && n == n1 && d == d1,
            DecodeOutcome::Failed(_) => o == o1,
        }
    }

    /// Bytes may arrive in any pieces: when the bytes `s1` leave the
    /// decoder waiting for more, going on with the bytes `s2` that follow
    /// gives the outcome, and consumes in all, what decoding `s1 + s2` at
    /// once would; a frame or an error found within `s1` is found the same
    /// in `s1 + s2`. The decoder stays consistent with the bytes it keeps.
    pub proof fn lemma_decode_concat(self, s1: Seq<u8>, s2: Seq<u8>)
        requires
            self.spec_consistent(s1),
        ensures
            self.spec_concat_holds(s1, s2),
        decreases s1.len(), 1nat,
    {
        self.lemma_skipping_retains_nothing(s1);
        if s1.len() == 0 {
            assert(s1.skip(0) =~= s1);
            assert(s1 + s2 =~= s2);
        } else if self.skipping() > 0 {
            self.lemma_concat_skipping(s1, s2);
        } else if self.expected() matches Some(min) && s1.len() < min {
            assert(s1.skip(0) =~= s1);
        } else {
            self.lemma_concat_read(s1, s2);
        }
    }

    proof fn lemma_concat_skipping(self, s1: Seq<u8>, s2: Seq<u8>)
        requires
            self.spec_consistent(s1),
            s1.len() > 0,
            self.skipping() > 0,
        ensures
            self.spec_concat_holds(s1, s2),
        decreases s1.len(), 0nat,
    {
        self.lemma_skipping_retains_nothing(s1);
        let discard = spec_min(self.skipping(), s1.len());
        let d = self.with(self.expected(), (self.skipping() - discard) as u64);
        if d.skipping() > 0 {
            assert(s1.skip(s1.len() as int) + s2 =~= s2);
            if s2.len() > 0 {
                let k = spec_min(d.skipping(), s2.len());
                assert(spec_min(self.skipping(), (s1 + s2).len()) == s1.len() + k);
                assert((s1 + s2).skip((s1.len() + k) as int) =~= s2.skip(k as int));
                assert(d.with(d.expected(), (d.skipping() - k) as u64) == self.with(
                    self.expected(),
                    (self.skipping() - (s1.len() + k)) as u64,
                ));
            } else {
                assert(s1 + s2 =~= s1);
            }
        } else {
            assert(spec_min(self.skipping(), (s1 + s2).len()) == discard);
            assert((s1 + s2).skip(discard as int) =~= s1.skip(discard as int) + s2);
            d.lemma_decode_concat(s1.skip(discard as int), s2);
            let (o, d2, n) = d.spec_decode(s1.skip(discard as int));
            assert(s1.skip(discard as int).skip(n as int) =~= s1.skip((n + discard) as int));
        }
    }

    proof fn lemma_concat_read(self, s1: Seq<u8>, s2: Seq<u8>)
        requires
            self.spec_consistent(s1),
            s1.len() > 0,
            self.skipping() == 0,
            !(self.expected() matches Some(min) && s1.len() < min),
        ensures
            self.spec_concat_holds(s1, s2),
        decreases s1.len(), 0nat,
    {
        let max = self.max_buffered();
        self.lemma_skipping_retains_nothing(s1);
        assert(!(self.expected() matches Some(min) && (s1 + s2).len() < min));
        match spec_read_frame(s1, max) {
            (Err(FrameError::Incomplete(min)), _) => {
                let d1 = self.with(Some(min), 0);
                assert(s1.skip(0) =~= s1);
                assert forall|x: Seq<u8>| #![trigger spec_read_frame(s1 + x, max)]
                    (s1 + x).len() < min implies spec_read_frame(s1 + x, max).0 matches Err(
                        FrameError::Incomplete(_),
                    ) by {
                    lemma_read_frame_incomplete(s1, x, max);
                }
                assert(d1.spec_consistent(s1));
                if (s1 + s2).len() < min {
                    lemma_read_frame_incomplete(s1, s2, max);
                } else {
                    self.lemma_expected_irrelevant(d1, s1 + s2);
                }
            },
            (Err(FrameError::SkipUnknown { ty, len }), n) => {
                lemma_read_frame_prefix(s1, s2, max);
                lemma_read_frame_len(s1, max);
                assert(0 < n <= s1.len());
                assert((s1 + s2).skip(n as int) =~= s1.skip(n as int) + s2);
                let e = self.with(None, len);
                e.lemma_decode_concat(s1.skip(n as int), s2);
                let (o, d2, m) = e.spec_decode(s1.skip(n as int));
                assert(s1.skip(n as int).skip(m as int) =~= s1.skip((m + n) as int));
            },
            (r, n) => {
                lemma_read_frame_prefix(s1, s2, max);
                lemma_read_frame_len(s1, max);
                if r matches Err(FrameError::TooLarge { .. }) {
                    assert(s1.skip(s1.len() as int) =~= Seq::<u8>::empty());
                } else if r is Err {
                    assert(s1.skip(0) =~= s1);
                }
            },
        }
    }

    /// Decoding keeps the decoder consistent with the bytes it keeps, and a
    /// decoder waiting for no frame is consistent with any bytes.
    pub proof fn lemma_decode_keeps_consistent(self, s: Seq<u8>)
        ensures
            self.expected() is None && self.skipping() == 0 ==> self.spec_consistent(s),
            self.spec_consistent(s) ==> ({
                let (o, d, n) = self.spec_decode(s);
                d.spec_consistent(s.skip(n as int))
            }),
    {
        if self.spec_consistent(s) {
            self.lemma_decode_concat(s, Seq::empty());
        }
    }

    /// New bytes after those held keep the decoder consistent.
    pub proof fn lemma_consistent_extend(self, b: Seq<u8>, y: Seq<u8>)
        requires
            self.spec_consistent(b),
        ensures
            self.spec_consistent(b + y),
    {
        if let Some(min) = self.expected() {
            assert forall|x: Seq<u8>| #![trigger spec_read_frame((b + y) + x, self.max_buffered())]
                ((b + y) + x).len() < min implies spec_read_frame((b + y) + x, self.max_buffered()).0 matches Err(
                    FrameError::Incomplete(_),
                ) by {
                assert((b + y) + x =~= b + (y + x));
                assert(spec_read_frame(b + (y + x), self.max_buffered()).0 matches Err(FrameError::Incomplete(_)));
            }
        }
    }
}

/// Errors of reading a stream of frames: a frame that breaks the protocol,
/// or the transport failing, described by its message.
#[derive(Debug, PartialEq)]
pub enum Error {
    /// A frame broke the protocol
    Proto(crate::proto::frame::Error),
    /// The transport failed
    Io(String),
}

/// The code a frame-reading error closes the connection with.
pub open spec fn spec_error_code(e: Error) -> u32 {
    match e {
        Error::Io(_) => crate::proto::error::GENERAL_PROTOCOL_ERROR,
        Error::Proto(crate::proto::frame::Error::Settings(_)) => crate::proto::error::SETTINGS_ERROR,
        Error::Proto(crate::proto::frame::Error::UnsupportedFrame(_)) => crate::proto::error::FRAME_UNEXPECTED,
        Error::Proto(_) => crate::proto::error::FRAME_ERROR,
    }
}

impl Error {
    /// The code the error closes the connection with.
    pub fn code(&self) -> (c: crate::proto::error::ErrorCode)
        ensures
            c.0 == spec_error_code(*self),
    {
        match self {
            Error::Io(_) => crate::proto::error::ErrorCode(crate::proto::error::GENERAL_PROTOCOL_ERROR),
            Error::Proto(crate::proto::frame::Error::Settings(_)) => crate::proto::error::ErrorCode(
                crate::proto::error::SETTINGS_ERROR,
            ),
            Error::Proto(crate::proto::frame::Error::UnsupportedFrame(_)) => crate::proto::error::ErrorCode(
                crate::proto::error::FRAME_UNEXPECTED,
            ),
            Error::Proto(_) => crate::proto::error::ErrorCode(crate::proto::error::FRAME_ERROR),
        }
    }
}

} // verus!
