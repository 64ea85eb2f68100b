//! HTTP/3 frames (RFC 9114 section 7): decoding a whole frame from a buffer
//! and encoding one.
use vstd::prelude::*;
use crate::varint;
use crate::text::{push_decimal, push_str, spec_decimal};
use crate::proto::settings::{QPACK_MAX_TABLE_CAPACITY, MAX_HEADER_LIST_SIZE, QPACK_MAX_BLOCKED_STREAMS};

verus! {

/// DATA frame type.
pub const DATA: u64 = 0x0;
/// HEADERS frame type.
pub const HEADERS: u64 = 0x1;
/// HTTP/2 PRIORITY, forbidden in HTTP/3.
pub const H2_PRIORITY: u64 = 0x2;
/// CANCEL_PUSH frame type.
pub const CANCEL_PUSH: u64 = 0x3;
/// SETTINGS frame type.
pub const SETTINGS: u64 = 0x4;
/// PUSH_PROMISE frame type.
pub const PUSH_PROMISE: u64 = 0x5;
/// HTTP/2 PING, forbidden in HTTP/3.
pub const H2_PING: u64 = 0x6;
/// GOAWAY frame type.
pub const GOAWAY: u64 = 0x7;
/// HTTP/2 WINDOW_UPDATE, forbidden in HTTP/3.
pub const H2_WINDOW_UPDATE: u64 = 0x8;
/// HTTP/2 CONTINUATION, forbidden in HTTP/3.
pub const H2_CONTINUATION: u64 = 0x9;
/// MAX_PUSH_ID frame type.
pub const MAX_PUSH_ID: u64 = 0xD;
/// DUPLICATE_PUSH frame type.
pub const DUPLICATE_PUSH: u64 = 0xE;

/// Frame types of HTTP/2 that HTTP/3 forbids.
pub open spec fn spec_is_h2_only(ty: u64) -> bool {
    ty == H2_PRIORITY || ty == H2_PING || ty == H2_WINDOW_UPDATE || ty == H2_CONTINUATION
}

/// Reserved (GREASE) frame types: `0x1f * N + 0x21`.
pub open spec fn spec_is_reserved(ty: u64) -> bool {
    ty > 0x21 && (ty - 0x21) % 0x1f == 0
}

/// Whether `ty` is a GREASE frame type.
pub fn is_reserved(ty: u64) -> (b: bool)
    ensures
        b == spec_is_reserved(ty),
{
    ty > 0x21 && (ty - 0x21) % 0x1f == 0
}

/// Errors of frame decoding.
#[derive(Debug, PartialEq)]
pub enum Error {
    /// The payload does not have the form its type calls for.
    Malformed,
    /// Known frames that should generate an error.
    UnsupportedFrame(u64),
    /// Unknown frames that should be ignored.
    UnknownFrame(u64),
    /// The payload ended inside a field.
    UnexpectedEnd,
    /// A field holds a value that is not allowed.
    InvalidFrameValue,
    /// A setting identifier that is not allowed.
    InvalidSettingId(u64),
    /// A setting value that is not allowed.
    InvalidSettingValue(SettingId, u64),
    /// A setting identifier occurred twice.
    SettingRepeated(SettingId),
    /// More settings than the frame holds.
    SettingsExceeded,
    /// At least this many bytes are needed before the frame can be read.
    Incomplete(usize),
    /// A DATA frame whose payload has not fully arrived.
    IncompleteData,
    /// Other settings error.
    Settings(String),
}

/// A setting identifier.
#[derive(Copy, Clone, PartialEq, Eq, Debug, Hash)]
pub struct SettingId(pub u64);

/// The setting identifiers the SETTINGS frame keeps.
pub open spec fn spec_setting_supported(id: u64) -> bool {
    id == MAX_HEADER_LIST_SIZE || id == QPACK_MAX_TABLE_CAPACITY || id == QPACK_MAX_BLOCKED_STREAMS
}

impl SettingId {
    /// Whether this identifier is one the SETTINGS frame keeps.
    pub fn is_supported(self) -> (b: bool)
        ensures
            b == spec_setting_supported(self.0),
    {
        self.0 == MAX_HEADER_LIST_SIZE || self.0 == QPACK_MAX_TABLE_CAPACITY || self.0
            == QPACK_MAX_BLOCKED_STREAMS
    }
}

/// Errors of the SETTINGS frame.
#[derive(Debug, PartialEq, Eq)]
pub enum SettingsError {
    /// More than three settings.
    Exceeded,
    /// The payload does not split into identifier/value pairs.
    Malformed,
    /// The same identifier occurred twice.
    Repeated(SettingId),
    /// An identifier that is not allowed.
    InvalidSettingId(u64),
    /// A value that is not allowed.
    InvalidSettingValue(SettingId, u64),
}

/// The frame error that a SETTINGS error becomes.
pub open spec fn spec_settings_error(e: SettingsError) -> Error {
    match e {
        SettingsError::Exceeded => Error::SettingsExceeded,
        SettingsError::Malformed => Error::Malformed,
        SettingsError::Repeated(i) => Error::SettingRepeated(i),
        SettingsError::InvalidSettingId(i) => Error::InvalidSettingId(i),
        SettingsError::InvalidSettingValue(i, v) => Error::InvalidSettingValue(i, v),
    }
}

/// Converts a SETTINGS error into the frame error.
pub fn settings_error(e: SettingsError) -> (r: Error)
    ensures
        r == spec_settings_error(e),
{
    match e {
        SettingsError::Exceeded => Error::SettingsExceeded,
        SettingsError::Malformed => Error::Malformed,
        SettingsError::Repeated(i) => Error::SettingRepeated(i),
        SettingsError::InvalidSettingId(i) => Error::InvalidSettingId(i),
        SettingsError::InvalidSettingValue(i, v) => Error::InvalidSettingValue(i, v),
    }
}

/// Adding `(id, value)` to the SETTINGS frame entries.
pub open spec fn spec_settings_insert(entries: Seq<(u64, u64)>, id: u64, value: u64) -> Result<
    Seq<(u64, u64)>,
    SettingsError,
> {
    if entries.len() >= 3 {
        Err(SettingsError::Exceeded)
    } else if !spec_setting_supported(id) {
        Ok(entries)
    } else if exists|i: int| 0 <= i < entries.len() && #[trigger] entries[i].0 == id {
        Err(SettingsError::Repeated(SettingId(id)))
    } else {
        Ok(entries.push((id, value)))
    }
}

/// Reading a SETTINGS frame payload `s` on top of `acc`.
pub open spec fn spec_settings_decode_from(s: Seq<u8>, acc: Seq<(u64, u64)>) -> Result<
    Seq<(u64, u64)>,
    SettingsError,
>
    decreases s.len(),
{
    if s.len() == 0 {
        Ok(acc)
    } else if s.len() < 2 {
        Err(SettingsError::Malformed)
    } else {
        match varint::spec_decode(s) {
            None => Err(SettingsError::Malformed),
            Some((id, n1)) => match varint::spec_decode(s.skip(n1 as int)) {
                None => Err(SettingsError::Malformed),
                Some((val, n2)) => {
                    let rest = s.skip(n1 as int).skip(n2 as int);
                    if spec_setting_supported(id) {
                        match spec_settings_insert(acc, id, val) {
                            Err(e) => Err(e),
                            Ok(acc2) => spec_settings_decode_from(rest, acc2),
                        }
                    } else {
                        spec_settings_decode_from(rest, acc)
                    }
                },
            },
        }
    }
}

/// A SETTINGS frame: up to three known settings.
#[derive(Debug, PartialEq)]
pub struct SettingsFrame {
    entries: [(SettingId, u64); 3],
    len: usize,
}

impl View for SettingsFrame {
    type V = Seq<(u64, u64)>;

    closed spec fn view(&self) -> Seq<(u64, u64)> {
        Seq::new(self.len as nat, |i: int| (self.entries@[i].0.0, self.entries@[i].1))
    }
}

impl SettingsFrame {
    #[verifier::type_invariant]
    closed spec fn wf(self) -> bool {
        self.len <= 3
    }

    /// No settings.
    pub fn default() -> (s: Self)
        ensures
            s@ == Seq::<(u64, u64)>::empty(),
    {
        let s = SettingsFrame { entries: [(SettingId(0), 0), (SettingId(0), 0), (SettingId(0), 0)], len: 0 };
        assert(s@ =~= Seq::<(u64, u64)>::empty());
        s
    }

    /// Records `(id, value)`: full frames refuse, unknown identifiers are
    /// ignored, a repeated identifier is refused.
    pub fn insert(&mut self, id: SettingId, value: u64) -> (r: Result<(), SettingsError>)
        ensures
            match spec_settings_insert(old(self)@, id.0, value) {
                Ok(entries) => r is Ok && final(self)@ == entries,
                Err(e) => r == Err::<(), SettingsError>(e) && final(self)@ == old(self)@,
            },
    {
        proof {
            use_type_invariant(&*self);
        }
        if self.len >= 3 {
            return Err(SettingsError::Exceeded);
        }
        if !id.is_supported() {
            return Ok(());
        }
        let mut i: usize = 0;
        while i < self.len
            invariant
                i <= self.len < 3,
                *self == *old(self),
                spec_setting_supported(id.0),
                forall|k: int| 0 <= k < i ==> self@[k].0 != id.0,
            decreases self.len - i,
        {
            if self.entries[i].0.0 == id.0 {
                assert(old(self)@[i as int].0 == id.0);
                assert(id == SettingId(id.0));
                return Err(SettingsError::Repeated(id));
            }
            i = i + 1;
        }
        let ghost before = self@;
        let len = self.len;
        self.entries[len] = (id, value);
        self.len = len + 1;
        assert(self@ =~= before.push((id.0, value)));
        Ok(())
    }
}


/// Identifier/value pairs as written in a SETTINGS payload.
pub open spec fn spec_settings_payload(entries: Seq<(u64, u64)>) -> Seq<u8> {
    crate::proto::settings::spec_payload(entries)
}

/// A frame header: type then payload length.
pub open spec fn spec_header(ty: u64, len: u64) -> Seq<u8> {
    varint::spec_encode(ty) + varint::spec_encode(len)
}

/// Every identifier and value fits in a variable-length integer.
pub open spec fn spec_settings_fit(entries: Seq<(u64, u64)>) -> bool {
    crate::proto::settings::spec_all_fit(entries)
}

impl SettingsFrame {
    /// Reads a SETTINGS payload (the whole of `buf`).
    pub fn decode(buf: &[u8]) -> (r: Result<SettingsFrame, SettingsError>)
        ensures
            match spec_settings_decode_from(buf@, Seq::empty()) {
                Ok(entries) => r matches Ok(s) && s@ == entries,
                Err(e) => r == Err::<SettingsFrame, SettingsError>(e),
            },
    {
        let mut settings = SettingsFrame::default();
        let mut pos: usize = 0;
        assert(buf@.skip(0) =~= buf@);
        while pos < buf.len()
            invariant
                pos <= buf@.len(),
                spec_settings_decode_from(buf@, Seq::empty()) == spec_settings_decode_from(
                    buf@.skip(pos as int),
                    settings@,
                ),
            decreases buf@.len() - pos,
        {
            let ghost s = buf@.skip(pos as int);
            if buf.len() - pos < 2 {
                return Err(SettingsError::Malformed);
            }
            let (id, p1) = match varint::decode(buf, pos) {
                Ok(x) => x,
                Err(_) => return Err(SettingsError::Malformed),
            };
            assert(buf@.skip(p1 as int) =~= s.skip((p1 - pos) as int));
            let (val, p2) = match varint::decode(buf, p1) {
                Ok(x) => x,
                Err(_) => return Err(SettingsError::Malformed),
            };
            assert(buf@.skip(p2 as int) =~= s.skip((p1 - pos) as int).skip((p2 - p1) as int));
            let identifier = SettingId(id);
            if identifier.is_supported() {
                match settings.insert(identifier, val) {
                    Ok(()) => {},
                    Err(e) => return Err(e),
                }
            }
            pos = p2;
        }
        assert(buf@.skip(pos as int) =~= Seq::<u8>::empty());
        Ok(settings)
    }

    /// Length of the payload `encode` writes.
    pub fn payload_len(&self) -> (n: usize)
        requires
            spec_settings_fit(self@),
        ensures
            n == spec_settings_payload(self@).len(),
    {
        proof {
            use_type_invariant(self);
        }
        let mut total: usize = 0;
        let mut i: usize = 0;
        while i < self.len
            invariant
                i <= self.len <= 3,
                spec_settings_fit(self@),
                total == spec_settings_payload(self@.take(i as int)).len(),
                total <= 16 * i,
            decreases self.len - i,
        {
            let (id, val) = self.entries[i];
            proof {
                assert(self@[i as int] == (id.0, val));
                assert(self@[i as int].0 == id.0 && self@[i as int].1 == val);
                assert(self@.take(i + 1).drop_last() =~= self@.take(i as int));
                varint::lemma_encode_decode(id.0, Seq::empty());
                varint::lemma_encode_decode(val, Seq::empty());
            }
            total = total + varint::size(id.0) + varint::size(val);
            i = i + 1;
        }
        assert(self@.take(self.len as int) =~= self@);
        total
    }

    /// Appends the SETTINGS frame: header then identifier/value pairs.
    pub fn encode(&self, buf: &mut Vec<u8>)
        requires
            spec_settings_fit(self@),
        ensures
            final(buf)@ == old(buf)@ + spec_header(SETTINGS, spec_settings_payload(self@).len() as u64)
                + spec_settings_payload(self@),
    {
        proof {
            use_type_invariant(self);
        }
        let len = self.payload_len();
        proof {
            crate::proto::settings::lemma_payload_len_bound(self@);
        }
        varint::encode(SETTINGS, buf);
        varint::encode(len as u64, buf);
        let ghost start = buf@;
        let mut i: usize = 0;
        assert(buf@ =~= start + spec_settings_payload(self@.take(0)));
        while i < self.len
            invariant
                i <= self.len <= 3,
                spec_settings_fit(self@),
                buf@ == start + spec_settings_payload(self@.take(i as int)),
            decreases self.len - i,
        {
            let (id, val) = self.entries[i];
            proof {
                assert(self@[i as int] == (id.0, val));
                assert(self@[i as int].0 == id.0 && self@[i as int].1 == val);
                assert(self@.take(i + 1).drop_last() =~= self@.take(i as int));
            }
            varint::encode(id.0, buf);
            varint::encode(val, buf);
            assert(buf@ =~= start + spec_settings_payload(self@.take(i + 1)));
            i = i + 1;
        }
        assert(self@.take(self.len as int) =~= self@);
        assert(buf@ =~= old(buf)@ + spec_header(SETTINGS, len as u64) + spec_settings_payload(self@));
    }
}

/// A DATA frame.
#[derive(Debug, PartialEq)]
pub struct DataFrame {
    /// The frame payload.
    pub payload: Vec<u8>,
}

/// A HEADERS frame: the QPACK-encoded field section.
#[derive(Debug, PartialEq)]
pub struct HeadersFrame {
    /// The encoded field section.
    pub encoded: Vec<u8>,
}

/// A PUSH_PROMISE frame.
#[derive(Debug, PartialEq)]
pub struct PushPromiseFrame {
    /// The push identifier.
    pub id: u64,
    /// The encoded field section.
    pub encoded: Vec<u8>,
}

/// An HTTP/3 frame.
#[derive(Debug, PartialEq)]
pub enum Frame {
    /// DATA
    Data(DataFrame),
    /// HEADERS
    Headers(HeadersFrame),
    /// CANCEL_PUSH with its push identifier
    CancelPush(u64),
    /// SETTINGS
    Settings(SettingsFrame),
    /// PUSH_PROMISE
    PushPromise(PushPromiseFrame),
    /// GOAWAY with its stream or push identifier
    Goaway(u64),
    /// MAX_PUSH_ID
    MaxPushId(u64),
    /// DUPLICATE_PUSH
    DuplicatePush(u64),
    /// A reserved (GREASE) frame, whose content means nothing
    Reserved,
}

/// The content of a frame, as plain values.
pub ghost enum FrameModel {
    Data(Seq<u8>),
    Headers(Seq<u8>),
    CancelPush(u64),
    Settings(Seq<(u64, u64)>),
    PushPromise(u64, Seq<u8>),
    Goaway(u64),
    MaxPushId(u64),
    DuplicatePush(u64),
    Reserved,
}

impl View for Frame {
    type V = FrameModel;

    open spec fn view(&self) -> FrameModel {
        match self {
            Frame::Data(f) => FrameModel::Data(f.payload@),
            Frame::Headers(f) => FrameModel::Headers(f.encoded@),
            Frame::CancelPush(id) => FrameModel::CancelPush(*id),
            Frame::Settings(f) => FrameModel::Settings(f@),
            Frame::PushPromise(f) => FrameModel::PushPromise(f.id, f.encoded@),
            Frame::Goaway(id) => FrameModel::Goaway(*id),
            Frame::MaxPushId(id) => FrameModel::MaxPushId(*id),
            Frame::DuplicatePush(id) => FrameModel::DuplicatePush(*id),
            Frame::Reserved => FrameModel::Reserved,
        }
    }
}

/// `a + b`, or `usize::MAX` when that does not fit.
pub open spec fn spec_sat_add(a: nat, b: nat) -> usize {
    if a + b <= usize::MAX {
        (a + b) as usize
    } else {
        usize::MAX
    }
}

/// What the payload `p` of a frame of type `ty` holds; `None` for reserved
/// and unknown types. Known types whose payload is only partly read consume
/// `p` only up to what they read.
pub open spec fn spec_decode_payload(ty: u64, p: Seq<u8>) -> Option<(Result<FrameModel, Error>, nat)> {
    if ty == DATA {
        Some((Ok(FrameModel::Data(p)), p.len()))
    } else if ty == HEADERS {
        Some((Ok(FrameModel::Headers(p)), p.len()))
    } else if ty == SETTINGS {
        match spec_settings_decode_from(p, Seq::empty()) {
            Ok(entries) => Some((Ok(FrameModel::Settings(entries)), p.len())),
            Err(e) => Some((Err(spec_settings_error(e)), 0)),
        }
    } else if ty == CANCEL_PUSH || ty == GOAWAY || ty == MAX_PUSH_ID || ty == DUPLICATE_PUSH {
        match varint::spec_decode(p) {
            None => Some((Err(Error::UnexpectedEnd), 0)),
            Some((v, n)) => Some((
                Ok(
                    if ty == CANCEL_PUSH {
                        FrameModel::CancelPush(v)
                    } else if ty == GOAWAY {
                        FrameModel::Goaway(v)
                    } else if ty == MAX_PUSH_ID {
                        FrameModel::MaxPushId(v)
                    } else {
                        FrameModel::DuplicatePush(v)
                    },
                ),
                n,
            )),
        }
    } else if ty == PUSH_PROMISE {
        match varint::spec_decode(p) {
            None => Some((Err(Error::UnexpectedEnd), 0)),
            Some((v, n)) => Some((Ok(FrameModel::PushPromise(v, p.skip(n as int))), p.len())),
        }
    } else if spec_is_h2_only(ty) {
        Some((Err(Error::UnsupportedFrame(ty)), 0))
    } else {
        None
    }
}

/// Reading one frame from the front of `s`: the outcome and how many bytes
/// it takes up. Errors other than an unknown frame take up nothing.
pub open spec fn spec_decode(s: Seq<u8>) -> (Result<FrameModel, Error>, nat) {
    match varint::spec_decode(s) {
        None => (Err(Error::Incomplete(spec_sat_add(s.len(), 1))), 0),
        Some((ty, n1)) => match varint::spec_decode(s.skip(n1 as int)) {
            None => (Err(Error::Incomplete(spec_sat_add(s.len(), 1))), 0),
            Some((len, n2)) => {
                let hdr = n1 + n2;
                if s.len() - hdr < len {
                    if ty == DATA {
                        (Err(Error::IncompleteData), 0)
                    } else {
                        (Err(Error::Incomplete(spec_sat_add(2, len as nat))), 0)
                    }
                } else {
                    let p = s.subrange(hdr as int, hdr + len);
                    match spec_decode_payload(ty, p) {
                        Some((Ok(f), n)) => (Ok(f), hdr + n),
                        Some((Err(e), _)) => (Err(e), 0),
                        None => if spec_is_reserved(ty) {
                            (Ok(FrameModel::Reserved), hdr + len as nat)
                        } else {
                            (Err(Error::UnknownFrame(ty)), hdr + len as nat)
                        },
                    }
                }
            },
        },
    }
}

impl Frame {
    /// Reads one frame from `buf` at `pos`. Returns the frame or the error and
    /// the position after what was read; on errors other than
    /// `UnknownFrame` the position stays at `pos`.
    pub fn decode(buf: &[u8], pos: usize) -> (r: (Result<Frame, Error>, usize))
        requires
            pos <= buf@.len(),
        ensures
            ({
                let (res, n) = spec_decode(buf@.skip(pos as int));
                &&& r.1 == pos + n
                &&& match res {
                    Ok(f) => r.0 matches Ok(g) && g@ == f,
                    Err(e) => r.0 == Err::<Frame, Error>(e),
                }
            }),
    {
        let ghost s = buf@.skip(pos as int);
        let remaining = buf.len() - pos;
        let (ty, p1) = match varint::decode(buf, pos) {
            Ok(x) => x,
            Err(_) => {
                let n = if remaining < usize::MAX { remaining + 1 } else { usize::MAX };
                return (Err(Error::Incomplete(n)), pos);
            },
        };
        assert(buf@.skip(p1 as int) =~= s.skip((p1 - pos) as int));
        let (len, p2) = match varint::decode(buf, p1) {
            Ok(x) => x,
            Err(_) => {
                let n = if remaining < usize::MAX { remaining + 1 } else { usize::MAX };
                return (Err(Error::Incomplete(n)), pos);
            },
        };
        let avail = buf.len() - p2;
        assert(s.len() - (p2 - pos) == avail);
        if (avail as u64) < len {
            if ty == DATA {
                return (Err(Error::IncompleteData), pos);
            }
            let n = if len <= (usize::MAX - 2) as u64 { 2 + len as usize } else { usize::MAX };
            return (Err(Error::Incomplete(n)), pos);
        }
        let end = p2 + len as usize;
        let payload = vstd::slice::slice_subrange(buf, p2, end);
        assert(payload@ =~= s.subrange((p2 - pos) as int, (p2 - pos) + len));
        if ty == DATA {
            (Ok(Frame::Data(DataFrame { payload: vstd::slice::slice_to_vec(payload) })), end)
        } else if ty == HEADERS {
            (Ok(Frame::Headers(HeadersFrame { encoded: vstd::slice::slice_to_vec(payload) })), end)
        } else if ty == SETTINGS {
            match SettingsFrame::decode(payload) {
                Ok(f) => (Ok(Frame::Settings(f)), end),
                Err(e) => (Err(settings_error(e)), pos),
            }
        } else if ty == CANCEL_PUSH || ty == GOAWAY || ty == MAX_PUSH_ID || ty == DUPLICATE_PUSH {
            assert(payload@.skip(0) =~= payload@);
            match varint::decode(payload, 0) {
                Err(_) => (Err(Error::UnexpectedEnd), pos),
                Ok((v, n)) => {
                    let f = if ty == CANCEL_PUSH {
                        Frame::CancelPush(v)
                    } else if ty == GOAWAY {
                        Frame::Goaway(v)
                    } else if ty == MAX_PUSH_ID {
                        Frame::MaxPushId(v)
                    } else {
                        Frame::DuplicatePush(v)
                    };
                    (Ok(f), p2 + n)
                },
            }
        } else if ty == PUSH_PROMISE {
            assert(payload@.skip(0) =~= payload@);
            match varint::decode(payload, 0) {
                Err(_) => (Err(Error::UnexpectedEnd), pos),
                Ok((v, n)) => {
                    let rest = vstd::slice::slice_subrange(payload, n, payload.len());
                    assert(rest@ =~= payload@.skip(n as int));
                    (
                        Ok(Frame::PushPromise(PushPromiseFrame { id: v, encoded: vstd::slice::slice_to_vec(rest) })),
                        end,
                    )
                },
            }
        } else if ty == H2_PRIORITY || ty == H2_PING || ty == H2_WINDOW_UPDATE || ty == H2_CONTINUATION {
            (Err(Error::UnsupportedFrame(ty)), pos)
        } else if is_reserved(ty) {
            (Ok(Frame::Reserved), end)
        } else {
            (Err(Error::UnknownFrame(ty)), end)
        }
    }
}

/// Every field of `f` can be written.
pub open spec fn spec_encodable(f: FrameModel) -> bool {
    match f {
        FrameModel::Data(p) => p.len() <= varint::MAX_VALUE,
        FrameModel::Headers(p) => p.len() <= varint::MAX_VALUE,
        FrameModel::Settings(e) => spec_settings_fit(e),
        FrameModel::PushPromise(id, p) => id <= varint::MAX_VALUE && varint::spec_size(id) + p.len()
            <= varint::MAX_VALUE,
        FrameModel::CancelPush(id) => id <= varint::MAX_VALUE,
        FrameModel::Goaway(id) => id <= varint::MAX_VALUE,
        FrameModel::MaxPushId(id) => id <= varint::MAX_VALUE,
        FrameModel::DuplicatePush(id) => id <= varint::MAX_VALUE,
        FrameModel::Reserved => true,
    }
}

/// The bytes `Frame::encode` writes for `f`. Frames holding a single
/// identifier always declare a one-byte payload; a reserved frame writes
/// nothing.
pub open spec fn spec_encode(f: FrameModel) -> Seq<u8> {
    match f {
        FrameModel::Data(p) => spec_header(DATA, p.len() as u64) + p,
        FrameModel::Headers(p) => spec_header(HEADERS, p.len() as u64) + p,
        FrameModel::Settings(e) => spec_header(SETTINGS, spec_settings_payload(e).len() as u64)
            + spec_settings_payload(e),
        FrameModel::PushPromise(id, p) => spec_header(
            PUSH_PROMISE,
            (varint::spec_size(id) + p.len()) as u64,
        ) + varint::spec_encode(id) + p,
        FrameModel::CancelPush(id) => spec_header(CANCEL_PUSH, 1) + varint::spec_encode(id),
        FrameModel::Goaway(id) => spec_header(GOAWAY, 1) + varint::spec_encode(id),
        FrameModel::MaxPushId(id) => spec_header(MAX_PUSH_ID, 1) + varint::spec_encode(id),
        FrameModel::DuplicatePush(id) => spec_header(DUPLICATE_PUSH, 1) + varint::spec_encode(id),
        FrameModel::Reserved => Seq::empty(),
    }
}

/// Appends the bytes of `src` to `buf`.
pub fn append_bytes(buf: &mut Vec<u8>, src: &[u8])
    ensures
        final(buf)@ == old(buf)@ + src@,
{
    buf.extend_from_slice(src);
    assert(buf@ =~= old(buf)@ + src@);
}

fn encode_header(ty: u64, len: u64, buf: &mut Vec<u8>)
    requires
        ty <= varint::MAX_VALUE,
        len <= varint::MAX_VALUE,
    ensures
        final(buf)@ == old(buf)@ + spec_header(ty, len),
{
    varint::encode(ty, buf);
    varint::encode(len, buf);
    assert(buf@ =~= old(buf)@ + spec_header(ty, len));
}

fn simple_frame_encode(ty: u64, id: u64, buf: &mut Vec<u8>)
    requires
        ty <= varint::MAX_VALUE,
        id <= varint::MAX_VALUE,
    ensures
        final(buf)@ == old(buf)@ + spec_header(ty, 1) + varint::spec_encode(id),
{
    encode_header(ty, 1, buf);
    varint::encode(id, buf);
}

impl Frame {
    /// Appends the frame to `buf`.
    pub fn encode(&self, buf: &mut Vec<u8>)
        requires
            spec_encodable(self@),
        ensures
            final(buf)@ == old(buf)@ + spec_encode(self@),
    {
        match self {
            Frame::Data(f) => {
                encode_header(DATA, f.payload.len() as u64, buf);
                append_bytes(buf, f.payload.as_slice());
            },
            Frame::Headers(f) => {
                encode_header(HEADERS, f.encoded.len() as u64, buf);
                append_bytes(buf, f.encoded.as_slice());
            },
            Frame::Settings(f) => f.encode(buf),
            Frame::CancelPush(id) => simple_frame_encode(CANCEL_PUSH, *id, buf),
            Frame::PushPromise(f) => {
                let len = varint::size(f.id) as u64 + f.encoded.len() as u64;
                encode_header(PUSH_PROMISE, len, buf);
                varint::encode(f.id, buf);
                append_bytes(buf, f.encoded.as_slice());
            },
            Frame::Goaway(id) => simple_frame_encode(GOAWAY, *id, buf),
            Frame::MaxPushId(id) => simple_frame_encode(MAX_PUSH_ID, *id, buf),
            Frame::DuplicatePush(id) => simple_frame_encode(DUPLICATE_PUSH, *id, buf),
            Frame::Reserved => {},
        }
        assert(buf@ =~= old(buf)@ + spec_encode(self@));
    }
}

proof fn lemma_old_settings_decode(entries: Seq<(u64, u64)>, acc: Seq<(u64, u64)>)
    requires
        spec_settings_fit(entries),
        crate::proto::settings::spec_distinct(acc + entries),
        acc.len() + entries.len() <= 3,
        forall|i: int| 0 <= i < entries.len() ==> spec_setting_supported(#[trigger] entries[i].0),
    ensures
        spec_settings_decode_from(spec_settings_payload(entries), acc) == Ok::<
            Seq<(u64, u64)>,
            SettingsError,
        >(acc + entries),
    decreases entries.len(),
{
    if entries.len() == 0 {
        assert(acc + entries =~= acc);
    } else {
        let (id, val) = entries[0];
        let tail = entries.drop_first();
        crate::proto::settings::lemma_payload_front(entries);
        let e1 = varint::spec_encode(id);
        let e2 = varint::spec_encode(val);
        let s = spec_settings_payload(entries);
        assert(s =~= e1 + (e2 + spec_settings_payload(tail)));
        varint::lemma_encode_decode(id, e2 + spec_settings_payload(tail));
        let n1 = varint::spec_size(id);
        assert(s.skip(n1 as int) =~= e2 + spec_settings_payload(tail));
        varint::lemma_encode_decode(val, spec_settings_payload(tail));
        let n2 = varint::spec_size(val);
        assert(s.skip(n1 as int).skip(n2 as int) =~= spec_settings_payload(tail));
        assert(!(exists|i: int| 0 <= i < acc.len() && #[trigger] acc[i].0 == id)) by {
            if exists|i: int| 0 <= i < acc.len() && #[trigger] acc[i].0 == id {
                let i = choose|i: int| 0 <= i < acc.len() && #[trigger] acc[i].0 == id;
                assert((acc + entries)[i].0 == (acc + entries)[acc.len() as int].0);
            }
        }
        assert(spec_settings_insert(acc, id, val) == Ok::<Seq<(u64, u64)>, SettingsError>(
            acc.push((id, val)),
        ));
        assert(acc.push((id, val)) + tail =~= acc + entries);
        assert(spec_settings_fit(tail)) by {
            assert forall|i: int| 0 <= i < tail.len() implies #[trigger] tail[i].0 <= varint::MAX_VALUE
                && tail[i].1 <= varint::MAX_VALUE by {
                assert(tail[i] == entries[i + 1]);
            }
        }
        assert forall|i: int| 0 <= i < tail.len() implies spec_setting_supported(#[trigger] tail[i].0) by {
            assert(tail[i] == entries[i + 1]);
        }
        lemma_old_settings_decode(tail, acc.push((id, val)));
    }
}

proof fn lemma_simple(ty: u64, id: u64, rest: Seq<u8>)
    requires
        ty == CANCEL_PUSH || ty == GOAWAY || ty == MAX_PUSH_ID || ty == DUPLICATE_PUSH,
        id < 0x40,
    ensures
        spec_decode(spec_header(ty, 1) + varint::spec_encode(id) + rest) == (
            Ok::<FrameModel, Error>(
                if ty == CANCEL_PUSH {
                    FrameModel::CancelPush(id)
                } else if ty == GOAWAY {
                    FrameModel::Goaway(id)
                } else if ty == MAX_PUSH_ID {
                    FrameModel::MaxPushId(id)
                } else {
                    FrameModel::DuplicatePush(id)
                },
            ),
            (spec_header(ty, 1) + varint::spec_encode(id)).len(),
        ),
{
    varint::lemma_encode_decode(id, Seq::empty());
    let body = varint::spec_encode(id);
    assert(body =~= varint::spec_encode(id) + Seq::empty());
    lemma_header(ty, 1, body, rest);
}

proof fn lemma_header(ty: u64, len: u64, body: Seq<u8>, rest: Seq<u8>)
    requires
        ty <= varint::MAX_VALUE,
        len <= varint::MAX_VALUE,
        body.len() == len,
    ensures
        ({
            let s = spec_header(ty, len) + body + rest;
            let n1 = varint::spec_size(ty);
            let n2 = varint::spec_size(len);
            &&& varint::spec_decode(s) == Some((ty, n1))
            &&& varint::spec_decode(s.skip(n1 as int)) == Some((len, n2))
            &&& s.len() - (n1 + n2) >= len
            &&& s.subrange((n1 + n2) as int, (n1 + n2) + len) == body
            &&& spec_header(ty, len).len() == n1 + n2
        }),
{
    let s = spec_header(ty, len) + body + rest;
    varint::lemma_encode_decode(ty, varint::spec_encode(len) + body + rest);
    assert(s =~= varint::spec_encode(ty) + (varint::spec_encode(len) + body + rest));
    let n1 = varint::spec_size(ty);
    assert(s.skip(n1 as int) =~= varint::spec_encode(len) + (body + rest));
    varint::lemma_encode_decode(len, body + rest);
    let n2 = varint::spec_size(len);
    assert(s.subrange((n1 + n2) as int, (n1 + n2) + len) =~= body);
}

/// Frames read back as written: decoding the encoding of a frame, whatever
/// follows it, gives the frame and consumes exactly its encoding. This holds
/// for every writable frame except a reserved one (which writes nothing), a
/// single-identifier frame whose identifier needs more than the one byte the
/// encoder declares, and a SETTINGS frame that the decoder would not keep
/// whole (more than three entries, a repeated or an unsupported identifier).
pub proof fn lemma_frame_roundtrip(f: FrameModel, rest: Seq<u8>)
    requires
        spec_encodable(f),
        f !is Reserved,
        f matches FrameModel::CancelPush(id) ==> id < 0x40,
        f matches FrameModel::Goaway(id) ==> id < 0x40,
        f matches FrameModel::MaxPushId(id) ==> id < 0x40,
        f matches FrameModel::DuplicatePush(id) ==> id < 0x40,
        f matches FrameModel::Settings(e) ==> {
            &&& e.len() <= 3
            &&& crate::proto::settings::spec_distinct(e)
            &&& forall|i: int| 0 <= i < e.len() ==> spec_setting_supported(#[trigger] e[i].0)
        },
    ensures
        spec_decode(spec_encode(f) + rest) == (Ok::<FrameModel, Error>(f), spec_encode(f).len()),
{
    match f {
        FrameModel::Data(p) => {
            lemma_header(DATA, p.len() as u64, p, rest);
        },
        FrameModel::Headers(p) => {
            lemma_header(HEADERS, p.len() as u64, p, rest);
        },
        FrameModel::Settings(en) => {
            crate::proto::settings::lemma_payload_len_bound(en);
            let body = spec_settings_payload(en);
            lemma_header(SETTINGS, body.len() as u64, body, rest);
            assert(Seq::<(u64, u64)>::empty() + en =~= en);
            lemma_old_settings_decode(en, Seq::empty());
        },
        FrameModel::PushPromise(id, p) => {
            varint::lemma_encode_decode(id, p);
            let body = varint::spec_encode(id) + p;
            lemma_header(PUSH_PROMISE, body.len() as u64, body, rest);
            assert(spec_header(PUSH_PROMISE, body.len() as u64) + varint::spec_encode(id) + p + rest
                =~= spec_header(PUSH_PROMISE, body.len() as u64) + body + rest);
            assert(body.skip(varint::spec_size(id) as int) =~= p);
        },
        FrameModel::CancelPush(id) => {
            lemma_simple(CANCEL_PUSH, id, rest);
        },
        FrameModel::Goaway(id) => {
            lemma_simple(GOAWAY, id, rest);
        },
        FrameModel::MaxPushId(id) => {
            lemma_simple(MAX_PUSH_ID, id, rest);
        },
        FrameModel::DuplicatePush(id) => {
            lemma_simple(DUPLICATE_PUSH, id, rest);
        },
        FrameModel::Reserved => {},
    }
}
/// Reading the start of a DATA frame from `s` whose payload may not all be
/// there: the declared payload length and the payload bytes present (all of
/// the rest of `s`).
pub open spec fn spec_partial_data(s: Seq<u8>) -> Result<(u64, Seq<u8>), Error> {
    match varint::spec_decode(s) {
        None => Err(Error::UnexpectedEnd),
        Some((_, n)) => match varint::spec_decode(s.skip(n as int)) {
            None => Err(Error::UnexpectedEnd),
            Some((len, m)) => Ok((len, s.skip((n + m) as int))),
        },
    }
}

/// A DATA frame whose payload arrives in pieces: how many payload bytes are
/// still to come.
#[derive(Debug)]
pub struct PartialData {
    remaining: usize,
}

impl View for PartialData {
    type V = nat;

    closed spec fn view(&self) -> nat {
        self.remaining as nat
    }
}

impl PartialData {
    /// Reads the header of a DATA frame and the payload bytes that follow
    /// in `buf`; the rest of the payload is still to come.
    pub fn decode(buf: &[u8]) -> (r: Result<(Self, DataFrame), Error>)
        requires
            varint::spec_decode(buf@) matches Some((ty, _)) ==> ty == DATA,
            spec_partial_data(buf@) matches Ok((len, p)) ==> p.len() <= len && len <= usize::MAX,
        ensures
            match spec_partial_data(buf@) {
                Ok((len, p)) => r matches Ok((d, f)) && d@ == len - p.len() && f.payload@ == p,
                Err(e) => r == Err::<(Self, DataFrame), Error>(e),
            },
    {
        assert(buf@.skip(0) =~= buf@);
        let (_ty, p) = match varint::decode(buf, 0) {
            Ok(x) => x,
            Err(_) => return Err(Error::UnexpectedEnd),
        };
        let (len, q) = match varint::decode(buf, p) {
            Ok(x) => x,
            Err(_) => return Err(Error::UnexpectedEnd),
        };
        let payload = vstd::slice::slice_to_vec(vstd::slice::slice_subrange(buf, q, buf.len()));
        assert(payload@ =~= buf@.skip(q as int));
        assert(buf@.skip(p as int).skip((q - p) as int) =~= buf@.skip(q as int));
        let remaining = (len - payload.len() as u64) as usize;
        Ok((PartialData { remaining }, DataFrame { payload }))
    }

    /// Takes the payload bytes of the frame that `buf` holds: as many as are
    /// still to come, or all of `buf` when fewer.
    pub fn decode_data(&mut self, buf: &[u8]) -> (f: DataFrame)
        ensures
            f.payload@ == buf@.take(if buf@.len() < old(self)@ { buf@.len() as int } else { old(self)@ as int }),
            final(self)@ == old(self)@ - f.payload@.len(),
    {
        let n = if buf.len() < self.remaining { buf.len() } else { self.remaining };
        let payload = vstd::slice::slice_to_vec(vstd::slice::slice_subrange(buf, 0, n));
        assert(payload@ =~= buf@.take(n as int));
        self.remaining = self.remaining - n;
        DataFrame { payload }
    }

    /// How many payload bytes are still to come.
    pub fn remaining(&self) -> (n: usize)
        ensures
            n == self@,
    {
        self.remaining
    }
}

/// The text of a frame: its kind and size or identifier.
pub open spec fn spec_frame_text(f: FrameModel) -> Seq<char> {
    match f {
        FrameModel::Data(p) => "Data("@ + spec_decimal(p.len()) + " bytes)"@,
        FrameModel::Headers(e) => "Headers("@ + spec_decimal(e.len()) + " entries)"@,
        FrameModel::Settings(_) => "Settings"@,
        FrameModel::CancelPush(id) => "CancelPush("@ + spec_decimal(id as nat) + ")"@,
        FrameModel::PushPromise(id, _) => "PushPromise("@ + spec_decimal(id as nat) + ")"@,
        FrameModel::Goaway(id) => "GoAway("@ + spec_decimal(id as nat) + ")"@,
        FrameModel::MaxPushId(id) => "MaxPushId("@ + spec_decimal(id as nat) + ")"@,
        FrameModel::DuplicatePush(id) => "DuplicatePush("@ + spec_decimal(id as nat) + ")"@,
        FrameModel::Reserved => "Reserved"@,
    }
}

impl Frame {
    /// The text of the frame.
    pub fn to_string(&self) -> (s: String)
        ensures
            s@ == spec_frame_text(self@),
    {
        let (mut s, n, tail) = match self {
            Frame::Data(f) => ("Data(".to_owned(), f.payload.len() as u64, " bytes)"),
            Frame::Headers(f) => ("Headers(".to_owned(), f.encoded.len() as u64, " entries)"),
            Frame::Settings(_) => return "Settings".to_owned(),
            Frame::CancelPush(id) => ("CancelPush(".to_owned(), *id, ")"),
            Frame::PushPromise(f) => ("PushPromise(".to_owned(), f.id, ")"),
            Frame::Goaway(id) => ("GoAway(".to_owned(), *id, ")"),
            Frame::MaxPushId(id) => ("MaxPushId(".to_owned(), *id, ")"),
            Frame::DuplicatePush(id) => ("DuplicatePush(".to_owned(), *id, ")"),
            Frame::Reserved => return "Reserved".to_owned(),
        };
        push_decimal(&mut s, n);
        push_str(&mut s, tail);
        s
    }
}

} // verus!
