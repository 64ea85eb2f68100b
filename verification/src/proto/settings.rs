//! The SETTINGS frame payload (RFC 9114 section 7.2.4).
use vstd::prelude::*;
use crate::varint;
use crate::text::{push_decimal, push_hex, push_str, spec_decimal, spec_hex};

verus! {


/// Errors found while building or reading a SETTINGS payload.
#[derive(Debug, PartialEq, Eq, Clone, Copy)]
pub enum SettingsError {
    /// More settings than `Settings::MAX_LEN`.
    Exceeded,
    /// The payload does not split into identifier/value pairs.
    Malformed,
    /// The same identifier occurred twice.
    Repeated(u64),
    /// An identifier this endpoint does not accept.
    InvalidSettingId(u64),
    /// A value this endpoint does not accept.
    InvalidSettingValue(u64, u64),
}

/// The text of a SETTINGS error.
pub open spec fn spec_settings_error_message(e: SettingsError) -> Seq<char> {
    match e {
        SettingsError::Exceeded => "max settings number exceeded, check for duplicate entries"@,
        SettingsError::Malformed => "malformed settings frame"@,
        SettingsError::Repeated(id) => "got setting 0x"@ + spec_hex(id as nat) + " twice"@,
        SettingsError::InvalidSettingId(id) => "setting id 0x"@ + spec_hex(id as nat) + " is invalid"@,
        SettingsError::InvalidSettingValue(id, val) => "setting 0x"@ + spec_hex(id as nat)
            + " has invalid value "@ + spec_decimal(val as nat),
    }
}

impl SettingsError {
    /// The text of the error.
    pub fn to_string(&self) -> (s: String)
        ensures
            s@ == spec_settings_error_message(*self),
    {
        match self {
            SettingsError::Exceeded => "max settings number exceeded, check for duplicate entries".to_owned(),
            SettingsError::Malformed => "malformed settings frame".to_owned(),
            SettingsError::Repeated(id) => {
                let mut s = "got setting 0x".to_owned();
                push_hex(&mut s, *id);
                push_str(&mut s, " twice");
                s
            },
            SettingsError::InvalidSettingId(id) => {
                let mut s = "setting id 0x".to_owned();
                push_hex(&mut s, *id);
                push_str(&mut s, " is invalid");
                s
            },
            SettingsError::InvalidSettingValue(id, val) => {
                let mut s = "setting 0x".to_owned();
                push_hex(&mut s, *id);
                push_str(&mut s, " has invalid value ");
                push_decimal(&mut s, *val);
                s
            },
        }
    }
}

/// Setting identifiers this library understands.
pub const QPACK_MAX_TABLE_CAPACITY: u64 = 0x1;
/// SETTINGS_MAX_FIELD_SECTION_SIZE.
pub const MAX_HEADER_LIST_SIZE: u64 = 0x6;
/// SETTINGS_QPACK_BLOCKED_STREAMS.
pub const QPACK_MAX_BLOCKED_STREAMS: u64 = 0x7;
/// SETTINGS_ENABLE_WEBTRANSPORT.
pub const ENABLE_WEBTRANSPORT: u64 = 0x2b603742;

/// At most this many settings are held: four setting types plus GREASE.
pub const MAX_LEN: usize = 5;

/// The identifiers that may be inserted by [`Settings::insert`].
pub open spec fn spec_is_supported(id: u64) -> bool {
    id == QPACK_MAX_TABLE_CAPACITY || id == MAX_HEADER_LIST_SIZE || id
        == QPACK_MAX_BLOCKED_STREAMS || id == ENABLE_WEBTRANSPORT
}

/// HTTP/2 setting identifiers with no HTTP/3 counterpart, which must not be
/// received (RFC 9114 section 7.2.4.1).
pub open spec fn spec_is_reserved(id: u64) -> bool {
    id == 0 || id == 2 || id == 3 || id == 4 || id == 5
}

/// Whether `id` already occurs among `entries`.
pub open spec fn spec_has_id(entries: Seq<(u64, u64)>, id: u64) -> bool {
    exists|i: int| 0 <= i < entries.len() && #[trigger] entries[i].0 == id
}

/// Adding `(id, val)` to the settings `entries`.
pub open spec fn spec_do_insert(entries: Seq<(u64, u64)>, id: u64, val: u64) -> Result<
    Seq<(u64, u64)>,
    SettingsError,
> {
    if entries.len() >= MAX_LEN {
        Err(SettingsError::Exceeded)
    } else if spec_has_id(entries, id) {
        Err(SettingsError::Repeated(id))
    } else {
        Ok(entries.push((id, val)))
    }
}

/// The value recorded for `id`, if any.
pub open spec fn spec_get(entries: Seq<(u64, u64)>, id: u64) -> Option<u64>
    decreases entries.len(),
{
    if entries.len() == 0 {
        None
    } else if entries[0].0 == id {
        Some(entries[0].1)
    } else {
        spec_get(entries.drop_first(), id)
    }
}

/// The identifier/value pairs of `entries` as written in a SETTINGS payload.
pub open spec fn spec_payload(entries: Seq<(u64, u64)>) -> Seq<u8>
    decreases entries.len(),
{
    if entries.len() == 0 {
        Seq::empty()
    } else {
        spec_payload(entries.drop_last()) + varint::spec_encode(entries.last().0)
            + varint::spec_encode(entries.last().1)
    }
}

/// Every identifier and value fits in a variable-length integer.
pub open spec fn spec_all_fit(entries: Seq<(u64, u64)>) -> bool {
    forall|i: int|
        0 <= i < entries.len() ==> #[trigger] entries[i].0 <= varint::MAX_VALUE && entries[i].1
            <= varint::MAX_VALUE
}

/// Reading a SETTINGS payload `s` on top of the settings `acc`: identifier and
/// value pairs until `s` is used up; reserved identifiers are refused,
/// unsupported ones skipped, supported ones inserted.
pub open spec fn spec_decode_from(s: Seq<u8>, acc: Seq<(u64, u64)>) -> Result<
    Seq<(u64, u64)>,
    SettingsError,
>
    decreases s.len(),
{
    if s.len() == 0 {
        Ok(acc)
    } else if s.len() < 2 {
        Err(SettingsError::Malformed)
    } else {
        match varint::spec_decode(s) {
            None => Err(SettingsError::Malformed),
            Some((id, n1)) => match varint::spec_decode(s.skip(n1 as int)) {
                None => Err(SettingsError::Malformed),
                Some((val, n2)) => {
                    let rest = s.skip(n1 as int).skip(n2 as int);
                    if spec_is_reserved(id) {
                        Err(SettingsError::InvalidSettingId(id))
                    } else if spec_is_supported(id) {
                        match spec_do_insert(acc, id, val) {
                            Err(e) => Err(e),
                            Ok(acc2) => spec_decode_from(rest, acc2),
                        }
                    } else {
                        spec_decode_from(rest, acc)
                    }
                },
            },
        }
    }
}

/// The settings carried by a SETTINGS frame.
#[derive(Debug, PartialEq)]
pub struct Settings {
    len: usize,
    buf: [(u64, u64); 5],
}

impl View for Settings {
    type V = Seq<(u64, u64)>;

    closed spec fn view(&self) -> Seq<(u64, u64)> {
        self.buf@.take(self.len as int)
    }
}

impl Settings {
    #[verifier::type_invariant]
    closed spec fn wf(self) -> bool {
        &&& self.len <= MAX_LEN
        &&& forall|i: int, j: int|
            0 <= i < j < self.len ==> #[trigger] self.buf@[i].0 != #[trigger] self.buf@[j].0
    }

    /// No settings.
    pub fn default() -> (s: Self)
        ensures
            s@ == Seq::<(u64, u64)>::empty(),
    {
        let s = Settings { len: 0, buf: [(0, 0), (0, 0), (0, 0), (0, 0), (0, 0)] };
        assert(s@ =~= Seq::<(u64, u64)>::empty());
        s
    }

    /// Whether `id` may be inserted.
    pub fn is_supported(id: u64) -> (b: bool)
        ensures
            b == spec_is_supported(id),
    {
        id == QPACK_MAX_TABLE_CAPACITY || id == MAX_HEADER_LIST_SIZE || id
            == QPACK_MAX_BLOCKED_STREAMS || id == ENABLE_WEBTRANSPORT
    }

    /// Whether `id` is an HTTP/2 identifier reserved in HTTP/3.
    pub fn is_reserved(id: u64) -> (b: bool)
        ensures
            b == spec_is_reserved(id),
    {
        id == 0 || id == 2 || id == 3 || id == 4 || id == 5
    }

    /// Records `(id, val)`: fails when full or when `id` is already present.
    pub fn do_insert(&mut self, id: u64, val: u64) -> (r: Result<(), SettingsError>)
        ensures
            match spec_do_insert(old(self)@, id, val) {
                Ok(entries) => r is Ok && final(self)@ == entries,
                Err(e) => r == Err::<(), SettingsError>(e) && final(self)@ == old(self)@,
            },
    {
        proof {
            use_type_invariant(&*self);
        }
        if self.len >= 5 {
            return Err(SettingsError::Exceeded);
        }
        let mut i: usize = 0;
        while i < self.len
            invariant
                i <= self.len,
                self.len < MAX_LEN,
                forall|k: int| 0 <= k < i ==> self.buf@[k].0 != id,
            decreases self.len - i,
        {
            if self.buf[i].0 == id {
                assert(self@[i as int].0 == id);
                return Err(SettingsError::Repeated(id));
            }
            i = i + 1;
        }
        assert(!spec_has_id(old(self)@, id));
        let ghost before = self@;
        let len = self.len;
        self.buf[len] = (id, val);
        self.len = len + 1;
        assert(self@ =~= before.push((id, val)));
        Ok(())
    }

    /// Records a supported setting; refuses any other identifier.
    pub fn insert(&mut self, id: u64, val: u64) -> (r: Result<(), SettingsError>)
        ensures
            if !spec_is_supported(id) {
                r == Err::<(), SettingsError>(SettingsError::InvalidSettingId(id))
                    && final(self)@ == old(self)@
            } else {
                match spec_do_insert(old(self)@, id, val) {
                    Ok(entries) => r is Ok && final(self)@ == entries,
                    Err(e) => r == Err::<(), SettingsError>(e) && final(self)@ == old(self)@,
                }
            },
    {
        if !Self::is_supported(id) {
            return Err(SettingsError::InvalidSettingId(id));
        }
        self.do_insert(id, val)
    }

    /// The value of setting `maybe_id`, if present.
    pub fn get(&self, maybe_id: u64) -> (r: Option<u64>)
        ensures
            r == spec_get(self@, maybe_id),
    {
        proof {
            use_type_invariant(self);
        }
        let mut i: usize = 0;
        assert(self@.skip(0) =~= self@);
        while i < self.len
            invariant
                i <= self.len <= MAX_LEN,
                self@ == self.buf@.take(self.len as int),
                spec_get(self@, maybe_id) == spec_get(self@.skip(i as int), maybe_id),
            decreases self.len - i,
        {
            assert(self@.skip(i as int).drop_first() =~= self@.skip(i + 1));
            assert(self@.skip(i as int)[0] == self.buf@[i as int]);
            if maybe_id == self.buf[i].0 {
                return Some(self.buf[i].1);
            }
            i = i + 1;
        }
        None
    }
}


/// SETTINGS frame type.
pub const FRAME_TYPE_SETTINGS: u64 = 0x4;

/// Number of distinct identifiers the grease formula `0x1f * k + 0x21` yields
/// below 2^62.
pub const GREASE_RANGE: u64 = 0x210842108421083;

/// Calls `fastrand::u64(0..n)`: a pseudo-random integer below `n`, drawn from
/// the thread-local generator. Only the range is claimed.
#[verifier::external_body]
fn random_below(n: u64) -> (r: u64)
    requires
        n > 0,
    ensures
        r < n,
{
    fastrand::u64(0..n)
}

/// The `k`-th GREASE setting identifier.
pub open spec fn spec_grease_id(k: u64) -> u64 {
    (0x1f * k + 0x21) as u64
}

/// A whole SETTINGS frame: header then payload.
pub open spec fn spec_frame(entries: Seq<(u64, u64)>) -> Seq<u8> {
    varint::spec_encode(FRAME_TYPE_SETTINGS) + varint::spec_encode(spec_payload(entries).len() as u64)
        + spec_payload(entries)
}

proof fn lemma_payload_step(entries: Seq<(u64, u64)>, i: int)
    requires
        0 <= i < entries.len(),
    ensures
        spec_payload(entries.take(i + 1)) == spec_payload(entries.take(i)) + varint::spec_encode(
            entries[i].0,
        ) + varint::spec_encode(entries[i].1),
{
    assert(entries.take(i + 1).drop_last() =~= entries.take(i));
}

/// Each fitting entry takes at most 16 bytes of payload.
pub proof fn lemma_payload_len_bound(entries: Seq<(u64, u64)>)
    requires
        spec_all_fit(entries),
    ensures
        spec_payload(entries).len() <= 16 * entries.len(),
    decreases entries.len(),
{
    if entries.len() > 0 {
        let e = entries.drop_last();
        assert(spec_all_fit(e)) by {
            assert forall|i: int| 0 <= i < e.len() implies #[trigger] e[i].0 <= varint::MAX_VALUE
                && e[i].1 <= varint::MAX_VALUE by {
                assert(e[i] == entries[i]);
            }
        }
        lemma_payload_len_bound(e);
        assert(entries.last() == entries[entries.len() - 1]);
        varint::lemma_encode_decode(entries.last().0, Seq::empty());
        varint::lemma_encode_decode(entries.last().1, Seq::empty());
    }
}

impl Settings {
    /// Length of the payload that `encode` writes after the frame header.
    pub fn payload_len(&self) -> (n: usize)
        requires
            spec_all_fit(self@),
        ensures
            n == spec_payload(self@).len(),
    {
        proof {
            use_type_invariant(self);
        }
        let mut total: usize = 0;
        let mut i: usize = 0;
        assert(self@.take(0) =~= Seq::<(u64, u64)>::empty());
        while i < self.len
            invariant
                i <= self.len <= MAX_LEN,
                self@ == self.buf@.take(self.len as int),
                spec_all_fit(self@),
                total == spec_payload(self@.take(i as int)).len(),
                total <= 16 * i,
            decreases self.len - i,
        {
            let (id, val) = self.buf[i];
            proof {
                assert(self@[i as int] == (id, val));
                lemma_payload_step(self@, i as int);
                varint::lemma_encode_decode(id, Seq::empty());
                varint::lemma_encode_decode(val, Seq::empty());
            }
            total = total + varint::size(id) + varint::size(val);
            i = i + 1;
        }
        assert(self@.take(self.len as int) =~= self@);
        total
    }

    /// Appends the SETTINGS frame: type, payload length, then each
    /// identifier/value pair.
    pub fn encode(&self, buf: &mut Vec<u8>)
        requires
            spec_all_fit(self@),
        ensures
            final(buf)@ == old(buf)@ + spec_frame(self@),
    {
        proof {
            use_type_invariant(self);
            lemma_payload_len_bound(self@);
        }
        let len = self.payload_len();
        varint::encode(FRAME_TYPE_SETTINGS, buf);
        varint::encode(len as u64, buf);
        let ghost start = buf@;
        let mut i: usize = 0;
        assert(self@.take(0) =~= Seq::<(u64, u64)>::empty());
        assert(buf@ =~= start + spec_payload(self@.take(0)));
        while i < self.len
            invariant
                i <= self.len <= MAX_LEN,
                self@ == self.buf@.take(self.len as int),
                spec_all_fit(self@),
                buf@ == start + spec_payload(self@.take(i as int)),
            decreases self.len - i,
        {
            let (id, val) = self.buf[i];
            proof {
                assert(self@[i as int] == (id, val));
                lemma_payload_step(self@, i as int);
            }
            varint::encode(id, buf);
            varint::encode(val, buf);
            assert(buf@ =~= start + spec_payload(self@.take(i + 1)));
            i = i + 1;
        }
        assert(self@.take(self.len as int) =~= self@);
        assert(buf@ =~= old(buf)@ + spec_frame(self@));
    }

    /// Reads a SETTINGS payload (the whole of `buf`).
    pub fn decode(buf: &[u8]) -> (r: Result<Settings, SettingsError>)
        ensures
            match spec_decode_from(buf@, Seq::empty()) {
                Ok(entries) => r matches Ok(s) && s@ == entries,
                Err(e) => r == Err::<Settings, SettingsError>(e),
            },
    {
        let mut settings = Settings::default();
        let mut pos: usize = 0;
        assert(buf@.skip(0) =~= buf@);
        while pos < buf.len()
            invariant
                pos <= buf@.len(),
                spec_decode_from(buf@, Seq::empty()) == spec_decode_from(buf@.skip(pos as int), settings@),
            decreases buf@.len() - pos,
        {
            let ghost s = buf@.skip(pos as int);
            if buf.len() - pos < 2 {
                return Err(SettingsError::Malformed);
            }
            let (id, p1) = match varint::decode(buf, pos) {
                Ok(x) => x,
                Err(_) => return Err(SettingsError::Malformed),
            };
            assert(buf@.skip(p1 as int) =~= s.skip((p1 - pos) as int));
            let (val, p2) = match varint::decode(buf, p1) {
                Ok(x) => x,
                Err(_) => return Err(SettingsError::Malformed),
            };
            assert(buf@.skip(p2 as int) =~= s.skip((p1 - pos) as int).skip((p2 - p1) as int));
            if Self::is_reserved(id) {
                return Err(SettingsError::InvalidSettingId(id));
            }
            if Self::is_supported(id) {
                match settings.insert(id, val) {
                    Ok(()) => {},
                    Err(e) => return Err(e),
                }
            }
            pos = p2;
        }
        assert(buf@.skip(pos as int) =~= Seq::<u8>::empty());
        Ok(settings)
    }

    /// Records `val` under a randomly drawn GREASE identifier of the form
    /// `0x1f * k + 0x21` (RFC 9114 section 7.2.4.1).
    pub fn insert_grease(&mut self, val: u64) -> (r: Result<(), SettingsError>)
        ensures
            exists|k: u64|
                k < GREASE_RANGE && {
                    let id = #[trigger] spec_grease_id(k);
                    match spec_do_insert(old(self)@, id, val) {
                        Ok(entries) => r is Ok && final(self)@ == entries,
                        Err(e) => r == Err::<(), SettingsError>(e) && final(self)@ == old(self)@,
                    }
                },
    {
        let k = random_below(GREASE_RANGE);
        assert(0x1f * k + 0x21 <= varint::MAX_VALUE) by (nonlinear_arith)
            requires
                k < GREASE_RANGE,
        ;
        let id = 0x1f * k + 0x21;
        let r = self.do_insert(id, val);
        assert(id == spec_grease_id(k));
        r
    }
}

/// Identifiers are pairwise distinct.
pub open spec fn spec_distinct(entries: Seq<(u64, u64)>) -> bool {
    forall|i: int, j: int| 0 <= i < j < entries.len() ==> #[trigger] entries[i].0 != #[trigger] entries[j].0
}

/// The payload of several entries starts with the first entry.
pub proof fn lemma_payload_front(entries: Seq<(u64, u64)>)
    requires
        entries.len() > 0,
    ensures
        spec_payload(entries) == varint::spec_encode(entries[0].0) + varint::spec_encode(entries[0].1)
            + spec_payload(entries.drop_first()),
    decreases entries.len(),
{
    if entries.len() == 1 {
        assert(entries.drop_last() =~= Seq::<(u64, u64)>::empty());
        assert(entries.drop_first() =~= Seq::<(u64, u64)>::empty());
        assert(spec_payload(entries) =~= varint::spec_encode(entries[0].0) + varint::spec_encode(
            entries[0].1,
        ) + spec_payload(entries.drop_first()));
    } else {
        lemma_payload_front(entries.drop_last());
        assert(entries.drop_last().drop_first() =~= entries.drop_first().drop_last());
        assert(entries.drop_last()[0] == entries[0]);
        assert(entries.drop_first().last() == entries.last());
        let a = varint::spec_encode(entries[0].0) + varint::spec_encode(entries[0].1);
        let l = varint::spec_encode(entries.last().0) + varint::spec_encode(entries.last().1);
        assert(spec_payload(entries) =~= a + spec_payload(entries.drop_first()));
    }
}

proof fn lemma_decode_entries(entries: Seq<(u64, u64)>, acc: Seq<(u64, u64)>)
    requires
        spec_all_fit(entries),
        spec_distinct(acc + entries),
        acc.len() + entries.len() <= MAX_LEN,
        forall|i: int| 0 <= i < entries.len() ==> spec_is_supported(#[trigger] entries[i].0),
    ensures
        spec_decode_from(spec_payload(entries), acc) == Ok::<Seq<(u64, u64)>, SettingsError>(acc + entries),
    decreases entries.len(),
{
    if entries.len() == 0 {
        assert(acc + entries =~= acc);
    } else {
        let (id, val) = entries[0];
        let tail = entries.drop_first();
        lemma_payload_front(entries);
        let e1 = varint::spec_encode(id);
        let e2 = varint::spec_encode(val);
        let s = spec_payload(entries);
        assert(s =~= e1 + (e2 + spec_payload(tail)));
        varint::lemma_encode_decode(id, e2 + spec_payload(tail));
        let n1 = varint::spec_size(id);
        assert(s.skip(n1 as int) =~= e2 + spec_payload(tail));
        varint::lemma_encode_decode(val, spec_payload(tail));
        let n2 = varint::spec_size(val);
        assert(s.skip(n1 as int).skip(n2 as int) =~= spec_payload(tail));
        assert(!spec_has_id(acc, id)) by {
            if spec_has_id(acc, id) {
                let i = choose|i: int| 0 <= i < acc.len() && #[trigger] acc[i].0 == id;
                assert((acc + entries)[i].0 == (acc + entries)[acc.len() as int].0);
            }
        }
        assert(spec_do_insert(acc, id, val) == Ok::<Seq<(u64, u64)>, SettingsError>(acc.push((id, val))));
        assert(acc.push((id, val)) + tail =~= acc + entries);
        assert(spec_all_fit(tail)) by {
            assert forall|i: int| 0 <= i < tail.len() implies #[trigger] tail[i].0 <= varint::MAX_VALUE
                && tail[i].1 <= varint::MAX_VALUE by {
                assert(tail[i] == entries[i + 1]);
            }
        }
        assert forall|i: int| 0 <= i < tail.len() implies spec_is_supported(#[trigger] tail[i].0) by {
            assert(tail[i] == entries[i + 1]);
        }
        lemma_decode_entries(tail, acc.push((id, val)));
    }
}

/// Reading back what `encode` wrote: the payload of supported, distinct,
/// fitting settings (no more than `MAX_LEN`) decodes to the same settings.
pub proof fn lemma_payload_roundtrip(entries: Seq<(u64, u64)>)
    requires
        spec_all_fit(entries),
        spec_distinct(entries),
        entries.len() <= MAX_LEN,
        forall|i: int| 0 <= i < entries.len() ==> spec_is_supported(#[trigger] entries[i].0),
    ensures
        spec_decode_from(spec_payload(entries), Seq::empty()) == Ok::<Seq<(u64, u64)>, SettingsError>(entries),
{
    assert(Seq::<(u64, u64)>::empty() + entries =~= entries);
    lemma_decode_entries(entries, Seq::empty());
}

/// Looking up in settings with one more entry, for an identifier the
/// others do not hold: the new entry for its own identifier, the others as
/// before.
proof fn lemma_get_push(entries: Seq<(u64, u64)>, id: u64, val: u64, other: u64)
    requires
        !spec_has_id(entries, id),
    ensures
        spec_get(entries.push((id, val)), id) == Some(val),
        other != id ==> spec_get(entries.push((id, val)), other) == spec_get(entries, other),
    decreases entries.len(),
{
    let e2 = entries.push((id, val));
    if entries.len() == 0 {
        assert(e2.drop_first() =~= Seq::<(u64, u64)>::empty());
    } else {
        assert(e2.drop_first() =~= entries.drop_first().push((id, val)));
        assert(entries[0].0 != id);
        assert(!spec_has_id(entries.drop_first(), id)) by {
            if spec_has_id(entries.drop_first(), id) {
                let i = choose|i: int| 0 <= i < entries.drop_first().len() && #[trigger] entries.drop_first()[i].0 == id;
                assert(entries[i + 1].0 == id);
            }
        }
        lemma_get_push(entries.drop_first(), id, val, other);
    }
}

/// A setting inserted reads back: once `(id, val)` is accepted, `get(id)`
/// gives `val` and every other identifier reads as before; an identifier
/// already present is refused as repeated.
pub proof fn lemma_insert_then_get(entries: Seq<(u64, u64)>, id: u64, val: u64, other: u64)
    ensures
        spec_do_insert(entries, id, val) matches Ok(e2) ==> spec_get(e2, id) == Some(val) && (other != id
            ==> spec_get(e2, other) == spec_get(entries, other)),
        entries.len() < MAX_LEN && spec_has_id(entries, id) ==> spec_do_insert(entries, id, val) == Err::<
            Seq<(u64, u64)>,
            SettingsError,
        >(SettingsError::Repeated(id)),
{
    if spec_do_insert(entries, id, val) is Ok {
        lemma_get_push(entries, id, val, other);
    }
}
} // verus!
