//! The decisions a connection takes on what the peer sends outside of
//! requests: which unidirectional streams it accepts (RFC 9114 section 6.2)
//! and what each frame of the peer's control stream does (sections 6.2.1,
//! 5.2 and 7.2).
//!
//! Each function takes the connection's state and the event and returns what
//! to do: an error to close the connection with, or the frame to hand on. The
//! caller performs the I/O: it reads the streams and frames, and closes the
//! QUIC connection with the code and reason returned.
use vstd::prelude::*;
use crate::error::{
    Code, ErrorOrigin, InternalConnectionError, StreamError, H3_CLOSED_CRITICAL_STREAM,
    H3_EXCESSIVE_LOAD, H3_FRAME_ERROR, H3_FRAME_UNEXPECTED, H3_GENERAL_PROTOCOL_ERROR, H3_ID_ERROR,
    H3_MISSING_SETTINGS, H3_REQUEST_INCOMPLETE, H3_STREAM_CREATION_ERROR, spec_frame_error_code,
    spec_frame_error_message,
};
use crate::frame::{FrameStreamError, StreamFrame};
use crate::quic::StreamErrorIncoming;
use crate::proto::settings::{spec_get, spec_grease_id, Settings, GREASE_RANGE, MAX_HEADER_LIST_SIZE};
use crate::proto::stream::{CONTROL, DECODER, ENCODER};
use crate::shared_state::{SharedState, VARINT_MAX};
use crate::text::{push_decimal, push_str, spec_decimal};

verus! {

/// The unidirectional streams of the peer that the connection holds.
#[derive(Debug, Clone, Copy, PartialEq, Eq, Structural, Default)]
pub struct UniStreams {
    /// The peer's control stream
    pub control: bool,
    /// The peer's QPACK encoder stream
    pub encoder: bool,
    /// The peer's QPACK decoder stream
    pub decoder: bool,
}

/// Accepting a unidirectional stream of type `ty` when `s` is held: the
/// streams held afterwards, or the error for a second control, encoder or
/// decoder stream (RFC 9114 section 6.2.1, RFC 9204 section 4.2). Other
/// stream types have no meaning here and are left alone.
pub open spec fn spec_accept_uni(s: UniStreams, ty: u64) -> (UniStreams, Option<Seq<char>>) {
    if ty == CONTROL {
        if s.control {
            (s, Some("got two control streams"@))
        } else {
            (UniStreams { control: true, ..s }, None)
        }
    } else if ty == ENCODER {
        (UniStreams { encoder: true, ..s }, if s.encoder { Some("got two encoder streams"@) } else { None })
    } else if ty == DECODER {
        (UniStreams { decoder: true, ..s }, if s.decoder { Some("got two decoder streams"@) } else { None })
    } else {
        (s, None)
    }
}

/// Records a new unidirectional stream of the peer whose type is `ty`; a
/// second control, encoder or decoder stream is a connection error of type
/// `H3_STREAM_CREATION_ERROR`.
pub fn accept_recv(streams: &mut UniStreams, ty: u64) -> (r: Result<(), InternalConnectionError>)
    ensures
        *final(streams) == spec_accept_uni(*old(streams), ty).0,
        match spec_accept_uni(*old(streams), ty).1 {
            None => r is Ok,
            Some(reason) => r matches Err(e) && e.code.code == H3_STREAM_CREATION_ERROR && e.message@ == reason,
        },
{
    if ty == CONTROL {
        if streams.control {
            return Err(InternalConnectionError::new(Code::new(H3_STREAM_CREATION_ERROR), "got two control streams".to_owned()));
        }
        streams.control = true;
    } else if ty == ENCODER {
        let prev = streams.encoder;
        streams.encoder = true;
        if prev {
            return Err(InternalConnectionError::new(Code::new(H3_STREAM_CREATION_ERROR), "got two encoder streams".to_owned()));
        }
    } else if ty == DECODER {
        let prev = streams.decoder;
        streams.decoder = true;
        if prev {
            return Err(InternalConnectionError::new(Code::new(H3_STREAM_CREATION_ERROR), "got two decoder streams".to_owned()));
        }
    }
    Ok(())
}

/// The name of a frame in error messages.
pub open spec fn spec_frame_name(f: StreamFrame) -> Seq<char> {
    match f {
        StreamFrame::Data(_) => "Data"@,
        StreamFrame::Headers(_) => "Headers"@,
        StreamFrame::Settings(_) => "Settings"@,
        StreamFrame::CancelPush(id) => "CancelPush("@ + spec_decimal(id as nat) + ")"@,
        StreamFrame::PushPromise(id, _) => "PushPromise("@ + spec_decimal(id as nat) + ")"@,
        StreamFrame::Goaway(id) => "Goaway("@ + spec_decimal(id as nat) + ")"@,
        StreamFrame::MaxPushId(id) => "MaxPushId("@ + spec_decimal(id as nat) + ")"@,
    }
}

pub(crate) fn frame_name(f: &StreamFrame) -> (s: String)
    ensures
        s@ == spec_frame_name(*f),
{
    let (mut s, id) = match f {
        StreamFrame::Data(_) => return "Data".to_owned(),
        StreamFrame::Headers(_) => return "Headers".to_owned(),
        StreamFrame::Settings(_) => return "Settings".to_owned(),
        StreamFrame::CancelPush(id) => ("CancelPush(".to_owned(), *id),
        StreamFrame::PushPromise(id, _) => ("PushPromise(".to_owned(), *id),
        StreamFrame::Goaway(id) => ("Goaway(".to_owned(), *id),
        StreamFrame::MaxPushId(id) => ("MaxPushId(".to_owned(), *id),
    };
    push_decimal(&mut s, id);
    push_str(&mut s, ")");
    s
}

/// The party that opened a stream: bit 0 of its identifier.
pub open spec fn spec_initiator(id: u64) -> u64 {
    id % 2
}

/// What a frame of the peer's control stream does, when the connection has
/// (`got_settings`) or has not yet received the peer's SETTINGS and the peer
/// is (`closing`) or is not closing: the error to close the connection with
/// (its code and reason), or `None` when the frame is accepted.
///
/// The control stream may not end; SETTINGS comes first and once; a GOAWAY
/// from the same side may not raise the identifier of an earlier one;
/// CANCEL_PUSH and MAX_PUSH_ID need SETTINGS first; any other frame is
/// unexpected.
pub open spec fn spec_control_error(got_settings: bool, closing: Option<u64>, recvd: Option<StreamFrame>) -> Option<(u64, Seq<char>)> {
    match recvd {
        None => Some((H3_CLOSED_CRITICAL_STREAM, "control stream closed"@)),
        Some(f) => match f {
            StreamFrame::Settings(_) if !got_settings => None,
            StreamFrame::Goaway(id) => match closing {
                Some(c) if spec_initiator(c) == spec_initiator(id) => if id <= c {
                    None
                } else {
                    Some(
                        (
                            H3_ID_ERROR,
                            "received a GoAway("@ + spec_decimal(id as nat) + ") greater than the former one ("@
                                + spec_decimal(c as nat) + ")"@,
                        ),
                    )
                },
                _ => None,
            },
            StreamFrame::CancelPush(_) | StreamFrame::MaxPushId(_) => if got_settings {
                None
            } else {
                Some(
                    (H3_MISSING_SETTINGS, "received "@ + spec_frame_name(f) + " before settings on control stream"@),
                )
            },
            _ => Some((H3_FRAME_UNEXPECTED, "on control stream: "@ + spec_frame_name(f))),
        },
    }
}

/// What an accepted frame `f` of the peer's control stream does to the
/// connection's state (`got0`, `s0` before, `got1`, `s1` after): the first
/// SETTINGS records that settings came and sets the largest field section
/// this endpoint may send (`2^62 - 1` when the peer gives none); a GOAWAY
/// records the peer's closing identifier (an earlier one from the other side
/// stays); nothing else changes, and no error is recorded.
pub open spec fn spec_control_accepted(got0: bool, s0: SharedState, f: StreamFrame, got1: bool, s1: SharedState) -> bool {
    &&& s1.error == s0.error
    &&& s1.last_accepted_stream == s0.last_accepted_stream
    &&& match f {
        StreamFrame::Settings(st) => {
            &&& got1
            &&& s1.peer_max_field_section_size == match spec_get(st@, MAX_HEADER_LIST_SIZE) {
                Some(v) => v,
                None => VARINT_MAX,
            }
            &&& s1.closing == s0.closing
        },
        StreamFrame::Goaway(id) => {
            &&& got1 == got0
            &&& s1.peer_max_field_section_size == s0.peer_max_field_section_size
            &&& s1.closing == match s0.closing {
                Some(c) if spec_initiator(c) != spec_initiator(id) => Some(c),
                _ => Some(id),
            }
        },
        _ => {
            &&& got1 == got0
            &&& s1.peer_max_field_section_size == s0.peer_max_field_section_size
            &&& s1.closing == s0.closing
        },
    }
}

/// Handles what the peer's control stream gave: `recvd` is the next frame,
/// `None` when the stream ended.
///
/// The peer's first SETTINGS sets the largest field section this endpoint
/// may send (`2^62 - 1` when the peer gives none); an accepted GOAWAY
/// records the peer's closing identifier. An error is recorded as the
/// connection's error and returned for the caller to close the connection
/// with.
pub fn handle_control_frame(
    shared: &mut SharedState,
    got_peer_settings: &mut bool,
    recvd: Option<StreamFrame>,
) -> (r: Result<StreamFrame, InternalConnectionError>)
    ensures
        match spec_control_error(*old(got_peer_settings), old(shared).closing, recvd) {
            Some((code, reason)) => r matches Err(e) && e.code.code == code && e.message@ == reason
                && final(shared).error == Some(ErrorOrigin::Internal(e))
                && final(shared).closing == old(shared).closing
                && final(shared).peer_max_field_section_size == old(shared).peer_max_field_section_size
                && final(shared).last_accepted_stream == old(shared).last_accepted_stream
                && *final(got_peer_settings) == *old(got_peer_settings),
            None => recvd matches Some(f) && r == Ok::<StreamFrame, InternalConnectionError>(f)
                && spec_control_accepted(*old(got_peer_settings), *old(shared), f, *final(got_peer_settings), *final(shared)),
        },
{
    let frame = match recvd {
        None => return Err(close(shared, H3_CLOSED_CRITICAL_STREAM, "control stream closed".to_owned())),
        Some(f) => f,
    };
    match frame {
        StreamFrame::Settings(settings) => {
            if *got_peer_settings {
                let mut reason = "on control stream: ".to_owned();
                push_str(&mut reason, "Settings");
                return Err(close(shared, H3_FRAME_UNEXPECTED, reason));
            }
            *got_peer_settings = true;
            shared.peer_max_field_section_size = match settings.get(MAX_HEADER_LIST_SIZE) {
                Some(v) => v,
                None => VARINT_MAX,
            };
            Ok(StreamFrame::Settings(settings))
        },
        StreamFrame::Goaway(id) => {
            match shared.closing {
                Some(closing_id) => {
                    if closing_id % 2 == id % 2 {
                        if id <= closing_id {
                            shared.closing = Some(id);
                            Ok(StreamFrame::Goaway(id))
                        } else {
                            let mut reason = "received a GoAway(".to_owned();
                            push_decimal(&mut reason, id);
                            push_str(&mut reason, ") greater than the former one (");
                            push_decimal(&mut reason, closing_id);
                            push_str(&mut reason, ")");
                            Err(close(shared, H3_ID_ERROR, reason))
                        }
                    } else {
                        Ok(StreamFrame::Goaway(id))
                    }
                },
                None => {
                    shared.closing = Some(id);
                    Ok(StreamFrame::Goaway(id))
                },
            }
        },
        StreamFrame::CancelPush(_) | StreamFrame::MaxPushId(_) => {
            if *got_peer_settings {
                Ok(frame)
            } else {
                let mut reason = "received ".to_owned();
                let name = frame_name(&frame);
                push_str(&mut reason, name.as_str());
                push_str(&mut reason, " before settings on control stream");
                Err(close(shared, H3_MISSING_SETTINGS, reason))
            }
        },
        _ => {
            let mut reason = "on control stream: ".to_owned();
            let name = frame_name(&frame);
            push_str(&mut reason, name.as_str());
            Err(close(shared, H3_FRAME_UNEXPECTED, reason))
        },
    }
}

/// Records the error with `code` and `reason` as the connection's error and
/// returns it.
pub(crate) fn close(shared: &mut SharedState, code: u64, reason: String) -> (e: InternalConnectionError)
    ensures
        e.code.code == code,
        e.message == reason,
        final(shared).error == Some(ErrorOrigin::Internal(e)),
        final(shared).closing == old(shared).closing,
        final(shared).peer_max_field_section_size == old(shared).peer_max_field_section_size,
        final(shared).last_accepted_stream == old(shared).last_accepted_stream,
{
    let e = InternalConnectionError::new(Code::new(code), reason);
    shared.error = Some(ErrorOrigin::Internal(e.clone()));
    e
}

/// A GOAWAY that does not raise the identifier is accepted: once the peer
/// is closing at `c`, a GOAWAY from the same side (same parity) with an
/// identifier no greater than `c`, the same one included, is no error, and
/// the closing identifier becomes it.
pub proof fn lemma_goaway_not_greater_accepted(got_settings: bool, s0: SharedState, c: u64, id: u64)
    requires
        s0.closing == Some(c),
        c % 2 == id % 2,
        id <= c,
    ensures
        spec_control_error(got_settings, Some(c), Some(StreamFrame::Goaway(id))) is None,
        forall|got1: bool, s1: SharedState|
            spec_control_accepted(got_settings, s0, StreamFrame::Goaway(id), got1, s1) ==> s1.closing == Some(id),
{
}

/// A GOAWAY from the other side (other parity) than the one the peer is
/// closing at is accepted whatever its identifier, and the closing
/// identifier stays.
pub proof fn lemma_goaway_other_side_accepted(got_settings: bool, s0: SharedState, c: u64, id: u64)
    requires
        s0.closing == Some(c),
        c % 2 != id % 2,
    ensures
        spec_control_error(got_settings, Some(c), Some(StreamFrame::Goaway(id))) is None,
        forall|got1: bool, s1: SharedState|
            spec_control_accepted(got_settings, s0, StreamFrame::Goaway(id), got1, s1) ==> s1.closing == Some(c),
{
}

/// GOAWAY identifiers from one side never go up: once the peer is closing,
/// an accepted GOAWAY from the same side leaves the closing identifier no
/// greater than before.
pub proof fn lemma_goaway_never_increases(got_settings: bool, c: u64, id: u64)
    requires
        spec_initiator(c) == spec_initiator(id),
        spec_control_error(got_settings, Some(c), Some(StreamFrame::Goaway(id))) is None,
    ensures
        id <= c,
{
}

/// The SETTINGS a connection announces first on its control stream (RFC
/// 9114 section 3.2): the largest field section it accepts, and with
/// `grease` one GREASE setting (section 7.2.4.1) of value 0 under a randomly
/// drawn identifier.
pub fn initial_settings(max_field_section_size: u64, grease: bool) -> (s: Settings)
    ensures
        !grease ==> s@ == seq![(MAX_HEADER_LIST_SIZE, max_field_section_size)],
        grease ==> exists|k: u64|
            k < GREASE_RANGE && s@ == seq![
                (MAX_HEADER_LIST_SIZE, max_field_section_size),
                (#[trigger] spec_grease_id(k), 0u64),
            ],
{
    let mut settings = Settings::default();
    let _ = settings.insert(MAX_HEADER_LIST_SIZE, max_field_section_size);
    assert(settings@ =~= seq![(MAX_HEADER_LIST_SIZE, max_field_section_size)]);
    if grease {
        let ghost before = settings@;
        let _ = settings.insert_grease(0);
        proof {
            let k = choose|k: u64| k < GREASE_RANGE && {
                let id = #[trigger] spec_grease_id(k);
                match crate::proto::settings::spec_do_insert(before, id, 0) {
                    Ok(entries) => settings@ == entries,
                    Err(e) => settings@ == before,
                }
            };
            assert(spec_grease_id(k) >= 0x21);
            assert(!crate::proto::settings::spec_has_id(before, spec_grease_id(k)));
            assert(settings@ =~= seq![(MAX_HEADER_LIST_SIZE, max_field_section_size), (spec_grease_id(k), 0u64)]);
        }
    }
    settings
}

/// The first frame of a request stream must be HEADERS (RFC 9114 section
/// 4.1): its encoded field section; a stream that ends first is an
/// incomplete request, any other frame is unexpected.
pub fn first_request_frame(frame: Option<StreamFrame>) -> (r: Result<Vec<u8>, InternalConnectionError>)
    ensures
        match frame {
            Some(StreamFrame::Headers(h)) => r matches Ok(v) && v@ == h@,
            None => r matches Err(e) && e.code.code == H3_REQUEST_INCOMPLETE
                && e.message@ == "request stream closed before headers"@,
            Some(_) => r matches Err(e) && e.code.code == H3_FRAME_UNEXPECTED
                && e.message@ == "first request frame is not headers"@,
        },
{
    match frame {
        Some(StreamFrame::Headers(h)) => Ok(h),
        None => Err(InternalConnectionError::new(
            Code::new(H3_REQUEST_INCOMPLETE),
            "request stream closed before headers".to_owned(),
        )),
        Some(_) => Err(InternalConnectionError::new(
            Code::new(H3_FRAME_UNEXPECTED),
            "first request frame is not headers".to_owned(),
        )),
    }
}

/// A field section of `mem_size` bytes against the limit `max_size`
/// (RFC 9114 section 4.2.2): refused as too big above the limit.
pub fn check_field_section_size(mem_size: u64, max_size: u64) -> (r: Option<StreamError>)
    ensures
        mem_size > max_size ==> (r matches Some(StreamError::HeaderTooBig { actual_size, max_size: m })
            && actual_size == mem_size && m == max_size),
        mem_size <= max_size ==> r is None,
{
    if mem_size > max_size {
        Some(StreamError::HeaderTooBig { actual_size: mem_size, max_size })
    } else {
        None
    }
}

/// Before the connection looks at the peer's streams: the connection error
/// already recorded, if any, which is returned at once, with nothing read
/// and nothing changed.
pub fn control_precheck(shared: &SharedState) -> (r: Option<ErrorOrigin>)
    ensures
        r == shared.error,
{
    shared.get_conn_error()
}

/// What the transport gave when the connection asked for the peer's next
/// unidirectional stream (`accepted`: the type of the stream accepted, or
/// `None` when the transport has no more streams), when the connection
/// holds `streams`. A recorded connection error is returned at once,
/// changing nothing; the end of the peer's streams is an
/// `H3_GENERAL_PROTOCOL_ERROR`; a stream the connection refuses is a
/// connection error, recorded in the shared state.
pub fn poll_accept_recv(shared: &mut SharedState, streams: &mut UniStreams, accepted: Option<u64>) -> (r: Result<
    (),
    ErrorOrigin,
>)
    ensures
        old(shared).error matches Some(e0) ==> r == Err::<(), ErrorOrigin>(e0) && *final(shared) == *old(shared)
            && *final(streams) == *old(streams),
        old(shared).error is None ==> match accepted {
            None => r matches Err(ErrorOrigin::Internal(e)) && e.code.code == H3_GENERAL_PROTOCOL_ERROR
                && e.message@ == "Connection closed unexpected"@ && *final(shared) == *old(shared)
                && *final(streams) == *old(streams),
            Some(ty) => {
                &&& *final(streams) == spec_accept_uni(*old(streams), ty).0
                &&& final(shared).closing == old(shared).closing
                &&& final(shared).peer_max_field_section_size == old(shared).peer_max_field_section_size
                &&& match spec_accept_uni(*old(streams), ty).1 {
                    None => r is Ok && final(shared).error == old(shared).error,
                    Some(reason) => r matches Err(ErrorOrigin::Internal(e)) && e.code.code == H3_STREAM_CREATION_ERROR
                        && e.message@ == reason && final(shared).error == Some(ErrorOrigin::Internal(e)),
                }
            },
        },
{
    if let Some(e) = shared.get_conn_error() {
        return Err(e);
    }
    match accepted {
        None => Err(ErrorOrigin::Internal(InternalConnectionError::new(
            Code::new(H3_GENERAL_PROTOCOL_ERROR),
            "Connection closed unexpected".to_owned(),
        ))),
        Some(ty) => match accept_recv(streams, ty) {
            Ok(()) => Ok(()),
            Err(e) => {
                let e = close(shared, e.code.code, e.message);
                Err(ErrorOrigin::Internal(e))
            },
        },
    }
}

/// Whether `r` is the connection error that the failure `e` to read the
/// peer's control stream is (see `control_read_error`).
pub open spec fn spec_control_read_error(e: FrameStreamError, r: ErrorOrigin) -> bool {
    match e {
        FrameStreamError::Proto(p) => r matches ErrorOrigin::Internal(ie) && ie.code.code == spec_frame_error_code(p)
            && ie.message@ == spec_frame_error_message(p),
        FrameStreamError::UnexpectedEnd => r matches ErrorOrigin::Internal(ie) && ie.code.code == H3_FRAME_ERROR
            && ie.message@ == "received incomplete frame"@,
        FrameStreamError::Quic(StreamErrorIncoming::ConnectionErrorIncoming { connection_error }) => r
            == ErrorOrigin::Quic(connection_error),
        FrameStreamError::Quic(_) => r matches ErrorOrigin::Internal(ie) && ie.code.code == H3_CLOSED_CRITICAL_STREAM
            && ie.message@ == "control stream closed"@,
        FrameStreamError::PayloadTooLarge { .. } => r matches ErrorOrigin::Internal(ie) && ie.code.code
            == H3_EXCESSIVE_LOAD && ie.message@ == "control frame too large"@,
    }
}

/// The connection error that a failure to read the peer's control stream
/// is: a frame that breaks the protocol is the error of that frame; a stream
/// that ends inside a frame is an `H3_FRAME_ERROR`; a closed connection is
/// the QUIC layer's error; a control stream the peer terminates is closed,
/// which is an `H3_CLOSED_CRITICAL_STREAM` (RFC 9114 section 6.2.1); a
/// control frame past the buffering ceiling is an `H3_EXCESSIVE_LOAD`.
pub fn control_read_error(e: FrameStreamError) -> (r: ErrorOrigin)
    ensures
        spec_control_read_error(e, r),
{
    match e {
        FrameStreamError::Proto(p) => ErrorOrigin::Internal(InternalConnectionError::got_frame_error(p)),
        FrameStreamError::UnexpectedEnd => ErrorOrigin::Internal(
            InternalConnectionError::new(Code::new(H3_FRAME_ERROR), "received incomplete frame".to_owned()),
        ),
        FrameStreamError::Quic(StreamErrorIncoming::ConnectionErrorIncoming { connection_error }) => ErrorOrigin::Quic(
            connection_error,
        ),
        FrameStreamError::Quic(_) => ErrorOrigin::Internal(
            InternalConnectionError::new(Code::new(H3_CLOSED_CRITICAL_STREAM), "control stream closed".to_owned()),
        ),
        FrameStreamError::PayloadTooLarge { .. } => ErrorOrigin::Internal(
            InternalConnectionError::new(Code::new(H3_EXCESSIVE_LOAD), "control frame too large".to_owned()),
        ),
    }
}

/// What reading the peer's control stream gave (`read`: the next frame,
/// `None` at its end, or the failure to read), handled as
/// `handle_control_frame` does; a failure to read is the error
/// `control_read_error` gives, and changes nothing. The caller looks at
/// `control_precheck` before it reads, and reads nothing when a connection
/// error is recorded.
pub fn poll_control(
    shared: &mut SharedState,
    got_peer_settings: &mut bool,
    read: Result<Option<StreamFrame>, FrameStreamError>,
) -> (r: Result<StreamFrame, ErrorOrigin>)
    ensures
        match read {
            Err(e) => r matches Err(x) && spec_control_read_error(e, x) && *final(shared) == *old(shared)
                && *final(got_peer_settings) == *old(got_peer_settings),
            Ok(recvd) => match spec_control_error(*old(got_peer_settings), old(shared).closing, recvd) {
                Some((code, reason)) => r matches Err(ErrorOrigin::Internal(e)) && e.code.code == code
                    && e.message@ == reason && final(shared).error == Some(ErrorOrigin::Internal(e))
                    && final(shared).closing == old(shared).closing
                    && final(shared).peer_max_field_section_size == old(shared).peer_max_field_section_size
                    && final(shared).last_accepted_stream == old(shared).last_accepted_stream
                    && *final(got_peer_settings) == *old(got_peer_settings),
                None => recvd matches Some(f) && r == Ok::<StreamFrame, ErrorOrigin>(f)
                    && spec_control_accepted(*old(got_peer_settings), *old(shared), f, *final(got_peer_settings), *final(shared)),
            },
        },
{
    match read {
        Err(e) => Err(control_read_error(e)),
        Ok(recvd) => match handle_control_frame(shared, got_peer_settings, recvd) {
            Ok(f) => Ok(f),
            Err(e) => Err(ErrorOrigin::Internal(e)),
        },
    }
}

/// The status of a response that refuses a request whose field section is
/// too large (RFC 6585 section 5).
pub const REQUEST_HEADER_FIELDS_TOO_LARGE: u16 = 431;

/// What a server does with the next request it accepts.
#[derive(Debug, PartialEq, Eq, Structural)]
pub enum AcceptAction {
    /// No more requests come: the peer or the connection closed
    End,
    /// Answer the request with `status` (431), then fail with a field
    /// section of `actual_size` bytes over the limit `max_size`
    RejectTooLarge {
        /// The status to answer with
        status: u16,
        /// The size of the request's field section
        actual_size: u64,
        /// The limit
        max_size: u64,
    },
    /// Go on with the request
    Proceed,
}

/// The server's decision on accepting a request: `closed` when the
/// connection gave no request because it ended or was closed; otherwise the
/// request's field section of `mem_size` bytes is held against the limit
/// `max` and refused with a 431 answer above it.
pub fn accept_outcome(closed: bool, mem_size: u64, max: u64) -> (r: AcceptAction)
    ensures
        closed ==> r == AcceptAction::End,
        !closed && mem_size > max ==> r == (AcceptAction::RejectTooLarge {
            status: REQUEST_HEADER_FIELDS_TOO_LARGE,
            actual_size: mem_size,
            max_size: max,
        }),
        !closed && mem_size <= max ==> r == AcceptAction::Proceed,
{
    if closed {
        AcceptAction::End
    } else if mem_size > max {
        AcceptAction::RejectTooLarge { status: REQUEST_HEADER_FIELDS_TOO_LARGE, actual_size: mem_size, max_size: max }
    } else {
        AcceptAction::Proceed
    }
}

/// The identifier a graceful shutdown announces in its GOAWAY: `max_streams`
/// more streams of the kind of the last one accepted (identifiers of one
/// kind are 4 apart, RFC 9000 section 2.1), without passing `2^62 - 1`; with
/// none accepted yet, the first request stream, 0.
pub open spec fn spec_shutdown_goaway_id(last_accepted: Option<u64>, max_streams: u64) -> u64 {
    match last_accepted {
        None => 0,
        Some(id) => if id >= VARINT_MAX {
            id
        } else if max_streams <= (VARINT_MAX - id) / 4 {
            (id + 4 * max_streams) as u64
        } else {
            (id + 4 * ((VARINT_MAX - id) / 4)) as u64
        },
    }
}

/// The GOAWAY identifier of a graceful shutdown that accepts `max_streams`
/// more streams (see `spec_shutdown_goaway_id`).
pub fn shutdown_goaway_id(last_accepted: Option<u64>, max_streams: u64) -> (id: u64)
    ensures
        id == spec_shutdown_goaway_id(last_accepted, max_streams),
{
    match last_accepted {
        None => 0,
        Some(id) => if id >= VARINT_MAX {
            id
        } else {
            let room = (VARINT_MAX - id) / 4;
            if max_streams <= room {
                id + 4 * max_streams
            } else {
                id + 4 * room
            }
        },
    }
}

/// Starts a graceful shutdown that accepts `max_streams` more streams: the
/// connection records the identifier as its closing point and returns it,
/// to be sent in a GOAWAY frame on the control stream.
pub fn shutdown(shared: &mut SharedState, max_streams: u64) -> (id: u64)
    ensures
        id == spec_shutdown_goaway_id(old(shared).last_accepted_stream, max_streams),
        final(shared).closing == Some(id),
        final(shared).error == old(shared).error,
        final(shared).last_accepted_stream == old(shared).last_accepted_stream,
        final(shared).peer_max_field_section_size == old(shared).peer_max_field_section_size,
{
    let id = shutdown_goaway_id(shared.last_accepted_stream, max_streams);
    shared.closing = Some(id);
    id
}

/// A request or push stream was accepted: it is the last one accepted.
pub fn start_stream(shared: &mut SharedState, id: u64)
    ensures
        final(shared).last_accepted_stream == Some(id),
        final(shared).error == old(shared).error,
        final(shared).closing == old(shared).closing,
        final(shared).peer_max_field_section_size == old(shared).peer_max_field_section_size,
{
    shared.last_accepted_stream = Some(id);
}

/// What a client does with a frame that the peer's control stream gave and
/// the connection accepted (RFC 9114 sections 7.2.5 to 7.2.7): SETTINGS
/// goes on; a GOAWAY goes on when it names a client-initiated bidirectional
/// (request) stream, and is an `H3_ID_ERROR` otherwise; any other frame is an
/// `H3_FRAME_UNEXPECTED`. An error is recorded as the connection's error and
/// returned for the caller to close the connection with.
pub fn client_control_frame(shared: &mut SharedState, frame: &StreamFrame) -> (r: Option<InternalConnectionError>)
    ensures
        match *frame {
            StreamFrame::Settings(_) => r is None && *final(shared) == *old(shared),
            StreamFrame::Goaway(id) => if id % 4 == 0 {
                r is None && *final(shared) == *old(shared)
            } else {
                r matches Some(e) && e.code.code == H3_ID_ERROR
                    && e.message@ == "non-request StreamId in a GoAway frame: "@ + spec_decimal(id as nat)
                    && spec_records(*old(shared), *final(shared), e)
            },
            f => r matches Some(e) && e.code.code == H3_FRAME_UNEXPECTED
                && e.message@ == "on client control stream: "@ + spec_frame_name(f)
                && spec_records(*old(shared), *final(shared), e),
        },
{
    match frame {
        StreamFrame::Settings(_) => None,
        StreamFrame::Goaway(id) => {
            if *id % 4 == 0 {
                None
            } else {
                let mut reason = "non-request StreamId in a GoAway frame: ".to_owned();
                push_decimal(&mut reason, *id);
                Some(close(shared, H3_ID_ERROR, reason))
            }
        },
        f => {
            let mut reason = "on client control stream: ".to_owned();
            let name = frame_name(f);
            push_str(&mut reason, name.as_str());
            Some(close(shared, H3_FRAME_UNEXPECTED, reason))
        },
    }
}

/// What a server does with a frame that the peer's control stream gave and
/// the connection accepted: SETTINGS, MAX_PUSH_ID and CANCEL_PUSH go on; a
/// GOAWAY goes on when it names a server-initiated unidirectional (push)
/// identifier, and is an `H3_ID_ERROR` otherwise; any other frame is an
/// `H3_FRAME_UNEXPECTED`. The error is returned.
pub fn server_control_frame(frame: &StreamFrame) -> (r: Option<InternalConnectionError>)
    ensures
        match *frame {
            StreamFrame::Settings(_) | StreamFrame::MaxPushId(_) | StreamFrame::CancelPush(_) => r is None,
            StreamFrame::Goaway(id) => if id % 4 == 3 {
                r is None
            } else {
                r matches Some(e) && e.code.code == H3_ID_ERROR
                    && e.message@ == "non-push StreamId in a GoAway frame: "@ + spec_decimal(id as nat)
            },
            f => r matches Some(e) && e.code.code == H3_FRAME_UNEXPECTED
                && e.message@ == "on server control stream: "@ + spec_frame_name(f),
        },
{
    match frame {
        StreamFrame::Settings(_) | StreamFrame::MaxPushId(_) | StreamFrame::CancelPush(_) => None,
        StreamFrame::Goaway(id) => {
            if *id % 4 == 3 {
                None
            } else {
                let mut reason = "non-push StreamId in a GoAway frame: ".to_owned();
                push_decimal(&mut reason, *id);
                Some(InternalConnectionError::new(Code::new(H3_ID_ERROR), reason))
            }
        },
        f => {
            let mut reason = "on server control stream: ".to_owned();
            let name = frame_name(f);
            push_str(&mut reason, name.as_str());
            Some(InternalConnectionError::new(Code::new(H3_FRAME_UNEXPECTED), reason))
        },
    }
}

/// Recording the error `e` as the connection's error, nothing else changed.
pub open spec fn spec_records(s0: SharedState, s1: SharedState, e: InternalConnectionError) -> bool {
    &&& s1.error == Some(ErrorOrigin::Internal(e))
    &&& s1.closing == s0.closing
    &&& s1.peer_max_field_section_size == s0.peer_max_field_section_size
    &&& s1.last_accepted_stream == s0.last_accepted_stream
}

} // verus!
