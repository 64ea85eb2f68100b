//! Accepting a WebTransport session (draft-ietf-webtrans-http3): the
//! checks on the peer's settings and the response to its extended CONNECT.
use vstd::prelude::*;
use crate::error::{Code, InternalConnectionError, H3_SETTINGS_ERROR};
use crate::ext::Protocol;
use crate::proto::headers::{spec_connect, spec_fields, HeaderField};
use crate::text::{bytes_eq, char_bytes, spec_char_bytes};

verus! {

/// Whether a request opens a WebTransport session: a CONNECT with the
/// `webtransport` protocol.
pub open spec fn spec_validate_wt_connect(method: Seq<u8>, protocol: Option<Protocol>) -> bool {
    method == spec_connect() && protocol == Some(Protocol::web_transport_spec())
}

/// Whether a request opens a WebTransport session.
pub fn validate_wt_connect(method: &[u8], protocol: Option<Protocol>) -> (b: bool)
    ensures
        b == spec_validate_wt_connect(method@, protocol),
{
    let connect: [u8; 7] = [67, 79, 78, 78, 69, 67, 84];
    assert(connect@ =~= spec_connect());
    if !bytes_eq(method, connect.as_slice()) {
        return false;
    }
    match protocol {
        Some(p) => p.is_web_transport_exec(),
        None => false,
    }
}

/// Accepting a WebTransport session on a CONNECT request with `method` and
/// `protocol`, when the peer's SETTINGS did or did not enable WebTransport
/// and datagrams: both must be enabled (`H3_SETTINGS_ERROR` otherwise);
/// then the response is `200` with `sec-webtransport-http3-draft: draft02`
/// for a valid request, `400` without fields for any other.
pub fn accept_session(
    peer_webtransport: bool,
    peer_datagram: bool,
    method: &[u8],
    protocol: Option<Protocol>,
) -> (r: Result<(u16, Vec<HeaderField>), InternalConnectionError>)
    ensures
        !peer_webtransport ==> (r matches Err(e) && e.code.code == H3_SETTINGS_ERROR
            && e.message@ == "webtransport is not supported by client"@),
        peer_webtransport && !peer_datagram ==> (r matches Err(e) && e.code.code == H3_SETTINGS_ERROR
            && e.message@ == "datagrams are not supported by client"@),
        peer_webtransport && peer_datagram ==> (r matches Ok((status, fields)) && if spec_validate_wt_connect(
            method@,
            protocol,
        ) {
            status == 200 && spec_fields(fields@) == seq![
                (spec_char_bytes("sec-webtransport-http3-draft"@), spec_char_bytes("draft02"@)),
            ]
        } else {
            status == 400 && fields@.len() == 0
        }),
{
    if !peer_webtransport {
        return Err(InternalConnectionError::new(
            Code::new(H3_SETTINGS_ERROR),
            "webtransport is not supported by client".to_owned(),
        ));
    }
    if !peer_datagram {
        return Err(InternalConnectionError::new(
            Code::new(H3_SETTINGS_ERROR),
            "datagrams are not supported by client".to_owned(),
        ));
    }
    if validate_wt_connect(method, protocol) {
        let mut fields: Vec<HeaderField> = Vec::new();
        let name = char_bytes("sec-webtransport-http3-draft");
        let value = char_bytes("draft02");
        let ghost (n, v) = (name@, value@);
        fields.push(HeaderField::new(name, value));
        assert(spec_fields(fields@) =~= seq![(n, v)]);
        Ok((200, fields))
    } else {
        Ok((400, Vec::new()))
    }
}

} // verus!
