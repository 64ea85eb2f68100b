//! HTTP/3 field sections (RFC 9114 sections 4.2 and 4.3): reading a decoded
//! list of field lines into pseudo-header fields and regular fields, with the
//! checks the protocol asks for, and building field sections for requests,
//! responses and trailers.
//!
//! Regular fields are kept as a list of name/value pairs in the order a
//! multi-map keyed by name would give them: grouped by name, names in the
//! order they first appeared, values of one name in the order they came.
use vstd::prelude::*;
use crate::ext::Protocol;
use crate::text::{
    push_str, ascii_string, bytes_eq, bytes_match, char_bytes, debug_bytes, spec_char_bytes, spec_ascii_chars, spec_bytes_match, spec_debug_bytes,
};

verus! {

/// A field line: a name and a value.
#[derive(Debug, Clone, PartialEq, Eq)]
pub struct HeaderField {
    /// The field name
    pub name: Vec<u8>,
    /// The field value
    pub value: Vec<u8>,
}

impl HeaderField {
    /// A field line.
    pub fn new(name: Vec<u8>, value: Vec<u8>) -> (f: HeaderField)
        ensures
            f.name == name,
            f.value == value,
    {
        HeaderField { name, value }
    }
}

/// The field lines `s` as pairs of byte strings.
pub open spec fn spec_fields(s: Seq<HeaderField>) -> Seq<(Seq<u8>, Seq<u8>)> {
    s.map_values(|f: HeaderField| (f.name@, f.value@))
}

// ---- what the `http` crate accepts ----

/// A byte that may stand in a lower-case field name.
pub open spec fn spec_name_char(b: u8) -> bool {
    ||| 33 <= b <= 39
    ||| b == 42 || b == 43 || b == 45 || b == 46
    ||| 48 <= b <= 57
    ||| 94 <= b <= 122
    ||| b == 124 || b == 126
}

/// A name `HeaderName::from_lowercase` accepts.
pub open spec fn spec_header_name_valid(n: Seq<u8>) -> bool {
    &&& 1 <= n.len() <= 65535
    &&& forall|i: int| 0 <= i < n.len() ==> spec_name_char(#[trigger] n[i])
}

/// A value `HeaderValue::from_bytes` accepts: visible characters, spaces,
/// tabs and bytes from 128 up.
pub open spec fn spec_header_value_valid(v: Seq<u8>) -> bool {
    forall|i: int| 0 <= i < v.len() ==> ((#[trigger] v[i] >= 32 && v[i] != 127) || v[i] == 9)
}

/// A byte that may stand in a method (a token character).
pub open spec fn spec_method_char(b: u8) -> bool {
    ||| b == 33
    ||| 35 <= b <= 39
    ||| b == 42 || b == 43 || b == 45 || b == 46
    ||| 48 <= b <= 57
    ||| 65 <= b <= 90
    ||| 94 <= b <= 122
    ||| b == 124 || b == 126
}

/// A method `Method::from_bytes` accepts.
pub open spec fn spec_method_valid(v: Seq<u8>) -> bool {
    &&& v.len() >= 1
    &&& forall|i: int| 0 <= i < v.len() ==> spec_method_char(#[trigger] v[i])
}

/// The status code `StatusCode::from_bytes` reads: three decimal digits, the
/// first not zero.
pub open spec fn spec_status(v: Seq<u8>) -> Option<u16> {
    if v.len() == 3 && 49 <= v[0] <= 57 && 48 <= v[1] <= 57 && 48 <= v[2] <= 57 {
        Some(((v[0] - 48) * 100 + (v[1] - 48) * 10 + (v[2] - 48)) as u16)
    } else {
        None
    }
}

/// A byte that may stand in a URI scheme.
pub open spec fn spec_scheme_char(b: u8) -> bool {
    ||| b == 43 || b == 45 || b == 46
    ||| 48 <= b <= 57
    ||| 65 <= b <= 90
    ||| 97 <= b <= 122
    ||| b == 126
}

/// A scheme `Scheme::try_from` accepts: at most 64 scheme characters.
pub open spec fn spec_scheme_valid(v: Seq<u8>) -> bool {
    &&& v.len() <= 64
    &&& forall|i: int| 0 <= i < v.len() ==> spec_scheme_char(#[trigger] v[i])
}

/// A continuation byte of UTF-8: `10xxxxxx`.
pub open spec fn spec_utf8_cont(b: u8) -> bool {
    0x80 <= b <= 0xbf
}

/// The length of the well-formed UTF-8 sequence that `v` starts with, 0 when
/// it starts with none (RFC 3629 section 4: no overlong form, no surrogate,
/// nothing above U+10FFFF).
pub open spec fn spec_utf8_char_len(v: Seq<u8>) -> int {
    let n = v.len();
    if n == 0 {
        0
    } else if v[0] < 0x80 {
        1
    } else if 0xc2 <= v[0] <= 0xdf {
        if n >= 2 && spec_utf8_cont(v[1]) { 2 } else { 0 }
    } else if 0xe0 <= v[0] <= 0xef {
        let lo: u8 = if v[0] == 0xe0 { 0xa0 } else { 0x80 };
        let hi: u8 = if v[0] == 0xed { 0x9f } else { 0xbf };
        if n >= 3 && lo <= v[1] <= hi && spec_utf8_cont(v[2]) { 3 } else { 0 }
    } else if 0xf0 <= v[0] <= 0xf4 {
        let lo: u8 = if v[0] == 0xf0 { 0x90 } else { 0x80 };
        let hi: u8 = if v[0] == 0xf4 { 0x8f } else { 0xbf };
        if n >= 4 && lo <= v[1] <= hi && spec_utf8_cont(v[2]) && spec_utf8_cont(v[3]) { 4 } else { 0 }
    } else {
        0
    }
}

/// The bytes are well-formed UTF-8: what `std::str::from_utf8` accepts.
pub open spec fn spec_utf8_valid(v: Seq<u8>) -> bool
    decreases v.len(),
{
    if v.len() == 0 {
        true
    } else {
        let k = spec_utf8_char_len(v);
        k > 0 && spec_utf8_valid(v.skip(k))
    }
}

/// Whether `http::uri::Authority::try_from` accepts the bytes.
pub uninterp spec fn spec_authority_valid(v: Seq<u8>) -> bool;

/// Whether `http::uri::PathAndQuery::try_from` accepts the bytes.
pub uninterp spec fn spec_path_and_query_valid(v: Seq<u8>) -> bool;

/// Whether `http::Uri::builder()` builds a URI from the given path, scheme
/// and authority (each set only when present): every part set must convert
/// (an empty path converts to the empty path, an empty authority does not:
/// `Authority::parse_non_empty`), and `Uri::from_parts` takes a scheme only
/// with a path, and a path and an authority only with a scheme.
pub open spec fn spec_uri_builds(path: Option<Seq<u8>>, scheme: Option<Seq<u8>>, authority: Seq<u8>) -> bool {
    &&& authority.len() > 0
    &&& spec_authority_valid(authority)
    &&& match (path, scheme) {
        (Some(p), Some(x)) => (p.len() == 0 || spec_path_and_query_valid(p)) && spec_scheme_valid(x),
        (None, None) => true,
        _ => false,
    }
}

/// The text `String::from_utf8_lossy` makes of the bytes.
pub uninterp spec fn spec_utf8_lossy(v: Seq<u8>) -> Seq<char>;

/// The text `format!("{:?}", s)` writes for the string `s`: quoted, with
/// escapes.
pub uninterp spec fn spec_debug_str(s: Seq<char>) -> Seq<char>;

/// The message of an invalid field value: the name as text, written as a
/// quoted string, a space, then the value's bytes as a list.
pub open spec fn spec_invalid_value_message(name: Seq<u8>, value: Seq<u8>) -> Seq<char> {
    spec_debug_str(spec_utf8_lossy(name)) + " "@ + spec_debug_bytes(value)
}

/// `http::header::HeaderName::from_lowercase` succeeds: the source accepts a
/// name of 1 to 65535 bytes, each a lower-case token character.
#[verifier::external_body]
fn header_name_valid(name: &[u8]) -> (b: bool)
    ensures
        b == spec_header_name_valid(name@),
{
    http::header::HeaderName::from_lowercase(name).is_ok()
}

/// `http::header::HeaderValue::from_bytes` succeeds: the source accepts
/// every byte from 32 up but 127, and the tab.
#[verifier::external_body]
fn header_value_valid(value: &[u8]) -> (b: bool)
    ensures
        b == spec_header_value_valid(value@),
{
    http::header::HeaderValue::from_bytes(value).is_ok()
}

/// `http::Method::from_bytes` succeeds: the source accepts one or more token
/// characters.
#[verifier::external_body]
fn method_valid(value: &[u8]) -> (b: bool)
    ensures
        b == spec_method_valid(value@),
{
    http::Method::from_bytes(value).is_ok()
}

/// `http::StatusCode::from_bytes`, and the code it reads.
#[verifier::external_body]
fn status_from_bytes(value: &[u8]) -> (r: Option<u16>)
    ensures
        r == spec_status(value@),
{
    match http::StatusCode::from_bytes(value) {
        Ok(s) => Some(s.as_u16()),
        Err(_) => None,
    }
}

/// `http::uri::Scheme::try_from` succeeds: the source accepts `http`,
/// `https`, and at most 64 scheme characters.
#[verifier::external_body]
fn scheme_valid(value: &[u8]) -> (b: bool)
    ensures
        b == spec_scheme_valid(value@),
{
    http::uri::Scheme::try_from(value).is_ok()
}

/// `http::uri::Authority::try_from` succeeds; what it accepts is named, and
/// the source refuses an empty authority (`parse_non_empty`).
#[verifier::external_body]
fn authority_valid(value: &[u8]) -> (b: bool)
    ensures
        b == spec_authority_valid(value@),
        value@.len() == 0 ==> !b,
{
    http::uri::Authority::try_from(value).is_ok()
}

/// `http::uri::PathAndQuery::try_from` succeeds; what it accepts is named,
/// and the source refuses empty bytes.
#[verifier::external_body]
fn path_and_query_valid(value: &[u8]) -> (b: bool)
    ensures
        b == spec_path_and_query_valid(value@),
        value@.len() == 0 ==> !b,
{
    http::uri::PathAndQuery::try_from(value).is_ok()
}

/// `std::str::from_utf8` succeeds: its documentation accepts exactly the
/// well-formed UTF-8 byte sequences.
#[verifier::external_body]
fn utf8_valid(value: &[u8]) -> (b: bool)
    ensures
        b == spec_utf8_valid(value@),
{
    std::str::from_utf8(value).is_ok()
}

/// `http::Uri::builder()` with the path, the scheme and the authority set,
/// then `build()`: whether it builds (see `spec_uri_builds`).
#[verifier::external_body]
fn build_uri_path_scheme(path: &[u8], scheme: &[u8], authority: &[u8]) -> (r: bool)
    ensures
        r == spec_uri_builds(Some(path@), Some(scheme@), authority@),
{
    http::Uri::builder().path_and_query(path).scheme(scheme).authority(authority).build().is_ok()
}

/// `http::Uri::builder()` with the path and the authority set, then
/// `build()`: whether it builds (see `spec_uri_builds`).
#[verifier::external_body]
fn build_uri_path(path: &[u8], authority: &[u8]) -> (r: bool)
    ensures
        r == spec_uri_builds(Some(path@), None, authority@),
{
    http::Uri::builder().path_and_query(path).authority(authority).build().is_ok()
}

/// `http::Uri::builder()` with the scheme and the authority set, then
/// `build()`: whether it builds (see `spec_uri_builds`).
#[verifier::external_body]
fn build_uri_scheme(scheme: &[u8], authority: &[u8]) -> (r: bool)
    ensures
        r == spec_uri_builds(None, Some(scheme@), authority@),
{
    http::Uri::builder().scheme(scheme).authority(authority).build().is_ok()
}

/// `http::Uri::builder()` with the authority set, then `build()`: whether it
/// builds (see `spec_uri_builds`).
#[verifier::external_body]
fn build_uri_authority(authority: &[u8]) -> (r: bool)
    ensures
        r == spec_uri_builds(None, None, authority@),
{
    http::Uri::builder().authority(authority).build().is_ok()
}

/// Whether a URI builds from the path, scheme and authority, each set when
/// present.
fn build_uri(path: Option<&[u8]>, scheme: Option<&[u8]>, authority: &[u8]) -> (r: bool)
    ensures
        r == spec_uri_builds(
            match path { Some(p) => Some(p@), None => None },
            match scheme { Some(s) => Some(s@), None => None },
            authority@,
        ),
{
    match (path, scheme) {
        (Some(p), Some(s)) => build_uri_path_scheme(p, s, authority),
        (Some(p), None) => build_uri_path(p, authority),
        (None, Some(s)) => build_uri_scheme(s, authority),
        (None, None) => build_uri_authority(authority),
    }
}

/// `String::from_utf8_lossy`: the bytes as text; what it makes of them is
/// named.
#[verifier::external_body]
fn utf8_lossy(v: &[u8]) -> (s: String)
    ensures
        s@ == spec_utf8_lossy(v@),
{
    String::from_utf8_lossy(v).into_owned()
}

/// `format!("{:?}", s)` of a string: the quoted, escaped text is named.
#[verifier::external_body]
fn debug_str(s: &str) -> (r: String)
    ensures
        r@ == spec_debug_str(s@),
{
    format!("{:?}", s)
}

/// The message of an invalid field value.
fn invalid_value_message(name: &[u8], value: &[u8]) -> (s: String)
    ensures
        s@ == spec_invalid_value_message(name@, value@),
{
    let text = utf8_lossy(name);
    let mut s = debug_str(text.as_str());
    push_str(&mut s, " ");
    let list = debug_bytes(value);
    push_str(&mut s, list.as_str());
    proof {
        reveal_strlit(" ");
    }
    s
}

// ---- errors ----

/// Why a field section was refused.
#[derive(Debug)]
pub enum HeaderError {
    /// A field name that is not allowed, written as its bytes
    InvalidHeaderName(String),
    /// A field value that is not allowed, with its name
    InvalidHeaderValue(String),
    /// The request target does not make a URI
    InvalidRequest,
    /// A request without `:method`
    MissingMethod,
    /// A response without `:status`
    MissingStatus,
    /// A request without `:authority` nor `host`
    MissingAuthority,
    /// `:authority` and `host` differ
    ContradictedAuthority,
    /// A pseudo-header field after a regular field
    PseudoAfterRegularField,
    /// A connection-specific field, by name
    ConnectionSpecificHeader(String),
    /// A `te` field with a value other than `trailers`
    InvalidTeHeader,
    /// A pseudo-header field in a trailer section
    PseudoInTrailer,
}

/// A header error as plain values.
pub ghost enum HeaderErrorModel {
    InvalidHeaderName(Seq<char>),
    InvalidHeaderValue(Seq<char>),
    InvalidRequest,
    MissingMethod,
    MissingStatus,
    MissingAuthority,
    ContradictedAuthority,
    PseudoAfterRegularField,
    ConnectionSpecificHeader(Seq<char>),
    InvalidTeHeader,
    PseudoInTrailer,
}

impl View for HeaderError {
    type V = HeaderErrorModel;

    open spec fn view(&self) -> HeaderErrorModel {
        match self {
            HeaderError::InvalidHeaderName(s) => HeaderErrorModel::InvalidHeaderName(s@),
            HeaderError::InvalidHeaderValue(s) => HeaderErrorModel::InvalidHeaderValue(s@),
            HeaderError::InvalidRequest => HeaderErrorModel::InvalidRequest,
            HeaderError::MissingMethod => HeaderErrorModel::MissingMethod,
            HeaderError::MissingStatus => HeaderErrorModel::MissingStatus,
            HeaderError::MissingAuthority => HeaderErrorModel::MissingAuthority,
            HeaderError::ContradictedAuthority => HeaderErrorModel::ContradictedAuthority,
            HeaderError::PseudoAfterRegularField => HeaderErrorModel::PseudoAfterRegularField,
            HeaderError::ConnectionSpecificHeader(s) => HeaderErrorModel::ConnectionSpecificHeader(s@),
            HeaderError::InvalidTeHeader => HeaderErrorModel::InvalidTeHeader,
            HeaderError::PseudoInTrailer => HeaderErrorModel::PseudoInTrailer,
        }
    }
}

/// The text of a header error.
pub open spec fn spec_header_error_message(e: HeaderErrorModel) -> Seq<char> {
    match e {
        HeaderErrorModel::InvalidHeaderName(h) => "invalid header name: "@ + h,
        HeaderErrorModel::InvalidHeaderValue(v) => "invalid header value: "@ + v,
        HeaderErrorModel::InvalidRequest => "invalid request"@,
        HeaderErrorModel::MissingMethod => "missing method in request headers"@,
        HeaderErrorModel::MissingStatus => "missing status in response headers"@,
        HeaderErrorModel::MissingAuthority => "missing authority"@,
        HeaderErrorModel::ContradictedAuthority => "uri and authority field are in contradiction"@,
        HeaderErrorModel::PseudoAfterRegularField => "pseudo-header field appears after a regular header field"@,
        HeaderErrorModel::ConnectionSpecificHeader(h) => "connection-specific header not permitted: "@ + h,
        HeaderErrorModel::InvalidTeHeader => "te header field may only contain 'trailers'"@,
        HeaderErrorModel::PseudoInTrailer => "pseudo-header field appears in trailer section"@,
    }
}

impl HeaderError {
    /// The text of the error.
    pub fn to_string(&self) -> (s: String)
        ensures
            s@ == spec_header_error_message(self@),
    {
        match self {
            HeaderError::InvalidHeaderName(h) => {
                let mut s = "invalid header name: ".to_owned();
                push_str(&mut s, h.as_str());
                s
            },
            HeaderError::InvalidHeaderValue(v) => {
                let mut s = "invalid header value: ".to_owned();
                push_str(&mut s, v.as_str());
                s
            },
            HeaderError::InvalidRequest => "invalid request".to_owned(),
            HeaderError::MissingMethod => "missing method in request headers".to_owned(),
            HeaderError::MissingStatus => "missing status in response headers".to_owned(),
            HeaderError::MissingAuthority => "missing authority".to_owned(),
            HeaderError::ContradictedAuthority => "uri and authority field are in contradiction".to_owned(),
            HeaderError::PseudoAfterRegularField => "pseudo-header field appears after a regular header field".to_owned(),
            HeaderError::ConnectionSpecificHeader(h) => {
                let mut s = "connection-specific header not permitted: ".to_owned();
                push_str(&mut s, h.as_str());
                s
            },
            HeaderError::InvalidTeHeader => "te header field may only contain 'trailers'".to_owned(),
            HeaderError::PseudoInTrailer => "pseudo-header field appears in trailer section".to_owned(),
        }
    }
}

fn invalid_name(name: &[u8]) -> (e: HeaderError)
    ensures
        e@ == HeaderErrorModel::InvalidHeaderName(spec_debug_bytes(name@)),
{
    HeaderError::InvalidHeaderName(debug_bytes(name))
}

fn invalid_value(name: &[u8], value: &[u8]) -> (e: HeaderError)
    ensures
        e@ == HeaderErrorModel::InvalidHeaderValue(spec_invalid_value_message(name@, value@)),
{
    HeaderError::InvalidHeaderValue(invalid_value_message(name, value))
}

// ---- field names and values ----

/// The connection-specific field names (RFC 9114 section 4.2).
pub open spec fn spec_is_connection_specific(name: Seq<u8>) -> bool {
    ||| spec_bytes_match(name, "connection"@)
    ||| spec_bytes_match(name, "keep-alive"@)
    ||| spec_bytes_match(name, "proxy-connection"@)
    ||| spec_bytes_match(name, "transfer-encoding"@)
    ||| spec_bytes_match(name, "upgrade"@)
}

/// Whether `name` is a connection-specific field name.
pub fn is_connection_specific(name: &[u8]) -> (b: bool)
    ensures
        b == spec_is_connection_specific(name@),
{
    bytes_match(name, "connection") || bytes_match(name, "keep-alive") || bytes_match(name, "proxy-connection")
        || bytes_match(name, "transfer-encoding") || bytes_match(name, "upgrade")
}

/// A space or a tab.
pub open spec fn spec_is_blank(b: u8) -> bool {
    b == 32 || b == 9
}

/// Where the bytes of `s` start once leading spaces and tabs are dropped.
pub open spec fn spec_trim_start(s: Seq<u8>) -> int
    decreases s.len(),
{
    if s.len() > 0 && spec_is_blank(s[0]) {
        1 + spec_trim_start(s.drop_first())
    } else {
        0
    }
}

/// `s` without leading and trailing spaces and tabs.
pub open spec fn spec_trim(s: Seq<u8>) -> Seq<u8>
    decreases s.len(),
{
    if s.len() > 0 && spec_is_blank(s[0]) {
        spec_trim(s.drop_first())
    } else if s.len() > 0 && spec_is_blank(s.last()) {
        spec_trim(s.drop_last())
    } else {
        s
    }
}

proof fn lemma_trim_front(s: Seq<u8>, k: int)
    requires
        0 <= k <= s.len(),
        forall|j: int| 0 <= j < k ==> spec_is_blank(#[trigger] s[j]),
    ensures
        spec_trim(s) == spec_trim(s.skip(k)),
    decreases k,
{
    if k > 0 {
        assert(spec_is_blank(s[0]));
        assert(s.drop_first().skip(k - 1) =~= s.skip(k));
        assert forall|j: int| 0 <= j < k - 1 implies spec_is_blank(#[trigger] s.drop_first()[j]) by {
            assert(s.drop_first()[j] == s[j + 1]);
        }
        lemma_trim_front(s.drop_first(), k - 1);
    } else {
        assert(s.skip(0) =~= s);
    }
}

proof fn lemma_trim_back(s: Seq<u8>, k: int)
    requires
        0 <= k <= s.len(),
        s.len() > 0 ==> !spec_is_blank(s[0]) || k == s.len(),
        forall|j: int| k <= j < s.len() ==> spec_is_blank(#[trigger] s[j]),
    ensures
        spec_trim(s) == spec_trim(s.take(k)),
    decreases s.len() - k,
{
    if k < s.len() {
        assert(s.drop_last().take(k) =~= s.take(k));
        if s.len() > 0 && spec_is_blank(s[0]) {
            assert(k == s.len());
        }
        lemma_trim_back(s.drop_last(), k);
    } else {
        assert(s.take(k) =~= s);
    }
}

proof fn lemma_trim_done(s: Seq<u8>)
    requires
        s.len() == 0 || (!spec_is_blank(s[0]) && !spec_is_blank(s.last())),
    ensures
        spec_trim(s) == s,
{
}

/// Trimming leaves no space or tab at either end, so trimming again
/// changes nothing.
pub proof fn lemma_trim_idempotent(s: Seq<u8>)
    ensures
        spec_trim(s).len() == 0 || (!spec_is_blank(spec_trim(s)[0]) && !spec_is_blank(spec_trim(s).last())),
        spec_trim(spec_trim(s)) == spec_trim(s),
    decreases s.len(),
{
    if s.len() > 0 && spec_is_blank(s[0]) {
        lemma_trim_idempotent(s.drop_first());
    } else if s.len() > 0 && spec_is_blank(s.last()) {
        lemma_trim_idempotent(s.drop_last());
    }
}

/// `bytes` without leading and trailing spaces and tabs.
pub fn trim_ascii_whitespace(bytes: &[u8]) -> (r: &[u8])
    ensures
        r@ == spec_trim(bytes@),
{
    let mut start: usize = 0;
    while start < bytes.len() && (bytes[start] == 32 || bytes[start] == 9)
        invariant
            start <= bytes@.len(),
            forall|j: int| 0 <= j < start ==> spec_is_blank(#[trigger] bytes@[j]),
        decreases bytes@.len() - start,
    {
        start = start + 1;
    }
    let mut end: usize = bytes.len();
    while end > start && (bytes[end - 1] == 32 || bytes[end - 1] == 9)
        invariant
            start <= end <= bytes@.len(),
            forall|j: int| end <= j < bytes@.len() ==> spec_is_blank(#[trigger] bytes@[j]),
        decreases end - start,
    {
        end = end - 1;
    }
    let r = vstd::slice::slice_subrange(bytes, start, end);
    proof {
        let s = bytes@;
        lemma_trim_front(s, start as int);
        let t = s.skip(start as int);
        assert forall|j: int| end - start <= j < t.len() implies spec_is_blank(#[trigger] t[j]) by {
            assert(t[j] == s[start + j]);
        }
        if t.len() > 0 && end > start {
            assert(t[0] == s[start as int]);
        }
        lemma_trim_back(t, end - start);
        assert(t.take(end - start) =~= r@);
        if r@.len() > 0 {
            assert(r@[0] == s[start as int]);
            assert(r@.last() == s[end - 1]);
        }
        lemma_trim_done(r@);
    }
    r
}

/// The ASCII lower case of `b`.
pub open spec fn spec_lower(b: u8) -> u8 {
    if 65 <= b <= 90 {
        (b + 32) as u8
    } else {
        b
    }
}

/// Whether `v` spells `s` with ASCII letters in either case.
pub open spec fn spec_eq_ignore_ascii_case(v: Seq<u8>, s: Seq<u8>) -> bool {
    &&& v.len() == s.len()
    &&& forall|i: int| 0 <= i < v.len() ==> spec_lower(#[trigger] v[i]) == spec_lower(s[i])
}

fn eq_ignore_ascii_case(v: &[u8], s: &[u8]) -> (r: bool)
    ensures
        r == spec_eq_ignore_ascii_case(v@, s@),
{
    if v.len() != s.len() {
        return false;
    }
    let mut i: usize = 0;
    while i < v.len()
        invariant
            v@.len() == s@.len(),
            i <= v@.len(),
            forall|j: int| 0 <= j < i ==> spec_lower(#[trigger] v@[j]) == spec_lower(s@[j]),
        decreases v@.len() - i,
    {
        let a = if 65 <= v[i] && v[i] <= 90 { v[i] + 32 } else { v[i] };
        let b = if 65 <= s[i] && s[i] <= 90 { s[i] + 32 } else { s[i] };
        if a != b {
            return false;
        }
        i = i + 1;
    }
    true
}

/// The bytes of the word `trailers`.
pub open spec fn spec_trailers() -> Seq<u8> {
    seq![116u8, 114, 97, 105, 108, 101, 114, 115]
}

/// Whether a `te` value is `trailers`, up to case and surrounding blanks.
pub open spec fn spec_te_valid(v: Seq<u8>) -> bool {
    spec_eq_ignore_ascii_case(spec_trim(v), spec_trailers())
}

fn te_valid(v: &[u8]) -> (b: bool)
    ensures
        b == spec_te_valid(v@),
{
    let t = trim_ascii_whitespace(v);
    let trailers: [u8; 8] = [116, 114, 97, 105, 108, 101, 114, 115];
    proof {
        assert(trailers@ =~= spec_trailers());
    }
    eq_ignore_ascii_case(t, trailers.as_slice())
}

// ---- field lines ----

/// A field line read: a pseudo-header field or a regular field.
#[derive(Debug)]
pub enum Field {
    /// `:method`
    Method(Vec<u8>),
    /// `:scheme`
    Scheme(Vec<u8>),
    /// `:authority`
    Authority(Vec<u8>),
    /// `:path`, without its fragment
    Path(Vec<u8>),
    /// `:status`
    Status(u16),
    /// `:protocol`
    Protocol(Protocol),
    /// A regular field: name and value
    Header(Vec<u8>, Vec<u8>),
}

/// A field line read, as plain values.
pub ghost enum FieldModel {
    Method(Seq<u8>),
    Scheme(Seq<u8>),
    Authority(Seq<u8>),
    Path(Seq<u8>),
    Status(u16),
    Protocol(Protocol),
    Header(Seq<u8>, Seq<u8>),
}

impl View for Field {
    type V = FieldModel;

    open spec fn view(&self) -> FieldModel {
        match self {
            Field::Method(v) => FieldModel::Method(v@),
            Field::Scheme(v) => FieldModel::Scheme(v@),
            Field::Authority(v) => FieldModel::Authority(v@),
            Field::Path(v) => FieldModel::Path(v@),
            Field::Status(c) => FieldModel::Status(*c),
            Field::Protocol(p) => FieldModel::Protocol(*p),
            Field::Header(n, v) => FieldModel::Header(n@, v@),
        }
    }
}

/// A value read through `std::str::from_utf8` and then `FromStr`: refused
/// with the name and value when either refuses it.
pub open spec fn spec_checked_value(n: Seq<u8>, v: Seq<u8>, ok: bool, f: FieldModel) -> Result<FieldModel, HeaderErrorModel> {
    if spec_utf8_valid(v) && ok {
        Ok(f)
    } else {
        Err(HeaderErrorModel::InvalidHeaderValue(spec_invalid_value_message(n, v)))
    }
}

/// A path and query without its fragment: what comes before the first `#`
/// (`http::uri::PathAndQuery` drops the fragment).
pub open spec fn spec_strip_fragment(v: Seq<u8>) -> Seq<u8>
    decreases v.len(),
{
    if v.len() == 0 {
        v
    } else if v[0] == 35 {
        Seq::empty()
    } else {
        seq![v[0]] + spec_strip_fragment(v.drop_first())
    }
}

fn strip_fragment(v: &[u8]) -> (r: Vec<u8>)
    ensures
        r@ == spec_strip_fragment(v@),
{
    let mut i: usize = 0;
    proof {
        assert(v@.skip(0) =~= v@);
        assert(v@.take(0) + spec_strip_fragment(v@.skip(0)) =~= spec_strip_fragment(v@));
    }
    while i < v.len() && v[i] != 35
        invariant
            i <= v@.len(),
            spec_strip_fragment(v@) == v@.take(i as int) + spec_strip_fragment(v@.skip(i as int)),
        decreases v.len() - i,
    {
        proof {
            let t = v@.skip(i as int);
            assert(t.drop_first() =~= v@.skip(i + 1));
            assert(v@.take(i + 1) =~= v@.take(i as int) + seq![v@[i as int]]);
            assert(v@.take(i + 1) + spec_strip_fragment(v@.skip(i + 1)) =~= v@.take(i as int)
                + spec_strip_fragment(t));
        }
        i = i + 1;
    }
    proof {
        if i < v.len() {
            assert(v@.skip(i as int)[0] == 35);
        } else {
            assert(v@.skip(i as int) =~= Seq::<u8>::empty());
        }
        assert(v@.take(i as int) + Seq::<u8>::empty() =~= v@.take(i as int));
    }
    vstd::slice::slice_to_vec(vstd::slice::slice_subrange(v, 0, i))
}

/// Reading the `:protocol` value `v`.
pub open spec fn spec_protocol_value(v: Seq<u8>) -> Option<Protocol> {
    if spec_bytes_match(v, "webtransport"@) {
        Some(Protocol::web_transport_spec())
    } else if spec_bytes_match(v, "connect-udp"@) {
        Some(Protocol::connect_udp_spec())
    } else {
        None
    }
}

/// Reading the field line `(n, v)` (RFC 9114 sections 4.2, 4.3 and 10.3):
/// a regular field needs a lower-case valid name that is not
/// connection-specific, a `te` field the value `trailers`, and a valid
/// value; a pseudo-header field must be one of those defined, with a value
/// of its kind.
pub open spec fn spec_parse_field(n: Seq<u8>, v: Seq<u8>) -> Result<FieldModel, HeaderErrorModel> {
    if n.len() == 0 {
        Err(HeaderErrorModel::InvalidHeaderName("name is empty"@))
    } else if n[0] != 58 {
        if !spec_header_name_valid(n) {
            Err(HeaderErrorModel::InvalidHeaderName(spec_debug_bytes(n)))
        } else if spec_is_connection_specific(n) {
            Err(HeaderErrorModel::ConnectionSpecificHeader(spec_ascii_chars(n)))
        } else if spec_bytes_match(n, "te"@) && !spec_te_valid(v) {
            Err(HeaderErrorModel::InvalidTeHeader)
        } else if !spec_header_value_valid(v) {
            Err(HeaderErrorModel::InvalidHeaderValue(spec_invalid_value_message(n, v)))
        } else {
            Ok(FieldModel::Header(n, v))
        }
    } else if spec_bytes_match(n, ":scheme"@) {
        spec_checked_value(n, v, spec_scheme_valid(v), FieldModel::Scheme(v))
    } else if spec_bytes_match(n, ":authority"@) {
        spec_checked_value(n, v, v.len() > 0 && spec_authority_valid(v), FieldModel::Authority(v))
    } else if spec_bytes_match(n, ":path"@) {
        spec_checked_value(n, v, v.len() > 0 && spec_path_and_query_valid(v), FieldModel::Path(spec_strip_fragment(v)))
    } else if spec_bytes_match(n, ":method"@) {
        if spec_method_valid(v) {
            Ok(FieldModel::Method(v))
        } else {
            Err(HeaderErrorModel::InvalidHeaderValue(spec_invalid_value_message(n, v)))
        }
    } else if spec_bytes_match(n, ":status"@) {
        match spec_status(v) {
            Some(c) => Ok(FieldModel::Status(c)),
            None => Err(HeaderErrorModel::InvalidHeaderValue(spec_invalid_value_message(n, v))),
        }
    } else if spec_bytes_match(n, ":protocol"@) {
        match spec_protocol_value(v) {
            Some(p) => spec_checked_value(n, v, true, FieldModel::Protocol(p)),
            None => Err(HeaderErrorModel::InvalidHeaderValue(spec_invalid_value_message(n, v))),
        }
    } else {
        Err(HeaderErrorModel::InvalidHeaderName(spec_debug_bytes(n)))
    }
}

fn protocol_value(v: &[u8]) -> (r: Option<Protocol>)
    ensures
        r == spec_protocol_value(v@),
{
    if bytes_match(v, "webtransport") {
        Some(Protocol::web_transport())
    } else if bytes_match(v, "connect-udp") {
        Some(Protocol::connect_udp())
    } else {
        None
    }
}

impl Field {
    /// Reads the field line `(name, value)`.
    pub fn parse(name: &[u8], value: &[u8]) -> (r: Result<Field, HeaderError>)
        ensures
            match spec_parse_field(name@, value@) {
                Ok(f) => r matches Ok(x) && x@ == f,
                Err(e) => r matches Err(x) && x@ == e,
            },
    {
        if name.len() == 0 {
            return Err(HeaderError::InvalidHeaderName("name is empty".to_owned()));
        }
        if name[0] != 58 {
            if !header_name_valid(name) {
                return Err(invalid_name(name));
            }
            if is_connection_specific(name) {
                return Err(HeaderError::ConnectionSpecificHeader(ascii_string(name)));
            }
            if bytes_match(name, "te") && !te_valid(value) {
                return Err(HeaderError::InvalidTeHeader);
            }
            if !header_value_valid(value) {
                return Err(invalid_value(name, value));
            }
            return Ok(Field::Header(vstd::slice::slice_to_vec(name), vstd::slice::slice_to_vec(value)));
        }
        if bytes_match(name, ":scheme") {
            if utf8_valid(value) && scheme_valid(value) {
                Ok(Field::Scheme(vstd::slice::slice_to_vec(value)))
            } else {
                Err(invalid_value(name, value))
            }
        } else if bytes_match(name, ":authority") {
            if utf8_valid(value) && authority_valid(value) {
                Ok(Field::Authority(vstd::slice::slice_to_vec(value)))
            } else {
                Err(invalid_value(name, value))
            }
        } else if bytes_match(name, ":path") {
            if utf8_valid(value) && path_and_query_valid(value) {
                Ok(Field::Path(strip_fragment(value)))
            } else {
                Err(invalid_value(name, value))
            }
        } else if bytes_match(name, ":method") {
            if method_valid(value) {
                Ok(Field::Method(vstd::slice::slice_to_vec(value)))
            } else {
                Err(invalid_value(name, value))
            }
        } else if bytes_match(name, ":status") {
            match status_from_bytes(value) {
                Some(c) => Ok(Field::Status(c)),
                None => Err(invalid_value(name, value)),
            }
        } else if bytes_match(name, ":protocol") {
            match protocol_value(value) {
                Some(p) => if utf8_valid(value) {
                    Ok(Field::Protocol(p))
                } else {
                    Err(invalid_value(name, value))
                },
                None => Err(invalid_value(name, value)),
            }
        } else {
            Err(invalid_name(name))
        }
    }
}

// ---- the regular fields ----

/// The index of the first field named `n` in `s`, `-1` when there is none.
pub open spec fn spec_first_index(s: Seq<(Seq<u8>, Seq<u8>)>, n: Seq<u8>) -> int
    decreases s.len(),
{
    if s.len() == 0 {
        -1
    } else {
        let k = spec_first_index(s.drop_last(), n);
        if k >= 0 {
            k
        } else if s.last().0 == n {
            s.len() - 1
        } else {
            -1
        }
    }
}

/// The index of the last field named `n` in `s`, `-1` when there is none.
pub open spec fn spec_last_index(s: Seq<(Seq<u8>, Seq<u8>)>, n: Seq<u8>) -> int
    decreases s.len(),
{
    if s.len() == 0 {
        -1
    } else if s.last().0 == n {
        s.len() - 1
    } else {
        spec_last_index(s.drop_last(), n)
    }
}

/// The first value of the field named `n`.
pub open spec fn spec_get(s: Seq<(Seq<u8>, Seq<u8>)>, n: Seq<u8>) -> Option<Seq<u8>> {
    let k = spec_first_index(s, n);
    if k >= 0 {
        Some(s[k].1)
    } else {
        None
    }
}

/// Adding the field `(n, v)`: after the last field of that name, or at the
/// end when there is none.
pub open spec fn spec_append(s: Seq<(Seq<u8>, Seq<u8>)>, n: Seq<u8>, v: Seq<u8>) -> Seq<(Seq<u8>, Seq<u8>)> {
    let k = spec_last_index(s, n);
    if k >= 0 {
        s.insert(k + 1, (n, v))
    } else {
        s.push((n, v))
    }
}

proof fn lemma_first_index_bounds(s: Seq<(Seq<u8>, Seq<u8>)>, n: Seq<u8>)
    ensures
        -1 <= spec_first_index(s, n) < s.len(),
        spec_first_index(s, n) >= 0 ==> s[spec_first_index(s, n)].0 == n,
    decreases s.len(),
{
    if s.len() > 0 {
        lemma_first_index_bounds(s.drop_last(), n);
    }
}

proof fn lemma_last_index_bounds(s: Seq<(Seq<u8>, Seq<u8>)>, n: Seq<u8>)
    ensures
        -1 <= spec_last_index(s, n) < s.len(),
    decreases s.len(),
{
    if s.len() > 0 {
        lemma_last_index_bounds(s.drop_last(), n);
    }
}

fn find_first(fields: &Vec<HeaderField>, n: &[u8]) -> (r: Option<usize>)
    ensures
        match r {
            Some(i) => i as int == spec_first_index(spec_fields(fields@), n@) && i < fields@.len(),
            None => spec_first_index(spec_fields(fields@), n@) == -1,
        },
{
    let ghost f = spec_fields(fields@);
    let mut i: usize = 0;
    while i < fields.len()
        invariant
            f == spec_fields(fields@),
            i <= fields@.len(),
            spec_first_index(f.take(i as int), n@) == -1,
        decreases fields@.len() - i,
    {
        assert(f.take(i + 1).drop_last() =~= f.take(i as int));
        if bytes_eq(fields[i].name.as_slice(), n) {
            proof {
                lemma_first_index_prefix(f, i + 1, n@);
            }
            return Some(i);
        }
        i = i + 1;
    }
    assert(f.take(i as int) =~= f);
    None
}

proof fn lemma_first_index_prefix(s: Seq<(Seq<u8>, Seq<u8>)>, k: int, n: Seq<u8>)
    requires
        0 <= k <= s.len(),
        spec_first_index(s.take(k), n) >= 0,
    ensures
        spec_first_index(s, n) == spec_first_index(s.take(k), n),
    decreases s.len(),
{
    if k == s.len() {
        assert(s.take(k) =~= s);
    } else {
        assert(s.drop_last().take(k) =~= s.take(k));
        lemma_first_index_prefix(s.drop_last(), k, n);
    }
}

fn find_last(fields: &Vec<HeaderField>, n: &[u8]) -> (r: Option<usize>)
    ensures
        match r {
            Some(i) => i as int == spec_last_index(spec_fields(fields@), n@) && i < fields@.len(),
            None => spec_last_index(spec_fields(fields@), n@) == -1,
        },
{
    let ghost f = spec_fields(fields@);
    let mut i: usize = fields.len();
    assert(f.take(i as int) =~= f);
    while i > 0
        invariant
            f == spec_fields(fields@),
            i <= fields@.len(),
            spec_last_index(f, n@) == spec_last_index(f.take(i as int), n@),
        decreases i,
    {
        assert(f.take(i as int).drop_last() =~= f.take(i - 1));
        if bytes_eq(fields[i - 1].name.as_slice(), n) {
            return Some(i - 1);
        }
        i = i - 1;
    }
    None
}

/// Adds the field `(name, value)` after the last one of that name, or at the
/// end when there is none.
fn append_field(fields: &mut Vec<HeaderField>, name: Vec<u8>, value: Vec<u8>)
    ensures
        spec_fields(final(fields)@) == spec_append(spec_fields(old(fields)@), name@, value@),
{
    let ghost n = name@;
    let ghost v = value@;
    let len = fields.len();
    match find_last(fields, name.as_slice()) {
        Some(i) => {
            assert(i < len);
            fields.insert(i + 1, HeaderField { name, value });
            assert(spec_fields(fields@) =~= spec_fields(old(fields)@).insert(i + 1, (n, v)));
        },
        None => {
            fields.push(HeaderField { name, value });
            assert(spec_fields(fields@) =~= spec_fields(old(fields)@).push((n, v)));
        },
    }
}

/// The bytes of the name `cookie`.
pub open spec fn spec_cookie() -> Seq<u8> {
    seq![99u8, 111, 111, 107, 105, 101]
}

/// Adding the cookie `v`: joined to the cookie already there with `; `
/// (RFC 9114 section 4.2.1), or added when there is none; refused when the
/// joined value is not a valid field value.
pub open spec fn spec_add_cookie(s: Seq<(Seq<u8>, Seq<u8>)>, v: Seq<u8>) -> Result<Seq<(Seq<u8>, Seq<u8>)>, HeaderErrorModel> {
    let k = spec_first_index(s, spec_cookie());
    if k >= 0 {
        let joined = s[k].1 + seq![59u8, 32] + v;
        if spec_header_value_valid(joined) {
            Ok(s.update(k, (spec_cookie(), joined)))
        } else {
            Err(HeaderErrorModel::InvalidHeaderValue(spec_invalid_value_message(spec_cookie(), v)))
        }
    } else {
        Ok(s.push((spec_cookie(), v)))
    }
}

fn add_cookie(fields: &mut Vec<HeaderField>, value: Vec<u8>) -> (r: Result<(), HeaderError>)
    ensures
        match spec_add_cookie(spec_fields(old(fields)@), value@) {
            Ok(s) => r is Ok && spec_fields(final(fields)@) == s,
            Err(e) => r matches Err(x) && x@ == e,
        },
{
    let cookie: [u8; 6] = [99, 111, 111, 107, 105, 101];
    assert(cookie@ =~= spec_cookie());
    let ghost old_f = spec_fields(fields@);
    match find_first(fields, cookie.as_slice()) {
        Some(i) => {
            let mut joined = fields[i].value.clone();
            joined.push(59);
            joined.push(32);
            joined.extend_from_slice(value.as_slice());
            proof {
                lemma_first_index_bounds(old_f, spec_cookie());
                assert(joined@ =~= old_f[i as int].1 + seq![59u8, 32] + value@);
            }
            if !header_value_valid(joined.as_slice()) {
                return Err(invalid_value(cookie.as_slice(), value.as_slice()));
            }
            let ghost j = joined@;
            fields.set(i, HeaderField { name: vstd::slice::slice_to_vec(cookie.as_slice()), value: joined });
            assert(spec_fields(fields@) =~= old_f.update(i as int, (spec_cookie(), j)));
            Ok(())
        },
        None => {
            let ghost v = value@;
            fields.push(HeaderField { name: vstd::slice::slice_to_vec(cookie.as_slice()), value });
            assert(spec_fields(fields@) =~= old_f.push((spec_cookie(), v)));
            Ok(())
        },
    }
}

// ---- pseudo-header fields ----

/// The pseudo-header fields of a field section, as plain values.
pub ghost struct PseudoModel {
    pub method: Option<Seq<u8>>,
    pub scheme: Option<Seq<u8>>,
    pub authority: Option<Seq<u8>>,
    pub path: Option<Seq<u8>>,
    pub status: Option<u16>,
    pub protocol: Option<Protocol>,
    pub len: nat,
}

/// The pseudo-header fields of a field section: those of a request
/// (`:method`, `:scheme`, `:authority`, `:path`, `:protocol`) or of a response
/// (`:status`), and how many were read.
#[derive(Debug)]
pub struct Pseudo {
    method: Option<Vec<u8>>,
    scheme: Option<Vec<u8>>,
    authority: Option<Vec<u8>>,
    path: Option<Vec<u8>>,
    status: Option<u16>,
    protocol: Option<Protocol>,
    len: usize,
}

/// An optional byte string as plain values.
pub open spec fn spec_opt(o: Option<Vec<u8>>) -> Option<Seq<u8>> {
    match o {
        Some(v) => Some(v@),
        None => None,
    }
}

impl View for Pseudo {
    type V = PseudoModel;

    closed spec fn view(&self) -> PseudoModel {
        PseudoModel {
            method: spec_opt(self.method),
            scheme: spec_opt(self.scheme),
            authority: spec_opt(self.authority),
            path: spec_opt(self.path),
            status: self.status,
            protocol: self.protocol,
            len: self.len as nat,
        }
    }
}

/// No pseudo-header field.
pub open spec fn spec_no_pseudo() -> PseudoModel {
    PseudoModel { method: None, scheme: None, authority: None, path: None, status: None, protocol: None, len: 0 }
}

/// Recording the pseudo-header field `f`: it replaces an earlier one of its
/// kind, and counts.
pub open spec fn spec_set_pseudo(p: PseudoModel, f: FieldModel) -> PseudoModel {
    match f {
        FieldModel::Method(m) => PseudoModel { method: Some(m), len: p.len + 1, ..p },
        FieldModel::Scheme(x) => PseudoModel { scheme: Some(x), len: p.len + 1, ..p },
        FieldModel::Authority(a) => PseudoModel { authority: Some(a), len: p.len + 1, ..p },
        FieldModel::Path(x) => PseudoModel { path: Some(x), len: p.len + 1, ..p },
        FieldModel::Status(c) => PseudoModel { status: Some(c), len: p.len + 1, ..p },
        FieldModel::Protocol(x) => PseudoModel { protocol: Some(x), len: p.len + 1, ..p },
        FieldModel::Header(_, _) => p,
    }
}

/// The bytes of `CONNECT`.
pub open spec fn spec_connect() -> Seq<u8> {
    seq![67u8, 79, 78, 78, 69, 67, 84]
}

/// The bytes of `https`.
pub open spec fn spec_https() -> Seq<u8> {
    seq![104u8, 116, 116, 112, 115]
}

/// The pseudo-header fields of a request (RFC 9114 sections 4.3.1 and 4.4,
/// RFC 8441 section 4): the path defaults to `/`; `:protocol` is sent only
/// with CONNECT; a CONNECT without `:protocol` has neither scheme nor path;
/// otherwise the scheme defaults to `https`.
pub open spec fn spec_pseudo_request(
    method: Seq<u8>,
    scheme: Option<Seq<u8>>,
    authority: Option<Seq<u8>>,
    path: Option<Seq<u8>>,
    protocol: Option<Protocol>,
) -> PseudoModel {
    let path = match path {
        Some(p) => p,
        None => seq![47u8],
    };
    let protocol = if method == spec_connect() {
        protocol
    } else {
        None
    };
    let plain_connect = method == spec_connect() && protocol is None;
    PseudoModel {
        method: Some(method),
        scheme: if plain_connect {
            None
        } else {
            match scheme {
                Some(s) => Some(s),
                None => Some(spec_https()),
            }
        },
        authority,
        path: if plain_connect {
            None
        } else {
            Some(path)
        },
        status: None,
        protocol,
        len: (3 + (if authority is Some { 1int } else { 0 }) + (if protocol is Some { 1int } else { 0 })) as nat,
    }
}

impl Pseudo {
    fn default() -> (p: Pseudo)
        ensures
            p@ == spec_no_pseudo(),
    {
        Pseudo { method: None, scheme: None, authority: None, path: None, status: None, protocol: None, len: 0 }
    }

    fn request(
        method: Vec<u8>,
        scheme: Option<Vec<u8>>,
        authority: Option<Vec<u8>>,
        path: Option<Vec<u8>>,
        protocol: Option<Protocol>,
    ) -> (p: Pseudo)
        ensures
            p@ == spec_pseudo_request(method@, spec_opt(scheme), spec_opt(authority), spec_opt(path), protocol),
    {
        let connect: [u8; 7] = [67, 79, 78, 78, 69, 67, 84];
        assert(connect@ =~= spec_connect());
        let path = match path {
            Some(p) => p,
            None => {
                let v: Vec<u8> = vec![47u8];
                assert(v@ =~= seq![47u8]);
                v
            },
        };
        let is_connect = bytes_eq(method.as_slice(), connect.as_slice());
        let protocol = if is_connect {
            protocol
        } else {
            None
        };
        let plain_connect = is_connect && protocol.is_none();
        let (scheme, path) = if plain_connect {
            (None, None)
        } else {
            let scheme = match scheme {
                Some(s) => s,
                None => {
                    let v: Vec<u8> = vec![104u8, 116, 116, 112, 115];
                    assert(v@ =~= spec_https());
                    v
                },
            };
            (Some(scheme), Some(path))
        };
        let len: usize = 3 + (if authority.is_some() { 1usize } else { 0 }) + (if protocol.is_some() { 1usize } else { 0 });
        Pseudo { method: Some(method), scheme, authority, path, status: None, protocol, len }
    }

    fn response(status: u16) -> (p: Pseudo)
        ensures
            p@ == (PseudoModel { status: Some(status), len: 1, ..spec_no_pseudo() }),
    {
        Pseudo { method: None, scheme: None, authority: None, path: None, status: Some(status), len: 1, protocol: None }
    }
}

// ---- reading a field section ----

/// What reading a field section has gathered so far.
pub ghost struct ReadState {
    pub pseudo: PseudoModel,
    pub fields: Seq<(Seq<u8>, Seq<u8>)>,
    pub regular_seen: bool,
}

/// Reading one more field line (RFC 9114 section 4.3): a pseudo-header field
/// after a regular field is refused; cookies are joined.
pub open spec fn spec_read_step(st: ReadState, line: (Seq<u8>, Seq<u8>)) -> Result<ReadState, HeaderErrorModel> {
    match spec_parse_field(line.0, line.1) {
        Err(e) => Err(e),
        Ok(FieldModel::Header(n, v)) => if n == spec_cookie() {
            match spec_add_cookie(st.fields, v) {
                Ok(f) => Ok(ReadState { fields: f, regular_seen: true, ..st }),
                Err(e) => Err(e),
            }
        } else {
            Ok(ReadState { fields: spec_append(st.fields, n, v), regular_seen: true, ..st })
        },
        Ok(f) => if st.regular_seen {
            Err(HeaderErrorModel::PseudoAfterRegularField)
        } else {
            Ok(ReadState { pseudo: spec_set_pseudo(st.pseudo, f), ..st })
        },
    }
}

/// Reading the field lines `lines` in order.
pub open spec fn spec_read(lines: Seq<(Seq<u8>, Seq<u8>)>) -> Result<ReadState, HeaderErrorModel>
    decreases lines.len(),
{
    if lines.len() == 0 {
        Ok(ReadState { pseudo: spec_no_pseudo(), fields: Seq::empty(), regular_seen: false })
    } else {
        match spec_read(lines.drop_last()) {
            Err(e) => Err(e),
            Ok(st) => spec_read_step(st, lines.last()),
        }
    }
}

proof fn lemma_read_error_prefix(lines: Seq<(Seq<u8>, Seq<u8>)>, k: int)
    requires
        0 <= k <= lines.len(),
        spec_read(lines.take(k)) is Err,
    ensures
        spec_read(lines) == spec_read(lines.take(k)),
    decreases lines.len(),
{
    if k == lines.len() {
        assert(lines.take(k) =~= lines);
    } else {
        assert(lines.drop_last().take(k) =~= lines.take(k));
        lemma_read_error_prefix(lines.drop_last(), k);
    }
}

proof fn lemma_read_len(lines: Seq<(Seq<u8>, Seq<u8>)>)
    ensures
        spec_read(lines) matches Ok(st) ==> st.pseudo.len <= lines.len(),
    decreases lines.len(),
{
    if lines.len() > 0 {
        lemma_read_len(lines.drop_last());
    }
}

/// A field section: its pseudo-header fields and its regular fields.
#[derive(Debug)]
pub struct Header {
    pseudo: Pseudo,
    fields: Vec<HeaderField>,
}

impl View for Header {
    type V = (PseudoModel, Seq<(Seq<u8>, Seq<u8>)>);

    closed spec fn view(&self) -> (PseudoModel, Seq<(Seq<u8>, Seq<u8>)>) {
        (self.pseudo@, spec_fields(self.fields@))
    }
}

impl Header {
    /// Reads a decoded field section.
    pub fn try_from(headers: Vec<HeaderField>) -> (r: Result<Header, HeaderError>)
        ensures
            match spec_read(spec_fields(headers@)) {
                Ok(st) => r matches Ok(h) && h@ == (st.pseudo, st.fields),
                Err(e) => r matches Err(x) && x@ == e,
            },
    {
        let ghost lines = spec_fields(headers@);
        let mut fields: Vec<HeaderField> = Vec::new();
        let mut pseudo = Pseudo::default();
        let mut regular_field_seen = false;
        let mut i: usize = 0;
        assert(lines.take(0) =~= Seq::<(Seq<u8>, Seq<u8>)>::empty());
        assert(spec_fields(fields@) =~= Seq::<(Seq<u8>, Seq<u8>)>::empty());
        while i < headers.len()
            invariant
                lines == spec_fields(headers@),
                i <= headers@.len(),
                spec_read(lines.take(i as int)) == Ok::<ReadState, HeaderErrorModel>(ReadState {
                    pseudo: pseudo@,
                    fields: spec_fields(fields@),
                    regular_seen: regular_field_seen,
                }),
                pseudo@.len <= i,
            decreases headers@.len() - i,
        {
            let ghost st = ReadState { pseudo: pseudo@, fields: spec_fields(fields@), regular_seen: regular_field_seen };
            assert(lines.take(i + 1).drop_last() =~= lines.take(i as int));
            assert(lines.take(i + 1).last() == lines[i as int]);
            let line = &headers[i];
            let field = match Field::parse(line.name.as_slice(), line.value.as_slice()) {
                Ok(f) => f,
                Err(e) => {
                    proof {
                        lemma_read_error_prefix(lines, i + 1);
                    }
                    return Err(e);
                },
            };
            match field {
                Field::Header(n, v) => {
                    let cookie: [u8; 6] = [99, 111, 111, 107, 105, 101];
                    assert(cookie@ =~= spec_cookie());
                    if bytes_eq(n.as_slice(), cookie.as_slice()) {
                        match add_cookie(&mut fields, v) {
                            Ok(()) => {},
                            Err(e) => {
                                proof {
                                    lemma_read_error_prefix(lines, i + 1);
                                }
                                return Err(e);
                            },
                        }
                    } else {
                        append_field(&mut fields, n, v);
                    }
                    regular_field_seen = true;
                },
                _ => {
                    if regular_field_seen {
                        proof {
                            lemma_read_error_prefix(lines, i + 1);
                        }
                        return Err(HeaderError::PseudoAfterRegularField);
                    }
                    match field {
                        Field::Method(m) => {
                            pseudo.method = Some(m);
                        },
                        Field::Scheme(x) => {
                            pseudo.scheme = Some(x);
                        },
                        Field::Authority(a) => {
                            pseudo.authority = Some(a);
                        },
                        Field::Path(x) => {
                            pseudo.path = Some(x);
                        },
                        Field::Status(c) => {
                            pseudo.status = Some(c);
                        },
                        Field::Protocol(x) => {
                            pseudo.protocol = Some(x);
                        },
                        Field::Header(_, _) => {},
                    }
                    pseudo.len = pseudo.len + 1;
                },
            }
            i = i + 1;
        }
        assert(lines.take(i as int) =~= lines);
        Ok(Header { pseudo, fields })
    }
}

// ---- building and taking apart field sections ----

/// The bytes of the name `host`.
pub open spec fn spec_host() -> Seq<u8> {
    seq![104u8, 111, 115, 116]
}

/// The bytes of the name `te`.
pub open spec fn spec_te() -> Seq<u8> {
    seq![116u8, 101]
}

/// What is wrong with a regular field of a request: a connection-specific
/// field, or a `te` field whose value is not `trailers` (RFC 9114 section 4.2).
pub open spec fn spec_request_field_error(f: (Seq<u8>, Seq<u8>)) -> Option<HeaderErrorModel> {
    if spec_is_connection_specific(f.0) {
        Some(HeaderErrorModel::ConnectionSpecificHeader(spec_ascii_chars(f.0)))
    } else if f.0 == spec_te() && !spec_te_valid(f.1) {
        Some(HeaderErrorModel::InvalidTeHeader)
    } else {
        None
    }
}

/// What is wrong with a regular field of a response or trailers: a
/// connection-specific field or any `te` field.
pub open spec fn spec_response_field_error(f: (Seq<u8>, Seq<u8>)) -> Option<HeaderErrorModel> {
    if spec_is_connection_specific(f.0) || f.0 == spec_te() {
        Some(HeaderErrorModel::ConnectionSpecificHeader(spec_ascii_chars(f.0)))
    } else {
        None
    }
}

/// The first problem of the fields `s`, checked in order, for a request
/// (`request`) or else for a response or trailers.
pub open spec fn spec_first_field_error(s: Seq<(Seq<u8>, Seq<u8>)>, request: bool) -> Option<HeaderErrorModel>
    decreases s.len(),
{
    if s.len() == 0 {
        None
    } else {
        match spec_first_field_error(s.drop_last(), request) {
            Some(e) => Some(e),
            None => if request {
                spec_request_field_error(s.last())
            } else {
                spec_response_field_error(s.last())
            },
        }
    }
}

fn check_fields(fields: &Vec<HeaderField>, request: bool) -> (r: Option<HeaderError>)
    ensures
        match spec_first_field_error(spec_fields(fields@), request) {
            Some(e) => r matches Some(x) && x@ == e,
            None => r is None,
        },
{
    let ghost f = spec_fields(fields@);
    let te: [u8; 2] = [116, 101];
    assert(te@ =~= spec_te());
    let mut i: usize = 0;
    assert(f.take(0) =~= Seq::<(Seq<u8>, Seq<u8>)>::empty());
    while i < fields.len()
        invariant
            f == spec_fields(fields@),
            te@ == spec_te(),
            i <= fields@.len(),
            spec_first_field_error(f.take(i as int), request) is None,
        decreases fields@.len() - i,
    {
        assert(f.take(i + 1).drop_last() =~= f.take(i as int));
        let name = fields[i].name.as_slice();
        let is_te = bytes_eq(name, te.as_slice());
        if is_connection_specific(name) || (!request && is_te) {
            proof {
                lemma_field_error_prefix(f, i + 1, request);
            }
            return Some(HeaderError::ConnectionSpecificHeader(ascii_string(name)));
        }
        if request && is_te && !te_valid(fields[i].value.as_slice()) {
            proof {
                lemma_field_error_prefix(f, i + 1, request);
            }
            return Some(HeaderError::InvalidTeHeader);
        }
        i = i + 1;
    }
    assert(f.take(i as int) =~= f);
    None
}

proof fn lemma_field_error_prefix(s: Seq<(Seq<u8>, Seq<u8>)>, k: int, request: bool)
    requires
        0 <= k <= s.len(),
        spec_first_field_error(s.take(k), request) is Some,
    ensures
        spec_first_field_error(s, request) == spec_first_field_error(s.take(k), request),
    decreases s.len(),
{
    if k == s.len() {
        assert(s.take(k) =~= s);
    } else {
        assert(s.drop_last().take(k) =~= s.take(k));
        lemma_field_error_prefix(s.drop_last(), k, request);
    }
}

/// The parts of a request read from its field section: the method, the
/// scheme, authority and path its target was built from, the `:protocol`,
/// and the regular fields.
#[derive(Debug)]
pub struct RequestParts {
    /// The method
    pub method: Vec<u8>,
    /// The scheme of the target, when given
    pub scheme: Option<Vec<u8>>,
    /// The authority of the target
    pub authority: Vec<u8>,
    /// The path and query of the target, when given
    pub path: Option<Vec<u8>>,
    /// The extended CONNECT protocol
    pub protocol: Option<Protocol>,
    /// The regular fields
    pub fields: Vec<HeaderField>,
}

/// The authority of a request: from `:authority` or `host`, which must agree
/// when both are there (RFC 9114 section 4.3.1).
pub open spec fn spec_request_authority(authority: Option<Seq<u8>>, host: Option<Seq<u8>>) -> Result<Seq<u8>, HeaderErrorModel> {
    match (authority, host) {
        (None, None) => Err(HeaderErrorModel::MissingAuthority),
        (Some(a), None) => Ok(a),
        (None, Some(h)) => Ok(h),
        (Some(a), Some(h)) => if a != h {
            Err(HeaderErrorModel::ContradictedAuthority)
        } else {
            Ok(h)
        },
    }
}

/// The plain values of a request's parts: method, scheme, authority, path,
/// protocol and regular fields.
pub type RequestPartsModel = (Seq<u8>, Option<Seq<u8>>, Seq<u8>, Option<Seq<u8>>, Option<Protocol>, Seq<(Seq<u8>, Seq<u8>)>);

impl View for RequestParts {
    type V = RequestPartsModel;

    open spec fn view(&self) -> RequestPartsModel {
        (self.method@, spec_opt(self.scheme), self.authority@, spec_opt(self.path), self.protocol, spec_fields(self.fields@))
    }
}

/// What taking apart the field section `h` of a request gives: the
/// authority (see `spec_request_authority`), the method (`MissingMethod`
/// without one), and a target that the `http` crate builds into a URI
/// (`InvalidRequest` otherwise).
pub open spec fn spec_request_parts(h: (PseudoModel, Seq<(Seq<u8>, Seq<u8>)>)) -> Result<RequestPartsModel, HeaderErrorModel> {
    match spec_request_authority(h.0.authority, spec_get(h.1, spec_host())) {
        Err(e) => Err(e),
        Ok(a) => match h.0.method {
            None => Err(HeaderErrorModel::MissingMethod),
            Some(m) => if spec_uri_builds(h.0.path, h.0.scheme, a) {
                Ok((m, h.0.scheme, a, h.0.path, h.0.protocol, h.1))
            } else {
                Err(HeaderErrorModel::InvalidRequest)
            },
        },
    }
}

/// What taking apart the field section `h` of a response gives: its status
/// and fields; a `te` field is refused, and `:status` must be there.
pub open spec fn spec_response_parts(h: (PseudoModel, Seq<(Seq<u8>, Seq<u8>)>)) -> Result<(u16, Seq<(Seq<u8>, Seq<u8>)>), HeaderErrorModel> {
    if spec_first_index(h.1, spec_te()) >= 0 {
        Err(HeaderErrorModel::ConnectionSpecificHeader("te"@))
    } else {
        match h.0.status {
            None => Err(HeaderErrorModel::MissingStatus),
            Some(c) => Ok((c, h.1)),
        }
    }
}

/// What taking apart a trailer section `h` gives: its fields; no
/// pseudo-header field and no `te` field may be there.
pub open spec fn spec_trailer_parts(h: (PseudoModel, Seq<(Seq<u8>, Seq<u8>)>)) -> Result<Seq<(Seq<u8>, Seq<u8>)>, HeaderErrorModel> {
    if h.0.len > 0 {
        Err(HeaderErrorModel::PseudoInTrailer)
    } else if spec_first_index(h.1, spec_te()) >= 0 {
        Err(HeaderErrorModel::ConnectionSpecificHeader("te"@))
    } else {
        Ok(h.1)
    }
}

/// The status code as three ASCII digits.
pub open spec fn spec_status_bytes(c: u16) -> Seq<u8> {
    seq![(48 + c / 100) as u8, (48 + (c / 10) % 10) as u8, (48 + c % 10) as u8]
}

/// The field lines of a field section: the pseudo-header fields present, in
/// the order `:method`, `:scheme`, `:authority`, `:path`, `:status`,
/// `:protocol`, then the regular fields (RFC 9114 section 4.3).
pub open spec fn spec_field_lines(h: (PseudoModel, Seq<(Seq<u8>, Seq<u8>)>)) -> Seq<(Seq<u8>, Seq<u8>)> {
    let p = h.0;
    spec_line(":method"@, p.method) + spec_line(":scheme"@, p.scheme) + spec_line(":authority"@, p.authority)
        + spec_line(":path"@, p.path) + spec_line(
        ":status"@,
        match p.status {
            Some(c) => Some(spec_status_bytes(c)),
            None => None,
        },
    ) + spec_line(
        ":protocol"@,
        match p.protocol {
            Some(x) => Some(spec_char_bytes(x.spec_str())),
            None => None,
        },
    ) + h.1
}

/// The pseudo-header field line `name: v` when `v` is present.
pub open spec fn spec_line(name: Seq<char>, v: Option<Seq<u8>>) -> Seq<(Seq<u8>, Seq<u8>)> {
    match v {
        Some(x) => seq![(spec_char_bytes(name), x)],
        None => Seq::empty(),
    }
}

fn push_line(lines: &mut Vec<HeaderField>, name: &str, v: Option<Vec<u8>>)
    ensures
        spec_fields(final(lines)@) == spec_fields(old(lines)@) + spec_line(name@, spec_opt(v)),
{
    match v {
        Some(x) => {
            let ghost xv = x@;
            lines.push(HeaderField { name: char_bytes(name), value: x });
            assert(spec_fields(lines@) =~= spec_fields(old(lines)@) + seq![(spec_char_bytes(name@), xv)]);
        },
        None => {
            assert(spec_fields(lines@) =~= spec_fields(old(lines)@) + Seq::<(Seq<u8>, Seq<u8>)>::empty());
        },
    }
}

fn status_bytes(c: u16) -> (v: Vec<u8>)
    ensures
        v@ == spec_status_bytes(c),
{
    let d0 = (48 + c / 100) as u8;
    let d1 = (48 + (c / 10) % 10) as u8;
    let d2 = (48 + c % 10) as u8;
    let v: Vec<u8> = vec![d0, d1, d2];
    assert(v@ =~= spec_status_bytes(c));
    v
}

impl Header {
    /// The field section of a request (RFC 9114 sections 4.2 and 4.3.1):
    /// refused when a field is connection-specific or a `te` field other than
    /// `trailers`, when neither the target nor the `host` field gives an
    /// authority, or when they give different ones.
    pub fn request(
        method: Vec<u8>,
        scheme: Option<Vec<u8>>,
        authority: Option<Vec<u8>>,
        path: Option<Vec<u8>>,
        fields: Vec<HeaderField>,
        protocol: Option<Protocol>,
    ) -> (r: Result<Self, HeaderError>)
        ensures
            match spec_first_field_error(spec_fields(fields@), true) {
                Some(e) => r matches Err(x) && x@ == e,
                None => match spec_request_authority(spec_opt(authority), spec_get(spec_fields(fields@), spec_host())) {
                    Err(e) => r matches Err(x) && x@ == e,
                    Ok(_) => r matches Ok(h) && h@ == (
                        spec_pseudo_request(method@, spec_opt(scheme), spec_opt(authority), spec_opt(path), protocol),
                        spec_fields(fields@),
                    ),
                },
            },
    {
        if let Some(e) = check_fields(&fields, true) {
            return Err(e);
        }
        let host: [u8; 4] = [104, 111, 115, 116];
        assert(host@ =~= spec_host());
        let h = find_first(&fields, host.as_slice());
        proof {
            lemma_first_index_bounds(spec_fields(fields@), spec_host());
        }
        match (&authority, h) {
            (None, None) => return Err(HeaderError::MissingAuthority),
            (Some(a), Some(i)) => {
                if !bytes_eq(a.as_slice(), fields[i].value.as_slice()) {
                    return Err(HeaderError::ContradictedAuthority);
                }
            },
            _ => {},
        }
        Ok(Self { pseudo: Pseudo::request(method, scheme, authority, path, protocol), fields })
    }

    /// The field section of a response: refused when a field is
    /// connection-specific or a `te` field.
    pub fn response(status: u16, fields: Vec<HeaderField>) -> (r: Result<Self, HeaderError>)
        ensures
            match spec_first_field_error(spec_fields(fields@), false) {
                Some(e) => r matches Err(x) && x@ == e,
                None => r matches Ok(h) && h@ == (
                    PseudoModel { status: Some(status), len: 1, ..spec_no_pseudo() },
                    spec_fields(fields@),
                ),
            },
    {
        if let Some(e) = check_fields(&fields, false) {
            return Err(e);
        }
        Ok(Self { pseudo: Pseudo::response(status), fields })
    }

    /// A trailer section, without pseudo-header fields (RFC 9114 section
    /// 4.3): refused when a field is connection-specific or a `te` field.
    pub fn trailer(fields: Vec<HeaderField>) -> (r: Result<Self, HeaderError>)
        ensures
            match spec_first_field_error(spec_fields(fields@), false) {
                Some(e) => r matches Err(x) && x@ == e,
                None => r matches Ok(h) && h@ == (spec_no_pseudo(), spec_fields(fields@)),
            },
    {
        if let Some(e) = check_fields(&fields, false) {
            return Err(e);
        }
        Ok(Self { pseudo: Pseudo::default(), fields })
    }

    /// The parts of a request: the authority (see `spec_request_authority`),
    /// the method (`MissingMethod` without one), and a target that the
    /// `http` crate builds into a URI (`InvalidRequest` otherwise).
    pub fn into_request_parts(self) -> (r: Result<RequestParts, HeaderError>)
        ensures
            match spec_request_parts(self@) {
                Ok(v) => r matches Ok(p) && p@ == v,
                Err(e) => r matches Err(x) && x@ == e,
            },
            spec_request_authority(self@.0.authority, spec_get(self@.1, spec_host())) == Ok::<
                Seq<u8>,
                HeaderErrorModel,
            >(Seq::empty()) && self@.0.method is Some ==> r matches Err(HeaderError::InvalidRequest),
    {
        let Header { pseudo, fields } = self;
        let Pseudo { method, scheme, authority, path, status: _, protocol, len: _ } = pseudo;
        let host: [u8; 4] = [104, 111, 115, 116];
        assert(host@ =~= spec_host());
        let h = find_first(&fields, host.as_slice());
        proof {
            lemma_first_index_bounds(spec_fields(fields@), spec_host());
        }
        let authority: Vec<u8> = match (authority, h) {
            (None, None) => return Err(HeaderError::MissingAuthority),
            (Some(a), None) => a,
            (None, Some(i)) => fields[i].value.clone(),
            (Some(a), Some(i)) => {
                if !bytes_eq(a.as_slice(), fields[i].value.as_slice()) {
                    return Err(HeaderError::ContradictedAuthority);
                }
                fields[i].value.clone()
            },
        };
        let method = match method {
            Some(m) => m,
            None => return Err(HeaderError::MissingMethod),
        };
        let built = build_uri(
            match &path {
                Some(p) => Some(p.as_slice()),
                None => None,
            },
            match &scheme {
                Some(s) => Some(s.as_slice()),
                None => None,
            },
            authority.as_slice(),
        );
        if !built {
            return Err(HeaderError::InvalidRequest);
        }
        Ok(RequestParts { method, scheme, authority, path, protocol, fields })
    }

    /// The status and fields of a response (RFC 9114 sections 4.2 and
    /// 4.3.2): a `te` field is refused, and `:status` must be there.
    pub fn into_response_parts(self) -> (r: Result<(u16, Vec<HeaderField>), HeaderError>)
        ensures
            match spec_response_parts(self@) {
                Ok((c, fs)) => r matches Ok((s, f)) && s == c && spec_fields(f@) == fs,
                Err(e) => r matches Err(x) && x@ == e,
            },
    {
        let te: [u8; 2] = [116, 101];
        assert(te@ =~= spec_te());
        if find_first(&self.fields, te.as_slice()).is_some() {
            return Err(HeaderError::ConnectionSpecificHeader("te".to_owned()));
        }
        match self.pseudo.status {
            Some(s) => Ok((s, self.fields)),
            None => Err(HeaderError::MissingStatus),
        }
    }

    /// The fields of a trailer section (RFC 9114 sections 4.2 and 4.3): no
    /// pseudo-header field, no `te` field.
    pub fn into_trailer_parts(self) -> (r: Result<Vec<HeaderField>, HeaderError>)
        ensures
            match spec_trailer_parts(self@) {
                Ok(fs) => r matches Ok(f) && spec_fields(f@) == fs,
                Err(e) => r matches Err(x) && x@ == e,
            },
    {
        if self.pseudo.len > 0 {
            return Err(HeaderError::PseudoInTrailer);
        }
        let te: [u8; 2] = [116, 101];
        assert(te@ =~= spec_te());
        if find_first(&self.fields, te.as_slice()).is_some() {
            return Err(HeaderError::ConnectionSpecificHeader("te".to_owned()));
        }
        Ok(self.fields)
    }

    /// The `:authority` pseudo-header field, if any.
    pub fn authority(&self) -> (a: Option<&Vec<u8>>)
        ensures
            match a {
                Some(v) => self@.0.authority == Some(v@),
                None => self@.0.authority is None,
            },
    {
        match &self.pseudo.authority {
            Some(v) => Some(v),
            None => None,
        }
    }

    /// The regular fields.
    pub fn into_fields(self) -> (f: Vec<HeaderField>)
        ensures
            spec_fields(f@) == self@.1,
    {
        self.fields
    }

    /// The number of field lines: pseudo-header fields and regular fields.
    pub fn len(&self) -> (n: usize)
        requires
            self@.0.len + self@.1.len() <= usize::MAX,
        ensures
            n == self@.0.len + self@.1.len(),
    {
        self.pseudo.len + self.fields.len()
    }

    /// The number of field lines, as `len`.
    pub fn size(&self) -> (n: usize)
        requires
            self@.0.len + self@.1.len() <= usize::MAX,
        ensures
            n == self@.0.len + self@.1.len(),
    {
        self.pseudo.len + self.fields.len()
    }
}

impl Header {
    /// The field lines of the section: the pseudo-header fields first, then
    /// the regular fields (see `spec_field_lines`).
    pub fn into_iter(self) -> (lines: Vec<HeaderField>)
        ensures
            spec_fields(lines@) == spec_field_lines(self@),
    {
        let ghost h = self@;
        let Header { pseudo, fields } = self;
        let mut lines: Vec<HeaderField> = Vec::new();
        assert(spec_fields(lines@) =~= Seq::<(Seq<u8>, Seq<u8>)>::empty());
        push_line(&mut lines, ":method", pseudo.method);
        push_line(&mut lines, ":scheme", pseudo.scheme);
        push_line(&mut lines, ":authority", pseudo.authority);
        push_line(&mut lines, ":path", pseudo.path);
        let status = match pseudo.status {
            Some(c) => Some(status_bytes(c)),
            None => None,
        };
        push_line(&mut lines, ":status", status);
        let protocol = match pseudo.protocol {
            Some(p) => Some(char_bytes(p.as_str())),
            None => None,
        };
        push_line(&mut lines, ":protocol", protocol);
        let ghost before = spec_fields(lines@);
        let mut fields = fields;
        lines.append(&mut fields);
        assert(spec_fields(lines@) =~= before + h.1);
        assert(spec_fields(lines@) =~= spec_field_lines(h));
        lines
    }
}

// ---- what an accepted field section holds ----

/// A field line whose name starts with `:`.
pub open spec fn spec_is_pseudo_line(l: (Seq<u8>, Seq<u8>)) -> bool {
    l.0.len() > 0 && l.0[0] == 58
}

/// A regular field an accepted section may hold: a valid lower-case name
/// that is not connection-specific, a valid value, and `trailers` as the
/// value of `te`.
pub open spec fn spec_acceptable_field(f: (Seq<u8>, Seq<u8>)) -> bool {
    &&& spec_header_name_valid(f.0)
    &&& !spec_is_connection_specific(f.0)
    &&& spec_header_value_valid(f.1)
    &&& (spec_bytes_match(f.0, "te"@) ==> spec_te_valid(f.1))
}

proof fn lemma_parse_field_kind(n: Seq<u8>, v: Seq<u8>)
    ensures
        spec_parse_field(n, v) matches Ok(FieldModel::Header(a, b)) ==> a == n && b == v && !spec_is_pseudo_line((n, v))
            && spec_acceptable_field((n, v)),
        spec_parse_field(n, v) matches Ok(f) ==> (!(f is Header) <==> spec_is_pseudo_line((n, v))),
{
}

proof fn lemma_cookie_acceptable()
    ensures
        spec_header_name_valid(spec_cookie()),
        !spec_is_connection_specific(spec_cookie()),
        !spec_bytes_match(spec_cookie(), "te"@),
{
    reveal_strlit("connection");
    reveal_strlit("keep-alive");
    reveal_strlit("proxy-connection");
    reveal_strlit("transfer-encoding");
    reveal_strlit("upgrade");
    reveal_strlit("te");
    let c = spec_cookie();
    assert(spec_name_char(c[0]) && spec_name_char(c[1]) && spec_name_char(c[2]) && spec_name_char(c[3])
        && spec_name_char(c[4]) && spec_name_char(c[5]));
    assert(!spec_bytes_match(c, "connection"@));
    assert(!spec_bytes_match(c, "keep-alive"@));
    assert(!spec_bytes_match(c, "proxy-connection"@));
    assert(!spec_bytes_match(c, "transfer-encoding"@));
    assert(!spec_bytes_match(c, "upgrade"@));
    assert(!spec_bytes_match(c, "te"@));
}

/// Field sections are read with the rules of RFC 9114 sections 4.2 and 4.3:
/// in an accepted section no pseudo-header field follows a regular field,
/// and every regular field kept has a valid lower-case name that is not
/// connection-specific, a valid value, and only `trailers` as a `te` value.
pub proof fn lemma_read_accepts_only_valid(lines: Seq<(Seq<u8>, Seq<u8>)>)
    ensures
        spec_read(lines) matches Ok(st) ==> {
            &&& (st.regular_seen <==> exists|i: int| 0 <= i < lines.len() && !spec_is_pseudo_line(#[trigger] lines[i]))
            &&& forall|i: int, j: int|
                0 <= i < j < lines.len() && !spec_is_pseudo_line(#[trigger] lines[i]) ==> !spec_is_pseudo_line(
                    #[trigger] lines[j],
                )
            &&& forall|k: int| 0 <= k < st.fields.len() ==> spec_acceptable_field(#[trigger] st.fields[k])
        },
    decreases lines.len(),
{
    if lines.len() > 0 {
        let prev = lines.drop_last();
        lemma_read_accepts_only_valid(prev);
        if let Ok(st0) = spec_read(prev) {
            let l = lines.last();
            lemma_parse_field_kind(l.0, l.1);
            lemma_cookie_acceptable();
            if let Ok(st) = spec_read(lines) {
                assert forall|i: int| 0 <= i < prev.len() implies #[trigger] lines[i] == prev[i] by {}
                assert(spec_read(lines) == spec_read_step(st0, l));
                if st.regular_seen {
                    if !spec_is_pseudo_line(l) {
                        assert(!spec_is_pseudo_line(lines[lines.len() - 1]));
                    }
                }
                assert forall|i: int, j: int|
                    0 <= i < j < lines.len() && !spec_is_pseudo_line(#[trigger] lines[i]) implies !spec_is_pseudo_line(
                        #[trigger] lines[j],
                    ) by {
                    if j == lines.len() - 1 {
                        assert(lines[j] == l);
                        assert(!spec_is_pseudo_line(prev[i]));
                        assert(st0.regular_seen);
                    } else {
                        assert(lines[j] == prev[j]);
                        assert(lines[i] == prev[i]);
                    }
                }
                if !st.regular_seen {
                    assert forall|i: int| 0 <= i < lines.len() implies spec_is_pseudo_line(#[trigger] lines[i]) by {
                        if i < lines.len() - 1 {
                            assert(lines[i] == prev[i]);
                        }
                    }
                }
                match spec_parse_field(l.0, l.1) {
                    Ok(FieldModel::Header(n, v)) => {
                        if n == spec_cookie() {
                            let k = spec_first_index(st0.fields, spec_cookie());
                            lemma_first_index_bounds(st0.fields, spec_cookie());
                            if k >= 0 {
                                let joined = st0.fields[k].1 + seq![59u8, 32] + v;
                                assert(spec_acceptable_field((spec_cookie(), joined)));
                                assert forall|m: int| 0 <= m < st.fields.len() implies spec_acceptable_field(
                                    #[trigger] st.fields[m],
                                ) by {
                                    if m != k {
                                        assert(st.fields[m] == st0.fields[m]);
                                    }
                                }
                            } else {
                                assert forall|m: int| 0 <= m < st.fields.len() implies spec_acceptable_field(
                                    #[trigger] st.fields[m],
                                ) by {
                                    if m < st0.fields.len() {
                                        assert(st.fields[m] == st0.fields[m]);
                                    }
                                }
                            }
                        } else {
                            let k = spec_last_index(st0.fields, n);
                            lemma_last_index_bounds(st0.fields, n);
                            assert forall|m: int| 0 <= m < st.fields.len() implies spec_acceptable_field(
                                #[trigger] st.fields[m],
                            ) by {
                                if k >= 0 {
                                    if m <= k {
                                        assert(st.fields[m] == st0.fields[m]);
                                    } else if m > k + 1 {
                                        assert(st.fields[m] == st0.fields[m - 1]);
                                    }
                                } else if m < st0.fields.len() {
                                    assert(st.fields[m] == st0.fields[m]);
                                }
                            }
                        }
                    },
                    _ => {},
                }
            }
        }
    }
}


/// Fields that a response or trailer section accepts hold no `te` field.
proof fn lemma_no_te(s: Seq<(Seq<u8>, Seq<u8>)>)
    requires
        spec_first_field_error(s, false) is None,
    ensures
        spec_first_index(s, spec_te()) < 0,
    decreases s.len(),
{
    if s.len() > 0 {
        lemma_no_te(s.drop_last());
    }
}

/// Taking apart a request field section gives back what it was built from:
/// when `Header::request` accepts a method, target parts, fields and
/// protocol, `into_request_parts` returns that method, the authority given
/// (or the `host` field's), the regular fields unchanged, and the scheme,
/// path and protocol the section carries (`https` and `/` where none was
/// given; none of them for a CONNECT without protocol) — whenever the
/// target builds into a URI, and `InvalidRequest` otherwise.
pub proof fn lemma_request_roundtrip(
    method: Seq<u8>,
    scheme: Option<Seq<u8>>,
    authority: Option<Seq<u8>>,
    path: Option<Seq<u8>>,
    fields: Seq<(Seq<u8>, Seq<u8>)>,
    protocol: Option<Protocol>,
)
    requires
        spec_first_field_error(fields, true) is None,
        spec_request_authority(authority, spec_get(fields, spec_host())) is Ok,
    ensures
        ({
            let p = spec_pseudo_request(method, scheme, authority, path, protocol);
            let a = spec_request_authority(authority, spec_get(fields, spec_host()))->Ok_0;
            &&& authority matches Some(x) ==> a == x
            &&& spec_request_parts((p, fields)) == if spec_uri_builds(p.path, p.scheme, a) {
                Ok::<RequestPartsModel, HeaderErrorModel>((method, p.scheme, a, p.path, p.protocol, fields))
            } else {
                Err::<RequestPartsModel, HeaderErrorModel>(HeaderErrorModel::InvalidRequest)
            }
        }),
{
}

/// The regular fields of a request that building it accepts are all
/// acceptable (RFC 9114 section 4.2): none is connection-specific, and a
/// `te` field says `trailers` (ASCII case ignored, blanks around it
/// trimmed); those of a response or trailers hold no `te` field at all.
pub proof fn lemma_accepted_fields(s: Seq<(Seq<u8>, Seq<u8>)>, request: bool)
    requires
        spec_first_field_error(s, request) is None,
    ensures
        forall|i: int| #![trigger s[i]] 0 <= i < s.len() ==> {
            &&& !spec_is_connection_specific(s[i].0)
            &&& request && s[i].0 == seq![116u8, 101] ==> spec_eq_ignore_ascii_case(
                spec_trim(s[i].1),
                seq![116u8, 114, 97, 105, 108, 101, 114, 115],
            )
            &&& !request ==> s[i].0 != seq![116u8, 101]
        },
    decreases s.len(),
{
    if s.len() > 0 {
        lemma_accepted_fields(s.drop_last(), request);
        assert forall|i: int| 0 <= i < s.len() - 1 implies #[trigger] s[i] == s.drop_last()[i] by {}
    }
}

/// What a request's pseudo-header section carries (RFC 9114 section 4.3.1,
/// RFC 8441 section 4): the method and the authority as given, no status;
/// for a method other than CONNECT, the scheme given (`https` when none is),
/// the path given (`/` when none is) and no `:protocol`; a CONNECT with a
/// protocol keeps it and has a scheme and path as above; a CONNECT without
/// one has neither scheme nor path.
pub proof fn lemma_request_pseudo(
    method: Seq<u8>,
    scheme: Option<Seq<u8>>,
    authority: Option<Seq<u8>>,
    path: Option<Seq<u8>>,
    protocol: Option<Protocol>,
)
    ensures
        ({
            let p = spec_pseudo_request(method, scheme, authority, path, protocol);
            let connect = method == seq![67u8, 79, 78, 78, 69, 67, 84];
            let sch = match scheme {
                Some(x) => x,
                None => seq![104u8, 116, 116, 112, 115],
            };
            let pth = match path {
                Some(x) => x,
                None => seq![47u8],
            };
            &&& p.method == Some(method)
            &&& p.authority == authority
            &&& p.status is None
            &&& !connect ==> p.scheme == Some(sch) && p.path == Some(pth) && p.protocol is None
            &&& connect && protocol is Some ==> p.scheme == Some(sch) && p.path == Some(pth) && p.protocol == protocol
            &&& connect && protocol is None ==> p.scheme is None && p.path is None && p.protocol is None
        }),
{
}

/// Taking apart a response field section gives back the status and the
/// fields it was built from.
pub proof fn lemma_response_roundtrip(status: u16, fields: Seq<(Seq<u8>, Seq<u8>)>)
    requires
        spec_first_field_error(fields, false) is None,
    ensures
        spec_response_parts((PseudoModel { status: Some(status), len: 1, ..spec_no_pseudo() }, fields)) == Ok::<
            (u16, Seq<(Seq<u8>, Seq<u8>)>),
            HeaderErrorModel,
        >((status, fields)),
{
    lemma_no_te(fields);
}

/// Taking apart a trailer section gives back the fields it was built from.
pub proof fn lemma_trailer_roundtrip(fields: Seq<(Seq<u8>, Seq<u8>)>)
    requires
        spec_first_field_error(fields, false) is None,
    ensures
        spec_trailer_parts((spec_no_pseudo(), fields)) == Ok::<Seq<(Seq<u8>, Seq<u8>)>, HeaderErrorModel>(fields),
{
    lemma_no_te(fields);
}

} // verus!
