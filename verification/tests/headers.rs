use h3::ext::Protocol;
use h3::proto::headers::{Header, HeaderError, HeaderField};

fn field(name: &[u8], value: &[u8]) -> HeaderField {
    HeaderField::new(name.to_vec(), value.to_vec())
}

fn fields_named(h: Header, name: &[u8]) -> Vec<HeaderField> {
    h.into_iter().into_iter().filter(|f| f.name == name).collect()
}

#[test]
fn request_has_no_authority_nor_host() {
    let headers = Header::try_from(vec![field(b":method", b"GET")]).unwrap();
    assert!(headers.authority().is_none());
    assert!(matches!(headers.into_request_parts(), Err(HeaderError::MissingAuthority)));
}

#[test]
fn request_has_empty_authority() {
    assert!(matches!(
        Header::try_from(vec![field(b":method", b"GET"), field(b":authority", b"")]),
        Err(HeaderError::InvalidHeaderValue(_))
    ));
}

#[test]
fn request_has_empty_host() {
    let headers = Header::try_from(vec![field(b":method", b"GET"), field(b"host", b"")]).unwrap();
    assert!(matches!(headers.into_request_parts(), Err(HeaderError::InvalidRequest)));
}

#[test]
fn request_has_authority() {
    let headers =
        Header::try_from(vec![field(b":method", b"GET"), field(b":authority", b"test.com")]).unwrap();
    assert!(matches!(headers.into_request_parts(), Ok(_)));
}

#[test]
fn request_has_host() {
    let headers = Header::try_from(vec![field(b":method", b"GET"), field(b"host", b"test.com")]).unwrap();
    assert!(headers.authority().is_none());
    assert!(matches!(headers.into_request_parts(), Ok(_)));
}

#[test]
fn request_has_same_host_and_authority() {
    let headers = Header::try_from(vec![
        field(b":method", b"GET"),
        field(b":authority", b"test.com"),
        field(b"host", b"test.com"),
    ])
    .unwrap();
    assert!(matches!(headers.into_request_parts(), Ok(_)));
}

#[test]
fn request_has_different_host_and_authority() {
    let headers = Header::try_from(vec![
        field(b":method", b"GET"),
        field(b":authority", b"authority.com"),
        field(b"host", b"host.com"),
    ])
    .unwrap();
    assert!(matches!(headers.into_request_parts(), Err(HeaderError::ContradictedAuthority)));
}

fn duplicate_headers() -> Header {
    Header::try_from(vec![
        field(b":method", b"GET"),
        field(b":authority", b"test.com"),
        field(b"set-cookie", b"foo=foo"),
        field(b"set-cookie", b"bar=bar"),
        field(b"other-header", b"other-header-value"),
    ])
    .unwrap()
}

#[test]
fn preserves_duplicate_headers() {
    assert_eq!(
        fields_named(duplicate_headers(), b"set-cookie"),
        vec![field(b"set-cookie", b"foo=foo"), field(b"set-cookie", b"bar=bar")]
    );
    assert_eq!(
        fields_named(duplicate_headers(), b"other-header"),
        vec![field(b"other-header", b"other-header-value")]
    );
}

#[test]
fn rejects_undefined_pseudo_header() {
    assert!(matches!(
        Header::try_from(vec![field(b":unknown", b"value")]),
        Err(HeaderError::InvalidHeaderName(_))
    ));
}

#[test]
fn rejects_pseudo_header_after_regular_header() {
    assert!(matches!(
        Header::try_from(vec![field(b"regular", b"value"), field(b":method", b"GET")]),
        Err(HeaderError::PseudoAfterRegularField)
    ));
}

#[test]
fn rejects_connection_specific_headers() {
    for name in &["connection", "keep-alive", "proxy-connection", "transfer-encoding", "upgrade"] {
        assert!(matches!(
            Header::try_from(vec![
                field(b":method", b"GET"),
                field(b":scheme", b"https"),
                field(b":authority", b"example.com"),
                field(b":path", b"/"),
                field(name.as_bytes(), b"foo"),
            ]),
            Err(HeaderError::ConnectionSpecificHeader(_))
        ));

        let map = vec![field(name.as_bytes(), b"foo")];
        assert!(matches!(
            Header::request(
                b"GET".to_vec(),
                Some(b"https".to_vec()),
                Some(b"example.com".to_vec()),
                Some(b"/".to_vec()),
                map.clone(),
                None
            ),
            Err(HeaderError::ConnectionSpecificHeader(_))
        ));
        assert!(matches!(
            Header::response(200, map.clone()),
            Err(HeaderError::ConnectionSpecificHeader(_))
        ));
        assert!(matches!(Header::trailer(map), Err(HeaderError::ConnectionSpecificHeader(_))));
    }
}

fn request_with_te(value: &[u8]) -> Result<Header, HeaderError> {
    Header::try_from(vec![
        field(b":method", b"GET"),
        field(b":scheme", b"https"),
        field(b":authority", b"example.com"),
        field(b":path", b"/"),
        field(b"te", value),
    ])
}

#[test]
fn validates_te_header() {
    assert!(request_with_te(b"trailers").is_ok());
    assert!(request_with_te(b" Trailers ").is_ok());
    assert!(matches!(request_with_te(b"gzip"), Err(HeaderError::InvalidTeHeader)));

    let header = Header::try_from(vec![field(b":status", b"200"), field(b"te", b"trailers")]).unwrap();
    assert!(matches!(
        header.into_response_parts(),
        Err(HeaderError::ConnectionSpecificHeader(_))
    ));

    let header = Header::try_from(vec![field(b"te", b"trailers")]).unwrap();
    assert!(matches!(
        header.into_trailer_parts(),
        Err(HeaderError::ConnectionSpecificHeader(_))
    ));
}

#[test]
fn concatenates_multiple_cookie_headers() {
    let header = Header::try_from(vec![
        field(b":method", b"GET"),
        field(b":scheme", b"https"),
        field(b":authority", b"example.com"),
        field(b":path", b"/"),
        field(b"cookie", b"a=b"),
        field(b"cookie", b"c=d"),
        field(b"cookie", b"e=f"),
    ])
    .unwrap();
    let parts = header.into_request_parts().unwrap();
    let cookie: Vec<&HeaderField> = parts.fields.iter().filter(|f| f.name == b"cookie").collect();
    assert_eq!(cookie.len(), 1);
    assert_eq!(cookie[0].value, b"a=b; c=d; e=f".to_vec());
}

#[test]
fn rejects_pseudo_headers_in_trailers() {
    let header = Header::try_from(vec![field(b":status", b"200"), field(b"some-trailer", b"value")]).unwrap();
    assert!(matches!(header.into_trailer_parts(), Err(HeaderError::PseudoInTrailer)));
}

#[test]
fn request_parts_carry_the_target() {
    let header = Header::try_from(vec![
        field(b":method", b"CONNECT"),
        field(b":scheme", b"https"),
        field(b":authority", b"example.com"),
        field(b":path", b"/chat"),
        field(b":protocol", b"webtransport"),
        field(b"x", b"1"),
    ])
    .unwrap();
    let parts = header.into_request_parts().unwrap();
    assert_eq!(parts.method, b"CONNECT".to_vec());
    assert_eq!(parts.scheme, Some(b"https".to_vec()));
    assert_eq!(parts.authority, b"example.com".to_vec());
    assert_eq!(parts.path, Some(b"/chat".to_vec()));
    assert_eq!(parts.protocol, Some(Protocol::web_transport()));
    assert_eq!(parts.fields, vec![field(b"x", b"1")]);
}

#[test]
fn request_missing_method() {
    let header = Header::try_from(vec![field(b":authority", b"example.com")]).unwrap();
    assert!(matches!(header.into_request_parts(), Err(HeaderError::MissingMethod)));
}

#[test]
fn response_parts() {
    let header = Header::try_from(vec![field(b":status", b"404"), field(b"a", b"b")]).unwrap();
    let (status, fields) = header.into_response_parts().unwrap();
    assert_eq!(status, 404);
    assert_eq!(fields, vec![field(b"a", b"b")]);
    let header = Header::try_from(vec![field(b"a", b"b")]).unwrap();
    assert!(matches!(header.into_response_parts(), Err(HeaderError::MissingStatus)));
}

#[test]
fn invalid_names_and_values() {
    assert!(matches!(
        Header::try_from(vec![field(b"", b"v")]),
        Err(HeaderError::InvalidHeaderName(ref s)) if s == "name is empty"
    ));
    assert!(matches!(
        Header::try_from(vec![field(b"Upper", b"v")]),
        Err(HeaderError::InvalidHeaderName(ref s)) if s == "[85, 112, 112, 101, 114]"
    ));
    assert!(matches!(
        Header::try_from(vec![field(b"a", b"bad\x7f")]),
        Err(HeaderError::InvalidHeaderValue(_))
    ));
    assert!(matches!(
        Header::try_from(vec![field(b":status", b"099")]),
        Err(HeaderError::InvalidHeaderValue(_))
    ));
    assert!(matches!(
        Header::try_from(vec![field(b":protocol", b"other")]),
        Err(HeaderError::InvalidHeaderValue(_))
    ));
}

#[test]
fn request_builds_pseudo_fields_in_order() {
    let header = Header::request(
        b"GET".to_vec(),
        None,
        Some(b"example.com".to_vec()),
        None,
        vec![field(b"accept", b"*/*")],
        Some(Protocol::web_transport()),
    )
    .unwrap();
    assert_eq!(header.len(), 5);
    assert_eq!(
        header.into_iter(),
        vec![
            field(b":method", b"GET"),
            field(b":scheme", b"https"),
            field(b":authority", b"example.com"),
            field(b":path", b"/"),
            field(b"accept", b"*/*"),
        ]
    );
}

#[test]
fn plain_connect_has_no_scheme_nor_path() {
    let header = Header::request(
        b"CONNECT".to_vec(),
        Some(b"https".to_vec()),
        Some(b"example.com:443".to_vec()),
        Some(b"/".to_vec()),
        vec![],
        None,
    )
    .unwrap();
    assert_eq!(
        header.into_iter(),
        vec![field(b":method", b"CONNECT"), field(b":authority", b"example.com:443")]
    );
}

#[test]
fn request_without_authority_is_refused() {
    assert!(matches!(
        Header::request(b"GET".to_vec(), None, None, None, vec![], None),
        Err(HeaderError::MissingAuthority)
    ));
    assert!(matches!(
        Header::request(
            b"GET".to_vec(),
            None,
            Some(b"a.com".to_vec()),
            None,
            vec![field(b"host", b"b.com")],
            None
        ),
        Err(HeaderError::ContradictedAuthority)
    ));
}

#[test]
fn response_lines_carry_status() {
    let header = Header::response(200, vec![field(b"server", b"h3")]).unwrap();
    assert_eq!(header.into_iter(), vec![field(b":status", b"200"), field(b"server", b"h3")]);
}

#[test]
fn header_error_text() {
    assert_eq!(HeaderError::MissingAuthority.to_string(), "missing authority");
    assert_eq!(
        HeaderError::ConnectionSpecificHeader("te".to_string()).to_string(),
        "connection-specific header not permitted: te"
    );
}

#[test]
fn regular_fields_are_grouped_by_name() {
    let header = Header::try_from(vec![field(b"a", b"1"), field(b"b", b"2"), field(b"a", b"3")]).unwrap();
    assert_eq!(
        header.into_fields(),
        vec![field(b"a", b"1"), field(b"a", b"3"), field(b"b", b"2")]
    );
}

#[test]
fn built_request_is_taken_apart_into_its_parts() {
    let fields = vec![field(b"accept", b"*/*"), field(b"host", b"example.com")];
    let header = Header::request(b"GET".to_vec(), None, None, Some(b"/index.html".to_vec()), fields.clone(), None)
        .unwrap();
    let parts = header.into_request_parts().unwrap();
    assert_eq!(parts.method, b"GET".to_vec());
    assert_eq!(parts.scheme, Some(b"https".to_vec()));
    assert_eq!(parts.authority, b"example.com".to_vec());
    assert_eq!(parts.path, Some(b"/index.html".to_vec()));
    assert_eq!(parts.protocol, None);
    assert_eq!(parts.fields, fields);
}

#[test]
fn built_response_and_trailer_are_taken_apart() {
    let fields = vec![field(b"content-type", b"text/plain")];
    let (status, back) = Header::response(201, fields.clone()).unwrap().into_response_parts().unwrap();
    assert_eq!(status, 201);
    assert_eq!(back, fields);
    let trailers = vec![field(b"grpc-status", b"0")];
    assert_eq!(Header::trailer(trailers.clone()).unwrap().into_trailer_parts().unwrap(), trailers);
}

#[test]
fn lines_of_a_read_section_read_back_as_it() {
    let lines = vec![
        field(b":method", b"CONNECT"),
        field(b":protocol", b"webtransport"),
        field(b":scheme", b"https"),
        field(b":authority", b"example.com"),
        field(b":path", b"/wt"),
        field(b"cookie", b"a=b"),
        field(b"x-one", b"1"),
        field(b"cookie", b"c=d"),
        field(b"x-two", b"2"),
        field(b"x-one", b"3"),
    ];
    let first = Header::try_from(lines).unwrap().into_iter();
    assert_eq!(
        first,
        vec![
            field(b":method", b"CONNECT"),
            field(b":scheme", b"https"),
            field(b":authority", b"example.com"),
            field(b":path", b"/wt"),
            field(b":protocol", b"webtransport"),
            field(b"cookie", b"a=b; c=d"),
            field(b"x-one", b"1"),
            field(b"x-one", b"3"),
            field(b"x-two", b"2"),
        ]
    );
    let second = Header::try_from(first.clone()).unwrap().into_iter();
    assert_eq!(second, first);
    let response = Header::try_from(vec![field(b":status", b"200"), field(b"a", b"b")]).unwrap().into_iter();
    assert_eq!(Header::try_from(response.clone()).unwrap().into_iter(), response);
}

#[test]
fn pseudo_values_must_be_utf8() {
    assert!(matches!(
        Header::try_from(vec![field(b":method", b"GET"), field(b":path", &[b'/', 0xc3, 0x28])]),
        Err(HeaderError::InvalidHeaderValue(_))
    ));
    assert!(matches!(
        Header::try_from(vec![field(b":method", b"GET"), field(b":path", &[b'/', 0xed, 0xa0, 0x80])]),
        Err(HeaderError::InvalidHeaderValue(_))
    ));
    assert!(Header::try_from(vec![field(b":method", b"GET"), field(b":path", b"/ok")]).is_ok());
}

#[test]
fn trimming_twice_is_trimming_once() {
    let once = h3::proto::headers::trim_ascii_whitespace(b" \t Trailers \t");
    assert_eq!(once, b"Trailers");
    assert_eq!(h3::proto::headers::trim_ascii_whitespace(once), once);
    assert_eq!(h3::proto::headers::trim_ascii_whitespace(b"  "), b"");
}

#[test]
fn request_with_only_an_authority_builds() {
    let header = Header::try_from(vec![field(b":method", b"CONNECT"), field(b":authority", b"example.com:443")]).unwrap();
    let parts = header.into_request_parts().unwrap();
    assert_eq!(parts.authority, b"example.com:443".to_vec());
    assert_eq!(parts.path, None);
    let header = Header::try_from(vec![field(b":method", b"GET"), field(b":authority", b"example.com"), field(b":path", b"/")]).unwrap();
    assert!(matches!(header.into_request_parts(), Err(HeaderError::InvalidRequest)));
}

#[test]
fn path_fragment_is_dropped() {
    let headers = Header::try_from(vec![
        field(b":method", b"GET"),
        field(b":scheme", b"https"),
        field(b":authority", b"example.com"),
        field(b":path", b"/a?q=1#frag"),
    ])
    .unwrap();
    let parts = headers.into_request_parts().unwrap();
    assert_eq!(parts.path, Some(b"/a?q=1".to_vec()));
}
