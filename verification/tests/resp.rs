use h11::headers::Headers;
use h11::resp::RespHead;
use h11::util::Version;

fn headers_of(pairs: &[(&[u8], &[u8])]) -> Headers {
    let mut h = Headers::new();
    for (name, value) in pairs {
        h.append(name, value.to_vec());
    }
    h
}

#[test]
fn parse_simple_response() {
    let mut buf: Vec<u8> = b"HTTP/1.1 200 OK \r\nconnection: close\r\n\r\n".to_vec();
    assert_eq!(
        RespHead {
            status: 200,
            version: Version::Http11,
            headers: headers_of(&[(b"connection", b"close")]),
        },
        RespHead::from_buf(&mut buf)
            .expect("parsed request")
            .expect("complete request")
    );
}

#[test]
fn parse_response_no_headers() {
    let mut buf: Vec<u8> = b"HTTP/1.1 200 OK\r\n\r\n".to_vec();
    assert_eq!(
        RespHead {
            status: 200,
            version: Version::Http11,
            headers: Headers::new(),
        },
        RespHead::from_buf(&mut buf)
            .expect("parsed request")
            .expect("complete request")
    );
}

#[test]
fn parse_http_10_response() {
    let mut buf: Vec<u8> = b"HTTP/1.0 200 OK\r\nSome: header\r\n\r\n".to_vec();
    assert_eq!(
        RespHead {
            status: 200,
            version: Version::Http10,
            headers: headers_of(&[(b"some", b"header")]),
        },
        RespHead::from_buf(&mut buf)
            .expect("parsed request")
            .expect("complete request")
    );
}

#[test]
fn parse_empty_header_response() {
    let mut buf: Vec<u8> = b"HTTP/1.0 200 OK\r\nFoo:\r\n\r\n".to_vec();
    assert_eq!(
        RespHead {
            status: 200,
            version: Version::Http10,
            headers: headers_of(&[(b"foo", b"")]),
        },
        RespHead::from_buf(&mut buf)
            .expect("parsed request")
            .expect("complete request")
    );
}

#[test]
fn parse_ws_only_header_response() {
    let mut buf: Vec<u8> = b"HTTP/1.0 200 OK\r\nFoo: \t \t \r\n\r\n".to_vec();
    assert_eq!(
        RespHead {
            status: 200,
            version: Version::Http10,
            headers: headers_of(&[(b"foo", b"")]),
        },
        RespHead::from_buf(&mut buf)
            .expect("parsed request")
            .expect("complete request")
    );
}

#[test]
fn write_known_status_includes_reason() {
    let out = RespHead {
        status: 204,
        version: Version::Http11,
        headers: Headers::new(),
    }
    .write_to_buf(&mut Vec::new());
    assert_eq!(b"HTTP/1.1 204 No Content\r\n\r\n".to_vec(), out);
}

#[test]
fn write_unknown_status_omits_reason() {
    let out = RespHead {
        status: 299,
        version: Version::Http11,
        headers: Headers::new(),
    }
    .write_to_buf(&mut Vec::new());
    assert_eq!(b"HTTP/1.1 299\r\n\r\n".to_vec(), out);
}

#[test]
fn parse_reject_bad_status_code() {
    let mut buf: Vec<u8> = b"HTTP/1.1 099 Hmm\r\n\r\n".to_vec();
    assert!(RespHead::from_buf(&mut buf).is_err());
}

#[test]
fn response_parse_inverts_write() {
    // a response head, serialised, parses back to itself
    let head = RespHead {
        status: 503,
        version: Version::Http11,
        headers: headers_of(&[(b"retry-after", b"120")]),
    };
    let mut wire = head.write_to_buf(&mut Vec::new());
    let parsed = RespHead::from_buf(&mut wire)
        .expect("parsed request")
        .expect("complete request");
    assert_eq!(head, parsed);
    assert!(wire.is_empty());
}
