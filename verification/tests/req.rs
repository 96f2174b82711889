use h11::body::FramingMethod;
use h11::headers::Headers;
use h11::req::ReqHead;
use h11::util::Version;

fn headers_of(pairs: &[(&[u8], &[u8])]) -> Headers {
    let mut h = Headers::new();
    for (name, value) in pairs {
        h.append(name, value.to_vec());
    }
    h
}

#[test]
fn parse_simple_request() {
    let mut buf: Vec<u8> =
        b"GET /a HTTP/1.1\r\nhost: example.com\r\nconnection: close\r\n\r\n".to_vec();
    assert_eq!(
        ReqHead {
            method: b"GET".to_vec(),
            uri: b"/a".to_vec(),
            version: Version::Http11,
            headers: headers_of(&[
                (b"host", b"example.com"),
                (b"connection", b"close"),
            ]),
        },
        ReqHead::from_buf(&mut buf)
            .expect("parsed request")
            .expect("complete request")
    );
}

#[test]
fn parse_http_10_request() {
    let mut buf: Vec<u8> = b"HEAD /foo HTTP/1.0\r\nSome: header\r\n\r\n".to_vec();
    assert_eq!(
        ReqHead {
            method: b"HEAD".to_vec(),
            uri: b"/foo".to_vec(),
            version: Version::Http10,
            headers: headers_of(&[(b"some", b"header")]),
        },
        ReqHead::from_buf(&mut buf)
            .expect("parsed request")
            .expect("complete request")
    );
}

#[test]
fn parse_http_10_no_headers_request() {
    let mut buf: Vec<u8> = b"HEAD /foo HTTP/1.0\r\n\r\n".to_vec();
    assert_eq!(
        ReqHead {
            method: b"HEAD".to_vec(),
            uri: b"/foo".to_vec(),
            version: Version::Http10,
            headers: Headers::new(),
        },
        ReqHead::from_buf(&mut buf)
            .expect("parsed request")
            .expect("complete request")
    );
}

#[test]
fn parse_reject_folding() {
    let mut buf: Vec<u8> = b"HEAD /foo HTTP/1.1\r\n  folded: header\r\n\r\n".to_vec();
    assert!(ReqHead::from_buf(&mut buf).is_err());
}

#[test]
fn parse_reject_space_before_colon() {
    let mut buf: Vec<u8> = b"HEAD /foo HTTP/1.1\r\nfoo : line\r\n\r\n".to_vec();
    assert!(ReqHead::from_buf(&mut buf).is_err());
}

#[test]
fn parse_reject_ht_before_colon() {
    let mut buf: Vec<u8> = b"HEAD /foo HTTP/1.1\r\nfoo\t: line\r\n\r\n".to_vec();
    assert!(ReqHead::from_buf(&mut buf).is_err());
}

#[test]
fn parse_reject_empty_header_name() {
    let mut buf: Vec<u8> = b"HEAD /foo HTTP/1.1\r\n: line\r\n\r\n".to_vec();
    assert!(ReqHead::from_buf(&mut buf).is_err());
}

#[test]
fn write_simple_req() {
    let out_buf: Vec<u8> =
        b"GET /a HTTP/1.1\r\nhost: example.com\r\nconnection: close\r\n\r\n".to_vec();
    assert_eq!(
        out_buf,
        ReqHead {
            method: b"GET".to_vec(),
            uri: b"/a".to_vec(),
            version: Version::Http11,
            headers: headers_of(&[
                (b"host", b"example.com"),
                (b"connection", b"close"),
            ]),
        }
        .write_to_buf(&mut Vec::new())
    );
}

#[test]
fn framing_method_no_headers() {
    assert_eq!(
        FramingMethod::ContentLength(0),
        ReqHead {
            method: b"GET".to_vec(),
            uri: b"/".to_vec(),
            version: Version::Http11,
            headers: Headers::new(),
        }
        .framing_method(),
    );
}

#[test]
fn framing_method_chunked() {
    assert_eq!(
        FramingMethod::Chunked,
        ReqHead {
            method: b"GET".to_vec(),
            uri: b"/".to_vec(),
            version: Version::Http11,
            headers: headers_of(&[(b"transfer-encoding", b"chunked")]),
        }
        .framing_method(),
    );
}

#[test]
fn framing_method_content_length() {
    assert_eq!(
        FramingMethod::ContentLength(100),
        ReqHead {
            method: b"GET".to_vec(),
            uri: b"/".to_vec(),
            version: Version::Http11,
            headers: headers_of(&[(b"content-length", b"100")]),
        }
        .framing_method(),
    );
}

#[test]
fn parse_inverts_write() {
    // a request head, serialised, parses back to itself
    let head = ReqHead {
        method: b"POST".to_vec(),
        uri: b"/submit?q=1".to_vec(),
        version: Version::Http11,
        headers: headers_of(&[
            (b"host", b"example.com"),
            (b"content-length", b"4"),
        ]),
    };
    let mut wire = head.write_to_buf(&mut Vec::new());
    let parsed = ReqHead::from_buf(&mut wire)
        .expect("parsed request")
        .expect("complete request");
    assert_eq!(head, parsed);
    assert!(wire.is_empty());
}
