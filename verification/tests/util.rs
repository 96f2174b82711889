use h11::headers::Headers;
use h11::util::{can_keep_alive, is_chunked, maybe_content_length, Version};

fn headers_of(pairs: &[(&[u8], &[u8])]) -> Headers {
    let mut h = Headers::new();
    for (name, value) in pairs {
        h.append(name, value.to_vec());
    }
    h
}

#[test]
fn keep_alive() {
    assert!(can_keep_alive(
        Version::Http11,
        &headers_of(&[(b"host", b"example.com")])
    ));
}

#[test]
fn connection_close_disables_keep_alive() {
    assert!(!can_keep_alive(
        Version::Http11,
        &headers_of(&[(b"host", b"example.com"), (b"connection", b"close")])
    ));
}

#[test]
fn http_10_disables_keep_alive() {
    assert!(!can_keep_alive(Version::Http10, &Headers::new()));
}

#[test]
fn close_token_found_in_list() {
    assert!(!can_keep_alive(
        Version::Http11,
        &headers_of(&[(b"connection", b"keep-alive, CLOSE")])
    ));
    assert!(can_keep_alive(
        Version::Http11,
        &headers_of(&[(b"connection", b"closet")])
    ));
}

#[test]
fn is_chunked_with_header() {
    assert!(is_chunked(&headers_of(&[(
        b"transfer-encoding",
        b"chunked"
    )])));
}

#[test]
fn is_not_chunked_without_header() {
    assert!(!is_chunked(&Headers::new()));
}

#[test]
fn chunked_must_be_final_coding() {
    // only the rightmost token of the last value decides
    assert!(is_chunked(&headers_of(&[(
        b"transfer-encoding",
        b"gzip, chunked"
    )])));
    assert!(!is_chunked(&headers_of(&[(
        b"transfer-encoding",
        b"chunked, gzip"
    )])));
    assert!(!is_chunked(&headers_of(&[
        (b"transfer-encoding", b"chunked"),
        (b"transfer-encoding", b"gzip"),
    ])));
}

#[test]
fn well_formed_headers_are_recognised() {
    // the executable form of the well-formedness the round-trip laws assume
    let good = headers_of(&[(b"host", b"example.com"), (b"x-empty", b"")]);
    assert!(good.is_wf());
    let padded = headers_of(&[(b"host", b" padded ")]);
    assert!(!padded.is_wf());
    let broken = headers_of(&[(b"host", b"line\r\nbreak")]);
    assert!(!broken.is_wf());
}

#[test]
fn maybe_content_length_none_on_no_header() {
    assert!(maybe_content_length(&Headers::new()).is_none());
}

#[test]
fn maybe_content_length_parses_decimal() {
    assert_eq!(
        Some(100),
        maybe_content_length(&headers_of(&[(b"content-length", b"100")]))
    );
}

#[test]
fn maybe_content_length_rejects_malformed() {
    assert_eq!(
        None,
        maybe_content_length(&headers_of(&[(b"content-length", b"12ab")]))
    );
    assert_eq!(
        None,
        maybe_content_length(&headers_of(&[(b"content-length", b"")]))
    );
    assert_eq!(
        None,
        maybe_content_length(&headers_of(&[(
            b"content-length",
            b"99999999999999999999999999"
        )]))
    );
    // the lenient reference behaviour: a leading plus sign is accepted
    assert_eq!(
        Some(10),
        maybe_content_length(&headers_of(&[(b"content-length", b"+10")]))
    );
}
