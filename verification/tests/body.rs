use h11::body::{BodyReader, Chunked, ContentLength, FramingMethod};
use h11::error::HttpError;
use h11::event::Event;
use h11::headers::Headers;

#[test]
fn empty() {
    let mut r = ContentLength(0);
    let mut buf: Vec<u8> = b"".to_vec();
    assert_eq!(
        Event::EndOfMessage(None),
        r.next_event(&mut buf).unwrap().unwrap(),
    );
}

#[test]
fn len_10() {
    let mut r = ContentLength(10);
    let mut buf: Vec<u8> = b"0123456789".to_vec();
    assert_eq!(
        Event::Data(b"0123456789".to_vec()),
        r.next_event(&mut buf).unwrap().unwrap(),
    );
}

#[test]
fn empty_no_trailers() {
    let mut r = Chunked::Start;
    let mut buf: Vec<u8> = b"0\r\n\r\n".to_vec();
    assert_eq!(
        Event::EndOfMessage(None),
        r.next_event(&mut buf).unwrap().unwrap(),
    );
}

#[test]
fn empty_single_trailer() {
    let mut r = Chunked::Start;
    let mut buf: Vec<u8> = b"0\r\nSome: header\r\n\r\n".to_vec();
    let mut trailers = Headers::new();
    trailers.append(b"some", b"header".to_vec());
    assert_eq!(
        Event::EndOfMessage(Some(trailers)),
        r.next_event(&mut buf).unwrap().unwrap(),
    );
}

#[test]
fn two_chunks() {
    let mut r = Chunked::Start;
    let mut buf: Vec<u8> =
        b"5\r\n01234\r\n10\r\n0123456789abcdef\r\n0\r\n\r\n".to_vec();
    assert_eq!(
        Event::Data(b"01234".to_vec()),
        r.next_event(&mut buf).expect("read 5 bytes").unwrap(),
    );
    assert_eq!(
        Event::Data(b"0123456789abcdef".to_vec()),
        r.next_event(&mut buf).expect("read 5 bytes").unwrap(),
    );
    assert_eq!(
        Event::EndOfMessage(None),
        r.next_event(&mut buf).unwrap().unwrap(),
    );
}

#[test]
fn chunked_decode_with_trailer() {
    let mut r = Chunked::Start;
    let mut buf: Vec<u8> =
        b"5\r\n01234\r\n10\r\n0123456789abcdef\r\n0\r\nSome: header\r\n\r\n".to_vec();
    assert_eq!(
        Event::Data(b"01234".to_vec()),
        r.next_event(&mut buf).unwrap().unwrap(),
    );
    assert_eq!(
        Event::Data(b"0123456789abcdef".to_vec()),
        r.next_event(&mut buf).unwrap().unwrap(),
    );
    let mut trailers = Headers::new();
    trailers.append(b"some", b"header".to_vec());
    assert_eq!(
        Event::EndOfMessage(Some(trailers)),
        r.next_event(&mut buf).unwrap().unwrap(),
    );
}

#[test]
fn invalid_chunk_size_rejected() {
    let mut r = Chunked::Start;
    let mut buf: Vec<u8> = b"zz\r\n01234\r\n".to_vec();
    assert_eq!(
        HttpError::InvalidChunkSize,
        r.next_event(&mut buf).unwrap_err(),
    );
}

#[test]
fn chunk_missing_closing_crlf_rejected() {
    let mut r = Chunked::Start;
    let mut buf: Vec<u8> = b"5\r\n01234XX0\r\n\r\n".to_vec();
    assert_eq!(
        Event::Data(b"01234".to_vec()),
        r.next_event(&mut buf).unwrap().unwrap(),
    );
    assert_eq!(
        HttpError::InvalidChunkSize,
        r.next_event(&mut buf).unwrap_err(),
    );
}

#[test]
fn eof_mid_body_is_premature_close() {
    let r = BodyReader::ContentLength(ContentLength(5));
    assert_eq!(
        HttpError::ConnectionClosedPrematurely,
        r.eof().unwrap_err(),
    );
    let r = BodyReader::Chunked(Chunked::Start);
    assert_eq!(
        HttpError::ConnectionClosedPrematurely,
        r.eof().unwrap_err(),
    );
    let r = BodyReader::Http10;
    assert_eq!(Event::EndOfMessage(None), r.eof().unwrap());
}

#[test]
fn eof_on_paid_off_body_ends_normally() {
    // a length-framed reader owed nothing treats EOF as a normal end
    let r = BodyReader::ContentLength(ContentLength(0));
    assert_eq!(Event::EndOfMessage(None), r.eof().unwrap());
}

#[test]
fn http10_reader_drains_everything() {
    let mut r = BodyReader::from(FramingMethod::Http10);
    let mut buf: Vec<u8> = b"anything at all".to_vec();
    assert_eq!(
        Event::Data(b"anything at all".to_vec()),
        r.next_event(&mut buf).unwrap().unwrap(),
    );
    assert!(r.next_event(&mut buf).unwrap().is_none());
}

#[test]
fn content_length_split_feeding_matches_whole() {
    // the body split at every point yields the same bytes and the same end
    let body = b"0123456789".to_vec();
    for s in 0..=body.len() {
        let mut collected: Vec<u8> = Vec::new();
        let mut r = ContentLength(body.len());
        let mut buf: Vec<u8> = body[..s].to_vec();
        let mut done = false;
        loop {
            match r.next_event(&mut buf).unwrap() {
                Some(Event::Data(d)) => collected.extend_from_slice(&d),
                Some(Event::EndOfMessage(None)) => {
                    done = true;
                    break;
                }
                None => break,
                other => panic!("unexpected event {:?}", other),
            }
        }
        if !done {
            buf.extend_from_slice(&body[s..]);
            loop {
                match r.next_event(&mut buf).unwrap() {
                    Some(Event::Data(d)) => collected.extend_from_slice(&d),
                    Some(Event::EndOfMessage(None)) => break,
                    other => panic!("unexpected event {:?}", other),
                }
            }
        }
        assert_eq!(body, collected);
    }
}
