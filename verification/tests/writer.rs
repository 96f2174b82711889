use h11::body::Chunked;
use h11::error::HttpError;
use h11::event::Event;
use h11::headers::Headers;
use h11::writer::{BodyWriter, ContentLength};

#[test]
fn content_length_writer_passes_through() {
    let mut w = BodyWriter::ContentLength(ContentLength(5));
    assert_eq!(b"hel".to_vec(), w.write_data(&b"hel".to_vec()).expect("fits"));
    assert_eq!(b"lo".to_vec(), w.write_data(&b"lo".to_vec()).expect("fits"));
    assert_eq!(
        Vec::<u8>::new(),
        w.write_end_of_message(None).expect("body complete")
    );
}

#[test]
fn over_sending_is_too_much_data() {
    let mut w = BodyWriter::ContentLength(ContentLength(3));
    assert_eq!(
        HttpError::TooMuchData,
        w.write_data(&b"toolong".to_vec()).expect_err("overruns")
    );
    // a short body cannot be ended either
    let mut w2 = BodyWriter::ContentLength(ContentLength(3));
    assert_eq!(
        HttpError::TooMuchData,
        w2.write_end_of_message(None).expect_err("bytes still owed")
    );
}

#[test]
fn chunked_writer_frames_fragments() {
    let mut w = BodyWriter::Chunked;
    assert_eq!(
        b"5\r\nhello\r\n".to_vec(),
        w.write_data(&b"hello".to_vec()).expect("framed")
    );
    assert_eq!(
        b"1a\r\nabcdefghijklmnopqrstuvwxyz\r\n".to_vec(),
        w.write_data(&b"abcdefghijklmnopqrstuvwxyz".to_vec()).expect("framed")
    );
    assert_eq!(
        b"0\r\n\r\n".to_vec(),
        w.write_end_of_message(None).expect("terminated")
    );
}

#[test]
fn chunked_writer_emits_trailers() {
    let mut w = BodyWriter::Chunked;
    let mut trailers = Headers::new();
    trailers.append(b"some", b"header".to_vec());
    assert_eq!(
        b"0\r\nsome: header\r\n\r\n".to_vec(),
        w.write_end_of_message(Some(&trailers)).expect("terminated")
    );
}

#[test]
fn http10_writer_passes_through() {
    let mut w = BodyWriter::Http10;
    assert_eq!(b"raw".to_vec(), w.write_data(&b"raw".to_vec()).expect("passed"));
    assert_eq!(
        Vec::<u8>::new(),
        w.write_end_of_message(None).expect("nothing to emit")
    );
}

#[test]
fn chunked_written_body_reads_back() {
    // writer output fed to the reader yields the fragments and the trailers
    let fragments: [&[u8]; 3] = [b"alpha", b"beta!", b"0123456789abcdef"];
    let mut trailers = Headers::new();
    trailers.append(b"checksum", b"abc123".to_vec());

    let mut w = BodyWriter::Chunked;
    let mut wire: Vec<u8> = Vec::new();
    for f in fragments {
        wire.extend_from_slice(&w.write_data(&f.to_vec()).expect("framed"));
    }
    wire.extend_from_slice(
        &w.write_end_of_message(Some(&trailers)).expect("terminated"),
    );

    let mut r = Chunked::Start;
    for f in fragments {
        assert_eq!(
            Event::Data(f.to_vec()),
            r.next_event(&mut wire).expect("no error").expect("a fragment")
        );
    }
    assert_eq!(
        Event::EndOfMessage(Some(trailers)),
        r.next_event(&mut wire).expect("no error").expect("the end")
    );
    assert!(wire.is_empty());
}
