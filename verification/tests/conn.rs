use h11::conn::{Client, HttpConn, Server};
use h11::error::HttpError;
use h11::event::Event;
use h11::headers::Headers;
use h11::req::ReqHead;
use h11::resp::RespHead;
use h11::state::{Client as ClientState, Server as ServerState};
use h11::util::Version;

fn headers_of(pairs: &[(&[u8], &[u8])]) -> Headers {
    let mut h = Headers::new();
    for (name, value) in pairs {
        h.append(name, value.to_vec());
    }
    h
}

#[test]
fn simple_request_parse() {
    let mut conn: HttpConn<Server> = HttpConn::new();
    conn.receive_data(b"GET /a HTTP/1.1\r\nhost: example.com\r\nconnection: close\r\n\r\n")
        .expect("bytes accepted");
    let event = conn.next_event().expect("parsed").expect("complete");
    assert_eq!(
        Event::Request(ReqHead {
            method: b"GET".to_vec(),
            uri: b"/a".to_vec(),
            version: Version::Http11,
            headers: headers_of(&[
                (b"host", b"example.com"),
                (b"connection", b"close"),
            ]),
        }),
        event
    );
    let st = conn.state();
    assert_eq!(
        (ClientState::SendBody, ServerState::SendResponse),
        st.states()
    );
    assert!(!st.keep_alive);
}

#[test]
fn content_length_round_trip() {
    let mut conn: HttpConn<Client> = HttpConn::new();
    let mut wire: Vec<u8> = Vec::new();
    let head = ReqHead {
        method: b"GET".to_vec(),
        uri: b"/".to_vec(),
        version: Version::Http11,
        headers: headers_of(&[(b"content-length", b"5")]),
    };
    wire.extend_from_slice(&conn.send_req(head).expect("request accepted"));
    wire.extend_from_slice(&conn.send_data(b"hello".to_vec()).expect("data accepted"));
    wire.extend_from_slice(
        &conn
            .send_end_of_message(None)
            .expect("end of message accepted"),
    );
    assert_eq!(
        b"GET / HTTP/1.1\r\ncontent-length: 5\r\n\r\nhello".to_vec(),
        wire
    );
}

#[test]
fn connect_accepted() {
    let mut conn: HttpConn<Server> = HttpConn::new();
    conn.receive_data(b"CONNECT host:443 HTTP/1.1\r\n\r\n")
        .expect("bytes accepted");
    let event = conn.next_event().expect("parsed").expect("complete");
    assert!(matches!(event, Event::Request(_)));
    assert!(conn.state().pending_connect);
    // the request carries no body, so its end needs no further bytes
    assert_eq!(
        Event::EndOfMessage(None),
        conn.next_event().expect("no error").expect("body end")
    );

    let sent = conn
        .send_resp(RespHead {
            status: 200,
            version: Version::Http11,
            headers: Headers::new(),
        })
        .expect("response accepted as a connect switch");
    assert_eq!(b"HTTP/1.1 200 OK\r\n\r\n".to_vec(), sent);
    assert_eq!(ServerState::SwitchedProtocol, conn.state().states().1);
}

#[test]
fn upgrade_denied_late() {
    let mut conn: HttpConn<Server> = HttpConn::new();
    conn.receive_data(b"GET /chat HTTP/1.1\r\nupgrade: websocket\r\ncontent-length: 0\r\n\r\n")
        .expect("bytes accepted");
    let event = conn.next_event().expect("parsed").expect("complete");
    assert!(matches!(event, Event::Request(_)));
    assert!(conn.state().pending_upgrade);

    conn.send_resp(RespHead {
        status: 200,
        version: Version::Http11,
        headers: Headers::new(),
    })
    .expect("plain response accepted");
    assert!(!conn.state().pending_upgrade);
    assert_eq!(ServerState::SendBody, conn.state().states().1);
}

#[test]
fn malformed_header_rejected() {
    let mut conn: HttpConn<Server> = HttpConn::new();
    conn.receive_data(b"HEAD /foo HTTP/1.1\r\n  folded: header\r\n\r\n")
        .expect("bytes accepted");
    assert_eq!(
        HttpError::MalformedHead,
        conn.next_event().expect_err("parse must fail")
    );
    assert_eq!(ClientState::Error, conn.state().states().0);
    // once broken, the connection only reports the failure
    assert!(conn.next_event().is_err());
}

#[test]
fn peer_data_after_close_rejected() {
    let mut conn: HttpConn<Server> = HttpConn::new();
    assert_eq!(0, conn.receive_data(b"").expect("EOF accepted"));
    assert_eq!(
        HttpError::PeerDataAfterClose,
        conn.receive_data(b"more").expect_err("bytes after EOF")
    );
}

#[test]
fn eof_mid_message_surfaces_premature_close() {
    let mut conn: HttpConn<Server> = HttpConn::new();
    conn.receive_data(b"PUT /up HTTP/1.1\r\ncontent-length: 10\r\n\r\n1234")
        .expect("bytes accepted");
    let event = conn.next_event().expect("parsed").expect("complete");
    assert!(matches!(event, Event::Request(_)));
    assert_eq!(
        Event::Data(b"1234".to_vec()),
        conn.next_event().expect("body bytes").expect("data")
    );
    conn.receive_data(b"").expect("EOF accepted");
    assert_eq!(
        HttpError::ConnectionClosedPrematurely,
        conn.next_event().expect_err("body was cut short")
    );
}

#[test]
fn server_responds_through_buffers() {
    let mut conn: HttpConn<Server> = HttpConn::new();
    conn.receive_data(b"GET / HTTP/1.1\r\n\r\n").expect("bytes accepted");
    conn.next_event().expect("parsed").expect("complete");
    let head_bytes = conn
        .send_resp(RespHead {
            status: 200,
            version: Version::Http11,
            headers: headers_of(&[(b"content-length", b"2")]),
        })
        .expect("response accepted");
    assert_eq!(
        b"HTTP/1.1 200 OK\r\ncontent-length: 2\r\n\r\n".to_vec(),
        head_bytes
    );
    assert_eq!(
        b"ok".to_vec(),
        conn.send_data(b"ok".to_vec()).expect("data accepted")
    );
    assert_eq!(
        Vec::<u8>::new(),
        conn.send_end_of_message(None).expect("end accepted")
    );
    assert_eq!(ServerState::Done, conn.state().states().1);
}

#[test]
fn send_out_of_turn_is_invalid_transition() {
    let mut conn: HttpConn<Server> = HttpConn::new();
    assert_eq!(
        HttpError::InvalidTransition,
        conn.send_data(b"x".to_vec()).expect_err("no response begun")
    );
}

#[test]
fn bodiless_request_ends_without_more_bytes() {
    // a request owed no body bytes yields its end from an empty, open buffer
    let mut conn: HttpConn<Server> = HttpConn::new();
    conn.receive_data(b"GET / HTTP/1.1\r\ncontent-length: 0\r\n\r\n")
        .expect("bytes accepted");
    let event = conn.next_event().expect("parsed").expect("complete");
    assert!(matches!(event, Event::Request(_)));
    assert_eq!(
        Event::EndOfMessage(None),
        conn.next_event().expect("no error").expect("body end")
    );
}

#[test]
fn chunked_request_framed_through_driver() {
    let mut conn: HttpConn<Client> = HttpConn::new();
    conn.send_req(ReqHead {
        method: b"POST".to_vec(),
        uri: b"/upload".to_vec(),
        version: Version::Http11,
        headers: headers_of(&[(b"transfer-encoding", b"chunked")]),
    })
    .expect("request accepted");
    assert_eq!(
        b"5\r\nhello\r\n".to_vec(),
        conn.send_data(b"hello".to_vec()).expect("framed")
    );
    let mut trailers = Headers::new();
    trailers.append(b"some", b"header".to_vec());
    assert_eq!(
        b"0\r\nsome: header\r\n\r\n".to_vec(),
        conn.send_end_of_message(Some(trailers)).expect("terminated")
    );
}

#[test]
fn chunked_response_framed_through_driver() {
    let mut conn: HttpConn<Server> = HttpConn::new();
    conn.receive_data(b"GET / HTTP/1.1\r\n\r\n").expect("bytes accepted");
    conn.next_event().expect("parsed").expect("complete");
    conn.send_resp(RespHead {
        status: 200,
        version: Version::Http11,
        headers: headers_of(&[(b"transfer-encoding", b"chunked")]),
    })
    .expect("response accepted");
    assert_eq!(
        b"2\r\nok\r\n".to_vec(),
        conn.send_data(b"ok".to_vec()).expect("framed")
    );
    assert_eq!(
        b"0\r\n\r\n".to_vec(),
        conn.send_end_of_message(None).expect("terminated")
    );
}

#[test]
fn over_sending_through_driver_is_too_much_data() {
    let mut conn: HttpConn<Client> = HttpConn::new();
    conn.send_req(ReqHead {
        method: b"POST".to_vec(),
        uri: b"/".to_vec(),
        version: Version::Http11,
        headers: headers_of(&[(b"content-length", b"3")]),
    })
    .expect("request accepted");
    assert_eq!(
        HttpError::TooMuchData,
        conn.send_data(b"toolong".to_vec()).expect_err("overruns")
    );
    // the refused fragment changed nothing: the declared length still holds
    assert_eq!(
        b"abc".to_vec(),
        conn.send_data(b"abc".to_vec()).expect("fits")
    );
    assert_eq!(
        Vec::<u8>::new(),
        conn.send_end_of_message(None).expect("body complete")
    );
}

#[test]
fn expect_continue_reads_last_token() {
    // the last comma-separated token of the last Expect value decides
    let mut conn: HttpConn<Server> = HttpConn::new();
    conn.receive_data(
        b"POST / HTTP/1.1\r\nexpect: x, 100-continue\r\ncontent-length: 1\r\n\r\n",
    )
    .expect("bytes accepted");
    conn.next_event().expect("parsed").expect("complete");
    assert!(conn.client_wants_continue());

    let mut conn2: HttpConn<Server> = HttpConn::new();
    conn2
        .receive_data(b"POST / HTTP/1.1\r\nexpect: 100-continue, x\r\ncontent-length: 1\r\n\r\n")
        .expect("bytes accepted");
    conn2.next_event().expect("parsed").expect("complete");
    assert!(!conn2.client_wants_continue());

    // any response ends the interlude
    conn.send_info_resp(RespHead {
        status: 100,
        version: Version::Http11,
        headers: Headers::new(),
    })
    .expect("informational response accepted");
    assert!(!conn.client_wants_continue());
}

#[test]
fn into_bufs_returns_buffers() {
    let conn: HttpConn<Client> = HttpConn::from_bufs(16, b"in".to_vec(), b"out".to_vec());
    assert_eq!(16, conn.max_event_size());
    let (in_buf, out_buf) = conn.into_bufs();
    assert_eq!(b"in".to_vec(), in_buf);
    assert_eq!(b"out".to_vec(), out_buf);
}
