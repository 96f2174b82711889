use vstd::prelude::*;

use crate::body::{spec_body_next, spec_eof_premature, spec_reader_for, BodyOut, BodyReader};
use crate::error::HttpError;
use crate::event::{spec_event_bytes, spec_event_kind, spec_event_writable, Event, EventModel};
use crate::headers::{has_name, last_with_name};
use crate::req::{spec_parse_req_head, spec_req_framing, ReqHead, ReqHeadV, ReqParse};
use crate::resp::{method_connect, spec_resp_framing, RespHead, RespHeadV};
use crate::state::{
    client_event_spec, converge_spec, server_event_spec, Client as ClientState,
    Server as ServerState, State, StateEvent, SwitchEvent,
};
use crate::util::{
    last_token_ci, name_expect, name_upgrade, spec_can_keep_alive, token_100_continue, Version,
};
use crate::writer::{spec_write_data, spec_write_end, spec_writer_for, BodyWriter};

verus! {

/// The client role; it is never instantiated and only gates which
/// operations a connection offers.
pub struct Client;

/// The server role; it is never instantiated and only gates which
/// operations a connection offers.
pub struct Server;

/// The observable state of a connection.
pub struct ConnView {
    pub state: State,
    pub max_event_size: usize,
    pub in_buf: Seq<u8>,
    pub in_buf_closed: bool,
    pub out_buf: Seq<u8>,
    pub client_wants_continue: bool,
    pub body_reader: Option<BodyReader>,
    pub body_writer: Option<BodyWriter>,
    pub peer_method: Option<Seq<u8>>,
    pub peer_http_version: Option<Version>,
}

impl ConnView {
    /// The driver's inbound invariant: while the inbound side is mid-body, a
    /// reader is installed.
    pub open spec fn wf(self) -> bool {
        self.state.client == ClientState::SendBody ==> self.body_reader is Some
    }

    /// The outbound invariant of the client role: while the client side is
    /// mid-body, the writer its request head installed is present.
    pub open spec fn wf_client_writer(self) -> bool {
        self.state.client == ClientState::SendBody ==> self.body_writer is Some
    }

    /// The outbound invariant of the server role: while the server side is
    /// mid-body, the writer its response head installed is present.
    pub open spec fn wf_server_writer(self) -> bool {
        self.state.server == ServerState::SendBody ==> self.body_writer is Some
    }
}

/// The method of the request this connection answers, or nothing where no
/// request has been seen (a response may legally open a cycle).
pub open spec fn spec_peer_method(m: Option<Seq<u8>>) -> Seq<u8> {
    match m {
        Option::Some(x) => x,
        Option::None => Seq::empty(),
    }
}

/// The pending-switch proposals a request raises before it is validated:
/// `CONNECT` by its method, an upgrade by its `Upgrade` header.
pub open spec fn spec_client_flags_pre(st: State, e: EventModel) -> State {
    match e {
        EventModel::Request(r) => {
            let s1 = if r.method == method_connect() {
                converge_spec(State { pending_connect: true, ..st })
            } else {
                st
            };
            if has_name(r.headers, name_upgrade()) {
                converge_spec(State { pending_upgrade: true, ..s1 })
            } else {
                s1
            }
        },
        _ => st,
    }
}

/// Whether a request asks for a 100-continue interlude: the last `Expect`
/// value's last comma-separated token, trimmed, is `100-continue`
/// (case-insensitive).
pub open spec fn spec_wants_continue(hs: Seq<(Seq<u8>, Seq<u8>)>) -> bool {
    match last_with_name(hs, name_expect()) {
        Option::Some(v) => last_token_ci(v, token_100_continue()),
        Option::None => false,
    }
}

/// A client-side event through the driver: switch proposals are raised, the
/// state machine validates, then keep-alive and the continue flag follow the
/// head. On a refused event the proposals remain raised and nothing else
/// changes.
pub open spec fn spec_conn_client_event(st: State, wants: bool, e: EventModel) -> Result<
    (State, bool),
    HttpError,
> {
    let st1 = spec_client_flags_pre(st, e);
    match client_event_spec(st1, spec_event_kind(e)) {
        Err(err) => Err(err),
        Ok(st2) => Ok(
            match e {
                EventModel::Request(r) => {
                    let st3 = if !spec_can_keep_alive(r.version, r.headers) {
                        converge_spec(State { keep_alive: false, ..st2 })
                    } else {
                        st2
                    };
                    (st3, spec_wants_continue(r.headers))
                },
                EventModel::Data(_) => (st2, false),
                EventModel::EndOfMessage(_) => (st2, false),
                _ => (st2, wants),
            },
        ),
    }
}

/// The switch a response performs: a 101 informational response accepts an
/// upgrade; a successful final response accepts a proposed tunnel.
pub open spec fn spec_switch_for(st: State, e: EventModel) -> Option<SwitchEvent> {
    match e {
        EventModel::InfoResponse(r) => {
            if r.status == 101 {
                Option::Some(SwitchEvent::Upgrade)
            } else {
                Option::None
            }
        },
        EventModel::Response(r) => {
            if st.pending_connect && 200 <= r.status <= 299 {
                Option::Some(SwitchEvent::Connect)
            } else {
                Option::None
            }
        },
        _ => Option::None,
    }
}

/// A server-side event through the driver: the switch is derived, the state
/// machine validates, then keep-alive follows the final response and any
/// response ends a continue interlude. On a refused event nothing changes.
pub open spec fn spec_conn_server_event(st: State, wants: bool, e: EventModel) -> Result<
    (State, bool),
    HttpError,
> {
    match server_event_spec(st, spec_event_kind(e), spec_switch_for(st, e)) {
        Err(err) => Err(err),
        Ok(st2) => Ok(
            match e {
                EventModel::InfoResponse(_) => (st2, false),
                EventModel::Response(r) => {
                    let st3 = if !spec_can_keep_alive(r.version, r.headers) {
                        converge_spec(State { keep_alive: false, ..st2 })
                    } else {
                        st2
                    };
                    (st3, false)
                },
                _ => (st2, wants),
            },
        ),
    }
}

/// A request carrying `Connection: close`, driven through a full
/// request/response cycle from a fresh connection, leaves both sides in
/// `MustClose` — never `Done`, so the connection cannot be reused. The
/// request must not be a `CONNECT` (an accepted tunnel ends the cycle in
/// `SwitchedProtocol` instead).
pub proof fn lemma_close_request_cycle(r: ReqHeadV, resp: RespHeadV, i: int)
    requires
        0 <= i < r.headers.len(),
        crate::util::connection_close_at(r.headers, i),
        r.method != method_connect(),
    ensures
        ({
            let s0 = crate::state::new_state_spec();
            let e1 = spec_conn_client_event(s0, false, EventModel::Request(r));
            &&& e1 is Ok
            &&& {
                let e2 = spec_conn_client_event(
                    e1->Ok_0.0,
                    e1->Ok_0.1,
                    EventModel::EndOfMessage(Option::None),
                );
                &&& e2 is Ok
                &&& e2->Ok_0.0.client != ClientState::Done
                &&& {
                    let e3 = spec_conn_server_event(
                        e2->Ok_0.0,
                        e2->Ok_0.1,
                        EventModel::Response(resp),
                    );
                    &&& e3 is Ok
                    &&& {
                        let e4 = spec_conn_server_event(
                            e3->Ok_0.0,
                            e3->Ok_0.1,
                            EventModel::EndOfMessage(Option::None),
                        );
                        &&& e4 is Ok
                        &&& e4->Ok_0.0.client == ClientState::MustClose
                        &&& e4->Ok_0.0.server == ServerState::MustClose
                    }
                }
            }
        }),
{
    crate::util::lemma_connection_close_disables_keep_alive(r.version, r.headers, i);
}

struct Inner {
    state: State,
    max_event_size: usize,
    in_buf: Vec<u8>,
    in_buf_closed: bool,
    out_buf: Vec<u8>,
    client_wants_continue: bool,
    body_reader: Option<BodyReader>,
    body_writer: Option<BodyWriter>,
    peer_method: Option<Vec<u8>>,
    peer_http_version: Option<Version>,
}

/// A sans-I/O HTTP/1.1 connection: buffers in and out, the dual state
/// machine, the body reader of the message being received, and the body
/// writer of the message being sent. The role parameter is never
/// instantiated; it only decides which operations exist.
pub struct HttpConn<Role> {
    inner: Inner,
    pd: core::marker::PhantomData<Role>,
}

impl<Role> View for HttpConn<Role> {
    type V = ConnView;

    closed spec fn view(&self) -> ConnView {
        ConnView {
            state: self.inner.state,
            max_event_size: self.inner.max_event_size,
            in_buf: self.inner.in_buf@,
            in_buf_closed: self.inner.in_buf_closed,
            out_buf: self.inner.out_buf@,
            client_wants_continue: self.inner.client_wants_continue,
            body_reader: self.inner.body_reader,
            body_writer: self.inner.body_writer,
            peer_method: match self.inner.peer_method {
                Option::Some(m) => Option::Some(m@),
                Option::None => Option::None,
            },
            peer_http_version: self.inner.peer_http_version,
        }
    }
}

impl Inner {
    /// Raises proposals, validates, and applies the flag rules for an event
    /// the client side sends.
    fn client_event(&mut self, event: &Event) -> (r: Result<(), HttpError>)
        ensures
            final(self).max_event_size == old(self).max_event_size,
            final(self).in_buf@ == old(self).in_buf@,
            final(self).in_buf_closed == old(self).in_buf_closed,
            final(self).out_buf@ == old(self).out_buf@,
            final(self).body_reader == old(self).body_reader,
            final(self).body_writer == old(self).body_writer,
            final(self).peer_method == old(self).peer_method,
            final(self).peer_http_version == old(self).peer_http_version,
            match spec_conn_client_event(
                old(self).state,
                old(self).client_wants_continue,
                event@,
            ) {
                Ok((st2, w)) => r == Ok::<(), HttpError>(()) && final(self).state == st2 && final(self).client_wants_continue == w,
                Err(e) => r == Err::<(), HttpError>(e) && final(self).state
                    == spec_client_flags_pre(old(self).state, event@) && final(self).client_wants_continue == old(self).client_wants_continue,
            },
    {
        match event {
            Event::Request(req) => {
                let connect_m: [u8; 7] = [67, 79, 78, 78, 69, 67, 84];
                proof {
                    assert(connect_m@ =~= method_connect());
                }
                if crate::headers::bytes_eq(req.method.as_slice(), connect_m.as_slice()) {
                    self.state = self.state.connect_proposal();
                }
                let upgrade_n: [u8; 7] = [117, 112, 103, 114, 97, 100, 101];
                proof {
                    assert(upgrade_n@ =~= name_upgrade());
                }
                if req.headers.contains_name(upgrade_n.as_slice()) {
                    self.state = self.state.upgrade_proposal();
                }
            },
            _ => {},
        }
        let st = match self.state.client_event(event.to_state_event()) {
            Ok(s) => s,
            Err(e) => {
                return Err(e);
            },
        };
        self.state = st;
        match event {
            Event::Request(req) => {
                if !req.can_keep_alive() {
                    self.state = self.state.disable_keep_alive();
                }
                let expect_n: [u8; 6] = [101, 120, 112, 101, 99, 116];
                proof {
                    assert(expect_n@ =~= name_expect());
                }
                self.client_wants_continue = match req.headers.get_last(expect_n.as_slice()) {
                    Option::Some(v) => {
                        let tok: [u8; 12] = [49, 48, 48, 45, 99, 111, 110, 116, 105, 110, 117, 101];
                        proof {
                            assert(tok@ =~= token_100_continue());
                        }
                        crate::util::value_last_token_ci(v.as_slice(), tok.as_slice())
                    },
                    Option::None => false,
                };
            },
            Event::Data(_) => {
                self.client_wants_continue = false;
            },
            Event::EndOfMessage(_) => {
                self.client_wants_continue = false;
            },
            _ => {},
        }
        Ok(())
    }

    /// Derives the switch, validates, and applies the flag rules for an
    /// event the server side sends.
    fn server_event(&mut self, event: &Event) -> (r: Result<(), HttpError>)
        ensures
            final(self).max_event_size == old(self).max_event_size,
            final(self).in_buf@ == old(self).in_buf@,
            final(self).in_buf_closed == old(self).in_buf_closed,
            final(self).out_buf@ == old(self).out_buf@,
            final(self).body_reader == old(self).body_reader,
            final(self).body_writer == old(self).body_writer,
            final(self).peer_method == old(self).peer_method,
            final(self).peer_http_version == old(self).peer_http_version,
            match spec_conn_server_event(
                old(self).state,
                old(self).client_wants_continue,
                event@,
            ) {
                Ok((st2, w)) => r == Ok::<(), HttpError>(()) && final(self).state == st2 && final(self).client_wants_continue == w,
                Err(e) => r == Err::<(), HttpError>(e) && final(self).state == old(self).state
                    && final(self).client_wants_continue == old(self).client_wants_continue,
            },
    {
        let switch: Option<SwitchEvent> = match event {
            Event::InfoResponse(resp) => {
                if resp.status == 101 {
                    Option::Some(SwitchEvent::Upgrade)
                } else {
                    Option::None
                }
            },
            Event::Response(resp) => {
                if self.state.pending_connect && 200 <= resp.status && resp.status <= 299 {
                    Option::Some(SwitchEvent::Connect)
                } else {
                    Option::None
                }
            },
            _ => Option::None,
        };
        let st = match self.state.server_event(event.to_state_event(), switch) {
            Ok(s) => s,
            Err(e) => {
                return Err(e);
            },
        };
        self.state = st;
        match event {
            Event::InfoResponse(_) => {
                self.client_wants_continue = false;
            },
            Event::Response(resp) => {
                if !resp.can_keep_alive() {
                    self.state = self.state.disable_keep_alive();
                }
                self.client_wants_continue = false;
            },
            _ => {},
        }
        Ok(())
    }

    /// Serialises a validated head into the egress buffer and splits the
    /// fresh bytes back out for the caller to transmit.
    fn write_event(&mut self, event: Event) -> (r: Vec<u8>)
        requires
            spec_event_writable(event@),
        ensures
            final(self).max_event_size == old(self).max_event_size,
            final(self).in_buf@ == old(self).in_buf@,
            final(self).in_buf_closed == old(self).in_buf_closed,
            final(self).state == old(self).state,
            final(self).client_wants_continue == old(self).client_wants_continue,
            final(self).body_reader == old(self).body_reader,
            final(self).body_writer == old(self).body_writer,
            final(self).peer_method == old(self).peer_method,
            final(self).peer_http_version == old(self).peer_http_version,
            ({
                let ser = spec_event_bytes(event@);
                match event {
                    Event::Data(_) | Event::EndOfMessage(Option::None) | Event::ConnectionClosed => r@
                        == ser && final(self).out_buf@ == old(self).out_buf@,
                    _ => r@ == (old(self).out_buf@ + ser).take(ser.len() as int) && final(self).out_buf@ == (old(self).out_buf@ + ser).skip(ser.len() as int),
                }
            }),
    {
        event.into_buf(&mut self.out_buf)
    }
}

impl<Role> HttpConn<Role> {
    /// A fresh connection with empty buffers and the default event-size
    /// reserve of eight kibibytes.
    pub fn new() -> (r: Self)
        ensures
            r@.state == crate::state::new_state_spec(),
            r@.max_event_size == 8192,
            r@.in_buf.len() == 0,
            !r@.in_buf_closed,
            r@.out_buf.len() == 0,
            !r@.client_wants_continue,
            r@.body_reader is None,
            r@.body_writer is None,
            r@.peer_method is None,
            r@.peer_http_version is None,
            r@.wf(),
            r@.wf_client_writer(),
            r@.wf_server_writer(),
    {
        Self::from_bufs(8192, Vec::new(), Vec::new())
    }

    /// A fresh connection over caller-supplied buffers.
    pub fn from_bufs(max_event_size: usize, in_buf: Vec<u8>, out_buf: Vec<u8>) -> (r: Self)
        ensures
            r@.state == crate::state::new_state_spec(),
            r@.max_event_size == max_event_size,
            r@.in_buf == in_buf@,
            !r@.in_buf_closed,
            r@.out_buf == out_buf@,
            !r@.client_wants_continue,
            r@.body_reader is None,
            r@.body_writer is None,
            r@.peer_method is None,
            r@.peer_http_version is None,
            r@.wf(),
            r@.wf_client_writer(),
            r@.wf_server_writer(),
    {
        HttpConn {
            inner: Inner {
                state: State::new(),
                max_event_size,
                in_buf,
                in_buf_closed: false,
                out_buf,
                client_wants_continue: false,
                body_reader: Option::None,
                body_writer: Option::None,
                peer_method: Option::None,
                peer_http_version: Option::None,
            },
            pd: core::marker::PhantomData,
        }
    }

    /// Releases the ingest and egress buffers for reuse.
    pub fn into_bufs(self) -> (r: (Vec<u8>, Vec<u8>))
        ensures
            r.0@ == self@.in_buf,
            r.1@ == self@.out_buf,
    {
        (self.inner.in_buf, self.inner.out_buf)
    }

    /// The event-size reserve this connection was built with.
    pub fn max_event_size(&self) -> (r: usize)
        ensures
            r == self@.max_event_size,
    {
        self.inner.max_event_size
    }

    /// The connection-level state record, for callers that steer on it.
    pub fn state(&self) -> (r: State)
        ensures
            r == self@.state,
    {
        self.inner.state
    }

    /// Whether the last request asked for a 100-continue interlude that no
    /// body byte or response has ended yet.
    pub fn client_wants_continue(&self) -> (r: bool)
        ensures
            r == self@.client_wants_continue,
    {
        self.inner.client_wants_continue
    }

    /// Accepts bytes the transport produced. An empty slice records EOF;
    /// bytes after EOF are a protocol fault.
    pub fn receive_data(&mut self, data: &[u8]) -> (r: Result<usize, HttpError>)
        ensures
            final(self)@.state == old(self)@.state,
            final(self)@.max_event_size == old(self)@.max_event_size,
            final(self)@.out_buf == old(self)@.out_buf,
            final(self)@.client_wants_continue == old(self)@.client_wants_continue,
            final(self)@.body_reader == old(self)@.body_reader,
            final(self)@.body_writer == old(self)@.body_writer,
            final(self)@.peer_method == old(self)@.peer_method,
            final(self)@.peer_http_version == old(self)@.peer_http_version,
            if data@.len() == 0 {
                r == Ok::<usize, HttpError>(0usize) && final(self)@.in_buf_closed && final(self)@.in_buf == old(self)@.in_buf
            } else if old(self)@.in_buf_closed {
                r == Err::<usize, HttpError>(HttpError::PeerDataAfterClose) && final(self)@ == old(self)@
            } else {
                r == Ok::<usize, HttpError>(data@.len() as usize) && final(self)@.in_buf == old(self)@.in_buf + data@ && !final(self)@.in_buf_closed
            },
            final(self)@.wf() == old(self)@.wf(),
            final(self)@.wf_client_writer() == old(self)@.wf_client_writer(),
            final(self)@.wf_server_writer() == old(self)@.wf_server_writer(),
    {
        if data.len() == 0 {
            self.inner.in_buf_closed = true;
            return Ok(0);
        }
        if self.inner.in_buf_closed {
            return Err(HttpError::PeerDataAfterClose);
        }
        crate::headers::append_bytes(&mut self.inner.in_buf, data);
        Ok(data.len())
    }
}

impl<Role> Default for HttpConn<Role> {
    /// Same as `HttpConn::new`.
    fn default() -> (r: Self)
        ensures
            r@.state == crate::state::new_state_spec(),
            r@.in_buf.len() == 0,
            r@.out_buf.len() == 0,
            r@.wf(),
            r@.wf_client_writer(),
            r@.wf_server_writer(),
    {
        Self::new()
    }
}

impl HttpConn<Client> {
    /// Submits the request head, validates it, returns its serialised bytes,
    /// and installs the body writer its framing calls for.
    #[verifier::rlimit(60)]
    pub fn send_req(&mut self, req: ReqHead) -> (r: Result<Vec<u8>, HttpError>)
        requires
            req.version == Version::Http11,
            old(self)@.wf_client_writer(),
        ensures
            final(self)@.wf_client_writer(),
            final(self)@.max_event_size == old(self)@.max_event_size,
            final(self)@.in_buf == old(self)@.in_buf,
            final(self)@.in_buf_closed == old(self)@.in_buf_closed,
            final(self)@.body_reader == old(self)@.body_reader,
            final(self)@.peer_method == old(self)@.peer_method,
            final(self)@.peer_http_version == old(self)@.peer_http_version,
            match spec_conn_client_event(
                old(self)@.state,
                old(self)@.client_wants_continue,
                EventModel::Request(req@),
            ) {
                Ok((st2, w)) => {
                    let ser = spec_event_bytes(EventModel::Request(req@));
                    &&& final(self)@.state == st2
                    &&& final(self)@.client_wants_continue == w
                    &&& final(self)@.body_writer == Option::Some(
                        spec_writer_for(spec_req_framing(req@.headers)),
                    )
                    &&& (r matches Ok(v) && v@ == (old(self)@.out_buf + ser).take(
                        ser.len() as int,
                    ))
                    &&& final(self)@.out_buf == (old(self)@.out_buf + ser).skip(ser.len() as int)
                },
                Err(e) => {
                    &&& r == Err::<Vec<u8>, HttpError>(e)
                    &&& final(self)@.state == spec_client_flags_pre(
                        old(self)@.state,
                        EventModel::Request(req@),
                    )
                    &&& final(self)@.client_wants_continue == old(self)@.client_wants_continue
                    &&& final(self)@.body_writer == old(self)@.body_writer
                    &&& final(self)@.out_buf == old(self)@.out_buf
                },
            },
    {
        let fm = req.framing_method();
        let event = Event::Request(req);
        match self.inner.client_event(&event) {
            Ok(()) => {
                self.inner.body_writer = Option::Some(BodyWriter::from(fm));
                Ok(self.inner.write_event(event))
            },
            Err(e) => Err(e),
        }
    }

    /// Submits one body fragment, encoded by the framing the request head
    /// installed: wrapped in a size line under chunked framing, passed
    /// through while the declared length still covers it, passed through
    /// unconditionally under the closing framing.
    pub fn send_data(&mut self, data: Vec<u8>) -> (r: Result<Vec<u8>, HttpError>)
        requires
            old(self)@.wf_client_writer(),
        ensures
            final(self)@.wf_client_writer(),
            final(self)@.max_event_size == old(self)@.max_event_size,
            final(self)@.in_buf == old(self)@.in_buf,
            final(self)@.in_buf_closed == old(self)@.in_buf_closed,
            final(self)@.out_buf == old(self)@.out_buf,
            final(self)@.body_reader == old(self)@.body_reader,
            final(self)@.peer_method == old(self)@.peer_method,
            final(self)@.peer_http_version == old(self)@.peer_http_version,
            match spec_conn_client_event(
                old(self)@.state,
                old(self)@.client_wants_continue,
                EventModel::Data(data@),
            ) {
                Err(e) => r == Err::<Vec<u8>, HttpError>(e) && final(self)@ == old(self)@,
                Ok((st2, w)) => match spec_write_data(old(self)@.body_writer->Some_0, data@) {
                    Err(e) => r == Err::<Vec<u8>, HttpError>(e) && final(self)@ == old(self)@,
                    Ok((w2, out)) => final(self)@.state == st2 && final(self)@.client_wants_continue == w && final(self)@.body_writer == Option::Some(w2)
                        && (r matches Ok(v) && v@ == out),
                },
            },
    {
        let st2 = match self.inner.state.client_event(StateEvent::Data) {
            Ok(s) => s,
            Err(e) => {
                return Err(e);
            },
        };
        let mut w = match self.inner.body_writer {
            Option::Some(w) => w,
            Option::None => {
                proof {
                    assert(false);
                }
                return Err(HttpError::InvalidTransition);
            },
        };
        let out = match w.write_data(&data) {
            Ok(v) => v,
            Err(e) => {
                return Err(e);
            },
        };
        self.inner.state = st2;
        self.inner.client_wants_continue = false;
        self.inner.body_writer = Option::Some(w);
        Ok(out)
    }

    /// Ends the request through the installed writer: the chunked terminator
    /// carrying the trailers, or nothing once a declared length is paid off.
    /// The writer is retired with the message.
    pub fn send_end_of_message(&mut self, headers: Option<crate::headers::Headers>) -> (r: Result<
        Vec<u8>,
        HttpError,
    >)
        requires
            old(self)@.wf_client_writer(),
        ensures
            final(self)@.wf_client_writer(),
            final(self)@.max_event_size == old(self)@.max_event_size,
            final(self)@.in_buf == old(self)@.in_buf,
            final(self)@.in_buf_closed == old(self)@.in_buf_closed,
            final(self)@.out_buf == old(self)@.out_buf,
            final(self)@.body_reader == old(self)@.body_reader,
            final(self)@.peer_method == old(self)@.peer_method,
            final(self)@.peer_http_version == old(self)@.peer_http_version,
            ({
                let tv = match headers {
                    Option::Some(h) => Option::Some(h@),
                    Option::None => Option::None,
                };
                match spec_conn_client_event(
                    old(self)@.state,
                    old(self)@.client_wants_continue,
                    EventModel::EndOfMessage(tv),
                ) {
                    Err(e) => r == Err::<Vec<u8>, HttpError>(e) && final(self)@ == old(self)@,
                    Ok((st2, w)) => match spec_write_end(old(self)@.body_writer->Some_0, tv) {
                        Err(e) => r == Err::<Vec<u8>, HttpError>(e) && final(self)@ == old(self)@,
                        Ok(out) => final(self)@.state == st2 && final(self)@.client_wants_continue == w && final(self)@.body_writer is None && (
                        r matches Ok(v) && v@ == out),
                    },
                }
            }),
    {
        let st2 = match self.inner.state.client_event(StateEvent::EndOfMessage) {
            Ok(s) => s,
            Err(e) => {
                return Err(e);
            },
        };
        let mut w = match self.inner.body_writer {
            Option::Some(w) => w,
            Option::None => {
                proof {
                    assert(false);
                }
                return Err(HttpError::InvalidTransition);
            },
        };
        let res = match &headers {
            Option::Some(h) => w.write_end_of_message(Option::Some(h)),
            Option::None => w.write_end_of_message(Option::None),
        };
        let out = match res {
            Ok(v) => v,
            Err(e) => {
                return Err(e);
            },
        };
        self.inner.state = st2;
        self.inner.client_wants_continue = false;
        self.inner.body_writer = Option::None;
        Ok(out)
    }

    /// Records that this side closed the transport; nothing is serialised.
    pub fn send_connection_closed(&mut self) -> (r: Result<Vec<u8>, HttpError>)
        requires
            old(self)@.wf_client_writer(),
        ensures
            final(self)@.wf_client_writer(),
            final(self)@.max_event_size == old(self)@.max_event_size,
            final(self)@.in_buf == old(self)@.in_buf,
            final(self)@.in_buf_closed == old(self)@.in_buf_closed,
            final(self)@.out_buf == old(self)@.out_buf,
            final(self)@.body_reader == old(self)@.body_reader,
            final(self)@.body_writer == old(self)@.body_writer,
            final(self)@.peer_method == old(self)@.peer_method,
            final(self)@.peer_http_version == old(self)@.peer_http_version,
            match spec_conn_client_event(
                old(self)@.state,
                old(self)@.client_wants_continue,
                EventModel::ConnectionClosed,
            ) {
                Ok((st2, w)) => final(self)@.state == st2 && final(self)@.client_wants_continue
                    == w && (r matches Ok(v) && v@ == Seq::<u8>::empty()),
                Err(e) => r == Err::<Vec<u8>, HttpError>(e) && final(self)@.state == old(self)@.state && final(self)@.client_wants_continue == old(self)@.client_wants_continue,
            },
    {
        match self.inner.client_event(&Event::ConnectionClosed) {
            Ok(()) => Ok(Vec::new()),
            Err(e) => Err(e),
        }
    }
}

impl HttpConn<Server> {
    /// Attempts to produce the next event of the client's message from the
    /// ingest buffer: the request head while idle, then its body, driven by
    /// the installed reader, with EOF ending an `Http10` or fully paid body
    /// and cutting any other short.
    pub fn next_event(&mut self) -> (r: Result<Option<Event>, HttpError>)
        requires
            old(self)@.wf(),
        ensures
            final(self)@.wf(),
            old(self)@.wf_server_writer() ==> final(self)@.wf_server_writer(),
            final(self)@.max_event_size == old(self)@.max_event_size,
            final(self)@.out_buf == old(self)@.out_buf,
            final(self)@.in_buf_closed == old(self)@.in_buf_closed,
            final(self)@.body_writer == old(self)@.body_writer,
            final(self)@.peer_http_version == old(self)@.peer_http_version,
            ({
                let c0 = old(self)@;
                let c1 = final(self)@;
                match c0.state.client {
                    ClientState::Idle => ({
                        let p = crate::headers::crlf2_pos(c0.in_buf, 0);
                        if p == c0.in_buf.len() {
                            c1 == c0 && r == Ok::<Option<Event>, HttpError>(Option::None)
                        } else {
                            &&& c1.in_buf == c0.in_buf.skip(p + 4)
                            &&& match spec_parse_req_head(c0.in_buf.take(p + 4)) {
                                ReqParse::Bad => r == Err::<Option<Event>, HttpError>(
                                    HttpError::MalformedHead,
                                ) && c1.state == converge_spec(
                                    State { client: ClientState::Error, ..c0.state },
                                ) && c1.body_reader == c0.body_reader && c1.peer_method
                                    == c0.peer_method && c1.client_wants_continue
                                    == c0.client_wants_continue,
                                ReqParse::Head(m, u, v, hs) => ({
                                    let em = EventModel::Request(
                                        ReqHeadV { method: m, uri: u, version: v, headers: hs },
                                    );
                                    match spec_conn_client_event(
                                        c0.state,
                                        c0.client_wants_continue,
                                        em,
                                    ) {
                                        Ok((st2, w)) => {
                                            &&& c1.state == st2
                                            &&& c1.client_wants_continue == w
                                            &&& c1.body_reader == Option::Some(
                                                spec_reader_for(spec_req_framing(hs)),
                                            )
                                            &&& c1.peer_method == Option::Some(m)
                                            &&& (r matches Ok(Some(Event::Request(h))) && h@
                                                == ReqHeadV {
                                                method: m,
                                                uri: u,
                                                version: v,
                                                headers: hs,
                                            })
                                        },
                                        Err(e) => {
                                            &&& r == Err::<Option<Event>, HttpError>(e)
                                            &&& c1.state == spec_client_flags_pre(c0.state, em)
                                            &&& c1.body_reader == c0.body_reader
                                            &&& c1.peer_method == c0.peer_method
                                            &&& c1.client_wants_continue
                                                == c0.client_wants_continue
                                        },
                                    }
                                }),
                            }
                        }
                    }),
                    ClientState::SendBody => ({
                        let (rd2, buf2, res) = spec_body_next(c0.body_reader->Some_0, c0.in_buf);
                        &&& c1.in_buf == buf2
                        &&& c1.body_reader == Option::Some(rd2)
                        &&& c1.state == c0.state
                        &&& c1.client_wants_continue == c0.client_wants_continue
                        &&& c1.peer_method == c0.peer_method
                        &&& match res {
                            Ok(BodyOut::More) => {
                                if c0.in_buf_closed {
                                    if spec_eof_premature(rd2) {
                                        r == Err::<Option<Event>, HttpError>(
                                            HttpError::ConnectionClosedPrematurely,
                                        )
                                    } else {
                                        r matches Ok(Some(e)) && e@ == EventModel::EndOfMessage(
                                            Option::None,
                                        )
                                    }
                                } else {
                                    r == Ok::<Option<Event>, HttpError>(Option::None)
                                }
                            },
                            Ok(BodyOut::Data(d)) => r matches Ok(Some(Event::Data(v))) && v@ == d,
                            Ok(BodyOut::End(t)) => match t {
                                Option::None => r == Ok::<Option<Event>, HttpError>(
                                    Option::Some(Event::EndOfMessage(Option::None)),
                                ),
                                Option::Some(hs) => r matches Ok(Some(Event::EndOfMessage(Some(h))))
                                    && h@ == hs,
                            },
                            Err(e) => r == Err::<Option<Event>, HttpError>(e),
                        }
                    }),
                    ClientState::Error => c1 == c0 && r == Err::<Option<Event>, HttpError>(
                        HttpError::MalformedHead,
                    ),
                    _ => c1 == c0 && r == Ok::<Option<Event>, HttpError>(Option::None),
                }
            }),
    {
        let c = self.inner.state.states().0;
        if c == ClientState::Idle {
            match ReqHead::from_buf(&mut self.inner.in_buf) {
                Ok(Option::Some(rh)) => {
                    let br = BodyReader::from(rh.framing_method());
                    let pm = crate::headers::clone_bytes(&rh.method);
                    let event = Event::Request(rh);
                    match self.inner.client_event(&event) {
                        Ok(()) => {
                            self.inner.body_reader = Option::Some(br);
                            self.inner.peer_method = Option::Some(pm);
                            Ok(Option::Some(event))
                        },
                        Err(e) => Err(e),
                    }
                },
                Ok(Option::None) => Ok(Option::None),
                Err(e) => {
                    self.inner.state = self.inner.state.client_error();
                    Err(e)
                },
            }
        } else if c == ClientState::SendBody {
            let step = match &mut self.inner.body_reader {
                Option::Some(br) => br.next_event(&mut self.inner.in_buf),
                Option::None => {
                    proof {
                        assert(false);
                    }
                    Ok(Option::None)
                },
            };
            match step {
                Ok(Option::None) => {
                    if self.inner.in_buf_closed {
                        match &self.inner.body_reader {
                            Option::Some(br) => {
                                match br.eof() {
                                    Ok(e) => Ok(Option::Some(e)),
                                    Err(e) => Err(e),
                                }
                            },
                            Option::None => {
                                proof {
                                    assert(false);
                                }
                                Ok(Option::None)
                            },
                        }
                    } else {
                        Ok(Option::None)
                    }
                },
                Ok(Option::Some(e)) => Ok(Option::Some(e)),
                Err(e) => Err(e),
            }
        } else if c == ClientState::Error {
            Err(HttpError::MalformedHead)
        } else {
            Ok(Option::None)
        }
    }

    /// Submits an informational response, validates it, and returns its
    /// serialised bytes. An informational response carries no body, so no
    /// writer is installed.
    pub fn send_info_resp(&mut self, resp: RespHead) -> (r: Result<Vec<u8>, HttpError>)
        requires
            resp.version == Version::Http11,
            crate::resp::wf_status(resp.status),
        ensures
            final(self)@.wf() == old(self)@.wf(),
            final(self)@.wf_server_writer() == old(self)@.wf_server_writer(),
            final(self)@.max_event_size == old(self)@.max_event_size,
            final(self)@.in_buf == old(self)@.in_buf,
            final(self)@.in_buf_closed == old(self)@.in_buf_closed,
            final(self)@.body_reader == old(self)@.body_reader,
            final(self)@.body_writer == old(self)@.body_writer,
            final(self)@.peer_method == old(self)@.peer_method,
            final(self)@.peer_http_version == old(self)@.peer_http_version,
            match spec_conn_server_event(
                old(self)@.state,
                old(self)@.client_wants_continue,
                EventModel::InfoResponse(resp@),
            ) {
                Ok((st2, w)) => {
                    let ser = spec_event_bytes(EventModel::InfoResponse(resp@));
                    &&& final(self)@.state == st2
                    &&& final(self)@.client_wants_continue == w
                    &&& (r matches Ok(v) && v@ == (old(self)@.out_buf + ser).take(
                        ser.len() as int,
                    ))
                    &&& final(self)@.out_buf == (old(self)@.out_buf + ser).skip(ser.len() as int)
                },
                Err(e) => {
                    &&& r == Err::<Vec<u8>, HttpError>(e)
                    &&& final(self)@.state == old(self)@.state
                    &&& final(self)@.client_wants_continue == old(self)@.client_wants_continue
                    &&& final(self)@.out_buf == old(self)@.out_buf
                },
            },
    {
        let event = Event::InfoResponse(resp);
        match self.inner.server_event(&event) {
            Ok(()) => Ok(self.inner.write_event(event)),
            Err(e) => Err(e),
        }
    }

    /// Submits the final response, validates it, returns its serialised
    /// bytes, and installs the body writer its framing calls for, decided
    /// against the method of the request it answers.
    pub fn send_resp(&mut self, resp: RespHead) -> (r: Result<Vec<u8>, HttpError>)
        requires
            resp.version == Version::Http11,
            crate::resp::wf_status(resp.status),
            old(self)@.wf_server_writer(),
        ensures
            final(self)@.wf() == old(self)@.wf(),
            final(self)@.wf_server_writer(),
            final(self)@.max_event_size == old(self)@.max_event_size,
            final(self)@.in_buf == old(self)@.in_buf,
            final(self)@.in_buf_closed == old(self)@.in_buf_closed,
            final(self)@.body_reader == old(self)@.body_reader,
            final(self)@.peer_method == old(self)@.peer_method,
            final(self)@.peer_http_version == old(self)@.peer_http_version,
            match spec_conn_server_event(
                old(self)@.state,
                old(self)@.client_wants_continue,
                EventModel::Response(resp@),
            ) {
                Ok((st2, w)) => {
                    let ser = spec_event_bytes(EventModel::Response(resp@));
                    &&& final(self)@.state == st2
                    &&& final(self)@.client_wants_continue == w
                    &&& final(self)@.body_writer == Option::Some(
                        spec_writer_for(
                            spec_resp_framing(
                                resp@.status as int,
                                spec_peer_method(old(self)@.peer_method),
                                resp@.headers,
                            ),
                        ),
                    )
                    &&& (r matches Ok(v) && v@ == (old(self)@.out_buf + ser).take(
                        ser.len() as int,
                    ))
                    &&& final(self)@.out_buf == (old(self)@.out_buf + ser).skip(ser.len() as int)
                },
                Err(e) => {
                    &&& r == Err::<Vec<u8>, HttpError>(e)
                    &&& final(self)@.state == old(self)@.state
                    &&& final(self)@.client_wants_continue == old(self)@.client_wants_continue
                    &&& final(self)@.body_writer == old(self)@.body_writer
                    &&& final(self)@.out_buf == old(self)@.out_buf
                },
            },
    {
        let mv: Vec<u8> = match &self.inner.peer_method {
            Option::Some(m) => crate::headers::clone_bytes(m),
            Option::None => Vec::new(),
        };
        proof {
            assert(mv@ =~= spec_peer_method(self@.peer_method));
        }
        let fm = resp.framing_method(&mv);
        let event = Event::Response(resp);
        match self.inner.server_event(&event) {
            Ok(()) => {
                self.inner.body_writer = Option::Some(BodyWriter::from(fm));
                Ok(self.inner.write_event(event))
            },
            Err(e) => Err(e),
        }
    }

    /// Submits one body fragment of the response, encoded by the framing the
    /// response head installed: wrapped in a size line under chunked
    /// framing, passed through while the declared length still covers it,
    /// passed through unconditionally under the closing framing.
    pub fn send_data(&mut self, data: Vec<u8>) -> (r: Result<Vec<u8>, HttpError>)
        requires
            old(self)@.wf_server_writer(),
        ensures
            final(self)@.wf() == old(self)@.wf(),
            final(self)@.wf_server_writer(),
            final(self)@.max_event_size == old(self)@.max_event_size,
            final(self)@.in_buf == old(self)@.in_buf,
            final(self)@.in_buf_closed == old(self)@.in_buf_closed,
            final(self)@.out_buf == old(self)@.out_buf,
            final(self)@.body_reader == old(self)@.body_reader,
            final(self)@.peer_method == old(self)@.peer_method,
            final(self)@.peer_http_version == old(self)@.peer_http_version,
            match spec_conn_server_event(
                old(self)@.state,
                old(self)@.client_wants_continue,
                EventModel::Data(data@),
            ) {
                Err(e) => r == Err::<Vec<u8>, HttpError>(e) && final(self)@ == old(self)@,
                Ok((st2, w)) => match spec_write_data(old(self)@.body_writer->Some_0, data@) {
                    Err(e) => r == Err::<Vec<u8>, HttpError>(e) && final(self)@ == old(self)@,
                    Ok((w2, out)) => final(self)@.state == st2 && final(self)@.client_wants_continue == w && final(self)@.body_writer == Option::Some(w2)
                        && (r matches Ok(v) && v@ == out),
                },
            },
    {
        let st2 = match self.inner.state.server_event(StateEvent::Data, Option::None) {
            Ok(s) => s,
            Err(e) => {
                return Err(e);
            },
        };
        let mut w = match self.inner.body_writer {
            Option::Some(w) => w,
            Option::None => {
                proof {
                    assert(false);
                }
                return Err(HttpError::InvalidTransition);
            },
        };
        let out = match w.write_data(&data) {
            Ok(v) => v,
            Err(e) => {
                return Err(e);
            },
        };
        self.inner.state = st2;
        self.inner.body_writer = Option::Some(w);
        Ok(out)
    }

    /// Ends the response through the installed writer: the chunked
    /// terminator carrying the trailers, or nothing once a declared length
    /// is paid off. The writer is retired with the message.
    pub fn send_end_of_message(&mut self, headers: Option<crate::headers::Headers>) -> (r: Result<
        Vec<u8>,
        HttpError,
    >)
        requires
            old(self)@.wf_server_writer(),
        ensures
            final(self)@.wf() == old(self)@.wf(),
            final(self)@.wf_server_writer(),
            final(self)@.max_event_size == old(self)@.max_event_size,
            final(self)@.in_buf == old(self)@.in_buf,
            final(self)@.in_buf_closed == old(self)@.in_buf_closed,
            final(self)@.out_buf == old(self)@.out_buf,
            final(self)@.body_reader == old(self)@.body_reader,
            final(self)@.peer_method == old(self)@.peer_method,
            final(self)@.peer_http_version == old(self)@.peer_http_version,
            ({
                let tv = match headers {
                    Option::Some(h) => Option::Some(h@),
                    Option::None => Option::None,
                };
                match spec_conn_server_event(
                    old(self)@.state,
                    old(self)@.client_wants_continue,
                    EventModel::EndOfMessage(tv),
                ) {
                    Err(e) => r == Err::<Vec<u8>, HttpError>(e) && final(self)@ == old(self)@,
                    Ok((st2, w)) => match spec_write_end(old(self)@.body_writer->Some_0, tv) {
                        Err(e) => r == Err::<Vec<u8>, HttpError>(e) && final(self)@ == old(self)@,
                        Ok(out) => final(self)@.state == st2 && final(self)@.client_wants_continue == w && final(self)@.body_writer is None && (
                        r matches Ok(v) && v@ == out),
                    },
                }
            }),
    {
        let st2 = match self.inner.state.server_event(StateEvent::EndOfMessage, Option::None) {
            Ok(s) => s,
            Err(e) => {
                return Err(e);
            },
        };
        let mut w = match self.inner.body_writer {
            Option::Some(w) => w,
            Option::None => {
                proof {
                    assert(false);
                }
                return Err(HttpError::InvalidTransition);
            },
        };
        let res = match &headers {
            Option::Some(h) => w.write_end_of_message(Option::Some(h)),
            Option::None => w.write_end_of_message(Option::None),
        };
        let out = match res {
            Ok(v) => v,
            Err(e) => {
                return Err(e);
            },
        };
        self.inner.state = st2;
        self.inner.body_writer = Option::None;
        Ok(out)
    }

    /// Records that this side closed the transport; nothing is serialised.
    pub fn send_connection_closed(&mut self) -> (r: Result<Vec<u8>, HttpError>)
        requires
            old(self)@.wf_server_writer(),
        ensures
            final(self)@.wf() == old(self)@.wf(),
            final(self)@.wf_server_writer(),
            final(self)@.max_event_size == old(self)@.max_event_size,
            final(self)@.in_buf == old(self)@.in_buf,
            final(self)@.in_buf_closed == old(self)@.in_buf_closed,
            final(self)@.out_buf == old(self)@.out_buf,
            final(self)@.body_reader == old(self)@.body_reader,
            final(self)@.body_writer == old(self)@.body_writer,
            final(self)@.peer_method == old(self)@.peer_method,
            final(self)@.peer_http_version == old(self)@.peer_http_version,
            match spec_conn_server_event(
                old(self)@.state,
                old(self)@.client_wants_continue,
                EventModel::ConnectionClosed,
            ) {
                Ok((st2, w)) => final(self)@.state == st2 && final(self)@.client_wants_continue
                    == w && (r matches Ok(v) && v@ == Seq::<u8>::empty()),
                Err(e) => r == Err::<Vec<u8>, HttpError>(e) && final(self)@.state == old(self)@.state && final(self)@.client_wants_continue == old(self)@.client_wants_continue,
            },
    {
        match self.inner.server_event(&Event::ConnectionClosed) {
            Ok(()) => Ok(Vec::new()),
            Err(e) => Err(e),
        }
    }
}

} // verus!
