use vstd::prelude::*;

use crate::headers::Headers;
use crate::req::{ReqHead, ReqHeadV};
use crate::resp::{RespHead, RespHeadV};
use crate::state::StateEvent;

verus! {

/// The single currency between caller and engine: message heads, body
/// fragments, message ends with optional trailers, and transport EOF.
#[derive(Debug)]
pub enum Event {
    Request(ReqHead),
    InfoResponse(RespHead),
    Response(RespHead),
    Data(Vec<u8>),
    EndOfMessage(Option<Headers>),
    ConnectionClosed,
}

/// The mathematical shape of an event: heads and fragments as sequences.
pub enum EventModel {
    Request(ReqHeadV),
    InfoResponse(RespHeadV),
    Response(RespHeadV),
    Data(Seq<u8>),
    EndOfMessage(Option<Seq<(Seq<u8>, Seq<u8>)>>),
    ConnectionClosed,
}

impl View for Event {
    type V = EventModel;

    open spec fn view(&self) -> EventModel {
        match self {
            Event::Request(r) => EventModel::Request(r@),
            Event::InfoResponse(r) => EventModel::InfoResponse(r@),
            Event::Response(r) => EventModel::Response(r@),
            Event::Data(b) => EventModel::Data(b@),
            Event::EndOfMessage(t) => EventModel::EndOfMessage(
                match t {
                    Option::Some(h) => Option::Some(h@),
                    Option::None => Option::None,
                },
            ),
            Event::ConnectionClosed => EventModel::ConnectionClosed,
        }
    }
}

/// The kind of an event, as the state machine sees it.
pub open spec fn spec_event_kind(e: EventModel) -> StateEvent {
    match e {
        EventModel::Request(_) => StateEvent::Request,
        EventModel::InfoResponse(_) => StateEvent::InfoResponse,
        EventModel::Response(_) => StateEvent::Response,
        EventModel::Data(_) => StateEvent::Data,
        EventModel::EndOfMessage(_) => StateEvent::EndOfMessage,
        EventModel::ConnectionClosed => StateEvent::ConnectionClosed,
    }
}

/// The bytes an event contributes to the egress stream: a serialised head,
/// a fragment passed through, the chunked terminator around trailers (the
/// one framing on which trailers are legal), or nothing.
pub open spec fn spec_event_bytes(e: EventModel) -> Seq<u8> {
    match e {
        EventModel::Request(r) => crate::req::spec_serialize_req(r.method, r.uri, r.headers),
        EventModel::InfoResponse(r) => crate::resp::spec_serialize_resp(
            r.status as int,
            r.headers,
        ),
        EventModel::Response(r) => crate::resp::spec_serialize_resp(r.status as int, r.headers),
        EventModel::Data(b) => b,
        EventModel::EndOfMessage(t) => match t {
            Option::Some(hs) => crate::writer::spec_chunk_end(Option::Some(hs)),
            Option::None => Seq::empty(),
        },
        EventModel::ConnectionClosed => Seq::empty(),
    }
}

/// Whether an event may be serialised: heads must carry version 1.1 (the
/// engine never emits 1.0 start lines) and a status the wire can hold.
pub open spec fn spec_event_writable(e: EventModel) -> bool {
    match e {
        EventModel::Request(r) => r.version == crate::util::Version::Http11,
        EventModel::InfoResponse(r) => r.version == crate::util::Version::Http11
            && crate::resp::wf_status(r.status),
        EventModel::Response(r) => r.version == crate::util::Version::Http11
            && crate::resp::wf_status(r.status),
        _ => true,
    }
}

impl Event {
    /// Strips the payload, leaving the kind the state machine validates.
    pub fn to_state_event(&self) -> (r: StateEvent)
        ensures
            r == spec_event_kind(self@),
    {
        match self {
            Event::Request(_) => StateEvent::Request,
            Event::InfoResponse(_) => StateEvent::InfoResponse,
            Event::Response(_) => StateEvent::Response,
            Event::Data(_) => StateEvent::Data,
            Event::EndOfMessage(_) => StateEvent::EndOfMessage,
            Event::ConnectionClosed => StateEvent::ConnectionClosed,
        }
    }

    /// Serialises the event through `buf`, handing back the bytes to send:
    /// heads are written into `buf` and split back out, data passes through
    /// untouched, and trailers come wrapped in the chunked-body terminator
    /// (a zero-size line before them, a closing CRLF after).
    pub fn into_buf(self, buf: &mut Vec<u8>) -> (r: Vec<u8>)
        requires
            spec_event_writable(self@),
        ensures
            ({
                let ser = spec_event_bytes(self@);
                match self {
                    Event::Data(_) | Event::EndOfMessage(Option::None) | Event::ConnectionClosed => r@
                        == ser && final(buf)@ == old(buf)@,
                    _ => r@ == (old(buf)@ + ser).take(ser.len() as int) && final(buf)@ == (old(buf)@ + ser).skip(ser.len() as int),
                }
            }),
    {
        match self {
            Event::Request(req) => req.write_to_buf(buf),
            Event::InfoResponse(resp) => resp.write_to_buf(buf),
            Event::Response(resp) => resp.write_to_buf(buf),
            Event::Data(b) => b,
            Event::EndOfMessage(Option::Some(hdrs)) => {
                let start = buf.len();
                buf.push(48);
                buf.push(13);
                buf.push(10);
                crate::headers::serialize_headers_into(buf, &hdrs);
                buf.push(13);
                buf.push(10);
                proof {
                    assert(buf@ =~= old(buf)@ + crate::writer::spec_chunk_end(
                        Option::Some(hdrs@),
                    ));
                }
                let n = buf.len() - start;
                crate::body::split_to(buf, n)
            },
            Event::EndOfMessage(Option::None) => Vec::new(),
            Event::ConnectionClosed => Vec::new(),
        }
    }
}

impl PartialEq for Event {
    /// Two events are equal when they have the same kind and equal payloads.
    fn eq(&self, other: &Self) -> (r: bool) {
        match (self, other) {
            (Event::Request(a), Event::Request(b)) => a == b,
            (Event::InfoResponse(a), Event::InfoResponse(b)) => a == b,
            (Event::Response(a), Event::Response(b)) => a == b,
            (Event::Data(a), Event::Data(b)) => crate::headers::bytes_eq(
                a.as_slice(),
                b.as_slice(),
            ),
            (Event::EndOfMessage(Option::None), Event::EndOfMessage(Option::None)) => true,
            (Event::EndOfMessage(Option::Some(a)), Event::EndOfMessage(Option::Some(b))) => a == b,
            (Event::ConnectionClosed, Event::ConnectionClosed) => true,
            _ => false,
        }
    }
}

impl vstd::std_specs::cmp::PartialEqSpecImpl for Event {
    open spec fn obeys_eq_spec() -> bool {
        true
    }

    open spec fn eq_spec(&self, other: &Self) -> bool {
        match (self, other) {
            (Event::Request(a), Event::Request(b)) => a.method@ == b.method@ && a.uri@ == b.uri@
                && a.version == b.version && a.headers@ == b.headers@,
            (Event::InfoResponse(a), Event::InfoResponse(b)) => a.status == b.status && a.version
                == b.version && a.headers@ == b.headers@,
            (Event::Response(a), Event::Response(b)) => a.status == b.status && a.version
                == b.version && a.headers@ == b.headers@,
            (Event::Data(a), Event::Data(b)) => a@ == b@,
            (Event::EndOfMessage(Option::None), Event::EndOfMessage(Option::None)) => true,
            (Event::EndOfMessage(Option::Some(a)), Event::EndOfMessage(Option::Some(b))) => a@
                == b@,
            (Event::ConnectionClosed, Event::ConnectionClosed) => true,
            _ => false,
        }
    }
}

} // verus!
