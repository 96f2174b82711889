use vstd::prelude::*;

use crate::headers::{wf_headers, Headers};
use crate::util::Version;

verus! {

/// What can go wrong while parsing a response head: the bytes do not form a
/// head, or the status code is outside `100..=999`.
#[derive(Clone, Copy, Debug, PartialEq, Eq, Structural)]
pub enum RespHeadError {
    HttpParse,
    InvalidStatusCode,
}

/// The head of a response: status code, version, and the header map.
/// Immutable once constructed.
#[derive(Debug)]
pub struct RespHead {
    pub status: u16,
    pub version: Version,
    pub headers: Headers,
}

/// The mathematical shape of a response head.
pub struct RespHeadV {
    pub status: u16,
    pub version: Version,
    pub headers: Seq<(Seq<u8>, Seq<u8>)>,
}

impl View for RespHead {
    type V = RespHeadV;

    open spec fn view(&self) -> RespHeadV {
        RespHeadV { status: self.status, version: self.version, headers: self.headers@ }
    }
}

/// A status code the wire format can carry: three digits, first non-zero.
pub open spec fn wf_status(s: u16) -> bool {
    100 <= s <= 999
}

/// The three ASCII digits of a status code.
pub open spec fn spec_status_digits(code: int) -> Seq<u8> {
    seq![(48 + code / 100) as u8, (48 + (code / 10) % 10) as u8, (48 + code % 10) as u8]
}

/// A serialised response head: the status line, always at version 1.1, with
/// the canonical reason phrase where one is registered, then the fields,
/// then the closing CRLF.
pub open spec fn spec_serialize_resp(code: int, hs: Seq<(Seq<u8>, Seq<u8>)>) -> Seq<u8> {
    crate::req::http11_bytes() + seq![32u8] + spec_status_digits(code) + (match crate::status::spec_reason(code) {
        Option::Some(p) => seq![32u8] + p,
        Option::None => Seq::empty(),
    }) + seq![13u8, 10u8] + crate::headers::spec_serialize_headers(hs) + seq![13u8, 10u8]
}

/// The outcome of parsing a complete response head.
pub enum RespParse {
    /// The bytes do not form a response head.
    Bad,
    /// The status line carried a code outside `100..=999`.
    BadStatus,
    /// Status code, version, and the fields.
    Head(u16, Version, Seq<(Seq<u8>, Seq<u8>)>),
}

/// Parses the bytes of one complete response head (through its final CRLF
/// CRLF): `HTTP/1.x SP code [SP reason] CRLF` and the header block, which
/// must close exactly at the end. The reason phrase is discarded.
pub open spec fn spec_parse_resp_head(s: Seq<u8>) -> RespParse {
    if s.len() < 12 {
        RespParse::Bad
    } else if !(s[0] == 72 && s[1] == 84 && s[2] == 84 && s[3] == 80 && s[4] == 47 && s[5] == 49
        && s[6] == 46 && (s[7] == 48 || s[7] == 49) && s[8] == 32) {
        RespParse::Bad
    } else if !(48 <= s[9] <= 57 && 48 <= s[10] <= 57 && 48 <= s[11] <= 57) {
        RespParse::Bad
    } else {
        let version = if s[7] == 49 {
            Version::Http11
        } else {
            Version::Http10
        };
        let code = (s[9] - 48) * 100 + (s[10] - 48) * 10 + (s[11] - 48);
        if code < 100 {
            RespParse::BadStatus
        } else if s.len() < 14 {
            RespParse::Bad
        } else if s[12] == 13 {
            if s[13] != 10 {
                RespParse::Bad
            } else {
                match crate::headers::spec_parse_header_block(s, 14) {
                    crate::headers::HdrBlockRes::Block(hs, end) => {
                        if end == s.len() {
                            RespParse::Head(code as u16, version, hs)
                        } else {
                            RespParse::Bad
                        }
                    },
                    _ => RespParse::Bad,
                }
            }
        } else if s[12] == 32 {
            let re = crate::headers::line_end(s, 13);
            if re + 2 > s.len() {
                RespParse::Bad
            } else if s[re] != 13 || s[re + 1] != 10 {
                RespParse::Bad
            } else {
                match crate::headers::spec_parse_header_block(s, re + 2) {
                    crate::headers::HdrBlockRes::Block(hs, end) => {
                        if end == s.len() {
                            RespParse::Head(code as u16, version, hs)
                        } else {
                            RespParse::Bad
                        }
                    },
                    _ => RespParse::Bad,
                }
            }
        } else {
            RespParse::Bad
        }
    }
}

impl RespHead {
    /// Well-formedness: the fields hold what a parsed head holds.
    pub open spec fn wf(&self) -> bool {
        &&& wf_status(self.status)
        &&& wf_headers(self.headers@)
    }

    /// Extracts one response head from the front of `buf`, if its sentinel
    /// has arrived. The head's bytes are consumed even when they turn out
    /// malformed; without a sentinel nothing is touched.
    pub fn from_buf(buf: &mut Vec<u8>) -> (r: Result<Option<RespHead>, RespHeadError>)
        ensures
            ({
                let p = crate::headers::crlf2_pos(old(buf)@, 0);
                if p == old(buf)@.len() {
                    r == Ok::<Option<RespHead>, RespHeadError>(Option::None) && final(buf)@ == old(buf)@
                } else {
                    &&& final(buf)@ == old(buf)@.skip(p + 4)
                    &&& match spec_parse_resp_head(old(buf)@.take(p + 4)) {
                        RespParse::Head(c, v, hs) => r matches Ok(Some(h)) && h.status == c
                            && h.version == v && h.headers@ == hs,
                        RespParse::BadStatus => r == Err::<Option<RespHead>, RespHeadError>(
                            RespHeadError::InvalidStatusCode,
                        ),
                        RespParse::Bad => r == Err::<Option<RespHead>, RespHeadError>(
                            RespHeadError::HttpParse,
                        ),
                    }
                }
            }),
    {
        proof {
            crate::headers::lemma_crlf2_pos_bounds(buf@, 0);
        }
        let p = crate::headers::find_crlf2(buf.as_slice());
        if p == buf.len() {
            return Ok(Option::None);
        }
        let head = crate::body::split_to(buf, p + 4);
        match parse_resp_head(head.as_slice()) {
            Ok((status, version, headers)) => Ok(
                Option::Some(RespHead { status, version, headers }),
            ),
            Err(e) => Err(e),
        }
    }

    /// Serialises the head into `buf` and splits the serialised bytes back
    /// out of it, always writing an HTTP/1.1 status line.
    pub fn write_to_buf(&self, buf: &mut Vec<u8>) -> (r: Vec<u8>)
        requires
            self.version == Version::Http11,
            wf_status(self.status),
        ensures
            ({
                let ser = spec_serialize_resp(self.status as int, self.headers@);
                &&& r@ == (old(buf)@ + ser).take(ser.len() as int)
                &&& final(buf)@ == (old(buf)@ + ser).skip(ser.len() as int)
            }),
    {
        let ghost ser = spec_serialize_resp(self.status as int, self.headers@);
        let start = buf.len();
        let v: [u8; 8] = [72, 84, 84, 80, 47, 49, 46, 49];
        crate::headers::append_bytes(buf, v.as_slice());
        buf.push(32);
        buf.push(48 + (self.status / 100) as u8);
        buf.push(48 + ((self.status / 10) % 10) as u8);
        buf.push(48 + (self.status % 10) as u8);
        match crate::status::reason_phrase(self.status) {
            Option::Some(p) => {
                buf.push(32);
                crate::headers::append_bytes(buf, p.as_slice());
            },
            Option::None => {},
        }
        buf.push(13);
        buf.push(10);
        crate::headers::serialize_headers_into(buf, &self.headers);
        buf.push(13);
        buf.push(10);
        proof {
            assert(buf@ =~= old(buf)@ + ser);
        }
        let n = buf.len() - start;
        crate::body::split_to(buf, n)
    }

    /// Whether this response leaves the connection reusable.
    pub fn can_keep_alive(&self) -> (r: bool)
        ensures
            r == crate::util::spec_can_keep_alive(self.version, self.headers@),
    {
        crate::util::can_keep_alive(self.version, &self.headers)
    }

    /// The framing of this response's body, given the method of the request
    /// it answers: body-less statuses and methods first, then chunked, then
    /// the declared length, then read-until-close.
    pub fn framing_method(&self, method: &Vec<u8>) -> (r: crate::body::FramingMethod)
        ensures
            r == spec_resp_framing(self.status as int, method@, self.headers@),
    {
        let head_m: [u8; 4] = [72, 69, 65, 68];
        let connect_m: [u8; 7] = [67, 79, 78, 78, 69, 67, 84];
        if self.status == 204 || self.status == 304 || crate::headers::bytes_eq(
            method.as_slice(),
            head_m.as_slice(),
        ) || (crate::headers::bytes_eq(method.as_slice(), connect_m.as_slice()) && 200
            <= self.status && self.status <= 299) {
            proof {
                assert(head_m@ =~= method_head());
                assert(connect_m@ =~= method_connect());
            }
            crate::body::FramingMethod::ContentLength(0)
        } else {
            proof {
                assert(head_m@ =~= method_head());
                assert(connect_m@ =~= method_connect());
            }
            if crate::util::is_chunked(&self.headers) {
                crate::body::FramingMethod::Chunked
            } else {
                match crate::util::maybe_content_length(&self.headers) {
                    Option::Some(n) => crate::body::FramingMethod::ContentLength(n),
                    Option::None => crate::body::FramingMethod::Http10,
                }
            }
        }
    }
}

/// The bytes of the `HEAD` method.
pub open spec fn method_head() -> Seq<u8> {
    seq![72u8, 69u8, 65u8, 68u8]
}

/// The bytes of the `CONNECT` method.
pub open spec fn method_connect() -> Seq<u8> {
    seq![67u8, 79u8, 78u8, 78u8, 69u8, 67u8, 84u8]
}

/// The framing of a response body, decided by the status, the paired
/// request's method, and the headers.
pub open spec fn spec_resp_framing(
    code: int,
    method: Seq<u8>,
    hs: Seq<(Seq<u8>, Seq<u8>)>,
) -> crate::body::FramingMethod {
    if code == 204 || code == 304 || method == method_head() || (method == method_connect() && 200
        <= code <= 299) {
        crate::body::FramingMethod::ContentLength(0)
    } else if crate::util::spec_is_chunked(hs) {
        crate::body::FramingMethod::Chunked
    } else {
        match crate::util::spec_maybe_content_length(hs) {
            Option::Some(n) => crate::body::FramingMethod::ContentLength(n),
            Option::None => crate::body::FramingMethod::Http10,
        }
    }
}

/// The three digits of a code in `100..=999` are digits, and they read back
/// as the code.
proof fn lemma_status_digits(code: int)
    requires
        100 <= code <= 999,
    ensures
        ({
            let d = spec_status_digits(code);
            &&& d.len() == 3
            &&& 49 <= d[0] <= 57
            &&& 48 <= d[1] <= 57
            &&& 48 <= d[2] <= 57
            &&& (d[0] - 48) * 100 + (d[1] - 48) * 10 + (d[2] - 48) == code
        }),
{
    assert(1 <= code / 100 <= 9 && 0 <= (code / 10) % 10 <= 9 && 0 <= code % 10 <= 9 && (code
        / 100) * 100 + ((code / 10) % 10) * 10 + code % 10 == code) by (nonlinear_arith)
        requires
            100 <= code <= 999,
    {
    }
}

/// Serialising a well-formed response head and parsing the bytes back gives
/// the head again, with the version normalised to the serialised form
/// (HTTP/1.1); the reason phrase is written and discarded.
#[verifier::spinoff_prover]
#[verifier::rlimit(100)]
pub proof fn lemma_resp_round_trip(code: u16, hs: Seq<(Seq<u8>, Seq<u8>)>)
    requires
        wf_status(code),
        wf_headers(hs),
    ensures
        spec_parse_resp_head(spec_serialize_resp(code as int, hs)) == RespParse::Head(
            code,
            Version::Http11,
            hs,
        ),
        crate::headers::crlf2_pos(spec_serialize_resp(code as int, hs), 0) == spec_serialize_resp(
            code as int,
            hs,
        ).len() - 4,
{
    let s = spec_serialize_resp(code as int, hs);
    let d = spec_status_digits(code as int);
    lemma_status_digits(code as int);
    crate::status::lemma_reason_clean(code as int);
    let reason = match crate::status::spec_reason(code as int) {
        Option::Some(p) => seq![32u8] + p,
        Option::None => Seq::<u8>::empty(),
    };
    let sh = crate::headers::spec_serialize_headers(hs);
    let head = crate::req::http11_bytes() + seq![32u8] + d + reason + seq![13u8, 10u8];
    let hb = head.len() as int;
    assert(s =~= head + (sh + seq![13u8, 10u8]));
    assert(s.len() == hb + sh.len() + 2);
    assert forall|j: int| 0 <= j < 8 implies s[j] == crate::req::http11_bytes()[j] by {
        assert(head[j] == crate::req::http11_bytes()[j]);
    }
    assert(s[8] == 32) by {
        assert(head[8] == 32);
    }
    assert(s[9] == d[0] && s[10] == d[1] && s[11] == d[2]) by {
        assert(head[9] == d[0]);
        assert(head[10] == d[1]);
        assert(head[11] == d[2]);
    }
    assert((s[9] - 48) * 100 + (s[10] - 48) * 10 + (s[11] - 48) == code);
    match crate::status::spec_reason(code as int) {
        Option::Some(p) => {
            let pl = p.len() as int;
            assert(hb == 15 + pl);
            assert(s[12] == 32) by {
                assert(head[12] == 32);
            }
            assert forall|j: int| 13 <= j < 13 + pl implies s[j] == p[j - 13] by {
                assert(head[j] == reason[j - 12]);
                assert(reason[j - 12] == p[j - 13]);
            }
            assert(s[13 + pl] == 13 && s[14 + pl] == 10) by {
                assert(head[13 + pl] == 13);
                assert(head[14 + pl] == 10);
            }
            assert forall|j: int| 13 <= j < 13 + pl implies s[j] != 13 && s[j] != 10 by {
                assert(s[j] == p[j - 13]);
            }
            crate::headers::lemma_line_end_is(s, 13, 13 + pl);
            assert forall|j: int| 0 <= j < s.len() - hb implies s.skip(hb)[j] == (sh + seq![
                13u8,
                10u8,
            ])[j] by {
                assert(s.skip(hb)[j] == s[hb + j]);
            }
            assert(s.skip(hb) =~= sh + seq![13u8, 10u8]);
            crate::headers::lemma_header_block_round_trip(s, hb, hs);
            crate::headers::lemma_block_no_early_sentinel(s, hb, hs);
        },
        Option::None => {
            assert(hb == 14);
            assert(s[12] == 13 && s[13] == 10) by {
                assert(head[12] == 13);
                assert(head[13] == 10);
            }
            assert forall|j: int| 0 <= j < s.len() - hb implies s.skip(hb)[j] == (sh + seq![
                13u8,
                10u8,
            ])[j] by {
                assert(s.skip(hb)[j] == s[hb + j]);
            }
            assert(s.skip(hb) =~= sh + seq![13u8, 10u8]);
            crate::headers::lemma_header_block_round_trip(s, hb, hs);
            crate::headers::lemma_block_no_early_sentinel(s, hb, hs);
        },
    }
    // the head's only sentinel is its own terminator
    let last = s.len() as int;
    if hs.len() == 0 {
        assert(sh.len() == 0);
        assert(last == hb + 2);
        assert(s[hb] == 13 && s[hb + 1] == 10) by {
            assert(s.skip(hb)[0] == s[hb]);
            assert(s.skip(hb)[1] == s[hb + 1]);
        }
    } else {
        crate::headers::lemma_serialize_headers_ends_crlf(hs);
        assert(s[last - 4] == 13 && s[last - 3] == 10) by {
            assert(s.skip(hb)[(sh.len() as int) - 2] == s[hb + (sh.len() as int) - 2]);
            assert(s.skip(hb)[(sh.len() as int) - 1] == s[hb + (sh.len() as int) - 1]);
        }
        assert(s[last - 2] == 13 && s[last - 1] == 10) by {
            assert(s.skip(hb)[sh.len() as int] == s[hb + (sh.len() as int)]);
            assert(s.skip(hb)[(sh.len() as int) + 1] == s[hb + (sh.len() as int) + 1]);
        }
    }
    assert(crate::headers::crlf2_at(s, last - 4));
    assert forall|j: int| 0 <= j < last - 4 implies !crate::headers::crlf2_at(s, j) by {
        if j < hb - 2 {
            assert(s[j] != 13) by {
                if j < 8 {
                    assert(s[j] == crate::req::http11_bytes()[j]);
                } else if j == 8 {
                } else if j <= 11 {
                } else {
                    match crate::status::spec_reason(code as int) {
                        Option::Some(p) => {
                            if j > 12 {
                                assert(s[j] == p[j - 13]);
                            }
                        },
                        Option::None => {},
                    }
                }
            }
        } else if j == hb - 2 {
            assert(hs.len() > 0);
            assert(s[hb] == sh[0]) by {
                assert(s.skip(hb)[0] == s[hb]);
            }
            assert(sh[0] == crate::headers::hdr_line_bytes(hs[0])[0]);
            assert(crate::headers::hdr_line_bytes(hs[0])[0] == hs[0].0[0]);
            assert(crate::headers::wf_header_pair(hs[0]));
            assert(crate::headers::is_token_byte(s[hb]));
            assert(s[j + 2] != 13);
        } else if j == hb - 1 {
            assert(s[j] == 10);
        }
    }
    crate::headers::lemma_crlf2_pos_is(s, 0, last - 4);
}

/// Parses the bytes of one complete response head.
fn parse_resp_head(s: &[u8]) -> (r: Result<(u16, Version, Headers), RespHeadError>)
    ensures
        match spec_parse_resp_head(s@) {
            RespParse::Head(c, v, hs) => r matches Ok((rc, rv, rh)) && rc == c && rv == v && rh@
                == hs,
            RespParse::BadStatus => r == Err::<(u16, Version, Headers), RespHeadError>(
                RespHeadError::InvalidStatusCode,
            ),
            RespParse::Bad => r == Err::<(u16, Version, Headers), RespHeadError>(
                RespHeadError::HttpParse,
            ),
        },
{
    let len = s.len();
    if len < 12 {
        return Err(RespHeadError::HttpParse);
    }
    let ok = s[0] == 72 && s[1] == 84 && s[2] == 84 && s[3] == 80 && s[4] == 47 && s[5] == 49
        && s[6] == 46 && (s[7] == 48 || s[7] == 49) && s[8] == 32;
    if !ok {
        return Err(RespHeadError::HttpParse);
    }
    if !(48 <= s[9] && s[9] <= 57 && 48 <= s[10] && s[10] <= 57 && 48 <= s[11] && s[11] <= 57) {
        return Err(RespHeadError::HttpParse);
    }
    let version = if s[7] == 49 {
        Version::Http11
    } else {
        Version::Http10
    };
    let code: u16 = ((s[9] - 48) as u16) * 100 + ((s[10] - 48) as u16) * 10 + ((s[11] - 48) as u16);
    if code < 100 {
        return Err(RespHeadError::InvalidStatusCode);
    }
    if len < 14 {
        return Err(RespHeadError::HttpParse);
    }
    let hstart: usize;
    if s[12] == 13 {
        if s[13] != 10 {
            return Err(RespHeadError::HttpParse);
        }
        hstart = 14;
    } else if s[12] == 32 {
        let mut re: usize = 13;
        while re < len && s[re] != 13 && s[re] != 10
            invariant
                13 <= re <= len,
                len == s@.len(),
                crate::headers::line_end(s@, 13) == crate::headers::line_end(s@, re as int),
            decreases len - re,
        {
            re += 1;
        }
        proof {
            assert(crate::headers::line_end(s@, re as int) == re);
        }
        if re > len - 2 {
            return Err(RespHeadError::HttpParse);
        }
        if s[re] != 13 || s[re + 1] != 10 {
            return Err(RespHeadError::HttpParse);
        }
        hstart = re + 2;
    } else {
        return Err(RespHeadError::HttpParse);
    }
    match crate::headers::parse_header_block(s, hstart) {
        Ok(Option::Some((headers, end))) => {
            if end != len {
                return Err(RespHeadError::HttpParse);
            }
            Ok((code, version, headers))
        },
        Ok(Option::None) => Err(RespHeadError::HttpParse),
        Err(_) => Err(RespHeadError::HttpParse),
    }
}

impl Clone for RespHead {
    fn clone(&self) -> (r: Self)
        ensures
            r.status == self.status,
            r.version == self.version,
            r.headers@ == self.headers@,
    {
        RespHead { status: self.status, version: self.version, headers: self.headers.clone() }
    }
}

impl PartialEq for RespHead {
    /// Two heads are equal when every field is.
    fn eq(&self, other: &Self) -> (r: bool) {
        self.status == other.status && self.version == other.version && self.headers
            == other.headers
    }
}

impl vstd::std_specs::cmp::PartialEqSpecImpl for RespHead {
    open spec fn obeys_eq_spec() -> bool {
        true
    }

    open spec fn eq_spec(&self, other: &Self) -> bool {
        &&& self.status == other.status
        &&& self.version == other.version
        &&& self.headers@ == other.headers@
    }
}

} // verus!
