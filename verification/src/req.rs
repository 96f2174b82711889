use vstd::prelude::*;

use crate::headers::{wf_headers, Headers};
use crate::util::Version;

verus! {

/// The head of a request: method token, request-target, version, and the
/// header map. Immutable once constructed.
#[derive(Debug)]
pub struct ReqHead {
    pub method: Vec<u8>,
    pub uri: Vec<u8>,
    pub version: Version,
    pub headers: Headers,
}

/// The mathematical shape of a request head.
pub struct ReqHeadV {
    pub method: Seq<u8>,
    pub uri: Seq<u8>,
    pub version: Version,
    pub headers: Seq<(Seq<u8>, Seq<u8>)>,
}

impl View for ReqHead {
    type V = ReqHeadV;

    open spec fn view(&self) -> ReqHeadV {
        ReqHeadV {
            method: self.method@,
            uri: self.uri@,
            version: self.version,
            headers: self.headers@,
        }
    }
}

/// A well-formed method: a non-empty token.
pub open spec fn wf_method(m: Seq<u8>) -> bool {
    m.len() > 0 && forall|i: int|
        0 <= i < m.len() ==> crate::headers::is_token_byte(#[trigger] m[i])
}

/// A syntactically acceptable request-target: non-empty, printable ASCII
/// without spaces.
pub open spec fn wf_target(u: Seq<u8>) -> bool {
    u.len() > 0 && forall|i: int| 0 <= i < u.len() ==> 33 <= #[trigger] u[i] <= 126
}

/// The first index at or after `from` whose byte cannot stand in a
/// request-target.
pub open spec fn target_end(s: Seq<u8>, from: int) -> int
    decreases s.len() - from,
    when 0 <= from <= s.len()
{
    if from < s.len() && 33 <= s[from] && s[from] <= 126 {
        target_end(s, from + 1)
    } else {
        from
    }
}

pub proof fn lemma_target_end_is(s: Seq<u8>, from: int, i: int)
    requires
        0 <= from <= i <= s.len(),
        forall|j: int| from <= j < i ==> 33 <= #[trigger] s[j] <= 126,
        i < s.len() ==> !(33 <= s[i] <= 126),
    ensures
        target_end(s, from) == i,
    decreases i - from,
{
    if from < i {
        lemma_target_end_is(s, from + 1, i);
    }
}

/// The bytes `HTTP/1.1`.
pub open spec fn http11_bytes() -> Seq<u8> {
    seq![72u8, 84u8, 84u8, 80u8, 47u8, 49u8, 46u8, 49u8]
}

/// A serialised request head: the request line, always at version 1.1, then
/// the fields, then the closing CRLF.
pub open spec fn spec_serialize_req(m: Seq<u8>, u: Seq<u8>, hs: Seq<(Seq<u8>, Seq<u8>)>) -> Seq<
    u8,
> {
    m + seq![32u8] + u + seq![32u8] + http11_bytes() + seq![13u8, 10u8]
        + crate::headers::spec_serialize_headers(hs) + seq![13u8, 10u8]
}

/// The outcome of parsing a complete request head.
pub enum ReqParse {
    /// The bytes do not form a request head.
    Bad,
    /// Method, request-target, version, and the fields.
    Head(Seq<u8>, Seq<u8>, Version, Seq<(Seq<u8>, Seq<u8>)>),
}

/// Parses the bytes of one complete head (through its final CRLF CRLF):
/// `METHOD SP TARGET SP HTTP/1.x CRLF` and the header block, which must
/// close exactly at the end.
pub open spec fn spec_parse_req_head(s: Seq<u8>) -> ReqParse {
    let mend = crate::headers::token_end(s, 0);
    if mend == 0 || mend >= s.len() {
        ReqParse::Bad
    } else if s[mend] != 32 {
        ReqParse::Bad
    } else {
        let ustart = mend + 1;
        let uend = target_end(s, ustart);
        if uend == ustart || uend >= s.len() {
            ReqParse::Bad
        } else if s[uend] != 32 {
            ReqParse::Bad
        } else if uend + 11 > s.len() {
            ReqParse::Bad
        } else if s[uend + 1] == 72 && s[uend + 2] == 84 && s[uend + 3] == 84 && s[uend + 4] == 80
            && s[uend + 5] == 47 && s[uend + 6] == 49 && s[uend + 7] == 46 && (s[uend + 8] == 48
            || s[uend + 8] == 49) && s[uend + 9] == 13 && s[uend + 10] == 10 {
            let version = if s[uend + 8] == 49 {
                Version::Http11
            } else {
                Version::Http10
            };
            match crate::headers::spec_parse_header_block(s, uend + 11) {
                crate::headers::HdrBlockRes::Block(hs, end) => {
                    if end == s.len() {
                        ReqParse::Head(s.subrange(0, mend), s.subrange(ustart, uend), version, hs)
                    } else {
                        ReqParse::Bad
                    }
                },
                _ => ReqParse::Bad,
            }
        } else {
            ReqParse::Bad
        }
    }
}

impl ReqHead {
    /// Well-formedness: the fields hold what a parsed head holds.
    pub open spec fn wf(&self) -> bool {
        &&& wf_method(self.method@)
        &&& wf_target(self.uri@)
        &&& wf_headers(self.headers@)
    }

    /// Extracts one request head from the front of `buf`, if its sentinel
    /// has arrived. The head's bytes are consumed even when they turn out
    /// malformed; without a sentinel nothing is touched.
    pub fn from_buf(buf: &mut Vec<u8>) -> (r: Result<Option<ReqHead>, crate::error::HttpError>)
        ensures
            ({
                let p = crate::headers::crlf2_pos(old(buf)@, 0);
                if p == old(buf)@.len() {
                    r == Ok::<Option<ReqHead>, crate::error::HttpError>(Option::None) && final(buf)@
                        == old(buf)@
                } else {
                    &&& final(buf)@ == old(buf)@.skip(p + 4)
                    &&& match spec_parse_req_head(old(buf)@.take(p + 4)) {
                        ReqParse::Head(m, u, v, hs) => r matches Ok(Some(h)) && h.method@ == m
                            && h.uri@ == u && h.version == v && h.headers@ == hs,
                        ReqParse::Bad => r == Err::<Option<ReqHead>, crate::error::HttpError>(
                            crate::error::HttpError::MalformedHead,
                        ),
                    }
                }
            }),
    {
        proof {
            crate::headers::lemma_crlf2_pos_bounds(buf@, 0);
        }
        let p = crate::headers::find_crlf2(buf.as_slice());
        if p == buf.len() {
            return Ok(Option::None);
        }
        let head = crate::body::split_to(buf, p + 4);
        match parse_req_head(head.as_slice()) {
            Ok((method, uri, version, headers)) => Ok(
                Option::Some(ReqHead { method, uri, version, headers }),
            ),
            Err(e) => Err(e),
        }
    }

    /// Serialises the head into `buf` and splits the serialised bytes back
    /// out of it, always writing an HTTP/1.1 request line.
    pub fn write_to_buf(&self, buf: &mut Vec<u8>) -> (r: Vec<u8>)
        requires
            self.version == Version::Http11,
        ensures
            ({
                let ser = spec_serialize_req(self.method@, self.uri@, self.headers@);
                &&& r@ == (old(buf)@ + ser).take(ser.len() as int)
                &&& final(buf)@ == (old(buf)@ + ser).skip(ser.len() as int)
            }),
    {
        let ghost ser = spec_serialize_req(self.method@, self.uri@, self.headers@);
        let start = buf.len();
        crate::headers::append_bytes(buf, self.method.as_slice());
        buf.push(32);
        crate::headers::append_bytes(buf, self.uri.as_slice());
        buf.push(32);
        let v: [u8; 8] = [72, 84, 84, 80, 47, 49, 46, 49];
        crate::headers::append_bytes(buf, v.as_slice());
        buf.push(13);
        buf.push(10);
        crate::headers::serialize_headers_into(buf, &self.headers);
        buf.push(13);
        buf.push(10);
        proof {
            assert(buf@ =~= old(buf)@ + ser);
        }
        let n = buf.len() - start;
        crate::body::split_to(buf, n)
    }

    /// Whether this request leaves the connection reusable.
    pub fn can_keep_alive(&self) -> (r: bool)
        ensures
            r == crate::util::spec_can_keep_alive(self.version, self.headers@),
    {
        crate::util::can_keep_alive(self.version, &self.headers)
    }

    /// The framing of this request's body: chunked wins, then the declared
    /// length, then zero.
    pub fn framing_method(&self) -> (r: crate::body::FramingMethod)
        ensures
            r == spec_req_framing(self.headers@),
    {
        if crate::util::is_chunked(&self.headers) {
            crate::body::FramingMethod::Chunked
        } else {
            match crate::util::maybe_content_length(&self.headers) {
                Option::Some(n) => crate::body::FramingMethod::ContentLength(n),
                Option::None => crate::body::FramingMethod::ContentLength(0),
            }
        }
    }
}

/// The framing of a request body, decided by its headers alone.
pub open spec fn spec_req_framing(hs: Seq<(Seq<u8>, Seq<u8>)>) -> crate::body::FramingMethod {
    if crate::util::spec_is_chunked(hs) {
        crate::body::FramingMethod::Chunked
    } else {
        match crate::util::spec_maybe_content_length(hs) {
            Option::Some(n) => crate::body::FramingMethod::ContentLength(n),
            Option::None => crate::body::FramingMethod::ContentLength(0),
        }
    }
}

/// Serialising a well-formed request head and parsing the bytes back gives
/// the head again, with the version normalised to the serialised form
/// (HTTP/1.1).
#[verifier::spinoff_prover]
#[verifier::rlimit(100)]
pub proof fn lemma_req_round_trip(m: Seq<u8>, u: Seq<u8>, hs: Seq<(Seq<u8>, Seq<u8>)>)
    requires
        wf_method(m),
        wf_target(u),
        wf_headers(hs),
    ensures
        spec_parse_req_head(spec_serialize_req(m, u, hs)) == ReqParse::Head(
            m,
            u,
            Version::Http11,
            hs,
        ),
        crate::headers::crlf2_pos(spec_serialize_req(m, u, hs), 0) == spec_serialize_req(
            m,
            u,
            hs,
        ).len() - 4,
{
    let s = spec_serialize_req(m, u, hs);
    let ml = m.len() as int;
    let ul = u.len() as int;
    let ustart = ml + 1;
    let uend = ustart + ul;
    let hb = uend + 11;
    let sh = crate::headers::spec_serialize_headers(hs);
    let head = m + seq![32u8] + u + seq![32u8] + http11_bytes() + seq![13u8, 10u8];
    assert(s =~= head + (sh + seq![13u8, 10u8]));
    assert(head.len() == hb);
    assert(s.len() == hb + sh.len() + 2);
    assert forall|j: int| 0 <= j < ml implies s[j] == m[j] by {
        assert(head[j] == m[j]);
    }
    assert(s[ml] == 32) by {
        assert(head[ml] == 32);
    }
    assert forall|j: int| ustart <= j < uend implies s[j] == u[j - ustart] by {
        assert(head[j] == u[j - ustart]);
    }
    assert(s[uend] == 32) by {
        assert(head[uend] == 32);
    }
    assert forall|j: int| 0 <= j < 8 implies s[uend + 1 + j] == http11_bytes()[j] by {
        assert(head[uend + 1 + j] == http11_bytes()[j]);
    }
    assert(s[uend + 9] == 13 && s[uend + 10] == 10) by {
        assert(head[uend + 9] == 13);
        assert(head[uend + 10] == 10);
    }
    // the method token ends at the first space
    assert forall|j: int| 0 <= j < ml implies crate::headers::is_token_byte(s[j]) by {
        assert(s[j] == m[j]);
    }
    assert(!crate::headers::is_token_byte(32));
    crate::headers::lemma_token_end_is(s, 0, ml);
    // the target ends at the second space
    assert forall|j: int| ustart <= j < uend implies 33 <= #[trigger] s[j] <= 126 by {
        assert(s[j] == u[j - ustart]);
    }
    lemma_target_end_is(s, ustart, uend);
    // the version literal
    assert(s[uend + 1] == 72 && s[uend + 2] == 84 && s[uend + 3] == 84 && s[uend + 4] == 80 && s[
        uend + 5
    ] == 47 && s[uend + 6] == 49 && s[uend + 7] == 46 && s[uend + 8] == 49);
    // the header block closes exactly at the end
    assert forall|j: int| 0 <= j < s.len() - hb implies s.skip(hb)[j] == (sh + seq![13u8, 10u8])[j] by {
        assert(s.skip(hb)[j] == s[hb + j]);
    }
    assert(s.skip(hb) =~= sh + seq![13u8, 10u8]);
    crate::headers::lemma_header_block_round_trip(s, hb, hs);
    crate::headers::lemma_block_no_early_sentinel(s, hb, hs);
    // the recovered pieces are the originals
    assert forall|j: int| 0 <= j < ml implies s.subrange(0, ml)[j] == m[j] by {
        assert(s.subrange(0, ml)[j] == s[j]);
    }
    assert(s.subrange(0, ml) =~= m);
    assert forall|j: int| 0 <= j < ul implies s.subrange(ustart, uend)[j] == u[j] by {
        assert(s.subrange(ustart, uend)[j] == s[ustart + j]);
    }
    assert(s.subrange(ustart, uend) =~= u);
    // the head's only sentinel is its own terminator
    let last = s.len() as int;
    if hs.len() == 0 {
        assert(sh.len() == 0);
        assert(last == hb + 2);
        assert(s[hb] == 13 && s[hb + 1] == 10) by {
            assert(s.skip(hb)[0] == s[hb]);
            assert(s.skip(hb)[1] == s[hb + 1]);
        }
    } else {
        crate::headers::lemma_serialize_headers_ends_crlf(hs);
        assert(s[last - 4] == 13 && s[last - 3] == 10) by {
            assert(s.skip(hb)[(sh.len() as int) - 2] == s[hb + (sh.len() as int) - 2]);
            assert(s.skip(hb)[(sh.len() as int) - 1] == s[hb + (sh.len() as int) - 1]);
        }
        assert(s[last - 2] == 13 && s[last - 1] == 10) by {
            assert(s.skip(hb)[sh.len() as int] == s[hb + (sh.len() as int)]);
            assert(s.skip(hb)[(sh.len() as int) + 1] == s[hb + (sh.len() as int) + 1]);
        }
    }
    assert(crate::headers::crlf2_at(s, last - 4));
    assert forall|j: int| 0 <= j < last - 4 implies !crate::headers::crlf2_at(s, j) by {
        if j < hb - 2 {
            assert(s[j] != 13) by {
                if j < ml {
                    assert(s[j] == m[j]);
                    assert(crate::headers::is_token_byte(s[j]));
                } else if ustart <= j && j < uend {
                    assert(33 <= s[j] <= 126);
                } else if uend + 1 <= j {
                    assert(s[j] == http11_bytes()[j - (uend + 1)]);
                }
            }
        } else if j == hb - 2 {
            assert(hs.len() > 0);
            assert(s[hb] == sh[0]) by {
                assert(s.skip(hb)[0] == s[hb]);
            }
            assert(sh[0] == crate::headers::hdr_line_bytes(hs[0])[0]);
            assert(crate::headers::hdr_line_bytes(hs[0])[0] == hs[0].0[0]);
            assert(crate::headers::wf_header_pair(hs[0]));
            assert(crate::headers::is_token_byte(s[hb]));
            assert(s[j + 2] != 13);
        } else if j == hb - 1 {
            assert(s[j] == 10);
        }
    }
    crate::headers::lemma_crlf2_pos_is(s, 0, last - 4);
}

/// Parses the bytes of one complete head.
fn parse_req_head(s: &[u8]) -> (r: Result<
    (Vec<u8>, Vec<u8>, Version, Headers),
    crate::error::HttpError,
>)
    ensures
        match spec_parse_req_head(s@) {
            ReqParse::Head(m, u, v, hs) => r matches Ok((rm, ru, rv, rh)) && rm@ == m && ru@ == u
                && rv == v && rh@ == hs,
            ReqParse::Bad => r == Err::<(Vec<u8>, Vec<u8>, Version, Headers), crate::error::HttpError>(
                crate::error::HttpError::MalformedHead,
            ),
        },
{
    let len = s.len();
    let mut mend: usize = 0;
    while mend < len && crate::headers::is_token_byte_ex(s[mend])
        invariant
            0 <= mend <= len,
            len == s@.len(),
            crate::headers::token_end(s@, 0) == crate::headers::token_end(s@, mend as int),
        decreases len - mend,
    {
        mend += 1;
    }
    proof {
        assert(crate::headers::token_end(s@, mend as int) == mend);
    }
    if mend == 0 || mend == len {
        return Err(crate::error::HttpError::MalformedHead);
    }
    if s[mend] != 32 {
        return Err(crate::error::HttpError::MalformedHead);
    }
    let ustart = mend + 1;
    let mut uend = ustart;
    while uend < len && 33 <= s[uend] && s[uend] <= 126
        invariant
            ustart <= uend <= len,
            len == s@.len(),
            target_end(s@, ustart as int) == target_end(s@, uend as int),
        decreases len - uend,
    {
        uend += 1;
    }
    proof {
        assert(target_end(s@, uend as int) == uend);
    }
    if uend == ustart || uend == len {
        return Err(crate::error::HttpError::MalformedHead);
    }
    if s[uend] != 32 {
        return Err(crate::error::HttpError::MalformedHead);
    }
    if len - uend < 11 {
        return Err(crate::error::HttpError::MalformedHead);
    }
    let ok = s[uend + 1] == 72 && s[uend + 2] == 84 && s[uend + 3] == 84 && s[uend + 4] == 80
        && s[uend + 5] == 47 && s[uend + 6] == 49 && s[uend + 7] == 46 && (s[uend + 8] == 48
        || s[uend + 8] == 49) && s[uend + 9] == 13 && s[uend + 10] == 10;
    if !ok {
        return Err(crate::error::HttpError::MalformedHead);
    }
    let version = if s[uend + 8] == 49 {
        Version::Http11
    } else {
        Version::Http10
    };
    match crate::headers::parse_header_block(s, uend + 11) {
        Ok(Option::Some((headers, end))) => {
            if end != len {
                return Err(crate::error::HttpError::MalformedHead);
            }
            let method = vstd::slice::slice_to_vec(vstd::slice::slice_subrange(s, 0, mend));
            let uri = vstd::slice::slice_to_vec(vstd::slice::slice_subrange(s, ustart, uend));
            Ok((method, uri, version, headers))
        },
        Ok(Option::None) => Err(crate::error::HttpError::MalformedHead),
        Err(e) => Err(e),
    }
}

impl Clone for ReqHead {
    fn clone(&self) -> (r: Self)
        ensures
            r.method@ == self.method@,
            r.uri@ == self.uri@,
            r.version == self.version,
            r.headers@ == self.headers@,
    {
        ReqHead {
            method: crate::headers::clone_bytes(&self.method),
            uri: crate::headers::clone_bytes(&self.uri),
            version: self.version,
            headers: self.headers.clone(),
        }
    }
}

impl PartialEq for ReqHead {
    /// Two heads are equal when every field is.
    fn eq(&self, other: &Self) -> (r: bool) {
        crate::headers::bytes_eq(self.method.as_slice(), other.method.as_slice())
            && crate::headers::bytes_eq(self.uri.as_slice(), other.uri.as_slice())
            && self.version == other.version && self.headers == other.headers
    }
}

impl vstd::std_specs::cmp::PartialEqSpecImpl for ReqHead {
    open spec fn obeys_eq_spec() -> bool {
        true
    }

    open spec fn eq_spec(&self, other: &Self) -> bool {
        &&& self.method@ == other.method@
        &&& self.uri@ == other.uri@
        &&& self.version == other.version
        &&& self.headers@ == other.headers@
    }
}

} // verus!
