use vstd::prelude::*;

use crate::error::HttpError;
use crate::event::Event;

verus! {

/// How the end of a message body is determined.
#[derive(Clone, Copy, Debug, PartialEq, Eq, Structural)]
pub enum FramingMethod {
    ContentLength(usize),
    Chunked,
    Http10,
}

/// What one read step of a body reader produced, at the specification level.
pub enum BodyOut {
    /// More bytes are needed before anything can be emitted.
    More,
    /// A body fragment.
    Data(Seq<u8>),
    /// The end of the message, with trailers if a chunked body carried any.
    End(Option<Seq<(Seq<u8>, Seq<u8>)>>),
}

/// Removes and returns the first `n` bytes of `buf`.
pub fn split_to(buf: &mut Vec<u8>, n: usize) -> (r: Vec<u8>)
    requires
        n <= old(buf).len(),
    ensures
        r@ == old(buf)@.take(n as int),
        final(buf)@ == old(buf)@.skip(n as int),
{
    let mut tail = buf.split_off(n);
    core::mem::swap(buf, &mut tail);
    proof {
        assert(tail@ =~= old(buf)@.take(n as int));
        assert(final(buf)@ =~= old(buf)@.skip(n as int));
    }
    tail
}

// ---------------------------------------------------------------------------
// Content-Length framing.
// ---------------------------------------------------------------------------
/// A reader for a body of a fixed, declared length; the field counts the
/// bytes still owed.
#[derive(Clone, Copy, Debug, PartialEq, Eq, Structural)]
pub struct ContentLength(pub usize);

/// One read step of a `ContentLength` reader: the end once nothing remains,
/// otherwise as much of the buffer as the declared length still allows.
pub open spec fn spec_cl_next(rem: int, buf: Seq<u8>) -> (int, Seq<u8>, BodyOut) {
    if rem == 0 {
        (0, buf, BodyOut::End(Option::None))
    } else if buf.len() == 0 {
        (rem, buf, BodyOut::More)
    } else {
        let k = if rem < buf.len() {
            rem
        } else {
            buf.len() as int
        };
        (rem - k, buf.skip(k), BodyOut::Data(buf.take(k)))
    }
}

impl ContentLength {
    /// Drains up to the remaining length from the front of `buf`. Never
    /// fails: `Content-Length` framing has no parse errors.
    pub fn next_event(&mut self, buf: &mut Vec<u8>) -> (r: Result<Option<Event>, HttpError>)
        ensures
            ({
                let (rem2, buf2, out) = spec_cl_next(old(self).0 as int, old(buf)@);
                &&& final(self).0 == rem2
                &&& final(buf)@ == buf2
                &&& match out {
                    BodyOut::More => r == Ok::<Option<Event>, HttpError>(Option::None),
                    BodyOut::Data(d) => r matches Ok(Some(Event::Data(v))) && v@ == d,
                    BodyOut::End(t) => t is None && r == Ok::<Option<Event>, HttpError>(
                        Option::Some(Event::EndOfMessage(Option::None)),
                    ),
                }
            }),
    {
        if self.0 == 0 {
            return Ok(Option::Some(Event::EndOfMessage(Option::None)));
        }
        let k = if self.0 < buf.len() {
            self.0
        } else {
            buf.len()
        };
        if k == 0 {
            return Ok(Option::None);
        }
        let data = split_to(buf, k);
        self.0 = self.0 - k;
        Ok(Option::Some(Event::Data(data)))
    }
}

/// Splitting the input of a fixed-length body changes only the fragment
/// boundaries: fed whole, a reader owed `d.len()` bytes emits `d` and then
/// the end; fed in halves cut at `s`, it emits the two halves (skipping an
/// empty first half) and then the end, and the halves concatenate to `d`.
pub proof fn lemma_content_length_split(d: Seq<u8>, s: int)
    requires
        0 <= s <= d.len(),
    ensures
        d.take(s) + d.skip(s) == d,
        spec_cl_next(0, Seq::<u8>::empty()) == (
            0int,
            Seq::<u8>::empty(),
            BodyOut::End(Option::<Seq<(Seq<u8>, Seq<u8>)>>::None),
        ),
        d.len() > 0 ==> spec_cl_next(d.len() as int, d) == (
            0int,
            Seq::<u8>::empty(),
            BodyOut::Data(d),
        ),
        0 < s ==> spec_cl_next(d.len() as int, d.take(s)) == (
            d.len() - s,
            Seq::<u8>::empty(),
            BodyOut::Data(d.take(s)),
        ),
        s == 0 ==> spec_cl_next(d.len() as int, d.take(s)) == (
            d.len() as int,
            d.take(s),
            if d.len() == 0 {
                BodyOut::End(Option::<Seq<(Seq<u8>, Seq<u8>)>>::None)
            } else {
                BodyOut::More
            },
        ),
        s < d.len() ==> spec_cl_next(d.len() - s, d.skip(s)) == (
            0int,
            Seq::<u8>::empty(),
            BodyOut::Data(d.skip(s)),
        ),
        s == d.len() ==> spec_cl_next(d.len() - s, d.skip(s)) == (
            0int,
            d.skip(s),
            BodyOut::End(Option::<Seq<(Seq<u8>, Seq<u8>)>>::None),
        ),
{
    assert(d.take(s) + d.skip(s) =~= d);
    let n = d.len() as int;
    if n > 0 {
        assert(d.skip(n) =~= Seq::<u8>::empty());
        assert(d.take(n) =~= d);
    }
    if 0 < s {
        let h = d.take(s);
        assert(h.len() == s);
        assert(h.skip(s) =~= Seq::<u8>::empty());
        assert(h.take(s) =~= h);
    }
    if s < n {
        let t = d.skip(s);
        assert(t.len() == n - s);
        assert(t.skip(n - s) =~= Seq::<u8>::empty());
        assert(t.take(n - s) =~= t);
    }
    if s == n {
        assert(d.skip(s).len() == 0);
    }
}

// ---------------------------------------------------------------------------
// Read-until-close framing.
// ---------------------------------------------------------------------------
/// A reader for the HTTP/1.0 framing: everything until EOF is body.
pub struct Http10;

/// One read step of the `Http10` framing: the whole buffer, or nothing.
pub open spec fn spec_http10_next(buf: Seq<u8>) -> (Seq<u8>, BodyOut) {
    if buf.len() == 0 {
        (buf, BodyOut::More)
    } else {
        (Seq::empty(), BodyOut::Data(buf))
    }
}

impl Http10 {
    /// Emits the whole buffer as data; only EOF ends this framing.
    pub fn next_event(buf: &mut Vec<u8>) -> (r: Result<Option<Event>, HttpError>)
        ensures
            ({
                let (buf2, out) = spec_http10_next(old(buf)@);
                &&& final(buf)@ == buf2
                &&& match out {
                    BodyOut::More => r == Ok::<Option<Event>, HttpError>(Option::None),
                    BodyOut::Data(d) => r matches Ok(Some(Event::Data(v))) && v@ == d,
                    BodyOut::End(_) => false,
                }
            }),
    {
        if buf.len() == 0 {
            return Ok(Option::None);
        }
        let n = buf.len();
        let data = split_to(buf, n);
        proof {
            assert(data@ =~= old(buf)@);
            assert(final(buf)@ =~= Seq::<u8>::empty());
        }
        Ok(Option::Some(Event::Data(data)))
    }
}

// ---------------------------------------------------------------------------
// Chunked framing.
// ---------------------------------------------------------------------------
/// The sub-state of a chunked-body reader.
#[derive(Clone, Copy, Debug, PartialEq, Eq, Structural)]
pub enum Chunked {
    /// Awaiting a chunk-size line.
    Start,
    /// Inside a chunk, with the bytes still owed.
    Data(usize),
    /// Awaiting the CRLF that closes a drained chunk.
    End,
    /// Awaiting the trailer block after the last chunk.
    Trailers,
}

/// Whether `b` is a hexadecimal digit.
pub open spec fn is_hex_byte(b: u8) -> bool {
    (48 <= b && b <= 57) || (97 <= b && b <= 102) || (65 <= b && b <= 70)
}

/// The value of a hexadecimal digit.
pub open spec fn hex_val(b: u8) -> int {
    if 48 <= b && b <= 57 {
        b - 48
    } else if 97 <= b && b <= 102 {
        b - 87
    } else if 65 <= b && b <= 70 {
        b - 55
    } else {
        0
    }
}

/// The first index at or after `from` whose byte is not a hex digit.
pub open spec fn hex_end(s: Seq<u8>, from: int) -> int
    decreases s.len() - from,
    when 0 <= from <= s.len()
{
    if from < s.len() && is_hex_byte(s[from]) {
        hex_end(s, from + 1)
    } else {
        from
    }
}

pub proof fn lemma_hex_end_bounds(s: Seq<u8>, from: int)
    requires
        0 <= from <= s.len(),
    ensures
        from <= hex_end(s, from) <= s.len(),
        forall|j: int| from <= j < hex_end(s, from) ==> is_hex_byte(s[j]),
        hex_end(s, from) < s.len() ==> !is_hex_byte(s[hex_end(s, from)]),
    decreases s.len() - from,
{
    if from < s.len() && is_hex_byte(s[from]) {
        lemma_hex_end_bounds(s, from + 1);
    }
}

/// The value of the hex digits `s[from..to]`, most significant first.
pub open spec fn hex_value(s: Seq<u8>, from: int, to: int) -> int
    decreases to - from,
    when from <= to
{
    if to <= from {
        0
    } else {
        hex_value(s, from, to - 1) * 16 + hex_val(s[to - 1])
    }
}

proof fn lemma_hex_value_nonneg(s: Seq<u8>, from: int, to: int)
    requires
        from <= to,
    ensures
        hex_value(s, from, to) >= 0,
    decreases to - from,
{
    if to > from {
        lemma_hex_value_nonneg(s, from, to - 1);
    }
}

proof fn lemma_hex_value_mono(s: Seq<u8>, from: int, mid: int, to: int)
    requires
        from <= mid <= to,
    ensures
        hex_value(s, from, mid) <= hex_value(s, from, to),
    decreases to - mid,
{
    if mid < to {
        lemma_hex_value_nonneg(s, from, to - 1);
        lemma_hex_value_mono(s, from, mid, to - 1);
    }
}

/// Whether `b` is a hexadecimal digit.
pub fn is_hex_byte_ex(b: u8) -> (r: bool)
    ensures
        r == is_hex_byte(b),
{
    (48 <= b && b <= 57) || (97 <= b && b <= 102) || (65 <= b && b <= 70)
}

/// The outcome of scanning a chunk-size line.
pub enum ChunkLine {
    /// The line is not complete yet.
    Partial,
    /// The line is malformed, or the size does not fit the machine.
    Bad,
    /// The bytes consumed (through the CRLF) and the size read.
    Line(int, int),
}

/// A chunk-size line: one or more hex digits, optional whitespace, an
/// optional extension introduced by a semicolon, then CRLF.
pub open spec fn spec_parse_chunk_size(s: Seq<u8>) -> ChunkLine {
    let hend = hex_end(s, 0);
    if hend == 0 {
        if s.len() == 0 {
            ChunkLine::Partial
        } else {
            ChunkLine::Bad
        }
    } else if hex_value(s, 0, hend) > usize::MAX {
        ChunkLine::Bad
    } else {
        let v = hex_value(s, 0, hend);
        let k = crate::headers::ows_end(s, hend);
        if k >= s.len() {
            ChunkLine::Partial
        } else if s[k] == 59 {
            let p = crate::headers::line_end(s, k + 1);
            if p >= s.len() {
                ChunkLine::Partial
            } else if s[p] == 10 {
                ChunkLine::Bad
            } else if p + 1 >= s.len() {
                ChunkLine::Partial
            } else if s[p + 1] == 10 {
                ChunkLine::Line(p + 2, v)
            } else {
                ChunkLine::Bad
            }
        } else if s[k] == 13 {
            if k + 1 >= s.len() {
                ChunkLine::Partial
            } else if s[k + 1] == 10 {
                ChunkLine::Line(k + 2, v)
            } else {
                ChunkLine::Bad
            }
        } else {
            ChunkLine::Bad
        }
    }
}

/// A complete chunk-size line consumes at least its digit and CRLF and no
/// more than the input, and its size is non-negative.
pub proof fn lemma_chunk_size_bounds(s: Seq<u8>)
    ensures
        spec_parse_chunk_size(s) matches ChunkLine::Line(c, v) ==> 3 <= c <= s.len() && 0 <= v
            <= usize::MAX,
{
    lemma_hex_end_bounds(s, 0);
    let hend = hex_end(s, 0);
    if 0 < hend <= s.len() {
        lemma_hex_value_nonneg(s, 0, hend);
        crate::headers::lemma_ows_end_bounds(s, hend);
        let k = crate::headers::ows_end(s, hend);
        if k < s.len() {
            crate::headers::lemma_line_end_bounds(s, k + 1);
        }
    }
}

/// Scans a chunk-size line at the front of `s`.
pub fn parse_chunk_size(s: &[u8]) -> (r: Result<Option<(usize, usize)>, HttpError>)
    ensures
        match spec_parse_chunk_size(s@) {
            ChunkLine::Partial => r == Ok::<Option<(usize, usize)>, HttpError>(Option::None),
            ChunkLine::Bad => r == Err::<Option<(usize, usize)>, HttpError>(
                HttpError::InvalidChunkSize,
            ),
            ChunkLine::Line(c, v) => r == Ok::<Option<(usize, usize)>, HttpError>(
                Option::Some((c as usize, v as usize)),
            ),
        },
{
    let len = s.len();
    let mut hend: usize = 0;
    while hend < len && is_hex_byte_ex(s[hend])
        invariant
            0 <= hend <= len,
            len == s@.len(),
            hex_end(s@, 0) == hex_end(s@, hend as int),
        decreases len - hend,
    {
        hend += 1;
    }
    proof {
        assert(hex_end(s@, hend as int) == hend);
    }
    if hend == 0 {
        if len == 0 {
            return Ok(Option::None);
        }
        return Err(HttpError::InvalidChunkSize);
    }
    let mut v: usize = 0;
    let mut i: usize = 0;
    proof {
        lemma_hex_end_bounds(s@, 0);
    }
    while i < hend
        invariant
            0 <= i <= hend <= len,
            len == s@.len(),
            hend == hex_end(s@, 0),
            forall|j: int| 0 <= j < hend ==> is_hex_byte(s@[j]),
            v == hex_value(s@, 0, i as int),
            v <= usize::MAX,
        decreases hend - i,
    {
        let b = s[i];
        let d: usize = if 48 <= b && b <= 57 {
            (b - 48) as usize
        } else if 97 <= b && b <= 102 {
            (b - 87) as usize
        } else {
            (b - 55) as usize
        };
        proof {
            assert(d == hex_val(s@[i as int]));
            assert(hex_value(s@, 0, i + 1) == hex_value(s@, 0, i as int) * 16 + hex_val(
                s@[i as int],
            ));
        }
        if v > (usize::MAX - d) / 16 {
            proof {
                assert(v * 16 + d > usize::MAX) by (nonlinear_arith)
                    requires
                        v > (usize::MAX - d) / 16,
                        d <= 15,
                        v >= 0,
                {
                }
                lemma_hex_value_mono(s@, 0, i + 1, hend as int);
                assert(hex_value(s@, 0, hend as int) > usize::MAX);
            }
            return Err(HttpError::InvalidChunkSize);
        }
        proof {
            assert(v * 16 + d <= usize::MAX) by (nonlinear_arith)
                requires
                    v <= (usize::MAX - d) / 16,
                    d <= 15,
                    v >= 0,
            {
            }
        }
        v = v * 16 + d;
        i += 1;
    }
    let mut k = hend;
    while k < len && (s[k] == 32 || s[k] == 9)
        invariant
            hend <= k <= len,
            len == s@.len(),
            crate::headers::ows_end(s@, hend as int) == crate::headers::ows_end(s@, k as int),
        decreases len - k,
    {
        k += 1;
    }
    proof {
        assert(crate::headers::ows_end(s@, k as int) == k);
    }
    if k == len {
        return Ok(Option::None);
    }
    if s[k] == 59 {
        let mut p = k + 1;
        while p < len && s[p] != 13 && s[p] != 10
            invariant
                k + 1 <= p <= len,
                len == s@.len(),
                crate::headers::line_end(s@, k + 1) == crate::headers::line_end(s@, p as int),
            decreases len - p,
        {
            p += 1;
        }
        proof {
            assert(crate::headers::line_end(s@, p as int) == p);
        }
        if p == len {
            return Ok(Option::None);
        }
        if s[p] == 10 {
            return Err(HttpError::InvalidChunkSize);
        }
        if p + 1 == len {
            return Ok(Option::None);
        }
        if s[p + 1] == 10 {
            return Ok(Option::Some((p + 2, v)));
        }
        return Err(HttpError::InvalidChunkSize);
    }
    if s[k] == 13 {
        if k + 1 == len {
            return Ok(Option::None);
        }
        if s[k + 1] == 10 {
            return Ok(Option::Some((k + 2, v)));
        }
        return Err(HttpError::InvalidChunkSize);
    }
    Err(HttpError::InvalidChunkSize)
}

/// One read step of a chunked reader, exactly as `next_event` performs it:
/// size lines and chunk-closing CRLFs are consumed silently, and the step
/// ends at a fragment, the trailer block, an error, or for want of bytes.
pub open spec fn spec_chunked_next(st: Chunked, buf: Seq<u8>) -> (Chunked, Seq<u8>, Result<
    BodyOut,
    HttpError,
>)
    decreases buf.len(),
{
    match st {
        Chunked::Start => match spec_parse_chunk_size(buf) {
            ChunkLine::Partial => (st, buf, Ok(BodyOut::More)),
            ChunkLine::Bad => (st, buf, Err(HttpError::InvalidChunkSize)),
            ChunkLine::Line(c, v) => {
                proof {
                    lemma_chunk_size_bounds(buf);
                }
                if v == 0 {
                    spec_chunked_next(Chunked::Trailers, buf.skip(c))
                } else {
                    spec_chunked_next(Chunked::Data(v as usize), buf.skip(c))
                }
            },
        },
        Chunked::Data(rem) => {
            let k = if (rem as int) < buf.len() {
                rem as int
            } else {
                buf.len() as int
            };
            if k == 0 {
                (st, buf, Ok(BodyOut::More))
            } else if rem as int == k {
                (Chunked::End, buf.skip(k), Ok(BodyOut::Data(buf.take(k))))
            } else {
                (Chunked::Data((rem - k) as usize), buf.skip(k), Ok(BodyOut::Data(buf.take(k))))
            }
        },
        Chunked::End => {
            if buf.len() < 2 {
                (st, buf, Ok(BodyOut::More))
            } else if buf[0] == 13 && buf[1] == 10 {
                spec_chunked_next(Chunked::Start, buf.skip(2))
            } else {
                (st, buf, Err(HttpError::InvalidChunkSize))
            }
        },
        Chunked::Trailers => match crate::headers::spec_parse_header_block(buf, 0) {
            crate::headers::HdrBlockRes::Partial => (st, buf, Ok(BodyOut::More)),
            crate::headers::HdrBlockRes::Bad => (st, buf, Err(HttpError::MalformedHead)),
            crate::headers::HdrBlockRes::Block(hs, end) => (
                st,
                buf.skip(end),
                Ok(
                    BodyOut::End(
                        if hs.len() == 0 {
                            Option::None
                        } else {
                            Option::Some(hs)
                        },
                    ),
                ),
            ),
        },
    }
}

impl Chunked {
    /// Drives the chunked sub-state machine one emitted event forward.
    pub fn next_event(&mut self, buf: &mut Vec<u8>) -> (r: Result<Option<Event>, HttpError>)
        ensures
            ({
                let (st2, buf2, res) = spec_chunked_next(*old(self), old(buf)@);
                &&& *final(self) == st2
                &&& final(buf)@ == buf2
                &&& match res {
                    Ok(BodyOut::More) => r == Ok::<Option<Event>, HttpError>(Option::None),
                    Ok(BodyOut::Data(d)) => r matches Ok(Some(Event::Data(v))) && v@ == d,
                    Ok(BodyOut::End(t)) => match t {
                        Option::None => r == Ok::<Option<Event>, HttpError>(
                            Option::Some(Event::EndOfMessage(Option::None)),
                        ),
                        Option::Some(hs) => r matches Ok(Some(Event::EndOfMessage(Some(h)))) && h@
                            == hs,
                    },
                    Err(e) => r == Err::<Option<Event>, HttpError>(e),
                }
            }),
    {
        let ghost st0 = *self;
        let ghost buf0 = buf@;
        loop
            invariant
                st0 == *old(self),
                buf0 == old(buf)@,
                spec_chunked_next(st0, buf0) == spec_chunked_next(*self, buf@),
            decreases buf@.len(),
        {
            match *self {
                Chunked::Start => {
                    match parse_chunk_size(buf.as_slice()) {
                        Ok(Option::None) => {
                            return Ok(Option::None);
                        },
                        Err(e) => {
                            return Err(e);
                        },
                        Ok(Option::Some((consume, size))) => {
                            proof {
                                lemma_chunk_size_bounds(buf@);
                            }
                            let _ = split_to(buf, consume);
                            if size == 0 {
                                *self = Chunked::Trailers;
                            } else {
                                *self = Chunked::Data(size);
                            }
                        },
                    }
                },
                Chunked::Data(rem) => {
                    let k = if rem < buf.len() {
                        rem
                    } else {
                        buf.len()
                    };
                    if k == 0 {
                        return Ok(Option::None);
                    }
                    let data = split_to(buf, k);
                    if rem == k {
                        *self = Chunked::End;
                    } else {
                        *self = Chunked::Data(rem - k);
                    }
                    return Ok(Option::Some(Event::Data(data)));
                },
                Chunked::End => {
                    if buf.len() < 2 {
                        return Ok(Option::None);
                    }
                    if buf[0] == 13 && buf[1] == 10 {
                        let _ = split_to(buf, 2);
                        *self = Chunked::Start;
                    } else {
                        return Err(HttpError::InvalidChunkSize);
                    }
                },
                Chunked::Trailers => {
                    match crate::headers::parse_header_block(buf.as_slice(), 0) {
                        Ok(Option::None) => {
                            return Ok(Option::None);
                        },
                        Err(e) => {
                            return Err(e);
                        },
                        Ok(Option::Some((hdrs, end))) => {
                            proof {
                                crate::headers::lemma_header_block_end_bounds(buf@, 0);
                            }
                            let _ = split_to(buf, end);
                            if hdrs.len() == 0 {
                                return Ok(Option::Some(Event::EndOfMessage(Option::None)));
                            }
                            return Ok(Option::Some(Event::EndOfMessage(Option::Some(hdrs))));
                        },
                    }
                },
            }
        }
    }
}

// ---------------------------------------------------------------------------
// The body reader.
// ---------------------------------------------------------------------------
/// The reader a head installs for its body, one variant per framing.
#[derive(Clone, Copy, Debug, PartialEq, Eq, Structural)]
pub enum BodyReader {
    ContentLength(ContentLength),
    Chunked(Chunked),
    Http10,
}

/// The fresh reader for a framing decision.
pub open spec fn spec_reader_for(m: FramingMethod) -> BodyReader {
    match m {
        FramingMethod::ContentLength(n) => BodyReader::ContentLength(ContentLength(n)),
        FramingMethod::Chunked => BodyReader::Chunked(Chunked::Start),
        FramingMethod::Http10 => BodyReader::Http10,
    }
}

impl From<FramingMethod> for BodyReader {
    /// The fresh reader for a framing decision.
    fn from(m: FramingMethod) -> (r: Self) {
        match m {
            FramingMethod::ContentLength(n) => BodyReader::ContentLength(ContentLength(n)),
            FramingMethod::Chunked => BodyReader::Chunked(Chunked::Start),
            FramingMethod::Http10 => BodyReader::Http10,
        }
    }
}

impl vstd::std_specs::convert::FromSpecImpl<FramingMethod> for BodyReader {
    open spec fn obeys_from_spec() -> bool {
        true
    }

    open spec fn from_spec(m: FramingMethod) -> Self {
        spec_reader_for(m)
    }
}

/// One read step of whichever reader is installed.
pub open spec fn spec_body_next(r: BodyReader, buf: Seq<u8>) -> (BodyReader, Seq<u8>, Result<
    BodyOut,
    HttpError,
>) {
    match r {
        BodyReader::ContentLength(c) => {
            let (rem2, buf2, out) = spec_cl_next(c.0 as int, buf);
            (BodyReader::ContentLength(ContentLength(rem2 as usize)), buf2, Ok(out))
        },
        BodyReader::Chunked(st) => {
            let (st2, buf2, res) = spec_chunked_next(st, buf);
            (BodyReader::Chunked(st2), buf2, res)
        },
        BodyReader::Http10 => {
            let (buf2, out) = spec_http10_next(buf);
            (r, buf2, Ok(out))
        },
    }
}

/// Whether an EOF signal cuts this reader's body short: a length-framed body
/// still owed bytes, or any chunked sub-state (each awaits more input).
/// `Http10` and a fully drained length end normally.
pub open spec fn spec_eof_premature(rd: BodyReader) -> bool {
    match rd {
        BodyReader::ContentLength(c) => c.0 > 0,
        BodyReader::Chunked(_) => true,
        BodyReader::Http10 => false,
    }
}

impl BodyReader {
    /// Attempts to produce one `Data` or `EndOfMessage` event from the front
    /// of `buf`; `Ok(None)` asks for more bytes.
    pub fn next_event(&mut self, buf: &mut Vec<u8>) -> (r: Result<Option<Event>, HttpError>)
        ensures
            ({
                let (rd2, buf2, res) = spec_body_next(*old(self), old(buf)@);
                &&& *final(self) == rd2
                &&& final(buf)@ == buf2
                &&& match res {
                    Ok(BodyOut::More) => r == Ok::<Option<Event>, HttpError>(Option::None),
                    Ok(BodyOut::Data(d)) => r matches Ok(Some(Event::Data(v))) && v@ == d,
                    Ok(BodyOut::End(t)) => match t {
                        Option::None => r == Ok::<Option<Event>, HttpError>(
                            Option::Some(Event::EndOfMessage(Option::None)),
                        ),
                        Option::Some(hs) => r matches Ok(Some(Event::EndOfMessage(Some(h)))) && h@
                            == hs,
                    },
                    Err(e) => r == Err::<Option<Event>, HttpError>(e),
                }
            }),
    {
        match self {
            BodyReader::ContentLength(c) => c.next_event(buf),
            BodyReader::Chunked(st) => st.next_event(buf),
            BodyReader::Http10 => Http10::next_event(buf),
        }
    }

    /// What an EOF signal means: normal termination for `Http10` and for a
    /// length-framed body that is owed nothing, an error for the framings
    /// that still promise bytes.
    pub fn eof(&self) -> (r: Result<Event, HttpError>)
        ensures
            if spec_eof_premature(*self) {
                r == Err::<Event, HttpError>(HttpError::ConnectionClosedPrematurely)
            } else {
                r matches Ok(e) && e matches Event::EndOfMessage(t) && t is None
            },
    {
        match self {
            BodyReader::ContentLength(c) => {
                if c.0 == 0 {
                    Ok(Event::EndOfMessage(Option::None))
                } else {
                    Err(HttpError::ConnectionClosedPrematurely)
                }
            },
            BodyReader::Chunked(_) => Err(HttpError::ConnectionClosedPrematurely),
            BodyReader::Http10 => Ok(Event::EndOfMessage(Option::None)),
        }
    }
}

} // verus!
