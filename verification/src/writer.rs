use vstd::prelude::*;

use crate::error::HttpError;
use crate::headers::{spec_serialize_headers, Headers};

verus! {

/// The encoder a head installs for its outbound body, one variant per
/// framing.
#[derive(Clone, Copy, Debug, PartialEq, Eq, Structural)]
pub enum BodyWriter {
    ContentLength(ContentLength),
    Chunked,
    Http10,
}

/// A writer for a body of a fixed, declared length; the field counts the
/// bytes still owed.
#[derive(Clone, Copy, Debug, PartialEq, Eq, Structural)]
pub struct ContentLength(pub usize);

/// The byte of one hexadecimal digit, lower case.
pub open spec fn hex_digit_byte(d: int) -> u8 {
    if d < 10 {
        (48 + d) as u8
    } else {
        (87 + d) as u8
    }
}

/// The lower-case hexadecimal digits of `n`, most significant first and
/// without leading zeros; zero itself is one digit.
pub open spec fn spec_hex_digits(n: int) -> Seq<u8>
    decreases n,
    when n >= 0
{
    if n < 16 {
        seq![hex_digit_byte(n)]
    } else {
        proof {
            assert(n / 16 < n) by (nonlinear_arith)
                requires
                    n >= 16,
            {
            }
        }
        spec_hex_digits(n / 16).push(hex_digit_byte(n % 16))
    }
}

/// One encoded chunk: the fragment's length in hex, CRLF, the fragment,
/// CRLF.
pub open spec fn spec_chunk_encode(d: Seq<u8>) -> Seq<u8> {
    spec_hex_digits(d.len() as int) + seq![13u8, 10u8] + d + seq![13u8, 10u8]
}

/// The terminator of a chunked body: a zero-size line, the trailer fields if
/// any, and the closing CRLF.
pub open spec fn spec_chunk_end(t: Option<Seq<(Seq<u8>, Seq<u8>)>>) -> Seq<u8> {
    seq![48u8, 13u8, 10u8] + (match t {
        Option::Some(hs) => spec_serialize_headers(hs),
        Option::None => Seq::empty(),
    }) + seq![13u8, 10u8]
}

/// What writing one fragment does: under `Content-Length` the fragment
/// passes through and shrinks the debt, or fails when it overruns it;
/// chunked framing wraps it; `Http10` passes it through.
pub open spec fn spec_write_data(w: BodyWriter, data: Seq<u8>) -> Result<
    (BodyWriter, Seq<u8>),
    HttpError,
> {
    match w {
        BodyWriter::ContentLength(c) => {
            if data.len() <= c.0 {
                Ok((BodyWriter::ContentLength(ContentLength((c.0 - data.len()) as usize)), data))
            } else {
                Err(HttpError::TooMuchData)
            }
        },
        BodyWriter::Chunked => Ok((w, spec_chunk_encode(data))),
        BodyWriter::Http10 => Ok((w, data)),
    }
}

/// What ending the message emits: nothing under `Content-Length` (and only
/// once the debt is zero) or `Http10`; the chunked terminator otherwise.
pub open spec fn spec_write_end(w: BodyWriter, t: Option<Seq<(Seq<u8>, Seq<u8>)>>) -> Result<
    Seq<u8>,
    HttpError,
> {
    match w {
        BodyWriter::ContentLength(c) => {
            if c.0 == 0 {
                Ok(Seq::empty())
            } else {
                Err(HttpError::TooMuchData)
            }
        },
        BodyWriter::Chunked => Ok(spec_chunk_end(t)),
        BodyWriter::Http10 => Ok(Seq::empty()),
    }
}

/// Appends the lower-case hex digits of `n` to `out`.
pub fn push_hex(out: &mut Vec<u8>, n: usize)
    ensures
        final(out)@ == old(out)@ + spec_hex_digits(n as int),
    decreases n,
{
    if n < 16 {
        let d = n as u8;
        let b: u8 = if d < 10 {
            48 + d
        } else {
            87 + d
        };
        out.push(b);
        proof {
            assert(final(out)@ =~= old(out)@ + spec_hex_digits(n as int));
        }
    } else {
        proof {
            assert(n / 16 < n) by (nonlinear_arith)
                requires
                    n >= 16,
            {
            }
        }
        push_hex(out, n / 16);
        let d = (n % 16) as u8;
        let b: u8 = if d < 10 {
            48 + d
        } else {
            87 + d
        };
        out.push(b);
        proof {
            assert(final(out)@ =~= old(out)@ + spec_hex_digits(n as int));
        }
    }
}

impl BodyWriter {
    /// Encodes one outbound fragment according to the framing.
    pub fn write_data(&mut self, data: &Vec<u8>) -> (r: Result<Vec<u8>, HttpError>)
        ensures
            match spec_write_data(*old(self), data@) {
                Ok((w2, out)) => *final(self) == w2 && (r matches Ok(v) && v@ == out),
                Err(e) => *final(self) == *old(self) && r == Err::<Vec<u8>, HttpError>(e),
            },
    {
        match self {
            BodyWriter::ContentLength(c) => {
                if data.len() <= c.0 {
                    c.0 = c.0 - data.len();
                    Ok(crate::headers::clone_bytes(data))
                } else {
                    Err(HttpError::TooMuchData)
                }
            },
            BodyWriter::Chunked => {
                let mut out: Vec<u8> = Vec::new();
                push_hex(&mut out, data.len());
                out.push(13);
                out.push(10);
                crate::headers::append_bytes(&mut out, data.as_slice());
                out.push(13);
                out.push(10);
                proof {
                    assert(out@ =~= spec_chunk_encode(data@));
                }
                Ok(out)
            },
            BodyWriter::Http10 => Ok(crate::headers::clone_bytes(data)),
        }
    }

    /// Ends the outbound message: emits the chunked terminator with the
    /// trailers, or nothing for the other framings.
    pub fn write_end_of_message(&mut self, trailers: Option<&Headers>) -> (r: Result<
        Vec<u8>,
        HttpError,
    >)
        ensures
            *final(self) == *old(self),
            ({
                let tv = match trailers {
                    Option::Some(h) => Option::Some(h@),
                    Option::None => Option::None,
                };
                match spec_write_end(*old(self), tv) {
                    Ok(out) => r matches Ok(v) && v@ == out,
                    Err(e) => r == Err::<Vec<u8>, HttpError>(e),
                }
            }),
    {
        match self {
            BodyWriter::ContentLength(c) => {
                if c.0 == 0 {
                    let out: Vec<u8> = Vec::new();
                    proof {
                        assert(out@ =~= Seq::<u8>::empty());
                    }
                    Ok(out)
                } else {
                    Err(HttpError::TooMuchData)
                }
            },
            BodyWriter::Chunked => {
                let mut out: Vec<u8> = Vec::new();
                out.push(48);
                out.push(13);
                out.push(10);
                match trailers {
                    Option::Some(h) => {
                        crate::headers::serialize_headers_into(&mut out, h);
                    },
                    Option::None => {},
                }
                out.push(13);
                out.push(10);
                proof {
                    let tv = match trailers {
                        Option::Some(h) => Option::Some(h@),
                        Option::None => Option::<Seq<(Seq<u8>, Seq<u8>)>>::None,
                    };
                    assert(out@ =~= spec_chunk_end(tv));
                }
                Ok(out)
            },
            BodyWriter::Http10 => {
                let out: Vec<u8> = Vec::new();
                proof {
                    assert(out@ =~= Seq::<u8>::empty());
                }
                Ok(out)
            },
        }
    }
}

// ---------------------------------------------------------------------------
// The encoded stream reads back as it was written.
// ---------------------------------------------------------------------------
/// A whole chunked body: each fragment encoded in order.
pub open spec fn spec_chunk_encode_all(bs: Seq<Seq<u8>>) -> Seq<u8>
    decreases bs.len(),
{
    if bs.len() == 0 {
        Seq::empty()
    } else {
        spec_chunk_encode(bs[0]) + spec_chunk_encode_all(bs.drop_first())
    }
}

/// What a chunked reader makes of `buf` from `st`: each call yields the
/// next fragment of `bs`, and the last call yields the end of the message
/// with the trailers `t` and an empty buffer.
pub open spec fn chunked_yields(
    st: crate::body::Chunked,
    buf: Seq<u8>,
    bs: Seq<Seq<u8>>,
    t: Option<Seq<(Seq<u8>, Seq<u8>)>>,
) -> bool
    decreases bs.len(),
{
    let (st2, buf2, res) = crate::body::spec_chunked_next(st, buf);
    if bs.len() == 0 {
        res == Ok::<crate::body::BodyOut, HttpError>(crate::body::BodyOut::End(t)) && buf2.len()
            == 0
    } else {
        res == Ok::<crate::body::BodyOut, HttpError>(crate::body::BodyOut::Data(bs[0]))
            && chunked_yields(st2, buf2, bs.drop_first(), t)
    }
}

proof fn lemma_hex_value_prefix(s1: Seq<u8>, s2: Seq<u8>, from: int, to: int)
    requires
        0 <= from <= to,
        to <= s1.len(),
        to <= s2.len(),
        forall|j: int| from <= j < to ==> s1[j] == s2[j],
    ensures
        crate::body::hex_value(s1, from, to) == crate::body::hex_value(s2, from, to),
    decreases to - from,
{
    if to > from {
        lemma_hex_value_prefix(s1, s2, from, to - 1);
    }
}

/// The hex digits of `n` are hex digits and read back as `n`.
proof fn lemma_hex_digits_props(n: int)
    requires
        0 <= n,
    ensures
        ({
            let h = spec_hex_digits(n);
            &&& h.len() >= 1
            &&& forall|i: int| 0 <= i < h.len() ==> crate::body::is_hex_byte(#[trigger] h[i])
            &&& crate::body::hex_value(h, 0, h.len() as int) == n
        }),
    decreases n,
{
    let h = spec_hex_digits(n);
    if n < 16 {
        assert(h =~= seq![hex_digit_byte(n)]);
        assert(crate::body::hex_val(hex_digit_byte(n)) == n);
        assert(crate::body::hex_value(h, 0, 1) == crate::body::hex_value(h, 0, 0) * 16
            + crate::body::hex_val(h[0]));
    } else {
        assert(n / 16 < n && n / 16 >= 1 && 0 <= n % 16 < 16 && (n / 16) * 16 + n % 16 == n) by (nonlinear_arith)
            requires
                n >= 16,
        {
        }
        lemma_hex_digits_props(n / 16);
        let h1 = spec_hex_digits(n / 16);
        assert(h == h1.push(hex_digit_byte(n % 16)));
        assert(forall|i: int| 0 <= i < h1.len() ==> h[i] == h1[i]);
        assert(crate::body::is_hex_byte(hex_digit_byte(n % 16)));
        lemma_hex_value_prefix(h, h1, 0, h1.len() as int);
        assert(crate::body::hex_value(h, 0, h.len() as int) == crate::body::hex_value(
            h,
            0,
            h.len() - 1,
        ) * 16 + crate::body::hex_val(h[h.len() - 1]));
        assert(crate::body::hex_val(hex_digit_byte(n % 16)) == n % 16);
    }
}

proof fn lemma_hex_end_is(s: Seq<u8>, from: int, i: int)
    requires
        0 <= from <= i <= s.len(),
        forall|j: int| from <= j < i ==> crate::body::is_hex_byte(#[trigger] s[j]),
        i < s.len() ==> !crate::body::is_hex_byte(s[i]),
    ensures
        crate::body::hex_end(s, from) == i,
    decreases i - from,
{
    if from < i {
        lemma_hex_end_is(s, from + 1, i);
    }
}

/// A size line written for `n` parses back as `n`, whatever follows it.
proof fn lemma_parse_chunk_encode(n: int, rest: Seq<u8>)
    requires
        0 <= n <= usize::MAX,
    ensures
        ({
            let h = spec_hex_digits(n);
            crate::body::spec_parse_chunk_size(h + seq![13u8, 10u8] + rest)
                == crate::body::ChunkLine::Line(h.len() + 2int, n)
        }),
{
    let h = spec_hex_digits(n);
    let hl = h.len() as int;
    let s = h + seq![13u8, 10u8] + rest;
    lemma_hex_digits_props(n);
    assert forall|j: int| 0 <= j < hl implies s[j] == h[j] by {}
    assert(s[hl] == 13 && s[hl + 1] == 10);
    assert forall|j: int| 0 <= j < hl implies crate::body::is_hex_byte(#[trigger] s[j]) by {
        assert(s[j] == h[j]);
    }
    assert(!crate::body::is_hex_byte(13));
    lemma_hex_end_is(s, 0, hl);
    lemma_hex_value_prefix(s, h, 0, hl);
    assert(!crate::headers::is_ows_byte(13));
    crate::headers::lemma_ows_end_is(s, hl, hl);
}

/// Writing a chunked body fragment by fragment and ending it with trailers
/// is inverted exactly by the chunked reader: it yields each fragment as a
/// `Data` event, in order and unsplit, and then the end of the message with
/// the same trailers. Fragments must be non-empty (an empty fragment would
/// encode as the terminator) and trailers, if given, must be well formed
/// and carry at least one field.
#[verifier::rlimit(60)]
pub proof fn lemma_chunked_round_trip(bs: Seq<Seq<u8>>, t: Option<Seq<(Seq<u8>, Seq<u8>)>>)
    requires
        forall|i: int| 0 <= i < bs.len() ==> 0 < (#[trigger] bs[i]).len() <= usize::MAX,
        t matches Option::Some(hs) ==> crate::headers::wf_headers(hs) && hs.len() > 0,
    ensures
        chunked_yields(
            crate::body::Chunked::Start,
            spec_chunk_encode_all(bs) + spec_chunk_end(t),
            bs,
            t,
        ),
    decreases bs.len(),
{
    let buf = spec_chunk_encode_all(bs) + spec_chunk_end(t);
    if bs.len() == 0 {
        assert(buf =~= spec_chunk_end(t));
        let tr = match t {
            Option::Some(hs) => crate::headers::spec_serialize_headers(hs),
            Option::None => Seq::<u8>::empty(),
        };
        assert(buf =~= seq![48u8, 13u8, 10u8] + (tr + seq![13u8, 10u8]));
        assert(buf[0] == 48 && buf[1] == 13 && buf[2] == 10);
        assert(!crate::body::is_hex_byte(13));
        assert(crate::body::is_hex_byte(48));
        lemma_hex_end_is(buf, 0, 1);
        assert(crate::body::hex_value(buf, 0, 1) == 0) by {
            assert(crate::body::hex_value(buf, 0, 0) == 0);
            assert(crate::body::hex_val(48) == 0);
        }
        assert(!crate::headers::is_ows_byte(13));
        crate::headers::lemma_ows_end_is(buf, 1, 1);
        assert(crate::body::spec_parse_chunk_size(buf) == crate::body::ChunkLine::Line(3, 0));
        assert(crate::body::spec_chunked_next(crate::body::Chunked::Start, buf)
            == crate::body::spec_chunked_next(crate::body::Chunked::Trailers, buf.skip(3)));
        let tb = buf.skip(3);
        assert forall|j: int| 0 <= j < tb.len() implies tb[j] == (tr + seq![13u8, 10u8])[j] by {
            assert(tb[j] == buf[3 + j]);
        }
        assert(tb =~= tr + seq![13u8, 10u8]);
        assert(tb.skip(0) =~= tb);
        match t {
            Option::Some(hs) => {
                crate::headers::lemma_header_block_round_trip(tb, 0, hs);
                assert(tb.skip(tb.len() as int).len() == 0);
            },
            Option::None => {
                assert(tb =~= seq![13u8, 10u8]);
                assert(crate::headers::spec_parse_header_block(tb, 0)
                    == crate::headers::HdrBlockRes::Block(
                    Seq::<(Seq<u8>, Seq<u8>)>::empty(),
                    2,
                ));
                assert(tb.skip(2).len() == 0);
            },
        }
    } else {
        let b0 = bs[0];
        let n = b0.len() as int;
        let h = spec_hex_digits(n);
        let hl = h.len() as int;
        let tail1 = b0 + seq![13u8, 10u8] + (spec_chunk_encode_all(bs.drop_first())
            + spec_chunk_end(t));
        assert(buf =~= h + seq![13u8, 10u8] + tail1) by {
            assert(spec_chunk_encode_all(bs) == spec_chunk_encode(b0) + spec_chunk_encode_all(
                bs.drop_first(),
            ));
            assert(spec_chunk_encode(b0) == h + seq![13u8, 10u8] + b0 + seq![13u8, 10u8]);
        }
        lemma_parse_chunk_encode(n, tail1);
        assert(crate::body::spec_parse_chunk_size(buf) == crate::body::ChunkLine::Line(
            hl + 2,
            n,
        ));
        let buf1 = buf.skip(hl + 2);
        assert forall|j: int| 0 <= j < buf1.len() implies buf1[j] == tail1[j] by {
            assert(buf1[j] == buf[hl + 2 + j]);
        }
        assert(buf1 =~= tail1);
        assert(crate::body::spec_chunked_next(crate::body::Chunked::Start, buf)
            == crate::body::spec_chunked_next(
            crate::body::Chunked::Data(n as usize),
            buf1,
        ));
        // the whole fragment is available, so it comes out in one piece
        assert(buf1.len() > n);
        assert(buf1.take(n) =~= b0);
        let buf2 = buf1.skip(n);
        let tail2 = spec_chunk_encode_all(bs.drop_first()) + spec_chunk_end(t);
        assert(buf2 =~= seq![13u8, 10u8] + tail2) by {
            assert(forall|j: int| 0 <= j < buf2.len() ==> buf2[j] == buf1[n + j]);
        }
        assert(crate::body::spec_chunked_next(crate::body::Chunked::Start, buf) == (
            crate::body::Chunked::End,
            buf2,
            Ok::<crate::body::BodyOut, HttpError>(crate::body::BodyOut::Data(b0)),
        ));
        // the chunk-closing CRLF hands the reader back to the next size line
        assert(buf2[0] == 13 && buf2[1] == 10);
        assert(buf2.skip(2) =~= tail2) by {
            assert(forall|j: int| 0 <= j < tail2.len() ==> buf2.skip(2)[j] == buf2[2 + j]);
        }
        lemma_chunked_round_trip(bs.drop_first(), t);
        assert(crate::body::spec_chunked_next(crate::body::Chunked::End, buf2)
            == crate::body::spec_chunked_next(crate::body::Chunked::Start, tail2));
        assert(chunked_yields(crate::body::Chunked::End, buf2, bs.drop_first(), t)) by {
            if bs.drop_first().len() == 0 {
            } else {
            }
        }
    }
}

/// The fresh writer for a framing decision.
pub open spec fn spec_writer_for(m: crate::body::FramingMethod) -> BodyWriter {
    match m {
        crate::body::FramingMethod::ContentLength(n) => BodyWriter::ContentLength(
            ContentLength(n),
        ),
        crate::body::FramingMethod::Chunked => BodyWriter::Chunked,
        crate::body::FramingMethod::Http10 => BodyWriter::Http10,
    }
}

impl From<crate::body::FramingMethod> for BodyWriter {
    /// The fresh writer for a framing decision.
    fn from(m: crate::body::FramingMethod) -> (r: Self) {
        match m {
            crate::body::FramingMethod::ContentLength(n) => BodyWriter::ContentLength(
                ContentLength(n),
            ),
            crate::body::FramingMethod::Chunked => BodyWriter::Chunked,
            crate::body::FramingMethod::Http10 => BodyWriter::Http10,
        }
    }
}

impl vstd::std_specs::convert::FromSpecImpl<crate::body::FramingMethod> for BodyWriter {
    open spec fn obeys_from_spec() -> bool {
        true
    }

    open spec fn from_spec(m: crate::body::FramingMethod) -> Self {
        spec_writer_for(m)
    }
}

} // verus!
