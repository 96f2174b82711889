use vstd::prelude::*;

use crate::headers::{
    eq_ignore_case, is_ows_byte, lower_seq, first_with_name, last_with_name, Headers,
};

verus! {

/// The HTTP version of a message head. Only the two versions of HTTP/1.x
/// exist on this wire format.
#[derive(Clone, Copy, Debug, PartialEq, Eq, Structural)]
pub enum Version {
    Http10,
    Http11,
}

// ---------------------------------------------------------------------------
// The header names and tokens that framing and connection management read.
// ---------------------------------------------------------------------------
/// The bytes of `connection`.
pub open spec fn name_connection() -> Seq<u8> {
    seq![99u8, 111u8, 110u8, 110u8, 101u8, 99u8, 116u8, 105u8, 111u8, 110u8]
}

/// The bytes of `transfer-encoding`.
pub open spec fn name_transfer_encoding() -> Seq<u8> {
    seq![
        116u8,
        114u8,
        97u8,
        110u8,
        115u8,
        102u8,
        101u8,
        114u8,
        45u8,
        101u8,
        110u8,
        99u8,
        111u8,
        100u8,
        105u8,
        110u8,
        103u8,
    ]
}

/// The bytes of `content-length`.
pub open spec fn name_content_length() -> Seq<u8> {
    seq![99u8, 111u8, 110u8, 116u8, 101u8, 110u8, 116u8, 45u8, 108u8, 101u8, 110u8, 103u8, 116u8, 104u8]
}

/// The bytes of `close`.
pub open spec fn token_close() -> Seq<u8> {
    seq![99u8, 108u8, 111u8, 115u8, 101u8]
}

/// The bytes of `chunked`.
pub open spec fn token_chunked() -> Seq<u8> {
    seq![99u8, 104u8, 117u8, 110u8, 107u8, 101u8, 100u8]
}

/// The bytes of `upgrade`.
pub open spec fn name_upgrade() -> Seq<u8> {
    seq![117u8, 112u8, 103u8, 114u8, 97u8, 100u8, 101u8]
}

/// The bytes of `expect`.
pub open spec fn name_expect() -> Seq<u8> {
    seq![101u8, 120u8, 112u8, 101u8, 99u8, 116u8]
}

/// The bytes of `100-continue`.
pub open spec fn token_100_continue() -> Seq<u8> {
    seq![49u8, 48u8, 48u8, 45u8, 99u8, 111u8, 110u8, 116u8, 105u8, 110u8, 117u8, 101u8]
}

/// The bytes of `connection`, as a value.
pub fn connection_bytes() -> (r: Vec<u8>)
    ensures
        r@ == name_connection(),
{
    let a: [u8; 10] = [99, 111, 110, 110, 101, 99, 116, 105, 111, 110];
    let v = vstd::slice::slice_to_vec(a.as_slice());
    proof {
        assert(v@ =~= name_connection());
    }
    v
}

/// The bytes of `transfer-encoding`, as a value.
pub fn transfer_encoding_bytes() -> (r: Vec<u8>)
    ensures
        r@ == name_transfer_encoding(),
{
    let a: [u8; 17] = [116, 114, 97, 110, 115, 102, 101, 114, 45, 101, 110, 99, 111, 100, 105, 110, 103];
    let v = vstd::slice::slice_to_vec(a.as_slice());
    proof {
        assert(v@ =~= name_transfer_encoding());
    }
    v
}

/// The bytes of `content-length`, as a value.
pub fn content_length_bytes() -> (r: Vec<u8>)
    ensures
        r@ == name_content_length(),
{
    let a: [u8; 14] = [99, 111, 110, 116, 101, 110, 116, 45, 108, 101, 110, 103, 116, 104];
    let v = vstd::slice::slice_to_vec(a.as_slice());
    proof {
        assert(v@ =~= name_content_length());
    }
    v
}

/// The bytes of `close`, as a value.
pub fn close_bytes() -> (r: Vec<u8>)
    ensures
        r@ == token_close(),
{
    let a: [u8; 5] = [99, 108, 111, 115, 101];
    let v = vstd::slice::slice_to_vec(a.as_slice());
    proof {
        assert(v@ =~= token_close());
    }
    v
}

/// The bytes of `chunked`, as a value.
pub fn chunked_bytes() -> (r: Vec<u8>)
    ensures
        r@ == token_chunked(),
{
    let a: [u8; 7] = [99, 104, 117, 110, 107, 101, 100];
    let v = vstd::slice::slice_to_vec(a.as_slice());
    proof {
        assert(v@ =~= token_chunked());
    }
    v
}

// ---------------------------------------------------------------------------
// Byte scanning: first and last occurrence of a byte.
// ---------------------------------------------------------------------------
/// The index of the first occurrence of `b` in `s`, or `s.len()` if absent.
pub open spec fn idx_of(s: Seq<u8>, b: u8) -> int
    decreases s.len(),
{
    if s.len() == 0 {
        0
    } else if s[0] == b {
        0
    } else {
        1 + idx_of(s.drop_first(), b)
    }
}

/// The index of the last occurrence of `b` in `s`, or `-1` if absent.
pub open spec fn last_idx_of(s: Seq<u8>, b: u8) -> int
    decreases s.len(),
{
    if s.len() == 0 {
        -1
    } else if s[s.len() - 1] == b {
        s.len() - 1
    } else {
        last_idx_of(s.drop_last(), b)
    }
}

pub proof fn lemma_idx_of_bounds(s: Seq<u8>, b: u8)
    ensures
        0 <= idx_of(s, b) <= s.len(),
        idx_of(s, b) < s.len() ==> s[idx_of(s, b)] == b,
        forall|j: int| 0 <= j < idx_of(s, b) ==> s[j] != b,
    decreases s.len(),
{
    if s.len() == 0 {
    } else if s[0] == b {
    } else {
        lemma_idx_of_bounds(s.drop_first(), b);
        assert forall|j: int| 0 <= j < idx_of(s, b) implies s[j] != b by {
            if j > 0 {
                assert(s.drop_first()[j - 1] == s[j]);
            }
        }
    }
}

/// The first occurrence is pinned by its characterisation.
pub proof fn lemma_idx_of_is(s: Seq<u8>, b: u8, i: int)
    requires
        0 <= i <= s.len(),
        forall|j: int| 0 <= j < i ==> s[j] != b,
        i < s.len() ==> s[i] == b,
    ensures
        idx_of(s, b) == i,
    decreases s.len(),
{
    if s.len() == 0 {
    } else if s[0] == b {
        assert(i == 0);
    } else {
        assert(i >= 1);
        lemma_idx_of_is(s.drop_first(), b, i - 1);
    }
}

/// The last occurrence is pinned by its characterisation.
pub proof fn lemma_last_idx_of_is(s: Seq<u8>, b: u8, i: int)
    requires
        -1 <= i < s.len(),
        forall|j: int| i < j < s.len() ==> s[j] != b,
        i >= 0 ==> s[i] == b,
    ensures
        last_idx_of(s, b) == i,
    decreases s.len(),
{
    if s.len() == 0 {
    } else if i == s.len() - 1 {
    } else {
        assert(s[s.len() - 1] != b);
        lemma_last_idx_of_is(s.drop_last(), b, i);
    }
}

/// Finds the first occurrence of `b` at or after `from`, or `s.len()`.
pub fn find_byte_from(s: &[u8], from: usize, b: u8) -> (r: usize)
    requires
        from <= s@.len(),
    ensures
        from <= r <= s@.len(),
        forall|j: int| from <= j < r ==> s@[j] != b,
        r < s@.len() ==> s@[r as int] == b,
{
    let n = s.len();
    let mut i = from;
    while i < n
        invariant
            from <= i <= n,
            n == s@.len(),
            forall|j: int| from <= j < i ==> s@[j] != b,
        decreases n - i,
    {
        if s[i] == b {
            return i;
        }
        i += 1;
    }
    n
}

// ---------------------------------------------------------------------------
// Trimming optional whitespace.
// ---------------------------------------------------------------------------
/// `s` without leading spaces and tabs.
pub open spec fn trim_front(s: Seq<u8>) -> Seq<u8>
    decreases s.len(),
{
    if s.len() > 0 && is_ows_byte(s[0]) {
        trim_front(s.drop_first())
    } else {
        s
    }
}

/// `s` without trailing spaces and tabs.
pub open spec fn trim_back(s: Seq<u8>) -> Seq<u8>
    decreases s.len(),
{
    if s.len() > 0 && is_ows_byte(s[s.len() - 1]) {
        trim_back(s.drop_last())
    } else {
        s
    }
}

/// `s` without leading or trailing spaces and tabs.
pub open spec fn trim_ows(s: Seq<u8>) -> Seq<u8> {
    trim_back(trim_front(s))
}

/// Narrows `[lo, hi)` to the bounds that drop leading and trailing OWS.
pub fn trim_bounds(s: &[u8], lo: usize, hi: usize) -> (r: (usize, usize))
    requires
        lo <= hi <= s@.len(),
    ensures
        lo <= r.0 <= r.1 <= hi,
        s@.subrange(r.0 as int, r.1 as int) == trim_ows(s@.subrange(lo as int, hi as int)),
{
    let mut a = lo;
    while a < hi && (s[a] == 32 || s[a] == 9)
        invariant
            lo <= a <= hi <= s@.len(),
            trim_front(s@.subrange(a as int, hi as int)) == trim_front(
                s@.subrange(lo as int, hi as int),
            ),
        decreases hi - a,
    {
        proof {
            let cur = s@.subrange(a as int, hi as int);
            assert(cur.drop_first() =~= s@.subrange(a + 1, hi as int));
        }
        a += 1;
    }
    proof {
        assert(trim_front(s@.subrange(lo as int, hi as int)) == s@.subrange(a as int, hi as int));
    }
    let mut b2 = hi;
    while b2 > a && (s[b2 - 1] == 32 || s[b2 - 1] == 9)
        invariant
            lo <= a <= b2 <= hi <= s@.len(),
            trim_back(s@.subrange(a as int, b2 as int)) == trim_back(
                s@.subrange(a as int, hi as int),
            ),
        decreases b2,
    {
        proof {
            let cur = s@.subrange(a as int, b2 as int);
            assert(cur.drop_last() =~= s@.subrange(a as int, b2 - 1));
        }
        b2 -= 1;
    }
    proof {
        assert(trim_back(s@.subrange(a as int, b2 as int)) == s@.subrange(a as int, b2 as int));
    }
    (a, b2)
}

/// Whether the bytes `[lo, hi)` of `s`, trimmed of OWS and lower-cased,
/// equal `tok`.
pub fn segment_matches(s: &[u8], lo: usize, hi: usize, tok: &[u8]) -> (r: bool)
    requires
        lo <= hi <= s@.len(),
    ensures
        r == (lower_seq(trim_ows(s@.subrange(lo as int, hi as int))) == tok@),
{
    let (a, b2) = trim_bounds(s, lo, hi);
    let seg = vstd::slice::slice_subrange(s, a, b2);
    eq_ignore_case(seg, tok)
}

// ---------------------------------------------------------------------------
// Comma-separated token lists.
// ---------------------------------------------------------------------------
#[via_fn]
proof fn has_token_ci_decreases(v: Seq<u8>, tok: Seq<u8>) {
    lemma_idx_of_bounds(v, 44);
}

/// Whether some comma-separated segment of `v`, trimmed of OWS, equals `tok`
/// ASCII-case-insensitively. `tok` is given lower case.
pub open spec fn has_token_ci(v: Seq<u8>, tok: Seq<u8>) -> bool
    decreases v.len(),
    via has_token_ci_decreases
{
    let i = idx_of(v, 44);
    if lower_seq(trim_ows(v.take(i))) == tok {
        true
    } else if i >= v.len() {
        false
    } else {
        has_token_ci(v.skip(i + 1), tok)
    }
}

/// Whether the segment after the last comma of `v` (or all of `v`), trimmed
/// of OWS, equals `tok` ASCII-case-insensitively.
pub open spec fn last_token_ci(v: Seq<u8>, tok: Seq<u8>) -> bool {
    lower_seq(trim_ows(v.skip(last_idx_of(v, 44) + 1))) == tok
}

/// Scans the comma-separated segments of `v` for `tok`.
pub fn value_has_token_ci(v: &[u8], tok: &[u8]) -> (r: bool)
    ensures
        r == has_token_ci(v@, tok@),
{
    let n = v.len();
    let mut lo: usize = 0;
    proof {
        assert(v@.skip(0) =~= v@);
    }
    loop
        invariant
            lo <= n,
            n == v@.len(),
            has_token_ci(v@, tok@) == has_token_ci(v@.skip(lo as int), tok@),
        decreases n - lo,
    {
        let c = find_byte_from(v, lo, 44);
        proof {
            let suf = v@.skip(lo as int);
            assert forall|j: int| 0 <= j < c - lo implies suf[j] != 44 by {
                assert(suf[j] == v@[lo + j]);
            }
            if c < n {
                assert(suf[c - lo] == v@[c as int]);
            }
            lemma_idx_of_is(suf, 44, c - lo);
            assert(suf.take(c - lo) =~= v@.subrange(lo as int, c as int));
        }
        if segment_matches(v, lo, c, tok) {
            return true;
        }
        if c == n {
            return false;
        }
        proof {
            let suf = v@.skip(lo as int);
            assert(suf.skip(c - lo + 1) =~= v@.skip(c + 1));
        }
        lo = c + 1;
    }
}

/// Matches `tok` against the segment after the last comma of `v`.
pub fn value_last_token_ci(v: &[u8], tok: &[u8]) -> (r: bool)
    ensures
        r == last_token_ci(v@, tok@),
{
    let n = v.len();
    let mut i: usize = n;
    while i > 0 && v[i - 1] != 44
        invariant
            0 <= i <= n,
            n == v@.len(),
            forall|j: int| i <= j < n ==> v@[j] != 44,
        decreases i,
    {
        i -= 1;
    }
    proof {
        if i == 0 {
            lemma_last_idx_of_is(v@, 44, -1);
        } else {
            lemma_last_idx_of_is(v@, 44, i - 1);
        }
        assert(v@.skip(last_idx_of(v@, 44) + 1) =~= v@.subrange(i as int, n as int));
    }
    segment_matches(v, i, n, tok)
}

// ---------------------------------------------------------------------------
// Decimal parsing for Content-Length.
// ---------------------------------------------------------------------------
/// The numeric value of a string of decimal digits, most significant first.
pub open spec fn dec_value(s: Seq<u8>) -> int
    decreases s.len(),
{
    if s.len() == 0 {
        0
    } else {
        dec_value(s.drop_last()) * 10 + (s.last() - 48)
    }
}

/// The digits of a decimal string, after an optional leading plus sign.
pub open spec fn dec_digits(s: Seq<u8>) -> Seq<u8> {
    if s.len() > 0 && s[0] == 43 {
        s.drop_first()
    } else {
        s
    }
}

/// Whether `s` is a decimal number as `Content-Length` admits one: an
/// optional plus sign, then one or more digits.
pub open spec fn is_dec_string(s: Seq<u8>) -> bool {
    let d = dec_digits(s);
    d.len() > 0 && forall|i: int| 0 <= i < d.len() ==> 48 <= #[trigger] d[i] <= 57
}

proof fn lemma_dec_value_nonneg(s: Seq<u8>)
    requires
        forall|i: int| 0 <= i < s.len() ==> 48 <= #[trigger] s[i] <= 57,
    ensures
        dec_value(s) >= 0,
    decreases s.len(),
{
    if s.len() > 0 {
        lemma_dec_value_nonneg(s.drop_last());
    }
}

proof fn lemma_dec_value_mono(s: Seq<u8>, i: int)
    requires
        forall|j: int| 0 <= j < s.len() ==> 48 <= #[trigger] s[j] <= 57,
        0 <= i <= s.len(),
    ensures
        dec_value(s.take(i)) <= dec_value(s),
    decreases s.len() - i,
{
    if i == s.len() {
        assert(s.take(i) =~= s);
    } else {
        let t = s.take(i + 1);
        assert(t.drop_last() =~= s.take(i));
        assert(forall|j: int| 0 <= j < s.take(i).len() ==> 48 <= #[trigger] s.take(i)[j] <= 57);
        lemma_dec_value_nonneg(s.take(i));
        assert(dec_value(t) == dec_value(s.take(i)) * 10 + (s[i] - 48));
        lemma_dec_value_mono(s, i + 1);
    }
}

/// Parses the digits as a decimal `usize`; `None` on any malformed byte or on
/// overflow.
fn parse_dec(s: &[u8]) -> (r: Option<usize>)
    ensures
        match r {
            Option::Some(n) => is_dec_string(s@) && n == dec_value(dec_digits(s@)),
            Option::None => !(is_dec_string(s@) && dec_value(dec_digits(s@)) <= usize::MAX),
        },
{
    let n = s.len();
    let start: usize = if n > 0 && s[0] == 43 {
        1
    } else {
        0
    };
    let ghost d = dec_digits(s@);
    proof {
        assert(d =~= s@.skip(start as int));
    }
    if n == start {
        assert(d.len() == 0);
        return Option::None;
    }
    let mut acc: usize = 0;
    let mut i = start;
    while i < n
        invariant
            start <= i <= n,
            n == s@.len(),
            d == dec_digits(s@),
            d == s@.skip(start as int),
            d.len() == n - start,
            forall|j: int| 0 <= j < i - start ==> 48 <= #[trigger] d[j] <= 57,
            acc == dec_value(d.take(i - start)),
        decreases n - i,
    {
        let b = s[i];
        proof {
            assert(d[i - start] == s@.skip(start as int)[i - start]);
            assert(d[i - start] == s@[i as int]);
        }
        if !(48 <= b && b <= 57) {
            proof {
                assert(!(48 <= d[i - start] <= 57));
                assert(!is_dec_string(s@));
            }
            return Option::None;
        }
        let dg = (b - 48) as usize;
        proof {
            let t = d.take(i - start + 1);
            assert(t.drop_last() =~= d.take(i - start));
            assert(t.last() == d[i - start]);
            assert(dec_value(t) == acc * 10 + dg);
        }
        if acc > (usize::MAX - dg) / 10 {
            proof {
                assert(acc * 10 + dg > usize::MAX) by (nonlinear_arith)
                    requires
                        acc > (usize::MAX - dg) / 10,
                        dg <= 9,
                        acc >= 0,
                {
                }
                if is_dec_string(s@) {
                    assert(forall|j: int| 0 <= j < d.len() ==> 48 <= #[trigger] d[j] <= 57);
                    lemma_dec_value_mono(d, i - start + 1);
                    assert(dec_value(d) > usize::MAX);
                }
            }
            return Option::None;
        }
        proof {
            assert(acc * 10 + dg <= usize::MAX) by (nonlinear_arith)
                requires
                    acc <= (usize::MAX - dg) / 10,
                    dg <= 9,
                    acc >= 0,
            {
            }
        }
        acc = acc * 10 + dg;
        i += 1;
    }
    proof {
        assert(d.take(n - start) =~= d);
        assert(is_dec_string(s@));
    }
    Option::Some(acc)
}

// ---------------------------------------------------------------------------
// The three header utilities.
// ---------------------------------------------------------------------------
/// Whether the field at `i` is a `Connection` header that lists `close`.
pub open spec fn connection_close_at(hs: Seq<(Seq<u8>, Seq<u8>)>, i: int) -> bool {
    hs[i].0 == name_connection() && has_token_ci(hs[i].1, token_close())
}

/// Whether this head leaves the connection reusable: HTTP/1.1, and no
/// `Connection` header value lists the token `close`.
pub open spec fn spec_can_keep_alive(version: Version, hs: Seq<(Seq<u8>, Seq<u8>)>) -> bool {
    &&& version == Version::Http11
    &&& !(exists|i: int| 0 <= i < hs.len() && #[trigger] connection_close_at(hs, i))
}

/// True iff the version is at least 1.1 and no `Connection` value contains a
/// comma-separated token `close` (ASCII case-insensitive, trimmed).
pub fn can_keep_alive(version: Version, headers: &Headers) -> (r: bool)
    ensures
        r == spec_can_keep_alive(version, headers@),
{
    if version != Version::Http11 {
        return false;
    }
    let conn = connection_bytes();
    let close = close_bytes();
    let n = headers.len();
    let mut i: usize = 0;
    while i < n
        invariant
            n == headers@.len(),
            0 <= i <= n,
            conn@ == name_connection(),
            close@ == token_close(),
            forall|j: int| 0 <= j < i ==> !(#[trigger] connection_close_at(headers@, j)),
        decreases n - i,
    {
        if crate::headers::bytes_eq(headers.name_at(i).as_slice(), conn.as_slice()) {
            if value_has_token_ci(headers.value_at(i).as_slice(), close.as_slice()) {
                assert(connection_close_at(headers@, i as int));
                return false;
            }
            assert(!connection_close_at(headers@, i as int));
        } else {
            assert(!connection_close_at(headers@, i as int));
        }
        i += 1;
    }
    true
}

/// Whether the body is chunk-framed: the last `Transfer-Encoding` value's
/// rightmost comma-separated token is `chunked`.
pub open spec fn spec_is_chunked(hs: Seq<(Seq<u8>, Seq<u8>)>) -> bool {
    match last_with_name(hs, name_transfer_encoding()) {
        Option::Some(v) => last_token_ci(v, token_chunked()),
        Option::None => false,
    }
}

/// True iff the last value of `Transfer-Encoding`, when split on commas, has
/// `chunked` as its rightmost token (trimmed, case-insensitive).
pub fn is_chunked(headers: &Headers) -> (r: bool)
    ensures
        r == spec_is_chunked(headers@),
{
    let te = transfer_encoding_bytes();
    match headers.get_last(te.as_slice()) {
        Option::Some(v) => {
            let chunked = chunked_bytes();
            value_last_token_ci(v.as_slice(), chunked.as_slice())
        },
        Option::None => false,
    }
}

/// The declared content length, if one is present and parses.
pub open spec fn spec_maybe_content_length(hs: Seq<(Seq<u8>, Seq<u8>)>) -> Option<usize> {
    match first_with_name(hs, name_content_length()) {
        Option::Some(v) => {
            if is_dec_string(v) && dec_value(dec_digits(v)) <= usize::MAX {
                Option::Some(dec_value(dec_digits(v)) as usize)
            } else {
                Option::None
            }
        },
        Option::None => Option::None,
    }
}

/// Parses the first `Content-Length` value as base-10; `None` when the header
/// is absent or its value malformed.
pub fn maybe_content_length(headers: &Headers) -> (r: Option<usize>)
    ensures
        r == spec_maybe_content_length(headers@),
{
    let cl = content_length_bytes();
    match headers.get_first(cl.as_slice()) {
        Option::Some(v) => parse_dec(v.as_slice()),
        Option::None => Option::None,
    }
}

/// A `Connection` header that lists the token `close` always turns
/// keep-alive off, whatever the version and the other headers say.
pub proof fn lemma_connection_close_disables_keep_alive(
    version: Version,
    hs: Seq<(Seq<u8>, Seq<u8>)>,
    i: int,
)
    requires
        0 <= i < hs.len(),
        connection_close_at(hs, i),
    ensures
        !spec_can_keep_alive(version, hs),
{
}

} // verus!
