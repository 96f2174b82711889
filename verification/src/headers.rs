use vstd::prelude::*;

verus! {

// ---------------------------------------------------------------------------
// Byte-level specifications shared by the header map and the codecs.
// ---------------------------------------------------------------------------
/// ASCII lower-casing of one byte.
pub open spec fn lower_byte(b: u8) -> u8 {
    if 65 <= b && b <= 90 {
        (b + 32) as u8
    } else {
        b
    }
}

/// ASCII lower-casing of a byte sequence.
pub open spec fn lower_seq(s: Seq<u8>) -> Seq<u8> {
    s.map_values(|b: u8| lower_byte(b))
}

/// `tchar` of RFC 7230: the bytes legal in a header name or method token.
pub open spec fn is_token_byte(b: u8) -> bool {
    ||| b == 33
    ||| 35 <= b && b <= 39
    ||| b == 42
    ||| b == 43
    ||| b == 45
    ||| b == 46
    ||| 48 <= b && b <= 57
    ||| 65 <= b && b <= 90
    ||| b == 94
    ||| b == 95
    ||| b == 96
    ||| 97 <= b && b <= 122
    ||| b == 124
    ||| b == 126
}

/// Optional whitespace around a header value: space or horizontal tab.
pub open spec fn is_ows_byte(b: u8) -> bool {
    b == 32 || b == 9
}

/// A stored header name: a non-empty token, already lower-cased.
pub open spec fn wf_header_name(n: Seq<u8>) -> bool {
    &&& n.len() > 0
    &&& forall|i: int| 0 <= i < n.len() ==> is_token_byte(#[trigger] n[i]) && !(65 <= n[i] <= 90)
}

/// A stored header value: free of CR and LF, and already trimmed, so that
/// serialising and re-parsing it gives the value back unchanged.
pub open spec fn wf_header_value(v: Seq<u8>) -> bool {
    &&& forall|i: int| 0 <= i < v.len() ==> #[trigger] v[i] != 13 && v[i] != 10
    &&& v.len() > 0 ==> !is_ows_byte(v[0]) && !is_ows_byte(v[v.len() - 1])
}

/// One well-formed field.
pub open spec fn wf_header_pair(h: (Seq<u8>, Seq<u8>)) -> bool {
    wf_header_name(h.0) && wf_header_value(h.1)
}

/// Every field of the map is well formed.
pub open spec fn wf_headers(hs: Seq<(Seq<u8>, Seq<u8>)>) -> bool {
    forall|i: int| 0 <= i < hs.len() ==> wf_header_pair(#[trigger] hs[i])
}

/// The value of the first field named `name`, if any.
pub open spec fn first_with_name(hs: Seq<(Seq<u8>, Seq<u8>)>, name: Seq<u8>) -> Option<Seq<u8>>
    decreases hs.len(),
{
    if hs.len() == 0 {
        Option::None
    } else if hs[0].0 == name {
        Option::Some(hs[0].1)
    } else {
        first_with_name(hs.drop_first(), name)
    }
}

/// The value of the last field named `name`, if any.
pub open spec fn last_with_name(hs: Seq<(Seq<u8>, Seq<u8>)>, name: Seq<u8>) -> Option<Seq<u8>>
    decreases hs.len(),
{
    if hs.len() == 0 {
        Option::None
    } else if hs[hs.len() - 1].0 == name {
        Option::Some(hs[hs.len() - 1].1)
    } else {
        last_with_name(hs.drop_last(), name)
    }
}

/// Whether any field is named `name`.
pub open spec fn has_name(hs: Seq<(Seq<u8>, Seq<u8>)>, name: Seq<u8>) -> bool {
    exists|i: int| 0 <= i < hs.len() && (#[trigger] hs[i]).0 == name
}

proof fn lemma_first_with_name_at(hs: Seq<(Seq<u8>, Seq<u8>)>, name: Seq<u8>, i: int)
    requires
        0 <= i < hs.len(),
        hs[i].0 == name,
        forall|j: int| 0 <= j < i ==> (#[trigger] hs[j]).0 != name,
    ensures
        first_with_name(hs, name) == Option::Some(hs[i].1),
    decreases i,
{
    if i == 0 {
    } else {
        assert(hs[0].0 != name);
        lemma_first_with_name_at(hs.drop_first(), name, i - 1);
    }
}

proof fn lemma_first_with_name_absent(hs: Seq<(Seq<u8>, Seq<u8>)>, name: Seq<u8>)
    requires
        forall|j: int| 0 <= j < hs.len() ==> (#[trigger] hs[j]).0 != name,
    ensures
        first_with_name(hs, name) is None,
    decreases hs.len(),
{
    if hs.len() > 0 {
        lemma_first_with_name_absent(hs.drop_first(), name);
    }
}

proof fn lemma_last_with_name_at(hs: Seq<(Seq<u8>, Seq<u8>)>, name: Seq<u8>, i: int)
    requires
        0 <= i < hs.len(),
        hs[i].0 == name,
        forall|j: int| i < j < hs.len() ==> (#[trigger] hs[j]).0 != name,
    ensures
        last_with_name(hs, name) == Option::Some(hs[i].1),
    decreases hs.len(),
{
    if i == hs.len() - 1 {
    } else {
        lemma_last_with_name_at(hs.drop_last(), name, i);
    }
}

proof fn lemma_last_with_name_absent(hs: Seq<(Seq<u8>, Seq<u8>)>, name: Seq<u8>)
    requires
        forall|j: int| 0 <= j < hs.len() ==> (#[trigger] hs[j]).0 != name,
    ensures
        last_with_name(hs, name) is None,
    decreases hs.len(),
{
    if hs.len() > 0 {
        lemma_last_with_name_absent(hs.drop_last(), name);
    }
}

// ---------------------------------------------------------------------------
// Scanning: the end of a run of bytes of one kind, from a given index.
// ---------------------------------------------------------------------------
/// The first index at or after `from` whose byte is not a token byte.
pub open spec fn token_end(s: Seq<u8>, from: int) -> int
    decreases s.len() - from,
    when 0 <= from <= s.len()
{
    if from < s.len() && is_token_byte(s[from]) {
        token_end(s, from + 1)
    } else {
        from
    }
}

/// The first index at or after `from` whose byte is not a space or tab.
pub open spec fn ows_end(s: Seq<u8>, from: int) -> int
    decreases s.len() - from,
    when 0 <= from <= s.len()
{
    if from < s.len() && is_ows_byte(s[from]) {
        ows_end(s, from + 1)
    } else {
        from
    }
}

/// The first index at or after `from` holding CR or LF.
pub open spec fn line_end(s: Seq<u8>, from: int) -> int
    decreases s.len() - from,
    when 0 <= from <= s.len()
{
    if from < s.len() && s[from] != 13 && s[from] != 10 {
        line_end(s, from + 1)
    } else {
        from
    }
}

pub proof fn lemma_token_end_bounds(s: Seq<u8>, from: int)
    requires
        0 <= from <= s.len(),
    ensures
        from <= token_end(s, from) <= s.len(),
        forall|j: int| from <= j < token_end(s, from) ==> is_token_byte(s[j]),
        token_end(s, from) < s.len() ==> !is_token_byte(s[token_end(s, from)]),
    decreases s.len() - from,
{
    if from < s.len() && is_token_byte(s[from]) {
        lemma_token_end_bounds(s, from + 1);
    }
}

pub proof fn lemma_ows_end_bounds(s: Seq<u8>, from: int)
    requires
        0 <= from <= s.len(),
    ensures
        from <= ows_end(s, from) <= s.len(),
        forall|j: int| from <= j < ows_end(s, from) ==> is_ows_byte(s[j]),
        ows_end(s, from) < s.len() ==> !is_ows_byte(s[ows_end(s, from)]),
    decreases s.len() - from,
{
    if from < s.len() && is_ows_byte(s[from]) {
        lemma_ows_end_bounds(s, from + 1);
    }
}

pub proof fn lemma_line_end_bounds(s: Seq<u8>, from: int)
    requires
        0 <= from <= s.len(),
    ensures
        from <= line_end(s, from) <= s.len(),
        forall|j: int| from <= j < line_end(s, from) ==> s[j] != 13 && s[j] != 10,
        line_end(s, from) < s.len() ==> s[line_end(s, from)] == 13 || s[line_end(s, from)] == 10,
    decreases s.len() - from,
{
    if from < s.len() && s[from] != 13 && s[from] != 10 {
        lemma_line_end_bounds(s, from + 1);
    }
}

// ---------------------------------------------------------------------------
// Executable byte helpers.
// ---------------------------------------------------------------------------
/// Whether `b` is a token byte.
pub fn is_token_byte_ex(b: u8) -> (r: bool)
    ensures
        r == is_token_byte(b),
{
    b == 33 || (35 <= b && b <= 39) || b == 42 || b == 43 || b == 45 || b == 46 || (48 <= b && b
        <= 57) || (65 <= b && b <= 90) || b == 94 || b == 95 || b == 96 || (97 <= b && b <= 122)
        || b == 124 || b == 126
}
/// Whether two byte slices hold the same bytes.
pub fn bytes_eq(a: &[u8], b: &[u8]) -> (r: bool)
    ensures
        r == (a@ == b@),
{
    if a.len() != b.len() {
        assert(a@.len() != b@.len());
        return false;
    }
    let n = a.len();
    let mut i: usize = 0;
    while i < n
        invariant
            n == a@.len() == b@.len(),
            0 <= i <= n,
            forall|j: int| 0 <= j < i ==> a@[j] == b@[j],
        decreases n - i,
    {
        if a[i] != b[i] {
            return false;
        }
        i += 1;
    }
    proof {
        assert(a@ =~= b@);
    }
    true
}

/// ASCII lower-casing of one byte.
pub fn lower_byte_ex(b: u8) -> (r: u8)
    ensures
        r == lower_byte(b),
{
    if 65 <= b && b <= 90 {
        b + 32
    } else {
        b
    }
}

/// A lower-cased copy of a byte slice.
pub fn lower_bytes(s: &[u8]) -> (r: Vec<u8>)
    ensures
        r@ == lower_seq(s@),
{
    let mut r: Vec<u8> = Vec::new();
    let n = s.len();
    let mut i: usize = 0;
    while i < n
        invariant
            n == s@.len(),
            0 <= i <= n,
            r@.len() == i,
            forall|j: int| 0 <= j < i ==> r@[j] == lower_byte(s@[j]),
        decreases n - i,
    {
        r.push(lower_byte_ex(s[i]));
        i += 1;
    }
    proof {
        assert(r@ =~= lower_seq(s@));
    }
    r
}

/// Whether `a`, lower-cased, equals `b` (which must already be lower case).
pub fn eq_ignore_case(a: &[u8], b: &[u8]) -> (r: bool)
    ensures
        r == (lower_seq(a@) == b@),
{
    if a.len() != b.len() {
        assert(lower_seq(a@).len() != b@.len());
        return false;
    }
    let n = a.len();
    let mut i: usize = 0;
    while i < n
        invariant
            n == a@.len() == b@.len(),
            0 <= i <= n,
            forall|j: int| 0 <= j < i ==> lower_byte(a@[j]) == b@[j],
        decreases n - i,
    {
        if lower_byte_ex(a[i]) != b[i] {
            assert(lower_seq(a@)[i as int] != b@[i as int]);
            return false;
        }
        i += 1;
    }
    proof {
        assert(lower_seq(a@) =~= b@);
    }
    true
}

/// Whether `s` is a well-formed stored header name.
pub fn is_wf_name(s: &[u8]) -> (r: bool)
    ensures
        r == wf_header_name(s@),
{
    if s.len() == 0 {
        return false;
    }
    let n = s.len();
    let mut i: usize = 0;
    while i < n
        invariant
            n == s@.len(),
            0 <= i <= n,
            forall|j: int| 0 <= j < i ==> is_token_byte(#[trigger] s@[j]) && !(65 <= s@[j] <= 90),
        decreases n - i,
    {
        let b = s[i];
        let ok = b == 33 || (35 <= b && b <= 39) || b == 42 || b == 43 || b == 45 || b == 46 || (48
            <= b && b <= 57) || b == 94 || b == 95 || b == 96 || (97 <= b && b <= 122) || b == 124
            || b == 126;
        if !ok {
            assert(!(is_token_byte(s@[i as int]) && !(65 <= s@[i as int] <= 90)));
            return false;
        }
        i += 1;
    }
    true
}

/// Whether `s` is a well-formed stored header value.
pub fn is_wf_value(s: &[u8]) -> (r: bool)
    ensures
        r == wf_header_value(s@),
{
    let n = s.len();
    let mut i: usize = 0;
    while i < n
        invariant
            n == s@.len(),
            0 <= i <= n,
            forall|j: int| 0 <= j < i ==> #[trigger] s@[j] != 13 && s@[j] != 10,
        decreases n - i,
    {
        let b = s[i];
        if b == 13 || b == 10 {
            assert(s@[i as int] == 13 || s@[i as int] == 10);
            return false;
        }
        i += 1;
    }
    if n > 0 {
        let f = s[0];
        let l = s[n - 1];
        if f == 32 || f == 9 || l == 32 || l == 9 {
            return false;
        }
    }
    true
}

// ---------------------------------------------------------------------------
// The header map.
// ---------------------------------------------------------------------------
/// One header field: a lower-cased name and an opaque value.
#[derive(Debug)]
pub struct Header {
    pub name: Vec<u8>,
    pub value: Vec<u8>,
}

impl View for Header {
    type V = (Seq<u8>, Seq<u8>);

    open spec fn view(&self) -> (Seq<u8>, Seq<u8>) {
        (self.name@, self.value@)
    }
}

impl Clone for Header {
    fn clone(&self) -> (r: Self)
        ensures
            r@ == self@,
    {
        let name = clone_bytes(&self.name);
        let value = clone_bytes(&self.value);
        Header { name, value }
    }
}

/// A verified copy of a byte vector.
pub fn clone_bytes(v: &Vec<u8>) -> (r: Vec<u8>)
    ensures
        r@ == v@,
{
    let mut r: Vec<u8> = Vec::new();
    let n = v.len();
    let mut i: usize = 0;
    while i < n
        invariant
            n == v@.len(),
            0 <= i <= n,
            r@.len() == i,
            forall|j: int| 0 <= j < i ==> r@[j] == v@[j],
        decreases n - i,
    {
        r.push(v[i]);
        i += 1;
    }
    proof {
        assert(r@ =~= v@);
    }
    r
}

/// An ordered, multi-valued header map. Field order and duplicate fields are
/// preserved exactly as inserted.
#[derive(Debug)]
pub struct Headers {
    pub items: Vec<Header>,
}

impl View for Headers {
    type V = Seq<(Seq<u8>, Seq<u8>)>;

    open spec fn view(&self) -> Seq<(Seq<u8>, Seq<u8>)> {
        self.items@.map_values(|h: Header| h@)
    }
}

impl Clone for Headers {
    fn clone(&self) -> (r: Self)
        ensures
            r@ == self@,
    {
        let mut items: Vec<Header> = Vec::new();
        let n = self.items.len();
        let mut i: usize = 0;
        while i < n
            invariant
                n == self.items@.len(),
                0 <= i <= n,
                items@.len() == i,
                forall|j: int| 0 <= j < i ==> items@[j]@ == self.items@[j]@,
            decreases n - i,
        {
            let h = self.items[i].clone();
            items.push(h);
            i += 1;
        }
        let r = Headers { items };
        proof {
            assert(r@ =~= self@);
        }
        r
    }
}

impl Headers {
    /// An empty map.
    pub fn new() -> (r: Self)
        ensures
            r@ == Seq::<(Seq<u8>, Seq<u8>)>::empty(),
    {
        let r = Headers { items: Vec::new() };
        proof {
            assert(r@ =~= Seq::<(Seq<u8>, Seq<u8>)>::empty());
        }
        r
    }

    /// Appends one field at the end. The name is stored lower-cased, as every
    /// parsed name is.
    pub fn append(&mut self, name: &[u8], value: Vec<u8>)
        ensures
            final(self)@ == old(self)@.push((lower_seq(name@), value@)),
    {
        let lname = lower_bytes(name);
        self.items.push(Header { name: lname, value });
        proof {
            assert(final(self)@ =~= old(self)@.push((lower_seq(name@), value@)));
        }
    }

    /// How many fields the map holds.
    pub fn len(&self) -> (n: usize)
        ensures
            n == self@.len(),
    {
        self.items.len()
    }

    /// The name of the field at `i`.
    pub fn name_at(&self, i: usize) -> (r: &Vec<u8>)
        requires
            i < self@.len(),
        ensures
            r@ == self@[i as int].0,
    {
        &self.items[i].name
    }

    /// The value of the field at `i`.
    pub fn value_at(&self, i: usize) -> (r: &Vec<u8>)
        requires
            i < self@.len(),
        ensures
            r@ == self@[i as int].1,
    {
        &self.items[i].value
    }

    /// The value of the first field named `name`, copied out.
    pub fn get_first(&self, name: &[u8]) -> (r: Option<Vec<u8>>)
        ensures
            match r {
                Option::Some(v) => first_with_name(self@, name@) == Option::Some(v@),
                Option::None => first_with_name(self@, name@) is None,
            },
    {
        let n = self.items.len();
        let mut i: usize = 0;
        while i < n
            invariant
                n == self@.len(),
                0 <= i <= n,
                forall|j: int| 0 <= j < i ==> (#[trigger] self@[j]).0 != name@,
            decreases n - i,
        {
            if bytes_eq(self.items[i].name.as_slice(), name) {
                let v = clone_bytes(&self.items[i].value);
                proof {
                    lemma_first_with_name_at(self@, name@, i as int);
                }
                return Option::Some(v);
            }
            i += 1;
        }
        proof {
            lemma_first_with_name_absent(self@, name@);
        }
        Option::None
    }

    /// The value of the last field named `name`, copied out.
    pub fn get_last(&self, name: &[u8]) -> (r: Option<Vec<u8>>)
        ensures
            match r {
                Option::Some(v) => last_with_name(self@, name@) == Option::Some(v@),
                Option::None => last_with_name(self@, name@) is None,
            },
    {
        let n = self.items.len();
        let mut i: usize = n;
        while i > 0
            invariant
                n == self@.len(),
                0 <= i <= n,
                forall|j: int| i <= j < n ==> (#[trigger] self@[j]).0 != name@,
            decreases i,
        {
            i -= 1;
            if bytes_eq(self.items[i].name.as_slice(), name) {
                let v = clone_bytes(&self.items[i].value);
                proof {
                    lemma_last_with_name_at(self@, name@, i as int);
                }
                return Option::Some(v);
            }
        }
        proof {
            lemma_last_with_name_absent(self@, name@);
        }
        Option::None
    }

    /// Whether any field is named `name`.
    pub fn contains_name(&self, name: &[u8]) -> (r: bool)
        ensures
            r == has_name(self@, name@),
    {
        let n = self.items.len();
        let mut i: usize = 0;
        while i < n
            invariant
                n == self@.len(),
                0 <= i <= n,
                forall|j: int| 0 <= j < i ==> (#[trigger] self@[j]).0 != name@,
            decreases n - i,
        {
            if bytes_eq(self.items[i].name.as_slice(), name) {
                assert(self@[i as int].0 == name@);
                return true;
            }
            i += 1;
        }
        false
    }

    /// Whether every field of the map is well formed.
    pub fn is_wf(&self) -> (r: bool)
        ensures
            r == wf_headers(self@),
    {
        let n = self.items.len();
        let mut i: usize = 0;
        while i < n
            invariant
                n == self@.len(),
                0 <= i <= n,
                forall|j: int| 0 <= j < i ==> wf_header_pair(#[trigger] self@[j]),
            decreases n - i,
        {
            proof {
                assert(self@[i as int] == (self.items@[i as int].name@, self.items@[
                    i as int
                ].value@));
            }
            if !is_wf_name(self.items[i].name.as_slice()) {
                assert(!wf_header_pair(self@[i as int]));
                return false;
            }
            if !is_wf_value(self.items[i].value.as_slice()) {
                assert(!wf_header_pair(self@[i as int]));
                return false;
            }
            assert(wf_header_pair(self@[i as int]));
            i += 1;
        }
        true
    }
}

impl Headers {
    /// Appends a field whose name is already lower-cased, as the parser
    /// produces it.
    pub(crate) fn push_lowered(&mut self, name: Vec<u8>, value: Vec<u8>)
        ensures
            final(self)@ == old(self)@.push((name@, value@)),
    {
        self.items.push(Header { name, value });
        proof {
            assert(final(self)@ =~= old(self)@.push((name@, value@)));
        }
    }
}

impl PartialEq for Headers {
    /// Two maps are equal when they hold the same fields in the same order.
    fn eq(&self, other: &Self) -> (r: bool) {
        let n = self.items.len();
        if n != other.items.len() {
            assert(self@.len() != other@.len());
            return false;
        }
        let mut i: usize = 0;
        while i < n
            invariant
                n == self@.len() == other@.len(),
                0 <= i <= n,
                forall|j: int| 0 <= j < i ==> #[trigger] self@[j] == other@[j],
            decreases n - i,
        {
            if !bytes_eq(self.items[i].name.as_slice(), other.items[i].name.as_slice()) {
                assert(self@[i as int] != other@[i as int]);
                return false;
            }
            if !bytes_eq(self.items[i].value.as_slice(), other.items[i].value.as_slice()) {
                assert(self@[i as int] != other@[i as int]);
                return false;
            }
            assert(self@[i as int] == other@[i as int]);
            i += 1;
        }
        proof {
            assert(self@ =~= other@);
        }
        true
    }
}

impl vstd::std_specs::cmp::PartialEqSpecImpl for Headers {
    open spec fn obeys_eq_spec() -> bool {
        true
    }

    open spec fn eq_spec(&self, other: &Self) -> bool {
        self@ == other@
    }
}

// ---------------------------------------------------------------------------
// Parsing one header line and a block of them.
// ---------------------------------------------------------------------------
/// The outcome of scanning one header line.
pub enum HdrLine {
    /// The line is not complete yet.
    Partial,
    /// The line is malformed: folding, whitespace before the colon, an empty
    /// name, a stray byte in the name, or a bare LF.
    Bad,
    /// A parsed field: lower-cased name, trimmed value, and the index just
    /// past the line's CRLF.
    Line(Seq<u8>, Seq<u8>, int),
}

/// One header line starting at `from`: a non-empty token name, an immediate
/// colon, optional whitespace, the value bytes up to CRLF with trailing
/// whitespace trimmed.
pub open spec fn spec_parse_header_line(s: Seq<u8>, from: int) -> HdrLine {
    let nend = token_end(s, from);
    if nend == from {
        HdrLine::Bad
    } else if nend >= s.len() {
        HdrLine::Partial
    } else if s[nend] != 58 {
        HdrLine::Bad
    } else {
        let vstart = ows_end(s, nend + 1);
        let vend = line_end(s, vstart);
        if vend >= s.len() {
            HdrLine::Partial
        } else if s[vend] == 10 {
            HdrLine::Bad
        } else if vend + 1 >= s.len() {
            HdrLine::Partial
        } else if s[vend + 1] != 10 {
            HdrLine::Bad
        } else {
            HdrLine::Line(
                lower_seq(s.subrange(from, nend)),
                crate::util::trim_back(s.subrange(vstart, vend)),
                vend + 2,
            )
        }
    }
}

/// A complete header line ends past its start and within the input.
pub proof fn lemma_header_line_end_bounds(s: Seq<u8>, from: int)
    requires
        0 <= from <= s.len(),
    ensures
        spec_parse_header_line(s, from) matches HdrLine::Line(_, _, end) ==> from + 2 <= end
            <= s.len(),
{
    lemma_token_end_bounds(s, from);
    let nend = token_end(s, from);
    if from < nend && nend < s.len() {
        lemma_ows_end_bounds(s, nend + 1);
        let vstart = ows_end(s, nend + 1);
        lemma_line_end_bounds(s, vstart);
    }
}

/// The outcome of scanning a header block.
pub enum HdrBlockRes {
    /// The block's terminator has not arrived yet.
    Partial,
    /// Some line of the block is malformed.
    Bad,
    /// The parsed fields in order, and the index just past the blank line
    /// that closes the block.
    Block(Seq<(Seq<u8>, Seq<u8>)>, int),
}

/// A header block starting at `from`: zero or more header lines, closed by
/// an empty line.
pub open spec fn spec_parse_header_block(s: Seq<u8>, from: int) -> HdrBlockRes
    decreases s.len() - from,
    when 0 <= from <= s.len()
{
    if from >= s.len() {
        HdrBlockRes::Partial
    } else if s[from] == 13 {
        if from + 1 >= s.len() {
            HdrBlockRes::Partial
        } else if s[from + 1] == 10 {
            HdrBlockRes::Block(Seq::empty(), from + 2)
        } else {
            HdrBlockRes::Bad
        }
    } else {
        match spec_parse_header_line(s, from) {
            HdrLine::Partial => HdrBlockRes::Partial,
            HdrLine::Bad => HdrBlockRes::Bad,
            HdrLine::Line(n, v, end) => {
                proof {
                    lemma_header_line_end_bounds(s, from);
                }
                match spec_parse_header_block(s, end) {
                    HdrBlockRes::Partial => HdrBlockRes::Partial,
                    HdrBlockRes::Bad => HdrBlockRes::Bad,
                    HdrBlockRes::Block(hs, bend) => HdrBlockRes::Block(seq![(n, v)] + hs, bend),
                }
            },
        }
    }
}

/// A complete block ends past its start and within the input.
pub proof fn lemma_header_block_end_bounds(s: Seq<u8>, from: int)
    requires
        0 <= from <= s.len(),
    ensures
        spec_parse_header_block(s, from) matches HdrBlockRes::Block(_, end) ==> from + 2 <= end
            <= s.len(),
    decreases s.len() - from,
{
    if from < s.len() && s[from] != 13 {
        lemma_header_line_end_bounds(s, from);
        if let HdrLine::Line(_, _, end) = spec_parse_header_line(s, from) {
            lemma_header_block_end_bounds(s, end);
        }
    }
}

/// A scan stops exactly where its characterisation says.
pub proof fn lemma_token_end_is(s: Seq<u8>, from: int, i: int)
    requires
        0 <= from <= i <= s.len(),
        forall|j: int| from <= j < i ==> is_token_byte(s[j]),
        i < s.len() ==> !is_token_byte(s[i]),
    ensures
        token_end(s, from) == i,
    decreases i - from,
{
    if from < i {
        lemma_token_end_is(s, from + 1, i);
    }
}

pub proof fn lemma_ows_end_is(s: Seq<u8>, from: int, i: int)
    requires
        0 <= from <= i <= s.len(),
        forall|j: int| from <= j < i ==> is_ows_byte(s[j]),
        i < s.len() ==> !is_ows_byte(s[i]),
    ensures
        ows_end(s, from) == i,
    decreases i - from,
{
    if from < i {
        lemma_ows_end_is(s, from + 1, i);
    }
}

pub proof fn lemma_line_end_is(s: Seq<u8>, from: int, i: int)
    requires
        0 <= from <= i <= s.len(),
        forall|j: int| from <= j < i ==> s[j] != 13 && s[j] != 10,
        i < s.len() ==> s[i] == 13 || s[i] == 10,
    ensures
        line_end(s, from) == i,
    decreases i - from,
{
    if from < i {
        lemma_line_end_is(s, from + 1, i);
    }
}

// ---------------------------------------------------------------------------
// The head sentinel: the first CRLF CRLF.
// ---------------------------------------------------------------------------
/// Whether the four sentinel bytes stand at `i`.
pub open spec fn crlf2_at(s: Seq<u8>, i: int) -> bool {
    s[i] == 13 && s[i + 1] == 10 && s[i + 2] == 13 && s[i + 3] == 10
}

/// The first index at or after `from` where the sentinel stands, or
/// `s.len()` if it does not occur.
pub open spec fn crlf2_pos(s: Seq<u8>, from: int) -> int
    decreases s.len() - from,
    when 0 <= from <= s.len()
{
    if from + 4 <= s.len() {
        if crlf2_at(s, from) {
            from
        } else {
            crlf2_pos(s, from + 1)
        }
    } else {
        s.len() as int
    }
}

pub proof fn lemma_crlf2_pos_bounds(s: Seq<u8>, from: int)
    requires
        0 <= from <= s.len(),
    ensures
        from <= crlf2_pos(s, from) <= s.len(),
        crlf2_pos(s, from) < s.len() ==> crlf2_pos(s, from) + 4 <= s.len() && crlf2_at(
            s,
            crlf2_pos(s, from),
        ),
        forall|j: int| from <= j < crlf2_pos(s, from) && j + 4 <= s.len() ==> !crlf2_at(s, j),
    decreases s.len() - from,
{
    if from + 4 <= s.len() && !crlf2_at(s, from) {
        lemma_crlf2_pos_bounds(s, from + 1);
    }
}

/// The scan for the sentinel stops exactly where its characterisation says.
pub proof fn lemma_crlf2_pos_is(s: Seq<u8>, from: int, i: int)
    requires
        0 <= from <= i,
        i + 4 <= s.len(),
        crlf2_at(s, i),
        forall|j: int| from <= j < i ==> !crlf2_at(s, j),
    ensures
        crlf2_pos(s, from) == i,
    decreases i - from,
{
    if from < i {
        lemma_crlf2_pos_is(s, from + 1, i);
    }
}

/// A non-empty serialised field list ends with the CRLF of its last line.
pub proof fn lemma_serialize_headers_ends_crlf(hs: Seq<(Seq<u8>, Seq<u8>)>)
    requires
        hs.len() > 0,
    ensures
        spec_serialize_headers(hs).len() >= 2,
        spec_serialize_headers(hs)[spec_serialize_headers(hs).len() - 2] == 13,
        spec_serialize_headers(hs)[spec_serialize_headers(hs).len() - 1] == 10,
    decreases hs.len(),
{
    let line = hdr_line_bytes(hs[0]);
    let rest = spec_serialize_headers(hs.drop_first());
    assert(spec_serialize_headers(hs) == line + rest);
    if hs.len() == 1 {
        assert(hs.drop_first().len() == 0);
        assert(rest.len() == 0);
        let ll = line.len() as int;
        assert(line[ll - 2] == 13 && line[ll - 1] == 10);
        assert((line + rest)[ll - 2] == line[ll - 2]);
        assert((line + rest)[ll - 1] == line[ll - 1]);
    } else {
        lemma_serialize_headers_ends_crlf(hs.drop_first());
        let t = (line + rest).len() as int;
        assert((line + rest)[t - 2] == rest[rest.len() - 2]);
        assert((line + rest)[t - 1] == rest[rest.len() - 1]);
    }
}

/// Finds the first occurrence of the sentinel, or the length.
pub fn find_crlf2(s: &[u8]) -> (r: usize)
    ensures
        r == crlf2_pos(s@, 0),
{
    let len = s.len();
    let mut i: usize = 0;
    loop
        invariant
            0 <= i <= len,
            len == s@.len(),
            crlf2_pos(s@, 0) == crlf2_pos(s@, i as int),
        decreases len - i,
    {
        if len < 4 || i > len - 4 {
            proof {
                assert(crlf2_pos(s@, i as int) == s@.len());
            }
            return len;
        }
        if s[i] == 13 && s[i + 1] == 10 && s[i + 2] == 13 && s[i + 3] == 10 {
            return i;
        }
        i += 1;
    }
}

// ---------------------------------------------------------------------------
// Serialising header fields.
// ---------------------------------------------------------------------------
/// One serialised header field: `name: value` and CRLF.
pub open spec fn hdr_line_bytes(h: (Seq<u8>, Seq<u8>)) -> Seq<u8> {
    h.0 + seq![58u8, 32u8] + h.1 + seq![13u8, 10u8]
}

/// All fields serialised in order, duplicates preserved.
pub open spec fn spec_serialize_headers(hs: Seq<(Seq<u8>, Seq<u8>)>) -> Seq<u8>
    decreases hs.len(),
{
    if hs.len() == 0 {
        Seq::empty()
    } else {
        hdr_line_bytes(hs[0]) + spec_serialize_headers(hs.drop_first())
    }
}

/// Serialising one more field appends one more line.
pub proof fn lemma_serialize_headers_snoc(hs: Seq<(Seq<u8>, Seq<u8>)>, i: int)
    requires
        0 <= i < hs.len(),
    ensures
        spec_serialize_headers(hs.take(i + 1)) == spec_serialize_headers(hs.take(i))
            + hdr_line_bytes(hs[i]),
    decreases i,
{
    if i == 0 {
        let t1 = hs.take(1);
        assert(t1[0] == hs[0]);
        assert(t1.drop_first() =~= Seq::<(Seq<u8>, Seq<u8>)>::empty());
        assert(hs.take(0) =~= Seq::<(Seq<u8>, Seq<u8>)>::empty());
        assert(spec_serialize_headers(Seq::<(Seq<u8>, Seq<u8>)>::empty()) =~= Seq::<u8>::empty());
        assert(spec_serialize_headers(t1) =~= hdr_line_bytes(hs[0]));
        assert(spec_serialize_headers(hs.take(0)) + hdr_line_bytes(hs[0]) =~= hdr_line_bytes(
            hs[0],
        ));
    } else {
        let df = hs.drop_first();
        lemma_serialize_headers_snoc(df, i - 1);
        assert(hs.take(i + 1).drop_first() =~= df.take(i));
        assert(hs.take(i).drop_first() =~= df.take(i - 1));
        assert(hs.take(i + 1)[0] == hs[0]);
        assert(hs.take(i)[0] == hs[0]);
        assert(df[i - 1] == hs[i]);
        assert(hdr_line_bytes(hs[0]) + (spec_serialize_headers(df.take(i - 1)) + hdr_line_bytes(
            hs[i],
        )) =~= (hdr_line_bytes(hs[0]) + spec_serialize_headers(df.take(i - 1))) + hdr_line_bytes(
            hs[i],
        ));
    }
}

/// Appends the bytes of `s` to `out`.
pub fn append_bytes(out: &mut Vec<u8>, s: &[u8])
    ensures
        final(out)@ == old(out)@ + s@,
{
    let n = s.len();
    let mut i: usize = 0;
    while i < n
        invariant
            0 <= i <= n,
            n == s@.len(),
            out@ == old(out)@ + s@.take(i as int),
        decreases n - i,
    {
        proof {
            assert((old(out)@ + s@.take(i as int)).push(s@[i as int]) =~= old(out)@ + s@.take(
                i + 1,
            ));
        }
        out.push(s[i]);
        i += 1;
    }
    proof {
        assert(s@.take(n as int) =~= s@);
    }
}

/// Appends every field of `h` to `out`, each as `name: value` and CRLF.
pub fn serialize_headers_into(out: &mut Vec<u8>, h: &Headers)
    ensures
        final(out)@ == old(out)@ + spec_serialize_headers(h@),
{
    let n = h.len();
    let mut i: usize = 0;
    proof {
        assert(h@.take(0) =~= Seq::<(Seq<u8>, Seq<u8>)>::empty());
        assert(old(out)@ + spec_serialize_headers(h@.take(0)) =~= old(out)@);
    }
    while i < n
        invariant
            0 <= i <= n,
            n == h@.len(),
            out@ == old(out)@ + spec_serialize_headers(h@.take(i as int)),
        decreases n - i,
    {
        let ghost before = out@;
        append_bytes(out, h.name_at(i).as_slice());
        out.push(58);
        out.push(32);
        append_bytes(out, h.value_at(i).as_slice());
        out.push(13);
        out.push(10);
        proof {
            lemma_serialize_headers_snoc(h@, i as int);
            assert(out@ =~= before + hdr_line_bytes(h@[i as int]));
            assert(out@ =~= old(out)@ + spec_serialize_headers(h@.take(i + 1)));
        }
        i += 1;
    }
    proof {
        assert(h@.take(n as int) =~= h@);
    }
}

/// Lower-casing a name that is already lower case changes nothing.
pub proof fn lemma_lower_ident(n: Seq<u8>)
    requires
        forall|i: int| 0 <= i < n.len() ==> !(65 <= #[trigger] n[i] <= 90),
    ensures
        lower_seq(n) == n,
{
    assert(lower_seq(n) =~= n);
}

/// Parsing a serialised block gives the fields back: for well-formed
/// fields, writing them out and closing the block with a blank line is
/// inverted exactly by the block parser.
#[verifier::spinoff_prover]
#[verifier::rlimit(100)]
pub proof fn lemma_header_block_round_trip(s: Seq<u8>, from: int, hs: Seq<(Seq<u8>, Seq<u8>)>)
    requires
        0 <= from <= s.len(),
        wf_headers(hs),
        s.skip(from) == spec_serialize_headers(hs) + seq![13u8, 10u8],
    ensures
        spec_parse_header_block(s, from) == HdrBlockRes::Block(hs, s.len() as int),
    decreases hs.len(),
{
    let tail = s.skip(from);
    assert(forall|j: int| 0 <= j < tail.len() ==> tail[j] == s[from + j]);
    if hs.len() == 0 {
        assert(tail =~= seq![13u8, 10u8]);
        assert(s[from] == 13 && s[from + 1] == 10);
        assert(from + 2 == s.len());
        assert(hs =~= Seq::<(Seq<u8>, Seq<u8>)>::empty());
        assert(spec_parse_header_block(s, from) == HdrBlockRes::Block(
            Seq::<(Seq<u8>, Seq<u8>)>::empty(),
            from + 2,
        ));
    } else {
        let h0 = hs[0];
        let rest = hs.drop_first();
        let nl = h0.0.len() as int;
        let vl = h0.1.len() as int;
        let line = hdr_line_bytes(h0);
        assert(wf_header_pair(h0));
        assert(line.len() == nl + vl + 4);
        assert(spec_serialize_headers(hs) == line + spec_serialize_headers(rest));
        let serrest = spec_serialize_headers(rest) + seq![13u8, 10u8];
        assert(tail =~= line + serrest);
        assert(tail.len() >= line.len() + 2);
        // where each byte of the line stands
        assert forall|j: int| from <= j < from + nl implies s[j] == h0.0[j - from] by {
            assert(tail[j - from] == s[j]);
            assert(tail[j - from] == line[j - from]);
            assert(line[j - from] == h0.0[j - from]);
        }
        assert(s[from + nl] == 58) by {
            assert(tail[nl] == line[nl]);
        }
        assert(s[from + nl + 1] == 32) by {
            assert(tail[nl + 1] == line[nl + 1]);
        }
        assert forall|j: int| from + nl + 2 <= j < from + nl + 2 + vl implies s[j] == h0.1[
            j - (from + nl + 2)
        ] by {
            assert(tail[j - from] == s[j]);
            assert(tail[j - from] == line[j - from]);
            assert(line[j - from] == h0.1[j - from - nl - 2]);
        }
        assert(s[from + nl + 2 + vl] == 13) by {
            assert(tail[nl + 2 + vl] == line[nl + 2 + vl]);
        }
        assert(s[from + nl + 3 + vl] == 10) by {
            assert(tail[nl + 3 + vl] == line[nl + 3 + vl]);
        }
        // the line parser recovers the name, the value, and the line's end
        assert forall|j: int| from <= j < from + nl implies is_token_byte(s[j]) by {
            assert(s[j] == h0.0[j - from]);
        }
        assert(is_token_byte(s[from]) && s[from] != 13) by {
            assert(s[from] == h0.0[0]);
        }
        lemma_token_end_is(s, from, from + nl);
        assert(!is_ows_byte(s[from + nl + 2])) by {
            if vl > 0 {
                assert(s[from + nl + 2] == h0.1[0]);
            }
        }
        lemma_ows_end_is(s, from + nl + 1, from + nl + 2);
        assert forall|j: int| from + nl + 2 <= j < from + nl + 2 + vl implies s[j] != 13 && s[j]
            != 10 by {
            assert(s[j] == h0.1[j - (from + nl + 2)]);
        }
        lemma_line_end_is(s, from + nl + 2, from + nl + 2 + vl);
        let nend = from + nl;
        let vstart = from + nl + 2;
        let vend = vstart + vl;
        assert forall|j: int| 0 <= j < nl implies s.subrange(from, nend)[j] == h0.0[j] by {
            assert(s.subrange(from, nend)[j] == s[from + j]);
        }
        assert(s.subrange(from, nend) =~= h0.0);
        lemma_lower_ident(h0.0);
        assert forall|j: int| 0 <= j < vl implies s.subrange(vstart, vend)[j] == h0.1[j] by {
            assert(s.subrange(vstart, vend)[j] == s[vstart + j]);
        }
        assert(s.subrange(vstart, vend) =~= h0.1);
        assert(crate::util::trim_back(h0.1) == h0.1);
        assert(spec_parse_header_line(s, from) == HdrLine::Line(h0.0, h0.1, vend + 2));
        // the rest of the block is the serialisation of the remaining fields
        let from2 = vend + 2;
        assert forall|j: int| 0 <= j < s.len() - from2 implies s.skip(from2)[j] == serrest[j] by {
            assert(s.skip(from2)[j] == s[from2 + j]);
            assert(tail[line.len() + j] == serrest[j]);
            assert(s[from2 + j] == tail[line.len() + j]);
        }
        assert(s.skip(from2) =~= serrest);
        assert(wf_headers(rest)) by {
            assert(forall|i: int|
                0 <= i < rest.len() ==> rest[i] == hs[i + 1] && wf_header_pair(#[trigger] hs[
                    i + 1
                ]));
        }
        lemma_header_block_round_trip(s, from2, rest);
        assert(spec_parse_header_block(s, from2) == HdrBlockRes::Block(rest, s.len() as int));
        assert(seq![(h0.0, h0.1)] + rest =~= hs);
        assert((h0.0, h0.1) == h0);
        assert(s[from] != 13);
        assert(spec_parse_header_block(s, from) == HdrBlockRes::Block(
            seq![(h0.0, h0.1)] + rest,
            s.len() as int,
        ));
    }
}

/// A serialised block holds no sentinel before its own closing one, so a
/// scan for the sentinel runs to the block's end.
pub proof fn lemma_block_no_early_sentinel(s: Seq<u8>, from: int, hs: Seq<(Seq<u8>, Seq<u8>)>)
    requires
        0 <= from <= s.len(),
        wf_headers(hs),
        s.skip(from) == spec_serialize_headers(hs) + seq![13u8, 10u8],
    ensures
        forall|j: int| from <= j < s.len() - 4 ==> !crlf2_at(s, j),
    decreases hs.len(),
{
    let tail = s.skip(from);
    assert(forall|j: int| 0 <= j < tail.len() ==> tail[j] == s[from + j]);
    if hs.len() == 0 {
        assert(tail =~= seq![13u8, 10u8]);
        assert(s.len() == from + 2);
    } else {
        let h0 = hs[0];
        let rest = hs.drop_first();
        let nl = h0.0.len() as int;
        let vl = h0.1.len() as int;
        let line = hdr_line_bytes(h0);
        assert(wf_header_pair(h0));
        assert(line.len() == nl + vl + 4);
        assert(spec_serialize_headers(hs) == line + spec_serialize_headers(rest));
        let serrest = spec_serialize_headers(rest) + seq![13u8, 10u8];
        assert(tail =~= line + serrest);
        let from2 = from + nl + vl + 4;
        assert forall|j: int| 0 <= j < s.len() - from2 implies s.skip(from2)[j] == serrest[j] by {
            assert(s.skip(from2)[j] == s[from2 + j]);
            assert(tail[line.len() + j] == serrest[j]);
            assert(s[from2 + j] == tail[line.len() + j]);
        }
        assert(s.skip(from2) =~= serrest);
        assert(wf_headers(rest)) by {
            assert(forall|i: int|
                0 <= i < rest.len() ==> rest[i] == hs[i + 1] && wf_header_pair(#[trigger] hs[
                    i + 1
                ]));
        }
        lemma_block_no_early_sentinel(s, from2, rest);
        // the line holds exactly one CR, just before its LF
        let cr = from + nl + 2 + vl;
        assert forall|j: int| from <= j < from2 && j != cr implies s[j] != 13 by {
            assert(tail[j - from] == s[j]);
            assert(tail[j - from] == line[j - from]);
            if j - from < nl {
                assert(line[j - from] == h0.0[j - from]);
                assert(is_token_byte(h0.0[j - from]));
            } else if j - from == nl {
            } else if j - from == nl + 1 {
            } else if j < cr {
                assert(line[j - from] == h0.1[j - from - nl - 2]);
            } else {
                assert(j - from == nl + 3 + vl);
            }
        }
        // two past that CR begins the next line or the closing sentinel
        if rest.len() > 0 {
            assert(s[from2] == serrest[0]) by {
                assert(s.skip(from2)[0] == s[from2]);
            }
            assert(serrest[0] == hdr_line_bytes(rest[0])[0]);
            assert(hdr_line_bytes(rest[0])[0] == rest[0].0[0]);
            assert(wf_header_pair(rest[0])) by {
                assert(rest[0] == hs[1]);
                assert(wf_header_pair(hs[1]));
            }
            assert(is_token_byte(s[from2]));
            assert(s[cr + 2] != 13);
        } else {
            assert(s.len() == from2 + 2);
            assert(cr == s.len() - 4);
        }
        assert forall|j: int| from <= j < s.len() - 4 implies !crlf2_at(s, j) by {
            if j < from2 {
                if j != cr {
                    assert(s[j] != 13);
                } else {
                    assert(rest.len() > 0);
                    assert(s[j + 2] != 13);
                }
            }
        }
    }
}

/// Parses one header line; `r` reports exactly what the specification says
/// of the bytes at `from`.
pub(crate) enum LineParse {
    Partial,
    Bad,
    Line(Vec<u8>, Vec<u8>, usize),
}

pub(crate) fn parse_header_line(s: &[u8], from: usize) -> (r: LineParse)
    requires
        from <= s@.len(),
    ensures
        match r {
            LineParse::Partial => spec_parse_header_line(s@, from as int) is Partial,
            LineParse::Bad => spec_parse_header_line(s@, from as int) is Bad,
            LineParse::Line(n, v, e) => spec_parse_header_line(s@, from as int) == HdrLine::Line(
                n@,
                v@,
                e as int,
            ),
        },
{
    let len = s.len();
    let mut k = from;
    while k < len && is_token_byte_ex(s[k])
        invariant
            from <= k <= len,
            len == s@.len(),
            token_end(s@, from as int) == token_end(s@, k as int),
        decreases len - k,
    {
        k += 1;
    }
    proof {
        assert(token_end(s@, k as int) == k);
    }
    if k == from {
        return LineParse::Bad;
    }
    if k == len {
        return LineParse::Partial;
    }
    if s[k] != 58 {
        return LineParse::Bad;
    }
    let mut vstart = k + 1;
    while vstart < len && (s[vstart] == 32 || s[vstart] == 9)
        invariant
            k + 1 <= vstart <= len,
            len == s@.len(),
            ows_end(s@, k + 1) == ows_end(s@, vstart as int),
        decreases len - vstart,
    {
        vstart += 1;
    }
    proof {
        assert(ows_end(s@, vstart as int) == vstart);
    }
    let mut vend = vstart;
    while vend < len && s[vend] != 13 && s[vend] != 10
        invariant
            vstart <= vend <= len,
            len == s@.len(),
            line_end(s@, vstart as int) == line_end(s@, vend as int),
        decreases len - vend,
    {
        vend += 1;
    }
    proof {
        assert(line_end(s@, vend as int) == vend);
    }
    if vend == len {
        return LineParse::Partial;
    }
    if s[vend] == 10 {
        return LineParse::Bad;
    }
    if vend + 1 == len {
        return LineParse::Partial;
    }
    if s[vend + 1] != 10 {
        return LineParse::Bad;
    }
    let (a, b2) = crate::util::trim_bounds(s, vstart, vend);
    proof {
        let seg = s@.subrange(vstart as int, vend as int);
        if seg.len() > 0 {
            assert(seg[0] == s@[vstart as int]);
            assert(!is_ows_byte(seg[0]));
        }
        assert(crate::util::trim_front(seg) == seg);
        assert(crate::util::trim_ows(seg) == crate::util::trim_back(seg));
    }
    let name = lower_bytes(vstd::slice::slice_subrange(s, from, k));
    let value = vstd::slice::slice_to_vec(vstd::slice::slice_subrange(s, a, b2));
    LineParse::Line(name, value, vend + 2)
}

/// Parses a header block; `Ok(None)` while the terminator is missing,
/// `Ok(Some((fields, end)))` on success, `MalformedHead` on a bad line.
pub fn parse_header_block(s: &[u8], from: usize) -> (r: Result<
    Option<(Headers, usize)>,
    crate::error::HttpError,
>)
    requires
        from <= s@.len(),
    ensures
        match r {
            Ok(Option::None) => spec_parse_header_block(s@, from as int) is Partial,
            Ok(Option::Some((h, e))) => spec_parse_header_block(s@, from as int)
                == HdrBlockRes::Block(h@, e as int),
            Err(e) => e == crate::error::HttpError::MalformedHead && spec_parse_header_block(
                s@,
                from as int,
            ) is Bad,
        },
{
    let len = s.len();
    let mut pos = from;
    let mut acc = Headers::new();
    loop
        invariant
            from <= pos <= len,
            len == s@.len(),
            match spec_parse_header_block(s@, pos as int) {
                HdrBlockRes::Partial => spec_parse_header_block(s@, from as int) is Partial,
                HdrBlockRes::Bad => spec_parse_header_block(s@, from as int) is Bad,
                HdrBlockRes::Block(hs, end) => spec_parse_header_block(s@, from as int)
                    == HdrBlockRes::Block(acc@ + hs, end),
            },
        decreases len - pos,
    {
        if pos == len {
            return Ok(Option::None);
        }
        if s[pos] == 13 {
            if pos + 1 == len {
                return Ok(Option::None);
            }
            if s[pos + 1] == 10 {
                proof {
                    assert(acc@ + Seq::<(Seq<u8>, Seq<u8>)>::empty() =~= acc@);
                }
                return Ok(Option::Some((acc, pos + 2)));
            }
            return Err(crate::error::HttpError::MalformedHead);
        }
        match parse_header_line(s, pos) {
            LineParse::Partial => {
                return Ok(Option::None);
            },
            LineParse::Bad => {
                return Err(crate::error::HttpError::MalformedHead);
            },
            LineParse::Line(name, value, end) => {
                proof {
                    lemma_header_line_end_bounds(s@, pos as int);
                }
                let ghost n0 = name@;
                let ghost v0 = value@;
                let ghost acc0 = acc@;
                acc.push_lowered(name, value);
                proof {
                    if let HdrBlockRes::Block(hs, e2) = spec_parse_header_block(s@, end as int) {
                        assert(acc0.push((n0, v0)) + hs =~= acc0 + (seq![(n0, v0)] + hs));
                    }
                }
                pos = end;
            },
        }
    }
}

} // verus!
