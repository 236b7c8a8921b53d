//! Character-level recognizers shared by the listing and the detail parsers.
//!
//! Every recognizer works on a sequence of characters and a position in it,
//! and is described by a spec function over `Seq<char>`.
use vstd::prelude::*;
use vstd::string::*;
use crate::errors::ParseError;

verus! {

/// ASCII letter or decimal digit.
pub open spec fn is_alnum(c: char) -> bool {
    ('0' <= c && c <= '9') || ('a' <= c && c <= 'z') || ('A' <= c && c <= 'Z')
}

pub open spec fn is_digit(c: char) -> bool {
    '0' <= c && c <= '9'
}

/// Horizontal white space: space or tab.
pub open spec fn is_space(c: char) -> bool {
    c == ' ' || c == '\t'
}

/// Space, tab, carriage return or line feed.
pub open spec fn is_multispace(c: char) -> bool {
    c == ' ' || c == '\t' || c == '\r' || c == '\n'
}

pub fn alnum(c: char) -> (r: bool)
    ensures
        r == is_alnum(c),
{
    ('0' <= c && c <= '9') || ('a' <= c && c <= 'z') || ('A' <= c && c <= 'Z')
}

/// End of the longest run of characters satisfying `p` that starts at `i`.
pub open spec fn run_end(t: Seq<char>, i: int, p: spec_fn(char) -> bool) -> int
    decreases t.len() - i,
{
    if 0 <= i < t.len() && p(t[i]) {
        run_end(t, i + 1, p)
    } else {
        i
    }
}

pub proof fn lemma_run_end_bounds(t: Seq<char>, i: int, p: spec_fn(char) -> bool)
    requires
        0 <= i <= t.len(),
    ensures
        i <= run_end(t, i, p) <= t.len(),
        forall|k: int| i <= k < run_end(t, i, p) ==> p(#[trigger] t[k]),
        run_end(t, i, p) < t.len() ==> !p(t[run_end(t, i, p)]),
    decreases t.len() - i,
{
    if i < t.len() && p(t[i]) {
        lemma_run_end_bounds(t, i + 1, p);
    }
}

pub open spec fn space_end(t: Seq<char>, i: int) -> int {
    run_end(t, i, |c: char| is_space(c))
}

pub open spec fn multispace_end(t: Seq<char>, i: int) -> int {
    run_end(t, i, |c: char| is_multispace(c))
}

/// Position of the first line feed at or after `i`, or the end of `t`.
pub open spec fn line_end(t: Seq<char>, i: int) -> int {
    run_end(t, i, |c: char| c != '\n')
}

/// Skips spaces and tabs.
pub fn skip_space(t: &Vec<char>, i: usize) -> (r: usize)
    requires
        i <= t@.len(),
    ensures
        r == space_end(t@, i as int),
        i <= r <= t@.len(),
{
    let mut j = i;
    while j < t.len() && (t[j] == ' ' || t[j] == '\t')
        invariant
            i <= j <= t@.len(),
            space_end(t@, j as int) == space_end(t@, i as int),
        decreases t@.len() - j,
    {
        j = j + 1;
    }
    j
}

/// Skips spaces, tabs, carriage returns and line feeds.
pub fn skip_multispace(t: &Vec<char>, i: usize) -> (r: usize)
    requires
        i <= t@.len(),
    ensures
        r == multispace_end(t@, i as int),
        i <= r <= t@.len(),
{
    let mut j = i;
    while j < t.len() && (t[j] == ' ' || t[j] == '\t' || t[j] == '\r' || t[j] == '\n')
        invariant
            i <= j <= t@.len(),
            multispace_end(t@, j as int) == multispace_end(t@, i as int),
        decreases t@.len() - j,
    {
        j = j + 1;
    }
    j
}

/// Position of the next line feed, or the end of the text.
pub fn find_line_end(t: &Vec<char>, i: usize) -> (r: usize)
    requires
        i <= t@.len(),
    ensures
        r == line_end(t@, i as int),
        i <= r <= t@.len(),
{
    let mut j = i;
    while j < t.len() && t[j] != '\n'
        invariant
            i <= j <= t@.len(),
            line_end(t@, j as int) == line_end(t@, i as int),
        decreases t@.len() - j,
    {
        j = j + 1;
    }
    j
}

/// End of an identifier whose last character so far is the alphanumeric one
/// just before `j`: alphanumerics extend it, and so does a hyphen that is
/// directly followed by an alphanumeric.
pub open spec fn ident_scan(t: Seq<char>, j: int) -> int
    decreases t.len() - j,
{
    if 0 <= j < t.len() && is_alnum(t[j]) {
        ident_scan(t, j + 1)
    } else if 0 <= j && j + 1 < t.len() && t[j] == '-' && is_alnum(t[j + 1]) {
        ident_scan(t, j + 2)
    } else {
        j
    }
}

/// End of the longest identifier that starts at `i`: one or more runs of
/// alphanumerics joined by single hyphens. `None` when `t[i]` is not
/// alphanumeric.
pub open spec fn ident_end(t: Seq<char>, i: int) -> Option<int> {
    if 0 <= i < t.len() && is_alnum(t[i]) {
        Some(ident_scan(t, i + 1))
    } else {
        None
    }
}

/// A whole identifier: non-empty, alphanumerics and hyphens, no hyphen at
/// either end and no two hyphens in a row.
pub open spec fn is_identifier(s: Seq<char>) -> bool {
    &&& s.len() > 0
    &&& forall|k: int| 0 <= k < s.len() ==> is_alnum(#[trigger] s[k]) || s[k] == '-'
    &&& is_alnum(s[0])
    &&& is_alnum(s[s.len() - 1])
    &&& forall|k: int| 0 <= k < s.len() - 1 && #[trigger] s[k] == '-' ==> is_alnum(s[k + 1])
}

pub proof fn lemma_ident_scan_bounds(t: Seq<char>, j: int)
    requires
        0 <= j <= t.len(),
    ensures
        j <= ident_scan(t, j) <= t.len(),
    decreases t.len() - j,
{
    if j < t.len() && is_alnum(t[j]) {
        lemma_ident_scan_bounds(t, j + 1);
    } else if j + 1 < t.len() && t[j] == '-' && is_alnum(t[j + 1]) {
        lemma_ident_scan_bounds(t, j + 2);
    }
}

/// Recognizes the longest identifier at `i`.
pub fn lex_identifier(t: &Vec<char>, i: usize) -> (r: Option<usize>)
    requires
        i <= t@.len(),
    ensures
        r is None <==> ident_end(t@, i as int) is None,
        r matches Some(e) ==> ident_end(t@, i as int) == Some(e as int) && i < e <= t@.len(),
{
    if i < t.len() && alnum(t[i]) {
        let mut j = i + 1;
        while j < t.len() && (alnum(t[j]) || (j + 1 < t.len() && t[j] == '-' && alnum(t[j + 1])))
            invariant
                i < j <= t@.len(),
                ident_scan(t@, j as int) == ident_scan(t@, i as int + 1),
            decreases t@.len() - j,
        {
            if alnum(t[j]) {
                j = j + 1;
            } else {
                j = j + 2;
            }
        }
        Some(j)
    } else {
        None
    }
}

/// The characters of `s`, in order.
pub fn chars_of(s: &str) -> (v: Vec<char>)
    ensures
        v@ == s@,
{
    let mut v: Vec<char> = Vec::new();
    for c in it: s.chars()
        invariant
            v@ == it.seq().subrange(0, it.index() as int),
    {
        v.push(c);
    }
    v
}

} // verus!

verus! {

/// The text of `s` between character positions `i` and `j`.
pub fn text_between(s: &str, i: usize, j: usize) -> (r: String)
    requires
        i <= j <= s@.len(),
    ensures
        r@ == s@.subrange(i as int, j as int),
{
    String::from_str(s.substring_char(i, j))
}

/// The rest of `s` from character position `i`.
pub fn rest_of<'a>(s: &'a str, i: usize, len: usize) -> (r: &'a str)
    requires
        i <= len,
        len == s@.len(),
    ensures
        r@ == s@.subrange(i as int, s@.len() as int),
{
    s.substring_char(i, len)
}

} // verus!

verus! {

/// `p` occurs in `t` at position `k`.
pub open spec fn occurs_at(t: Seq<char>, k: int, p: Seq<char>) -> bool {
    0 <= k && k + p.len() <= t.len() && t.subrange(k, k + p.len()) == p
}

/// First position at or after `i` where `p` occurs.
pub open spec fn find_spec(t: Seq<char>, i: int, p: Seq<char>) -> Option<int>
    decreases t.len() + 1 - i,
{
    if i < 0 || i + p.len() > t.len() {
        None
    } else if occurs_at(t, i, p) {
        Some(i)
    } else {
        find_spec(t, i + 1, p)
    }
}

/// Whether `p` occurs in `t` at `k`.
pub fn matches_at(t: &Vec<char>, k: usize, p: &Vec<char>) -> (r: bool)
    ensures
        r == occurs_at(t@, k as int, p@),
{
    if k > t.len() || p.len() > t.len() - k {
        return false;
    }
    let mut m: usize = 0;
    while m < p.len()
        invariant
            k + p@.len() <= t.len(),
            m <= p@.len(),
            forall|q: int| 0 <= q < m ==> t@[k + q] == p@[q],
        decreases p@.len() - m,
    {
        if t[k + m] != p[m] {
            proof {
                assert(t@.subrange(k as int, k + p@.len())[m as int] != p@[m as int]);
            }
            return false;
        }
        m = m + 1;
    }
    proof {
        assert(t@.subrange(k as int, k + p@.len()) =~= p@);
    }
    true
}

/// First position at or after `i` where `p` occurs.
pub fn find(t: &Vec<char>, i: usize, p: &Vec<char>) -> (r: Option<usize>)
    requires
        i <= t@.len(),
    ensures
        r is None <==> find_spec(t@, i as int, p@) is None,
        r matches Some(k) ==> find_spec(t@, i as int, p@) == Some(k as int) && i <= k && k
            + p@.len() <= t@.len(),
{
    if p.len() > t.len() - i {
        return None;
    }
    let last = t.len() - p.len();
    let mut k = i;
    loop
        invariant
            i <= k <= last,
            last + p@.len() == t@.len(),
            find_spec(t@, k as int, p@) == find_spec(t@, i as int, p@),
        decreases last - k,
    {
        if matches_at(t, k, p) {
            return Some(k);
        }
        if k == last {
            assert(find_spec(t@, k + 1, p@) is None);
            return None;
        }
        k = k + 1;
    }
}

/// Unicode white space, as `char::is_whitespace` defines it.
pub open spec fn is_white(c: char) -> bool {
    ('\t' <= c && c <= '\r') || c == ' ' || c == '\u{85}' || c == '\u{a0}' || c == '\u{1680}'
        || ('\u{2000}' <= c && c <= '\u{200a}') || c == '\u{2028}' || c == '\u{2029}' || c
        == '\u{202f}' || c == '\u{205f}' || c == '\u{3000}'
}

pub fn white(c: char) -> (r: bool)
    ensures
        r == is_white(c),
{
    ('\t' <= c && c <= '\r') || c == ' ' || c == '\u{85}' || c == '\u{a0}' || c == '\u{1680}'
        || ('\u{2000}' <= c && c <= '\u{200a}') || c == '\u{2028}' || c == '\u{2029}' || c
        == '\u{202f}' || c == '\u{205f}' || c == '\u{3000}'
}

/// End of `t[a..b]` once trailing white space is removed.
pub open spec fn trim_end_spec(t: Seq<char>, a: int, b: int) -> int
    decreases b - a,
{
    if a < b && is_white(t[b - 1]) {
        trim_end_spec(t, a, b - 1)
    } else {
        b
    }
}

pub fn trim_end_at(t: &Vec<char>, a: usize, b: usize) -> (r: usize)
    requires
        a <= b <= t@.len(),
    ensures
        r == trim_end_spec(t@, a as int, b as int),
        a <= r <= b,
{
    let mut e = b;
    while a < e && white(t[e - 1])
        invariant
            a <= e <= b,
            b <= t@.len(),
            trim_end_spec(t@, a as int, e as int) == trim_end_spec(t@, a as int, b as int),
        decreases e - a,
    {
        e = e - 1;
    }
    e
}

} // verus!

verus! {

/// Recognizes the longest identifier at the start of `s`; gives the rest of
/// the input and the identifier.
pub fn alphanumeric1_with_hyphen(s: &str) -> (r: Result<(&str, &str), ParseError>)
    ensures
        r is Err <==> ident_end(s@, 0) is None,
        r matches Ok((rest, id)) ==> ident_end(s@, 0) matches Some(e) && id@ == s@.subrange(0, e)
            && rest@ == s@.subrange(e, s@.len() as int),
        r matches Err(err) ==> err.offset == 0,
{
    let t = chars_of(s);
    match lex_identifier(&t, 0) {
        Some(e) => Ok((s.substring_char(e, t.len()), s.substring_char(0, e))),
        None => Err(ParseError { offset: 0 }),
    }
}

} // verus!

verus! {

proof fn lemma_scan_whole(t: Seq<char>, j: int)
    requires
        1 <= j <= t.len(),
        is_identifier(t.subrange(0, j)),
    ensures
        ident_scan(t, j) == t.len() <==> is_identifier(t),
    decreases t.len() - j,
{
    let p = t.subrange(0, j);
    assert(p[j - 1] == t[j - 1]);
    if j < t.len() && is_alnum(t[j]) {
        let q = t.subrange(0, j + 1);
        assert forall|k: int| 0 <= k < q.len() implies is_alnum(#[trigger] q[k]) || q[k] == '-' by {
            if k < j {
                assert(q[k] == p[k]);
            }
        }
        assert forall|k: int| 0 <= k < q.len() - 1 && #[trigger] q[k] == '-' implies is_alnum(
            q[k + 1],
        ) by {
            assert(q[k] == p[k]);
            if k + 1 < j {
                assert(q[k + 1] == p[k + 1]);
            }
        }
        assert(q[0] == p[0]);
        lemma_scan_whole(t, j + 1);
    } else if j + 1 < t.len() && t[j] == '-' && is_alnum(t[j + 1]) {
        let q = t.subrange(0, j + 2);
        assert forall|k: int| 0 <= k < q.len() implies is_alnum(#[trigger] q[k]) || q[k] == '-' by {
            if k < j {
                assert(q[k] == p[k]);
            }
        }
        assert forall|k: int| 0 <= k < q.len() - 1 && #[trigger] q[k] == '-' implies is_alnum(
            q[k + 1],
        ) by {
            if k < j {
                assert(q[k] == p[k]);
                if k + 1 < j {
                    assert(q[k + 1] == p[k + 1]);
                }
            }
        }
        assert(q[0] == p[0]);
        lemma_scan_whole(t, j + 2);
    } else {
        if j == t.len() {
            assert(p =~= t);
        } else {
            // the character at j stops the scan, so `t` is no identifier
            if is_identifier(t) {
                assert(is_alnum(t[j]) || t[j] == '-');
                if t[j] == '-' {
                    assert(j < t.len() - 1);
                }
            }
        }
    }
}

/// Whether the whole of `s` is one identifier: runs of ASCII alphanumerics
/// joined by single hyphens.
pub fn identifier(s: &str) -> (r: bool)
    ensures
        r == is_identifier(s@),
{
    let t = chars_of(s);
    match lex_identifier(&t, 0) {
        Some(e) => {
            proof {
                let p = t@.subrange(0, 1);
                assert(p[0] == t@[0]);
                lemma_scan_whole(t@, 1);
            }
            e == t.len()
        },
        None => {
            proof {
                if is_identifier(s@) {
                    assert(is_alnum(t@[0]));
                }
            }
            false
        },
    }
}

} // verus!

verus! {

/// `m` after optional white space (line feeds included), followed by
/// optional white space: the start of `m` and the end of what is consumed.
pub open spec fn ws_spec(t: Seq<char>, m: Seq<char>) -> Option<(int, int)> {
    let q = multispace_end(t, 0);
    if occurs_at(t, q, m) {
        Some((q, multispace_end(t, q + m.len())))
    } else {
        None
    }
}

/// `m` between optional spaces and tabs: the start of `m` and the end of
/// what is consumed.
pub open spec fn ws2_spec(t: Seq<char>, m: Seq<char>) -> Option<(int, int)> {
    let q = space_end(t, 0);
    if occurs_at(t, q, m) {
        Some((q, space_end(t, q + m.len())))
    } else {
        None
    }
}

/// Recognizes `m` at the start of `s`, with white space (line feeds
/// included) trimmed on both sides; gives the rest and the text of `m`.
pub fn ws<'a>(m: &str, s: &'a str) -> (r: Result<(&'a str, &'a str), ParseError>)
    ensures
        r is Err <==> ws_spec(s@, m@) is None,
        r matches Ok((rest, found)) ==> ws_spec(s@, m@) matches Some((q, e)) && found@ == m@
            && rest@ == s@.subrange(e, s@.len() as int),
        r matches Err(err) ==> err.offset == multispace_end(s@, 0),
{
    let t = chars_of(s);
    let mc = chars_of(m);
    let q = skip_multispace(&t, 0);
    if !matches_at(&t, q, &mc) {
        return Err(ParseError { offset: q });
    }
    assert(q + mc@.len() <= t.len());
    let e = skip_multispace(&t, q + mc.len());
    Ok((s.substring_char(e, t.len()), s.substring_char(q, q + mc.len())))
}

/// Recognizes `m` at the start of `s`, with spaces and tabs (not line
/// feeds) trimmed on both sides; gives the rest and the text of `m`.
pub fn ws2<'a>(m: &str, s: &'a str) -> (r: Result<(&'a str, &'a str), ParseError>)
    ensures
        r is Err <==> ws2_spec(s@, m@) is None,
        r matches Ok((rest, found)) ==> ws2_spec(s@, m@) matches Some((q, e)) && found@ == m@
            && rest@ == s@.subrange(e, s@.len() as int),
        r matches Err(err) ==> err.offset == space_end(s@, 0),
{
    let t = chars_of(s);
    let mc = chars_of(m);
    let q = skip_space(&t, 0);
    if !matches_at(&t, q, &mc) {
        return Err(ParseError { offset: q });
    }
    assert(q + mc@.len() <= t.len());
    let e = skip_space(&t, q + mc.len());
    Ok((s.substring_char(e, t.len()), s.substring_char(q, q + mc.len())))
}

} // verus!

verus! {

/// A run that holds exactly on `[i, e)` ends at `e`.
pub proof fn lemma_run_end_exact(t: Seq<char>, i: int, e: int, p: spec_fn(char) -> bool)
    requires
        0 <= i <= e <= t.len(),
        forall|k: int| i <= k < e ==> p(#[trigger] t[k]),
        e == t.len() || !p(t[e]),
    ensures
        run_end(t, i, p) == e,
    decreases e - i,
{
    if i < e {
        lemma_run_end_exact(t, i + 1, e, p);
    }
}

proof fn lemma_scan_exact(t: Seq<char>, i: int, e: int, j: int)
    requires
        0 <= i < j <= e <= t.len(),
        is_identifier(t.subrange(i, e)),
        e == t.len() || (!is_alnum(t[e]) && t[e] != '-'),
    ensures
        ident_scan(t, j) == e,
    decreases e - j,
{
    let s = t.subrange(i, e);
    if j < e {
        assert(s[j - i] == t[j]);
        if is_alnum(t[j]) {
            lemma_scan_exact(t, i, e, j + 1);
        } else {
            assert(t[j] == '-');
            assert(s[s.len() - 1] == t[e - 1]);
            assert(j - i < s.len() - 1);
            assert(s[j - i + 1] == t[j + 1]);
            lemma_scan_exact(t, i, e, j + 2);
        }
    }
}

/// An identifier in `t` that no alphanumeric or hyphen follows is
/// recognized whole.
pub proof fn lemma_ident_end_exact(t: Seq<char>, i: int, e: int)
    requires
        0 <= i < e <= t.len(),
        is_identifier(t.subrange(i, e)),
        e == t.len() || (!is_alnum(t[e]) && t[e] != '-'),
    ensures
        ident_end(t, i) == Some(e),
{
    assert(t.subrange(i, e)[0] == t[i]);
    lemma_scan_exact(t, i, e, i + 1);
}

proof fn lemma_scan_is_identifier(t: Seq<char>, i: int, j: int)
    requires
        0 <= i < j <= t.len(),
        is_identifier(t.subrange(i, j)),
    ensures
        is_identifier(t.subrange(i, ident_scan(t, j))),
    decreases t.len() - j,
{
    let p = t.subrange(i, j);
    assert(p[j - i - 1] == t[j - 1]);
    if j < t.len() && is_alnum(t[j]) {
        let q = t.subrange(i, j + 1);
        assert forall|k: int| 0 <= k < q.len() implies is_alnum(#[trigger] q[k]) || q[k] == '-' by {
            if k < j - i {
                assert(q[k] == p[k]);
            }
        }
        assert forall|k: int| 0 <= k < q.len() - 1 && #[trigger] q[k] == '-' implies is_alnum(
            q[k + 1],
        ) by {
            assert(q[k] == p[k]);
            if k + 1 < j - i {
                assert(q[k + 1] == p[k + 1]);
            }
        }
        assert(q[0] == p[0]);
        lemma_scan_is_identifier(t, i, j + 1);
    } else if j + 1 < t.len() && t[j] == '-' && is_alnum(t[j + 1]) {
        let q = t.subrange(i, j + 2);
        assert forall|k: int| 0 <= k < q.len() implies is_alnum(#[trigger] q[k]) || q[k] == '-' by {
            if k < j - i {
                assert(q[k] == p[k]);
            }
        }
        assert forall|k: int| 0 <= k < q.len() - 1 && #[trigger] q[k] == '-' implies is_alnum(
            q[k + 1],
        ) by {
            if k < j - i {
                assert(q[k] == p[k]);
                if k + 1 < j - i {
                    assert(q[k + 1] == p[k + 1]);
                }
            }
        }
        assert(q[0] == p[0]);
        lemma_scan_is_identifier(t, i, j + 2);
    }
}

/// What the identifier recognizer consumes is an identifier.
pub proof fn lemma_ident_end_is_identifier(t: Seq<char>, i: int)
    requires
        0 <= i,
        ident_end(t, i) is Some,
    ensures
        i < ident_end(t, i)->0 <= t.len(),
        is_identifier(t.subrange(i, ident_end(t, i)->0)),
{
    let p = t.subrange(i, i + 1);
    assert(p[0] == t[i]);
    lemma_scan_is_identifier(t, i, i + 1);
    lemma_ident_scan_bounds(t, i + 1);
}

} // verus!

verus! {

/// An occurrence of `x + y` is an occurrence of `x` followed by one of `y`.
pub proof fn lemma_occurs_split(t: Seq<char>, k: int, x: Seq<char>, y: Seq<char>)
    requires
        occurs_at(t, k, x + y),
    ensures
        occurs_at(t, k, x),
        occurs_at(t, k + x.len(), y),
{
    let w = t.subrange(k, k + x.len() + y.len());
    assert(w == x + y);
    assert(t.subrange(k, k + x.len()) =~= x) by {
        assert forall|m: int| 0 <= m < x.len() implies t.subrange(k, k + x.len())[m] == x[m] by {
            assert(w[m] == (x + y)[m]);
        }
    }
    assert(t.subrange(k + x.len(), k + x.len() + y.len()) =~= y) by {
        assert forall|m: int| 0 <= m < y.len() implies t.subrange(k + x.len(), k + x.len() + y.len())[m]
            == y[m] by {
            assert(w[x.len() + m] == (x + y)[x.len() + m]);
        }
    }
}

/// The characters of an occurrence.
pub proof fn lemma_occurs_index(t: Seq<char>, k: int, x: Seq<char>, m: int)
    requires
        occurs_at(t, k, x),
        0 <= m < x.len(),
    ensures
        t[k + m] == x[m],
{
    assert(t.subrange(k, k + x.len())[m] == x[m]);
}

} // verus!

verus! {

/// A run that holds on `[h, h2)` ends where the run from `h2` ends.
pub proof fn lemma_run_end_skip(t: Seq<char>, h: int, h2: int, p: spec_fn(char) -> bool)
    requires
        0 <= h <= h2 <= t.len(),
        forall|k: int| h <= k < h2 ==> p(#[trigger] t[k]),
    ensures
        run_end(t, h, p) == run_end(t, h2, p),
    decreases h2 - h,
{
    if h < h2 {
        lemma_run_end_skip(t, h + 1, h2, p);
    }
}

} // verus!
