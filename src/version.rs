//! Version triples `<major>.<minor>.<patch>`.
use vstd::prelude::*;
use vstd::string::*;
use crate::errors::ParseError;
use crate::lexer::{
    chars_of, is_alnum, is_digit, lemma_run_end_bounds, lemma_run_end_exact, occurs_at, rest_of,
    run_end,
};

verus! {

/// An installed or published version: three unsigned components, no
/// pre-release or build metadata.
#[derive(Clone, Copy, Debug, Default, PartialEq, Eq, Structural, Hash)]
pub struct Version {
    pub major: u32,
    pub minor: u32,
    pub patch: u32,
}

pub open spec fn digit_value(c: char) -> nat {
    (c as u32 - '0' as u32) as nat
}

/// Value of a string of decimal digits.
pub open spec fn digits_value(s: Seq<char>) -> nat
    decreases s.len(),
{
    if s.len() == 0 {
        0
    } else {
        digits_value(s.drop_last()) * 10 + digit_value(s.last())
    }
}

pub open spec fn digits_end(t: Seq<char>, i: int) -> int {
    run_end(t, i, |c: char| is_digit(c))
}

/// A component at `i`: a lone `0`, or digits that do not start with `0`
/// and whose value fits in 32 bits. Gives the value and the end.
pub open spec fn number_spec(t: Seq<char>, i: int) -> Option<(u32, int)> {
    if 0 <= i < t.len() && t[i] == '0' {
        Some((0u32, i + 1))
    } else {
        let e = digits_end(t, i);
        if 0 <= i < e && digits_value(t.subrange(i, e)) <= u32::MAX {
            Some((digits_value(t.subrange(i, e)) as u32, e))
        } else {
            None
        }
    }
}

/// A version triple at `i`: three components separated by dots.
pub open spec fn triple_spec(t: Seq<char>, i: int) -> Option<(Version, int)> {
    match number_spec(t, i) {
        None => None,
        Some((major, a)) => if a < t.len() && t[a] == '.' {
            match number_spec(t, a + 1) {
                None => None,
                Some((minor, b)) => if b < t.len() && t[b] == '.' {
                    match number_spec(t, b + 1) {
                        None => None,
                        Some((patch, c)) => Some((Version { major, minor, patch }, c)),
                    }
                } else {
                    None
                },
            }
        } else {
            None
        },
    }
}

/// A character that may follow the triple in a version: the pre-release and
/// build parts are made of these.
pub open spec fn is_version_tail(c: char) -> bool {
    is_alnum(c) || c == '-' || c == '.' || c == '+'
}

/// Relies on `versions::SemVer::parse`, applied to `s` from character `i` on:
/// it reads three components by its `unsigned` rule (a lone `0`, or decimal
/// digits that fit in a `u32`) separated by dots, then an optional
/// pre-release (`-` and chunks) and build part (`+` and text), which hold only
/// ASCII alphanumerics, `-`, `.` and `+`; it fails only when the three
/// components are not there. Gives the components and the unparsed rest.
#[verifier::external_body]
fn semver_at(s: &str, i: usize) -> (r: Option<(Version, String)>)
    requires
        i <= s@.len(),
    ensures
        r is None <==> triple_spec(s@, i as int) is None,
        r matches Some((v, rest)) ==> triple_spec(s@, i as int) matches Some((w, e)) && v == w && e
            + rest@.len() <= s@.len() && rest@ == s@.subrange(
            s@.len() - rest@.len(),
            s@.len() as int,
        ) && forall|k: int| e <= k < s@.len() - rest@.len() ==> is_version_tail(#[trigger] s@[k]),
{
    let tail: String = s.chars().skip(i).collect();
    match versions::SemVer::parse(tail.as_str()) {
        Ok((rest, v)) => Some((Version { major: v.major, minor: v.minor, patch: v.patch }, rest.to_string())),
        Err(_) => None,
    }
}

/// A version triple ends after it starts, within the text.
pub proof fn lemma_triple_after(t: Seq<char>, p: int)
    requires
        0 <= p <= t.len(),
        triple_spec(t, p) is Some,
    ensures
        triple_spec(t, p) matches Some((_, h)) && p < h <= t.len(),
{
    let (_, a) = number_spec(t, p)->0;
    lemma_number_after(t, p);
    let (_, b) = number_spec(t, a + 1)->0;
    lemma_number_after(t, a + 1);
    lemma_number_after(t, b + 1);
}

proof fn lemma_number_after(t: Seq<char>, p: int)
    requires
        0 <= p <= t.len(),
        number_spec(t, p) is Some,
    ensures
        number_spec(t, p) matches Some((_, e)) && p < e <= t.len(),
{
    lemma_run_end_bounds(t, p, |c: char| is_digit(c));
}

/// Recognizes a version at `i` of `s` (whose characters are `t`). Gives the
/// version and the end of what was read: the triple, then possibly a
/// pre-release or build part.
pub fn lex_version(s: &str, t: &Vec<char>, i: usize) -> (r: Option<(Version, usize)>)
    requires
        t@ == s@,
        i <= t@.len(),
    ensures
        r is None <==> triple_spec(t@, i as int) is None,
        r matches Some((v, e)) ==> triple_spec(t@, i as int) matches Some((w, h)) && v == w && h
            <= e <= t@.len() && forall|k: int| h <= k < e ==> is_version_tail(#[trigger] t@[k]),
{
    match semver_at(s, i) {
        None => None,
        Some((v, rest)) => {
            let rl = rest.as_str().unicode_len();
            Some((v, t.len() - rl))
        },
    }
}

} // verus!

verus! {

impl Version {
    /// Recognizes a version at the start of `s`; gives the rest of the input
    /// and the version.
    pub fn parse(s: &str) -> (r: Result<(&str, Version), ParseError>)
        ensures
            r is Err <==> triple_spec(s@, 0) is None,
            r matches Ok((rest, v)) ==> triple_spec(s@, 0) matches Some((w, e)) && v == w
                && e <= s@.len() - rest@.len() && rest@ == s@.subrange(
                s@.len() - rest@.len(),
                s@.len() as int,
            ),
            r matches Err(err) ==> err.offset == 0,
    {
        let t = chars_of(s);
        match lex_version(s, &t, 0) {
            Some((v, e)) => Ok((rest_of(s, e, t.len()), v)),
            None => Err(ParseError { offset: 0 }),
        }
    }
}

} // verus!

verus! {

pub open spec fn digit_char(d: nat) -> char {
    "0123456789"@[d as int]
}

/// Decimal digits of `n`, without leading zeros.
pub open spec fn decimal(n: nat) -> Seq<char>
    decreases n,
{
    if n < 10 {
        seq![digit_char(n)]
    } else {
        decimal(n / 10) + seq![digit_char(n % 10)]
    }
}

/// `major.minor.patch` in decimal.
pub open spec fn version_text(v: Version) -> Seq<char> {
    decimal(v.major as nat) + "."@ + decimal(v.minor as nat) + "."@ + decimal(v.patch as nat)
}

/// Appends the decimal digits of `n` to `out`.
pub fn push_decimal(out: &mut String, n: u32)
    ensures
        final(out)@ == old(out)@ + decimal(n as nat),
    decreases n,
{
    if n >= 10 {
        push_decimal(out, n / 10);
    }
    let d = (n % 10) as usize;
    let digits = "0123456789";
    proof {
        reveal_strlit("0123456789");
    }
    out.append(digits.substring_char(d, d + 1));
    proof {
        assert(digits@.subrange(d as int, d + 1) == seq![digit_char(d as nat)]);
        if n >= 10 {
            assert(out@ == old(out)@ + decimal(n as nat / 10) + seq![digit_char(n as nat % 10)]);
        } else {
            assert(out@ == old(out)@ + seq![digit_char(n as nat)]);
        }
    }
}

impl Version {
    /// The version as `major.minor.patch`.
    pub fn text(&self) -> (r: String)
        ensures
            r@ == version_text(*self),
    {
        let mut out = String::new();
        push_decimal(&mut out, self.major);
        out.append(".");
        push_decimal(&mut out, self.minor);
        out.append(".");
        push_decimal(&mut out, self.patch);
        out
    }
}

} // verus!

verus! {

proof fn lemma_digit_char(d: nat)
    requires
        d < 10,
    ensures
        is_digit(digit_char(d)),
        digit_value(digit_char(d)) == d,
        digit_char(d) == '0' <==> d == 0,
{
    reveal_strlit("0123456789");
    if d == 0 {
    } else if d == 1 {
    } else if d == 2 {
    } else if d == 3 {
    } else if d == 4 {
    } else if d == 5 {
    } else if d == 6 {
    } else if d == 7 {
    } else if d == 8 {
    } else {
        assert(d == 9);
    }
}

proof fn lemma_decimal(x: nat)
    ensures
        decimal(x).len() >= 1,
        forall|k: int| 0 <= k < decimal(x).len() ==> is_digit(#[trigger] decimal(x)[k]),
        x == 0 ==> decimal(x) == seq!['0'],
        x > 0 ==> decimal(x)[0] != '0',
        digits_value(decimal(x)) == x,
    decreases x,
{
    if x < 10 {
        lemma_digit_char(x);
        let d = decimal(x);
        assert(d.drop_last() =~= Seq::<char>::empty());
        assert(d.last() == digit_char(x));
        assert(digits_value(d.drop_last()) == 0);
        assert(digits_value(d) == digits_value(d.drop_last()) * 10 + digit_value(d.last()));
    } else {
        lemma_decimal(x / 10);
        lemma_digit_char(x % 10);
        let d = decimal(x);
        let h = decimal(x / 10);
        assert(d.drop_last() =~= h);
        assert(d[0] == h[0]);
        assert forall|k: int| 0 <= k < d.len() implies is_digit(#[trigger] d[k]) by {
            if k < h.len() {
                assert(d[k] == h[k]);
            }
        }
        assert(x == (x / 10) * 10 + x % 10) by (nonlinear_arith);
        assert(d.last() == digit_char(x % 10));
        assert(digits_value(d) == digits_value(h) * 10 + digit_value(d.last()));
    }
}

/// A number written in decimal, then no further digit, reads back as
/// that number.
pub proof fn lemma_number_exact(t: Seq<char>, p: int, x: u32)
    requires
        0 <= p,
        occurs_at(t, p, decimal(x as nat)),
        p + decimal(x as nat).len() == t.len() || !is_digit(t[p + decimal(x as nat).len()]),
    ensures
        number_spec(t, p) == Some((x, p + decimal(x as nat).len())),
{
    let d = decimal(x as nat);
    let e = p + d.len();
    lemma_decimal(x as nat);
    assert(t.subrange(p, e) == d);
    assert(t[p] == d[0]);
    if x != 0 {
        assert forall|k: int| p <= k < e implies is_digit(#[trigger] t[k]) by {
            assert(t[k] == d[k - p]);
        }
        lemma_run_end_exact(t, p, e, |c: char| is_digit(c));
    }
}

/// A version written as text, then no further digit, reads back as that
/// version.
pub proof fn lemma_triple_exact(t: Seq<char>, p: int, v: Version)
    requires
        0 <= p,
        occurs_at(t, p, version_text(v)),
        p + version_text(v).len() == t.len() || !is_digit(t[p + version_text(v).len()]),
    ensures
        triple_spec(t, p) == Some((v, p + version_text(v).len())),
{
    let d1 = decimal(v.major as nat);
    let d2 = decimal(v.minor as nat);
    let d3 = decimal(v.patch as nat);
    let vt = version_text(v);
    reveal_strlit(".");
    assert(vt =~= d1 + seq!['.'] + d2 + seq!['.'] + d3);
    let a = p + d1.len();
    let b = a + 1 + d2.len();
    let c = b + 1 + d3.len();
    assert(t.subrange(p, c) == vt);
    assert(t.subrange(p, a) =~= d1) by {
        assert forall|k: int| 0 <= k < d1.len() implies t.subrange(p, a)[k] == d1[k] by {
            assert(t.subrange(p, c)[k] == vt[k]);
        }
    }
    assert(t[a] == '.') by {
        assert(t.subrange(p, c)[a - p] == vt[a - p]);
    }
    assert(t.subrange(a + 1, b) =~= d2) by {
        assert forall|k: int| 0 <= k < d2.len() implies t.subrange(a + 1, b)[k] == d2[k] by {
            assert(t.subrange(p, c)[a + 1 - p + k] == vt[a + 1 - p + k]);
        }
    }
    assert(t[b] == '.') by {
        assert(t.subrange(p, c)[b - p] == vt[b - p]);
    }
    assert(t.subrange(b + 1, c) =~= d3) by {
        assert forall|k: int| 0 <= k < d3.len() implies t.subrange(b + 1, c)[k] == d3[k] by {
            assert(t.subrange(p, c)[b + 1 - p + k] == vt[b + 1 - p + k]);
        }
    }
    lemma_number_exact(t, p, v.major);
    lemma_number_exact(t, a + 1, v.minor);
    lemma_number_exact(t, b + 1, v.patch);
}

} // verus!

verus! {

/// The text `unknown` is no version: a field that reads so gives none,
/// and no failure.
pub proof fn lemma_unknown_is_no_version(t: Seq<char>, i: int)
    requires
        occurs_at(t, i, "unknown"@),
    ensures
        triple_spec(t, i) is None,
{
    reveal_strlit("unknown");
    assert(t.subrange(i, i + 7)[0] == t[i]);
    lemma_run_end_exact(t, i, i, |c: char| is_digit(c));
}

} // verus!
