//! The listing of installed packages: groups of a header line
//! `<name> <space> v<version> <rest of line>` followed by one or more lines
//! `<space> <binary name>`, groups separated by line feeds.
use vstd::prelude::*;
use vstd::string::*;
use crate::errors::ParseError;
use crate::krate::{unsynced_info, unsynced_metadata, Krate, KrateModel, Krates, MetadataModel};
use crate::lexer::{
    alnum, chars_of, is_alnum, is_multispace, lemma_run_end_skip, matches_at, occurs_at, find_line_end, ident_end, is_space, lemma_ident_scan_bounds, lemma_run_end_bounds,
    lex_identifier, line_end, multispace_end, rest_of, skip_multispace, skip_space, space_end,
    text_between,
};
use crate::version::{
    is_version_tail, lemma_triple_after, lex_version, triple_spec, version_text, Version,
};

verus! {

/// Header of a group at `i`: the end of the name, the version, and the
/// position just after the version.
pub open spec fn header_spec(t: Seq<char>, i: int) -> Option<(int, Version, int)> {
    match ident_end(t, i) {
        None => None,
        Some(n) => {
            let w = multispace_end(t, n);
            if n < w && w < t.len() && t[w] == 'v' {
                match triple_spec(t, w + 1) {
                    Some((v, h)) => Some((n, v, h)),
                    None => None,
                }
            } else {
                None
            }
        },
    }
}

/// A binary line's content at `i`: spaces or tabs, then a name. Gives the
/// start and end of the name.
pub open spec fn binary_spec(t: Seq<char>, i: int) -> Option<(int, int)> {
    let a = space_end(t, i);
    if i < a {
        match ident_end(t, a) {
            Some(e) => Some((a, e)),
            None => None,
        }
    } else {
        None
    }
}

/// The binary lines that follow position `i`, each introduced by a line
/// feed; gives their names and the end of the last one (or `i`).
pub open spec fn binaries_from(t: Seq<char>, i: int) -> (Seq<Seq<char>>, int)
    decreases t.len() - i,
{
    if 0 <= i < t.len() && t[i] == '\n' {
        match binary_spec(t, i + 1) {
            Some((a, e)) => if 0 <= a <= e <= t.len() && i < e {
                let (more, end) = binaries_from(t, e);
                (seq![t.subrange(a, e)] + more, end)
            } else {
                (seq![], i)
            },
            None => (seq![], i),
        }
    } else {
        (seq![], i)
    }
}

/// The model of a freshly listed package.
pub open spec fn listed(name: Seq<char>, version: Version, binaries: Seq<Seq<char>>) -> KrateModel {
    KrateModel {
        name,
        version,
        binaries,
        metadata: MetadataModel { name: Seq::empty(), info: unsynced_info() },
    }
}

/// One group at `i`: its header, the rest of the header line, then at least
/// one binary line. Gives the package and the end of its last binary.
pub open spec fn group_spec(t: Seq<char>, i: int) -> Option<(KrateModel, int)> {
    match header_spec(t, i) {
        None => None,
        Some((n, v, h)) => {
            let (bins, end) = binaries_from(t, line_end(t, h));
            if bins.len() > 0 {
                Some((listed(t.subrange(i, n), v, bins), end))
            } else {
                None
            }
        },
    }
}

/// Groups from `i` on, each after the first introduced by a line feed. A
/// group whose header is there must be complete.
pub open spec fn groups_from(t: Seq<char>, i: int) -> Option<(Seq<KrateModel>, int)>
    decreases t.len() - i,
{
    match group_spec(t, i) {
        None => None,
        Some((g, e)) => if i < e && e < t.len() && t[e] == '\n' && header_spec(t, e + 1) is Some {
            match groups_from(t, e + 1) {
                None => None,
                Some((gs, r)) => Some((seq![g] + gs, r)),
            }
        } else {
            Some((seq![g], e))
        },
    }
}

/// The packages of a listing and the position where recognition stopped;
/// `None` when a group starts but is incomplete.
pub open spec fn listing_spec(t: Seq<char>) -> Option<(Seq<KrateModel>, int)> {
    if header_spec(t, 0) is Some {
        groups_from(t, 0)
    } else {
        Some((seq![], 0))
    }
}

proof fn lemma_binaries_from_bounds(t: Seq<char>, i: int)
    requires
        0 <= i <= t.len(),
    ensures
        i <= binaries_from(t, i).1 <= t.len(),
        binaries_from(t, i).0.len() > 0 ==> i < binaries_from(t, i).1,
    decreases t.len() - i,
{
    if 0 <= i < t.len() && t[i] == '\n' {
        match binary_spec(t, i + 1) {
            Some((a, e)) => if 0 <= a <= e <= t.len() && i < e {
                lemma_run_end_bounds(t, i + 1, |c: char| is_space(c));
                lemma_ident_scan_bounds(t, a + 1);
                lemma_binaries_from_bounds(t, e);
            },
            None => {},
        }
    }
}

/// Recognizes a header at `i`; gives the end of the name, the version and
/// the end of what was read of the version, on the same line as the triple.
fn lex_header(s: &str, t: &Vec<char>, i: usize) -> (r: Option<(usize, Version, usize)>)
    requires
        t@ == s@,
        i <= t@.len(),
    ensures
        r is None <==> header_spec(t@, i as int) is None,
        r matches Some((n, v, h2)) ==> header_spec(t@, i as int) matches Some((n0, v0, h)) && n0
            == n && v0 == v && i < n < h <= h2 <= t@.len() && line_end(t@, h2 as int) == line_end(
            t@,
            h,
        ),
{
    let n = match lex_identifier(t, i) {
        Some(n) => n,
        None => return None,
    };
    let w = skip_multispace(t, n);
    if !(n < w && w < t.len() && t[w] == 'v') {
        return None;
    }
    match lex_version(s, t, w + 1) {
        Some((v, h2)) => {
            proof {
                let (v0, h) = triple_spec(t@, w + 1)->0;
                lemma_triple_after(t@, w + 1);
                assert forall|k: int| h <= k < h2 implies (|c: char| c != '\n')(#[trigger] t@[k]) by {
                    assert(is_version_tail(t@[k]));
                }
                lemma_run_end_skip(t@, h, h2 as int, |c: char| c != '\n');
            }
            Some((n, v, h2))
        },
        None => None,
    }
}

fn lex_binary(t: &Vec<char>, i: usize) -> (r: Option<(usize, usize)>)
    requires
        i <= t@.len(),
    ensures
        r is None <==> binary_spec(t@, i as int) is None,
        r matches Some((a, e)) ==> binary_spec(t@, i as int) == Some((a as int, e as int)) && i
            < a < e <= t@.len(),
{
    let a = skip_space(t, i);
    if i < a {
        match lex_identifier(t, a) {
            Some(e) => Some((a, e)),
            None => None,
        }
    } else {
        None
    }
}

/// Reads the binary lines after position `i` of `s` (whose characters are `t`).
fn read_binaries(s: &str, t: &Vec<char>, i: usize) -> (r: (Vec<String>, usize))
    requires
        t@ == s@,
        i <= t@.len(),
    ensures
        r.0.deep_view() == binaries_from(t@, i as int).0,
        r.1 == binaries_from(t@, i as int).1,
        i <= r.1 <= t@.len(),
{
    let mut bins: Vec<String> = Vec::new();
    let mut j = i;
    while j < t.len() && t[j] == '\n'
        invariant
            t@ == s@,
            i <= j <= t@.len(),
            binaries_from(t@, i as int) == (bins.deep_view() + binaries_from(t@, j as int).0,
                binaries_from(t@, j as int).1),
        decreases t@.len() - j,
    {
        match lex_binary(t, j + 1) {
            Some((a, e)) => {
                let name = text_between(s, a, e);
                let ghost old_bins = bins.deep_view();
                bins.push(name);
                proof {
                    assert(bins.deep_view() == old_bins.push(name@));
                    let (more, end) = binaries_from(t@, e as int);
                    assert(binaries_from(t@, j as int).0 == seq![t@.subrange(a as int, e as int)]
                        + more);
                    assert(old_bins + (seq![t@.subrange(a as int, e as int)] + more)
                        == bins.deep_view() + more);
                }
                j = e;
            },
            None => {
                proof {
                    assert(bins.deep_view() + binaries_from(t@, j as int).0 == bins.deep_view());
                }
                return (bins, j);
            },
        }
    }
    proof {
        assert(bins.deep_view() + binaries_from(t@, j as int).0 == bins.deep_view());
    }
    (bins, j)
}

/// Reads one group at position `i` of `s` (whose characters are `t`).
fn read_group(s: &str, t: &Vec<char>, i: usize) -> (r: Option<(Krate, usize)>)
    requires
        t@ == s@,
        i <= t@.len(),
    ensures
        r is None <==> group_spec(t@, i as int) is None,
        r matches Some((k, e)) ==> group_spec(t@, i as int) == Some((k@, e as int)) && i < e
            <= t@.len(),
{
    let (n, v, h) = match lex_header(s, t, i) {
        Some(x) => x,
        None => return None,
    };
    let k = find_line_end(t, h);
    let (binaries, end) = read_binaries(s, t, k);
    if binaries.len() == 0 {
        return None;
    }
    let name = text_between(s, i, n);
    let krate = Krate { name, version: v, binaries, metadata: unsynced_metadata() };
    proof {
        lemma_binaries_from_bounds(t@, k as int);
    }
    Some((krate, end))
}

/// Reads the groups of a listing from position `i`, where a header starts.
/// On failure, gives the start of the incomplete group.
fn read_groups(s: &str, t: &Vec<char>, i: usize) -> (r: Result<(Vec<Krate>, usize), usize>)
    requires
        t@ == s@,
        i <= t@.len(),
        header_spec(t@, i as int) is Some,
    ensures
        r is Err <==> groups_from(t@, i as int) is None,
        r matches Err(p) ==> p <= t@.len() && header_spec(t@, p as int) is Some && group_spec(
            t@,
            p as int,
        ) is None,
        r matches Ok((ks, e)) ==> groups_from(t@, i as int) == Some((
            ks@.map_values(|k: Krate| k@),
            e as int,
        )) && e <= t@.len(),
{
    let mut ks: Vec<Krate> = Vec::new();
    let mut j = i;
    loop
        invariant
            t@ == s@,
            i <= j <= t@.len(),
            header_spec(t@, j as int) is Some,
            groups_from(t@, i as int) == (match groups_from(t@, j as int) {
                None => None,
                Some((gs, r)) => Some((ks@.map_values(|k: Krate| k@) + gs, r)),
            }),
        decreases t@.len() - j,
    {
        let ghost prefix = ks@.map_values(|k: Krate| k@);
        match read_group(s, t, j) {
            None => return Err(j),
            Some((k, e)) => {
                let more = e < t.len() && t[e] == '\n' && lex_header(s, t, e + 1).is_some();
                ks.push(k);
                proof {
                    assert(ks@.map_values(|k: Krate| k@) == prefix.push(k@));
                }
                if !more {
                    proof {
                        assert(prefix + seq![k@] == prefix.push(k@));
                    }
                    return Ok((ks, e));
                }
                proof {
                    assert forall|gs: Seq<KrateModel>| #![auto] prefix + (seq![k@] + gs)
                        == ks@.map_values(|k: Krate| k@) + gs by {
                        assert(prefix + (seq![k@] + gs) == prefix.push(k@) + gs);
                    }
                }
                j = e + 1;
            },
        }
    }
}

impl Krates {
    /// Parses a listing of installed packages. Gives the rest of the input
    /// from where recognition stopped, and the packages in listing order.
    /// Empty input gives no packages; a group whose header is there but that
    /// has no binary line fails the whole parse.
    pub fn parse(s: &str) -> (r: Result<(&str, Krates), ParseError>)
        ensures
            r is Err <==> listing_spec(s@) is None,
            r matches Ok((rest, ks)) ==> listing_spec(s@) matches Some((gs, e)) && ks@ == gs
                && rest@ == s@.subrange(e, s@.len() as int),
            r matches Err(err) ==> err.offset <= s@.len() && header_spec(s@, err.offset as int) is Some
                && group_spec(s@, err.offset as int) is None,
    {
        let t = chars_of(s);
        let len = t.len();
        if lex_header(s, &t, 0).is_none() {
            let ks: Vec<Krate> = Vec::new();
            proof {
                assert(ks@.map_values(|k: Krate| k@) == Seq::<KrateModel>::empty());
            }
            return Ok((rest_of(s, 0, len), Krates(ks)));
        }
        match read_groups(s, &t, 0) {
            Ok((ks, e)) => Ok((rest_of(s, e, len), Krates(ks))),
            Err(p) => Err(ParseError { offset: p }),
        }
    }
}

} // verus!

verus! {

/// A line giving `n`'s installed version at `k`: `n` at the start of the text
/// or after white space, then white space, `v` and a version triple.
pub open spec fn version_line_at(t: Seq<char>, k: int, n: Seq<char>) -> Option<(Version, int)> {
    let after = k + n.len();
    let w = multispace_end(t, after);
    if occurs_at(t, k, n) && (k == 0 || is_multispace(t[k - 1])) && after < w
        && w < t.len() && t[w] == 'v' {
        triple_spec(t, w + 1)
    } else {
        None
    }
}

/// The first version line of `n` at or after `k`.
pub open spec fn version_search(t: Seq<char>, k: int, n: Seq<char>) -> Option<(Version, int)>
    decreases t.len() + 1 - k,
{
    if k < 0 || k > t.len() {
        None
    } else {
        match version_line_at(t, k, n) {
            Some(x) => Some(x),
            None => version_search(t, k + 1, n),
        }
    }
}

/// Finds the installed version of package `n` in a listing; gives the rest
/// of the input after the version and the version.
pub fn parse_ver<'a>(s: &'a str, n: &'a str) -> (r: Result<(&'a str, Version), ParseError>)
    ensures
        r is Err <==> version_search(s@, 0, n@) is None,
        r matches Ok((rest, v)) ==> version_search(s@, 0, n@) matches Some((w, e)) && v == w && e
            <= s@.len() - rest@.len() && rest@ == s@.subrange(
            s@.len() - rest@.len(),
            s@.len() as int,
        ),
        r matches Err(err) ==> err.offset == s@.len(),
{
    let t = chars_of(s);
    let nc = chars_of(n);
    let len = t.len();
    let mut k: usize = 0;
    loop
        invariant
            t@ == s@,
            nc@ == n@,
            len == t@.len(),
            k <= len,
            version_search(t@, k as int, n@) == version_search(t@, 0, n@),
        decreases len - k,
    {
        if matches_at(&t, k, &nc) && (k == 0 || t[k - 1] == ' ' || t[k - 1] == '\t' || t[k - 1]
            == '\r' || t[k - 1] == '\n') {
            let after = k + nc.len();
            let w = skip_multispace(&t, after);
            if after < w && w < len && t[w] == 'v' {
                match lex_version(s, &t, w + 1) {
                    Some((v, e)) => return Ok((rest_of(s, e, len), v)),
                    None => {},
                }
            }
        }
        if k == len {
            assert(version_search(t@, k + 1, n@) is None);
            return Err(ParseError { offset: len });
        }
        k = k + 1;
    }
}

impl Krate {
    /// Parses one group of a listing at the start of `s`: a package without
    /// its detail.
    pub fn parse(s: &str) -> (r: Result<(&str, Krate), ParseError>)
        ensures
            r is Err <==> group_spec(s@, 0) is None,
            r matches Ok((rest, k)) ==> group_spec(s@, 0) matches Some((g, e)) && k@ == g
                && rest@ == s@.subrange(e, s@.len() as int),
            r matches Err(err) ==> err.offset == 0,
    {
        let t = chars_of(s);
        match read_group(s, &t, 0) {
            Some((k, e)) => Ok((rest_of(s, e, t.len()), k)),
            None => Err(ParseError { offset: 0 }),
        }
    }
}

/// Parses the content of one binary line at the start of `s`: spaces or
/// tabs, then the binary's name.
pub fn parse_binary(s: &str) -> (r: Result<(&str, String), ParseError>)
    ensures
        r is Err <==> binary_spec(s@, 0) is None,
        r matches Ok((rest, b)) ==> binary_spec(s@, 0) matches Some((a, e)) && b@ == s@.subrange(a, e)
            && rest@ == s@.subrange(e, s@.len() as int),
        r matches Err(err) ==> err.offset == 0,
{
    let t = chars_of(s);
    match lex_binary(&t, 0) {
        Some((a, e)) => Ok((rest_of(s, e, t.len()), text_between(s, a, e))),
        None => Err(ParseError { offset: 0 }),
    }
}

} // verus!

verus! {

/// The binary lines of a group: each on its own line, indented.
pub open spec fn binaries_text(bs: Seq<Seq<char>>) -> Seq<char>
    decreases bs.len(),
{
    if bs.len() == 0 {
        Seq::empty()
    } else {
        "\n    "@ + bs[0] + binaries_text(bs.drop_first())
    }
}

proof fn lemma_binaries_text_push(bs: Seq<Seq<char>>, b: Seq<char>)
    ensures
        binaries_text(bs.push(b)) == binaries_text(bs) + "\n    "@ + b,
    decreases bs.len(),
{
    if bs.len() == 0 {
        assert(bs.push(b).drop_first() =~= Seq::<Seq<char>>::empty());
        assert(bs.push(b)[0] == b);
        assert(binaries_text(bs.push(b).drop_first()) == Seq::<char>::empty());
        assert(binaries_text(bs.push(b)) =~= binaries_text(bs) + "\n    "@ + b);
    } else {
        assert(bs.push(b).drop_first() =~= bs.drop_first().push(b));
        lemma_binaries_text_push(bs.drop_first(), b);
        assert(bs.push(b)[0] == bs[0]);
        let x = binaries_text(bs.drop_first());
        assert(binaries_text(bs.push(b)) == "\n    "@ + bs[0] + (x + "\n    "@ + b));
        assert(binaries_text(bs.push(b)) =~= binaries_text(bs) + "\n    "@ + b);
    }
}

/// One group of a listing: `name vX.Y.Z:` and its binary lines.
pub open spec fn group_text(k: KrateModel) -> Seq<char> {
    k.name + " v"@ + version_text(k.version) + ":"@ + binaries_text(k.binaries)
}

/// A listing of `ks`: their groups separated by line feeds.
pub open spec fn listing_text(ks: Seq<KrateModel>) -> Seq<char>
    decreases ks.len(),
{
    if ks.len() == 0 {
        Seq::empty()
    } else if ks.len() == 1 {
        group_text(ks[0])
    } else {
        group_text(ks[0]) + "\n"@ + listing_text(ks.drop_first())
    }
}

proof fn lemma_listing_text_push(ks: Seq<KrateModel>, k: KrateModel)
    requires
        ks.len() > 0,
    ensures
        listing_text(ks.push(k)) == listing_text(ks) + "\n"@ + group_text(k),
    decreases ks.len(),
{
    if ks.len() == 1 {
        assert(ks.push(k).drop_first() =~= seq![k]);
        assert(ks.push(k)[0] == ks[0]);
        assert(seq![k][0] == k);
        assert(listing_text(seq![k]) == group_text(k));
        assert(listing_text(ks.push(k)) =~= listing_text(ks) + "\n"@ + group_text(k));
    } else {
        assert(ks.push(k).drop_first() =~= ks.drop_first().push(k));
        lemma_listing_text_push(ks.drop_first(), k);
        assert(ks.push(k)[0] == ks[0]);
        let x = listing_text(ks.drop_first());
        assert(listing_text(ks.push(k)) == group_text(ks[0]) + "\n"@ + (x + "\n"@ + group_text(k)));
        assert(listing_text(ks.push(k)) =~= listing_text(ks) + "\n"@ + group_text(k));
    }
}

impl Krate {
    fn push_group(&self, out: &mut String)
        ensures
            final(out)@ == old(out)@ + group_text(self@),
    {
        out.append(self.name.as_str());
        out.append(" v");
        let v = self.version.text();
        out.append(v.as_str());
        out.append(":");
        let ghost head = out@;
        let n = self.binaries.len();
        for i in 0..n
            invariant
                n == self.binaries@.len(),
                out@ == head + binaries_text(self@.binaries.subrange(0, i as int)),
        {
            out.append("\n    ");
            out.append(self.binaries[i].as_str());
            proof {
                let s = self@.binaries.subrange(0, i + 1);
                assert(s.drop_last() =~= self@.binaries.subrange(0, i as int));
                assert(s.last() == self.binaries[i as int]@);
                lemma_binaries_text_push(s.drop_last(), s.last());
                assert(s.drop_last().push(s.last()) =~= s);
                assert(out@ =~= head + binaries_text(s));
            }
        }
        proof {
            assert(self@.binaries.subrange(0, n as int) =~= self@.binaries);
            assert(out@ =~= old(out)@ + group_text(self@));
        }
    }
}

impl Krates {
    /// The packages written back as a listing, one group per package.
    pub fn to_listing(&self) -> (r: String)
        ensures
            r@ == listing_text(self@),
    {
        let mut out = String::new();
        let n = self.0.len();
        for i in 0..n
            invariant
                n == self@.len(),
                out@ == listing_text(self@.subrange(0, i as int)),
        {
            if i > 0 {
                out.append("\n");
            }
            self.0[i].push_group(&mut out);
            proof {
                let s = self@.subrange(0, i + 1);
                assert(s.drop_last() =~= self@.subrange(0, i as int));
                assert(s.last() == self.0@[i as int]@);
                if i == 0 {
                    assert(s[0] == self.0@[0]@);
                    assert(out@ =~= group_text(s[0]));
                } else {
                    lemma_listing_text_push(s.drop_last(), s.last());
                    assert(s.drop_last().push(s.last()) =~= s);
                    assert(out@ =~= listing_text(s.drop_last()) + "\n"@ + group_text(s.last()));
                }
            }
        }
        proof {
            assert(self@.subrange(0, n as int) =~= self@);
        }
        out
    }
}

} // verus!
