//! The detail report of one package: the name echoed back, optional tags,
//! a description, then the fields `version:`, `license:`, `rust-version:`
//! and the optional `documentation:`, `homepage:`, `repository:` and
//! `crates.io:` fields, in that order.
use vstd::prelude::*;
use vstd::string::*;
use crate::errors::{Error, ParseError};
use crate::krate::{InfoModel, KrateInfo, KrateMetadata, MetadataModel, Tags};
use crate::lexer::{
    chars_of, find, find_line_end, lemma_run_end_skip, find_spec, ident_end, lex_identifier, line_end, matches_at,
    multispace_end, occurs_at, rest_of, skip_multispace, skip_space, space_end, text_between,
    trim_end_at, trim_end_spec,
};
use crate::version::{is_version_tail, lemma_triple_after, lex_version, triple_spec};

verus! {

/// One tag after a `#`: optional spaces, a name, optional spaces. Gives the
/// start and end of the name and the end of the item.
pub open spec fn tag_item(t: Seq<char>, p: int) -> Option<(int, int, int)> {
    let a = space_end(t, p);
    match ident_end(t, a) {
        Some(b) => Some((a, b, space_end(t, b))),
        None => None,
    }
}

/// Further tags from `q`, each introduced by `#`.
pub open spec fn tags_more(t: Seq<char>, q: int) -> (Seq<Seq<char>>, int)
    decreases t.len() - q,
{
    if 0 <= q < t.len() && t[q] == '#' {
        match tag_item(t, q + 1) {
            Some((a, b, c)) => if 0 <= a <= b <= t.len() && q < c <= t.len() {
                let (more, e) = tags_more(t, c);
                (seq![t.subrange(a, b)] + more, e)
            } else {
                (seq![], q)
            },
            None => (seq![], q),
        }
    } else {
        (seq![], q)
    }
}

/// The tag block at `p`: nothing unless `t[p]` is `#`. A `#` that no name
/// follows is consumed and gives no tags.
pub open spec fn tags_spec(t: Seq<char>, p: int) -> (Seq<Seq<char>>, int) {
    if 0 <= p < t.len() && t[p] == '#' && tag_item(t, p + 1) is None {
        (seq![], p + 1)
    } else {
        tags_more(t, p)
    }
}

/// A field marker after optional white space (line feeds included),
/// followed by optional spaces; gives the position after them.
pub open spec fn marker_spec(t: Seq<char>, p: int, m: Seq<char>) -> Option<int> {
    let q = multispace_end(t, p);
    if occurs_at(t, q, m) {
        Some(space_end(t, q + m.len()))
    } else {
        None
    }
}

/// An optional field: its marker, then text up to the end of the line.
pub open spec fn field_spec(t: Seq<char>, p: int, m: Seq<char>) -> (Option<Seq<char>>, int) {
    match marker_spec(t, p, m) {
        Some(a) => (Some(t.subrange(a, line_end(t, a))), line_end(t, a)),
        None => (None, p),
    }
}

/// The detail of a package and the position where recognition stopped; on
/// failure, the position where the missing or malformed part was expected.
pub open spec fn detail_spec(t: Seq<char>) -> Result<(InfoModel, int), int> {
    match ident_end(t, 0) {
        None => Err(0),
        Some(n) => {
            let (tags, p2) = tags_spec(t, multispace_end(t, n));
            let p3 = multispace_end(t, p2);
            match find_spec(t, p3, "version"@) {
                None => Err(p3),
                Some(d) => match marker_spec(t, d, "version:"@) {
                    None => Err(d),
                    Some(p4) => match triple_spec(t, p4) {
                        None => Err(p4),
                        Some((latest, p5)) => match marker_spec(t, line_end(t, p5), "license:"@) {
                            None => Err(line_end(t, p5)),
                            Some(p7) => match marker_spec(t, line_end(t, p7), "rust-version:"@) {
                                None => Err(line_end(t, p7)),
                                Some(p9) => {
                                    let (doc, p11) = field_spec(t, line_end(t, p9), "documentation:"@);
                                    let (home, p12) = field_spec(t, p11, "homepage:"@);
                                    let (repo, p13) = field_spec(t, p12, "repository:"@);
                                    let (reg, p14) = field_spec(t, p13, "crates.io:"@);
                                    Ok((InfoModel {
                                        description: Some(t.subrange(p3, trim_end_spec(t, p3, d))),
                                        tags: Some(tags),
                                        latest_version: Some(latest),
                                        license: Some(t.subrange(p7, line_end(t, p7))),
                                        rust_version: match triple_spec(t, p9) {
                                            Some((v, _)) => Some(v),
                                            None => None,
                                        },
                                        documentation: doc,
                                        homepage: home,
                                        repository: repo,
                                        crates_io: reg,
                                        synced: true,
                                    }, p14))
                                },
                            },
                        },
                    },
                },
            }
        },
    }
}

fn lex_tag_item(t: &Vec<char>, p: usize) -> (r: Option<(usize, usize, usize)>)
    requires
        p <= t@.len(),
    ensures
        r is None <==> tag_item(t@, p as int) is None,
        r matches Some((a, b, c)) ==> tag_item(t@, p as int) == Some((a as int, b as int, c as int))
            && p <= a < b <= c <= t@.len(),
{
    let a = skip_space(t, p);
    match lex_identifier(t, a) {
        Some(b) => Some((a, b, skip_space(t, b))),
        None => None,
    }
}

/// Reads further tags from `q`.
fn read_tags_more(s: &str, t: &Vec<char>, q: usize) -> (r: (Vec<String>, usize))
    requires
        t@ == s@,
        q <= t@.len(),
    ensures
        r.0.deep_view() == tags_more(t@, q as int).0,
        r.1 == tags_more(t@, q as int).1,
        q <= r.1 <= t@.len(),
{
    let mut tags: Vec<String> = Vec::new();
    let mut j = q;
    while j < t.len() && t[j] == '#'
        invariant
            t@ == s@,
            q <= j <= t@.len(),
            tags_more(t@, q as int) == (tags.deep_view() + tags_more(t@, j as int).0,
                tags_more(t@, j as int).1),
        decreases t@.len() - j,
    {
        match lex_tag_item(t, j + 1) {
            Some((a, b, c)) => {
                let name = text_between(s, a, b);
                let ghost old_tags = tags.deep_view();
                tags.push(name);
                proof {
                    assert(tags.deep_view() == old_tags.push(name@));
                    let (more, e) = tags_more(t@, c as int);
                    assert(old_tags + (seq![t@.subrange(a as int, b as int)] + more)
                        == tags.deep_view() + more);
                }
                j = c;
            },
            None => {
                proof {
                    assert(tags.deep_view() + tags_more(t@, j as int).0 == tags.deep_view());
                }
                return (tags, j);
            },
        }
    }
    proof {
        assert(tags.deep_view() + tags_more(t@, j as int).0 == tags.deep_view());
    }
    (tags, j)
}

fn read_tags(s: &str, t: &Vec<char>, p: usize) -> (r: (Vec<String>, usize))
    requires
        t@ == s@,
        p <= t@.len(),
    ensures
        r.0.deep_view() == tags_spec(t@, p as int).0,
        r.1 == tags_spec(t@, p as int).1,
        p <= r.1 <= t@.len(),
{
    if p < t.len() && t[p] == '#' && lex_tag_item(t, p + 1).is_none() {
        let v: Vec<String> = Vec::new();
        proof {
            assert(v.deep_view() =~= Seq::<Seq<char>>::empty());
        }
        return (v, p + 1);
    }
    read_tags_more(s, t, p)
}

fn lex_marker(t: &Vec<char>, p: usize, m: &Vec<char>) -> (r: Option<usize>)
    requires
        p <= t@.len(),
    ensures
        r is None <==> marker_spec(t@, p as int, m@) is None,
        r matches Some(a) ==> marker_spec(t@, p as int, m@) == Some(a as int) && p <= a <= t@.len(),
{
    let q = skip_multispace(t, p);
    if matches_at(t, q, m) {
        assert(q + m@.len() <= t.len());
        Some(skip_space(t, q + m.len()))
    } else {
        None
    }
}

fn read_field(s: &str, t: &Vec<char>, p: usize, m: &str) -> (r: (Option<String>, usize))
    requires
        t@ == s@,
        p <= t@.len(),
    ensures
        r.0.deep_view() == field_spec(t@, p as int, m@).0,
        r.1 == field_spec(t@, p as int, m@).1,
        p <= r.1 <= t@.len(),
{
    let mc = chars_of(m);
    match lex_marker(t, p, &mc) {
        Some(a) => {
            let e = find_line_end(t, a);
            (Some(text_between(s, a, e)), e)
        },
        None => (None, p),
    }
}

fn required_marker(t: &Vec<char>, p: usize, m: &str) -> (r: Result<usize, ParseError>)
    requires
        p <= t@.len(),
    ensures
        r is Err <==> marker_spec(t@, p as int, m@) is None,
        r matches Ok(a) ==> marker_spec(t@, p as int, m@) == Some(a as int) && p <= a <= t@.len(),
        r matches Err(e) ==> e.offset == p,
{
    let mc = chars_of(m);
    match lex_marker(t, p, &mc) {
        Some(a) => Ok(a),
        None => Err(ParseError { offset: p }),
    }
}

impl KrateInfo {
    /// Parses the detail report of one package. Gives the rest of the input
    /// and the detail, marked as synced.
    pub fn parse(s: &str) -> (r: Result<(&str, KrateInfo), ParseError>)
        ensures
            r is Err <==> detail_spec(s@) is Err,
            r matches Ok((rest, info)) ==> detail_spec(s@) matches Ok((m, e)) && info@ == m
                && rest@ == s@.subrange(e, s@.len() as int),
            r matches Err(err) ==> detail_spec(s@) == Err::<(InfoModel, int), int>(err.offset as int),
    {
        let t = chars_of(s);
        let len = t.len();
        let n = match lex_identifier(&t, 0) {
            Some(n) => n,
            None => return Err(ParseError { offset: 0 }),
        };
        let p1 = skip_multispace(&t, n);
        let (tags, p2) = read_tags(s, &t, p1);
        let p3 = skip_multispace(&t, p2);
        let key = chars_of("version");
        let d = match find(&t, p3, &key) {
            Some(d) => d,
            None => return Err(ParseError { offset: p3 }),
        };
        let description = text_between(s, p3, trim_end_at(&t, p3, d));
        let p4 = required_marker(&t, d, "version:")?;
        let (latest, p5) = match lex_version(s, &t, p4) {
            Some(x) => x,
            None => return Err(ParseError { offset: p4 }),
        };
        proof {
            let (_, h) = triple_spec(t@, p4 as int)->0;
            lemma_triple_after(t@, p4 as int);
            assert forall|k: int| h <= k < p5 implies (|c: char| c != '\n')(#[trigger] t@[k]) by {
                assert(is_version_tail(t@[k]));
            }
            lemma_run_end_skip(t@, h, p5 as int, |c: char| c != '\n');
        }
        let p6 = find_line_end(&t, p5);
        let p7 = required_marker(&t, p6, "license:")?;
        let p8 = find_line_end(&t, p7);
        let license = text_between(s, p7, p8);
        let p9 = required_marker(&t, p8, "rust-version:")?;
        let rust_version = match lex_version(s, &t, p9) {
            Some((v, _)) => Some(v),
            None => None,
        };
        let p10 = find_line_end(&t, p9);
        let (documentation, p11) = read_field(s, &t, p10, "documentation:");
        let (homepage, p12) = read_field(s, &t, p11, "homepage:");
        let (repository, p13) = read_field(s, &t, p12, "repository:");
        let (crates_io, p14) = read_field(s, &t, p13, "crates.io:");
        let info = KrateInfo {
            description: Some(description),
            tags: Some(Tags(tags)),
            latest_version: Some(latest),
            license: Some(license),
            rust_version,
            documentation,
            homepage,
            repository,
            crates_io,
            synced: true,
        };
        Ok((rest_of(s, p14, len), info))
    }
}

} // verus!

verus! {

impl Tags {
    /// Parses a tag block at the start of `s`: `#`, then names separated by
    /// `#`, each with optional spaces around it.
    pub fn parse(s: &str) -> (r: Result<(&str, Tags), ParseError>)
        ensures
            r is Err <==> !(s@.len() > 0 && s@[0] == '#'),
            r matches Ok((rest, tags)) ==> tags@ == tags_spec(s@, 0).0 && rest@ == s@.subrange(
                tags_spec(s@, 0).1,
                s@.len() as int,
            ),
            r matches Err(err) ==> err.offset == 0,
    {
        let t = chars_of(s);
        if !(t.len() > 0 && t[0] == '#') {
            return Err(ParseError { offset: 0 });
        }
        let (tags, e) = read_tags(s, &t, 0);
        Ok((rest_of(s, e, t.len()), Tags(tags)))
    }
}

impl KrateMetadata {
    /// The detail of package `name`, from the text of its detail report.
    pub fn get(name: &str, report: &str) -> (r: Result<KrateMetadata, Error>)
        ensures
            r is Err <==> detail_spec(report@) is Err,
            r matches Ok(m) ==> detail_spec(report@) matches Ok((info, _)) && m@ == (
            MetadataModel { name: name@, info }),
            r matches Err(e) ==> e is Parser,
    {
        match KrateInfo::parse(report) {
            Ok((_, info)) => Ok(KrateMetadata { name: String::from_str(name), info }),
            Err(e) => Err(Error::Parser(e)),
        }
    }
}

} // verus!

verus! {

/// A detail report without any `#` gives an empty tag list, never a
/// failure on that account.
pub proof fn lemma_no_hash_no_tags(t: Seq<char>)
    requires
        forall|k: int| 0 <= k < t.len() ==> t[k] != '#',
        detail_spec(t) is Ok,
    ensures
        detail_spec(t) matches Ok((m, _)) && m.tags == Some(Seq::<Seq<char>>::empty()),
{
    let n = ident_end(t, 0)->0;
    let p = multispace_end(t, n);
    assert(tags_spec(t, p).0 == Seq::<Seq<char>>::empty());
}

} // verus!
