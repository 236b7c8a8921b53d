//! Writing a listing back and reading it again gives the same packages.
use vstd::prelude::*;
use crate::krate::{unsynced_info, KrateModel, MetadataModel};
use crate::lexer::{
    is_alnum, is_identifier, is_multispace, is_space, lemma_ident_end_exact,
    lemma_ident_end_is_identifier, lemma_occurs_index, lemma_occurs_split, lemma_run_end_exact,
    line_end, multispace_end, occurs_at,
};
use crate::listing::{
    binaries_from, binaries_text, binary_spec, group_spec, group_text, groups_from, header_spec,
    listed, listing_spec, listing_text,
};
use crate::version::{lemma_triple_exact, version_text};

verus! {

/// A package as a listing gives it: identifiers for its name and for each of
/// its one or more binaries, and no detail.
pub open spec fn well_formed(k: KrateModel) -> bool {
    &&& is_identifier(k.name)
    &&& k.binaries.len() > 0
    &&& forall|j: int| 0 <= j < k.binaries.len() ==> is_identifier(#[trigger] k.binaries[j])
    &&& k.metadata == MetadataModel { name: Seq::empty(), info: unsynced_info() }
}

/// The packages of a parse result; none for a failure.
pub open spec fn found(r: Option<(Seq<KrateModel>, int)>) -> Seq<KrateModel> {
    match r {
        Some((ks, _)) => ks,
        None => Seq::empty(),
    }
}

/// The position after a piece of text ends it: the end of `t`, or a line
/// feed and then an alphanumeric.
pub open spec fn ends_piece(t: Seq<char>, e: int) -> bool {
    e == t.len() || (0 <= e && e + 1 < t.len() && t[e] == '\n' && is_alnum(t[e + 1]))
}

proof fn lemma_binaries_exact(t: Seq<char>, k: int, bs: Seq<Seq<char>>)
    requires
        0 <= k,
        occurs_at(t, k, binaries_text(bs)),
        forall|j: int| 0 <= j < bs.len() ==> is_identifier(#[trigger] bs[j]),
        ends_piece(t, k + binaries_text(bs).len()),
    ensures
        binaries_from(t, k) == (bs, k + binaries_text(bs).len()),
    decreases bs.len(),
{
    let e = k + binaries_text(bs).len();
    if bs.len() == 0 {
        if 0 <= k < t.len() && t[k] == '\n' {
            lemma_run_end_exact(t, k + 1, k + 1, |c: char| is_space(c));
        }
    } else {
        reveal_strlit("\n    ");
        let indent = "\n    "@;
        let b = bs[0];
        let rest = bs.drop_first();
        assert(binaries_text(bs) == indent + b + binaries_text(rest));
        lemma_occurs_split(t, k, indent + b, binaries_text(rest));
        lemma_occurs_split(t, k, indent, b);
        let a = k + 5;
        let f = a + b.len();
        assert(is_identifier(bs[0]));
        lemma_occurs_index(t, k, indent, 0);
        assert forall|m: int| k + 1 <= m < a implies is_space(#[trigger] t[m]) by {
            lemma_occurs_index(t, k, indent, m - k);
        }
        lemma_occurs_index(t, a, b, 0);
        lemma_run_end_exact(t, k + 1, a, |c: char| is_space(c));
        assert(t.subrange(a, f) == b);
        if rest.len() > 0 {
            reveal_strlit("\n    ");
            assert(binaries_text(rest) == indent + rest[0] + binaries_text(rest.drop_first()));
            lemma_occurs_split(t, f, indent + rest[0], binaries_text(rest.drop_first()));
            lemma_occurs_split(t, f, indent, rest[0]);
            lemma_occurs_index(t, f, indent, 0);
        }
        lemma_ident_end_exact(t, a, f);
        assert(binary_spec(t, k + 1) == Some((a, f)));
        lemma_binaries_exact(t, f, rest);
        assert(seq![b] + rest =~= bs);
    }
}

} // verus!

verus! {

proof fn lemma_group_exact(t: Seq<char>, i: int, g: KrateModel)
    requires
        0 <= i,
        well_formed(g),
        occurs_at(t, i, group_text(g)),
        ends_piece(t, i + group_text(g).len()),
    ensures
        group_spec(t, i) == Some((g, i + group_text(g).len())),
        header_spec(t, i) is Some,
{
    reveal_strlit(" v");
    reveal_strlit(":");
    reveal_strlit("\n    ");
    let name = g.name;
    let vt = version_text(g.version);
    let bt = binaries_text(g.binaries);
    let e = i + group_text(g).len();
    lemma_occurs_split(t, i, name + " v"@ + vt + ":"@, bt);
    lemma_occurs_split(t, i, name + " v"@ + vt, ":"@);
    lemma_occurs_split(t, i, name + " v"@, vt);
    lemma_occurs_split(t, i, name, " v"@);
    let n = i + name.len();
    let h = n + 2 + vt.len();
    lemma_occurs_index(t, n, " v"@, 0);
    lemma_occurs_index(t, n, " v"@, 1);
    lemma_occurs_index(t, h, ":"@, 0);
    assert(t.subrange(i, n) == name);
    lemma_ident_end_exact(t, i, n);
    lemma_run_end_exact(t, n, n + 1, |c: char| is_multispace(c));
    assert(multispace_end(t, n) == n + 1);
    lemma_triple_exact(t, n + 2, g.version);
    assert(header_spec(t, i) == Some((n, g.version, h)));
    let bins = g.binaries;
    assert(bt == "\n    "@ + bins[0] + binaries_text(bins.drop_first()));
    lemma_occurs_split(t, h + 1, "\n    "@ + bins[0], binaries_text(bins.drop_first()));
    lemma_occurs_split(t, h + 1, "\n    "@, bins[0]);
    lemma_occurs_index(t, h + 1, "\n    "@, 0);
    lemma_run_end_exact(t, h, h + 1, |c: char| c != '\n');
    assert(line_end(t, h) == h + 1);
    lemma_binaries_exact(t, h + 1, bins);
    assert(listed(t.subrange(i, n), g.version, bins) == g);
}

} // verus!

verus! {

proof fn lemma_groups_exact(t: Seq<char>, i: int, ks: Seq<KrateModel>)
    requires
        0 <= i,
        ks.len() > 0,
        forall|j: int| 0 <= j < ks.len() ==> well_formed(#[trigger] ks[j]),
        occurs_at(t, i, listing_text(ks)),
        i + listing_text(ks).len() == t.len(),
    ensures
        groups_from(t, i) == Some((ks, t.len() as int)),
    decreases ks.len(),
{
    assert(well_formed(ks[0]));
    if ks.len() == 1 {
        lemma_group_exact(t, i, ks[0]);
        assert(seq![ks[0]] =~= ks);
    } else {
        reveal_strlit("\n");
        let rest = ks.drop_first();
        let g0 = group_text(ks[0]);
        assert(listing_text(ks) == g0 + "\n"@ + listing_text(rest));
        lemma_occurs_split(t, i, g0 + "\n"@, listing_text(rest));
        lemma_occurs_split(t, i, g0, "\n"@);
        let e = i + g0.len();
        lemma_occurs_index(t, e, "\n"@, 0);
        assert(well_formed(rest[0]));
        let r0 = rest[0];
        if rest.len() == 1 {
            assert(listing_text(rest) == group_text(r0));
        } else {
            assert(listing_text(rest) == group_text(r0) + "\n"@ + listing_text(rest.drop_first()));
        }
        reveal_strlit(" v");
        assert(group_text(r0) == r0.name + " v"@ + version_text(r0.version) + ":"@ + binaries_text(
            r0.binaries,
        ));
        assert(listing_text(rest)[0] == r0.name[0]);
        lemma_occurs_index(t, e + 1, listing_text(rest), 0);
        lemma_group_exact(t, i, ks[0]);
        lemma_groups_exact(t, e + 1, rest);
        assert(header_spec(t, e + 1) is Some);
        assert(seq![ks[0]] + rest =~= ks);
    }
}

proof fn lemma_binaries_from_identifiers(t: Seq<char>, i: int)
    requires
        0 <= i,
    ensures
        forall|j: int|
            0 <= j < binaries_from(t, i).0.len() ==> is_identifier(#[trigger] binaries_from(t, i).0[j]),
    decreases t.len() - i,
{
    if 0 <= i < t.len() && t[i] == '\n' {
        match binary_spec(t, i + 1) {
            Some((a, e)) => if 0 <= a <= e <= t.len() && i < e {
                lemma_binaries_from_identifiers(t, e);
                lemma_ident_end_is_identifier(t, a);
                let (more, _) = binaries_from(t, e);
                assert forall|j: int| 0 <= j < binaries_from(t, i).0.len() implies is_identifier(
                    #[trigger] binaries_from(t, i).0[j],
                ) by {
                    if j > 0 {
                        assert(binaries_from(t, i).0[j] == more[j - 1]);
                    }
                }
            },
            None => {},
        }
    }
}

proof fn lemma_groups_well_formed(t: Seq<char>, i: int)
    requires
        0 <= i,
        groups_from(t, i) is Some,
    ensures
        forall|j: int|
            0 <= j < found(groups_from(t, i)).len() ==> well_formed(#[trigger] found(groups_from(t, i))[j]),
    decreases t.len() - i,
{
    let (g, e) = group_spec(t, i)->0;
    let (n, v, h) = header_spec(t, i)->0;
    lemma_ident_end_is_identifier(t, i);
    lemma_binaries_from_identifiers(t, line_end(t, h));
    assert(well_formed(g));
    if i < e && e < t.len() && t[e] == '\n' && header_spec(t, e + 1) is Some {
        lemma_groups_well_formed(t, e + 1);
        let gs = found(groups_from(t, e + 1));
        assert forall|j: int| 0 <= j < found(groups_from(t, i)).len() implies well_formed(
            #[trigger] found(groups_from(t, i))[j],
        ) by {
            if j > 0 {
                assert(found(groups_from(t, i))[j] == gs[j - 1]);
            }
        }
    }
}

} // verus!

verus! {

/// Every package that a listing parses to is well formed.
pub proof fn lemma_listing_well_formed(t: Seq<char>)
    requires
        listing_spec(t) is Some,
    ensures
        forall|j: int|
            0 <= j < found(listing_spec(t)).len() ==> well_formed(#[trigger] found(listing_spec(t))[j]),
{
    if header_spec(t, 0) is Some {
        lemma_groups_well_formed(t, 0);
    }
}

/// Well-formed packages written as a listing parse back to themselves, the
/// whole text consumed.
pub proof fn lemma_listing_text_parses(ks: Seq<KrateModel>)
    requires
        forall|j: int| 0 <= j < ks.len() ==> well_formed(#[trigger] ks[j]),
    ensures
        listing_spec(listing_text(ks)) == Some((ks, listing_text(ks).len() as int)),
{
    let t = listing_text(ks);
    if ks.len() == 0 {
        assert(t.len() == 0);
        assert(ks =~= Seq::<KrateModel>::empty());
    } else {
        assert(t.subrange(0, t.len() as int) =~= t);
        lemma_groups_exact(t, 0, ks);
        assert(header_spec(t, 0) is Some);
    }
}

/// Parsing a listing, writing its packages back as a listing and parsing
/// that again gives the same packages.
pub proof fn lemma_listing_round_trip(t: Seq<char>)
    requires
        listing_spec(t) is Some,
    ensures
        found(listing_spec(listing_text(found(listing_spec(t))))) == found(listing_spec(t)),
        listing_spec(listing_text(found(listing_spec(t)))) is Some,
{
    lemma_listing_well_formed(t);
    lemma_listing_text_parses(found(listing_spec(t)));
}

} // verus!
