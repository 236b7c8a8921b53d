//! The catalog of installed packages and the bookkeeping of the background
//! operations that change it.
use vstd::prelude::*;
use vstd::string::*;
use crate::errors::{ChannelError, Error};
use crate::krate::{copy_strings, is_outdated, outdated, Krate, KrateMetadata, KrateModel, Krates, MetadataModel};
use crate::listing::{listing_spec, parse_ver, version_search};
use crate::selection::{removal_spec, Selection};
use crate::version::Version;

verus! {

/// `ks[i]` is the first package named `n`.
pub open spec fn first_named(ks: Seq<KrateModel>, n: Seq<char>, i: int) -> bool {
    &&& 0 <= i < ks.len()
    &&& ks[i].name == n
    &&& forall|j: int| 0 <= j < i ==> ks[j].name != n
}

pub open spec fn has_name(ks: Seq<KrateModel>, n: Seq<char>) -> bool {
    exists|i: int| 0 <= i < ks.len() && ks[i].name == n
}

/// Index of the first package named `n`, when there is one.
pub open spec fn index_of(ks: Seq<KrateModel>, n: Seq<char>) -> int {
    choose|i: int| first_named(ks, n, i)
}

pub proof fn lemma_index_of(ks: Seq<KrateModel>, n: Seq<char>, i: int)
    requires
        first_named(ks, n, i),
    ensures
        index_of(ks, n) == i,
{
    let k = index_of(ks, n);
    assert(first_named(ks, n, k));
    if k < i {
        assert(ks[k].name != n);
    } else if i < k {
        assert(ks[i].name != n);
    }
}

/// The catalog: the installed packages in listing order.
#[derive(Debug, Default)]
pub struct Depot {
    pub store: Krates,
}

impl Depot {
    /// Each package name occurs once.
    pub open spec fn wf(&self) -> bool {
        names(self.store@).no_duplicates()
    }

    /// Builds the catalog from the text of the listing of installed packages.
    /// A listing that names a package twice is refused with `DuplicateName`.
    pub fn get(listing: &str) -> (r: Result<Depot, Error>)
        ensures
            listing_spec(listing@) is None <==> (r matches Err(e) && e is Parser),
            r matches Ok(d) ==> listing_spec(listing@) matches Some((ks, _)) && d.store@ == ks
                && d.wf(),
            match r {
                Err(Error::DuplicateName(n)) => listing_spec(listing@) matches Some((ks, _))
                    && !names(ks).no_duplicates() && names(ks).contains(n@),
                _ => true,
            },
            listing_spec(listing@) matches Some((ks, _)) ==> (r is Ok <==> names(ks).no_duplicates()),
    {
        match Krates::parse(listing) {
            Ok((_, store)) => {
                let d = Depot { store };
                match d.first_repeat() {
                    None => Ok(d),
                    Some(i) => {
                        let n = d.store.0[i].name.clone();
                        proof {
                            assert(d.store@[i as int] == d.store.0@[i as int]@);
                            assert(n@ == d.store@[i as int].name);
                            assert(names(d.store@).contains(n@));
                        }
                        Err(Error::DuplicateName(n))
                    },
                }
            },
            Err(e) => Err(Error::Parser(e)),
        }
    }

    /// A position whose package name an earlier package already has.
    fn first_repeat(&self) -> (r: Option<usize>)
        ensures
            r is None <==> self.wf(),
            r matches Some(i) ==> i < self.store@.len() && names(self.store@).contains(
                self.store@[i as int].name,
            ),
    {
        let n = self.store.0.len();
        let ghost ns = names(self.store@);
        for i in 0..n
            invariant
                n == self.store@.len(),
                ns == names(self.store@),
                forall|a: int, b: int| 0 <= a < b < i ==> ns[a] != ns[b],
        {
            for j in 0..i
                invariant
                    n == self.store@.len(),
                    ns == names(self.store@),
                    i < n,
                    forall|a: int, b: int| 0 <= a < b < i ==> ns[a] != ns[b],
                    forall|a: int| 0 <= a < j ==> ns[a] != ns[i as int],
            {
                proof {
                    assert(self.store@[j as int] == self.store.0@[j as int]@);
                    assert(self.store@[i as int] == self.store.0@[i as int]@);
                }
                if self.store.0[j].name == self.store.0[i].name {
                    proof {
                        assert(ns[i as int] == self.store@[i as int].name);
                        assert(ns[j as int] == self.store@[j as int].name);
                        assert(ns[j as int] == ns[i as int]);
                    }
                    return Some(i);
                }
            }
        }
        None
    }

    /// Number of installed packages.
    pub fn crate_count(&self) -> (r: usize)
        ensures
            r == self.store@.len(),
    {
        self.store.0.len()
    }

    /// The outdated packages, in catalog order. A package whose detail has
    /// not been fetched is never outdated.
    pub fn get_outdated_krates(&self) -> (r: Result<Krates, Error>)
        ensures
            r matches Ok(ks) && ks@ == outdated(self.store@),
    {
        let ghost all = self.store@;
        let mut out: Vec<Krate> = Vec::new();
        let n = self.store.0.len();
        for i in 0..n
            invariant
                n == all.len(),
                all == self.store@,
                out@.map_values(|k: Krate| k@) == all.subrange(0, i as int).filter(
                    |k: KrateModel| is_outdated(k),
                ),
        {
            let k = &self.store.0[i];
            let ghost before = out@.map_values(|k: Krate| k@);
            proof {
                let s = all.subrange(0, i + 1);
                assert(s.drop_last() =~= all.subrange(0, i as int));
                assert(s.last() == k@);
                reveal(Seq::filter);
            }
            if !k.is_latest() {
                out.push(k.copied());
                proof {
                    assert(out@.map_values(|k: Krate| k@) =~= before.push(k@));
                }
            }
        }
        proof {
            assert(all.subrange(0, n as int) =~= all);
        }
        Ok(Krates(out))
    }

    /// Number of outdated packages.
    pub fn outdated_krate_count(&self) -> (r: Result<usize, Error>)
        ensures
            r matches Ok(c) && c == outdated(self.store@).len(),
    {
        let ks = self.get_outdated_krates()?;
        Ok(ks.0.len())
    }

    /// Index of the first package named `name`.
    pub fn position(&self, name: &str) -> (r: Option<usize>)
        ensures
            r is None <==> !has_name(self.store@, name@),
            r matches Some(i) ==> first_named(self.store@, name@, i as int) && index_of(
                self.store@,
                name@,
            ) == i,
    {
        let n = String::from_str(name);
        let len = self.store.0.len();
        for i in 0..len
            invariant
                len == self.store@.len(),
                n@ == name@,
                forall|j: int| 0 <= j < i ==> self.store@[j].name != name@,
        {
            if self.store.0[i].name == n {
                proof {
                    lemma_index_of(self.store@, name@, i as int);
                }
                return Some(i);
            }
        }
        None
    }
}

} // verus!

verus! {

/// The catalog with the selections of the two lists on screen and the names
/// of the packages that have a background operation in flight.
#[derive(Debug)]
pub struct DepotState {
    pub depot: Depot,
    pub list_state: Selection,
    pub update_list_state: Selection,
    pub update_queue: Vec<String>,
}

/// `ks` with the detail of its package at `i` replaced by `m`.
pub open spec fn with_detail(ks: Seq<KrateModel>, i: int, m: MetadataModel) -> Seq<KrateModel> {
    ks.update(i, KrateModel { metadata: m, ..ks[i] })
}

/// `ks` with the installed version of its package at `i` replaced by `v`.
pub open spec fn with_version(ks: Seq<KrateModel>, i: int, v: Version) -> Seq<KrateModel> {
    ks.update(i, KrateModel { version: v, ..ks[i] })
}

/// Marking `n` as in flight in the set `p`: the new set, and whether new
/// work is to start.
pub open spec fn start_spec(p: Set<Seq<char>>, n: Seq<char>) -> (Set<Seq<char>>, bool) {
    (p.insert(n), !p.contains(n))
}

/// Starting an operation on a name that is already in flight starts no
/// second one and leaves the in-flight set as it is.
pub proof fn lemma_second_start_is_noop(p: Set<Seq<char>>, n: Seq<char>)
    ensures
        start_spec(start_spec(p, n).0, n) == (start_spec(p, n).0, false),
{
    assert(p.insert(n).insert(n) =~= p.insert(n));
}

/// Once an uninstall completes, the package is gone from a catalog with
/// unique names; a selection on it is cleared, and a selection below it
/// still designates the same package.
pub proof fn lemma_uninstall_clears_selection(
    ks: Seq<KrateModel>,
    n: Seq<char>,
    sel: Option<usize>,
    j: usize,
)
    requires
        has_name(ks, n),
        names(ks).no_duplicates(),
        ks.len() <= usize::MAX,
    ensures
        !has_name(ks.remove(index_of(ks, n)), n),
        sel == Some(index_of(ks, n) as usize) ==> removal_spec(sel, index_of(ks, n) as usize) is None,
        sel == Some(j) && index_of(ks, n) != j && j < ks.len() ==> (removal_spec(
            sel,
            index_of(ks, n) as usize,
        ) matches Some(k) && ks.remove(index_of(ks, n))[k as int] == ks[j as int]),
{
    let i = choose|i: int| 0 <= i < ks.len() && ks[i].name == n;
    assert(exists|f: int| first_named(ks, n, f)) by {
        lemma_first_exists(ks, n, i);
    }
    let i = index_of(ks, n);
    assert(first_named(ks, n, i));
    let rest = ks.remove(i);
    if sel == Some(j) && i != j && j < ks.len() {
        if j > i {
            assert(rest[j - 1] == ks[j as int]);
        } else {
            assert(rest[j as int] == ks[j as int]);
        }
    }
    assert forall|k: int| 0 <= k < rest.len() implies rest[k].name != n by {
        if k < i {
            assert(rest[k] == ks[k]);
        } else {
            assert(rest[k] == ks[k + 1]);
            assert(names(ks)[k + 1] == ks[k + 1].name);
            assert(names(ks)[i] == ks[i].name);
        }
    }
}

proof fn lemma_remove_keeps_unique(ks: Seq<KrateModel>, i: int)
    requires
        0 <= i < ks.len(),
        names(ks).no_duplicates(),
    ensures
        names(ks.remove(i)).no_duplicates(),
{
    let rest = ks.remove(i);
    assert forall|a: int, b: int| 0 <= a < b < rest.len() implies names(rest)[a] != names(
        rest,
    )[b] by {
        let a2 = if a < i { a } else { a + 1 };
        let b2 = if b < i { b } else { b + 1 };
        assert(rest[a] == ks[a2]);
        assert(rest[b] == ks[b2]);
        assert(names(ks)[a2] == ks[a2].name);
        assert(names(ks)[b2] == ks[b2].name);
    }
}

proof fn lemma_first_exists(ks: Seq<KrateModel>, n: Seq<char>, i: int)
    requires
        0 <= i < ks.len(),
        ks[i].name == n,
    ensures
        exists|f: int| first_named(ks, n, f),
    decreases i,
{
    if exists|j: int| 0 <= j < i && ks[j].name == n {
        let j = choose|j: int| 0 <= j < i && ks[j].name == n;
        lemma_first_exists(ks, n, j);
    } else {
        assert(first_named(ks, n, i));
    }
}

impl DepotState {
    /// Names with an operation in flight.
    pub open spec fn pending(&self) -> Set<Seq<char>> {
        self.update_queue.deep_view().to_set()
    }

    /// Each pending name is held once, and each package name occurs once in
    /// the catalog.
    pub open spec fn wf(&self) -> bool {
        &&& self.update_queue.deep_view().no_duplicates()
        &&& self.depot.wf()
    }

    /// A state over `depot` with nothing selected and nothing in flight.
    pub fn new(depot: Depot) -> (r: DepotState)
        requires
            depot.wf(),
        ensures
            r.wf(),
            r.depot == depot,
            r.list_state.selected is None,
            r.update_list_state.selected is None,
            r.pending() == Set::<Seq<char>>::empty(),
    {
        let q: Vec<String> = Vec::new();
        proof {
            assert(q.deep_view() =~= Seq::<Seq<char>>::empty());
        }
        DepotState {
            depot,
            list_state: Selection::new(),
            update_list_state: Selection::new(),
            update_queue: q,
        }
    }

    fn pending_index(&self, name: &str) -> (r: Option<usize>)
        ensures
            r is None <==> !self.pending().contains(name@),
            r matches Some(i) ==> i < self.update_queue@.len() && self.update_queue@[i as int]@
                == name@,
    {
        let n = String::from_str(name);
        let len = self.update_queue.len();
        for i in 0..len
            invariant
                len == self.update_queue@.len(),
                n@ == name@,
                forall|j: int| 0 <= j < i ==> self.update_queue@[j]@ != name@,
        {
            if self.update_queue[i] == n {
                proof {
                    assert(self.update_queue.deep_view()[i as int] == name@);
                }
                return Some(i);
            }
        }
        proof {
            if self.pending().contains(name@) {
                let j = self.update_queue.deep_view().index_of(name@);
                assert(self.update_queue.deep_view()[j] == self.update_queue@[j]@);
            }
        }
        None
    }

    /// Whether an operation on `name` is in flight.
    pub fn is_pending(&self, name: &str) -> (r: bool)
        ensures
            r == self.pending().contains(name@),
    {
        self.pending_index(name).is_some()
    }

    /// Marks an operation on `krate` as in flight. Gives `false`, and changes
    /// nothing, when one already is: the caller then starts no new work.
    pub fn append_to_update_queue(&mut self, krate: &str) -> (r: bool)
        requires
            old(self).wf(),
        ensures
            final(self).wf(),
            (final(self).pending(), r) == start_spec(old(self).pending(), krate@),
            final(self).depot == old(self).depot,
            final(self).list_state == old(self).list_state,
            final(self).update_list_state == old(self).update_list_state,
    {
        if self.is_pending(krate) {
            proof {
                assert(self.pending().insert(krate@) =~= self.pending());
            }
            return false;
        }
        let ghost before = self.update_queue.deep_view();
        self.update_queue.push(String::from_str(krate));
        proof {
            assert(self.update_queue.deep_view() =~= before.push(krate@));
            assert(before.push(krate@).to_set() =~= before.to_set().insert(krate@)) by {
                assert forall|x: Seq<char>| before.push(krate@).contains(x) <==> (before.contains(x)
                    || x == krate@) by {
                    if before.push(krate@).contains(x) {
                        let j = before.push(krate@).index_of(x);
                        if j < before.len() {
                            assert(before[j] == x);
                        }
                    }
                    if before.contains(x) {
                        let j = before.index_of(x);
                        assert(before.push(krate@)[j] == x);
                    }
                    if x == krate@ {
                        assert(before.push(krate@)[before.len() as int] == x);
                    }
                }
            }
            assert forall|a: int, b: int|
                0 <= a < b < self.update_queue.deep_view().len() implies self.update_queue.deep_view()[a]
                != self.update_queue.deep_view()[b] by {
                if b == before.len() {
                    assert(before[a] == self.update_queue.deep_view()[a]);
                    assert(before.contains(before[a]));
                }
            }
        }
        true
    }

    /// Clears the in-flight mark of `name`.
    pub fn remove_pending(&mut self, name: &str)
        requires
            old(self).wf(),
        ensures
            final(self).wf(),
            final(self).pending() == old(self).pending().remove(name@),
            final(self).depot == old(self).depot,
            final(self).list_state == old(self).list_state,
            final(self).update_list_state == old(self).update_list_state,
    {
        match self.pending_index(name) {
            None => {
                proof {
                    assert(self.pending().remove(name@) =~= self.pending());
                }
            },
            Some(i) => {
                let ghost before = self.update_queue.deep_view();
                self.update_queue.remove(i);
                proof {
                    let after = before.remove(i as int);
                    assert(self.update_queue.deep_view() =~= after);
                    assert forall|x: Seq<char>| after.contains(x) <==> (before.contains(x) && x
                        != name@) by {
                        if after.contains(x) {
                            let j = after.index_of(x);
                            if j < i {
                                assert(before[j] == x);
                                assert(before[i as int] == name@);
                            } else {
                                assert(before[j + 1] == x);
                                assert(before[i as int] == name@);
                            }
                        }
                        if before.contains(x) && x != name@ {
                            let j = before.index_of(x);
                            assert(j != i);
                            if j < i {
                                assert(after[j] == x);
                            } else {
                                assert(after[j - 1] == x);
                            }
                        }
                    }
                    assert(after.to_set() =~= before.to_set().remove(name@));
                    assert forall|a: int, b: int| 0 <= a < b < after.len() implies after[a]
                        != after[b] by {
                        if a < i {
                            if b < i {
                                assert(after[b] == before[b]);
                            } else {
                                assert(after[b] == before[b + 1]);
                            }
                        } else {
                            assert(after[a] == before[a + 1]);
                            assert(after[b] == before[b + 1]);
                        }
                    }
                }
            },
        }
    }

    /// The names with an operation in flight, each once.
    pub fn get_update_items(&self) -> (r: Vec<String>)
        requires
            self.wf(),
        ensures
            r.deep_view().to_set() == self.pending(),
            r.deep_view().no_duplicates(),
    {
        copy_strings(&self.update_queue)
    }

    /// Whether every package's detail has been fetched.
    pub fn is_all_synced(&self) -> (r: bool)
        ensures
            r == forall|i: int| 0 <= i < self.depot.store@.len()
                ==> #[trigger] self.depot.store@[i].metadata.info.synced,
    {
        let n = self.depot.store.0.len();
        for i in 0..n
            invariant
                n == self.depot.store@.len(),
                forall|j: int| 0 <= j < i ==> #[trigger] self.depot.store@[j].metadata.info.synced,
        {
            if !self.depot.store.0[i].is_metadata_synced() {
                assert(self.depot.store@[i as int] == self.depot.store.0@[i as int]@);
                assert(!self.depot.store@[i as int].metadata.info.synced);
                return false;
            }
        }
        true
    }
}

} // verus!

verus! {

impl Krate {
    /// Sets the installed version to the one that `listing`, a fresh listing
    /// of installed packages, gives on this package's own line: the first
    /// place where the name stands at the start of the text or after white
    /// space, followed by white space, `v` and a version. Fails with `Parser`,
    /// changing nothing, when there is no such line.
    pub fn update_version(&mut self, listing: &str) -> (r: Result<(), Error>)
        ensures
            r is Ok <==> version_search(listing@, 0, old(self).name@) is Some,
            r is Ok ==> (version_search(listing@, 0, old(self).name@) matches Some((v, _))
                && final(self)@ == (KrateModel { version: v, ..old(self)@ })),
            r is Err ==> final(self)@ == old(self)@ && (r matches Err(e) && e is Parser),
    {
        match parse_ver(listing, self.name.as_str()) {
            Ok((_, v)) => {
                self.version = v;
                Ok(())
            },
            Err(e) => Err(Error::Parser(e)),
        }
    }
}

impl DepotState {
    /// Replaces, wholesale, the detail of the package that `m` names.
    /// Fails with `UnmatchedName`, changing nothing, when the catalog holds
    /// no package of that name.
    pub fn merge_detail(&mut self, m: KrateMetadata) -> (r: Result<(), Error>)
        ensures
            r is Ok <==> has_name(old(self).depot.store@, m.name@),
            r is Ok ==> final(self).depot.store@ == with_detail(
                old(self).depot.store@,
                index_of(old(self).depot.store@, m.name@),
                m@,
            ),
            r matches Err(e) ==> e matches Error::UnmatchedName(n) && n@ == m.name@,
            r is Err ==> final(self).depot.store@ == old(self).depot.store@,
            names(final(self).depot.store@) == names(old(self).depot.store@),
            final(self).list_state == old(self).list_state,
            final(self).update_list_state == old(self).update_list_state,
            final(self).update_queue == old(self).update_queue,
    {
        match self.depot.position(m.name.as_str()) {
            None => Err(Error::UnmatchedName(m.name)),
            Some(i) => {
                let ghost before = self.depot.store@;
                let ghost mv = m@;
                self.depot.store.0[i].metadata = m;
                proof {
                    assert(self.depot.store@ =~= with_detail(before, i as int, mv));
                    assert(names(self.depot.store@) =~= names(before));
                }
                Ok(())
            },
        }
    }

    /// Completes an install or upgrade of package `name`: sets its installed
    /// version to the one that `listing`, a fresh listing of installed
    /// packages, gives on its own line, and clears its in-flight mark
    /// whatever the outcome. Fails with `KrateNotFound` when the catalog has
    /// no such package, with `Parser` when the listing has no line for it;
    /// the catalog is then unchanged.
    pub fn update_krate(&mut self, name: &str, listing: &str) -> (r: Result<(), Error>)
        requires
            old(self).wf(),
        ensures
            final(self).wf(),
            final(self).pending() == old(self).pending().remove(name@),
            !has_name(old(self).depot.store@, name@) ==> (r matches Err(e) && e matches Error::KrateNotFound(
                n,
            ) && n@ == name@),
            has_name(old(self).depot.store@, name@) && version_search(listing@, 0, name@) is None
                ==> (r matches Err(e) && e is Parser),
            r is Ok <==> has_name(old(self).depot.store@, name@) && version_search(listing@, 0, name@)
                is Some,
            r is Ok ==> (version_search(listing@, 0, name@) matches Some((v, _))
                && final(self).depot.store@ == with_version(
                old(self).depot.store@,
                index_of(old(self).depot.store@, name@),
                v,
            )),
            r is Err ==> final(self).depot.store@ == old(self).depot.store@,
            names(final(self).depot.store@) == names(old(self).depot.store@),
            final(self).list_state == old(self).list_state,
            final(self).update_list_state == old(self).update_list_state,
    {
        let r = match self.depot.position(name) {
            Some(i) => {
                let ghost before = self.depot.store@;
                let r = self.depot.store.0[i].update_version(listing);
                proof {
                    if r is Ok {
                        let (v, _) = version_search(listing@, 0, name@)->0;
                        assert(self.depot.store@ =~= with_version(before, i as int, v));
                    } else {
                        assert(self.depot.store@ =~= before);
                    }
                    assert(names(self.depot.store@) =~= names(before));
                }
                r
            },
            None => Err(Error::KrateNotFound(String::from_str(name))),
        };
        self.remove_pending(name);
        r
    }

    /// Removes package `name` after its uninstall completed. The selection of
    /// the catalog list follows the rows (cleared if it was that package);
    /// the selection of the outdated list is cleared. Nothing happens when
    /// the catalog holds no such package.
    pub fn remove_krate(&mut self, name: &str)
        ensures
            has_name(old(self).depot.store@, name@) ==> {
                let i = index_of(old(self).depot.store@, name@);
                &&& final(self).depot.store@ == old(self).depot.store@.remove(i)
                &&& final(self).list_state.selected == removal_spec(
                    old(self).list_state.selected,
                    i as usize,
                )
                &&& final(self).update_list_state.selected is None
            },
            !has_name(old(self).depot.store@, name@) ==> final(self).depot.store@ == old(self).depot.store@ && final(self).list_state == old(self).list_state
                && final(self).update_list_state == old(self).update_list_state,
            final(self).update_queue == old(self).update_queue,
            old(self).depot.wf() ==> final(self).depot.wf() && !has_name(
                final(self).depot.store@,
                name@,
            ),
    {
        match self.depot.position(name) {
            None => {},
            Some(i) => {
                let ghost before = self.depot.store.0@;
                let ghost ks = self.depot.store@;
                assert(ks.len() == self.depot.store.0.len());
                self.depot.store.0.remove(i);
                proof {
                    assert(self.depot.store@ =~= before.map_values(|k: Krate| k@).remove(i as int));
                    if names(ks).no_duplicates() {
                        lemma_remove_keeps_unique(ks, i as int);
                        lemma_uninstall_clears_selection(ks, name@, None, 0);
                    }
                }
                self.list_state.remove_row(i);
                self.update_list_state.select(None);
            },
        }
    }
}

} // verus!

verus! {

pub open spec fn names(ks: Seq<KrateModel>) -> Seq<Seq<char>> {
    ks.map_values(|k: KrateModel| k.name)
}

impl DepotState {
    /// Starts a refresh of every package that has no operation in flight:
    /// marks each as in flight and gives their names, each once.
    pub fn refresh_all(&mut self) -> (r: Vec<String>)
        requires
            old(self).wf(),
        ensures
            final(self).wf(),
            final(self).pending() == old(self).pending().union(names(old(self).depot.store@).to_set()),
            r.deep_view().to_set() == names(old(self).depot.store@).to_set().difference(
                old(self).pending(),
            ),
            r.deep_view().no_duplicates(),
            final(self).depot == old(self).depot,
            final(self).list_state == old(self).list_state,
            final(self).update_list_state == old(self).update_list_state,
    {
        let ghost p0 = self.pending();
        let ghost all = names(self.depot.store@);
        let mut r: Vec<String> = Vec::new();
        let n = self.depot.store.0.len();
        for i in 0..n
            invariant
                self.wf(),
                n == all.len(),
                all == names(self.depot.store@),
                self.depot == old(self).depot,
                self.list_state == old(self).list_state,
                self.update_list_state == old(self).update_list_state,
                p0 == old(self).pending(),
                self.pending() == p0.union(all.subrange(0, i as int).to_set()),
                r.deep_view().to_set() == all.subrange(0, i as int).to_set().difference(p0),
                r.deep_view().no_duplicates(),
        {
            let name = self.depot.store.0[i].name.clone();
            proof {
                assert(all[i as int] == name@);
                assert(all.subrange(0, i + 1) =~= all.subrange(0, i as int).push(name@));
                all.subrange(0, i as int).lemma_push_to_set_commute(name@);
            }
            let ghost rv = r.deep_view();
            if self.append_to_update_queue(name.as_str()) {
                r.push(name);
                proof {
                    assert(r.deep_view() =~= rv.push(name@));
                    rv.lemma_push_to_set_commute(name@);
                    assert(!rv.to_set().contains(name@));
                    assert forall|a: int, b: int| 0 <= a < b < r.deep_view().len() implies r.deep_view()[a]
                        != r.deep_view()[b] by {
                        if b == rv.len() {
                            assert(rv.to_set().contains(rv[a]));
                        }
                    }
                }
            }
            proof {
                assert(self.pending() =~= p0.union(all.subrange(0, i + 1).to_set()));
                assert(r.deep_view().to_set() =~= all.subrange(0, i + 1).to_set().difference(p0));
            }
        }
        proof {
            assert(all.subrange(0, n as int) =~= all);
        }
        r
    }
}

/// The outcome of a background operation, sent back to the foreground.
#[derive(Debug, Clone, PartialEq, Eq)]
pub enum DepotMessage {
    /// The detail of a package was fetched.
    FetchKrateInfo(KrateMetadata),
    /// A package was installed or upgraded; `listing` is a fresh listing of
    /// installed packages.
    UpdateKrate { krate: String, listing: String },
    /// A package was uninstalled.
    UninstallKrate { krate: String },
    /// The operation on `krate` failed.
    DepotError { krate: String, error: ChannelError },
}

impl DepotMessage {
    /// The package the message is about.
    pub open spec fn subject(&self) -> Seq<char> {
        match self {
            DepotMessage::FetchKrateInfo(m) => m.name@,
            DepotMessage::UpdateKrate { krate, .. } => krate@,
            DepotMessage::UninstallKrate { krate } => krate@,
            DepotMessage::DepotError { krate, .. } => krate@,
        }
    }

    /// Applies the outcome to the state. A success for a package with no
    /// operation in flight is stale and ignored. Otherwise the in-flight mark
    /// is cleared and the catalog changes as the outcome says; a failure
    /// leaves the catalog as it is and is given back as `HandleKrate`.
    pub fn handle(self, state: &mut DepotState) -> (r: Result<(), Error>)
        requires
            old(state).wf(),
        ensures
            final(state).wf(),
            !(self is DepotError) && !old(state).pending().contains(self.subject()) ==> r is Ok
                && final(state).depot.store@ == old(state).depot.store@
                && final(state).pending() == old(state).pending()
                && final(state).list_state == old(state).list_state
                && final(state).update_list_state == old(state).update_list_state,
            (self is DepotError || old(state).pending().contains(self.subject()))
                ==> final(state).pending() == old(state).pending().remove(self.subject()),
            match self {
                DepotMessage::DepotError { error, .. } => r == Err::<(), Error>(
                    Error::HandleKrate(error),
                ) && final(state).depot.store@ == old(state).depot.store@
                    && final(state).list_state == old(state).list_state
                    && final(state).update_list_state == old(state).update_list_state,
                DepotMessage::FetchKrateInfo(m) => old(state).pending().contains(m.name@) ==> {
                    &&& r is Ok <==> has_name(old(state).depot.store@, m.name@)
                    &&& r is Ok ==> final(state).depot.store@ == with_detail(
                        old(state).depot.store@,
                        index_of(old(state).depot.store@, m.name@),
                        m@,
                    )
                    &&& r is Err ==> (r matches Err(e) && e matches Error::UnmatchedName(n) && n@
                        == m.name@) && final(state).depot.store@ == old(state).depot.store@
                },
                DepotMessage::UpdateKrate { krate, listing } => old(state).pending().contains(
                    krate@,
                ) ==> {
                    &&& r is Ok <==> has_name(old(state).depot.store@, krate@) && version_search(
                        listing@,
                        0,
                        krate@,
                    ) is Some
                    &&& r is Ok ==> (version_search(listing@, 0, krate@) matches Some((v, _))
                        && final(state).depot.store@ == with_version(
                        old(state).depot.store@,
                        index_of(old(state).depot.store@, krate@),
                        v,
                    ))
                    &&& r is Err ==> final(state).depot.store@ == old(state).depot.store@
                },
                DepotMessage::UninstallKrate { krate } => old(state).pending().contains(krate@)
                    ==> r is Ok && if has_name(old(state).depot.store@, krate@) {
                    let i = index_of(old(state).depot.store@, krate@);
                    &&& final(state).depot.store@ == old(state).depot.store@.remove(i)
                    &&& !has_name(final(state).depot.store@, krate@)
                    &&& final(state).list_state.selected == removal_spec(
                        old(state).list_state.selected,
                        i as usize,
                    )
                    &&& final(state).update_list_state.selected is None
                } else {
                    final(state).depot.store@ == old(state).depot.store@
                },
            },
    {
        match self {
            DepotMessage::FetchKrateInfo(m) => {
                if !state.is_pending(m.name.as_str()) {
                    return Ok(());
                }
                state.remove_pending(m.name.as_str());
                state.merge_detail(m)
            },
            DepotMessage::UpdateKrate { krate, listing } => {
                if !state.is_pending(krate.as_str()) {
                    return Ok(());
                }
                state.update_krate(krate.as_str(), listing.as_str())
            },
            DepotMessage::UninstallKrate { krate } => {
                if !state.is_pending(krate.as_str()) {
                    return Ok(());
                }
                state.remove_pending(krate.as_str());
                state.remove_krate(krate.as_str());
                Ok(())
            },
            DepotMessage::DepotError { krate, error } => {
                state.remove_pending(krate.as_str());
                Err(Error::HandleKrate(error))
            },
        }
    }
}

} // verus!

verus! {

/// In a catalog with unique names, a package whose detail has not been
/// fetched never appears among the outdated ones, whatever its version.
pub proof fn lemma_unfetched_never_outdated(ks: Seq<KrateModel>, i: int)
    requires
        names(ks).no_duplicates(),
        0 <= i < ks.len(),
        !ks[i].metadata.info.synced,
    ensures
        forall|j: int| 0 <= j < outdated(ks).len() ==> (#[trigger] outdated(ks)[j]).name != ks[i].name,
{
    assert forall|j: int| 0 <= j < outdated(ks).len() implies (#[trigger] outdated(ks)[j]).name
        != ks[i].name by {
        let k = outdated(ks)[j];
        assert(outdated(ks).contains(k));
        ks.lemma_filter_contains_rev(|k: KrateModel| is_outdated(k), k);
        ks.lemma_filter_pred(|k: KrateModel| is_outdated(k), j);
        assert(ks.contains(k));
        let m = ks.index_of(k);
        if k.name == ks[i].name {
            assert(names(ks)[m] == ks[m].name);
            assert(names(ks)[i] == ks[i].name);
            assert(m == i);
        }
    }
}

/// The outdated packages all have a fetched detail that names a latest
/// version other than the installed one.
pub proof fn lemma_outdated_only_fetched(ks: Seq<KrateModel>)
    ensures
        forall|i: int|
            0 <= i < outdated(ks).len() ==> is_outdated(#[trigger] outdated(ks)[i]),
        forall|i: int| 0 <= i < outdated(ks).len() ==> (#[trigger] outdated(ks)[i]).metadata.info.synced,
{
    assert forall|i: int| 0 <= i < outdated(ks).len() implies is_outdated(
        #[trigger] outdated(ks)[i],
    ) by {
        ks.lemma_filter_pred(|k: KrateModel| is_outdated(k), i);
    }
}

} // verus!
