//! Screens of the front-end and how keys move between them.
use vstd::prelude::*;
use vstd::view::View as _;
use crate::depot::{names, DepotState};
use crate::krate::{outdated, KrateModel};
use crate::selection::{next_spec, previous_spec};

verus! {

/// The opening screen.
#[derive(Debug, Clone, Copy, PartialEq, Eq, Structural)]
pub struct Start;

/// The list of installed packages with the detail of the selected one.
#[derive(Debug, Clone, Copy, PartialEq, Eq, Structural)]
pub struct Catalog;

/// The list of outdated packages.
#[derive(Debug, Clone, Copy, PartialEq, Eq, Structural)]
pub struct Update;

/// The screen on display.
#[derive(Debug, Clone, Copy, PartialEq, Eq, Structural)]
pub enum View {
    Start(Start),
    Catalog(Catalog),
    Update(Update),
}

impl Default for View {
    fn default() -> (r: View)
        ensures
            r == View::Start(Start),
    {
        View::Start(Start)
    }
}

/// A key, as the front-end reports it.
#[derive(Debug, Clone, Copy, PartialEq, Eq, Structural)]
pub enum KeyCode {
    Char(char),
    Esc,
    Up,
    Down,
    Enter,
    Other,
}

/// A key press: the key and whether Control was held.
#[derive(Debug, Clone, Copy, PartialEq, Eq, Structural)]
pub struct Key {
    pub code: KeyCode,
    pub ctrl: bool,
}

/// Background work that the front-end is to start, one unit per package.
#[derive(Debug, Clone, PartialEq, Eq)]
pub enum Job {
    /// Fetch the detail report of the package.
    FetchInfo(String),
    /// Install or upgrade the package.
    Install(String),
    /// Uninstall the package.
    Uninstall(String),
}

/// The front-end's state: whether it runs, the catalog state and the screen.
#[derive(Debug)]
pub struct App {
    pub running: bool,
    pub state: DepotState,
    pub view: View,
    pub has_initialized: bool,
}

pub open spec fn is_back(key: Key) -> bool {
    key.code == KeyCode::Esc || key.code == KeyCode::Char('q')
}

pub open spec fn is_down(key: Key) -> bool {
    key.code == KeyCode::Down || key.code == KeyCode::Char('j')
}

pub open spec fn is_up(key: Key) -> bool {
    key.code == KeyCode::Up || key.code == KeyCode::Char('k')
}

/// Some package's detail is still being fetched.
pub open spec fn loading(s: DepotState) -> bool {
    exists|i: int|
        0 <= i < s.depot.store@.len() && !(#[trigger] s.depot.store@[i]).metadata.info.synced
            && s.pending().contains(s.depot.store@[i].name)
}

impl DepotState {
    /// Whether some package's detail is still being fetched.
    pub fn is_loading(&self) -> (r: bool)
        requires
            self.wf(),
        ensures
            r == loading(*self),
    {
        let n = self.depot.store.0.len();
        for i in 0..n
            invariant
                n == self.depot.store@.len(),
                forall|j: int|
                    0 <= j < i ==> !(!(#[trigger] self.depot.store@[j]).metadata.info.synced
                        && self.pending().contains(self.depot.store@[j].name)),
        {
            let k = &self.depot.store.0[i];
            proof {
                assert(self.depot.store@[i as int] == k@);
            }
            if !k.is_metadata_synced() && self.is_pending(k.name.as_str()) {
                return true;
            }
        }
        false
    }
}

impl App {
    /// A running front-end on `state`, showing the opening screen.
    pub fn new(state: DepotState) -> (r: App)
        ensures
            r.running,
            r.state == state,
            r.view == View::Start(Start),
            !r.has_initialized,
    {
        App { running: true, state, view: View::Start(Start), has_initialized: false }
    }

    /// Stops the front-end.
    pub fn quit(&mut self)
        ensures
            !final(self).running,
            final(self).state == old(self).state,
            final(self).view == old(self).view,
            final(self).has_initialized == old(self).has_initialized,
    {
        self.running = false;
    }

    /// On the first call, starts fetching the detail of every package and
    /// gives their names; afterwards gives nothing.
    pub fn handle_init(&mut self) -> (r: Vec<String>)
        requires
            old(self).state.wf(),
        ensures
            final(self).state.wf(),
            final(self).has_initialized,
            final(self).running == old(self).running,
            final(self).view == old(self).view,
            final(self).state.depot == old(self).state.depot,
            old(self).has_initialized ==> r@.len() == 0 && final(self).state == old(self).state,
            !old(self).has_initialized ==> {
                &&& final(self).state.pending() == old(self).state.pending().union(
                    names(old(self).state.depot.store@).to_set(),
                )
                &&& r.deep_view().to_set() == names(old(self).state.depot.store@).to_set().difference(
                    old(self).state.pending(),
                )
                &&& r.deep_view().no_duplicates()
            },
    {
        if self.has_initialized {
            return Vec::new();
        }
        self.has_initialized = true;
        self.state.refresh_all()
    }
}

/// What a key does on the opening screen: `o` and `f` are the front-end
/// before and after, `r` the work to start.
pub open spec fn start_step(o: App, f: App, key: Key, r: Option<Job>) -> bool {
    let ctrl_c = key.ctrl && (key.code == KeyCode::Char('c') || key.code == KeyCode::Char('C'));
    &&& r is None
    &&& f.state == o.state
    &&& f.has_initialized == o.has_initialized
    &&& is_back(key) || ctrl_c ==> !f.running && f.view == o.view
    &&& !is_back(key) && !ctrl_c ==> f.running == o.running
    &&& !is_back(key) && !ctrl_c && key.code == KeyCode::Char('c') ==> f.view == (if o.has_initialized
        && !loading(o.state) {
        View::Catalog(Catalog)
    } else {
        o.view
    })
    &&& !is_back(key) && !ctrl_c && key.code == KeyCode::Char('u') ==> f.view == View::Update(Update)
    &&& !is_back(key) && !ctrl_c && key.code != KeyCode::Char('c') && key.code != KeyCode::Char('u')
        ==> f.view == o.view
}

/// The work started, and the in-flight set after it, when `sel` is the
/// selection in the list `ks`; `uninstall` tells which work it is.
pub open spec fn job_step(
    o: DepotState,
    f: DepotState,
    ks: Seq<KrateModel>,
    sel: Option<usize>,
    uninstall: bool,
    r: Option<Job>,
) -> bool {
    match sel {
        Some(ix) if ix < ks.len() => {
            &&& f.pending() == o.pending().insert(ks[ix as int].name)
            &&& o.pending().contains(ks[ix as int].name) ==> r is None
            &&& !o.pending().contains(ks[ix as int].name) ==> (r matches Some(j) && (if uninstall {
                j matches Job::Uninstall(n) && n@ == ks[ix as int].name
            } else {
                j matches Job::Install(n) && n@ == ks[ix as int].name
            }))
        },
        _ => r is None && f.pending() == o.pending(),
    }
}

/// What a key does on the catalog screen.
pub open spec fn catalog_step(o: App, f: App, key: Key, r: Option<Job>) -> bool {
    let count = o.state.depot.store@.len() as usize;
    &&& f.running == o.running
    &&& f.has_initialized == o.has_initialized
    &&& f.state.depot == o.state.depot
    &&& f.state.update_list_state == o.state.update_list_state
    &&& key.code != KeyCode::Char('d') ==> r is None && f.state.pending() == o.state.pending()
    &&& is_back(key) ==> f.view == View::Start(Start) && f.state.list_state == o.state.list_state
    &&& is_down(key) ==> f.view == o.view && f.state.list_state.selected == next_spec(
        o.state.list_state.selected,
        count,
    )
    &&& is_up(key) ==> f.view == o.view && f.state.list_state.selected == previous_spec(
        o.state.list_state.selected,
        count,
    )
    &&& key.code == KeyCode::Char('d') ==> f.view == o.view && f.state.list_state.selected is None
        && job_step(
        o.state,
        f.state,
        o.state.depot.store@,
        o.state.list_state.selected,
        true,
        r,
    )
    &&& !is_back(key) && !is_down(key) && !is_up(key) && key.code != KeyCode::Char('d') ==> f.view
        == o.view && f.state.list_state == o.state.list_state
}

/// What a key does on the outdated list.
pub open spec fn update_step(o: App, f: App, key: Key, r: Option<Job>) -> bool {
    let ks = outdated(o.state.depot.store@);
    &&& f.running == o.running
    &&& f.has_initialized == o.has_initialized
    &&& f.state.depot == o.state.depot
    &&& f.state.list_state == o.state.list_state
    &&& key.code != KeyCode::Enter ==> r is None && f.state.pending() == o.state.pending()
    &&& is_back(key) ==> f.view == View::Start(Start) && f.state.update_list_state
        == o.state.update_list_state
    &&& is_down(key) ==> f.view == o.view && f.state.update_list_state.selected == next_spec(
        o.state.update_list_state.selected,
        ks.len() as usize,
    )
    &&& is_up(key) ==> f.view == o.view && f.state.update_list_state.selected == previous_spec(
        o.state.update_list_state.selected,
        ks.len() as usize,
    )
    &&& key.code == KeyCode::Enter ==> f.view == o.view && f.state.update_list_state
        == o.state.update_list_state && job_step(
        o.state,
        f.state,
        ks,
        o.state.update_list_state.selected,
        false,
        r,
    )
    &&& !is_back(key) && !is_down(key) && !is_up(key) && key.code != KeyCode::Enter ==> f.view
        == o.view && f.state.update_list_state == o.state.update_list_state
}

impl Start {
    /// Keys on the opening screen: Esc, `q` or Control-C quit; `c` opens the
    /// catalog once no detail is still loading; `u` opens the outdated list.
    pub fn select(app: &mut App, key: Key) -> (r: Option<Job>)
        requires
            old(app).state.wf(),
        ensures
            final(app).state.wf(),
            start_step(*old(app), *final(app), key, r),
    {
        let ctrl_c = key.ctrl && (key.code == KeyCode::Char('c') || key.code == KeyCode::Char('C'));
        if key.code == KeyCode::Esc || key.code == KeyCode::Char('q') || ctrl_c {
            app.quit();
        } else if key.code == KeyCode::Char('c') {
            if app.has_initialized && !app.state.is_loading() {
                app.view = View::Catalog(Catalog);
            }
        } else if key.code == KeyCode::Char('u') {
            app.view = View::Update(Update);
        }
        None
    }
}

} // verus!

verus! {

/// Starts an install or an uninstall of package `name`, unless an operation
/// on it is already in flight.
fn start_job(state: &mut DepotState, name: &String, uninstall: bool) -> (r: Option<Job>)
    requires
        old(state).wf(),
    ensures
        final(state).wf(),
        final(state).pending() == old(state).pending().insert(name@),
        final(state).depot == old(state).depot,
        final(state).list_state == old(state).list_state,
        final(state).update_list_state == old(state).update_list_state,
        old(state).pending().contains(name@) ==> r is None,
        !old(state).pending().contains(name@) ==> (r matches Some(j) && (if uninstall {
            j matches Job::Uninstall(n) && n@ == name@
        } else {
            j matches Job::Install(n) && n@ == name@
        })),
{
    if state.append_to_update_queue(name.as_str()) {
        if uninstall {
            Some(Job::Uninstall(name.clone()))
        } else {
            Some(Job::Install(name.clone()))
        }
    } else {
        None
    }
}

/// Uninstalls the selected package of the catalog list and clears the
/// selection; the package stays listed until the uninstall completes.
fn delete_selected_crate(app: &mut App) -> (r: Option<Job>)
    requires
        old(app).state.wf(),
    ensures
        final(app).state.wf(),
        final(app).view == old(app).view,
        final(app).running == old(app).running,
        final(app).has_initialized == old(app).has_initialized,
        final(app).state.depot == old(app).state.depot,
        final(app).state.list_state.selected is None,
        final(app).state.update_list_state == old(app).state.update_list_state,
        job_step(
            old(app).state,
            final(app).state,
            old(app).state.depot.store@,
            old(app).state.list_state.selected,
            true,
            r,
        ),
{
    match app.state.list_state.selected() {
        Some(ix) => {
            app.state.list_state.select(None);
            if ix < app.state.depot.store.0.len() {
                let name = app.state.depot.store.0[ix].name.clone();
                proof {
                    assert(app.state.depot.store@[ix as int] == app.state.depot.store.0@[ix as int]@);
                }
                start_job(&mut app.state, &name, true)
            } else {
                None
            }
        },
        None => None,
    }
}

impl Catalog {
    /// Keys on the catalog screen: Esc or `q` go back, `j`/Down and `k`/Up
    /// move the selection, `d` uninstalls the selected package and clears the
    /// selection.
    pub fn select(app: &mut App, key: Key) -> (r: Option<Job>)
        requires
            old(app).state.wf(),
        ensures
            final(app).state.wf(),
            catalog_step(*old(app), *final(app), key, r),
    {
        let count = app.state.depot.crate_count();
        if key.code == KeyCode::Esc || key.code == KeyCode::Char('q') {
            app.view = View::Start(Start);
            None
        } else if key.code == KeyCode::Down || key.code == KeyCode::Char('j') {
            app.state.list_state.select_next(count);
            None
        } else if key.code == KeyCode::Up || key.code == KeyCode::Char('k') {
            app.state.list_state.select_previous(count);
            None
        } else if key.code == KeyCode::Char('d') {
            delete_selected_crate(app)
        } else {
            None
        }
    }
}

impl Update {
    /// Keys on the outdated list: Esc or `q` go back, `j`/Down and `k`/Up
    /// move the selection, Enter upgrades the selected package.
    pub fn select(app: &mut App, key: Key) -> (r: Option<Job>)
        requires
            old(app).state.wf(),
        ensures
            final(app).state.wf(),
            update_step(*old(app), *final(app), key, r),
    {
        if key.code == KeyCode::Esc || key.code == KeyCode::Char('q') {
            app.view = View::Start(Start);
            return None;
        }
        let ks = match app.state.depot.get_outdated_krates() {
            Ok(ks) => ks,
            Err(_) => return None,
        };
        let count = ks.0.len();
        if key.code == KeyCode::Down || key.code == KeyCode::Char('j') {
            app.state.update_list_state.select_next(count);
            None
        } else if key.code == KeyCode::Up || key.code == KeyCode::Char('k') {
            app.state.update_list_state.select_previous(count);
            None
        } else if key.code == KeyCode::Enter {
            match app.state.update_list_state.selected() {
                Some(ix) => {
                    if ix < count {
                        proof {
                            assert(ks@[ix as int] == ks.0@[ix as int]@);
                        }
                        start_job(&mut app.state, &ks.0[ix].name, false)
                    } else {
                        None
                    }
                },
                None => None,
            }
        } else {
            None
        }
    }
}

/// Hands a key to the screen on display, which does with it what its
/// `select` does.
pub fn key_handler(app: &mut App, key: Key) -> (r: Option<Job>)
    requires
        old(app).state.wf(),
    ensures
        final(app).state.wf(),
        old(app).view is Start ==> start_step(*old(app), *final(app), key, r),
        old(app).view is Catalog ==> catalog_step(*old(app), *final(app), key, r),
        old(app).view is Update ==> update_step(*old(app), *final(app), key, r),
{
    match app.view {
        View::Start(_) => Start::select(app, key),
        View::Catalog(_) => Catalog::select(app, key),
        View::Update(_) => Update::select(app, key),
    }
}

} // verus!
