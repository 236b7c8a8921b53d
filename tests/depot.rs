use depot::depot::{Depot, DepotMessage, DepotState};
use depot::errors::{ChannelError, Error};
use depot::krate::{KrateInfo, KrateMetadata};
use depot::selection::Selection;
use depot::version::Version;
use depot::views::{key_handler, App, Catalog, Job, Key, KeyCode, Start, Update, View};

const LISTING: &str = "alpha v1.0.0:\n    alpha\nbeta v0.2.0:\n    beta\n    beta-cli\ngamma v3.1.4:\n    gamma\n";

fn report(name: &str, latest: &str) -> String {
    format!(
        "{name} #cli\n  Some tool.\n  version: {latest}\n  license: MIT\n  rust-version: 1.70.0\n  homepage: https://example.org/{name}\n"
    )
}

fn state() -> DepotState {
    DepotState::new(Depot::get(LISTING).unwrap())
}

fn fetched(state: &mut DepotState, name: &str, latest: &str) {
    assert!(state.append_to_update_queue(name));
    let m = KrateMetadata::get(name, &report(name, latest)).unwrap();
    DepotMessage::FetchKrateInfo(m).handle(state).unwrap();
}

fn key(c: char) -> Key {
    Key { code: KeyCode::Char(c), ctrl: false }
}

#[test]
fn listing_with_repeated_name_is_refused() {
    let text = "alpha v1.0.0:\n    alpha\nalpha v2.0.0:\n    alpha\n";
    assert_eq!(Depot::get(text).unwrap_err(), Error::DuplicateName("alpha".to_string()));
}

#[test]
fn catalog_from_listing() {
    let d = Depot::get(LISTING).unwrap();
    assert_eq!(d.crate_count(), 3);
    assert_eq!(d.store.0[1].binaries, vec!["beta".to_string(), "beta-cli".to_string()]);
    assert!(matches!(Depot::get("alpha v1.0.0:"), Err(Error::Parser(_))));
}

#[test]
fn outdated_excludes_unfetched() {
    let mut s = state();
    assert_eq!(s.depot.outdated_krate_count().unwrap(), 0);
    fetched(&mut s, "beta", "0.3.0");
    fetched(&mut s, "gamma", "3.1.4");
    let out = s.depot.get_outdated_krates().unwrap();
    assert_eq!(out.0.len(), 1);
    assert_eq!(out.0[0].name, "beta");
    assert!(s.depot.store.0[0].is_latest());
    assert!(!s.depot.store.0[1].is_latest());
    assert!(s.depot.store.0[2].is_latest());
}

#[test]
fn second_start_is_ignored() {
    let mut s = state();
    assert!(s.append_to_update_queue("alpha"));
    assert!(!s.append_to_update_queue("alpha"));
    assert_eq!(s.get_update_items(), vec!["alpha".to_string()]);
    assert!(s.is_pending("alpha"));
    assert!(!s.is_pending("beta"));
}

#[test]
fn refresh_all_skips_pending_names() {
    let mut s = state();
    assert!(s.append_to_update_queue("beta"));
    let names = s.refresh_all();
    assert_eq!(names, vec!["alpha".to_string(), "gamma".to_string()]);
    assert_eq!(s.get_update_items().len(), 3);
    assert!(s.refresh_all().is_empty());
}

#[test]
fn fetch_completion_merges_detail() {
    let mut s = state();
    assert!(!s.is_all_synced());
    fetched(&mut s, "alpha", "1.1.0");
    let k = &s.depot.store.0[0];
    assert!(k.is_metadata_synced());
    assert_eq!(k.description(), "Some tool.");
    assert_eq!(k.tags_str(), "#cli");
    assert_eq!(k.license(), "MIT");
    assert_eq!(k.rust_version_str(), "1.70.0");
    assert_eq!(k.homepage(), "https://example.org/alpha");
    assert_eq!(k.documentation(), "not available");
    assert_eq!(k.repository(), "not available");
    assert_eq!(k.latest_version(), Version { major: 1, minor: 1, patch: 0 });
    assert!(!s.is_pending("alpha"));
}

#[test]
fn getters_without_detail() {
    let s = state();
    let k = &s.depot.store.0[2];
    assert_eq!(k.description(), "not available");
    assert_eq!(k.license(), "not found");
    assert_eq!(k.rust_version_str(), "unknown");
    assert_eq!(k.tags_str(), "");
    assert_eq!(k.latest_version(), Version { major: 3, minor: 1, patch: 4 });
}

#[test]
fn stale_completion_is_ignored() {
    let mut s = state();
    let m = KrateMetadata::get("alpha", &report("alpha", "2.0.0")).unwrap();
    assert!(DepotMessage::FetchKrateInfo(m).handle(&mut s).is_ok());
    assert!(!s.depot.store.0[0].is_metadata_synced());
}

#[test]
fn unmatched_detail_is_an_error() {
    let mut s = state();
    let m = KrateMetadata::get("delta", &report("delta", "2.0.0")).unwrap();
    assert_eq!(s.merge_detail(m), Err(Error::UnmatchedName("delta".to_string())));
    assert!(s.append_to_update_queue("delta"));
    let m = KrateMetadata::get("delta", &report("delta", "2.0.0")).unwrap();
    assert_eq!(
        DepotMessage::FetchKrateInfo(m).handle(&mut s),
        Err(Error::UnmatchedName("delta".to_string()))
    );
    assert!(!s.is_pending("delta"));
}

#[test]
fn detail_report_that_fails_to_parse() {
    assert!(matches!(KrateMetadata::get("alpha", "alpha\n"), Err(Error::Parser(_))));
    let info = KrateInfo::parse(&report("alpha", "1.0.0")).unwrap().1;
    assert_eq!(info.homepage, Some("https://example.org/alpha".to_string()));
}

#[test]
fn update_completion_sets_version() {
    let mut s = state();
    assert!(s.append_to_update_queue("beta"));
    let listing = LISTING.replace("beta v0.2.0", "beta v0.3.0");
    let msg = DepotMessage::UpdateKrate { krate: "beta".to_string(), listing };
    assert_eq!(msg.handle(&mut s), Ok(()));
    assert_eq!(s.depot.store.0[1].version, Version { major: 0, minor: 3, patch: 0 });
    assert!(!s.is_pending("beta"));
}

#[test]
fn update_of_unknown_package() {
    let mut s = state();
    assert_eq!(
        s.update_krate("delta", LISTING),
        Err(Error::KrateNotFound("delta".to_string()))
    );
    assert!(matches!(
        s.update_krate("alpha", "beta v0.2.0:\n    beta\n"),
        Err(Error::Parser(_))
    ));
    assert!(matches!(s.update_krate("alpha", "malpha v1.1.0:\n    x\n"), Err(Error::Parser(_))));
    let trailing = "beta v0.2.0 (alpha v9.9.9):\n    beta\nalpha v1.0.1:\n    alpha\n";
    assert_eq!(s.update_krate("alpha", trailing), Ok(()));
    assert_eq!(s.depot.store.0[0].version, Version { major: 1, minor: 0, patch: 1 });
}

#[test]
fn failure_clears_pending_and_keeps_catalog() {
    let mut s = state();
    assert!(s.append_to_update_queue("gamma"));
    let msg = DepotMessage::DepotError { krate: "gamma".to_string(), error: ChannelError::UpdateKrate };
    assert_eq!(msg.handle(&mut s), Err(Error::HandleKrate(ChannelError::UpdateKrate)));
    assert!(!s.is_pending("gamma"));
    assert_eq!(s.depot.crate_count(), 3);
    assert_eq!(ChannelError::UpdateKrate.message(), "failed to update krate");
    assert_eq!(ChannelError::UninstallKrate.message(), "failed to uninstall krate");
    assert_eq!(ChannelError::KrateInfo.message(), "failed to fetch krate");
}

#[test]
fn uninstall_completion_clears_selection() {
    let mut s = state();
    s.list_state.select(Some(1));
    assert!(s.append_to_update_queue("beta"));
    let msg = DepotMessage::UninstallKrate { krate: "beta".to_string() };
    assert_eq!(msg.handle(&mut s), Ok(()));
    assert_eq!(s.depot.crate_count(), 2);
    assert_eq!(s.list_state.selected(), None);
    assert!(s.depot.position("beta").is_none());
}

#[test]
fn uninstall_completion_keeps_selection_on_same_package() {
    let mut s = state();
    s.list_state.select(Some(2));
    assert!(s.append_to_update_queue("alpha"));
    DepotMessage::UninstallKrate { krate: "alpha".to_string() }.handle(&mut s).unwrap();
    assert_eq!(s.list_state.selected(), Some(1));
    assert_eq!(s.depot.store.0[1].name, "gamma");
}

#[test]
fn selection_is_clamped() {
    let mut sel = Selection::new();
    sel.select_previous(3);
    assert_eq!(sel.selected(), Some(0));
    sel.select_previous(3);
    assert_eq!(sel.selected(), Some(0));
    sel.select_next(3);
    sel.select_next(3);
    sel.select_next(3);
    assert_eq!(sel.selected(), Some(2));
    let mut empty = Selection::new();
    empty.select_next(0);
    assert_eq!(empty.selected(), None);
}

#[test]
fn screens_follow_keys() {
    let mut app = App::new(state());
    assert_eq!(app.view, View::default());
    assert_eq!(key_handler(&mut app, key('c')), None);
    assert_eq!(app.view, View::Start(Start));
    let names = app.handle_init();
    assert_eq!(names.len(), 3);
    assert!(app.handle_init().is_empty());
    key_handler(&mut app, key('c'));
    assert_eq!(app.view, View::Start(Start));
    for n in ["alpha", "beta", "gamma"] {
        let m = KrateMetadata::get(n, &report(n, "0.3.0")).unwrap();
        DepotMessage::FetchKrateInfo(m).handle(&mut app.state).unwrap();
    }
    assert!(app.state.is_all_synced());
    key_handler(&mut app, key('c'));
    assert_eq!(app.view, View::Catalog(Catalog));
    key_handler(&mut app, Key { code: KeyCode::Down, ctrl: false });
    key_handler(&mut app, key('j'));
    assert_eq!(app.state.list_state.selected(), Some(1));
    let job = key_handler(&mut app, key('d'));
    assert_eq!(job, Some(Job::Uninstall("beta".to_string())));
    assert_eq!(key_handler(&mut app, key('d')), None);
    key_handler(&mut app, key('q'));
    assert_eq!(app.view, View::Start(Start));
    key_handler(&mut app, key('u'));
    assert_eq!(app.view, View::Update(Update));
    key_handler(&mut app, key('j'));
    assert_eq!(app.state.update_list_state.selected(), Some(0));
    let job = key_handler(&mut app, Key { code: KeyCode::Enter, ctrl: false });
    assert_eq!(job, Some(Job::Install("alpha".to_string())));
    key_handler(&mut app, Key { code: KeyCode::Esc, ctrl: false });
    key_handler(&mut app, Key { code: KeyCode::Char('c'), ctrl: true });
    assert!(!app.running);
}

#[test]
fn quit_stops_the_front_end() {
    let mut app = App::new(state());
    assert!(app.running);
    app.quit();
    assert!(!app.running);
}

#[test]
fn present_empty_field_differs_from_missing_one() {
    let mut s = state();
    assert!(s.append_to_update_queue("alpha"));
    let text = "alpha\n  d\n  version: 1.0.0\n  license: MIT\n  rust-version: unknown\n  documentation:\n";
    let m = KrateMetadata::get("alpha", text).unwrap();
    DepotMessage::FetchKrateInfo(m).handle(&mut s).unwrap();
    let k = &s.depot.store.0[0];
    assert_eq!(k.documentation(), "");
    assert_eq!(k.homepage(), "not available");
    assert_eq!(k.repository(), "not available");
}

#[test]
fn update_clears_in_flight_mark_on_every_outcome() {
    let mut s = state();
    assert!(s.append_to_update_queue("beta"));
    assert!(s.update_krate("beta", "nothing").is_err());
    assert!(!s.is_pending("beta"));
    assert!(s.append_to_update_queue("beta"));
    assert_eq!(s.update_krate("beta", "beta v0.9.0:\n    beta\n"), Ok(()));
    assert!(!s.is_pending("beta"));
    assert_eq!(s.depot.store.0[1].version, Version { major: 0, minor: 9, patch: 0 });
}

#[test]
fn uninstall_key_clears_selection() {
    let mut app = App::new(state());
    app.view = View::Catalog(Catalog);
    app.state.list_state.select(Some(2));
    assert_eq!(key_handler(&mut app, key('d')), Some(Job::Uninstall("gamma".to_string())));
    assert_eq!(app.state.list_state.selected(), None);
    assert_eq!(app.state.depot.crate_count(), 3);
}
