use wizcore::controller::Controller;
use wizcore::events::{
    Effect, IndexEvent, IndexPhase, JobState, RendererModeRequest, WindowModeRequest,
};
use wizcore::item::{SearchItem, UNKNOWN_TS};
use wizcore::scope::{IndexBackend, SearchScope};
use wizcore::search_worker::{SearchEvent, SearchWorkerMessage};

fn item(path: &str, t: i64) -> SearchItem {
    SearchItem::new(path.to_string(), t)
}

fn fresh() -> Controller {
    Controller::new(true, None, SearchScope::AllLocalDrives, true, true).0
}

fn owned(items: &[SearchItem]) -> Vec<String> {
    items.iter().map(|i| i.path.clone()).collect()
}

fn paths(items: &[SearchItem]) -> Vec<&str> {
    items.iter().map(|i| i.path.as_str()).collect()
}

fn done(c: &mut Controller, job: u64, items: Vec<SearchItem>, backend: IndexBackend) -> Vec<Effect> {
    c.handle_index_event(IndexEvent::Done { job_id: job, items, backend }, 1000)
}

fn selection_ok(c: &Controller) -> bool {
    if c.results.items.is_empty() {
        c.results.selected == 0
    } else {
        c.results.selected < c.results.items.len()
    }
}

#[test]
fn start_asks_for_an_index_job() {
    let (c, effects) = Controller::new(true, None, SearchScope::AllLocalDrives, true, false);
    assert_eq!(c.index.scope, SearchScope::AllLocalDrives);
    assert_eq!(c.index.active_index_job, Some(1));
    assert_eq!(c.index.job_state, JobState::Building);
    assert!(c.panel.show_quick_help_overlay && !c.panel.show_privilege_overlay);
    assert_eq!(c.last_action, "Indexing files...");
    assert_eq!(effects.len(), 4);
    assert!(matches!(effects[0], Effect::PersistScope(SearchScope::AllLocalDrives)));
    assert!(matches!(effects[1], Effect::Search(SearchWorkerMessage::Cancel)));
    assert!(matches!(effects[2], Effect::Search(SearchWorkerMessage::Clear)));
    assert!(matches!(
        effects[3],
        Effect::StartIndexJob { job_id: 1, scope: SearchScope::AllLocalDrives, allow_dirwalk_fallback: false }
    ));
    let (c, effects) = Controller::new(false, None, SearchScope::AllLocalDrives, false, false);
    assert_eq!(c.index.scope, SearchScope::CurrentFolder);
    assert!(c.panel.show_privilege_overlay && !c.panel.show_quick_help_overlay);
    assert_eq!(effects.len(), 3);
    assert!(matches!(effects[2], Effect::StartIndexJob { allow_dirwalk_fallback: true, .. }));
}

#[test]
fn job_id_gating_scenario() {
    let mut c = fresh();
    for _ in 0..6 {
        c.reindex(&mut Vec::new());
    }
    assert_eq!(c.index.active_index_job, Some(7));
    let effects = done(&mut c, 6, vec![item("stale", 1), item("stale2", 2)], IndexBackend::NtfsMft);
    assert!(effects.is_empty());
    assert!(c.corpus.items.is_empty());
    assert!(c.index.indexing_in_progress);
    let effects = done(&mut c, 7, vec![item("A", 1)], IndexBackend::NtfsMft);
    assert_eq!(paths(&c.corpus.items), vec!["A"]);
    assert_eq!(paths(&c.results.items), vec!["A"]);
    assert_eq!(effects.len(), 3);
    assert!(matches!(&effects[0], Effect::Search(SearchWorkerMessage::SetCorpus { items, .. }) if items.len() == 1));
    assert!(matches!(effects[1], Effect::Search(SearchWorkerMessage::Cancel)));
    assert!(matches!(effects[2], Effect::FocusSearch));
    assert_eq!(c.last_action, "Indexed 1 files [all-local-drives]");
    assert_eq!(c.index.job_state, JobState::Idle);
    assert!(!c.index.indexing_in_progress);
    assert_eq!(c.index.indexing_progress, 1000);
}

#[test]
fn events_out_of_turn_are_dropped() {
    let mut c = fresh();
    let e = c.handle_index_event(
        IndexEvent::Delta { job_id: 1, upserts: vec![item("x", 1)], deleted_paths: Vec::new() },
        5,
    );
    assert!(e.is_empty() && c.corpus.items.is_empty());
    c.handle_index_event(IndexEvent::SnapshotLoaded { job_id: 1, items: vec![item("s", 1)] }, 5);
    assert_eq!(paths(&c.corpus.items), vec!["s"]);
    assert!(c.index.indexing_is_refresh);
    assert_eq!(c.last_action, "Loaded snapshot: 1 items [all-local-drives]");
    done(&mut c, 1, vec![item("live", 1)], IndexBackend::NtfsUsnLive);
    assert_eq!(c.index.job_state, JobState::Live);
    c.handle_index_event(IndexEvent::SnapshotLoaded { job_id: 1, items: vec![item("late", 1)] }, 5);
    assert_eq!(paths(&c.corpus.items), vec!["live"]);
    c.handle_index_event(
        IndexEvent::Progress { job_id: 2, current: 1, total: 2, phase: IndexPhase::Write },
        5,
    );
    assert_eq!(c.index.indexing_phase, IndexPhase::Done);
    c.handle_index_event(
        IndexEvent::Progress { job_id: 1, current: 1, total: 3, phase: IndexPhase::Write },
        5,
    );
    assert_eq!(c.index.indexing_phase, IndexPhase::Write);
    assert_eq!(c.index.indexing_progress, 333);
    assert!(c.index.indexing_in_progress);
}

#[test]
fn unavailable_index_says_so() {
    let mut c = fresh();
    done(&mut c, 1, Vec::new(), IndexBackend::Detecting);
    assert_eq!(
        c.last_action,
        "NTFS indexing unavailable (run elevated and ensure USN journal is available)"
    );
}

#[test]
fn live_delta_updates_corpus_and_counts() {
    let mut c = fresh();
    done(&mut c, 1, vec![item("X", 10)], IndexBackend::NtfsUsnLive);
    let e = c.handle_index_event(
        IndexEvent::Delta {
            job_id: 1,
            upserts: vec![item("X", 20), item("Y", UNKNOWN_TS)],
            deleted_paths: vec!["Z".to_string()],
        },
        777,
    );
    assert!(e.is_empty());
    assert_eq!(paths(&c.corpus.items), vec!["X", "Y"]);
    assert_eq!(c.corpus.items[0].modified_unix_secs, 20);
    assert_eq!(
        (
            c.tracking.changes_added_since_index,
            c.tracking.changes_updated_since_index,
            c.tracking.changes_deleted_since_index
        ),
        (1, 1, 0)
    );
    assert_eq!(c.tracking.recent_event_by_path.get("X"), Some(20));
    assert_eq!(c.tracking.recent_event_by_path.get("Y"), Some(777));
    assert_eq!(c.index.indexing_phase, IndexPhase::Live);
    assert_eq!(c.last_action, "Live index update: 2 items [all-local-drives]");
    assert!(c.search.needs_search_refresh);
    assert!(c.corpus.filename_index_dirty);
    let effects = c.tick(10_000);
    assert!(!c.search.needs_search_refresh);
    assert_eq!(c.search.next_search_refresh_at_ms, 10_300);
    assert_eq!(effects.len(), 1);
    assert!(matches!(effects[0], Effect::Search(SearchWorkerMessage::Cancel)));
    assert_eq!(paths(&c.results.items), vec!["X", "Y"]);
    assert!(!c.corpus.filename_index_dirty);
}

#[test]
fn delta_counts_do_not_depend_on_tracking() {
    let mut c = fresh();
    done(&mut c, 1, vec![item("X", 10), item("Z", 3)], IndexBackend::NtfsUsnLive);
    c.toggle_tracking();
    assert_eq!(c.last_action, "Tracking disabled");
    let counts = c.apply_index_delta(
        vec![item("Y", 1), item("Z", 4)],
        vec!["X".to_string(), "nowhere".to_string()],
        5,
    );
    assert_eq!(counts, (1, 1, 1));
    assert_eq!(paths(&c.corpus.items), vec!["Z", "Y"]);
    assert_eq!(c.tracking.recent_event_by_path.get("Y"), None);
    c.toggle_tracking();
    let counts = c.apply_index_delta(vec![item("W", 1)], vec!["Y".to_string()], 5);
    assert_eq!(counts, (1, 0, 1));
    assert_eq!(c.tracking.recent_event_by_path.get("W"), Some(1));
}

#[test]
fn double_toggle_of_tracking() {
    let mut c = fresh();
    done(&mut c, 1, vec![item("X", 10)], IndexBackend::NtfsUsnLive);
    c.handle_index_event(
        IndexEvent::Delta { job_id: 1, upserts: vec![item("Y", 20)], deleted_paths: vec![] },
        777,
    );
    c.apply_raw_query("/latest 2h".to_string(), true);
    assert!(c.search.latest_only_mode);
    let before = (
        c.tracking.tracking_enabled,
        c.search.latest_only_mode,
        c.search.latest_window_secs,
        c.tracking.recent_event_by_path.get("Y"),
        c.tracking.changes_added_since_index,
        owned(&c.corpus.items),
        owned(&c.results.items),
        c.results.selected,
        c.index.scope,
        c.index.index_job_counter,
    );
    c.toggle_tracking();
    assert!(!c.tracking.tracking_enabled);
    assert_eq!(c.last_action, "Tracking disabled");
    assert_eq!(c.tracking.recent_event_by_path.get("Y"), Some(20));
    assert_eq!(c.tracking.changes_added_since_index, 1);
    c.toggle_tracking();
    assert_eq!(c.last_action, "Tracking enabled");
    let after = (
        c.tracking.tracking_enabled,
        c.search.latest_only_mode,
        c.search.latest_window_secs,
        c.tracking.recent_event_by_path.get("Y"),
        c.tracking.changes_added_since_index,
        owned(&c.corpus.items),
        owned(&c.results.items),
        c.results.selected,
        c.index.scope,
        c.index.index_job_counter,
    );
    assert_eq!(after, before);
}

#[test]
fn double_track_line_brings_the_state_back() {
    let mut c = fresh();
    done(&mut c, 1, vec![item("X", 10)], IndexBackend::NtfsUsnLive);
    c.handle_index_event(
        IndexEvent::Delta { job_id: 1, upserts: vec![item("Y", 20)], deleted_paths: vec![] },
        777,
    );
    let first = c.apply_raw_query("/track".to_string(), true);
    assert!(first.is_empty());
    assert!(!c.tracking.tracking_enabled);
    assert_eq!(c.input.raw_query, "");
    let second = c.apply_raw_query("/track".to_string(), true);
    assert!(second.is_empty());
    assert!(c.tracking.tracking_enabled);
    assert_eq!(c.tracking.recent_event_by_path.get("Y"), Some(20));
    assert_eq!(c.tracking.changes_added_since_index, 1);
    assert_eq!(paths(&c.corpus.items), vec!["X", "Y"]);
    assert_eq!(c.index.index_job_counter, 1);
    assert_eq!(c.index.scope, SearchScope::AllLocalDrives);
}

#[test]
fn window_directives_ask_for_the_mode() {
    let mut c = fresh();
    let e = c.apply_raw_query("/fullscreen".to_string(), true);
    assert!(e.is_empty());
    assert_eq!(c.last_action, "Toggling fullscreen");
    assert_eq!(c.input.raw_query, "");
    assert_eq!(c.take_window_mode_request(), Some(WindowModeRequest::ToggleFullscreen));
    c.input.raw_query = "/FullHeight".to_string();
    let e = c.activate_selected();
    assert!(e.is_empty());
    assert_eq!(c.last_action, "Toggling full-height mode");
    assert_eq!(c.take_window_mode_request(), Some(WindowModeRequest::ToggleFullHeight));
    let e = c.apply_raw_query("/fullscreen".to_string(), false);
    assert_eq!(e.len(), 1);
    assert_eq!(c.take_window_mode_request(), None);
    let e = c.apply_raw_query("/soft".to_string(), true);
    assert!(e.is_empty());
    assert_eq!(c.last_action, "Switching renderer to soft");
    assert_eq!(c.take_renderer_mode_request(), Some(RendererModeRequest::Soft));
    assert_eq!(c.take_renderer_mode_request(), None);
}

#[test]
fn selection_stays_among_the_results() {
    let mut c = fresh();
    done(&mut c, 1, (0..30).map(|i| item(&format!("f{}", i), 0)).collect(), IndexBackend::NtfsMft);
    assert!(selection_ok(&c));
    c.on_move_up();
    assert_eq!(c.results.selected, 0);
    c.on_move_down();
    c.on_page_down();
    assert_eq!(c.results.selected, 13);
    c.on_page_down();
    c.on_page_down();
    assert_eq!(c.results.selected, 29);
    c.on_move_down();
    assert_eq!(c.results.selected, 29);
    c.on_page_up();
    assert_eq!(c.results.selected, 17);
    c.on_home();
    assert_eq!(c.results.selected, 0);
    c.on_end();
    assert_eq!(c.results.selected, 29);
    done(&mut c, 1, vec![item("a", 0), item("b", 0)], IndexBackend::NtfsMft);
    assert_eq!(c.results.selected, 1);
    assert!(selection_ok(&c));
    done(&mut c, 1, Vec::new(), IndexBackend::NtfsMft);
    assert_eq!(c.results.selected, 0);
    c.on_move_down();
    c.on_end();
    assert!(selection_ok(&c));
}

#[test]
fn keys_move_through_the_command_menu() {
    let mut c = fresh();
    done(&mut c, 1, vec![item("a", 0), item("b", 0)], IndexBackend::NtfsMft);
    c.on_query_changed("/".to_string(), 0);
    c.on_move_down();
    c.on_move_down();
    assert_eq!((c.input.command_selected, c.results.selected), (2, 0));
    c.on_end();
    assert_eq!(c.input.command_selected, 9);
    c.on_page_up();
    assert_eq!(c.input.command_selected, 0);
    c.on_page_down();
    assert_eq!(c.input.command_selected, 9);
    c.on_query_changed("/t".to_string(), 1);
    assert_eq!(c.input.command_selected, 1);
    c.on_home();
    assert_eq!(c.input.command_selected, 0);
}

#[test]
fn typing_is_debounced() {
    let mut c = fresh();
    done(&mut c, 1, vec![item("C:\\a\\Notes.txt", 0), item("C:\\b\\x.md", 0)], IndexBackend::NtfsMft);
    let e = c.on_query_changed("zz".to_string(), 100);
    assert!(matches!(e[0], Effect::Search(SearchWorkerMessage::Cancel)));
    assert_eq!(c.input.pending_query.as_ref().map(|p| (p.due_at_ms, p.edit_id)), Some((170, 1)));
    c.on_query_changed("notes.txt".to_string(), 150);
    assert_eq!(c.input.pending_query.as_ref().map(|p| p.due_at_ms), Some(220));
    c.tick(219);
    assert!(c.input.pending_query.is_some());
    assert_eq!(c.input.query, "");
    let e = c.tick(220);
    assert!(c.input.pending_query.is_none());
    assert_eq!(c.input.query, "notes.txt");
    assert_eq!(e.len(), 1);
    assert!(matches!(&e[0], Effect::Search(SearchWorkerMessage::Run { generation: 1, query, latest_only_mode: false, .. }) if query == "notes.txt"));
    assert_eq!(c.search.active_search_job, Some(1));
    c.handle_search_event(SearchEvent::Progress { generation: 1, scanned: 5, total: 2 });
    assert_eq!(c.search.active_search_cursor, 2);
    c.handle_search_event(SearchEvent::Done { generation: 0, items: vec![item("late", 0)] });
    assert_eq!(c.results.items.len(), 2);
    c.handle_search_event(SearchEvent::Done { generation: 1, items: vec![item("C:\\a\\Notes.txt", 0)] });
    assert_eq!(paths(&c.results.items), vec!["C:\\a\\Notes.txt"]);
    assert_eq!(c.search.active_search_job, None);
    let e = c.apply_raw_query("Notes.TXT".to_string(), false);
    assert!(matches!(e[0], Effect::Search(SearchWorkerMessage::Cancel)));
    assert_eq!(paths(&c.results.items), vec!["C:\\a\\Notes.txt"]);
    let e = c.apply_raw_query("a\\notes".to_string(), false);
    assert!(matches!(&e[0], Effect::Search(SearchWorkerMessage::Run { generation: 2, query, .. }) if query == "a\\notes"));
    let e = c.apply_raw_query("".to_string(), false);
    assert!(matches!(e[0], Effect::Search(SearchWorkerMessage::Cancel)));
    assert_eq!(c.results.items.len(), 2);
}

#[test]
fn directives_are_carried_out() {
    let mut c = fresh();
    done(&mut c, 1, vec![item("a", 0)], IndexBackend::NtfsUsnLive);
    let e = c.apply_raw_query("/latest 0s".to_string(), true);
    assert!(!c.search.latest_only_mode);
    assert_eq!(c.search.latest_window_secs, 300);
    assert_eq!(c.last_action, "Indexed 1 files [all-local-drives]");
    assert_eq!(e.len(), 1);
    assert!(matches!(e[0], Effect::Search(SearchWorkerMessage::Cancel)));
    c.apply_raw_query("/latest -5min".to_string(), true);
    assert!(!c.search.latest_only_mode);
    assert_eq!(c.search.latest_window_secs, 300);
    let e = c.apply_raw_query("/latest".to_string(), true);
    assert!(c.search.latest_only_mode);
    assert_eq!(c.search.latest_window_secs, 300);
    assert_eq!(c.last_action, "Showing files changed in last 5m");
    assert!(matches!(&e[0], Effect::Search(SearchWorkerMessage::Run { latest_only_mode: true, latest_window_secs: 300, query, .. }) if query.is_empty()));
    assert_eq!(c.input.raw_query, "");
    c.apply_raw_query("/latest 0s".to_string(), true);
    assert!(c.search.latest_only_mode);
    assert_eq!(c.search.latest_window_secs, 300);
    c.apply_raw_query("/LAST 0sec".to_string(), true);
    assert!(c.search.latest_only_mode);
    assert_eq!(c.search.latest_window_secs, 300);
    c.apply_raw_query("/latest 2h".to_string(), true);
    assert_eq!(c.search.latest_window_secs, 7200);
    assert_eq!(c.last_action, "Showing files changed in last 2h");
    c.apply_raw_query("plain".to_string(), true);
    assert!(!c.search.latest_only_mode);
    assert_eq!(c.search.latest_window_secs, 7200);
    c.apply_raw_query("/track".to_string(), true);
    assert!(!c.tracking.tracking_enabled);
    let e = c.apply_raw_query("/latest".to_string(), true);
    assert!(e.is_empty() && !c.search.latest_only_mode);
    assert_eq!(c.last_action, "Tracking is off (use /track to enable)");
    let e = c.apply_raw_query("/up".to_string(), true);
    assert!(e.is_empty());
    assert_eq!(c.last_action, "Already elevated");
    c.apply_raw_query("/testprogress".to_string(), true);
    assert!(c.index.visual_progress_test_active);
    for _ in 0..33 {
        c.tick(0);
    }
    assert!(c.index.visual_progress_test_active);
    assert_eq!(c.index.indexing_progress, 990);
    c.tick(0);
    assert!(!c.index.visual_progress_test_active && !c.index.indexing_in_progress);
    assert_eq!(c.last_action, "Visual progress test complete");
    let e = c.apply_raw_query("/d: x".to_string(), true);
    assert_eq!(c.index.scope, SearchScope::Drive('D'));
    assert_eq!(c.index.active_index_job, Some(2));
    assert!(c.corpus.items.is_empty() && c.results.items.is_empty());
    assert_eq!(c.last_action, "Indexing scope: D:");
    assert!(matches!(e[0], Effect::PersistScope(SearchScope::Drive('D'))));
    assert!(matches!(e[3], Effect::StartIndexJob { job_id: 2, scope: SearchScope::Drive('D'), .. }));
    let e = c.apply_raw_query("/d:".to_string(), true);
    assert!(e.is_empty());
    assert_eq!(c.last_action, "Already indexing scope: D:");
    c.apply_raw_query("/reindex".to_string(), true);
    assert_eq!(c.index.active_index_job, Some(3));
    assert_eq!(c.last_action, "Reindexing scope: D:");
    c.apply_raw_query("/exit".to_string(), true);
    assert!(c.panel.should_exit);
}

#[test]
fn elevation_is_asked_of_the_application() {
    let (mut c, _) = Controller::new(true, None, SearchScope::CurrentFolder, false, true);
    c.on_query_changed("/up".to_string(), 0);
    let e = c.activate_selected();
    assert!(matches!(e[0], Effect::RequestElevation(SearchScope::EntireCurrentDrive)));
    c.on_elevation_result(false, "UAC elevation failed or cancelled (code 5)".to_string());
    assert_eq!(c.last_action, "UAC elevation failed or cancelled (code 5)");
    assert_eq!(c.input.raw_query, "");
    assert!(!c.panel.should_exit);
    c.on_query_changed("/up".to_string(), 0);
    c.activate_selected();
    c.on_elevation_result(true, String::new());
    assert!(c.panel.should_exit);
}

#[test]
fn enter_opens_and_alt_enter_reveals() {
    let mut c = fresh();
    done(&mut c, 1, vec![item("C:\\a", 0), item("C:\\b", 0)], IndexBackend::NtfsMft);
    c.on_move_down();
    let e = c.activate_selected();
    assert!(matches!(&e[0], Effect::OpenPath(p) if p == "C:\\b"));
    assert_eq!(c.last_action, "Open: C:\\b");
    let e = c.on_alt_enter();
    assert!(matches!(&e[0], Effect::RevealPath(p) if p == "C:\\b"));
    assert_eq!(c.last_action, "Reveal: C:\\b");
    c.on_query_changed("/zzz now".to_string(), 0);
    assert!(c.activate_selected().is_empty());
    assert_eq!(c.last_action, "Unknown command: /zzz");
    c.on_query_changed("/la".to_string(), 0);
    let e = c.activate_selected();
    assert!(c.search.latest_only_mode);
    assert_eq!(e.len(), 1);
    c.on_query_changed("/e".to_string(), 0);
    c.activate_selected();
    assert_eq!(c.index.scope, SearchScope::EntireCurrentDrive);
}

#[test]
fn quick_help_and_escape() {
    let (mut c, _) = Controller::new(true, None, SearchScope::CurrentFolder, true, false);
    assert!(c.panel.show_quick_help_overlay);
    c.on_move_down();
    assert_eq!(c.panel.quick_help_selected_action, 1);
    assert!(c.on_alt_enter().is_empty());
    let e = c.activate_selected();
    assert!(matches!(e[0], Effect::PersistQuickHelpDismissed(true)));
    assert!(!c.panel.show_quick_help_overlay);
    c.panel.show_quick_help_overlay = true;
    c.on_move_up();
    assert!(c.activate_selected().is_empty());
    c.panel.show_quick_help_overlay = true;
    assert!(c.on_escape().is_empty());
    assert!(!c.panel.show_quick_help_overlay && c.panel.panel_visible);
    c.apply_raw_query("a\\b".to_string(), false);
    assert!(c.search.active_search_job.is_some());
    let e = c.on_escape();
    assert!(!c.panel.panel_visible);
    assert_eq!(e.len(), 1);
    assert!(matches!(e[0], Effect::Search(SearchWorkerMessage::Cancel)));
    assert_eq!(c.search.active_search_job, None);
    assert_eq!(c.search.active_search_query, None);
}

#[test]
fn panel_toggle_is_debounced() {
    let mut c = fresh();
    done(&mut c, 1, vec![item("a", 0)], IndexBackend::NtfsMft);
    c.apply_raw_query("a\\b".to_string(), false);
    assert!(c.search.active_search_job.is_some());
    let (changed, e) = c.toggle_panel(1000);
    assert!(changed && !c.panel.panel_visible);
    assert_eq!(e.len(), 1);
    assert!(matches!(e[0], Effect::Search(SearchWorkerMessage::Cancel)));
    assert_eq!(c.search.active_search_job, None);
    let (changed, e) = c.toggle_panel(1219);
    assert!(!changed && e.is_empty() && !c.panel.panel_visible);
    let (changed, e) = c.toggle_panel(1220);
    assert!(changed && c.panel.panel_visible);
    assert_eq!(e.len(), 2);
    assert!(matches!(e[0], Effect::Search(SearchWorkerMessage::Run { .. })));
    assert!(matches!(e[1], Effect::FocusSearch));
    assert_eq!(c.poll_interval_ms(false), 16);
    c.handle_search_event(SearchEvent::Done { generation: 2, items: Vec::new() });
    assert_eq!(c.poll_interval_ms(false), 55);
    assert_eq!(c.poll_interval_ms(true), 16);
    c.on_escape();
    assert_eq!(c.poll_interval_ms(false), 80);
    assert!(c.tick(5000).is_empty());
}

#[test]
fn window_requests_wait_for_the_tick() {
    let mut c = fresh();
    c.request_window_mode(WindowModeRequest::ToggleFullscreen);
    assert_eq!(c.last_action, "Toggling fullscreen");
    assert_eq!(c.take_window_mode_request(), Some(WindowModeRequest::ToggleFullscreen));
    assert_eq!(c.take_window_mode_request(), None);
    assert_eq!(c.take_renderer_mode_request(), None);
}

#[test]
fn renderer_request_waits_for_the_tick() {
    let mut c = fresh();
    c.request_renderer_mode(wizcore::events::RendererModeRequest::Soft);
    assert_eq!(c.last_action, "Switching renderer to soft");
    assert_eq!(c.take_renderer_mode_request(), Some(wizcore::events::RendererModeRequest::Soft));
    assert_eq!(c.take_renderer_mode_request(), None);
}

#[test]
fn a_turn_takes_in_bounded_numbers_of_events() {
    let mut c = fresh();
    let mut search: Vec<SearchEvent> = (0..30)
        .map(|i| SearchEvent::Progress { generation: 99, scanned: i, total: 30 })
        .collect();
    let mut index = vec![
        IndexEvent::Progress { job_id: 1, current: 1, total: 4, phase: IndexPhase::Index },
        IndexEvent::Done {
            job_id: 1,
            items: vec![item("A", 1)],
            backend: IndexBackend::NtfsUsnLive,
        },
        IndexEvent::Delta { job_id: 1, upserts: vec![item("B", 2)], deleted_paths: vec![] },
    ];
    let out = c.process_tick(0, 500, &mut search, &mut index, false);
    assert_eq!(search.len(), 6);
    assert!(matches!(search[0], SearchEvent::Progress { scanned: 24, .. }));
    assert_eq!(index.len(), 1);
    assert!(matches!(index[0], IndexEvent::Delta { .. }));
    assert!(!out.visibility_changed && !out.should_quit);
    assert_eq!(out.effects.len(), 3);
    assert!(matches!(out.effects[2], Effect::FocusSearch));
    assert_eq!(paths(&c.corpus.items), vec!["A"]);
    assert!(!c.corpus.filename_index_dirty);

    c.request_window_mode(WindowModeRequest::ToggleFullHeight);
    let out = c.process_tick(10, 500, &mut search, &mut index, true);
    assert!(search.is_empty() && index.is_empty());
    assert_eq!(out.window_mode_request, Some(WindowModeRequest::ToggleFullHeight));
    assert_eq!(out.renderer_mode_request, None);
    assert_eq!(c.take_window_mode_request(), None);
    assert_eq!(paths(&c.corpus.items), vec!["A", "B"]);
    assert!(!c.corpus.filename_index_dirty);
    assert!(out.visibility_changed && !c.panel.panel_visible);
    assert_eq!(out.effects.len(), 1);
    assert!(matches!(out.effects[0], Effect::Search(SearchWorkerMessage::Cancel)));

    let out = c.process_tick(100, 500, &mut search, &mut index, true);
    assert!(!out.visibility_changed && out.effects.is_empty());
    let out = c.process_tick(230, 500, &mut search, &mut index, true);
    assert!(out.visibility_changed && c.panel.panel_visible);
    assert_eq!(out.effects.len(), 2);
    assert!(matches!(out.effects[1], Effect::FocusSearch));
    assert_eq!(paths(&c.results.items), vec!["A", "B"]);

    c.request_exit();
    let out = c.process_tick(300, 500, &mut search, &mut index, false);
    assert!(out.should_quit);
}

#[test]
fn the_parts_of_a_tick() {
    let mut c = fresh();
    done(&mut c, 1, vec![item("a", 0)], IndexBackend::NtfsMft);
    assert!(c.corpus.filename_index_dirty);
    let e = c.on_query_changed("a".to_string(), 1000);
    assert_eq!(e.len(), 1);
    assert!(c.tick_lines(1069).len() == 1);
    assert!(c.input.pending_query.is_some());
    c.tick_index();
    assert!(c.corpus.filename_index_dirty);
    let e = c.tick_lines(1070);
    assert_eq!(e.len(), 1);
    assert!(c.input.pending_query.is_none());
    assert!(c.corpus.filename_index_dirty);
    c.tick_index();
    assert!(!c.corpus.filename_index_dirty);
}
