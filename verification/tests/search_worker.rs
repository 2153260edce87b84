use wizcore::item::{SearchItem, UNKNOWN_TS};
use wizcore::recent::{latest_cutoff, RecentEventMap};
use wizcore::search_worker::{SearchEvent, SearchWorker, SearchWorkerMessage};

fn item(path: &str, t: i64) -> SearchItem {
    SearchItem::new(path.to_string(), t)
}

fn worker(items: Vec<SearchItem>, recent: RecentEventMap) -> SearchWorker {
    let mut w = SearchWorker::new();
    w.handle_message(SearchWorkerMessage::SetCorpus { items, recent_event_by_path: recent });
    w
}

fn run(w: &mut SearchWorker, generation: u64, query: &str, latest: bool, window: i64) {
    w.handle_message(SearchWorkerMessage::Run {
        generation,
        query: query.to_string(),
        latest_only_mode: latest,
        latest_window_secs: window,
    });
}

fn finish(w: &mut SearchWorker, now: i64, batch: usize) -> (Vec<(usize, usize)>, Vec<String>) {
    let mut progress = Vec::new();
    loop {
        assert!(w.has_work());
        for event in w.step(now, batch) {
            match event {
                SearchEvent::Progress { scanned, total, .. } => progress.push((scanned, total)),
                SearchEvent::Done { items, .. } => {
                    return (progress, items.into_iter().map(|i| i.path).collect());
                }
            }
        }
    }
}

fn scenario_corpus() -> Vec<SearchItem> {
    vec![item("C:\\a\\Notes.txt", 0), item("C:\\b\\note.md", 0), item("C:\\c\\other.bin", 0)]
}

#[test]
fn substring_search_in_batches() {
    let mut w = worker(scenario_corpus(), RecentEventMap::new());
    run(&mut w, 1, "note", false, 300);
    let (progress, hits) = finish(&mut w, 0, 2);
    assert_eq!(progress, vec![(2, 3), (3, 3)]);
    assert_eq!(hits, vec!["C:\\a\\Notes.txt", "C:\\b\\note.md"]);
    assert!(!w.has_work());
}

#[test]
fn wildcard_search() {
    let mut w = worker(scenario_corpus(), RecentEventMap::new());
    run(&mut w, 2, "n*.md", false, 300);
    let (_, hits) = finish(&mut w, 0, 100);
    assert_eq!(hits, vec!["C:\\b\\note.md"]);
}

#[test]
fn latest_only_scenario() {
    let corpus = || vec![item("a", 100), item("b", 200), item("c", 50)];
    let mut w = worker(corpus(), RecentEventMap::new());
    run(&mut w, 3, "", true, 120);
    let (_, hits) = finish(&mut w, 300, 100);
    assert_eq!(hits, vec!["b"]);
    let mut w = worker(corpus(), RecentEventMap::new());
    run(&mut w, 4, "", true, 200);
    let (_, hits) = finish(&mut w, 300, 2);
    assert_eq!(hits, vec!["b", "a"]);
}

#[test]
fn recent_events_count_for_recency() {
    let mut recent = RecentEventMap::new();
    recent.insert("old", 290);
    recent.insert("unknown", 250);
    let mut w = worker(
        vec![item("old", 10), item("unknown", UNKNOWN_TS), item("never", UNKNOWN_TS), item("new", 295)],
        recent,
    );
    run(&mut w, 5, "", true, 60);
    let (_, hits) = finish(&mut w, 300, 100);
    assert_eq!(hits, vec!["new", "old", "unknown"]);
}

#[test]
fn latest_with_a_query_orders_the_hits() {
    let mut w = worker(
        vec![item("n1", 10), item("x", 30), item("n2", 20), item("n3", 20), item("n4", 1)],
        RecentEventMap::new(),
    );
    run(&mut w, 6, "n", true, 95);
    let (_, hits) = finish(&mut w, 100, 2);
    assert_eq!(hits, vec!["n2", "n3", "n1"]);
}

#[test]
fn empty_corpus_reports_done_without_progress() {
    let mut w = SearchWorker::new();
    run(&mut w, 7, "x", false, 1);
    let events = w.step(0, 10);
    assert_eq!(events.len(), 1);
    assert!(matches!(&events[0], SearchEvent::Done { generation: 7, items } if items.is_empty()));
    assert!(w.step(0, 10).is_empty());
}

#[test]
fn any_message_ends_the_search_under_way() {
    let mut w = worker(scenario_corpus(), RecentEventMap::new());
    run(&mut w, 8, "note", false, 300);
    assert_eq!(w.step(0, 1).len(), 1);
    w.handle_message(SearchWorkerMessage::Cancel);
    assert!(!w.has_work());
    assert!(w.step(0, 1).is_empty());
    run(&mut w, 9, "note", false, 300);
    assert_eq!(w.step(0, 1).len(), 1);
    run(&mut w, 10, "other", false, 300);
    let (_, hits) = finish(&mut w, 0, 10);
    assert_eq!(hits, vec!["C:\\c\\other.bin"]);
    run(&mut w, 11, "note", false, 300);
    w.handle_message(SearchWorkerMessage::Clear);
    assert!(!w.has_work());
    assert!(w.corpus.is_empty());
}

#[test]
fn cutoff_stays_in_range() {
    assert_eq!(latest_cutoff(300, 120), 180);
    assert_eq!(latest_cutoff(i64::MIN + 5, 10), i64::MIN);
    assert_eq!(latest_cutoff(i64::MAX, -1), i64::MAX);
    assert_eq!(latest_cutoff(0, i64::MIN), i64::MAX);
}

#[test]
fn recent_event_map_copies() {
    let mut m = RecentEventMap::new();
    m.insert("a", 1);
    m.insert("b", 2);
    m.insert("a", 3);
    m.remove("b");
    let d = m.duplicate();
    assert_eq!(d.get("a"), Some(3));
    assert_eq!(d.get("b"), None);
    assert_eq!(m.get("a"), Some(3));
}
