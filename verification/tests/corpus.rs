use wizcore::corpus::{Corpus, VISIBLE_RESULTS_LIMIT};
use wizcore::item::{estimate_index_memory_bytes, SearchItem, UNKNOWN_TS};

fn item(path: &str, t: i64) -> SearchItem {
    SearchItem::new(path.to_string(), t)
}

fn pairs(items: &[SearchItem]) -> Vec<(String, i64)> {
    items.iter().map(|i| (i.path.clone(), i.modified_unix_secs)).collect()
}

fn built(items: Vec<SearchItem>) -> Corpus {
    let mut c = Corpus::new();
    c.set_items(items);
    while c.filename_index_dirty {
        c.process_filename_index_build_step(2);
    }
    c
}

#[test]
fn delta_apply_scenario() {
    let mut c = Corpus::new();
    c.set_items(vec![item("X", 10)]);
    let counts = c.apply_index_delta(vec![item("X", 20), item("Y", 15)], &vec!["Z".to_string()]);
    assert_eq!(pairs(&c.items), vec![("X".to_string(), 20), ("Y".to_string(), 15)]);
    assert_eq!((counts.added, counts.updated, counts.deleted), (1, 1, 0));
    assert!(c.filename_index_dirty);
}

#[test]
fn delta_deletes_then_upserts() {
    let mut c = Corpus::new();
    c.set_items(vec![item("a", 1), item("b", 2), item("c", 3), item("d", 4)]);
    let counts = c.apply_index_delta(
        vec![item("c", 30), item("e", 5), item("b", 9)],
        &vec!["b".to_string(), "d".to_string(), "b".to_string(), "zz".to_string()],
    );
    assert_eq!(
        pairs(&c.items),
        vec![
            ("a".to_string(), 1),
            ("c".to_string(), 30),
            ("e".to_string(), 5),
            ("b".to_string(), 9)
        ]
    );
    assert_eq!((counts.added, counts.updated, counts.deleted), (2, 1, 2));
}

#[test]
fn delta_with_repeated_upserts_keeps_the_last() {
    let mut c = Corpus::new();
    let counts = c.apply_index_delta(vec![item("x", 1), item("x", 2)], &Vec::new());
    assert_eq!(pairs(&c.items), vec![("x".to_string(), 2)]);
    assert_eq!((counts.added, counts.updated, counts.deleted), (1, 1, 0));
}

#[test]
fn empty_query_lists_the_first_items() {
    let mut c = Corpus::new();
    c.set_items((0..VISIBLE_RESULTS_LIMIT + 5).map(|i| item(&format!("f{}", i), 0)).collect());
    let first = c.first_items();
    assert_eq!(first.len(), VISIBLE_RESULTS_LIMIT);
    assert_eq!(first[0].path, "f0");
    assert_eq!(first[VISIBLE_RESULTS_LIMIT - 1].path, format!("f{}", VISIBLE_RESULTS_LIMIT - 1));
    c.set_items(vec![item("only", 1)]);
    assert_eq!(pairs(&c.first_items()), vec![("only".to_string(), 1)]);
}

#[test]
fn index_build_runs_in_batches() {
    let mut c = Corpus::new();
    c.set_items(vec![item("C:\\a\\One.txt", 1), item("C:\\b\\two.md", 2), item("C:\\three", 3)]);
    assert!(c.filename_index_dirty && !c.filename_index_building);
    c.process_filename_index_build_step(2);
    assert!(c.filename_index_dirty && c.filename_index_building);
    assert_eq!(c.filename_index_build_cursor, 2);
    assert!(c.try_fast_filename_search("one.txt").is_none());
    c.process_filename_index_build_step(2);
    assert!(!c.filename_index_dirty && !c.filename_index_building);
    assert_eq!(c.filename_index_build_cursor, 0);
    c.process_filename_index_build_step(2);
    assert!(!c.filename_index_dirty);
}

#[test]
fn index_is_consistent_when_not_dirty() {
    let c = built(vec![
        item("C:\\a\\Notes.txt", 1),
        item("C:\\b\\notes.TXT", 2),
        item("D:/x/other.bin", 3),
    ]);
    assert_eq!(c.filename_exact_index.get("notes.txt").cloned(), Some(vec![0, 1]));
    assert_eq!(c.filename_exact_index.get("other.bin").cloned(), Some(vec![2]));
    assert!(c.filename_exact_index.get("Notes.txt").is_none());
    assert_eq!(c.filename_prefix_index.get("n").cloned(), Some(vec![0, 1]));
    assert_eq!(c.filename_prefix_index.get("no").cloned(), Some(vec![0, 1]));
    assert_eq!(c.filename_prefix_index.get("not").cloned(), Some(vec![0, 1]));
    assert!(c.filename_prefix_index.get("note").is_none());
    assert_eq!(c.filename_prefix_index.get("oth").cloned(), Some(vec![2]));
}

#[test]
fn fast_search_lists_exact_names_first() {
    let c = built(vec![
        item("C:\\x\\readme.md", 1),
        item("C:\\y\\read", 2),
        item("C:\\z\\READ", 3),
        item("C:\\q\\thread.txt", 4),
        item("C:\\q\\rea", 5),
    ]);
    let hits = c.try_fast_filename_search("read").unwrap();
    let paths: Vec<&str> = hits.iter().map(|i| i.path.as_str()).collect();
    assert_eq!(paths, vec!["C:\\y\\read", "C:\\z\\READ", "C:\\x\\readme.md"]);
    assert!(c.try_fast_filename_search("zzz").is_none());
    assert!(c.try_fast_filename_search("").is_none());
}

#[test]
fn separators_and_wildcards_force_the_slow_path() {
    let c = built(vec![item("C:\\x\\a:b", 1), item("a*b", 2), item("a?b", 3)]);
    assert!(c.try_fast_filename_search("a:b").is_none());
    assert!(c.try_fast_filename_search("x\\a").is_none());
    assert!(c.try_fast_filename_search("x/a").is_none());
    assert!(c.try_fast_filename_search("a*b").is_none());
    assert!(c.try_fast_filename_search("a?b").is_none());
    assert!(c.try_fast_filename_search("a").is_some());
}

#[test]
fn fast_search_is_refused_while_dirty() {
    let mut c = built(vec![item("C:\\x\\readme.md", 1)]);
    assert!(c.try_fast_filename_search("readme.md").is_some());
    c.apply_index_delta(vec![item("C:\\y", 1)], &Vec::new());
    assert!(c.try_fast_filename_search("readme.md").is_none());
}

#[test]
fn memory_estimate() {
    assert_eq!(estimate_index_memory_bytes(&Vec::new()), 0);
    assert_eq!(estimate_index_memory_bytes(&vec![item("abc", UNKNOWN_TS), item("é", 1)]), 48 + 3 + 48 + 2);
}
