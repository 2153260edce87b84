use wizcore::item::SearchItem;
use wizcore::matching::{
    contains_ascii_case_insensitive, file_name_from_path, query_matches_item, truncate_middle,
    wildcard_match_ascii_insensitive,
};

#[test]
fn contains_ascii_case_insensitive_works() {
    assert!(contains_ascii_case_insensitive("HelloWorld", "hello"));
    assert!(!contains_ascii_case_insensitive("HelloWorld", "xyz"));
}

#[test]
fn wildcard_match_works() {
    let item = SearchItem {
        path: "C:\\tmp\\notes.txt".into(),
        modified_unix_secs: 0,
    };
    assert!(query_matches_item("n*.txt", &item));
    assert!(query_matches_item("*tmp*", &item));
}

#[test]
fn contains_takes_the_needle_as_it_is() {
    assert!(contains_ascii_case_insensitive("anything", ""));
    assert!(contains_ascii_case_insensitive("", ""));
    assert!(!contains_ascii_case_insensitive("", "a"));
    assert!(!contains_ascii_case_insensitive("HelloWorld", "Hello"));
    assert!(contains_ascii_case_insensitive("HelloWorld", "d"));
    assert!(contains_ascii_case_insensitive("HelloWorld", "w"));
    assert!(!contains_ascii_case_insensitive("abc", "abcd"));
    assert!(contains_ascii_case_insensitive("ÄbC", "Äbc"));
}

#[test]
fn wildcard_star_and_question_mark() {
    assert!(wildcard_match_ascii_insensitive("*", ""));
    assert!(wildcard_match_ascii_insensitive("*", "anything at all"));
    assert!(wildcard_match_ascii_insensitive("?", "x"));
    assert!(wildcard_match_ascii_insensitive("?", "é"));
    assert!(!wildcard_match_ascii_insensitive("?", ""));
    assert!(!wildcard_match_ascii_insensitive("?", "xy"));
    assert!(wildcard_match_ascii_insensitive("*.rs", "C:\\src\\MAIN.RS"));
    assert!(!wildcard_match_ascii_insensitive("*.rs", "C:\\src\\main.rs.bak"));
    assert!(wildcard_match_ascii_insensitive("a*b*c", "aXXbYYbZZc"));
    assert!(!wildcard_match_ascii_insensitive("a*b*c", "aXXbYYbZZ"));
    assert!(wildcard_match_ascii_insensitive("*a", "*ba"));
    assert!(wildcard_match_ascii_insensitive("", ""));
    assert!(!wildcard_match_ascii_insensitive("", "a"));
    assert!(wildcard_match_ascii_insensitive("***", "abc"));
}

#[test]
fn file_name_is_what_follows_the_last_separator() {
    assert_eq!(file_name_from_path("C:\\a\\Notes.txt"), "Notes.txt");
    assert_eq!(file_name_from_path("/usr/lib/x.so"), "x.so");
    assert_eq!(file_name_from_path("plain"), "plain");
    assert_eq!(file_name_from_path("dir\\"), "");
    assert_eq!(file_name_from_path(""), "");
    assert_eq!(file_name_from_path("a/b\\c"), "c");
    assert_eq!(file_name_from_path("ü/ö"), "ö");
}

#[test]
fn truncate_middle_keeps_both_ends() {
    assert_eq!(truncate_middle("short", 10), "short");
    assert_eq!(truncate_middle("exactly10!", 10), "exactly10!");
    assert_eq!(truncate_middle("abcdefghijkl", 3), "...");
    assert_eq!(truncate_middle("abcdefghijkl", 0), "...");
    assert_eq!(truncate_middle("abcdefghijkl", 8), "ab...jkl");
    assert_eq!(truncate_middle("abcdefghijkl", 9), "abc...jkl");
    assert_eq!(truncate_middle("abcdefghijkl", 4), "...l");
}

#[test]
fn substring_scenario() {
    let corpus = ["C:\\a\\Notes.txt", "C:\\b\\note.md", "C:\\c\\other.bin"];
    let hits: Vec<&str> = corpus
        .iter()
        .copied()
        .filter(|p| query_matches_item("note", &SearchItem::new(p.to_string(), 0)))
        .collect();
    assert_eq!(hits, vec!["C:\\a\\Notes.txt", "C:\\b\\note.md"]);
}

#[test]
fn wildcard_scenario() {
    let corpus = ["C:\\a\\Notes.txt", "C:\\b\\note.md", "C:\\c\\other.bin"];
    let hits: Vec<&str> = corpus
        .iter()
        .copied()
        .filter(|p| query_matches_item("n*.md", &SearchItem::new(p.to_string(), 0)))
        .collect();
    assert_eq!(hits, vec!["C:\\b\\note.md"]);
}
