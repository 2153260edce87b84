use wizcore::item::SearchItem;
use wizcore::scope::SearchScope;
use wizcore::snapshot::{
    decode_scope_snapshot, encode_scope_snapshot, load_scope_snapshot, quick_help_dismissed,
    quick_help_text, scope_snapshot_file_name, ScopeIndexSnapshot, SnapshotItem,
};

fn item(path: &str, t: i64) -> SearchItem {
    SearchItem::new(path.to_string(), t)
}

fn pairs(items: &[SearchItem]) -> Vec<(String, i64)> {
    items.iter().map(|i| (i.path.clone(), i.modified_unix_secs)).collect()
}

#[test]
fn snapshot_bytes() {
    let snapshot = ScopeIndexSnapshot::new(&SearchScope::Drive('c'), vec![item("C:\\x", 42)]);
    assert_eq!(snapshot.version, 1);
    assert_eq!(snapshot.scope, "C:");
    let bytes = encode_scope_snapshot(&snapshot).unwrap();
    let mut expected = vec![1u8, 0, 0, 0];
    expected.extend(2u64.to_le_bytes());
    expected.extend(b"C:");
    expected.extend(1u64.to_le_bytes());
    expected.extend(4u64.to_le_bytes());
    expected.extend(b"C:\\x");
    expected.extend(42i64.to_le_bytes());
    assert_eq!(bytes, expected);
    assert_eq!(
        bytes,
        bincode::serialize(&(1u32, "C:", vec![("C:\\x", 42i64)])).unwrap()
    );
}

#[test]
fn snapshot_round_trip() {
    let scope = SearchScope::AllLocalDrives;
    let items = vec![item("C:\\a", 1), item("D:\\ü.txt", -7), item("", i64::MIN)];
    let bytes = encode_scope_snapshot(&ScopeIndexSnapshot::new(&scope, items)).unwrap();
    let loaded = load_scope_snapshot(&bytes, &scope).unwrap();
    assert_eq!(
        pairs(&loaded),
        vec![("C:\\a".to_string(), 1), ("D:\\ü.txt".to_string(), -7), ("".to_string(), i64::MIN)]
    );
    let again = encode_scope_snapshot(&ScopeIndexSnapshot::new(&scope, loaded)).unwrap();
    assert_eq!(again, bytes);
    let mut longer = bytes.clone();
    longer.extend([1, 2, 3]);
    assert_eq!(load_scope_snapshot(&longer, &scope).unwrap().len(), 3);
    assert!(load_scope_snapshot(&bytes, &SearchScope::CurrentFolder).is_none());
}

#[test]
fn truncated_snapshot_is_rejected() {
    let scope = SearchScope::Drive('C');
    let snapshot = ScopeIndexSnapshot {
        version: 1,
        scope: "c:".to_string(),
        items: vec![SnapshotItem { path: "C:\\x".to_string(), modified_unix_secs: 42 }],
    };
    let bytes = encode_scope_snapshot(&snapshot).unwrap();
    let half = &bytes[..bytes.len() / 2];
    assert!(decode_scope_snapshot(half).is_none());
    assert!(load_scope_snapshot(half, &scope).is_none());
    for cut in 0..bytes.len() {
        assert!(decode_scope_snapshot(&bytes[..cut]).is_none());
    }
    assert!(decode_scope_snapshot(&bytes).is_some());
}

#[test]
fn other_version_or_scope_is_rejected() {
    let scope = SearchScope::Drive('C');
    let old = ScopeIndexSnapshot { version: 2, scope: "C:".to_string(), items: Vec::new() };
    assert!(load_scope_snapshot(&encode_scope_snapshot(&old).unwrap(), &scope).is_none());
    assert!(old.into_items(&scope).is_none());
    let lower = ScopeIndexSnapshot { version: 1, scope: "c:".to_string(), items: Vec::new() };
    assert!(lower.into_items(&scope).is_none());
    let good = ScopeIndexSnapshot { version: 1, scope: "C:".to_string(), items: Vec::new() };
    assert_eq!(good.into_items(&scope).map(|v| v.len()), Some(0));
    let mut bad_utf8 = encode_scope_snapshot(&ScopeIndexSnapshot::new(&scope, Vec::new())).unwrap();
    bad_utf8[12] = 0xFF;
    assert!(decode_scope_snapshot(&bad_utf8).is_none());
}

#[test]
fn file_names_and_flags() {
    assert_eq!(scope_snapshot_file_name(&SearchScope::Drive('d')), "scope-D:.bin");
    assert_eq!(scope_snapshot_file_name(&SearchScope::CurrentFolder), "scope-current-folder.bin");
    assert!(quick_help_dismissed(" 1\n"));
    assert!(!quick_help_dismissed("0"));
    assert!(!quick_help_dismissed(""));
    assert!(!quick_help_dismissed("11"));
    assert_eq!(quick_help_text(true), "1");
    assert_eq!(quick_help_text(false), "0");
}
