use std::collections::HashMap;
use wizcore::checkpoint::{
    load_usn_checkpoint, persist_usn_checkpoint, plan_recovery, JournalInfo, RecoveryAction,
    UsnCheckpoint,
};
use wizcore::enumeration::{
    closing_progress, enumeration_progress_due, keep_scope_items, root_action, walk_progress_due,
    walked_item, RootAction,
};
use wizcore::item::{SearchItem, UNKNOWN_TS};
use wizcore::journal::{enumeration_progress, ingest_enum_records, NtfsVolumeState};
use wizcore::ntfs::{materialize_full_path, remove_ntfs_node_and_descendants, NtfsNode};
use wizcore::scope::SearchScope;
use wizcore::usn::{
    filetime_100ns_to_unix_secs, parse_usn_buffer, unknown_ts, UsnRecord,
    FILE_ATTRIBUTE_DIRECTORY, USN_REASON_FILE_CREATE, USN_REASON_FILE_DELETE,
    USN_REASON_RENAME_NEW_NAME,
};

fn node(parent: u64, name: &str, is_dir: bool) -> NtfsNode {
    NtfsNode {
        parent_id: parent,
        name: name.to_string(),
        is_dir,
        modified_unix_secs: 7,
        file_attributes: if is_dir { 16 } else { 32 },
    }
}

fn tree() -> HashMap<u64, NtfsNode> {
    let mut m = HashMap::new();
    m.insert(5, node(5, ".", true));
    m.insert(10, node(5, "Users", true));
    m.insert(11, node(10, "me", true));
    m.insert(12, node(11, "a.txt", false));
    m.insert(13, node(11, "b.txt", false));
    m.insert(20, node(5, "top.bin", false));
    m
}

fn record(id: u64, parent: u64, name: &str, attrs: u32, reason: u32) -> UsnRecord {
    UsnRecord {
        record_length: 64,
        major_version: 2,
        file_reference_number: id,
        parent_file_reference_number: parent,
        usn: 0,
        timestamp: 116_444_736_000_000_000 + 420_000_000,
        reason,
        file_attributes: attrs,
        name: name.to_string(),
    }
}

#[test]
fn path_is_built_from_the_root_down() {
    let nodes = tree();
    let mut cache = HashMap::new();
    assert_eq!(materialize_full_path(12, &nodes, &mut cache, "C:\\"), "C:\\.\\Users\\me\\a.txt");
    assert_eq!(cache.get(&12).map(|s| s.as_str()), Some("C:\\.\\Users\\me\\a.txt"));
    assert_eq!(materialize_full_path(5, &nodes, &mut cache, "C:\\"), "C:\\.");
    assert_eq!(materialize_full_path(99, &nodes, &mut cache, "C:\\"), "C:\\");
    cache.insert(20, "cached".to_string());
    assert_eq!(materialize_full_path(20, &nodes, &mut cache, "C:\\"), "cached");
}

#[test]
fn path_walk_ends_on_a_cycle() {
    let mut nodes = HashMap::new();
    nodes.insert(1, node(2, "a", true));
    nodes.insert(2, node(1, "b", true));
    let mut cache = HashMap::new();
    let path = materialize_full_path(1, &nodes, &mut cache, "D:\\");
    assert_eq!(path.matches('a').count(), 512);
    assert_eq!(path.matches('b').count(), 512);
    assert!(path.starts_with("D:\\b\\a\\"));
    assert!(path.ends_with("\\b\\a"));
}

#[test]
fn removal_takes_the_subtree() {
    let mut nodes = tree();
    let mut removed = remove_ntfs_node_and_descendants(&mut nodes, 10);
    assert_eq!(removed[0], 10);
    removed.sort();
    assert_eq!(removed, vec![10, 11, 12, 13]);
    let mut left: Vec<u64> = nodes.keys().copied().collect();
    left.sort();
    assert_eq!(left, vec![5, 20]);
    assert!(remove_ntfs_node_and_descendants(&mut nodes, 10).is_empty());
    assert_eq!(nodes.len(), 2);
}

#[test]
fn removal_ends_on_a_cycle() {
    let mut nodes = HashMap::new();
    nodes.insert(1, node(2, "a", true));
    nodes.insert(2, node(1, "b", true));
    nodes.insert(3, node(3, "root", true));
    let mut removed = remove_ntfs_node_and_descendants(&mut nodes, 1);
    removed.sort();
    assert_eq!(removed, vec![1, 2]);
    assert_eq!(nodes.len(), 1);
    let removed = remove_ntfs_node_and_descendants(&mut nodes, 3);
    assert_eq!(removed, vec![3]);
}

#[test]
fn enumeration_takes_named_version_2_records() {
    let mut nodes = HashMap::new();
    let mut other = record(3, 5, "skipped", 32, 0);
    other.major_version = 3;
    let records = vec![
        record(5, 5, "root", FILE_ATTRIBUTE_DIRECTORY, 0),
        record(7, 5, "f.txt", 32, 0),
        record(8, 5, "", 32, 0),
        other,
        record(7, 5, "g.txt", 32, 0),
    ];
    assert_eq!(ingest_enum_records(&mut nodes, &records), 3);
    assert_eq!(nodes.len(), 2);
    assert!(nodes[&5].is_dir);
    assert_eq!(nodes[&7].name, "g.txt");
    assert_eq!(nodes[&7].modified_unix_secs, 42);
    assert_eq!(enumeration_progress(150, 100, 300), (50, 200));
    assert_eq!(enumeration_progress(50, 100, 300), (0, 200));
    assert_eq!(enumeration_progress(900, 100, 300), (200, 200));
    assert_eq!(enumeration_progress(5, -10, 0), (1, 1));
    assert_eq!(enumeration_progress(i64::MIN, i64::MAX, i64::MIN), (0, 1));
}

#[test]
fn journal_batch_reports_changes() {
    let mut state = NtfsVolumeState::new('c', 9, 100, tree());
    assert_eq!(state.drive_prefix, "C:\\");
    assert_eq!(state.id_to_path.len(), 3);
    let mut items: Vec<String> = state.collect_items().into_iter().map(|i| i.path).collect();
    items.sort();
    assert_eq!(items, vec!["C:\\.\\Users\\me\\a.txt", "C:\\.\\Users\\me\\b.txt", "C:\\.\\top.bin"]);
    let records = vec![
        record(12, 11, "renamed.txt", 32, USN_REASON_RENAME_NEW_NAME),
        record(20, 5, "top.bin", 32, USN_REASON_FILE_DELETE),
        record(30, 11, "new.txt", 32, USN_REASON_FILE_CREATE),
        record(31, 5, "newdir", FILE_ATTRIBUTE_DIRECTORY, USN_REASON_FILE_CREATE),
    ];
    let batch = state.apply_journal_records(250, &records);
    assert_eq!(state.next_usn, 250);
    let upserts: Vec<(String, i64)> =
        batch.upserts.iter().map(|i| (i.path.clone(), i.modified_unix_secs)).collect();
    assert_eq!(
        upserts,
        vec![
            ("C:\\.\\Users\\me\\renamed.txt".to_string(), 42),
            ("C:\\.\\Users\\me\\new.txt".to_string(), 42)
        ]
    );
    assert_eq!(batch.deleted_paths, vec!["C:\\.\\top.bin", "C:\\.\\Users\\me\\a.txt"]);
    assert_eq!(batch.changed_entries, 4);
    assert!(!state.nodes.contains_key(&20));
    assert_eq!(state.id_to_path[&12], "C:\\.\\Users\\me\\renamed.txt");
    assert!(!state.id_to_path.contains_key(&20));
    let quiet = state.apply_journal_records(200, &Vec::new());
    assert_eq!(state.next_usn, 250);
    assert!(quiet.upserts.is_empty() && quiet.deleted_paths.is_empty());
    assert_eq!(quiet.changed_entries, 0);
}

#[test]
fn deleting_a_directory_reports_its_files() {
    let mut state = NtfsVolumeState::new('c', 9, 100, tree());
    let batch = state.apply_journal_records(
        101,
        &vec![record(10, 5, "Users", FILE_ATTRIBUTE_DIRECTORY, USN_REASON_FILE_DELETE)],
    );
    let mut deleted = batch.deleted_paths.clone();
    deleted.sort();
    assert_eq!(deleted, vec!["C:\\.\\Users\\me\\a.txt", "C:\\.\\Users\\me\\b.txt"]);
    assert!(batch.upserts.is_empty());
    assert_eq!(state.nodes.len(), 2);
}

#[test]
fn snapshot_is_due_after_changes() {
    let mut state = NtfsVolumeState::new('c', 9, 100, HashMap::new());
    assert!(!state.snapshot_due(1000));
    state.note_changes(1);
    assert!(!state.snapshot_due(11));
    assert!(state.snapshot_due(12));
    state.note_changes(3999);
    assert!(state.snapshot_due(0));
    state.note_changes(usize::MAX);
    assert_eq!(state.changed_since_snapshot, usize::MAX);
    state.note_snapshot_written();
    assert!(!state.snapshot_due(100));
}

fn usn_bytes(id: u64, parent: u64, reason: u32, attrs: u32, name: &str, major: u16) -> Vec<u8> {
    let units: Vec<u16> = name.encode_utf16().collect();
    let len = (60 + 2 * units.len() + 7) / 8 * 8;
    let mut b = vec![0u8; len];
    b[0..4].copy_from_slice(&(len as u32).to_le_bytes());
    b[4..6].copy_from_slice(&major.to_le_bytes());
    b[8..16].copy_from_slice(&id.to_le_bytes());
    b[16..24].copy_from_slice(&parent.to_le_bytes());
    b[24..32].copy_from_slice(&(-5i64).to_le_bytes());
    b[32..40].copy_from_slice(&116_444_736_010_000_000i64.to_le_bytes());
    b[40..44].copy_from_slice(&reason.to_le_bytes());
    b[52..56].copy_from_slice(&attrs.to_le_bytes());
    b[56..58].copy_from_slice(&((2 * units.len()) as u16).to_le_bytes());
    b[58..60].copy_from_slice(&60u16.to_le_bytes());
    for (i, u) in units.iter().enumerate() {
        b[60 + 2 * i..62 + 2 * i].copy_from_slice(&u.to_le_bytes());
    }
    b
}

#[test]
fn buffer_is_read_record_by_record() {
    let mut buffer = 777u64.to_le_bytes().to_vec();
    buffer.extend(usn_bytes(12, 11, 0x100, 32, "héllo.txt", 2));
    buffer.extend(usn_bytes(13, 11, 0x200, 16, "", 2));
    buffer.extend(usn_bytes(14, 11, 0, 32, "v3", 3));
    let filled = buffer.len();
    buffer.extend(vec![0xAAu8; 100]);
    let (head, records) = parse_usn_buffer(&buffer, filled).unwrap();
    assert_eq!(head, 777);
    assert_eq!(records.len(), 3);
    assert_eq!(records[0].file_reference_number, 12);
    assert_eq!(records[0].parent_file_reference_number, 11);
    assert_eq!(records[0].name, "héllo.txt");
    assert_eq!(records[0].usn, -5);
    assert_eq!(records[0].timestamp, 116_444_736_010_000_000);
    assert_eq!(records[0].reason, 0x100);
    assert_eq!(records[0].file_attributes, 32);
    assert_eq!(records[0].major_version, 2);
    assert_eq!(records[1].name, "");
    assert_eq!(records[1].reason, 0x200);
    assert_eq!(records[2].major_version, 3);
    assert!(parse_usn_buffer(&buffer, 7).is_none());
    assert!(parse_usn_buffer(&buffer, buffer.len() + 1).is_none());
    assert_eq!(parse_usn_buffer(&buffer, 8).unwrap().1.len(), 0);
    assert_eq!(parse_usn_buffer(&buffer, 8 + 59).unwrap().1.len(), 0);
    let cut = parse_usn_buffer(&buffer, 8 + 64).unwrap().1;
    assert_eq!(cut.len(), 1);
    assert_eq!(cut[0].name, "");
}

#[test]
fn lone_surrogate_is_replaced() {
    let mut buffer = 0u64.to_le_bytes().to_vec();
    let mut rec = usn_bytes(1, 1, 0, 32, "ab", 2);
    rec[60..62].copy_from_slice(&0xD800u16.to_le_bytes());
    buffer.extend(rec);
    let (_, records) = parse_usn_buffer(&buffer, buffer.len()).unwrap();
    assert_eq!(records[0].name, "\u{FFFD}b");
}

#[test]
fn file_time_conversion() {
    assert_eq!(filetime_100ns_to_unix_secs(0), None);
    assert_eq!(filetime_100ns_to_unix_secs(-1), None);
    assert_eq!(filetime_100ns_to_unix_secs(116_444_736_000_000_000), Some(0));
    assert_eq!(filetime_100ns_to_unix_secs(116_444_736_000_000_000 + 19_999_999), Some(1));
    assert_eq!(filetime_100ns_to_unix_secs(1), Some(-11_644_473_600));
    assert_eq!(unknown_ts(), i64::MIN);
    assert_eq!(unknown_ts(), UNKNOWN_TS);
}

#[test]
fn checkpoint_lines() {
    let text = "C,5,100\nbroken\nd,7,-3,extra\r\n,1,2\nE,x,1\nC,6,200";
    assert_eq!(
        load_usn_checkpoint(text, 'c'),
        Some(UsnCheckpoint { drive: 'C', journal_id: 5, next_usn: 100 })
    );
    assert_eq!(
        load_usn_checkpoint(text, 'D'),
        Some(UsnCheckpoint { drive: 'D', journal_id: 7, next_usn: -3 })
    );
    assert_eq!(load_usn_checkpoint(text, 'E'), None);
    assert_eq!(load_usn_checkpoint("", 'C'), None);
    assert_eq!(persist_usn_checkpoint(text, 'd', 8, 9), "C,6,200\nD,8,9");
    assert_eq!(persist_usn_checkpoint(text, 'z', 1, 2), "C,6,200\nD,7,-3\nZ,1,2");
    assert_eq!(persist_usn_checkpoint("", 'c', 18446744073709551615, i64::MIN), "C,18446744073709551615,-9223372036854775808");
    assert_eq!(
        load_usn_checkpoint("C,18446744073709551615,+9223372036854775807", 'C'),
        Some(UsnCheckpoint { drive: 'C', journal_id: u64::MAX, next_usn: i64::MAX })
    );
    assert_eq!(load_usn_checkpoint("C,18446744073709551616,1", 'C'), None);
    assert_eq!(load_usn_checkpoint("C,1,9223372036854775808", 'C'), None);
}

#[test]
fn recovery_plan() {
    let journal = JournalInfo { journal_id: 5, first_usn: 100, next_usn: 500 };
    let saved = |id, usn| Some(UsnCheckpoint { drive: 'C', journal_id: id, next_usn: usn });
    assert_eq!(plan_recovery(5, 200, None, journal), RecoveryAction::Resume { next_usn: 200 });
    assert_eq!(
        plan_recovery(5, 200, saved(5, 300), journal),
        RecoveryAction::Resume { next_usn: 300 }
    );
    assert_eq!(
        plan_recovery(5, 200, saved(6, 300), journal),
        RecoveryAction::Resume { next_usn: 200 }
    );
    assert_eq!(
        plan_recovery(5, 200, saved(5, 150), journal),
        RecoveryAction::Resume { next_usn: 200 }
    );
    assert_eq!(plan_recovery(4, 200, None, journal), RecoveryAction::Reenumerate);
    assert_eq!(plan_recovery(5, 50, None, journal), RecoveryAction::Reenumerate);
    assert_eq!(plan_recovery(5, 501, None, journal), RecoveryAction::Reenumerate);
    assert_eq!(plan_recovery(5, 200, saved(5, 501), journal), RecoveryAction::Reenumerate);
}

#[test]
fn current_folder_keeps_what_lies_below_it() {
    let items = || {
        vec![
            SearchItem::new("C:\\Work\\a.txt".to_string(), 1),
            SearchItem::new("C:\\Workshop\\b.txt".to_string(), 2),
            SearchItem::new("c:/work/sub/c.txt".to_string(), 3),
        ]
    };
    let kept = keep_scope_items(items(), &SearchScope::CurrentFolder, "C:\\Work");
    let paths: Vec<&str> = kept.iter().map(|i| i.path.as_str()).collect();
    assert_eq!(paths, vec!["C:\\Work\\a.txt", "c:/work/sub/c.txt"]);
    assert_eq!(keep_scope_items(items(), &SearchScope::Drive('C'), "C:\\Work").len(), 3);
}

#[test]
fn roots_are_read_walked_or_skipped() {
    assert_eq!(root_action(true, true), RootAction::UseVolume);
    assert_eq!(root_action(true, false), RootAction::UseVolume);
    assert_eq!(root_action(false, true), RootAction::Walk);
    assert_eq!(root_action(false, false), RootAction::Skip);
}

#[test]
fn walked_files_have_no_known_time() {
    let found = walked_item("C:\\a\\b.txt".to_string());
    assert_eq!(found.path, "C:\\a\\b.txt");
    assert_eq!(found.modified_unix_secs, i64::MIN);
}

#[test]
fn progress_cadence_of_walk_and_enumeration() {
    assert!(walk_progress_due(500));
    assert!(walk_progress_due(1000));
    assert!(!walk_progress_due(499));
    assert!(!walk_progress_due(501));
    assert!(enumeration_progress_due(4990, 5000));
    assert!(enumeration_progress_due(4990, 5003));
    assert!(!enumeration_progress_due(5000, 5010));
    assert!(!enumeration_progress_due(0, 4999));
    assert_eq!(closing_progress(0), (0, 1));
    assert_eq!(closing_progress(7), (7, 7));
}
