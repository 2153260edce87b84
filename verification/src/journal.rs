//! The state of one indexed volume and what the change journal does to it.

use std::collections::{HashMap, HashSet};
use vstd::prelude::*;
use vstd::std_specs::hash::*;
use crate::corpus::path_set;
use crate::item::{item_views, ItemView, SearchItem};
use crate::ntfs::{
    cache_ok, full_path, materialize_full_path, node_ids, node_views,
    remove_ntfs_node_and_descendants, subtree, NodeView, NtfsNode,
};
use crate::scope::{drive_root, drive_root_text, string_views};
use crate::usn::{
    node_from_record, node_of_record, record_views, RecordView, UsnRecord,
    USN_REASON_FILE_CREATE, USN_REASON_FILE_DELETE, USN_REASON_RENAME_NEW_NAME,
};

verus! {

broadcast use vstd::std_specs::hash::group_hash_axioms;

/// The number of unsaved changes from which a snapshot is written.
pub const SNAPSHOT_CHANGE_THRESHOLD: usize = 4000;

/// The number of seconds after which unsaved changes are written.
pub const SNAPSHOT_INTERVAL_SECS: u64 = 12;

/// Whether a record describes a node: it is of version 2 and has a name.
pub open spec fn describes_node(record: RecordView) -> bool {
    record.major_version == 2 && record.name.len() > 0
}

/// The graph after the first `n` records of an enumeration: each record
/// that describes a node puts the node in under its record id.
pub open spec fn enumerated(nodes: Map<u64, NodeView>, records: Seq<RecordView>, n: nat) -> Map<
    u64,
    NodeView,
>
    decreases n,
{
    if n == 0 || n > records.len() {
        nodes
    } else {
        let before = enumerated(nodes, records, (n - 1) as nat);
        if describes_node(records[n - 1]) {
            before.insert(records[n - 1].file_reference_number, node_of_record(records[n - 1]))
        } else {
            before
        }
    }
}

/// How many of the first `n` records describe a node.
pub open spec fn described_count(records: Seq<RecordView>, n: nat) -> nat
    decreases n,
{
    if n == 0 || n > records.len() {
        0
    } else {
        described_count(records, (n - 1) as nat) + if describes_node(records[n - 1]) {
            1nat
        } else {
            0nat
        }
    }
}

/// Takes the records of one buffer of an enumeration into the graph.
/// Returns how many of them described a node.
pub fn ingest_enum_records(nodes: &mut HashMap<u64, NtfsNode>, records: &Vec<UsnRecord>) -> (count:
    usize)
    ensures
        node_views(final(nodes)@) == enumerated(
            node_views(old(nodes)@),
            record_views(records@),
            records.len() as nat,
        ),
        count == described_count(record_views(records@), records.len() as nat),
{
    let ghost start = node_views(nodes@);
    let ghost views = record_views(records@);
    let mut count: usize = 0;
    let mut i: usize = 0;
    while i < records.len()
        invariant
            i <= records.len(),
            views == record_views(records@),
            node_views(nodes@) == enumerated(start, views, i as nat),
            count == described_count(views, i as nat),
            count <= i,
        decreases records.len() - i,
    {
        let record = &records[i];
        assert(views[i as int] == record@);
        if record.major_version == 2 && record.name.as_str().unicode_len() > 0 {
            let ghost before = nodes@;
            let node = node_from_record(record);
            nodes.insert(record.file_reference_number, node);
            assert(node_views(nodes@) =~= node_views(before).insert(
                record.file_reference_number,
                node_of_record(record@),
            ));
            count += 1;
        }
        i += 1;
    }
    count
}

/// How far an enumeration has come when it sees a record with the given
/// journal position: the distance from the first position, and the length
/// of the journal as the total, which is at least 1. Positions below zero
/// count as zero.
pub open spec fn progress_of(usn: i64, first_usn: i64, next_usn: i64) -> (int, int) {
    let low: int = if first_usn < 0 {
        0
    } else {
        first_usn as int
    };
    let total: int = if next_usn - low < 1 {
        1
    } else {
        next_usn - low
    };
    let current: int = if usn - low < 0 {
        0
    } else if usn - low > total {
        total
    } else {
        usn - low
    };
    (current, total)
}

pub fn enumeration_progress(usn: i64, first_usn: i64, next_usn: i64) -> (r: (u64, u64))
    ensures
        (r.0 as int, r.1 as int) == progress_of(usn, first_usn, next_usn),
{
    let low: i64 = if first_usn < 0 {
        0
    } else {
        first_usn
    };
    let total: u64 = if next_usn <= low {
        1
    } else {
        (next_usn - low) as u64
    };
    let current: u64 = if usn <= low {
        0
    } else if (usn - low) as u64 > total {
        total
    } else {
        (usn - low) as u64
    };
    (current, total)
}

/// What the records of a journal batch have done so far: the graph, the
/// record ids that changed, in the order in which they first did, and the
/// record ids that were taken out.
pub ghost struct JournalFold {
    pub nodes: Map<u64, NodeView>,
    pub changed: Seq<u64>,
    pub deleted: Set<u64>,
}

/// What one record of the journal does. A record of another version than 2
/// does nothing. A record of a deletion takes the node and all below it out
/// of the graph. Any other record that has a name puts its node into the
/// graph unless the graph holds the same node already; the record id counts
/// as changed if the node was put in or the record tells of a creation or
/// of a new name.
pub open spec fn journal_step(st: JournalFold, record: RecordView) -> JournalFold {
    let id = record.file_reference_number;
    if record.major_version != 2 {
        st
    } else if record.reason & USN_REASON_FILE_DELETE != 0 {
        JournalFold {
            nodes: st.nodes.remove_keys(subtree(st.nodes, id)),
            changed: st.changed,
            deleted: st.deleted.union(subtree(st.nodes, id)),
        }
    } else if record.name.len() == 0 {
        st
    } else {
        let node = node_of_record(record);
        let differs = !st.nodes.contains_key(id) || st.nodes[id] != node;
        let marked = differs || record.reason & (USN_REASON_FILE_CREATE
            | USN_REASON_RENAME_NEW_NAME) != 0;
        JournalFold {
            nodes: if differs {
                st.nodes.insert(id, node)
            } else {
                st.nodes
            },
            changed: if marked && !st.changed.contains(id) {
                st.changed.push(id)
            } else {
                st.changed
            },
            deleted: st.deleted,
        }
    }
}

/// What the first `n` records of a batch do to a graph.
pub open spec fn journal_fold(nodes: Map<u64, NodeView>, records: Seq<RecordView>, n: nat) -> JournalFold
    decreases n,
{
    if n == 0 || n > records.len() {
        JournalFold { nodes, changed: Seq::empty(), deleted: Set::empty() }
    } else {
        journal_step(journal_fold(nodes, records, (n - 1) as nat), records[n - 1])
    }
}

/// Applies the records of a journal batch to the graph. Returns the record
/// ids that changed, each once, in the order in which they first did, and
/// the record ids that were taken out.
pub fn apply_records(nodes: &mut HashMap<u64, NtfsNode>, records: &Vec<UsnRecord>) -> (r: (
    Vec<u64>,
    Vec<u64>,
))
    ensures
        ({
            let fold = journal_fold(
                node_views(old(nodes)@),
                record_views(records@),
                records.len() as nat,
            );
            &&& node_views(final(nodes)@) == fold.nodes
            &&& r.0@ == fold.changed
            &&& r.1@.to_set() == fold.deleted
            &&& r.0@.len() == 0 && r.1@.len() == 0 ==> final(nodes)@ == old(nodes)@
        }),
{
    let ghost start = node_views(nodes@);
    let ghost views = record_views(records@);
    let mut changed: Vec<u64> = Vec::new();
    let mut changed_set: HashSet<u64> = HashSet::new();
    let mut deleted_ids: Vec<u64> = Vec::new();
    let mut i: usize = 0;
    assert(deleted_ids@.to_set() =~= Set::<u64>::empty());
    assert(changed@.to_set() =~= Set::<u64>::empty());
    while i < records.len()
        invariant
            i <= records.len(),
            views == record_views(records@),
            start == node_views(old(nodes)@),
            node_views(nodes@) == journal_fold(start, views, i as nat).nodes,
            changed@ == journal_fold(start, views, i as nat).changed,
            changed_set@ == changed@.to_set(),
            deleted_ids@.to_set() == journal_fold(start, views, i as nat).deleted,
            changed@.len() == 0 && deleted_ids@.len() == 0 ==> nodes@ == old(nodes)@,
        decreases records.len() - i,
    {
        let record = &records[i];
        assert(views[i as int] == record@);
        let id = record.file_reference_number;
        let ghost before = journal_fold(start, views, i as nat);
        if record.major_version != 2 {
        } else if (record.reason & USN_REASON_FILE_DELETE) != 0 {
            let ghost held = deleted_ids@;
            let ghost gone = subtree(node_views(nodes@), id);
            let ghost kept = nodes@;
            let mut removed = remove_ntfs_node_and_descendants(nodes, id);
            assert(node_views(nodes@) =~= node_views(kept).remove_keys(gone));
            let ghost taken = removed@;
            deleted_ids.append(&mut removed);
            proof {
                assert(deleted_ids@ =~= held + taken);
                assert forall|x: u64|
                    deleted_ids@.to_set().contains(x) <==> held.to_set().union(gone).contains(
                        x,
                    ) by {
                    if deleted_ids@.contains(x) {
                        let k = choose|k: int| 0 <= k < deleted_ids@.len() && deleted_ids@[k] == x;
                        if k < held.len() {
                            assert(held[k] == x);
                        } else {
                            assert(taken[k - held.len()] == x);
                            assert(taken.to_set().contains(x));
                        }
                    }
                    if held.contains(x) {
                        let k = choose|k: int| 0 <= k < held.len() && held[k] == x;
                        assert(deleted_ids@[k] == x);
                    }
                    if gone.contains(x) {
                        assert(taken.to_set().contains(x));
                        let k = choose|k: int| 0 <= k < taken.len() && taken[k] == x;
                        assert(deleted_ids@[held.len() + k] == x);
                    }
                }
                assert(deleted_ids@.to_set() =~= before.deleted.union(gone));
                if taken.len() == 0 {
                    assert(gone =~= Set::<u64>::empty());
                    assert(nodes@ =~= kept);
                }
            }
        } else if record.name.as_str().unicode_len() == 0 {
        } else {
            let node = node_from_record(record);
            let differs = match nodes.get(&id) {
                Some(existing) => !existing.same_as(&node),
                None => true,
            };
            let ghost kept = nodes@;
            if differs {
                nodes.insert(id, node);
                assert(node_views(nodes@) =~= node_views(kept).insert(id, node_of_record(record@)));
            }
            let marked = differs || (record.reason & (USN_REASON_FILE_CREATE
                | USN_REASON_RENAME_NEW_NAME)) != 0;
            if marked && !changed_set.contains(&id) {
                let ghost held = changed@;
                changed_set.insert(id);
                changed.push(id);
                proof {
                    assert forall|x: u64|
                        changed@.to_set().contains(x) <==> held.to_set().insert(id).contains(
                            x,
                        ) by {
                        if changed@.contains(x) {
                            let k = choose|k: int| 0 <= k < changed@.len() && changed@[k] == x;
                            if k < held.len() {
                                assert(held[k] == x);
                            }
                        }
                        if held.contains(x) {
                            let k = choose|k: int| 0 <= k < held.len() && held[k] == x;
                            assert(changed@[k] == x);
                        }
                        assert(changed@[held.len() as int] == id);
                    }
                    assert(changed@.to_set() =~= held.to_set().insert(id));
                }
            }
            proof {
                if changed@.len() == 0 {
                    assert(!differs) by {
                        if differs {
                            assert(before.changed.to_set().contains(id));
                        }
                    }
                }
            }
        }
        i += 1;
    }
    (changed, deleted_ids)
}

/// The paths that were recorded for the record ids taken out.
pub open spec fn gone_paths(paths: Map<u64, Seq<char>>, deleted: Set<u64>) -> Set<Seq<char>> {
    Set::new(
        |p: Seq<char>|
            exists|id: u64| deleted.contains(id) && paths.contains_key(id) && #[trigger] paths[id] == p,
    )
}

/// Takes the paths of the deleted record ids out of the record of reported
/// paths. Returns the paths taken out: one for every deleted record id that
/// had a path.
pub fn take_deleted_paths(id_to_path: &mut HashMap<u64, String>, deleted_ids: &Vec<u64>) -> (r: Vec<
    String,
>)
    ensures
        path_views(final(id_to_path)@) == path_views(old(id_to_path)@).remove_keys(
            deleted_ids@.to_set(),
        ),
        path_set(string_views(r@)) == gone_paths(
            path_views(old(id_to_path)@),
            deleted_ids@.to_set(),
        ),
        r@.len() == deleted_ids@.to_set().intersect(old(id_to_path)@.dom()).len(),
{
    let ghost paths = path_views(id_to_path@);
    let ghost domain = id_to_path@.dom();
    let mut out: Vec<String> = Vec::new();
    let mut i: usize = 0;
    proof {
        assert(id_to_path@.dom().finite());
        assert(deleted_ids@.take(0).to_set() =~= Set::<u64>::empty());
        assert(path_views(id_to_path@) =~= paths.remove_keys(Set::<u64>::empty()));
        assert(path_set(string_views(out@)) =~= gone_paths(paths, Set::<u64>::empty()));
        assert(Set::<u64>::empty().intersect(domain) =~= Set::<u64>::empty());
    }
    while i < deleted_ids.len()
        invariant
            i <= deleted_ids.len(),
            paths == path_views(old(id_to_path)@),
            domain == old(id_to_path)@.dom(),
            domain.finite(),
            path_views(id_to_path@) == paths.remove_keys(deleted_ids@.take(i as int).to_set()),
            path_set(string_views(out@)) == gone_paths(
                paths,
                deleted_ids@.take(i as int).to_set(),
            ),
            out@.len() == deleted_ids@.take(i as int).to_set().intersect(domain).len(),
        decreases deleted_ids.len() - i,
    {
        let id = deleted_ids[i];
        let ghost done = deleted_ids@.take(i as int).to_set();
        let ghost next = deleted_ids@.take(i + 1).to_set();
        let ghost held = string_views(out@);
        let ghost kept = id_to_path@;
        proof {
            assert(deleted_ids@.take(i + 1) =~= deleted_ids@.take(i as int).push(id));
            assert forall|x: u64| next.contains(x) <==> done.insert(id).contains(x) by {
                let a = deleted_ids@.take(i as int);
                let b = deleted_ids@.take(i + 1);
                if b.contains(x) {
                    let k = choose|k: int| 0 <= k < b.len() && b[k] == x;
                    if k < a.len() {
                        assert(a[k] == x);
                    }
                }
                if a.contains(x) {
                    let k = choose|k: int| 0 <= k < a.len() && a[k] == x;
                    assert(b[k] == x);
                }
                assert(b[a.len() as int] == id);
            }
            assert(next =~= done.insert(id));
        }
        match id_to_path.remove(&id) {
            Some(path) => {
                let ghost text = path@;
                out.push(path);
                proof {
                    assert(kept.contains_key(id) && kept[id] == path);
                    assert(path_views(kept).contains_key(id));
                    assert(path_views(kept)[id] == text);
                    assert(paths.remove_keys(done).contains_key(id));
                    assert(paths.contains_key(id) && !done.contains(id));
                    assert(paths[id] == text);
                    assert(id_to_path@ =~= kept.remove(id));
                    assert(path_views(id_to_path@) =~= path_views(kept).remove(id));
                    assert(path_views(id_to_path@) =~= paths.remove_keys(next));
                    assert(string_views(out@) =~= held.push(text));
                    assert forall|p: Seq<char>|
                        path_set(string_views(out@)).contains(p) <==> gone_paths(
                            paths,
                            next,
                        ).contains(p) by {
                        if string_views(out@).contains(p) {
                            let k = choose|k: int|
                                0 <= k < string_views(out@).len() && string_views(out@)[k] == p;
                            if k < held.len() {
                                assert(held[k] == p);
                                assert(path_set(held).contains(p));
                                let x = choose|x: u64|
                                    done.contains(x) && paths.contains_key(x) && #[trigger] paths[x]
                                        == p;
                                assert(next.contains(x));
                            } else {
                                assert(next.contains(id) && paths[id] == p);
                            }
                        }
                        if gone_paths(paths, next).contains(p) {
                            let x = choose|x: u64|
                                next.contains(x) && paths.contains_key(x) && #[trigger] paths[x] == p;
                            if x == id {
                                assert(string_views(out@)[held.len() as int] == p);
                            } else {
                                assert(done.contains(x));
                                assert(gone_paths(paths, done).contains(p));
                                assert(held.contains(p));
                                let k = choose|k: int| 0 <= k < held.len() && held[k] == p;
                                assert(string_views(out@)[k] == p);
                            }
                        }
                    }
                    assert(path_set(string_views(out@)) =~= gone_paths(paths, next));
                    assert(next.intersect(domain) =~= done.intersect(domain).insert(id));
                    assert(done.intersect(domain).finite());
                }
            },
            None => {
                proof {
                    assert(!kept.contains_key(id));
                    assert(!path_views(kept).contains_key(id));
                    assert(!paths.remove_keys(done).contains_key(id));
                    assert(id_to_path@ =~= kept);
                    assert(path_views(id_to_path@) =~= paths.remove_keys(next));
                    assert(string_views(out@) == held);
                    assert forall|p: Seq<char>|
                        gone_paths(paths, done).contains(p) <==> gone_paths(paths, next).contains(
                            p,
                        ) by {
                        if gone_paths(paths, done).contains(p) {
                            let x = choose|x: u64|
                                done.contains(x) && paths.contains_key(x) && #[trigger] paths[x] == p;
                            assert(next.contains(x));
                        }
                        if gone_paths(paths, next).contains(p) {
                            let x = choose|x: u64|
                                next.contains(x) && paths.contains_key(x) && #[trigger] paths[x] == p;
                            if x == id {
                                assert(done.contains(id));
                            }
                            assert(done.contains(x));
                        }
                    }
                    assert(gone_paths(paths, done) =~= gone_paths(paths, next));
                    assert(next.intersect(domain) =~= done.intersect(domain));
                }
            },
        }
        i += 1;
    }
    assert(deleted_ids@.take(deleted_ids.len() as int) =~= deleted_ids@);
    out
}

/// What has been reported of the changed record ids so far: the record of
/// reported paths, the items to put into the corpus, and the paths that a
/// file no longer has.
pub ghost struct ReportFold {
    pub paths: Map<u64, Seq<char>>,
    pub upserts: Seq<ItemView>,
    pub replaced: Seq<Seq<char>>,
}

/// Reports one changed record id. Nothing is reported of an id without a
/// node and of a directory. A file is reported with its path as an item to
/// put in; if it was last reported with another path, that path is
/// reported as no longer in use.
pub open spec fn report_step(
    nodes: Map<u64, NodeView>,
    drive_prefix: Seq<char>,
    st: ReportFold,
    id: u64,
) -> ReportFold {
    if !nodes.contains_key(id) || nodes[id].is_dir {
        st
    } else {
        let path = full_path(nodes, id, drive_prefix);
        ReportFold {
            paths: st.paths.insert(id, path),
            upserts: st.upserts.push(item_of_node(nodes, id, drive_prefix)),
            replaced: if st.paths.contains_key(id) && st.paths[id] != path {
                st.replaced.push(st.paths[id])
            } else {
                st.replaced
            },
        }
    }
}

/// Reports the first `n` changed record ids.
pub open spec fn report_fold(
    nodes: Map<u64, NodeView>,
    drive_prefix: Seq<char>,
    paths: Map<u64, Seq<char>>,
    changed: Seq<u64>,
    n: nat,
) -> ReportFold
    decreases n,
{
    if n == 0 || n > changed.len() {
        ReportFold { paths, upserts: Seq::empty(), replaced: Seq::empty() }
    } else {
        report_step(
            nodes,
            drive_prefix,
            report_fold(nodes, drive_prefix, paths, changed, (n - 1) as nat),
            changed[n - 1],
        )
    }
}

/// Reports the changed record ids: returns the items to put into the
/// corpus and the paths that files no longer have, and records the new
/// paths.
pub fn report_changed(
    nodes: &HashMap<u64, NtfsNode>,
    path_cache: &mut HashMap<u64, String>,
    drive_prefix: &str,
    id_to_path: &mut HashMap<u64, String>,
    changed: &Vec<u64>,
) -> (r: (Vec<SearchItem>, Vec<String>))
    requires
        cache_ok(old(path_cache)@, node_views(nodes@), drive_prefix@),
    ensures
        cache_ok(final(path_cache)@, node_views(nodes@), drive_prefix@),
        ({
            let report = report_fold(
                node_views(nodes@),
                drive_prefix@,
                path_views(old(id_to_path)@),
                changed@,
                changed.len() as nat,
            );
            &&& path_views(final(id_to_path)@) == report.paths
            &&& item_views(r.0@) == report.upserts
            &&& string_views(r.1@) == report.replaced
        }),
{
    let ghost graph = node_views(nodes@);
    let ghost prefix = drive_prefix@;
    let ghost paths = path_views(id_to_path@);
    let mut upserts: Vec<SearchItem> = Vec::new();
    let mut replaced: Vec<String> = Vec::new();
    let mut i: usize = 0;
    assert(item_views(upserts@) =~= Seq::<ItemView>::empty());
    assert(string_views(replaced@) =~= Seq::<Seq<char>>::empty());
    while i < changed.len()
        invariant
            i <= changed.len(),
            graph == node_views(nodes@),
            prefix == drive_prefix@,
            cache_ok(path_cache@, graph, prefix),
            path_views(id_to_path@) == report_fold(graph, prefix, paths, changed@, i as nat).paths,
            item_views(upserts@) == report_fold(graph, prefix, paths, changed@, i as nat).upserts,
            string_views(replaced@) == report_fold(
                graph,
                prefix,
                paths,
                changed@,
                i as nat,
            ).replaced,
        decreases changed.len() - i,
    {
        let id = changed[i];
        let file_time: Option<i64> = match nodes.get(&id) {
            Some(node) => if node.is_dir {
                None
            } else {
                Some(node.modified_unix_secs)
            },
            None => None,
        };
        match file_time {
            Some(modified_unix_secs) => {
                let path = materialize_full_path(id, nodes, path_cache, drive_prefix);
                let ghost kept = id_to_path@;
                let ghost held_items = item_views(upserts@);
                let ghost held_paths = string_views(replaced@);
                match id_to_path.insert(id, path.clone()) {
                    Some(old_path) => {
                        assert(kept.contains_key(id) && kept[id] == old_path);
                        assert(path_views(kept)[id] == old_path@);
                        if old_path != path {
                            replaced.push(old_path);
                            assert(string_views(replaced@) =~= held_paths.push(old_path@));
                        }
                    },
                    None => {
                        assert(!path_views(kept).contains_key(id));
                    },
                }
                assert(path_views(id_to_path@) =~= path_views(kept).insert(id, path@));
                let item = SearchItem { path, modified_unix_secs };
                upserts.push(item);
                assert(item_views(upserts@) =~= held_items.push(item_of_node(graph, id, prefix)));
            },
            None => {},
        }
        i += 1;
    }
    (upserts, replaced)
}

/// What one look at the journal found.
pub struct JournalBatch {
    pub upserts: Vec<SearchItem>,
    pub deleted_paths: Vec<String>,
    pub changed_entries: usize,
}

impl JournalBatch {
    /// Whether the batch has anything to tell the controller.
    pub fn has_changes(&self) -> (r: bool)
        ensures
            r == (self.upserts@.len() > 0 || self.deleted_paths@.len() > 0),
    {
        self.upserts.len() > 0 || self.deleted_paths.len() > 0
    }
}

/// Whether `deleted_paths` are the paths no longer in use after a batch:
/// first, in no particular order, one path for every deleted record id that
/// was recorded with a path, then the paths that renamed or moved files
/// had before.
pub open spec fn reports_deleted(
    deleted_paths: Seq<Seq<char>>,
    deleted: Set<u64>,
    paths: Map<u64, Seq<char>>,
    replaced: Seq<Seq<char>>,
) -> bool {
    let gone = deleted.intersect(paths.dom()).len();
    &&& deleted_paths.len() == gone + replaced.len()
    &&& deleted_paths.skip(gone as int) == replaced
    &&& path_set(deleted_paths.take(gone as int)) == gone_paths(paths, deleted)
}

/// The sum of two counts, and the largest count where the sum is larger.
pub open spec fn count_sum(a: usize, b: usize) -> usize {
    if a + b > usize::MAX {
        usize::MAX
    } else {
        (a + b) as usize
    }
}

/// The paths of a map from record ids to strings.
pub open spec fn path_views(paths: Map<u64, String>) -> Map<u64, Seq<char>> {
    Map::new(|id: u64| paths.contains_key(id), |id: u64| paths[id]@)
}

/// The state of one volume: its journal, its graph, the cache of paths, and
/// for every file that was reported the path it was last reported with.
pub struct NtfsVolumeState {
    pub drive_letter: char,
    pub drive_prefix: String,
    pub journal_id: u64,
    pub next_usn: i64,
    pub nodes: HashMap<u64, NtfsNode>,
    pub path_cache: HashMap<u64, String>,
    pub id_to_path: HashMap<u64, String>,
    pub changed_since_snapshot: usize,
}

/// For every file of the graph its full path, and nothing for directories.
pub open spec fn file_paths(nodes: Map<u64, NodeView>, drive_prefix: Seq<char>) -> Map<
    u64,
    Seq<char>,
> {
    Map::new(
        |id: u64| nodes.contains_key(id) && !nodes[id].is_dir,
        |id: u64| full_path(nodes, id, drive_prefix),
    )
}

/// The item that a file of the graph is reported as.
pub open spec fn item_of_node(nodes: Map<u64, NodeView>, id: u64, drive_prefix: Seq<char>) -> ItemView {
    ItemView {
        path: full_path(nodes, id, drive_prefix),
        modified_unix_secs: nodes[id].modified_unix_secs,
    }
}

/// Whether `items` are the files of the graph in the order `files`: every
/// file once, each as the item it is reported as.
pub open spec fn lists_files(
    items: Seq<ItemView>,
    files: Seq<u64>,
    nodes: Map<u64, NodeView>,
    drive_prefix: Seq<char>,
) -> bool {
    &&& files.no_duplicates()
    &&& files.to_set() == file_paths(nodes, drive_prefix).dom()
    &&& items.len() == files.len()
    &&& forall|k: int|
        0 <= k < items.len() ==> #[trigger] items[k] == item_of_node(nodes, files[k], drive_prefix)
}

impl NtfsVolumeState {
    pub open spec fn graph(&self) -> Map<u64, NodeView> {
        node_views(self.nodes@)
    }

    /// The cached paths are the paths that the graph gives.
    pub open spec fn wf(&self) -> bool {
        cache_ok(self.path_cache@, self.graph(), self.drive_prefix@)
    }

    /// The state of a volume that has just been enumerated: every file of
    /// the graph is recorded with its path.
    pub fn new(drive_letter: char, journal_id: u64, next_usn: i64, nodes: HashMap<u64, NtfsNode>) -> (r:
        Self)
        ensures
            r.wf(),
            r.drive_letter == drive_letter,
            r.drive_prefix@ == drive_root_text(drive_letter),
            r.journal_id == journal_id,
            r.next_usn == next_usn,
            r.nodes == nodes,
            r.changed_since_snapshot == 0,
            path_views(r.id_to_path@) == file_paths(r.graph(), r.drive_prefix@),
    {
        let mut r = NtfsVolumeState {
            drive_letter,
            drive_prefix: drive_root(drive_letter),
            journal_id,
            next_usn,
            nodes,
            path_cache: HashMap::new(),
            id_to_path: HashMap::new(),
            changed_since_snapshot: 0,
        };
        r.initialize_id_path_map();
        r
    }

    /// Records every file of the graph with its path, and forgets what was
    /// recorded before.
    pub fn initialize_id_path_map(&mut self)
        requires
            old(self).wf(),
        ensures
            final(self).wf(),
            final(self).nodes == old(self).nodes,
            final(self).drive_letter == old(self).drive_letter,
            final(self).drive_prefix == old(self).drive_prefix,
            final(self).journal_id == old(self).journal_id,
            final(self).next_usn == old(self).next_usn,
            final(self).changed_since_snapshot == old(self).changed_since_snapshot,
            path_views(final(self).id_to_path@) == file_paths(
                final(self).graph(),
                final(self).drive_prefix@,
            ),
    {
        self.id_to_path.clear();
        let ids = node_ids(&self.nodes);
        let ghost graph = self.graph();
        let ghost prefix = self.drive_prefix@;
        let mut i: usize = 0;
        while i < ids.len()
            invariant
                i <= ids.len(),
                ids@.to_set() == self.nodes@.dom(),
                self.nodes == old(self).nodes,
                self.drive_letter == old(self).drive_letter,
                self.drive_prefix == old(self).drive_prefix,
                self.journal_id == old(self).journal_id,
                self.next_usn == old(self).next_usn,
                self.changed_since_snapshot == old(self).changed_since_snapshot,
                graph == self.graph(),
                prefix == self.drive_prefix@,
                self.wf(),
                forall|id: u64| #[trigger]
                    self.id_to_path@.contains_key(id) <==> (graph.contains_key(id)
                        && !graph[id].is_dir && exists|k: int| 0 <= k < i && ids[k] == id),
                forall|id: u64| #[trigger]
                    self.id_to_path@.contains_key(id) ==> self.id_to_path@[id]@ == full_path(
                        graph,
                        id,
                        prefix,
                    ),
            decreases ids.len() - i,
        {
            let id = ids[i];
            assert(ids@.to_set().contains(id));
            let is_file = match self.nodes.get(&id) {
                Some(node) => !node.is_dir,
                None => false,
            };
            if is_file {
                let path = materialize_full_path(
                    id,
                    &self.nodes,
                    &mut self.path_cache,
                    self.drive_prefix.as_str(),
                );
                self.id_to_path.insert(id, path);
            }
            proof {
                assert forall|x: u64| #[trigger]
                    self.id_to_path@.contains_key(x) <==> (graph.contains_key(x)
                        && !graph[x].is_dir && exists|k: int| 0 <= k < i + 1 && ids[k] == x) by {
                    if self.id_to_path@.contains_key(x) && x != id {
                        let k = choose|k: int| 0 <= k < i && ids[k] == x;
                        assert(0 <= k < i + 1 && ids[k] == x);
                    }
                    if graph.contains_key(x) && !graph[x].is_dir && exists|k: int|
                        0 <= k < i + 1 && ids[k] == x {
                        let k = choose|k: int| 0 <= k < i + 1 && ids[k] == x;
                        if k < i {
                            assert(0 <= k < i && ids[k] == x);
                        }
                    }
                }
            }
            i += 1;
        }
        proof {
            assert forall|x: u64|
                path_views(self.id_to_path@).contains_key(x) <==> file_paths(
                    graph,
                    prefix,
                ).contains_key(x) by {
                if graph.contains_key(x) && !graph[x].is_dir {
                    assert(ids@.to_set().contains(x));
                    let k = choose|k: int| 0 <= k < ids.len() && ids[k] == x;
                    assert(0 <= k < i && ids[k] == x);
                }
            }
            assert(path_views(self.id_to_path@) =~= file_paths(graph, prefix));
        }
    }

    /// The files of the graph as items, each file once, in no particular
    /// order.
    pub fn collect_items(&mut self) -> (r: Vec<SearchItem>)
        requires
            old(self).wf(),
        ensures
            final(self).wf(),
            final(self).nodes == old(self).nodes,
            final(self).drive_letter == old(self).drive_letter,
            final(self).drive_prefix == old(self).drive_prefix,
            final(self).journal_id == old(self).journal_id,
            final(self).next_usn == old(self).next_usn,
            final(self).id_to_path == old(self).id_to_path,
            final(self).changed_since_snapshot == old(self).changed_since_snapshot,
            exists|files: Seq<u64>|
                lists_files(item_views(r@), files, old(self).graph(), old(self).drive_prefix@),
    {
        let ids = node_ids(&self.nodes);
        let ghost graph = self.graph();
        let ghost prefix = self.drive_prefix@;
        let mut out: Vec<SearchItem> = Vec::new();
        let ghost mut files: Seq<u64> = Seq::empty();
        let mut i: usize = 0;
        while i < ids.len()
            invariant
                i <= ids.len(),
                ids@.no_duplicates(),
                ids@.to_set() == self.nodes@.dom(),
                self.nodes == old(self).nodes,
                self.drive_letter == old(self).drive_letter,
                self.drive_prefix == old(self).drive_prefix,
                self.journal_id == old(self).journal_id,
                self.next_usn == old(self).next_usn,
                self.id_to_path == old(self).id_to_path,
                self.changed_since_snapshot == old(self).changed_since_snapshot,
                graph == self.graph(),
                prefix == self.drive_prefix@,
                self.wf(),
                out.len() == files.len(),
                files.no_duplicates(),
                forall|x: u64|
                    files.contains(x) <==> (graph.contains_key(x) && !graph[x].is_dir && exists|
                        k: int,
                    | 0 <= k < i && ids[k] == x),
                forall|k: int|
                    0 <= k < out.len() ==> (#[trigger] out[k])@ == item_of_node(
                        graph,
                        files[k],
                        prefix,
                    ),
            decreases ids.len() - i,
        {
            let id = ids[i];
            assert(ids@.to_set().contains(id));
            let file_time: Option<i64> = match self.nodes.get(&id) {
                Some(node) => if node.is_dir {
                    None
                } else {
                    Some(node.modified_unix_secs)
                },
                None => None,
            };
            let ghost held = files;
            match file_time {
                Some(modified_unix_secs) => {
                    let path = materialize_full_path(
                        id,
                        &self.nodes,
                        &mut self.path_cache,
                        self.drive_prefix.as_str(),
                    );
                    out.push(SearchItem { path, modified_unix_secs });
                    proof {
                        assert(!held.contains(id)) by {
                            if held.contains(id) {
                                let k = choose|k: int| 0 <= k < i && ids[k] == id;
                                assert(ids[k] == ids[i as int]);
                            }
                        }
                        files = held.push(id);
                        assert forall|a: int, b: int|
                            0 <= a < files.len() && 0 <= b < files.len() && a != b implies files[a]
                            != files[b] by {
                            if a < held.len() && b < held.len() {
                            } else if a < held.len() {
                                assert(held.contains(held[a]));
                            } else {
                                assert(held.contains(held[b]));
                            }
                        }
                    }
                },
                None => {},
            }
            proof {
                assert forall|x: u64|
                    files.contains(x) <==> (graph.contains_key(x) && !graph[x].is_dir && exists|
                        k: int,
                    | 0 <= k < i + 1 && ids[k] == x) by {
                    if files.contains(x) {
                        let m = choose|m: int| 0 <= m < files.len() && files[m] == x;
                        if m < held.len() {
                            assert(held.contains(x));
                            let k = choose|k: int| 0 <= k < i && ids[k] == x;
                            assert(0 <= k < i + 1 && ids[k] == x);
                        } else {
                            assert(ids[i as int] == x);
                        }
                    }
                    if graph.contains_key(x) && !graph[x].is_dir && exists|k: int|
                        0 <= k < i + 1 && ids[k] == x {
                        let k = choose|k: int| 0 <= k < i + 1 && ids[k] == x;
                        if k < i {
                            assert(held.contains(x));
                            let m = choose|m: int| 0 <= m < held.len() && held[m] == x;
                            assert(files[m] == x);
                        } else {
                            assert(files[files.len() - 1] == x);
                        }
                    }
                }
            }
            i += 1;
        }
        proof {
            assert forall|x: u64|
                files.to_set().contains(x) <==> file_paths(graph, prefix).dom().contains(x) by {
                if graph.contains_key(x) && !graph[x].is_dir {
                    assert(ids@.to_set().contains(x));
                    let k = choose|k: int| 0 <= k < ids.len() && ids[k] == x;
                    assert(0 <= k < i && ids[k] == x);
                }
            }
            assert(files.to_set() =~= file_paths(graph, prefix).dom());
            assert(lists_files(item_views(out@), files, graph, prefix));
        }
        out
    }

    /// Takes in what one look at the journal found: `next_usn` from the head
    /// of the buffer and the records behind it. The journal position moves
    /// on to `next_usn` and never back. The records change the graph; the
    /// paths of the deleted record ids leave the record of reported paths;
    /// the changed files are reported with their paths. The cache of paths
    /// is emptied if anything changed or was deleted.
    pub fn apply_journal_records(&mut self, next_usn: i64, records: &Vec<UsnRecord>) -> (batch:
        JournalBatch)
        requires
            old(self).wf(),
        ensures
            final(self).wf(),
            final(self).drive_letter == old(self).drive_letter,
            final(self).drive_prefix == old(self).drive_prefix,
            final(self).journal_id == old(self).journal_id,
            final(self).changed_since_snapshot == old(self).changed_since_snapshot,
            final(self).next_usn == if next_usn > old(self).next_usn {
                next_usn
            } else {
                old(self).next_usn
            },
            ({
                let fold = journal_fold(
                    old(self).graph(),
                    record_views(records@),
                    records.len() as nat,
                );
                let paths = path_views(old(self).id_to_path@);
                let report = report_fold(
                    fold.nodes,
                    old(self).drive_prefix@,
                    paths.remove_keys(fold.deleted),
                    fold.changed,
                    fold.changed.len(),
                );
                &&& final(self).graph() == fold.nodes
                &&& path_views(final(self).id_to_path@) == report.paths
                &&& item_views(batch.upserts@) == report.upserts
                &&& reports_deleted(
                    string_views(batch.deleted_paths@),
                    fold.deleted,
                    paths,
                    report.replaced,
                )
                &&& batch.changed_entries == count_sum(
                    batch.upserts.len(),
                    batch.deleted_paths.len(),
                )
            }),
    {
        if next_usn > self.next_usn {
            self.next_usn = next_usn;
        }
        let ghost paths = path_views(self.id_to_path@);
        let ghost domain = self.id_to_path@.dom();
        let (changed, deleted_ids) = apply_records(&mut self.nodes, records);
        if changed.len() > 0 || deleted_ids.len() > 0 {
            self.path_cache.clear();
        }
        let mut deleted_paths = take_deleted_paths(&mut self.id_to_path, &deleted_ids);
        let ghost taken = string_views(deleted_paths@);
        let (upserts, mut replaced) = report_changed(
            &self.nodes,
            &mut self.path_cache,
            self.drive_prefix.as_str(),
            &mut self.id_to_path,
            &changed,
        );
        let ghost later = string_views(replaced@);
        deleted_paths.append(&mut replaced);
        proof {
            assert(string_views(deleted_paths@) =~= taken + later);
            assert(string_views(deleted_paths@).skip(taken.len() as int) =~= later);
            assert(string_views(deleted_paths@).take(taken.len() as int) =~= taken);
            assert(paths.dom() =~= domain);
        }
        let changed_entries = if upserts.len() > usize::MAX - deleted_paths.len() {
            usize::MAX
        } else {
            upserts.len() + deleted_paths.len()
        };
        JournalBatch { upserts, deleted_paths, changed_entries }
    }

    /// Counts the changes of a batch as not yet saved.
    pub fn note_changes(&mut self, changed_entries: usize)
        ensures
            final(self).changed_since_snapshot == count_sum(
                old(self).changed_since_snapshot,
                changed_entries,
            ),
            final(self).drive_letter == old(self).drive_letter,
            final(self).drive_prefix == old(self).drive_prefix,
            final(self).journal_id == old(self).journal_id,
            final(self).next_usn == old(self).next_usn,
            final(self).nodes == old(self).nodes,
            final(self).path_cache == old(self).path_cache,
            final(self).id_to_path == old(self).id_to_path,
    {
        self.changed_since_snapshot = if self.changed_since_snapshot > usize::MAX
            - changed_entries {
            usize::MAX
        } else {
            self.changed_since_snapshot + changed_entries
        };
    }

    /// Notes that a snapshot was written: no change is left unsaved.
    pub fn note_snapshot_written(&mut self)
        ensures
            final(self).changed_since_snapshot == 0,
            final(self).drive_letter == old(self).drive_letter,
            final(self).drive_prefix == old(self).drive_prefix,
            final(self).journal_id == old(self).journal_id,
            final(self).next_usn == old(self).next_usn,
            final(self).nodes == old(self).nodes,
            final(self).path_cache == old(self).path_cache,
            final(self).id_to_path == old(self).id_to_path,
    {
        self.changed_since_snapshot = 0;
    }

    /// Whether a snapshot is due: there are unsaved changes, and either
    /// there are 4000 of them or the last snapshot is 12 seconds old.
    pub fn snapshot_due(&self, elapsed_secs: u64) -> (r: bool)
        ensures
            r == (self.changed_since_snapshot > 0 && (self.changed_since_snapshot
                >= SNAPSHOT_CHANGE_THRESHOLD || elapsed_secs >= SNAPSHOT_INTERVAL_SECS)),
    {
        self.changed_since_snapshot > 0 && (self.changed_since_snapshot >= SNAPSHOT_CHANGE_THRESHOLD
            || elapsed_secs >= SNAPSHOT_INTERVAL_SECS)
    }
}

} // verus!
