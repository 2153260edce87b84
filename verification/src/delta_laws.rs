//! What holds of a corpus after a delta.

use vstd::prelude::*;
use crate::corpus::{
    added_count, after_delta, deleted_present, delta_counts, first_from, has_path,
    lemma_added_count_bound, lemma_first_from_split, path_set, position_of, upserted,
    upserted_all, without_paths,
};
use crate::item::{paths_of, ItemView};

verus! {

/// No two items have the same path.
pub open spec fn distinct_paths(items: Seq<ItemView>) -> bool {
    forall|i: int, k: int|
        0 <= i < items.len() && 0 <= k < items.len() && i != k ==> (#[trigger] items[i]).path != (
        #[trigger] items[k]).path
}

/// A path is the path of some item exactly when the list has the path.
pub proof fn lemma_has_path(items: Seq<ItemView>, path: Seq<char>)
    ensures
        has_path(items, path) <==> exists|i: int|
            0 <= i < items.len() && (#[trigger] items[i]).path == path,
        has_path(items, path) ==> 0 <= position_of(items, path) < items.len() && items[position_of(
            items,
            path,
        )].path == path,
{
    lemma_position(items, path, 0);
}

proof fn lemma_position(items: Seq<ItemView>, path: Seq<char>, from: int)
    requires
        0 <= from <= items.len(),
    ensures
        from <= first_from(items, path, from) <= items.len(),
        first_from(items, path, from) < items.len() ==> items[first_from(items, path, from)].path
            == path,
        forall|i: int| from <= i < first_from(items, path, from) ==> (#[trigger] items[i]).path != path,
    decreases items.len() - from,
{
    if from < items.len() && items[from].path != path {
        lemma_position(items, path, from + 1);
    }
}

/// What is left after the deleted paths are taken out: the items whose path
/// is not deleted, and none else.
pub proof fn lemma_without_paths(
    items: Seq<ItemView>,
    deleted: Set<Seq<char>>,
    n: nat,
    path: Seq<char>,
)
    requires
        n <= items.len(),
    ensures
        has_path(without_paths(items, deleted, n), path) <==> (!deleted.contains(path) && exists|
            i: int,
        | 0 <= i < n && (#[trigger] items[i]).path == path),
    decreases n,
{
    let now = without_paths(items, deleted, n);
    lemma_has_path(now, path);
    if n > 0 {
        let before = without_paths(items, deleted, (n - 1) as nat);
        lemma_without_paths(items, deleted, (n - 1) as nat, path);
        lemma_has_path(before, path);
        let last = items[n - 1];
        if has_path(now, path) {
            let i = choose|i: int| 0 <= i < now.len() && (#[trigger] now[i]).path == path;
            if deleted.contains(last.path) {
            } else if i < before.len() {
                assert(before[i].path == path);
            } else {
                assert(last.path == path);
            }
        }
        if !deleted.contains(path) && exists|i: int|
            0 <= i < n && (#[trigger] items[i]).path == path {
            let i = choose|i: int| 0 <= i < n && (#[trigger] items[i]).path == path;
            if i < n - 1 {
                let k = choose|k: int| 0 <= k < before.len() && (#[trigger] before[k]).path == path;
                if !deleted.contains(last.path) {
                    assert(now[k].path == path);
                }
            } else {
                assert(now[now.len() - 1].path == path);
            }
        }
    }
}

/// Taking paths out keeps the paths of a list distinct.
pub proof fn lemma_without_paths_distinct(items: Seq<ItemView>, deleted: Set<Seq<char>>, n: nat)
    requires
        n <= items.len(),
        distinct_paths(items),
    ensures
        distinct_paths(without_paths(items, deleted, n)),
    decreases n,
{
    if n > 0 {
        let before = without_paths(items, deleted, (n - 1) as nat);
        lemma_without_paths_distinct(items, deleted, (n - 1) as nat);
        let last = items[n - 1];
        if !deleted.contains(last.path) {
            lemma_without_paths(items, deleted, (n - 1) as nat, last.path);
            lemma_has_path(before, last.path);
            let now = before.push(last);
            assert forall|i: int, k: int|
                0 <= i < now.len() && 0 <= k < now.len() && i != k implies (#[trigger] now[i]).path
                != (#[trigger] now[k]).path by {
                if i < before.len() && k < before.len() {
                    assert(before[i].path != before[k].path);
                } else if i < before.len() {
                    assert(before[i].path != last.path);
                } else {
                    assert(before[k].path != last.path);
                }
            }
        }
    }
}

/// After one item is put in, the list has the item's path and the paths it
/// had before, and no other.
pub proof fn lemma_upserted(items: Seq<ItemView>, item: ItemView, path: Seq<char>)
    ensures
        has_path(upserted(items, item), path) <==> (has_path(items, path) || item.path == path),
        upserted(items, item)[position_of(upserted(items, item), item.path)] == item,
        distinct_paths(items) ==> distinct_paths(upserted(items, item)),
        path != item.path && has_path(items, path) ==> upserted(items, item)[position_of(
            upserted(items, item),
            path,
        )] == items[position_of(items, path)],
{
    let now = upserted(items, item);
    lemma_has_path(items, path);
    lemma_has_path(now, path);
    lemma_has_path(items, item.path);
    lemma_has_path(now, item.path);
    lemma_position(items, item.path, 0);
    lemma_position(now, item.path, 0);
    lemma_position(items, path, 0);
    lemma_position(now, path, 0);
    let p = position_of(items, item.path);
    if has_path(items, item.path) {
        assert(now[p] == item);
        if has_path(now, path) {
            let i = choose|i: int| 0 <= i < now.len() && (#[trigger] now[i]).path == path;
            if i != p {
                assert(items[i].path == path);
            }
        }
        if has_path(items, path) {
            let i = choose|i: int| 0 <= i < items.len() && (#[trigger] items[i]).path == path;
            if i != p {
                assert(now[i].path == path);
            } else {
                assert(now[p].path == path);
            }
        }
        assert forall|i: int| 0 <= i < now.len() implies ((#[trigger] now[i]).path == item.path <==> items[i].path == item.path) by {}
        let q = position_of(now, item.path);
        if q < p {
            assert(items[q].path == item.path);
        }
        if p < q {
        }
        assert(q == p);
        if distinct_paths(items) {
            assert forall|i: int, k: int|
                0 <= i < now.len() && 0 <= k < now.len() && i != k implies (#[trigger] now[i]).path
                != (#[trigger] now[k]).path by {
                assert(items[i].path != items[k].path);
            }
        }
        if path != item.path && has_path(items, path) {
            let a = position_of(items, path);
            let b = position_of(now, path);
            assert(now[a].path == path);
            if b < a {
                assert(items[b].path == path);
            }
            assert(a == b);
        }
    } else {
        assert(now[items.len() as int] == item);
        if has_path(now, path) {
            let i = choose|i: int| 0 <= i < now.len() && (#[trigger] now[i]).path == path;
            if i < items.len() {
                assert(items[i].path == path);
            }
        }
        if has_path(items, path) {
            let i = choose|i: int| 0 <= i < items.len() && (#[trigger] items[i]).path == path;
            assert(now[i].path == path);
        }
        let q = position_of(now, item.path);
        if q < items.len() {
            assert(items[q].path == item.path);
        }
        if distinct_paths(items) {
            assert forall|i: int, k: int|
                0 <= i < now.len() && 0 <= k < now.len() && i != k implies (#[trigger] now[i]).path
                != (#[trigger] now[k]).path by {
                if i < items.len() && k < items.len() {
                    assert(items[i].path != items[k].path);
                } else if i < items.len() {
                    assert(items[i].path != item.path);
                } else {
                    assert(items[k].path != item.path);
                }
            }
        }
        if path != item.path && has_path(items, path) {
            let a = position_of(items, path);
            let b = position_of(now, path);
            assert(now[a].path == path);
            if b < a {
                assert(items[b].path == path);
            }
            assert(a == b);
        }
    }
}

/// After the first `n` upserts are put in, the list has their paths and
/// the paths it had before, and no other, and distinct paths stay distinct.
pub proof fn lemma_upserted_all(
    items: Seq<ItemView>,
    upserts: Seq<ItemView>,
    n: nat,
    path: Seq<char>,
)
    requires
        n <= upserts.len(),
    ensures
        has_path(upserted_all(items, upserts, n), path) <==> (has_path(items, path) || exists|
            j: int,
        | 0 <= j < n && (#[trigger] upserts[j]).path == path),
        distinct_paths(items) ==> distinct_paths(upserted_all(items, upserts, n)),
    decreases n,
{
    if n > 0 {
        let before = upserted_all(items, upserts, (n - 1) as nat);
        lemma_upserted_all(items, upserts, (n - 1) as nat, path);
        lemma_upserted(before, upserts[n - 1], path);
        if has_path(upserted_all(items, upserts, n), path) && !has_path(items, path) {
            if upserts[n - 1].path == path {
            } else {
                let j = choose|j: int| 0 <= j < n - 1 && (#[trigger] upserts[j]).path == path;
                assert(0 <= j < n && upserts[j].path == path);
            }
        }
        if exists|j: int| 0 <= j < n && (#[trigger] upserts[j]).path == path {
            let j = choose|j: int| 0 <= j < n && (#[trigger] upserts[j]).path == path;
            if j < n - 1 {
                assert(0 <= j < n - 1 && upserts[j].path == path);
            }
        }
    }
}

/// After the first `n` upserts with distinct paths are put in, each of
/// them stands in the list as it was given.
pub proof fn lemma_upserted_all_holds(
    items: Seq<ItemView>,
    upserts: Seq<ItemView>,
    n: nat,
    j: int,
)
    requires
        n <= upserts.len(),
        0 <= j < n,
        distinct_paths(upserts),
    ensures
        has_path(upserted_all(items, upserts, n), upserts[j].path),
        upserted_all(items, upserts, n)[position_of(
            upserted_all(items, upserts, n),
            upserts[j].path,
        )] == upserts[j],
    decreases n,
{
    let before = upserted_all(items, upserts, (n - 1) as nat);
    lemma_upserted(before, upserts[n - 1], upserts[j].path);
    if j < n - 1 {
        lemma_upserted_all_holds(items, upserts, (n - 1) as nat, j);
        assert(upserts[j].path != upserts[n - 1].path);
    }
}

/// How many of the first `n` upserts have a path that the list lacks.
pub open spec fn absent_count(items: Seq<ItemView>, upserts: Seq<ItemView>, n: nat) -> nat
    decreases n,
{
    if n == 0 || n > upserts.len() {
        0
    } else {
        absent_count(items, upserts, (n - 1) as nat) + if has_path(items, upserts[n - 1].path) {
            0nat
        } else {
            1nat
        }
    }
}

/// Of upserts with distinct paths, those are added whose path the list
/// lacked, and the others replace an item.
pub proof fn lemma_added_are_absent(items: Seq<ItemView>, upserts: Seq<ItemView>, n: nat)
    requires
        n <= upserts.len(),
        distinct_paths(upserts),
    ensures
        added_count(items, upserts, n) == absent_count(items, upserts, n),
    decreases n,
{
    if n > 0 {
        lemma_added_are_absent(items, upserts, (n - 1) as nat);
        let path = upserts[n - 1].path;
        lemma_upserted_all(items, upserts, (n - 1) as nat, path);
        if exists|j: int| 0 <= j < n - 1 && (#[trigger] upserts[j]).path == path {
            let j = choose|j: int| 0 <= j < n - 1 && (#[trigger] upserts[j]).path == path;
            assert(upserts[j].path != upserts[n - 1].path);
        }
    }
}

/// The deleted paths that occur among the first `n` items.
pub open spec fn deleted_found(items: Seq<ItemView>, deleted: Set<Seq<char>>, n: nat) -> Set<
    Seq<char>,
> {
    Set::new(|p: Seq<char>| deleted.contains(p) && position_of(items, p) < n)
}

/// The count of deleted paths is the size of the set of deleted paths that
/// the list holds.
pub proof fn lemma_deleted_present(items: Seq<ItemView>, deleted: Set<Seq<char>>, n: nat)
    requires
        n <= items.len(),
        deleted.finite(),
    ensures
        deleted_found(items, deleted, n).finite(),
        deleted_present(items, deleted, n) == deleted_found(items, deleted, n).len(),
    decreases n,
{
    let now = deleted_found(items, deleted, n);
    if n == 0 {
        assert forall|p: Seq<char>| !now.contains(p) by {
            lemma_position(items, p, 0);
        }
        assert(now =~= Set::<Seq<char>>::empty());
    } else {
        let before = deleted_found(items, deleted, (n - 1) as nat);
        lemma_deleted_present(items, deleted, (n - 1) as nat);
        let path = items[n - 1].path;
        assert forall|p: Seq<char>| now.contains(p) <==> (before.contains(p) || (p == path
            && deleted.contains(p) && position_of(items, p) <= n - 1)) by {
            lemma_first_from_split(items, p, n - 1);
        }
        lemma_first_from_split(items, path, n - 1);
        if deleted.contains(path) && position_of(items, path) == n - 1 {
            assert(!before.contains(path));
            assert(now =~= before.insert(path));
        } else {
            assert(now =~= before);
        }
    }
}

/// After a delta the corpus holds none of the deleted paths, but for those
/// that an upsert brought back.
pub proof fn lemma_delta_deletes(
    items: Seq<ItemView>,
    upserts: Seq<ItemView>,
    deleted: Seq<Seq<char>>,
    path: Seq<char>,
)
    requires
        deleted.contains(path),
        !paths_of(upserts).contains(path),
    ensures
        !has_path(after_delta(items, upserts, deleted), path),
{
    let base = without_paths(items, path_set(deleted), items.len());
    lemma_without_paths(items, path_set(deleted), items.len(), path);
    lemma_upserted_all(base, upserts, upserts.len(), path);
    if exists|j: int| 0 <= j < upserts.len() && (#[trigger] upserts[j]).path == path {
        let j = choose|j: int| 0 <= j < upserts.len() && (#[trigger] upserts[j]).path == path;
        assert(paths_of(upserts)[j] == path);
    }
}

/// After a delta on a corpus with distinct paths, the paths are distinct
/// still, so that every path occurs once, and each upsert, where the upserts
/// have distinct paths, stands in the corpus as it was given.
pub proof fn lemma_delta_upserts(
    items: Seq<ItemView>,
    upserts: Seq<ItemView>,
    deleted: Seq<Seq<char>>,
    j: int,
)
    requires
        distinct_paths(items),
        distinct_paths(upserts),
        0 <= j < upserts.len(),
    ensures
        distinct_paths(after_delta(items, upserts, deleted)),
        has_path(after_delta(items, upserts, deleted), upserts[j].path),
        after_delta(items, upserts, deleted)[position_of(
            after_delta(items, upserts, deleted),
            upserts[j].path,
        )] == upserts[j],
{
    let base = without_paths(items, path_set(deleted), items.len());
    lemma_without_paths_distinct(items, path_set(deleted), items.len());
    lemma_upserted_all(base, upserts, upserts.len(), upserts[j].path);
    lemma_upserted_all_holds(base, upserts, upserts.len(), j);
}

/// The counts of a delta. The added and the updated upserts are all the
/// upserts. Where the upserts have distinct paths, those are added whose
/// path the corpus lacked once the deleted paths were taken out. Where the
/// deleted paths are distinct and the corpus held them all, their count is
/// their number.
pub proof fn lemma_delta_counts(
    items: Seq<ItemView>,
    upserts: Seq<ItemView>,
    deleted: Seq<Seq<char>>,
)
    ensures
        delta_counts(items, upserts, deleted).0 + delta_counts(items, upserts, deleted).1
            == upserts.len(),
        distinct_paths(upserts) ==> delta_counts(items, upserts, deleted).0 == absent_count(
            without_paths(items, path_set(deleted), items.len()),
            upserts,
            upserts.len(),
        ),
        delta_counts(items, upserts, deleted).2 == deleted_found(
            items,
            path_set(deleted),
            items.len(),
        ).len(),
        deleted.no_duplicates() && (forall|k: int|
            0 <= k < deleted.len() ==> has_path(items, #[trigger] deleted[k])) ==> delta_counts(
            items,
            upserts,
            deleted,
        ).2 == deleted.len(),
{
    let set = path_set(deleted);
    let base = without_paths(items, set, items.len());
    lemma_added_count_bound(base, upserts, upserts.len());
    if distinct_paths(upserts) {
        lemma_added_are_absent(base, upserts, upserts.len());
    }
    assert(set =~= deleted.to_set());
    vstd::seq_lib::seq_to_set_is_finite(deleted);
    lemma_deleted_present(items, set, items.len());
    if deleted.no_duplicates() && (forall|k: int|
        0 <= k < deleted.len() ==> has_path(items, #[trigger] deleted[k])) {
        let found = deleted_found(items, set, items.len());
        assert forall|p: Seq<char>| set.contains(p) implies found.contains(p) by {
            let k = choose|k: int| 0 <= k < deleted.len() && deleted[k] == p;
            assert(has_path(items, deleted[k]));
        }
        assert(found =~= set);
        deleted.unique_seq_to_set();
    }
}

} // verus!
