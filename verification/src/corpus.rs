//! The corpus: the list of indexed files, with a filename index that is
//! rebuilt in batches whenever the list has changed.

use vstd::hash_map::StringHashMap;
use vstd::prelude::*;
use crate::item::{item_views, ItemView, SearchItem};
use crate::scope::string_views;
use crate::matching::{contains_chars, contains_ci, file_name, name_start_of};
use crate::name_index::{with_position, NameIndex};
use crate::text::{chars_eq, lower, lower_chars, slice_chars, string_of, to_chars};

verus! {

/// The largest number of results shown.
pub const VISIBLE_RESULTS_LIMIT: usize = 600;

/// The number of items that one step of the index build takes in.
pub const FILENAME_INDEX_BUILD_BATCH: usize = 1000;

/// The lower-cased file name of a path: the key of the exact index.
pub open spec fn lower_name(path: Seq<char>) -> Seq<char> {
    lower(file_name(path))
}

/// The exact index of the first `n` items: under each lower-cased file name
/// the positions of the items that bear it, in ascending order.
pub open spec fn exact_index_of(items: Seq<ItemView>, n: nat) -> Map<Seq<char>, Seq<usize>>
    decreases n,
{
    if n == 0 || n > items.len() {
        Map::empty()
    } else {
        with_position(
            exact_index_of(items, (n - 1) as nat),
            lower_name(items[n - 1].path),
            (n - 1) as usize,
        )
    }
}

/// A map with `position` recorded under the first `k` prefixes of `name`.
pub open spec fn with_prefixes(
    m: Map<Seq<char>, Seq<usize>>,
    name: Seq<char>,
    position: usize,
    k: nat,
) -> Map<Seq<char>, Seq<usize>>
    decreases k,
{
    if k == 0 {
        m
    } else {
        with_position(with_prefixes(m, name, position, (k - 1) as nat), name.take(k as int), position)
    }
}

/// The number of prefixes under which a name is recorded: one for each of
/// its first three characters.
pub open spec fn prefix_count(name: Seq<char>) -> nat {
    if name.len() < 3 {
        name.len()
    } else {
        3
    }
}

/// The prefix index of the first `n` items: under each beginning of one to
/// three characters the positions of the items whose lower-cased file name
/// begins so, in ascending order.
pub open spec fn prefix_index_of(items: Seq<ItemView>, n: nat) -> Map<Seq<char>, Seq<usize>>
    decreases n,
{
    if n == 0 || n > items.len() {
        Map::empty()
    } else {
        with_prefixes(
            prefix_index_of(items, (n - 1) as nat),
            lower_name(items[n - 1].path),
            (n - 1) as usize,
            prefix_count(lower_name(items[n - 1].path)),
        )
    }
}

/// Every position in the exact index of the first `n` items is below `n`,
/// and the item there bears the name it is listed under.
pub proof fn lemma_exact_index_sound(items: Seq<ItemView>, n: nat, key: Seq<char>, j: int)
    requires
        items.len() <= usize::MAX,
        n <= items.len(),
        exact_index_of(items, n).contains_key(key),
        0 <= j < exact_index_of(items, n)[key].len(),
    ensures
        exact_index_of(items, n)[key][j] < n,
        lower_name(items[exact_index_of(items, n)[key][j] as int].path) == key,
    decreases n,
{
    if n > 0 {
        let before = exact_index_of(items, (n - 1) as nat);
        let name = lower_name(items[n - 1].path);
        if key == name {
            if before.contains_key(key) && j < before[key].len() {
                lemma_exact_index_sound(items, (n - 1) as nat, key, j);
            }
        } else {
            lemma_exact_index_sound(items, (n - 1) as nat, key, j);
        }
    }
}

/// Every item among the first `n` is listed in the exact index under its
/// lower-cased file name.
pub proof fn lemma_exact_index_complete(items: Seq<ItemView>, n: nat, i: int)
    requires
        items.len() <= usize::MAX,
        n <= items.len(),
        0 <= i < n,
    ensures
        exact_index_of(items, n).contains_key(lower_name(items[i].path)),
        exact_index_of(items, n)[lower_name(items[i].path)].contains(i as usize),
    decreases n,
{
    let key = lower_name(items[i].path);
    let before = exact_index_of(items, (n - 1) as nat);
    let name = lower_name(items[n - 1].path);
    if i < n - 1 {
        lemma_exact_index_complete(items, (n - 1) as nat, i);
        let k = choose|k: int| 0 <= k < before[key].len() && before[key][k] == i as usize;
        if key == name {
            assert(before[key].push((n - 1) as usize)[k] == i as usize);
        }
    } else {
        let list = exact_index_of(items, n)[key];
        assert(list[list.len() - 1] == i as usize);
    }
}

/// What recording a position under prefixes of a name leaves in the map:
/// the old lists, with the position appended under the prefixes.
proof fn lemma_with_prefixes(
    m: Map<Seq<char>, Seq<usize>>,
    name: Seq<char>,
    position: usize,
    k: nat,
    key: Seq<char>,
)
    requires
        k <= name.len(),
        with_prefixes(m, name, position, k).contains_key(key),
    ensures
        ({
            let after = with_prefixes(m, name, position, k);
            let is_prefix = 1 <= key.len() <= k && key == name.take(key.len() as int);
            &&& !is_prefix ==> m.contains_key(key) && after[key] == m[key]
            &&& is_prefix && m.contains_key(key) ==> after[key] == m[key].push(position)
            &&& is_prefix && !m.contains_key(key) ==> after[key] == seq![position]
        }),
    decreases k,
{
    if k > 0 {
        let before = with_prefixes(m, name, position, (k - 1) as nat);
        let p = name.take(k as int);
        assert(p.len() == k);
        if key == p {
            if before.contains_key(key) {
                lemma_with_prefixes(m, name, position, (k - 1) as nat, key);
            } else {
                if m.contains_key(key) {
                    lemma_with_prefixes_keeps(m, name, position, (k - 1) as nat, key);
                }
            }
        } else {
            lemma_with_prefixes(m, name, position, (k - 1) as nat, key);
        }
    }
}

proof fn lemma_with_prefixes_keeps(
    m: Map<Seq<char>, Seq<usize>>,
    name: Seq<char>,
    position: usize,
    k: nat,
    key: Seq<char>,
)
    requires
        m.contains_key(key),
    ensures
        with_prefixes(m, name, position, k).contains_key(key),
    decreases k,
{
    if k > 0 {
        lemma_with_prefixes_keeps(m, name, position, (k - 1) as nat, key);
    }
}

/// Every position in the prefix index of the first `n` items is below `n`,
/// and the lower-cased file name of the item there begins with the key it
/// is listed under, which has one to three characters.
pub proof fn lemma_prefix_index_sound(items: Seq<ItemView>, n: nat, key: Seq<char>, j: int)
    requires
        items.len() <= usize::MAX,
        n <= items.len(),
        prefix_index_of(items, n).contains_key(key),
        0 <= j < prefix_index_of(items, n)[key].len(),
    ensures
        prefix_index_of(items, n)[key][j] < n,
        1 <= key.len() <= 3,
        key.len() <= lower_name(items[prefix_index_of(items, n)[key][j] as int].path).len(),
        lower_name(items[prefix_index_of(items, n)[key][j] as int].path).take(key.len() as int)
            == key,
    decreases n,
{
    if n > 0 {
        let before = prefix_index_of(items, (n - 1) as nat);
        let name = lower_name(items[n - 1].path);
        lemma_with_prefixes(before, name, (n - 1) as usize, prefix_count(name), key);
        let is_prefix = 1 <= key.len() <= prefix_count(name) && key == name.take(key.len() as int);
        if before.contains_key(key) && j < before[key].len() {
            lemma_prefix_index_sound(items, (n - 1) as nat, key, j);
        }
    }
}

/// The positions under a name in the exact index ascend, so that no item is
/// listed twice under its name.
pub proof fn lemma_exact_index_once(items: Seq<ItemView>, n: nat, key: Seq<char>, j: int, k: int)
    requires
        items.len() <= usize::MAX,
        n <= items.len(),
        exact_index_of(items, n).contains_key(key),
        0 <= j < k < exact_index_of(items, n)[key].len(),
    ensures
        exact_index_of(items, n)[key][j] < exact_index_of(items, n)[key][k],
    decreases n,
{
    if n > 0 {
        let before = exact_index_of(items, (n - 1) as nat);
        let name = lower_name(items[n - 1].path);
        if key == name {
            if before.contains_key(key) {
                if k < before[key].len() {
                    lemma_exact_index_once(items, (n - 1) as nat, key, j, k);
                } else {
                    lemma_exact_index_sound(items, (n - 1) as nat, key, j);
                }
            }
        } else {
            lemma_exact_index_once(items, (n - 1) as nat, key, j, k);
        }
    }
}

/// An item is listed in the exact index under its own lower-cased file
/// name only, and there at one place only.
pub proof fn lemma_exact_index_lists_once(
    items: Seq<ItemView>,
    n: nat,
    key: Seq<char>,
    j: int,
    other: Seq<char>,
    k: int,
)
    requires
        items.len() <= usize::MAX,
        n <= items.len(),
        exact_index_of(items, n).contains_key(key),
        exact_index_of(items, n).contains_key(other),
        0 <= j < exact_index_of(items, n)[key].len(),
        0 <= k < exact_index_of(items, n)[other].len(),
        exact_index_of(items, n)[key][j] == exact_index_of(items, n)[other][k],
    ensures
        key == other,
        j == k,
{
    lemma_exact_index_sound(items, n, key, j);
    lemma_exact_index_sound(items, n, other, k);
    if j < k {
        lemma_exact_index_once(items, n, key, j, k);
    } else if k < j {
        lemma_exact_index_once(items, n, key, k, j);
    }
}

/// Recording a position under the first `k` prefixes of a name makes each
/// of these prefixes a key.
proof fn lemma_with_prefixes_has(
    m: Map<Seq<char>, Seq<usize>>,
    name: Seq<char>,
    position: usize,
    k: nat,
    len: int,
)
    requires
        1 <= len <= k,
    ensures
        with_prefixes(m, name, position, k).contains_key(name.take(len)),
    decreases k,
{
    if len < k {
        lemma_with_prefixes_has(m, name, position, (k - 1) as nat, len);
    }
}

/// Every item among the first `n` is listed in the prefix index under each
/// of the beginnings of one to three characters of its lower-cased file
/// name.
pub proof fn lemma_prefix_index_complete(items: Seq<ItemView>, n: nat, i: int, len: int)
    requires
        items.len() <= usize::MAX,
        n <= items.len(),
        0 <= i < n,
        1 <= len <= prefix_count(lower_name(items[i].path)),
    ensures
        prefix_index_of(items, n).contains_key(lower_name(items[i].path).take(len)),
        prefix_index_of(items, n)[lower_name(items[i].path).take(len)].contains(i as usize),
    decreases n,
{
    let key = lower_name(items[i].path).take(len);
    let before = prefix_index_of(items, (n - 1) as nat);
    let name = lower_name(items[n - 1].path);
    let after = prefix_index_of(items, n);
    if i < n - 1 {
        lemma_prefix_index_complete(items, (n - 1) as nat, i, len);
        lemma_with_prefixes_keeps(before, name, (n - 1) as usize, prefix_count(name), key);
        lemma_with_prefixes(before, name, (n - 1) as usize, prefix_count(name), key);
        let at = choose|at: int| 0 <= at < before[key].len() && before[key][at] == i as usize;
        assert(after[key][at] == i as usize);
    } else {
        lemma_with_prefixes_has(before, name, (n - 1) as usize, prefix_count(name), len);
        lemma_with_prefixes(before, name, (n - 1) as usize, prefix_count(name), key);
        assert(key.len() == len);
        assert(after[key][after[key].len() - 1] == i as usize);
    }
}

/// The positions under a key in the prefix index ascend, so that no item is
/// listed twice under one of its prefixes.
pub proof fn lemma_prefix_index_once(items: Seq<ItemView>, n: nat, key: Seq<char>, j: int, k: int)
    requires
        items.len() <= usize::MAX,
        n <= items.len(),
        prefix_index_of(items, n).contains_key(key),
        0 <= j < k < prefix_index_of(items, n)[key].len(),
    ensures
        prefix_index_of(items, n)[key][j] < prefix_index_of(items, n)[key][k],
    decreases n,
{
    if n > 0 {
        let before = prefix_index_of(items, (n - 1) as nat);
        let name = lower_name(items[n - 1].path);
        lemma_with_prefixes(before, name, (n - 1) as usize, prefix_count(name), key);
        if before.contains_key(key) {
            if k < before[key].len() {
                lemma_prefix_index_once(items, (n - 1) as nat, key, j, k);
            } else {
                lemma_prefix_index_sound(items, (n - 1) as nat, key, j);
            }
        }
    }
}

/// Whether a query can be answered from the filename index: it is not
/// empty and holds none of `*`, `?`, `\`, `/` and `:`.
pub open spec fn is_fast_query(q: Seq<char>) -> bool {
    q.len() > 0 && !q.contains('*') && !q.contains('?') && !q.contains('\\') && !q.contains('/')
        && !q.contains(':')
}

/// A query that holds `:` or `\` cannot be answered from the filename
/// index: such a search goes to the worker.
pub proof fn lemma_separator_forces_slow_path(q: Seq<char>)
    requires
        q.contains(':') || q.contains('\\'),
    ensures
        !is_fast_query(q),
{
}

/// The key under which the prefix index is asked: the first three
/// characters of the query, or all of it where it is shorter.
pub open spec fn prefix_key(q: Seq<char>) -> Seq<char> {
    q.take(prefix_count(q) as int)
}

/// The list under a key, empty where the key is missing.
pub open spec fn list_or_empty(m: Map<Seq<char>, Seq<usize>>, key: Seq<char>) -> Seq<usize> {
    if m.contains_key(key) {
        m[key]
    } else {
        Seq::empty()
    }
}

/// Among the first `n` candidates, the positions of the items whose file
/// name contains the query without being the query.
pub open spec fn prefix_hits(
    items: Seq<ItemView>,
    candidates: Seq<usize>,
    q: Seq<char>,
    n: nat,
) -> Seq<usize>
    decreases n,
{
    if n == 0 || n > candidates.len() {
        Seq::empty()
    } else {
        let before = prefix_hits(items, candidates, q, (n - 1) as nat);
        let position = candidates[n - 1];
        if position < items.len() && lower_name(items[position as int].path) != q && contains_ci(
            file_name(items[position as int].path),
            q,
        ) {
            before.push(position)
        } else {
            before
        }
    }
}

/// The positions that the filename index gives for a query: first the items
/// whose lower-cased file name is the query, then, of the items whose name
/// begins like the query, those whose name contains it.
pub open spec fn fast_hits(
    items: Seq<ItemView>,
    exact: Map<Seq<char>, Seq<usize>>,
    prefix: Map<Seq<char>, Seq<usize>>,
    q: Seq<char>,
) -> Seq<usize> {
    let candidates = list_or_empty(prefix, prefix_key(q));
    list_or_empty(exact, q) + prefix_hits(items, candidates, q, candidates.len())
}

/// A list cut down to `limit` entries.
pub open spec fn capped<A>(s: Seq<A>, limit: int) -> Seq<A> {
    if s.len() > limit {
        s.take(limit)
    } else {
        s
    }
}

/// The items at the given positions.
pub open spec fn items_at(items: Seq<ItemView>, positions: Seq<usize>) -> Seq<ItemView> {
    Seq::new(positions.len(), |j: int| items[positions[j] as int])
}

/// The hits among fewer candidates are the first of the hits among more.
pub proof fn lemma_prefix_hits_grow(
    items: Seq<ItemView>,
    candidates: Seq<usize>,
    q: Seq<char>,
    j: nat,
    n: nat,
)
    requires
        j <= n <= candidates.len(),
    ensures
        prefix_hits(items, candidates, q, j).len() <= prefix_hits(items, candidates, q, n).len(),
        prefix_hits(items, candidates, q, n).take(prefix_hits(items, candidates, q, j).len() as int)
            == prefix_hits(items, candidates, q, j),
    decreases n - j,
{
    let small = prefix_hits(items, candidates, q, j);
    if j < n {
        lemma_prefix_hits_grow(items, candidates, q, j, (n - 1) as nat);
        let mid = prefix_hits(items, candidates, q, (n - 1) as nat);
        let big = prefix_hits(items, candidates, q, n);
        assert(big.take(small.len() as int) =~= mid.take(small.len() as int));
    } else {
        assert(small.take(small.len() as int) =~= small);
    }
}

pub fn chars_fast_query(q: &Vec<char>) -> (r: bool)
    ensures
        r == is_fast_query(q@),
{
    if q.len() == 0 {
        return false;
    }
    let mut i: usize = 0;
    while i < q.len()
        invariant
            i <= q.len(),
            forall|k: int|
                0 <= k < i ==> q[k] != '*' && q[k] != '?' && q[k] != '\\' && q[k] != '/' && q[k]
                    != ':',
        decreases q.len() - i,
    {
        let c = q[i];
        if c == '*' || c == '?' || c == '\\' || c == '/' || c == ':' {
            return false;
        }
        i += 1;
    }
    true
}

/// The first position from `from` on whose item has the given path, or the
/// length of the list where there is none.
pub open spec fn first_from(items: Seq<ItemView>, path: Seq<char>, from: int) -> int
    decreases items.len() - from,
{
    if from < 0 || from >= items.len() {
        items.len() as int
    } else if items[from].path == path {
        from
    } else {
        first_from(items, path, from + 1)
    }
}

/// The first position whose item has the given path, or the length of the
/// list.
pub open spec fn position_of(items: Seq<ItemView>, path: Seq<char>) -> int {
    first_from(items, path, 0)
}

pub open spec fn has_path(items: Seq<ItemView>, path: Seq<char>) -> bool {
    position_of(items, path) < items.len()
}

/// The paths named in a list.
pub open spec fn path_set(paths: Seq<Seq<char>>) -> Set<Seq<char>> {
    Set::new(|p: Seq<char>| paths.contains(p))
}

/// The first `n` items without those whose path is deleted, in their order.
pub open spec fn without_paths(items: Seq<ItemView>, deleted: Set<Seq<char>>, n: nat) -> Seq<
    ItemView,
>
    decreases n,
{
    if n == 0 || n > items.len() {
        Seq::empty()
    } else if deleted.contains(items[n - 1].path) {
        without_paths(items, deleted, (n - 1) as nat)
    } else {
        without_paths(items, deleted, (n - 1) as nat).push(items[n - 1])
    }
}

/// How many different deleted paths occur among the first `n` items.
pub open spec fn deleted_present(items: Seq<ItemView>, deleted: Set<Seq<char>>, n: nat) -> nat
    decreases n,
{
    if n == 0 || n > items.len() {
        0
    } else {
        deleted_present(items, deleted, (n - 1) as nat) + if deleted.contains(items[n - 1].path)
            && position_of(items, items[n - 1].path) == n - 1 {
            1nat
        } else {
            0nat
        }
    }
}

/// A list with one item put in: in place of the first item with the same
/// path, or at the end where no item has that path.
pub open spec fn upserted(items: Seq<ItemView>, item: ItemView) -> Seq<ItemView> {
    if has_path(items, item.path) {
        items.update(position_of(items, item.path), item)
    } else {
        items.push(item)
    }
}

/// A list with the first `n` of the upserts put in, one after the other.
pub open spec fn upserted_all(items: Seq<ItemView>, upserts: Seq<ItemView>, n: nat) -> Seq<
    ItemView,
>
    decreases n,
{
    if n == 0 || n > upserts.len() {
        items
    } else {
        upserted(upserted_all(items, upserts, (n - 1) as nat), upserts[n - 1])
    }
}

/// How many of the first `n` upserts met no item with their path and were
/// added at the end.
pub open spec fn added_count(items: Seq<ItemView>, upserts: Seq<ItemView>, n: nat) -> nat
    decreases n,
{
    if n == 0 || n > upserts.len() {
        0
    } else {
        added_count(items, upserts, (n - 1) as nat) + if has_path(
            upserted_all(items, upserts, (n - 1) as nat),
            upserts[n - 1].path,
        ) {
            0nat
        } else {
            1nat
        }
    }
}

/// The list after a delta: the deleted paths taken out, then the upserts
/// put in.
pub open spec fn after_delta(
    items: Seq<ItemView>,
    upserts: Seq<ItemView>,
    deleted: Seq<Seq<char>>,
) -> Seq<ItemView> {
    upserted_all(
        without_paths(items, path_set(deleted), items.len()),
        upserts,
        upserts.len(),
    )
}

/// What a delta did to the corpus.
#[derive(Debug, Clone, Copy, PartialEq, Eq, Structural)]
pub struct DeltaCounts {
    pub added: usize,
    pub updated: usize,
    pub deleted: usize,
}

/// The counts of a delta: the upserts that were added, those that replaced
/// an item, and the different deleted paths that the corpus held.
pub open spec fn delta_counts(
    items: Seq<ItemView>,
    upserts: Seq<ItemView>,
    deleted: Seq<Seq<char>>,
) -> (nat, nat, nat) {
    let base = without_paths(items, path_set(deleted), items.len());
    let added = added_count(base, upserts, upserts.len());
    (added, (upserts.len() - added) as nat, deleted_present(items, path_set(deleted), items.len()))
}

pub proof fn lemma_added_count_bound(items: Seq<ItemView>, upserts: Seq<ItemView>, n: nat)
    requires
        n <= upserts.len(),
    ensures
        added_count(items, upserts, n) <= n,
    decreases n,
{
    if n > 0 {
        lemma_added_count_bound(items, upserts, (n - 1) as nat);
    }
}

/// The first position with a path is below `n + 1` exactly when it is
/// below `n` or the item at `n` has the path.
pub proof fn lemma_first_from_split(items: Seq<ItemView>, path: Seq<char>, n: int)
    requires
        0 <= n < items.len(),
    ensures
        position_of(items, path) < n + 1 <==> (position_of(items, path) < n || items[n].path
            == path),
        items[n].path == path ==> position_of(items, path) <= n,
        position_of(items, path) < items.len() ==> items[position_of(items, path)].path == path,
        position_of(items, path) >= 0,
{
    lemma_first_from(items, path, 0, n);
    lemma_first_from_found(items, path, 0);
}

proof fn lemma_first_from(items: Seq<ItemView>, path: Seq<char>, from: int, n: int)
    requires
        0 <= from <= n < items.len(),
    ensures
        first_from(items, path, from) < n + 1 <==> (first_from(items, path, from) < n || items[n].path
            == path),
        items[n].path == path ==> first_from(items, path, from) <= n,
        first_from(items, path, from) >= from,
    decreases n - from,
{
    if from < n {
        if items[from].path != path {
            lemma_first_from(items, path, from + 1, n);
        }
    } else {
        if items[from].path != path {
            lemma_first_from_found(items, path, from + 1);
        }
    }
}

proof fn lemma_first_from_found(items: Seq<ItemView>, path: Seq<char>, from: int)
    requires
        0 <= from <= items.len(),
    ensures
        from <= first_from(items, path, from) <= items.len(),
        first_from(items, path, from) < items.len() ==> items[first_from(items, path, from)].path
            == path,
    decreases items.len() - from,
{
    if from < items.len() && items[from].path != path {
        lemma_first_from_found(items, path, from + 1);
    }
}

/// Where no path is deleted the list stays as it is and nothing is counted.
pub proof fn lemma_nothing_deleted(items: Seq<ItemView>, deleted: Set<Seq<char>>, n: nat)
    requires
        n <= items.len(),
        forall|p: Seq<char>| !deleted.contains(p),
    ensures
        without_paths(items, deleted, n) == items.take(n as int),
        deleted_present(items, deleted, n) == 0,
    decreases n,
{
    if n > 0 {
        lemma_nothing_deleted(items, deleted, (n - 1) as nat);
        assert(items.take(n as int) =~= items.take(n - 1).push(items[n - 1]));
    } else {
        assert(items.take(0) =~= Seq::<ItemView>::empty());
    }
}

/// The first position with a path, found by looking at the items in turn.
pub fn find_path(items: &Vec<SearchItem>, path: &String) -> (r: usize)
    ensures
        r == position_of(item_views(items@), path@),
        r <= items.len(),
{
    let mut i: usize = 0;
    while i < items.len()
        invariant
            i <= items.len(),
            position_of(item_views(items@), path@) == first_from(
                item_views(items@),
                path@,
                i as int,
            ),
        decreases items.len() - i,
    {
        if items[i].path == *path {
            return i;
        }
        i += 1;
    }
    i
}

/// The list of files and its filename index.
pub struct Corpus {
    pub items: Vec<SearchItem>,
    pub filename_exact_index: NameIndex,
    pub filename_prefix_index: NameIndex,
    pub filename_index_dirty: bool,
    pub filename_index_building: bool,
    pub filename_index_build_cursor: usize,
}

impl Corpus {
    pub open spec fn views(&self) -> Seq<ItemView> {
        item_views(self.items@)
    }

    /// The index covers the first `n` items and nothing else.
    pub open spec fn index_covers(&self, n: nat) -> bool {
        &&& self.filename_exact_index@ == exact_index_of(self.views(), n)
        &&& self.filename_prefix_index@ == prefix_index_of(self.views(), n)
    }

    /// The index is marked dirty, or it covers the whole list. While it is
    /// being built it covers the items before the cursor.
    pub open spec fn wf(&self) -> bool {
        &&& self.filename_exact_index.wf()
        &&& self.filename_prefix_index.wf()
        &&& self.filename_index_building ==> self.filename_index_dirty
            && self.filename_index_build_cursor <= self.items.len() && self.index_covers(
            self.filename_index_build_cursor as nat,
        )
        &&& !self.filename_index_building ==> self.filename_index_build_cursor == 0
        &&& !self.filename_index_dirty ==> self.index_covers(self.items.len() as nat)
    }

    /// Whether the index can be used.
    pub open spec fn index_ready(&self) -> bool {
        !self.filename_index_dirty && !self.filename_index_building
    }

    /// An empty corpus, its index marked dirty.
    pub fn new() -> (r: Self)
        ensures
            r.wf(),
            r.views() == Seq::<ItemView>::empty(),
            r.filename_index_dirty,
            !r.filename_index_building,
    {
        let r = Corpus {
            items: Vec::new(),
            filename_exact_index: NameIndex::new(),
            filename_prefix_index: NameIndex::new(),
            filename_index_dirty: true,
            filename_index_building: false,
            filename_index_build_cursor: 0,
        };
        assert(r.views() =~= Seq::<ItemView>::empty());
        r
    }

    /// Marks the index dirty and forgets how far a build had come.
    pub fn mark_dirty(&mut self)
        requires
            old(self).wf(),
        ensures
            final(self).wf(),
            final(self).items == old(self).items,
            final(self).filename_index_dirty,
            !final(self).filename_index_building,
    {
        self.filename_index_dirty = true;
        self.filename_index_building = false;
        self.filename_index_build_cursor = 0;
    }

    /// Replaces the list. The index is marked dirty.
    pub fn set_items(&mut self, items: Vec<SearchItem>)
        requires
            old(self).wf(),
        ensures
            final(self).wf(),
            final(self).items == items,
            final(self).filename_index_dirty,
            !final(self).filename_index_building,
    {
        self.items = items;
        self.filename_index_dirty = true;
        self.filename_index_building = false;
        self.filename_index_build_cursor = 0;
    }

    /// Where a build step that takes in `batch` items ends.
    pub open spec fn step_end(&self, batch: usize) -> int {
        let start = if self.filename_index_building {
            self.filename_index_build_cursor as int
        } else {
            0
        };
        if start + batch < self.items.len() {
            start + batch
        } else {
            self.items.len() as int
        }
    }

    /// Whether the corpus is what one step of the index build makes of
    /// `before`. Nothing happens unless the index is dirty. The step takes
    /// in the next `batch` items; when it reaches the end of the list the
    /// index is complete and no longer dirty, and else the build is under
    /// way and has come as far as the step went.
    pub open spec fn build_stepped(&self, before: &Corpus, batch: usize) -> bool {
        &&& self.items == before.items
        &&& !before.filename_index_dirty ==> *self == *before
        &&& before.filename_index_dirty ==> {
            let end = before.step_end(batch);
            if end >= before.items.len() {
                self.index_ready()
            } else {
                &&& self.filename_index_dirty
                &&& self.filename_index_building
                &&& self.filename_index_build_cursor == end
            }
        }
    }

    /// One step of the index build. A build that is not under way starts
    /// from an empty index.
    pub fn process_filename_index_build_step(&mut self, batch: usize)
        requires
            old(self).wf(),
        ensures
            final(self).wf(),
            final(self).build_stepped(old(self), batch),
    {
        if !self.filename_index_dirty {
            return ;
        }
        if !self.filename_index_building {
            self.filename_exact_index.clear();
            self.filename_prefix_index.clear();
            self.filename_index_build_cursor = 0;
            self.filename_index_building = true;
        }
        let len = self.items.len();
        let start = self.filename_index_build_cursor;
        let end = if batch < len - start {
            start + batch
        } else {
            len
        };
        let mut index = start;
        while index < end
            invariant
                start <= index <= end <= len,
                len == self.items.len(),
                self.items == old(self).items,
                self.filename_exact_index.wf(),
                self.filename_prefix_index.wf(),
                self.index_covers(index as nat),
                self.filename_index_dirty,
                self.filename_index_building,
            decreases end - index,
        {
            let path = to_chars(self.items[index].path.as_str());
            let n = name_start_of(&path);
            let name = slice_chars(&path, n, path.len());
            let name_lower = lower_chars(&name);
            assert(name_lower@ == lower_name(self.views()[index as int].path));
            self.filename_exact_index.add(string_of(&name_lower), index);
            let mut k: usize = 0;
            let ghost before = self.filename_prefix_index@;
            let ghost exact = self.filename_exact_index;
            while k < 3 && k < name_lower.len()
                invariant
                    k <= 3,
                    k <= name_lower.len(),
                    index < len,
                    len == self.items.len(),
                    self.items == old(self).items,
                    self.filename_exact_index == exact,
                    self.filename_index_dirty,
                    self.filename_index_building,
                    self.filename_prefix_index.wf(),
                    self.filename_prefix_index@ == with_prefixes(
                        before,
                        name_lower@,
                        index,
                        k as nat,
                    ),
                decreases 3 - k,
            {
                k += 1;
                let prefix = slice_chars(&name_lower, 0, k);
                assert(prefix@ =~= name_lower@.take(k as int));
                self.filename_prefix_index.add(string_of(&prefix), index);
            }
            index += 1;
        }
        self.filename_index_build_cursor = end;
        if end >= len {
            self.filename_index_dirty = false;
            self.filename_index_building = false;
            self.filename_index_build_cursor = 0;
        }
    }

    /// The first items of the list, at most `VISIBLE_RESULTS_LIMIT` of them:
    /// what is shown for an empty query.
    pub fn first_items(&self) -> (r: Vec<SearchItem>)
        ensures
            item_views(r@) == capped(self.views(), VISIBLE_RESULTS_LIMIT as int),
    {
        let n = if self.items.len() > VISIBLE_RESULTS_LIMIT {
            VISIBLE_RESULTS_LIMIT
        } else {
            self.items.len()
        };
        let mut r: Vec<SearchItem> = Vec::new();
        let mut i: usize = 0;
        while i < n
            invariant
                i <= n <= self.items.len(),
                item_views(r@) == self.views().take(i as int),
            decreases n - i,
        {
            let ghost before = item_views(r@);
            let c = self.items[i].clone();
            r.push(c);
            assert(item_views(r@) =~= before.push(c@));
            i += 1;
            assert(item_views(r@) =~= self.views().take(i as int));
        }
        assert(self.views().take(self.items.len() as int) =~= self.views());
        r
    }

    /// The answer of the filename index to a query, where it has one: the
    /// items at the positions that the index gives, at most
    /// `VISIBLE_RESULTS_LIMIT` of them. There is none for a query that the
    /// index cannot answer, while the index is dirty or being built, and
    /// where the index finds nothing.
    pub fn try_fast_filename_search(&self, query_lower: &str) -> (r: Option<Vec<SearchItem>>)
        requires
            self.wf(),
        ensures
            ({
                let hits = capped(
                    fast_hits(
                        self.views(),
                        self.filename_exact_index@,
                        self.filename_prefix_index@,
                        query_lower@,
                    ),
                    VISIBLE_RESULTS_LIMIT as int,
                );
                match r {
                    Some(v) => is_fast_query(query_lower@) && self.index_ready() && hits.len() > 0
                        && item_views(v@) == items_at(self.views(), hits),
                    None => !is_fast_query(query_lower@) || !self.index_ready() || hits.len() == 0,
                }
            }),
    {
        let q = to_chars(query_lower);
        if !chars_fast_query(&q) {
            return None;
        }
        if self.filename_index_dirty || self.filename_index_building {
            return None;
        }
        let ghost views = self.views();
        let ghost exact = list_or_empty(self.filename_exact_index@, q@);
        let ghost candidates = list_or_empty(self.filename_prefix_index@, prefix_key(q@));
        let ghost all = fast_hits(
            views,
            self.filename_exact_index@,
            self.filename_prefix_index@,
            q@,
        );
        let mut out: Vec<SearchItem> = Vec::new();
        assert(item_views(out@) =~= items_at(views, exact.take(0)));
        match self.filename_exact_index.get(query_lower) {
            Some(list) => {
                let mut j: usize = 0;
                while j < list.len() && out.len() < VISIBLE_RESULTS_LIMIT
                    invariant
                        j <= list.len(),
                        list@ == exact,
                        self.wf(),
                        self.index_ready(),
                        views == self.views(),
                        self.filename_exact_index@.contains_key(q@),
                        exact == self.filename_exact_index@[q@],
                        out.len() == j,
                        out.len() <= VISIBLE_RESULTS_LIMIT,
                        item_views(out@) == items_at(views, exact.take(j as int)),
                    decreases list.len() - j,
                {
                    let position = list[j];
                    proof {
                        lemma_exact_index_sound(views, self.items.len() as nat, q@, j as int);
                    }
                    let ghost before = item_views(out@);
                    let c = self.items[position].clone();
                    out.push(c);
                    assert(item_views(out@) =~= before.push(c@));
                    j += 1;
                    assert(item_views(out@) =~= items_at(views, exact.take(j as int)));
                }
                if out.len() >= VISIBLE_RESULTS_LIMIT {
                    assert(capped(all, VISIBLE_RESULTS_LIMIT as int) =~= exact.take(j as int));
                    return Some(out);
                }
                assert(exact.take(j as int) =~= exact);
            },
            None => {
                assert(exact.take(0) =~= exact);
            },
        }
        let key_len: usize = if q.len() < 3 {
            q.len()
        } else {
            3
        };
        let key_chars = slice_chars(&q, 0, key_len);
        assert(key_chars@ =~= prefix_key(q@));
        let key = string_of(&key_chars);
        assert(exact + prefix_hits(views, candidates, q@, 0) =~= exact);
        match self.filename_prefix_index.get(key.as_str()) {
            Some(list) => {
                let mut j: usize = 0;
                while j < list.len() && out.len() < VISIBLE_RESULTS_LIMIT
                    invariant
                        j <= list.len(),
                        list@ == candidates,
                        views == self.views(),
                        exact.len() < VISIBLE_RESULTS_LIMIT,
                        out.len() <= VISIBLE_RESULTS_LIMIT,
                        item_views(out@) == items_at(
                            views,
                            exact + prefix_hits(views, candidates, q@, j as nat),
                        ),
                    decreases list.len() - j,
                {
                    let position = list[j];
                    if position < self.items.len() {
                        let path = to_chars(self.items[position].path.as_str());
                        let n = name_start_of(&path);
                        let name = slice_chars(&path, n, path.len());
                        let name_lower = lower_chars(&name);
                        assert(name@ == file_name(views[position as int].path));
                        if !chars_eq(&name_lower, &q) && contains_chars(&name, &q) {
                            let ghost before = item_views(out@);
                            let c = self.items[position].clone();
                            out.push(c);
                            assert(item_views(out@) =~= before.push(c@));
                            assert(item_views(out@) =~= items_at(
                                views,
                                exact + prefix_hits(views, candidates, q@, (j + 1) as nat),
                            ));
                        }
                    }
                    j += 1;
                }
                proof {
                    lemma_prefix_hits_grow(views, candidates, q@, j as nat, candidates.len());
                    let part = exact + prefix_hits(views, candidates, q@, j as nat);
                    if j < list.len() {
                        assert(capped(all, VISIBLE_RESULTS_LIMIT as int) =~= part);
                    } else {
                        assert(capped(all, VISIBLE_RESULTS_LIMIT as int) =~= part);
                    }
                }
            },
            None => {
                assert(all =~= exact);
            },
        }
        if out.len() == 0 {
            None
        } else {
            Some(out)
        }
    }

    /// Applies a delta: takes out the items with a deleted path, then puts
    /// in the upserts one after the other, each in place of the first item
    /// with its path or at the end. The index is marked dirty. Returns how
    /// many upserts were added, how many replaced an item, and how many
    /// different deleted paths the corpus held.
    pub fn apply_index_delta(&mut self, upserts: Vec<SearchItem>, deleted_paths: &Vec<String>) -> (r:
        DeltaCounts)
        requires
            old(self).wf(),
        ensures
            final(self).wf(),
            final(self).filename_index_dirty,
            !final(self).filename_index_building,
            final(self).views() == after_delta(
                old(self).views(),
                item_views(upserts@),
                string_views(deleted_paths@),
            ),
            (r.added as nat, r.updated as nat, r.deleted as nat) == delta_counts(
                old(self).views(),
                item_views(upserts@),
                string_views(deleted_paths@),
            ),
    {
        let ghost old_views = self.views();
        let ghost deleted = path_set(string_views(deleted_paths@));
        let mut deleted_count: usize = 0;
        self.filename_index_dirty = true;
        self.filename_index_building = false;
        self.filename_index_build_cursor = 0;
        let mut marks: StringHashMap<bool> = StringHashMap::new();
        let mut d: usize = 0;
        while d < deleted_paths.len()
            invariant
                d <= deleted_paths.len(),
                forall|p: Seq<char>| #[trigger]
                    marks@.contains_key(p) <==> string_views(deleted_paths@).take(d as int).contains(
                        p,
                    ),
                forall|p: Seq<char>| #[trigger] marks@.contains_key(p) ==> !marks@[p],
            decreases deleted_paths.len() - d,
        {
            marks.insert(deleted_paths[d].clone(), false);
            d += 1;
            proof {
                let before = string_views(deleted_paths@).take(d - 1);
                let now = string_views(deleted_paths@).take(d as int);
                let added = deleted_paths[d - 1]@;
                assert(now =~= before.push(added));
                assert forall|p: Seq<char>| #[trigger]
                    marks@.contains_key(p) <==> now.contains(p) by {
                    if now.contains(p) {
                        let k = choose|k: int| 0 <= k < now.len() && now[k] == p;
                        if k < d - 1 {
                            assert(before[k] == p);
                        }
                    }
                    if before.contains(p) {
                        let k = choose|k: int| 0 <= k < before.len() && before[k] == p;
                        assert(now[k] == p);
                    }
                    assert(now[d - 1] == added);
                }
            }
        }
        assert(string_views(deleted_paths@).take(deleted_paths.len() as int) =~= string_views(
            deleted_paths@,
        ));
        assert(forall|p: Seq<char>| #[trigger] marks@.contains_key(p) <==> deleted.contains(p));
        if deleted_paths.len() > 0 {
            let len = self.items.len();
            let mut kept: usize = 0;
            let mut seen: usize = 0;
            assert(self.views().take(0) =~= without_paths(old_views, deleted, 0));
            assert forall|p: Seq<char>| #[trigger] marks@.contains_key(p) implies (marks@[p] <==> position_of(
                old_views,
                p,
            ) < 0) by {
                lemma_first_from_found(old_views, p, 0);
            }
            while seen < len
                invariant
                    kept <= seen <= len,
                    len == self.items.len(),
                    len == old_views.len(),
                    self.views().take(kept as int) == without_paths(old_views, deleted, seen as nat),
                    forall|k: int| seen <= k < len ==> #[trigger] self.views()[k] == old_views[k],
                    deleted_count == deleted_present(old_views, deleted, seen as nat),
                    deleted_count <= seen,
                    forall|p: Seq<char>| #[trigger] marks@.contains_key(p) <==> deleted.contains(p),
                    forall|p: Seq<char>| #[trigger]
                        marks@.contains_key(p) ==> (marks@[p] <==> position_of(old_views, p)
                            < seen),
                    self.filename_exact_index == old(self).filename_exact_index,
                    self.filename_prefix_index == old(self).filename_prefix_index,
                    self.filename_index_dirty,
                    !self.filename_index_building,
                    self.filename_index_build_cursor == 0,
                decreases len - seen,
            {
                let ghost before = self.views();
                assert(before[seen as int] == old_views[seen as int]);
                let ghost path = old_views[seen as int].path;
                proof {
                    lemma_first_from_split(old_views, path, seen as int);
                }
                let mark: Option<bool> = match marks.get(self.items[seen].path.as_str()) {
                    Some(m) => Some(*m),
                    None => None,
                };
                match mark {
                    Some(counted) => {
                        if !counted {
                            marks.insert(self.items[seen].path.clone(), true);
                            deleted_count += 1;
                        }
                    },
                    None => {
                        if kept != seen {
                            let mut item = SearchItem { path: String::new(), modified_unix_secs: 0 };
                            core::mem::swap(&mut self.items[seen], &mut item);
                            self.items[kept] = item;
                        }
                        kept += 1;
                        assert(self.views().take(kept as int) =~= before.take(kept - 1).push(
                            old_views[seen as int],
                        ));
                    },
                }
                proof {
                    assert forall|p: Seq<char>| #[trigger] marks@.contains_key(p) implies (
                    marks@[p] <==> position_of(old_views, p) < seen + 1) by {
                        lemma_first_from_split(old_views, p, seen as int);
                    }
                    assert(self.views().take(kept as int) =~= without_paths(
                        old_views,
                        deleted,
                        (seen + 1) as nat,
                    ));
                    assert forall|k: int| seen + 1 <= k < len implies #[trigger] self.views()[k]
                        == old_views[k] by {
                        assert(before[k] == old_views[k]);
                    }
                }
                seen += 1;
            }
            self.items.truncate(kept);
            assert(self.views() =~= without_paths(old_views, deleted, old_views.len()));
        } else {
            proof {
                assert forall|p: Seq<char>| !deleted.contains(p) by {
                    assert(!string_views(deleted_paths@).contains(p));
                }
                lemma_nothing_deleted(old_views, deleted, old_views.len());
                assert(old_views.take(old_views.len() as int) =~= old_views);
            }
        }
        let ghost base = self.views();
        let ghost ups = item_views(upserts@);
        let mut upserts = upserts;
        let total = upserts.len();
        let mut added: usize = 0;
        let mut done: usize = 0;
        while done < total
            invariant
                done <= total,
                ups.len() == total,
                upserts.len() == total,
                forall|k: int| done <= k < total ==> (#[trigger] upserts[k])@ == ups[k],
                self.views() == upserted_all(base, ups, done as nat),
                added == added_count(base, ups, done as nat),
                added <= done,
                self.filename_exact_index == old(self).filename_exact_index,
                self.filename_prefix_index == old(self).filename_prefix_index,
                self.filename_index_dirty,
                !self.filename_index_building,
                self.filename_index_build_cursor == 0,
            decreases total - done,
        {
            let mut item = SearchItem { path: String::new(), modified_unix_secs: 0 };
            core::mem::swap(&mut upserts[done], &mut item);
            assert(item@ == ups[done as int]);
            let ghost before = self.views();
            let p = find_path(&self.items, &item.path);
            if p < self.items.len() {
                self.items[p] = item;
                assert(self.views() =~= before.update(p as int, ups[done as int]));
            } else {
                self.items.push(item);
                assert(self.views() =~= before.push(ups[done as int]));
                added += 1;
            }
            done += 1;
        }
        DeltaCounts { added, updated: total - added, deleted: deleted_count }
    }

    /// While the index is not dirty it is consistent with the list: every
    /// position listed in the exact index is a position of the list, and the
    /// item there bears the lower-cased file name it is listed under.
    pub proof fn lemma_exact_index_consistent(&self, key: Seq<char>, j: int)
        requires
            self.wf(),
            !self.filename_index_dirty,
            self.filename_exact_index@.contains_key(key),
            0 <= j < self.filename_exact_index@[key].len(),
        ensures
            self.filename_exact_index@[key][j] < self.items.len(),
            lower_name(self.views()[self.filename_exact_index@[key][j] as int].path) == key,
    {
        lemma_exact_index_sound(self.views(), self.items.len() as nat, key, j);
    }

    /// While the index is not dirty every item is listed in the exact index
    /// under its lower-cased file name.
    pub proof fn lemma_exact_index_lists_all(&self, i: int)
        requires
            self.wf(),
            !self.filename_index_dirty,
            0 <= i < self.items.len(),
        ensures
            self.filename_exact_index@.contains_key(lower_name(self.views()[i].path)),
            self.filename_exact_index@[lower_name(self.views()[i].path)].contains(i as usize),
    {
        lemma_exact_index_complete(self.views(), self.items.len() as nat, i);
    }

    /// While the index is not dirty every position listed in the prefix
    /// index is a position of the list, and the lower-cased file name of the
    /// item there begins with the key it is listed under.
    pub proof fn lemma_prefix_index_consistent(&self, key: Seq<char>, j: int)
        requires
            self.wf(),
            !self.filename_index_dirty,
            self.filename_prefix_index@.contains_key(key),
            0 <= j < self.filename_prefix_index@[key].len(),
        ensures
            self.filename_prefix_index@[key][j] < self.items.len(),
            1 <= key.len() <= 3,
            key.len() <= lower_name(
                self.views()[self.filename_prefix_index@[key][j] as int].path,
            ).len(),
            lower_name(self.views()[self.filename_prefix_index@[key][j] as int].path).take(
                key.len() as int,
            ) == key,
    {
        lemma_prefix_index_sound(self.views(), self.items.len() as nat, key, j);
    }
}

} // verus!
