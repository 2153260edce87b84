//! Ordering results by recency: newest first, and among equals in the order
//! in which they were found.

use vstd::prelude::*;
use crate::corpus::capped;
use crate::item::{ItemView, SearchItem};

verus! {

/// An item with the key it is ordered by.
pub struct RankedItem {
    pub key: i64,
    pub item: SearchItem,
}

/// What a [`RankedItem`] stands for.
pub ghost struct RankedView {
    pub key: i64,
    pub item: ItemView,
}

impl View for RankedItem {
    type V = RankedView;

    open spec fn view(&self) -> RankedView {
        RankedView { key: self.key, item: self.item@ }
    }
}

pub open spec fn ranked_views(entries: Seq<RankedItem>) -> Seq<RankedView> {
    Seq::new(entries.len(), |i: int| entries[i]@)
}

/// The items of a list of ranked items.
pub open spec fn items_of(entries: Seq<RankedView>) -> Seq<ItemView> {
    Seq::new(entries.len(), |i: int| entries[i].item)
}

/// A list ordered by falling key with one more entry put in: behind every
/// entry whose key is at least as large, before every entry with a smaller
/// key.
pub open spec fn insert_desc(sorted: Seq<RankedView>, entry: RankedView) -> Seq<RankedView>
    decreases sorted.len(),
{
    if sorted.len() == 0 {
        seq![entry]
    } else if sorted.last().key >= entry.key {
        sorted.push(entry)
    } else {
        insert_desc(sorted.drop_last(), entry).push(sorted.last())
    }
}

/// The first `n` entries ordered by falling key, entries with equal keys in
/// their given order.
pub open spec fn sort_desc(entries: Seq<RankedView>, n: nat) -> Seq<RankedView>
    decreases n,
{
    if n == 0 || n > entries.len() {
        Seq::empty()
    } else {
        insert_desc(sort_desc(entries, (n - 1) as nat), entries[n - 1])
    }
}

/// The keys never rise along the list.
pub open spec fn is_desc(entries: Seq<RankedView>) -> bool {
    forall|i: int, j: int| 0 <= i <= j < entries.len() ==> entries[i].key >= entries[j].key
}

/// Where the entries from `at` on have smaller keys than the new entry and
/// the entry before `at` has not, the new entry goes in at `at`.
pub proof fn lemma_insert_at(sorted: Seq<RankedView>, entry: RankedView, at: int)
    requires
        0 <= at <= sorted.len(),
        at > 0 ==> sorted[at - 1].key >= entry.key,
        forall|i: int| at <= i < sorted.len() ==> sorted[i].key < entry.key,
    ensures
        insert_desc(sorted, entry) == sorted.insert(at, entry),
    decreases sorted.len(),
{
    if sorted.len() == 0 {
        assert(sorted.insert(at, entry) =~= seq![entry]);
    } else if at == sorted.len() {
        assert(sorted.insert(at, entry) =~= sorted.push(entry));
    } else {
        let shorter = sorted.drop_last();
        lemma_insert_at(shorter, entry, at);
        assert(sorted.insert(at, entry) =~= shorter.insert(at, entry).push(sorted.last()));
    }
}

/// The place at which a new entry goes into an ordered list.
pub open spec fn insert_place(sorted: Seq<RankedView>, entry: RankedView) -> int
    decreases sorted.len(),
{
    if sorted.len() == 0 || sorted.last().key >= entry.key {
        sorted.len() as int
    } else {
        insert_place(sorted.drop_last(), entry)
    }
}

pub proof fn lemma_insert_place(sorted: Seq<RankedView>, entry: RankedView)
    requires
        is_desc(sorted),
    ensures
        0 <= insert_place(sorted, entry) <= sorted.len(),
        forall|i: int| 0 <= i < insert_place(sorted, entry) ==> sorted[i].key >= entry.key,
        forall|i: int| insert_place(sorted, entry) <= i < sorted.len() ==> sorted[i].key < entry.key,
        insert_desc(sorted, entry) == sorted.insert(insert_place(sorted, entry), entry),
        is_desc(insert_desc(sorted, entry)),
    decreases sorted.len(),
{
    let at = insert_place(sorted, entry);
    if sorted.len() > 0 && sorted.last().key < entry.key {
        let shorter = sorted.drop_last();
        assert(is_desc(shorter)) by {
            assert forall|i: int, j: int| 0 <= i <= j < shorter.len() implies shorter[i].key
                >= shorter[j].key by {
                assert(sorted[i].key >= sorted[j].key);
            }
        }
        lemma_insert_place(shorter, entry);
        assert forall|i: int| 0 <= i < at implies sorted[i].key >= entry.key by {
            assert(shorter[i].key >= entry.key);
        }
        assert forall|i: int| at <= i < sorted.len() implies sorted[i].key < entry.key by {
            if i < shorter.len() {
                assert(shorter[i].key < entry.key);
            }
        }
    } else if sorted.len() > 0 {
        assert forall|i: int| 0 <= i < at implies sorted[i].key >= entry.key by {
            assert(sorted[i].key >= sorted[sorted.len() - 1].key);
        }
    }
    lemma_insert_at(sorted, entry, at);
    let now = sorted.insert(at, entry);
    assert forall|i: int, j: int| 0 <= i <= j < now.len() implies now[i].key >= now[j].key by {
        if i < at && j < at {
            assert(sorted[i].key >= sorted[j].key);
        } else if i < at && j == at {
        } else if i < at {
            assert(sorted[i].key >= sorted[j - 1].key);
        } else if i == at {
            if j > at {
                assert(sorted[j - 1].key < entry.key);
            }
        } else {
            assert(sorted[i - 1].key >= sorted[j - 1].key);
        }
    }
}

/// The ordered list is ordered.
pub proof fn lemma_sort_desc_is_desc(entries: Seq<RankedView>, n: nat)
    requires
        n <= entries.len(),
    ensures
        is_desc(sort_desc(entries, n)),
        sort_desc(entries, n).len() == n,
    decreases n,
{
    if n > 0 {
        lemma_sort_desc_is_desc(entries, (n - 1) as nat);
        lemma_insert_place(sort_desc(entries, (n - 1) as nat), entries[n - 1]);
    }
}

/// To keep the first `limit` entries of an ordered list it is enough to
/// keep the first `limit` after every insertion.
pub proof fn lemma_capped_insert(sorted: Seq<RankedView>, entry: RankedView, limit: int)
    requires
        is_desc(sorted),
        limit >= 0,
    ensures
        is_desc(capped(sorted, limit)),
        capped(insert_desc(capped(sorted, limit), entry), limit) == capped(
            insert_desc(sorted, entry),
            limit,
        ),
{
    let short = capped(sorted, limit);
    assert(is_desc(short)) by {
        assert forall|i: int, j: int| 0 <= i <= j < short.len() implies short[i].key
            >= short[j].key by {
            assert(sorted[i].key >= sorted[j].key);
        }
    }
    lemma_insert_place(sorted, entry);
    lemma_insert_place(short, entry);
    let at = insert_place(sorted, entry);
    let short_at = insert_place(short, entry);
    if sorted.len() > limit {
        if at <= limit {
            if short_at < at {
                assert(short[short_at].key < entry.key);
                assert(sorted[short_at].key >= entry.key);
            }
            if short_at > at {
                assert(short[at].key >= entry.key);
                assert(sorted[at].key < entry.key);
            }
            assert(short_at == at);
            assert(capped(short.insert(at, entry), limit) =~= capped(
                sorted.insert(at, entry),
                limit,
            ));
        } else {
            if short_at < limit {
                assert(short[short_at].key < entry.key);
                assert(sorted[short_at].key >= entry.key);
            }
            assert(short_at == limit);
            assert(capped(short.insert(short_at, entry), limit) =~= capped(
                sorted.insert(at, entry),
                limit,
            ));
        }
    }
}

/// Puts an entry into an ordered list.
pub fn insert_sorted(out: &mut Vec<RankedItem>, entry: RankedItem)
    ensures
        ranked_views(final(out)@) == insert_desc(ranked_views(old(out)@), entry@),
{
    let ghost before = ranked_views(out@);
    let mut at: usize = out.len();
    while at > 0 && out[at - 1].key < entry.key
        invariant
            at <= out.len(),
            out@ == old(out)@,
            before == ranked_views(out@),
            forall|i: int| at <= i < out.len() ==> (#[trigger] before[i]).key < entry.key,
        decreases at,
    {
        assert(before[at - 1].key == out[at - 1].key);
        at -= 1;
    }
    proof {
        lemma_insert_at(before, entry@, at as int);
    }
    out.insert(at, entry);
    assert(ranked_views(out@) =~= before.insert(at as int, entry@));
}

/// Puts an entry into an ordered list and keeps the first `limit` entries.
pub fn insert_capped(out: &mut Vec<RankedItem>, entry: RankedItem, limit: usize)
    requires
        old(out).len() <= limit,
    ensures
        ranked_views(final(out)@) == capped(
            insert_desc(ranked_views(old(out)@), entry@),
            limit as int,
        ),
        final(out).len() <= limit,
{
    let ghost before = ranked_views(out@);
    if out.len() == limit && (limit == 0 || out[limit - 1].key >= entry.key) {
        proof {
            lemma_insert_at(before, entry@, limit as int);
            assert(capped(before.insert(limit as int, entry@), limit as int) =~= before);
        }
        return ;
    }
    insert_sorted(out, entry);
    if out.len() > limit {
        let ghost full = ranked_views(out@);
        out.truncate(limit);
        assert(ranked_views(out@) =~= full.take(limit as int));
    }
}

/// The items of a list of ranked items, in their order.
pub fn unrank(entries: Vec<RankedItem>) -> (r: Vec<SearchItem>)
    ensures
        crate::item::item_views(r@) == items_of(ranked_views(entries@)),
{
    let ghost all = ranked_views(entries@);
    let mut entries = entries;
    let mut r: Vec<SearchItem> = Vec::new();
    let mut i: usize = 0;
    let n = entries.len();
    while i < n
        invariant
            i <= n,
            n == entries.len(),
            all.len() == n,
            forall|k: int| i <= k < n ==> (#[trigger] entries[k])@ == all[k],
            crate::item::item_views(r@) == items_of(all).take(i as int),
        decreases n - i,
    {
        let mut item = SearchItem { path: String::new(), modified_unix_secs: 0 };
        core::mem::swap(&mut entries[i].item, &mut item);
        let ghost before = crate::item::item_views(r@);
        r.push(item);
        assert(crate::item::item_views(r@) =~= before.push(all[i as int].item));
        i += 1;
        assert(crate::item::item_views(r@) =~= items_of(all).take(i as int));
    }
    assert(items_of(all).take(n as int) =~= items_of(all));
    r
}

} // verus!
