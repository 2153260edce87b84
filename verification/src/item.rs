//! The records of the corpus.

use vstd::prelude::*;
use vstd::string::*;
use vstd::utf8::encode_utf8;

verus! {

/// The modification time of a file whose time is not known.
pub const UNKNOWN_TS: i64 = i64::MIN;

/// One indexed file: its full path and when it was last modified, in seconds
/// since 1970, or [`UNKNOWN_TS`].
#[derive(Debug)]
pub struct SearchItem {
    pub path: String,
    pub modified_unix_secs: i64,
}

/// What a [`SearchItem`] stands for.
pub ghost struct ItemView {
    pub path: Seq<char>,
    pub modified_unix_secs: i64,
}

impl View for SearchItem {
    type V = ItemView;

    open spec fn view(&self) -> ItemView {
        ItemView { path: self.path@, modified_unix_secs: self.modified_unix_secs }
    }
}

impl Clone for SearchItem {
    fn clone(&self) -> (r: Self)
        ensures
            r@ == self@,
    {
        SearchItem { path: self.path.clone(), modified_unix_secs: self.modified_unix_secs }
    }
}

/// The views of a list of items.
pub open spec fn item_views(items: Seq<SearchItem>) -> Seq<ItemView> {
    Seq::new(items.len(), |i: int| items[i]@)
}

/// The paths of a list of items.
pub open spec fn paths_of(items: Seq<ItemView>) -> Seq<Seq<char>> {
    Seq::new(items.len(), |i: int| items[i].path)
}

impl SearchItem {
    pub fn new(path: String, modified_unix_secs: i64) -> (r: Self)
        ensures
            r@ == (ItemView { path: path@, modified_unix_secs }),
    {
        SearchItem { path, modified_unix_secs }
    }
}

/// A copy of a list of items.
pub fn clone_items(items: &Vec<SearchItem>) -> (r: Vec<SearchItem>)
    ensures
        item_views(r@) == item_views(items@),
{
    let mut r: Vec<SearchItem> = Vec::new();
    let mut i: usize = 0;
    while i < items.len()
        invariant
            i <= items.len(),
            item_views(r@) == item_views(items@).take(i as int),
        decreases items.len() - i,
    {
        let ghost before = item_views(r@);
        let c = items[i].clone();
        assert(c@ == items[i as int]@);
        r.push(c);
        assert(item_views(r@) =~= before.push(c@));
        i += 1;
        assert(item_views(r@) =~= item_views(items@).take(i as int));
    }
    assert(item_views(items@).take(items.len() as int) =~= item_views(items@));
    r
}

/// The number of bytes counted for an item apart from its path.
pub const SEARCH_ITEM_BYTES: usize = 48;

/// The memory that the first `n` items take: a fixed number of bytes for
/// each, and the bytes of its path.
pub open spec fn memory_of(items: Seq<ItemView>, n: nat) -> nat
    decreases n,
{
    if n == 0 || n > items.len() {
        0
    } else {
        memory_of(items, (n - 1) as nat) + SEARCH_ITEM_BYTES as nat + encode_utf8(
            items[n - 1].path,
        ).len()
    }
}

/// An estimate of the memory that a list of items takes, and the largest
/// number where the estimate does not fit.
pub fn estimate_index_memory_bytes(items: &Vec<SearchItem>) -> (r: usize)
    ensures
        r == if memory_of(item_views(items@), items.len() as nat) > usize::MAX {
            usize::MAX as nat
        } else {
            memory_of(item_views(items@), items.len() as nat)
        },
{
    let ghost views = item_views(items@);
    let mut total: usize = 0;
    let mut i: usize = 0;
    while i < items.len()
        invariant
            i <= items.len(),
            views == item_views(items@),
            total == if memory_of(views, i as nat) > usize::MAX {
                usize::MAX as nat
            } else {
                memory_of(views, i as nat)
            },
        decreases items.len() - i,
    {
        let bytes = items[i].path.as_str().as_bytes().len();
        assert(bytes == encode_utf8(views[i as int].path).len());
        total = if total > usize::MAX - SEARCH_ITEM_BYTES {
            usize::MAX
        } else {
            total + SEARCH_ITEM_BYTES
        };
        total = if total > usize::MAX - bytes {
            usize::MAX
        } else {
            total + bytes
        };
        i += 1;
    }
    total
}

} // verus!
