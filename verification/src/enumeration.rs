//! What a one-shot enumeration keeps of the files it finds.

use vstd::prelude::*;
use crate::item::{item_views, ItemView, SearchItem, UNKNOWN_TS};
use crate::scope::{folder_prefix, normalize_chars, normalized_path, SearchScope};
use crate::text::{chars_start_with, starts_with, to_chars};

verus! {

/// Whether a path lies below a folder.
pub open spec fn lies_in_folder(path: Seq<char>, folder: Seq<char>) -> bool {
    starts_with(normalized_path(path), folder_prefix(folder))
}

/// Of the first `n` items those that lie below the folder, in their order.
pub open spec fn items_in_folder(items: Seq<ItemView>, folder: Seq<char>, n: nat) -> Seq<ItemView>
    decreases n,
{
    if n == 0 || n > items.len() {
        Seq::empty()
    } else if lies_in_folder(items[n - 1].path, folder) {
        items_in_folder(items, folder, (n - 1) as nat).push(items[n - 1])
    } else {
        items_in_folder(items, folder, (n - 1) as nat)
    }
}

/// What a scope keeps of the items of a volume: for the current folder the
/// items below the folder `root`, and for every other scope all of them.
pub open spec fn scope_items(items: Seq<ItemView>, scope: SearchScope, root: Seq<char>) -> Seq<
    ItemView,
> {
    if scope == SearchScope::CurrentFolder {
        items_in_folder(items, root, items.len())
    } else {
        items
    }
}

/// Keeps the items of a volume that belong to a scope.
pub fn keep_scope_items(items: Vec<SearchItem>, scope: &SearchScope, root: &str) -> (r: Vec<
    SearchItem,
>)
    ensures
        item_views(r@) == scope_items(item_views(items@), *scope, root@),
{
    match scope {
        SearchScope::CurrentFolder => {},
        _ => {
            return items;
        },
    }
    let ghost views = item_views(items@);
    let root_chars = to_chars(root);
    let mut prefix = normalize_chars(&root_chars);
    if !(prefix.len() > 0 && prefix[prefix.len() - 1] == '\\') {
        prefix.push('\\');
    }
    assert(prefix@ =~= folder_prefix(root@));
    let mut items = items;
    let n = items.len();
    let mut out: Vec<SearchItem> = Vec::new();
    let mut i: usize = 0;
    assert(item_views(out@) =~= items_in_folder(views, root@, 0));
    while i < n
        invariant
            i <= n,
            n == items.len(),
            n == views.len(),
            prefix@ == folder_prefix(root@),
            forall|k: int| i <= k < n ==> (#[trigger] items[k])@ == views[k],
            item_views(out@) == items_in_folder(views, root@, i as nat),
        decreases n - i,
    {
        let path = to_chars(items[i].path.as_str());
        let normalized = normalize_chars(&path);
        if chars_start_with(&normalized, &prefix) {
            let mut item = SearchItem { path: String::new(), modified_unix_secs: 0 };
            core::mem::swap(&mut items[i], &mut item);
            let ghost before = item_views(out@);
            out.push(item);
            assert(item_views(out@) =~= before.push(views[i as int]));
        }
        i += 1;
    }
    out
}

/// After how many walked files a walk reports how far it has come.
pub const WALK_PROGRESS_EVERY: usize = 500;

/// After how many records an enumeration of a volume reports how far it
/// has come.
pub const ENUMERATION_PROGRESS_EVERY: usize = 5000;

/// What an index job does with one root of its scope.
#[derive(Debug, Clone, Copy, PartialEq, Eq)]
pub enum RootAction {
    /// The items of the root's volume are taken.
    UseVolume,
    /// The folders below the root are walked.
    Walk,
    /// The root gives nothing.
    Skip,
}

/// What an index job does with a root: it takes the items of the volume
/// where the volume could be read; else it walks the folders, where that is
/// allowed; else the root gives nothing.
pub fn root_action(volume_read: bool, allow_dirwalk_fallback: bool) -> (r: RootAction)
    ensures
        r == if volume_read {
            RootAction::UseVolume
        } else if allow_dirwalk_fallback {
            RootAction::Walk
        } else {
            RootAction::Skip
        },
{
    if volume_read {
        RootAction::UseVolume
    } else if allow_dirwalk_fallback {
        RootAction::Walk
    } else {
        RootAction::Skip
    }
}

/// The item for a file that a walk has found: nothing is known of when the
/// file was changed.
pub fn walked_item(path: String) -> (r: SearchItem)
    ensures
        r@ == (ItemView { path: path@, modified_unix_secs: UNKNOWN_TS }),
{
    SearchItem { path, modified_unix_secs: UNKNOWN_TS }
}

/// Whether a walk that has found `scanned` files reports how far it has
/// come: after every 500 files.
pub fn walk_progress_due(scanned: usize) -> (r: bool)
    ensures
        r == (scanned % WALK_PROGRESS_EVERY == 0),
{
    scanned % WALK_PROGRESS_EVERY == 0
}

/// Whether an enumeration whose count of nodes went from `before` to
/// `after` with one buffer reports how far it has come: whenever the count
/// has reached or passed a multiple of 5000.
pub fn enumeration_progress_due(before: usize, after: usize) -> (r: bool)
    ensures
        r == (after / ENUMERATION_PROGRESS_EVERY > before / ENUMERATION_PROGRESS_EVERY),
{
    after / ENUMERATION_PROGRESS_EVERY > before / ENUMERATION_PROGRESS_EVERY
}

/// The last progress of an index job that has found `scanned` files: all
/// of them are done, out of as many, and out of one where none was found.
pub fn closing_progress(scanned: usize) -> (r: (usize, usize))
    ensures
        r.0 == scanned,
        r.1 == if scanned == 0 {
            1
        } else {
            scanned
        },
{
    if scanned == 0 {
        (0, 1)
    } else {
        (scanned, scanned)
    }
}

} // verus!
