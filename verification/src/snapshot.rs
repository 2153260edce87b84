//! Snapshots of the corpus: what is written after an index run and read
//! back at the next start, and their encoding as bytes.

use vstd::bytes::{spec_u32_to_le_bytes, spec_u64_to_le_bytes};
use vstd::prelude::*;
use vstd::string::*;
use vstd::utf8::encode_utf8;
use crate::item::{item_views, ItemView, SearchItem};
use crate::scope::SearchScope;
use crate::text::{append_chars, chars_eq, lower, string_of, to_chars, trim, trim_chars};

verus! {

/// The version of the snapshot format.
pub const SNAPSHOT_VERSION: u32 = 1;

/// One file of a snapshot.
#[derive(Debug)]
pub struct SnapshotItem {
    pub path: String,
    pub modified_unix_secs: i64,
}

impl View for SnapshotItem {
    type V = ItemView;

    open spec fn view(&self) -> ItemView {
        ItemView { path: self.path@, modified_unix_secs: self.modified_unix_secs }
    }
}

pub open spec fn snapshot_item_views(items: Seq<SnapshotItem>) -> Seq<ItemView> {
    Seq::new(items.len(), |i: int| items[i]@)
}

/// The corpus of one scope as it is kept between runs.
#[derive(Debug)]
pub struct ScopeIndexSnapshot {
    pub version: u32,
    pub scope: String,
    pub items: Vec<SnapshotItem>,
}

/// What a [`ScopeIndexSnapshot`] stands for.
pub ghost struct SnapshotView {
    pub version: u32,
    pub scope: Seq<char>,
    pub items: Seq<ItemView>,
}

impl View for ScopeIndexSnapshot {
    type V = SnapshotView;

    open spec fn view(&self) -> SnapshotView {
        SnapshotView {
            version: self.version,
            scope: self.scope@,
            items: snapshot_item_views(self.items@),
        }
    }
}

/// The snapshot of a scope with the given items.
pub open spec fn snapshot_of(scope: SearchScope, items: Seq<ItemView>) -> SnapshotView {
    SnapshotView { version: SNAPSHOT_VERSION, scope: scope.label_text(), items }
}

/// The items that a snapshot gives for a scope: its items, where it is of
/// version 1 and of that scope, and nothing otherwise.
pub open spec fn accepted_items(snapshot: SnapshotView, scope: SearchScope) -> Option<Seq<ItemView>> {
    if snapshot.version == SNAPSHOT_VERSION && snapshot.scope == scope.label_text() {
        Some(snapshot.items)
    } else {
        None
    }
}

/// A snapshot that was made for a scope gives its items back for that
/// scope, and a snapshot made of them again is the same snapshot.
pub proof fn lemma_snapshot_round_trip(scope: SearchScope, items: Seq<ItemView>)
    ensures
        accepted_items(snapshot_of(scope, items), scope) == Some(items),
        snapshot_of(scope, accepted_items(snapshot_of(scope, items), scope)->0) == snapshot_of(
            scope,
            items,
        ),
{
}

/// A snapshot of another version gives nothing, whatever the scope.
pub proof fn lemma_other_version_rejected(snapshot: SnapshotView, scope: SearchScope)
    requires
        snapshot.version != SNAPSHOT_VERSION,
    ensures
        accepted_items(snapshot, scope) is None,
{
}

impl ScopeIndexSnapshot {
    /// The snapshot of a scope with the given items.
    pub fn new(scope: &SearchScope, items: Vec<SearchItem>) -> (r: Self)
        ensures
            r@ == snapshot_of(*scope, item_views(items@)),
    {
        let ghost views = item_views(items@);
        let mut items = items;
        let n = items.len();
        let mut out: Vec<SnapshotItem> = Vec::new();
        let mut i: usize = 0;
        while i < n
            invariant
                i <= n,
                n == items.len(),
                n == views.len(),
                forall|k: int| i <= k < n ==> (#[trigger] items[k])@ == views[k],
                snapshot_item_views(out@) == views.take(i as int),
            decreases n - i,
        {
            let mut path = String::new();
            core::mem::swap(&mut items[i].path, &mut path);
            let ghost before = snapshot_item_views(out@);
            let item = SnapshotItem { path, modified_unix_secs: items[i].modified_unix_secs };
            out.push(item);
            assert(snapshot_item_views(out@) =~= before.push(views[i as int]));
            i += 1;
            assert(snapshot_item_views(out@) =~= views.take(i as int));
        }
        assert(views.take(n as int) =~= views);
        ScopeIndexSnapshot { version: SNAPSHOT_VERSION, scope: scope.label(), items: out }
    }

    /// The items of the snapshot, if it is of version 1 and of the given
    /// scope.
    pub fn into_items(self, scope: &SearchScope) -> (r: Option<Vec<SearchItem>>)
        ensures
            match r {
                Some(items) => accepted_items(self@, *scope) == Some(item_views(items@)),
                None => accepted_items(self@, *scope) is None,
            },
    {
        if self.version != SNAPSHOT_VERSION || self.scope != scope.label() {
            return None;
        }
        let ghost views = snapshot_item_views(self.items@);
        let mut items = self.items;
        let n = items.len();
        let mut out: Vec<SearchItem> = Vec::new();
        let mut i: usize = 0;
        while i < n
            invariant
                i <= n,
                n == items.len(),
                n == views.len(),
                forall|k: int| i <= k < n ==> (#[trigger] items[k])@ == views[k],
                item_views(out@) == views.take(i as int),
            decreases n - i,
        {
            let mut path = String::new();
            core::mem::swap(&mut items[i].path, &mut path);
            let ghost before = item_views(out@);
            let item = SearchItem { path, modified_unix_secs: items[i].modified_unix_secs };
            out.push(item);
            assert(item_views(out@) =~= before.push(views[i as int]));
            i += 1;
            assert(item_views(out@) =~= views.take(i as int));
        }
        assert(views.take(n as int) =~= views);
        Some(out)
    }
}

/// The bytes of a text: the length of its UTF-8 form as a 64-bit number,
/// low byte first, and then the UTF-8 form.
pub open spec fn wire_text(text: Seq<char>) -> Seq<u8> {
    spec_u64_to_le_bytes(encode_utf8(text).len() as u64) + encode_utf8(text)
}

/// The bytes of an item: its path as a text, and its time as a 64-bit
/// number in two's complement, low byte first.
pub open spec fn wire_item(item: ItemView) -> Seq<u8> {
    wire_text(item.path) + spec_u64_to_le_bytes(item.modified_unix_secs as u64)
}

/// The bytes of the first `n` items, one after the other.
pub open spec fn wire_items(items: Seq<ItemView>, n: nat) -> Seq<u8>
    decreases n,
{
    if n == 0 || n > items.len() {
        Seq::empty()
    } else {
        wire_items(items, (n - 1) as nat) + wire_item(items[n - 1])
    }
}

/// The bytes of a snapshot: the version as a 32-bit number, low byte first,
/// the scope as a text, the number of items as a 64-bit number, low byte
/// first, and the items.
pub open spec fn snapshot_wire(snapshot: SnapshotView) -> Seq<u8> {
    spec_u32_to_le_bytes(snapshot.version) + wire_text(snapshot.scope) + spec_u64_to_le_bytes(
        snapshot.items.len() as u64,
    ) + wire_items(snapshot.items, snapshot.items.len())
}

/// Whether `bytes` begin with `head`.
pub open spec fn begins_with(bytes: Seq<u8>, head: Seq<u8>) -> bool {
    head.len() <= bytes.len() && bytes.take(head.len() as int) == head
}

/// Whether the length of a text's UTF-8 form can be written as a 64-bit
/// number.
pub open spec fn text_fits(text: Seq<char>) -> bool {
    encode_utf8(text).len() <= u64::MAX
}

/// Whether every length in a snapshot can be written as a 64-bit number.
pub open spec fn snapshot_fits(snapshot: SnapshotView) -> bool {
    &&& text_fits(snapshot.scope)
    &&& snapshot.items.len() <= u64::MAX
    &&& forall|i: int| 0 <= i < snapshot.items.len() ==> text_fits(#[trigger] snapshot.items[i].path)
}

/// Whether `loaded` is what bytes give for a scope: the items that the
/// snapshot at their beginning gives for the scope, and nothing where they
/// begin with no snapshot.
pub open spec fn loads_as(bytes: Seq<u8>, scope: SearchScope, loaded: Option<Seq<ItemView>>) -> bool {
    &&& forall|snapshot: SnapshotView|
        snapshot_fits(snapshot) && begins_with(bytes, #[trigger] snapshot_wire(snapshot))
            ==> loaded == accepted_items(snapshot, scope)
    &&& (forall|snapshot: SnapshotView| !begins_with(bytes, #[trigger] snapshot_wire(snapshot)))
        ==> loaded is None
}

/// The items of a loaded list, or nothing.
pub open spec fn loaded_views(loaded: Option<Vec<SearchItem>>) -> Option<Seq<ItemView>> {
    match loaded {
        Some(items) => Some(item_views(items@)),
        None => None,
    }
}

/// Takes the measure of a snapshot in memory: each of its lengths is a
/// length of something held in memory.
fn measure(snapshot: &ScopeIndexSnapshot)
    ensures
        snapshot_fits(snapshot@),
{
    let scope_len = snapshot.scope.as_str().as_bytes().len();
    let mut i: usize = 0;
    while i < snapshot.items.len()
        invariant
            i <= snapshot.items.len(),
            forall|k: int| 0 <= k < i ==> text_fits(#[trigger] snapshot@.items[k].path),
        decreases snapshot.items.len() - i,
    {
        let path_len = snapshot.items[i].path.as_str().as_bytes().len();
        assert(snapshot@.items[i as int].path == snapshot.items[i as int].path@);
        i += 1;
    }
}

/// Encodes a snapshot with `bincode::serialize`, which writes the fields in
/// their order, numbers in their full width with the low byte first, and
/// before every text and every list its length as a 64-bit number. Into a
/// vector of bytes, with no size limit set and every length known, it does
/// not fail.
#[verifier::external_body]
fn bincode_serialize_snapshot(snapshot: &ScopeIndexSnapshot) -> (r: Option<Vec<u8>>)
    ensures
        r is Some,
        r matches Some(bytes) ==> bytes@ == snapshot_wire(snapshot@),
{
    let items: Vec<(&str, i64)> = snapshot.items.iter().map(
        |item| (item.path.as_str(), item.modified_unix_secs),
    ).collect();
    bincode::serialize(&(snapshot.version, snapshot.scope.as_str(), items)).ok()
}

/// Decodes a snapshot with `bincode::deserialize`, which reads what
/// `bincode::serialize` writes and ignores the bytes that follow. It
/// succeeds exactly where the bytes begin with the bytes of a snapshot, and
/// then gives a snapshot whose bytes they begin with.
#[verifier::external_body]
fn bincode_deserialize_snapshot(bytes: &[u8]) -> (r: Option<ScopeIndexSnapshot>)
    ensures
        r matches Some(snapshot) ==> begins_with(bytes@, snapshot_wire(snapshot@)),
        r is None ==> forall|snapshot: SnapshotView| !begins_with(bytes@, #[trigger] snapshot_wire(snapshot)),
{
    match bincode::deserialize::<(u32, String, Vec<(String, i64)>)>(bytes) {
        Ok((version, scope, items)) => Some(
            ScopeIndexSnapshot {
                version,
                scope,
                items: items.into_iter().map(
                    |(path, modified_unix_secs)| SnapshotItem { path, modified_unix_secs },
                ).collect(),
            },
        ),
        Err(_) => None,
    }
}

/// The bytes of a snapshot: every snapshot has them.
pub fn encode_scope_snapshot(snapshot: &ScopeIndexSnapshot) -> (r: Option<Vec<u8>>)
    ensures
        r is Some,
        r matches Some(bytes) ==> bytes@ == snapshot_wire(snapshot@),
{
    bincode_serialize_snapshot(snapshot)
}

/// The snapshot that bytes begin with, if they begin with one.
pub fn decode_scope_snapshot(bytes: &[u8]) -> (r: Option<ScopeIndexSnapshot>)
    ensures
        r matches Some(snapshot) ==> begins_with(bytes@, snapshot_wire(snapshot@)),
        r is None ==> forall|snapshot: SnapshotView| !begins_with(bytes@, #[trigger] snapshot_wire(snapshot)),
{
    bincode_deserialize_snapshot(bytes)
}

/// The items that the bytes of a snapshot file give for a scope: the items
/// of the snapshot that the bytes begin with, where that is of version 1
/// and of the scope. Bytes that do not begin with a snapshot give nothing,
/// and so does a snapshot of another version or of another scope.
pub fn load_scope_snapshot(bytes: &[u8], scope: &SearchScope) -> (r: Option<Vec<SearchItem>>)
    ensures
        loads_as(bytes@, *scope, loaded_views(r)),
{
    let decoded = decode_scope_snapshot(bytes);
    proof {
        if decoded is Some {
            assert(begins_with(bytes@, snapshot_wire(decoded->0@)));
        }
    }
    match decoded {
        Some(snapshot) => {
            measure(&snapshot);
            let ghost view = snapshot@;
            let r = snapshot.into_items(scope);
            proof {
                assert forall|other: SnapshotView|
                    snapshot_fits(other) && begins_with(
                        bytes@,
                        #[trigger] snapshot_wire(other),
                    ) implies loaded_views(r) == accepted_items(other, *scope) by {
                    crate::snapshot_laws::lemma_snapshot_unique(bytes@, other, view);
                }
            }
            r
        },
        None => None,
    }
}

/// The name of the snapshot file of a scope.
pub open spec fn snapshot_file_name_text(scope: SearchScope) -> Seq<char> {
    "scope-"@ + scope.label_text() + ".bin"@
}

pub fn scope_snapshot_file_name(scope: &SearchScope) -> (r: String)
    ensures
        r@ == snapshot_file_name_text(*scope),
{
    let mut out = to_chars("scope-");
    let label = to_chars(scope.label().as_str());
    append_chars(&mut out, &label);
    let end = to_chars(".bin");
    append_chars(&mut out, &end);
    string_of(&out)
}

/// Whether the stored text says that the quick help was dismissed: it is
/// `1`, white space around it apart.
pub fn quick_help_dismissed(content: &str) -> (r: bool)
    ensures
        r == (trim(content@) == "1"@),
{
    let chars = to_chars(content);
    let trimmed = trim_chars(&chars);
    let one = to_chars("1");
    chars_eq(&trimmed, &one)
}

/// The text stored for whether the quick help was dismissed.
pub fn quick_help_text(dismissed: bool) -> (r: &'static str)
    ensures
        r@ == if dismissed {
            "1"@
        } else {
            "0"@
        },
{
    if dismissed {
        "1"
    } else {
        "0"
    }
}

} // verus!
