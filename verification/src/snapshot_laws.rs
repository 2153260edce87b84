//! What holds of the bytes of snapshots: no two snapshots begin the same
//! bytes.

use vstd::bytes::{
    lemma_auto_spec_u32_to_from_le_bytes, lemma_auto_spec_u64_to_from_le_bytes,
    spec_u32_from_le_bytes, spec_u32_to_le_bytes, spec_u64_from_le_bytes, spec_u64_to_le_bytes,
};
use vstd::prelude::*;
use vstd::utf8::{decode_utf8, encode_utf8, encode_utf8_decode_utf8};
use crate::item::ItemView;
use crate::scope::SearchScope;
use crate::snapshot::{
    accepted_items, begins_with, loads_as, snapshot_fits, snapshot_of, snapshot_wire, text_fits,
    wire_item, wire_items, wire_text, SnapshotView,
};

verus! {

/// Whether `piece` stands in `bytes` at the position `at`.
pub open spec fn holds_at(bytes: Seq<u8>, at: int, piece: Seq<u8>) -> bool {
    0 <= at && at + piece.len() <= bytes.len() && bytes.subrange(at, at + piece.len()) == piece
}

proof fn lemma_split(bytes: Seq<u8>, at: int, a: Seq<u8>, b: Seq<u8>)
    requires
        holds_at(bytes, at, a + b),
    ensures
        holds_at(bytes, at, a),
        holds_at(bytes, at + a.len(), b),
{
    let w = a + b;
    let whole = bytes.subrange(at, at + w.len());
    assert forall|i: int| 0 <= i < a.len() implies bytes.subrange(at, at + a.len())[i] == a[i] by {
        assert(whole[i] == w[i]);
    }
    assert(bytes.subrange(at, at + a.len()) =~= a);
    assert forall|i: int| 0 <= i < b.len() implies bytes.subrange(
        at + a.len(),
        at + a.len() + b.len(),
    )[i] == b[i] by {
        assert(whole[a.len() + i] == w[a.len() + i]);
    }
    assert(bytes.subrange(at + a.len(), at + a.len() + b.len()) =~= b);
}

proof fn lemma_number_unique(bytes: Seq<u8>, at: int, x: u64, y: u64)
    requires
        holds_at(bytes, at, spec_u64_to_le_bytes(x)),
        holds_at(bytes, at, spec_u64_to_le_bytes(y)),
    ensures
        x == y,
{
    lemma_auto_spec_u64_to_from_le_bytes();
    assert(spec_u64_to_le_bytes(x).len() == 8);
    assert(spec_u64_to_le_bytes(y).len() == 8);
    assert(spec_u64_from_le_bytes(spec_u64_to_le_bytes(x)) == x);
    assert(spec_u64_from_le_bytes(spec_u64_to_le_bytes(y)) == y);
}

proof fn lemma_text_unique(bytes: Seq<u8>, at: int, s1: Seq<char>, s2: Seq<char>)
    requires
        holds_at(bytes, at, wire_text(s1)),
        holds_at(bytes, at, wire_text(s2)),
        text_fits(s1),
        text_fits(s2),
    ensures
        s1 == s2,
{
    lemma_auto_spec_u64_to_from_le_bytes();
    let n1 = encode_utf8(s1).len();
    let n2 = encode_utf8(s2).len();
    lemma_split(bytes, at, spec_u64_to_le_bytes(n1 as u64), encode_utf8(s1));
    lemma_split(bytes, at, spec_u64_to_le_bytes(n2 as u64), encode_utf8(s2));
    lemma_number_unique(bytes, at, n1 as u64, n2 as u64);
    assert(n1 == n2);
    assert(spec_u64_to_le_bytes(n1 as u64).len() == 8);
    assert(encode_utf8(s1) == encode_utf8(s2));
    encode_utf8_decode_utf8(s1);
    encode_utf8_decode_utf8(s2);
}

proof fn lemma_time_unique(t1: i64, t2: i64)
    requires
        t1 as u64 == t2 as u64,
    ensures
        t1 == t2,
{
    assert(t1 == t2) by (bit_vector)
        requires
            t1 as u64 == t2 as u64,
    ;
}

proof fn lemma_item_unique(bytes: Seq<u8>, at: int, a: ItemView, b: ItemView)
    requires
        holds_at(bytes, at, wire_item(a)),
        holds_at(bytes, at, wire_item(b)),
        text_fits(a.path),
        text_fits(b.path),
    ensures
        a == b,
{
    lemma_split(bytes, at, wire_text(a.path), spec_u64_to_le_bytes(a.modified_unix_secs as u64));
    lemma_split(bytes, at, wire_text(b.path), spec_u64_to_le_bytes(b.modified_unix_secs as u64));
    lemma_text_unique(bytes, at, a.path, b.path);
    lemma_number_unique(
        bytes,
        at + wire_text(a.path).len(),
        a.modified_unix_secs as u64,
        b.modified_unix_secs as u64,
    );
    lemma_time_unique(a.modified_unix_secs, b.modified_unix_secs);
}

proof fn lemma_items_unique(bytes: Seq<u8>, at: int, a: Seq<ItemView>, b: Seq<ItemView>, n: nat)
    requires
        n <= a.len(),
        n <= b.len(),
        holds_at(bytes, at, wire_items(a, n)),
        holds_at(bytes, at, wire_items(b, n)),
        forall|i: int| 0 <= i < a.len() ==> text_fits(#[trigger] a[i].path),
        forall|i: int| 0 <= i < b.len() ==> text_fits(#[trigger] b[i].path),
    ensures
        a.take(n as int) == b.take(n as int),
        wire_items(a, n).len() == wire_items(b, n).len(),
    decreases n,
{
    if n == 0 {
        assert(a.take(0) =~= b.take(0));
    } else {
        let m = (n - 1) as nat;
        lemma_split(bytes, at, wire_items(a, m), wire_item(a[n - 1]));
        lemma_split(bytes, at, wire_items(b, m), wire_item(b[n - 1]));
        lemma_items_unique(bytes, at, a, b, m);
        lemma_item_unique(bytes, at + wire_items(a, m).len(), a[n - 1], b[n - 1]);
        assert(a.take(n as int) =~= a.take(m as int).push(a[n - 1]));
        assert(b.take(n as int) =~= b.take(m as int).push(b[n - 1]));
    }
}

/// Bytes begin with the bytes of one snapshot at most.
pub proof fn lemma_snapshot_unique(bytes: Seq<u8>, a: SnapshotView, b: SnapshotView)
    requires
        begins_with(bytes, snapshot_wire(a)),
        begins_with(bytes, snapshot_wire(b)),
        snapshot_fits(a),
        snapshot_fits(b),
    ensures
        a == b,
{
    lemma_auto_spec_u32_to_from_le_bytes();
    lemma_auto_spec_u64_to_from_le_bytes();
    assert(bytes.take(snapshot_wire(a).len() as int) =~= bytes.subrange(
        0,
        0 + snapshot_wire(a).len() as int,
    ));
    assert(bytes.take(snapshot_wire(b).len() as int) =~= bytes.subrange(
        0,
        0 + snapshot_wire(b).len() as int,
    ));
    let va = spec_u32_to_le_bytes(a.version);
    let vb = spec_u32_to_le_bytes(b.version);
    let ca = spec_u64_to_le_bytes(a.items.len() as u64);
    let cb = spec_u64_to_le_bytes(b.items.len() as u64);
    lemma_split(bytes, 0, va + wire_text(a.scope) + ca, wire_items(a.items, a.items.len()));
    lemma_split(bytes, 0, vb + wire_text(b.scope) + cb, wire_items(b.items, b.items.len()));
    lemma_split(bytes, 0, va + wire_text(a.scope), ca);
    lemma_split(bytes, 0, vb + wire_text(b.scope), cb);
    lemma_split(bytes, 0, va, wire_text(a.scope));
    lemma_split(bytes, 0, vb, wire_text(b.scope));
    assert(va.len() == 4 && vb.len() == 4);
    assert(spec_u32_from_le_bytes(va) == a.version);
    assert(spec_u32_from_le_bytes(vb) == b.version);
    assert(a.version == b.version);
    lemma_text_unique(bytes, 4, a.scope, b.scope);
    let at: int = 4 + wire_text(a.scope).len() as int;
    lemma_number_unique(bytes, at, a.items.len() as u64, b.items.len() as u64);
    assert(a.items.len() == b.items.len());
    assert(ca.len() == 8);
    lemma_items_unique(bytes, at + 8, a.items, b.items, a.items.len());
    assert(a.items.take(a.items.len() as int) =~= a.items);
    assert(b.items.take(b.items.len() as int) =~= b.items);
}

/// What was written for a scope is read back for that scope: bytes that
/// begin with the bytes of a snapshot made for a scope load as the items of
/// that snapshot, whatever follows them.
pub proof fn lemma_load_round_trip(
    scope: SearchScope,
    items: Seq<ItemView>,
    rest: Seq<u8>,
    loaded: Option<Seq<ItemView>>,
)
    requires
        snapshot_fits(snapshot_of(scope, items)),
        loads_as(snapshot_wire(snapshot_of(scope, items)) + rest, scope, loaded),
    ensures
        loaded == Some(items),
{
    let wire = snapshot_wire(snapshot_of(scope, items));
    assert((wire + rest).take(wire.len() as int) =~= wire);
    assert(begins_with(wire + rest, snapshot_wire(snapshot_of(scope, items))));
    assert(accepted_items(snapshot_of(scope, items), scope) == Some(items));
}

} // verus!
