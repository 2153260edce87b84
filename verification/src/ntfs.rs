//! The node graph of an NTFS volume: every file and directory by its record
//! id, with the id of its parent, and the paths that the graph gives.

use std::collections::HashMap;
use vstd::prelude::*;
use vstd::std_specs::iter::IteratorSpec;
use vstd::std_specs::hash::*;
use crate::text::{append_chars, join, join_chars, string_of, to_chars, views};

verus! {

broadcast use vstd::std_specs::hash::group_hash_axioms;

/// The largest number of names that a path is made of. It bounds the walk
/// towards the root where the graph has a cycle.
pub const MAX_PATH_DEPTH: usize = 1024;

/// One file or directory of a volume. The root is its own parent.
#[derive(Debug)]
pub struct NtfsNode {
    pub parent_id: u64,
    pub name: String,
    pub is_dir: bool,
    pub modified_unix_secs: i64,
    pub file_attributes: u32,
}

/// What an [`NtfsNode`] stands for.
pub ghost struct NodeView {
    pub parent_id: u64,
    pub name: Seq<char>,
    pub is_dir: bool,
    pub modified_unix_secs: i64,
    pub file_attributes: u32,
}

impl View for NtfsNode {
    type V = NodeView;

    open spec fn view(&self) -> NodeView {
        NodeView {
            parent_id: self.parent_id,
            name: self.name@,
            is_dir: self.is_dir,
            modified_unix_secs: self.modified_unix_secs,
            file_attributes: self.file_attributes,
        }
    }
}

impl Clone for NtfsNode {
    fn clone(&self) -> (r: Self)
        ensures
            r@ == self@,
    {
        NtfsNode {
            parent_id: self.parent_id,
            name: self.name.clone(),
            is_dir: self.is_dir,
            modified_unix_secs: self.modified_unix_secs,
            file_attributes: self.file_attributes,
        }
    }
}

impl NtfsNode {
    /// Whether two nodes say the same.
    pub fn same_as(&self, other: &NtfsNode) -> (r: bool)
        ensures
            r == (self@ == other@),
    {
        let same = self.parent_id == other.parent_id && self.name == other.name && self.is_dir
            == other.is_dir && self.modified_unix_secs == other.modified_unix_secs
            && self.file_attributes == other.file_attributes;
        same
    }
}

/// The graph as a map from record ids to what the nodes stand for.
pub open spec fn node_views(nodes: Map<u64, NtfsNode>) -> Map<u64, NodeView> {
    Map::new(|id: u64| nodes.contains_key(id), |id: u64| nodes[id]@)
}

/// The names on the way from a node towards the root, the node's own name
/// first. The walk ends at the root, at an id without a node, and after
/// `fuel` names.
pub open spec fn names_up(nodes: Map<u64, NodeView>, id: u64, fuel: nat) -> Seq<Seq<char>>
    decreases fuel,
{
    if fuel == 0 || !nodes.contains_key(id) {
        Seq::empty()
    } else if nodes[id].parent_id == id {
        seq![nodes[id].name]
    } else {
        seq![nodes[id].name] + names_up(nodes, nodes[id].parent_id, (fuel - 1) as nat)
    }
}

/// The full path of a node: the drive prefix, then the names from the root
/// down to the node with `\` between them.
pub open spec fn full_path(nodes: Map<u64, NodeView>, id: u64, drive_prefix: Seq<char>) -> Seq<
    char,
> {
    drive_prefix + join(names_up(nodes, id, MAX_PATH_DEPTH as nat).reverse(), seq!['\\'])
}

/// Every cached path is the full path of its node.
pub open spec fn cache_ok(
    cache: Map<u64, String>,
    nodes: Map<u64, NodeView>,
    drive_prefix: Seq<char>,
) -> bool {
    forall|id: u64| #[trigger]
        cache.contains_key(id) ==> cache[id]@ == full_path(nodes, id, drive_prefix)
}

/// The names of a list in reverse order.
pub fn reversed(parts: &Vec<Vec<char>>) -> (r: Vec<Vec<char>>)
    ensures
        views(r@) == views(parts@).reverse(),
{
    let mut r: Vec<Vec<char>> = Vec::new();
    let n = parts.len();
    let mut i: usize = 0;
    while i < n
        invariant
            i <= n,
            n == parts.len(),
            r.len() == i,
            forall|k: int| 0 <= k < i ==> (#[trigger] r[k])@ == parts[n - 1 - k]@,
        decreases n - i,
    {
        r.push(parts[n - 1 - i].clone());
        i += 1;
    }
    assert(views(r@) =~= views(parts@).reverse());
    r
}

/// The full path of a node, from the cache where it holds the node and
/// worked out from the graph otherwise; the cache then holds it.
pub fn materialize_full_path(
    id: u64,
    raw_nodes: &HashMap<u64, NtfsNode>,
    path_cache: &mut HashMap<u64, String>,
    drive_prefix: &str,
) -> (r: String)
    requires
        cache_ok(old(path_cache)@, node_views(raw_nodes@), drive_prefix@),
    ensures
        r@ == full_path(node_views(raw_nodes@), id, drive_prefix@),
        cache_ok(final(path_cache)@, node_views(raw_nodes@), drive_prefix@),
        final(path_cache)@.dom() == old(path_cache)@.dom().insert(id),
        forall|k: u64| #[trigger]
            old(path_cache)@.contains_key(k) ==> final(path_cache)@[k]@ == old(path_cache)@[k]@,
{
    let ghost nodes = node_views(raw_nodes@);
    match path_cache.get(&id) {
        Some(found) => {
            return found.clone();
        },
        None => {},
    }
    let mut parts: Vec<Vec<char>> = Vec::new();
    let mut current = id;
    let mut depth: usize = 0;
    assert(views(parts@) + names_up(nodes, id, MAX_PATH_DEPTH as nat) =~= names_up(
        nodes,
        id,
        MAX_PATH_DEPTH as nat,
    ));
    loop
        invariant_except_break
            names_up(nodes, id, MAX_PATH_DEPTH as nat) == views(parts@) + names_up(
                nodes,
                current,
                (MAX_PATH_DEPTH - depth) as nat,
            ),
        invariant
            depth <= MAX_PATH_DEPTH,
            nodes == node_views(raw_nodes@),
        ensures
            names_up(nodes, id, MAX_PATH_DEPTH as nat) == views(parts@),
        decreases MAX_PATH_DEPTH - depth,
    {
        if depth >= MAX_PATH_DEPTH {
            assert(views(parts@) + Seq::<Seq<char>>::empty() =~= views(parts@));
            break ;
        }
        let node = match raw_nodes.get(&current) {
            Some(node) => node,
            None => {
                assert(views(parts@) + Seq::<Seq<char>>::empty() =~= views(parts@));
                break ;
            },
        };
        assert(nodes[current] == node@);
        let ghost before = views(parts@);
        parts.push(to_chars(node.name.as_str()));
        assert(views(parts@) =~= before + seq![node@.name]);
        if node.parent_id == current {
            break ;
        }
        assert(before + (seq![node@.name] + names_up(
            nodes,
            node.parent_id,
            (MAX_PATH_DEPTH - depth - 1) as nat,
        )) =~= views(parts@) + names_up(
            nodes,
            node.parent_id,
            (MAX_PATH_DEPTH - depth - 1) as nat,
        ));
        current = node.parent_id;
        depth += 1;
    }
    let ordered = reversed(&parts);
    let mut separator: Vec<char> = Vec::new();
    separator.push('\\');
    assert(separator@ =~= seq!['\\']);
    let joined = join_chars(&ordered, &separator);
    let mut out = to_chars(drive_prefix);
    append_chars(&mut out, &joined);
    let path = string_of(&out);
    path_cache.insert(id, path.clone());
    assert(path_cache@.dom() =~= old(path_cache)@.dom().insert(id));
    path
}

/// The record ids of a graph, each once, in no particular order.
pub fn node_ids(nodes: &HashMap<u64, NtfsNode>) -> (r: Vec<u64>)
    ensures
        r@.no_duplicates(),
        r@.to_set() == nodes@.dom(),
{
    let mut r: Vec<u64> = Vec::new();
    let ghost all = spec_keys_iter(nodes).remaining().unref();
    for k in it: nodes.keys()
        invariant
            all == it.seq().unref(),
            r@ == all.take(it.index()),
            r.len() == it.index(),
    {
        r.push(*k);
        assert(r@ =~= all.take(it.index() + 1));
    }
    assert(r@ =~= all);
    r
}

/// Whether `child` is a node below `parent`: a node other than `parent`
/// whose parent is `parent`.
pub open spec fn is_child(nodes: Map<u64, NodeView>, child: u64, parent: u64) -> bool {
    nodes.contains_key(child) && nodes[child].parent_id == parent && child != parent
}

/// Whether `k` steps from a node to its parent lead from `x` to `root`.
pub open spec fn climbs(nodes: Map<u64, NodeView>, x: u64, root: u64, k: nat) -> bool
    decreases k,
{
    if k == 0 {
        x == root
    } else {
        is_child(nodes, x, nodes[x].parent_id) && climbs(
            nodes,
            nodes[x].parent_id,
            root,
            (k - 1) as nat,
        )
    }
}

/// Whether some number of steps from a node to its parent leads from `x`
/// to `root`.
pub open spec fn lies_below(nodes: Map<u64, NodeView>, x: u64, root: u64) -> bool {
    exists|k: nat| climbs(nodes, x, root, k)
}

/// The node `root` together with all that lies below it. It is empty where
/// the graph has no node `root`.
pub open spec fn subtree(nodes: Map<u64, NodeView>, root: u64) -> Set<u64> {
    Set::new(|x: u64| nodes.contains_key(root) && lies_below(nodes, x, root))
}

/// A list with one more entry holds what it held and the new entry.
proof fn lemma_pushed_set(list: Seq<u64>, x: u64)
    ensures
        list.push(x).to_set() == list.to_set().insert(x),
{
    let now = list.push(x);
    assert forall|y: u64| now.to_set().contains(y) <==> list.to_set().insert(x).contains(y) by {
        if now.contains(y) {
            let i = choose|i: int| 0 <= i < now.len() && now[i] == y;
            if i < list.len() {
                assert(list[i] == y);
            }
        }
        if list.contains(y) {
            let i = choose|i: int| 0 <= i < list.len() && list[i] == y;
            assert(now[i] == y);
        }
        assert(now[list.len() as int] == x);
    }
    assert(now.to_set() =~= list.to_set().insert(x));
}

/// A list that holds the root and, with every node it holds, the nodes
/// below that node, holds the whole subtree.
proof fn lemma_closed_list(nodes: Map<u64, NodeView>, root: u64, list: Seq<u64>, x: u64, k: nat)
    requires
        list.contains(root),
        forall|i: int, c: u64|
            0 <= i < list.len() && is_child(nodes, c, #[trigger] list[i]) ==> #[trigger] list.contains(c),
        climbs(nodes, x, root, k),
    ensures
        list.contains(x),
    decreases k,
{
    if k > 0 {
        let p = nodes[x].parent_id;
        lemma_closed_list(nodes, root, list, p, (k - 1) as nat);
        let i = choose|i: int| 0 <= i < list.len() && list[i] == p;
        assert(is_child(nodes, x, list[i]));
    }
}

/// Takes a node and all that lies below it out of the graph. Returns the
/// record ids taken out, each once, the node's own id first. Nothing happens
/// where the graph has no such node.
pub fn remove_ntfs_node_and_descendants(nodes: &mut HashMap<u64, NtfsNode>, id: u64) -> (removed:
    Vec<u64>)
    ensures
        removed@.no_duplicates(),
        removed@.to_set() == subtree(node_views(old(nodes)@), id),
        final(nodes)@ == old(nodes)@.remove_keys(subtree(node_views(old(nodes)@), id)),
        old(nodes)@.contains_key(id) ==> removed@.len() > 0 && removed@[0] == id,
        !old(nodes)@.contains_key(id) ==> removed@.len() == 0,
{
    let ghost graph = node_views(old(nodes)@);
    let mut work: Vec<u64> = Vec::new();
    if !nodes.contains_key(&id) {
        assert(work@.to_set() =~= subtree(graph, id));
        assert(nodes@ =~= old(nodes)@.remove_keys(subtree(graph, id)));
        return work;
    }
    assert(nodes@.dom().finite());
    let ghost total = nodes@.dom().len();
    work.push(id);
    nodes.remove(&id);
    proof {
        assert(climbs(graph, id, id, 0));
        assert(lies_below(graph, id, id));
        lemma_pushed_set(Seq::<u64>::empty(), id);
        assert(work@ =~= Seq::<u64>::empty().push(id));
        assert(Seq::<u64>::empty().to_set() =~= Set::<u64>::empty());
        assert(nodes@ =~= old(nodes)@.remove_keys(work@.to_set()));
    }
    let mut index: usize = 0;
    while index < work.len()
        invariant
            index <= work.len(),
            graph == node_views(old(nodes)@),
            old(nodes)@.contains_key(id),
            old(nodes)@.dom().finite(),
            work@.len() > 0,
            work@[0] == id,
            work@.no_duplicates(),
            forall|i: int|
                0 <= i < work.len() ==> old(nodes)@.contains_key(#[trigger] work[i]) && lies_below(
                    graph,
                    work[i],
                    id,
                ),
            nodes@ == old(nodes)@.remove_keys(work@.to_set()),
            nodes@.dom().len() + work.len() == total,
            forall|i: int, c: u64|
                0 <= i < index && is_child(graph, c, #[trigger] work[i]) ==> #[trigger] work@.contains(
                    c,
                ),
        decreases total - index,
    {
        let parent = work[index];
        let ids = node_ids(nodes);
        let ghost before = nodes@;
        let ghost listed = work@;
        let mut j: usize = 0;
        while j < ids.len()
            invariant
                j <= ids.len(),
                index < work.len(),
                parent == work[index as int],
                graph == node_views(old(nodes)@),
                old(nodes)@.contains_key(id),
                old(nodes)@.dom().finite(),
                ids@.no_duplicates(),
                ids@.to_set() == before.dom(),
                before == old(nodes)@.remove_keys(listed.to_set()),
                work@.len() >= listed.len(),
                work@.take(listed.len() as int) == listed,
                work@[0] == id,
                work@.no_duplicates(),
                forall|i: int|
                    0 <= i < work.len() ==> old(nodes)@.contains_key(#[trigger] work[i])
                        && lies_below(graph, work[i], id),
                forall|i: int|
                    listed.len() <= i < work.len() ==> exists|k: int|
                        0 <= k < j && ids[k] == #[trigger] work[i],
                nodes@ == old(nodes)@.remove_keys(work@.to_set()),
                nodes@.dom().len() + work.len() == total,
                forall|k: int|
                    0 <= k < j && is_child(graph, #[trigger] ids[k], parent) ==> work@.contains(
                        ids[k],
                    ),
                forall|i: int, c: u64|
                    0 <= i < index && is_child(graph, c, #[trigger] work[i])
                        ==> #[trigger] work@.contains(c),
            decreases ids.len() - j,
        {
            let c = ids[j];
            assert(ids@.to_set().contains(c));
            assert(before.contains_key(c));
            assert(!work@.contains(c)) by {
                if work@.contains(c) {
                    let i = choose|i: int| 0 <= i < work.len() && work[i] == c;
                    if i < listed.len() {
                        assert(listed[i] == c);
                        assert(listed.to_set().contains(c));
                    } else {
                        let k = choose|k: int| 0 <= k < j && ids[k] == work[i];
                        assert(ids[k] == ids[j as int]);
                    }
                }
            }
            assert(nodes@.contains_key(c));
            let is_below = match nodes.get(&c) {
                Some(node) => node.parent_id == parent,
                None => false,
            };
            assert(nodes@[c] == old(nodes)@[c]);
            assert(is_below == (graph[c].parent_id == parent));
            if is_below {
                let ghost held = work@;
                let ghost kept = nodes@;
                nodes.remove(&c);
                work.push(c);
                proof {
                    lemma_pushed_set(held, c);
                    assert(nodes@ =~= old(nodes)@.remove_keys(work@.to_set()));
                    assert(nodes@.dom() =~= kept.dom().remove(c));
                    assert(c != parent) by {
                        assert(held[index as int] == parent);
                    }
                    assert(lies_below(graph, held[index as int], id));
                    let k0 = choose|k: nat| climbs(graph, parent, id, k);
                    assert(is_child(graph, c, graph[c].parent_id));
                    assert(climbs(graph, c, id, k0 + 1));
                    assert(lies_below(graph, c, id));
                    assert(work@.take(listed.len() as int) =~= listed);
                    assert forall|i: int, x: u64|
                        0 <= i < index && is_child(graph, x, #[trigger] work[i])
                        implies #[trigger] work@.contains(x) by {
                        assert(held[i] == work[i]);
                        assert(held.contains(x));
                        let m = choose|m: int| 0 <= m < held.len() && held[m] == x;
                        assert(work[m] == x);
                    }
                    assert forall|k: int|
                        0 <= k < j + 1 && is_child(graph, #[trigger] ids[k], parent)
                        implies work@.contains(ids[k]) by {
                        if k < j {
                            assert(held.contains(ids[k]));
                            let m = choose|m: int| 0 <= m < held.len() && held[m] == ids[k];
                            assert(work[m] == ids[k]);
                        } else {
                            assert(work[work.len() - 1] == c);
                        }
                    }
                    assert forall|i: int| listed.len() <= i < work.len() implies exists|k: int|
                        0 <= k < j + 1 && ids[k] == #[trigger] work[i] by {
                        if i < held.len() {
                            let k = choose|k: int| 0 <= k < j && ids[k] == held[i];
                            assert(0 <= k < j + 1 && ids[k] == work[i]);
                        } else {
                            assert(ids[j as int] == work[i]);
                        }
                    }
                }
            }
            j += 1;
        }
        proof {
            assert forall|c: u64| is_child(graph, c, parent) implies #[trigger] work@.contains(c) by {
                if listed.to_set().contains(c) {
                    let m = choose|m: int| 0 <= m < listed.len() && listed[m] == c;
                    assert(work@.take(listed.len() as int)[m] == c);
                    assert(work[m] == c);
                } else {
                    assert(before.contains_key(c));
                    assert(ids@.to_set().contains(c));
                    let k = choose|k: int| 0 <= k < ids.len() && ids[k] == c;
                    assert(is_child(graph, ids[k], parent));
                }
            }
        }
        index += 1;
    }
    proof {
        assert forall|x: u64| work@.to_set().contains(x) <==> subtree(graph, id).contains(x) by {
            if work@.to_set().contains(x) {
                let i = choose|i: int| 0 <= i < work.len() && work[i] == x;
                assert(lies_below(graph, work[i], id));
            }
            if subtree(graph, id).contains(x) {
                let k = choose|k: nat| climbs(graph, x, id, k);
                assert(work[0] == id);
                lemma_closed_list(graph, id, work@, x, k);
            }
        }
        assert(work@.to_set() =~= subtree(graph, id));
    }
    work
}

} // verus!
