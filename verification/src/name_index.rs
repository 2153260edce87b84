//! A map from names to lists of positions, filled one position at a time.

use vstd::hash_map::StringHashMap;
use vstd::prelude::*;

verus! {

/// A map with one more position under a key: appended to the key's list, or
/// as a list of its own where the key is new.
pub open spec fn with_position(
    m: Map<Seq<char>, Seq<usize>>,
    key: Seq<char>,
    position: usize,
) -> Map<Seq<char>, Seq<usize>> {
    m.insert(
        key,
        if m.contains_key(key) {
            m[key].push(position)
        } else {
            seq![position]
        },
    )
}

/// Lists of positions by name. Each name has a slot, and each slot holds the
/// positions recorded under its name, in the order in which they came.
pub struct NameIndex {
    pub slots: StringHashMap<usize>,
    pub lists: Vec<Vec<usize>>,
}

impl NameIndex {
    /// Every name has a slot of its own.
    pub open spec fn wf(&self) -> bool {
        &&& forall|k: Seq<char>| #[trigger]
            self.slots@.contains_key(k) ==> self.slots@[k] < self.lists.len()
        &&& forall|k1: Seq<char>, k2: Seq<char>|
            self.slots@.contains_key(k1) && self.slots@.contains_key(k2) && k1 != k2
                ==> self.slots@[k1] != self.slots@[k2]
    }

    pub open spec fn view(&self) -> Map<Seq<char>, Seq<usize>> {
        Map::new(
            |k: Seq<char>| self.slots@.contains_key(k),
            |k: Seq<char>| self.lists[self.slots@[k] as int]@,
        )
    }

    pub fn new() -> (r: Self)
        ensures
            r.wf(),
            r@ == Map::<Seq<char>, Seq<usize>>::empty(),
    {
        let r = NameIndex { slots: StringHashMap::new(), lists: Vec::new() };
        assert(r@ =~= Map::<Seq<char>, Seq<usize>>::empty());
        r
    }

    pub fn clear(&mut self)
        ensures
            final(self).wf(),
            final(self)@ == Map::<Seq<char>, Seq<usize>>::empty(),
    {
        self.slots.clear();
        self.lists.clear();
        assert(self@ =~= Map::<Seq<char>, Seq<usize>>::empty());
    }

    /// Records one more position under a name.
    pub fn add(&mut self, key: String, position: usize)
        requires
            old(self).wf(),
        ensures
            final(self).wf(),
            final(self)@ == with_position(old(self)@, key@, position),
    {
        let found: Option<usize> = match self.slots.get(key.as_str()) {
            Some(slot) => Some(*slot),
            None => None,
        };
        match found {
            Some(slot) => {
                self.lists[slot].push(position);
                assert(self@ =~= with_position(old(self)@, key@, position));
            },
            None => {
                let slot = self.lists.len();
                let mut list: Vec<usize> = Vec::new();
                list.push(position);
                self.lists.push(list);
                self.slots.insert(key, slot);
                assert(self@ =~= with_position(old(self)@, key@, position));
            },
        }
    }

    /// The positions recorded under a name.
    pub fn get(&self, key: &str) -> (r: Option<&Vec<usize>>)
        requires
            self.wf(),
        ensures
            match r {
                Some(list) => self@.contains_key(key@) && list@ == self@[key@],
                None => !self@.contains_key(key@),
            },
    {
        match self.slots.get(key) {
            Some(slot) => Some(&self.lists[*slot]),
            None => None,
        }
    }
}

} // verus!
