//! The times at which paths were last seen to change.

use vstd::hash_map::StringHashMap;
use vstd::prelude::*;
use crate::item::{ItemView, SearchItem, UNKNOWN_TS};

verus! {

/// For each path that changed since the last full index, the time of the
/// change in seconds since 1970.
pub struct RecentEventMap {
    pub times: StringHashMap<i64>,
    pub paths: Vec<String>,
}

impl RecentEventMap {
    /// Every path that has a time is among the listed paths.
    pub open spec fn wf(&self) -> bool {
        forall|p: Seq<char>| #[trigger]
            self.times@.contains_key(p) ==> exists|i: int|
                0 <= i < self.paths.len() && (#[trigger] self.paths[i])@ == p
    }

    pub open spec fn view(&self) -> Map<Seq<char>, i64> {
        self.times@
    }

    pub fn new() -> (r: Self)
        ensures
            r.wf(),
            r@ == Map::<Seq<char>, i64>::empty(),
    {
        RecentEventMap { times: StringHashMap::new(), paths: Vec::new() }
    }

    pub fn clear(&mut self)
        ensures
            final(self).wf(),
            final(self)@ == Map::<Seq<char>, i64>::empty(),
    {
        self.times.clear();
        self.paths.clear();
    }

    /// Records the time of a change to a path.
    pub fn insert(&mut self, path: &str, time: i64)
        requires
            old(self).wf(),
        ensures
            final(self).wf(),
            final(self)@ == old(self)@.insert(path@, time),
    {
        if !self.times.contains_key(path) {
            self.paths.push(String::from_str(path));
        }
        self.times.insert(String::from_str(path), time);
        assert forall|p: Seq<char>| #[trigger] self.times@.contains_key(p) implies exists|i: int|
            0 <= i < self.paths.len() && (#[trigger] self.paths[i])@ == p by {
            if old(self).times@.contains_key(p) {
                let i = choose|i: int|
                    0 <= i < old(self).paths.len() && (#[trigger] old(self).paths[i])@ == p;
                assert(self.paths[i]@ == p);
            } else {
                assert(p == path@);
                assert(self.paths[self.paths.len() - 1]@ == p);
            }
        }
    }

    /// Forgets a path.
    pub fn remove(&mut self, path: &str)
        requires
            old(self).wf(),
        ensures
            final(self).wf(),
            final(self)@ == old(self)@.remove(path@),
    {
        self.times.remove(path);
        assert forall|p: Seq<char>| #[trigger] self.times@.contains_key(p) implies exists|i: int|
            0 <= i < self.paths.len() && (#[trigger] self.paths[i])@ == p by {
            let i = choose|i: int|
                0 <= i < old(self).paths.len() && (#[trigger] old(self).paths[i])@ == p;
            assert(self.paths[i]@ == p);
        }
    }

    /// The time recorded for a path.
    pub fn get(&self, path: &str) -> (r: Option<i64>)
        ensures
            r == if self@.contains_key(path@) {
                Some(self@[path@])
            } else {
                None
            },
    {
        match self.times.get(path) {
            Some(t) => Some(*t),
            None => None,
        }
    }

    /// A copy with the same times.
    pub fn duplicate(&self) -> (r: Self)
        requires
            self.wf(),
        ensures
            r.wf(),
            r@ == self@,
    {
        let mut r = RecentEventMap::new();
        let mut i: usize = 0;
        while i < self.paths.len()
            invariant
                i <= self.paths.len(),
                r.wf(),
                forall|p: Seq<char>| #[trigger]
                    r@.contains_key(p) <==> (self@.contains_key(p) && exists|k: int|
                        0 <= k < i && (#[trigger] self.paths[k])@ == p),
                forall|p: Seq<char>| #[trigger] r@.contains_key(p) ==> r@[p] == self@[p],
            decreases self.paths.len() - i,
        {
            let path = self.paths[i].as_str();
            match self.times.get(path) {
                Some(t) => {
                    r.insert(path, *t);
                },
                None => {},
            }
            proof {
                assert forall|p: Seq<char>| #[trigger]
                    r@.contains_key(p) <==> (self@.contains_key(p) && exists|k: int|
                        0 <= k < i + 1 && (#[trigger] self.paths[k])@ == p) by {
                    if r@.contains_key(p) {
                        if p == path@ {
                            assert(self.paths[i as int]@ == p);
                        } else {
                            let k = choose|k: int| 0 <= k < i && (#[trigger] self.paths[k])@ == p;
                            assert(0 <= k < i + 1 && self.paths[k]@ == p);
                        }
                    }
                    if self@.contains_key(p) && exists|k: int|
                        0 <= k < i + 1 && (#[trigger] self.paths[k])@ == p {
                        let k = choose|k: int| 0 <= k < i + 1 && (#[trigger] self.paths[k])@ == p;
                        if k < i {
                            assert(0 <= k < i && self.paths[k]@ == p);
                        }
                    }
                }
            }
            i += 1;
        }
        assert(r@ =~= self@);
        r
    }
}

/// The time by which an item counts as recent: the later of the time of its
/// last recorded change and its modification time, as far as they are
/// known.
pub open spec fn recency(item: ItemView, recent: Map<Seq<char>, i64>) -> Option<i64> {
    let known = item.modified_unix_secs != UNKNOWN_TS;
    if recent.contains_key(item.path) {
        if known && item.modified_unix_secs > recent[item.path] {
            Some(item.modified_unix_secs)
        } else {
            Some(recent[item.path])
        }
    } else if known {
        Some(item.modified_unix_secs)
    } else {
        None
    }
}

/// Whether an item changed at or after the cutoff.
pub open spec fn is_recent(item: ItemView, recent: Map<Seq<char>, i64>, cutoff: i64) -> bool {
    recency(item, recent) is Some && recency(item, recent)->0 >= cutoff
}

/// The key by which recent items are ordered: their recency, and the
/// smallest time for items without one.
pub open spec fn recency_key(item: ItemView, recent: Map<Seq<char>, i64>) -> i64 {
    match recency(item, recent) {
        Some(t) => t,
        None => i64::MIN,
    }
}

pub fn recency_of(item: &SearchItem, recent: &RecentEventMap) -> (r: Option<i64>)
    ensures
        r == recency(item@, recent@),
{
    let known = item.modified_unix_secs != UNKNOWN_TS;
    match recent.get(item.path.as_str()) {
        Some(t) => if known && item.modified_unix_secs > t {
            Some(item.modified_unix_secs)
        } else {
            Some(t)
        },
        None => if known {
            Some(item.modified_unix_secs)
        } else {
            None
        },
    }
}

/// The earliest time that still counts as recent: `window_secs` before
/// `now`, kept within the range of times.
pub open spec fn cutoff_for(now: i64, window_secs: i64) -> i64 {
    if now - window_secs > i64::MAX {
        i64::MAX
    } else if now - window_secs < i64::MIN {
        i64::MIN
    } else {
        (now - window_secs) as i64
    }
}

pub fn latest_cutoff(now: i64, window_secs: i64) -> (r: i64)
    ensures
        r == cutoff_for(now, window_secs),
{
    if window_secs >= 0 {
        if now < i64::MIN + window_secs {
            i64::MIN
        } else {
            now - window_secs
        }
    } else {
        if now > i64::MAX + window_secs {
            i64::MAX
        } else {
            now - window_secs
        }
    }
}

} // verus!
