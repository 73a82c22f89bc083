//! A map from paths to values that hands its values back on removal.
use vstd::hash_map::StringHashMap;
use vstd::prelude::*;

verus! {

/// Values by path. `entries` holds each path once, with its value, in no order
/// that callers can rely on; `slots` finds a path's place in `entries`.
#[verifier::reject_recursive_types(V)]
pub struct PathMap<V> {
    entries: Vec<(String, V)>,
    slots: StringHashMap<usize>,
}

/// The place of `path` in `entries`.
spec fn is_slot<V>(entries: Seq<(String, V)>, path: Seq<char>, slot: int) -> bool {
    0 <= slot < entries.len() && entries[slot].0@ == path
}

impl<V> PathMap<V> {
    /// Every entry is found under its own path, and nothing else is.
    pub closed spec fn wf(self) -> bool {
        &&& forall|i: int|
            0 <= i < self.entries@.len() ==> {
                &&& self.slots@.contains_key(#[trigger] self.entries@[i].0@)
                &&& self.slots@[self.entries@[i].0@] == i
            }
        &&& forall|path: Seq<char>| #[trigger]
            self.slots@.contains_key(path) ==> is_slot(
                self.entries@,
                path,
                self.slots@[path] as int,
            )
    }
}

impl<V> View for PathMap<V> {
    type V = Map<Seq<char>, V>;

    closed spec fn view(&self) -> Map<Seq<char>, V> {
        Map::new(
            |path: Seq<char>| self.slots@.contains_key(path),
            |path: Seq<char>| self.entries@[self.slots@[path] as int].1,
        )
    }
}

impl<V> PathMap<V> {
    /// No path has a value.
    pub fn new() -> (r: Self)
        ensures
            r.wf(),
            r@ == Map::<Seq<char>, V>::empty(),
    {
        let r = PathMap { entries: Vec::new(), slots: StringHashMap::new() };
        assert(r@ =~= Map::<Seq<char>, V>::empty());
        r
    }

    /// Gives `path` the value `value`, in place of any earlier one.
    pub fn insert(&mut self, path: &str, value: V)
        requires
            old(self).wf(),
        ensures
            final(self).wf(),
            final(self)@ == old(self)@.insert(path@, value),
    {
        let found: Option<usize> = match self.slots.get(path) {
            Some(slot) => Some(*slot),
            None => None,
        };
        match found {
            Some(slot) => {
                self.entries.set(slot, (path.to_owned(), value));
            },
            None => {
                let slot: usize = self.entries.len();
                self.entries.push((path.to_owned(), value));
                self.slots.insert(path.to_owned(), slot);
            },
        }
        proof {
            let before = old(self);
            assert forall|p: Seq<char>| #[trigger]
                self.slots@.contains_key(p) implies is_slot(
                self.entries@,
                p,
                self.slots@[p] as int,
            ) by {
                if p != path@ {
                    assert(before.slots@.contains_key(p));
                }
            }
            assert(self@ =~= before@.insert(path@, value));
        }
    }

    /// Takes the value of `path` out of the map.
    pub fn remove(&mut self, path: &str) -> (r: Option<V>)
        requires
            old(self).wf(),
        ensures
            final(self).wf(),
            final(self)@ == old(self)@.remove(path@),
            match r {
                Some(value) => old(self)@.contains_key(path@) && value == old(self)@[path@],
                None => !old(self)@.contains_key(path@),
            },
    {
        let slot: usize = match self.slots.get(path) {
            Some(slot) => *slot,
            None => {
                assert(self@ =~= self@.remove(path@));
                return None;
            },
        };
        self.slots.remove(path);
        let last: usize = self.entries.len() - 1;
        let entry = self.entries.swap_remove(slot);
        if slot != last {
            let moved = self.entries[slot].0.clone();
            self.slots.insert(moved, slot);
        }
        proof {
            let before = old(self);
            assert(before.slots@[path@] == slot);
            assert forall|i: int| 0 <= i < self.entries@.len() implies {
                &&& self.slots@.contains_key(#[trigger] self.entries@[i].0@)
                &&& self.slots@[self.entries@[i].0@] == i
            } by {
                if i == slot {
                    assert(self.entries@[i] == before.entries@[last as int]);
                } else {
                    assert(self.entries@[i] == before.entries@[i]);
                    assert(before.slots@[before.entries@[i].0@] == i);
                    assert(before.slots@[before.entries@[last as int].0@] == last);
                }
            }
            assert forall|p: Seq<char>| #[trigger]
                self.slots@.contains_key(p) implies is_slot(
                self.entries@,
                p,
                self.slots@[p] as int,
            ) by {
                assert(before.slots@.contains_key(p));
                assert(before.slots@[before.entries@[last as int].0@] == last);
            }
            assert(self@ =~= before@.remove(path@)) by {
                assert forall|p: Seq<char>| #[trigger]
                    self@.contains_key(p) implies self@[p] == before@[p] by {
                    assert(before.slots@.contains_key(p));
                    assert(before.slots@[before.entries@[last as int].0@] == last);
                }
            }
        }
        Some(entry.1)
    }
}

} // verus!
