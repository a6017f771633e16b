//! A map keyed by an integer identifier.

use crate::ordered_map;
use crate::ordered_map::OrderedMap;
use vstd::prelude::*;

verus! {

/// A map from identifiers to values, kept in the order of the identifiers.
pub struct IdMap<V> {
    inner: OrderedMap<V>,
}

impl<V> View for IdMap<V> {
    type V = Map<u64, V>;

    closed spec fn view(&self) -> Map<u64, V> {
        Map::new(
            |id: u64| self.inner@.contains_key((id, 0u64)),
            |id: u64| self.inner@[(id, 0u64)],
        )
    }
}

/// The identifiers stand in strictly ascending order.
pub open spec fn ids_ascending(ids: Seq<u64>) -> bool {
    forall|i: int, j: int| 0 <= i < j < ids.len() ==> #[trigger] ids[i] < #[trigger] ids[j]
}

impl<V> IdMap<V> {
    /// The keys are in order, and their second components are zero.
    pub closed spec fn wf(&self) -> bool {
        &&& self.inner.wf()
        &&& forall|k: (u64, u64)| #[trigger] self.inner@.contains_key(k) ==> k.1 == 0
    }

    /// An empty map.
    pub fn new() -> (m: Self)
        ensures
            m.wf(),
            m@ == Map::<u64, V>::empty(),
    {
        let m = IdMap { inner: OrderedMap::new() };
        assert(m@ =~= Map::empty());
        m
    }

    /// Both maps have the same number of keys.
    proof fn lemma_size(&self)
        requires
            self.wf(),
        ensures
            self@.dom().finite(),
            self@.dom().len() == self.inner@.dom().len(),
    {
        self.inner.lemma_finite();
        let f = |k: (u64, u64)| k.0;
        let keys = self.inner@.dom();
        assert(vstd::relations::injective_on(f, keys)) by {
            assert forall|a: (u64, u64), b: (u64, u64)|
                keys.contains(a) && keys.contains(b) && #[trigger] f(a) == #[trigger] f(
                    b,
                ) implies a == b by {
                assert(self.inner@.contains_key(a));
                assert(self.inner@.contains_key(b));
            }
        }
        assert forall|id: u64| #[trigger] self@.dom().contains(id) implies keys.map(f).contains(
            id,
        ) by {
            assert(keys.contains((id, 0u64)));
            assert(f((id, 0u64)) == id);
        }
        assert forall|id: u64| #[trigger] keys.map(f).contains(id) implies self@.dom().contains(
            id,
        ) by {
            let k = choose|k: (u64, u64)| keys.contains(k) && f(k) == id;
            assert(self.inner@.contains_key(k));
        }
        assert(keys.map(f) =~= self@.dom());
        vstd::set_lib::lemma_map_size(keys, self@.dom(), f);
    }

    /// The map is finite.
    pub proof fn lemma_finite(&self)
        requires
            self.wf(),
        ensures
            self@.dom().finite(),
    {
        self.lemma_size();
    }

    /// Number of entries.
    pub fn len(&self) -> (n: usize)
        requires
            self.wf(),
        ensures
            n == self@.dom().len(),
            self@.dom().finite(),
    {
        proof {
            self.lemma_size();
        }
        self.inner.len()
    }

    /// Whether the map has no entries.
    pub fn is_empty(&self) -> (b: bool)
        requires
            self.wf(),
        ensures
            b == self@.dom().is_empty(),
    {
        let b = self.inner.is_empty();
        proof {
            if !b {
                let k = choose|k: (u64, u64)| self.inner@.dom().contains(k);
                assert(self.inner@.contains_key(k));
                assert(self@.dom().contains(k.0));
            } else {
                assert(self@.dom() =~= Set::empty());
            }
        }
        b
    }

    /// Adds an entry; the value that had the identifier before is handed back.
    pub fn insert(&mut self, id: u64, v: V) -> (prev: Option<V>)
        requires
            old(self).wf(),
        ensures
            final(self).wf(),
            final(self)@ == old(self)@.insert(id, v),
            prev == if old(self)@.contains_key(id) {
                Some(old(self)@[id])
            } else {
                None
            },
    {
        let prev = self.inner.insert((id, 0), v);
        assert(self@ =~= old(self)@.insert(id, v));
        prev
    }

    /// Removes an entry and hands its value back.
    pub fn remove(&mut self, id: u64) -> (prev: Option<V>)
        requires
            old(self).wf(),
        ensures
            final(self).wf(),
            final(self)@ == old(self)@.remove(id),
            prev == if old(self)@.contains_key(id) {
                Some(old(self)@[id])
            } else {
                None
            },
    {
        let prev = self.inner.remove((id, 0));
        assert(self@ =~= old(self)@.remove(id));
        prev
    }

    /// The value of an identifier.
    pub fn get(&self, id: u64) -> (r: Option<&V>)
        requires
            self.wf(),
        ensures
            match r {
                Some(v) => self@.contains_key(id) && *v == self@[id],
                None => !self@.contains_key(id),
            },
    {
        self.inner.get((id, 0))
    }

    /// Gives access to the value of an identifier.
    pub fn get_mut(&mut self, id: u64) -> (r: Option<&mut V>)
        requires
            old(self).wf(),
        ensures
            final(self).wf(),
            match r {
                Some(v) => old(self)@.contains_key(id) && *v == old(self)@[id] && final(self)@
                    == old(self)@.insert(id, *final(v)),
                None => !old(self)@.contains_key(id) && final(self)@ == old(self)@,
            },
    {
        let ghost before = self@;
        match self.inner.get_mut((id, 0)) {
            Some(v) => {
                assert(before.insert(id, *final(v)) =~= Map::new(
                    |j: u64| old(self).inner@.insert((id, 0u64), *final(v)).contains_key((j, 0u64)),
                    |j: u64| old(self).inner@.insert((id, 0u64), *final(v))[(j, 0u64)],
                ));
                Some(v)
            },
            None => None,
        }
    }

    /// The identifiers in ascending order.
    pub fn keys(&self) -> (r: Vec<u64>)
        requires
            self.wf(),
        ensures
            ids_ascending(r@),
            forall|id: u64| #[trigger] r@.contains(id) <==> self@.contains_key(id),
    {
        let ks = self.inner.keys();
        let mut r: Vec<u64> = Vec::new();
        let mut i: usize = 0;
        while i < ks.len()
            invariant
                i <= ks.len(),
                r.len() == i,
                forall|x: int| 0 <= x < i ==> #[trigger] r@[x] == ks@[x].0,
            decreases ks.len() - i,
        {
            r.push(ks[i].0);
            i += 1;
        }
        proof {
            assert forall|x: int| 0 <= x < ks@.len() implies (#[trigger] ks@[x]).1 == 0 by {
                assert(ks@.contains(ks@[x]));
                assert(self.inner@.contains_key(ks@[x]));
            }
            assert forall|a: int, b: int| 0 <= a < b < r@.len() implies #[trigger] r@[a]
                < #[trigger] r@[b] by {
                assert(ordered_map::key_lt(ks@[a], ks@[b]));
            }
            assert forall|id: u64| #[trigger] r@.contains(id) <==> self@.contains_key(id) by {
                if r@.contains(id) {
                    let x = choose|x: int| 0 <= x < r@.len() && r@[x] == id;
                    assert(ks@.contains(ks@[x]));
                    assert(self.inner@.contains_key(ks@[x]));
                }
                if self@.contains_key(id) {
                    assert(self.inner@.contains_key((id, 0u64)));
                    assert(ks@.contains((id, 0u64)));
                    let x = choose|x: int| 0 <= x < ks@.len() && ks@[x] == (id, 0u64);
                    assert(r@[x] == id);
                }
            }
        }
        r
    }
}

} // verus!
