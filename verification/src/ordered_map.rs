//! A map ordered by a pair of integers.
//!
//! The scheduler and the GPU queues keep their entries in the order of a
//! composite key (a virtual time, a deadline or a priority, and then an
//! identifier that breaks ties). `OrderedMap` stores the entries in one vector
//! sorted by that key; its contracts speak of the map it stands for.

use vstd::prelude::*;

verus! {

/// The order of composite keys: by the first component, then by the second.
pub open spec fn key_lt(a: (u64, u64), b: (u64, u64)) -> bool {
    a.0 < b.0 || (a.0 == b.0 && a.1 < b.1)
}

/// `a` does not come after `b`.
pub open spec fn key_le(a: (u64, u64), b: (u64, u64)) -> bool {
    a == b || key_lt(a, b)
}

/// `k` is the smallest key of `m`.
pub open spec fn is_first_key<V>(m: Map<(u64, u64), V>, k: (u64, u64)) -> bool {
    m.contains_key(k) && forall|j: (u64, u64)| #[trigger] m.contains_key(j) ==> key_le(k, j)
}

/// `k` is the largest key of `m`.
pub open spec fn is_last_key<V>(m: Map<(u64, u64), V>, k: (u64, u64)) -> bool {
    m.contains_key(k) && forall|j: (u64, u64)| #[trigger] m.contains_key(j) ==> key_le(j, k)
}

/// The smallest key of a map that has one.
pub open spec fn first_of<V>(m: Map<(u64, u64), V>) -> (u64, u64) {
    choose|k: (u64, u64)| is_first_key(m, k)
}

/// The largest key of a map that has one.
pub open spec fn last_of<V>(m: Map<(u64, u64), V>) -> (u64, u64) {
    choose|k: (u64, u64)| is_last_key(m, k)
}

/// Some key of `m` has the second component `id`.
pub open spec fn has_id<V>(m: Map<(u64, u64), V>, id: u64) -> bool {
    exists|k: (u64, u64)| #[trigger] m.contains_key(k) && k.1 == id
}

/// `k` is the smallest key of `m` whose second component is `id`.
pub open spec fn is_first_with_id<V>(m: Map<(u64, u64), V>, id: u64, k: (u64, u64)) -> bool {
    m.contains_key(k) && k.1 == id && forall|j: (u64, u64)| #[trigger]
        m.contains_key(j) && j.1 == id ==> key_le(k, j)
}

/// The smallest key of `m` whose second component is `id`.
pub open spec fn first_with_id<V>(m: Map<(u64, u64), V>, id: u64) -> (u64, u64) {
    choose|k: (u64, u64)| is_first_with_id(m, id, k)
}

/// The keys in `ks` stand in strictly ascending order.
pub open spec fn keys_ascending(ks: Seq<(u64, u64)>) -> bool {
    forall|i: int, j: int| 0 <= i < j < ks.len() ==> key_lt(#[trigger] ks[i], #[trigger] ks[j])
}

/// Compares two composite keys.
pub fn key_less(a: (u64, u64), b: (u64, u64)) -> (r: bool)
    ensures
        r == key_lt(a, b),
{
    a.0 < b.0 || (a.0 == b.0 && a.1 < b.1)
}

/// A map from composite keys to values, kept in key order.
pub struct OrderedMap<V> {
    entries: Vec<((u64, u64), V)>,
}

/// The map that a sequence of entries stands for.
spec fn entries_map<V>(s: Seq<((u64, u64), V)>) -> Map<(u64, u64), V> {
    Map::new(
        |k: (u64, u64)| exists|i: int| 0 <= i < s.len() && (#[trigger] s[i]).0 == k,
        |k: (u64, u64)| s[choose|i: int| 0 <= i < s.len() && (#[trigger] s[i]).0 == k].1,
    )
}

/// The entries stand in strictly ascending key order.
spec fn entries_sorted<V>(s: Seq<((u64, u64), V)>) -> bool {
    forall|i: int, j: int|
        0 <= i < j < s.len() ==> key_lt((#[trigger] s[i]).0, (#[trigger] s[j]).0)
}

proof fn lemma_entry<V>(s: Seq<((u64, u64), V)>, i: int)
    requires
        entries_sorted(s),
        0 <= i < s.len(),
    ensures
        entries_map(s).contains_key(s[i].0),
        entries_map(s)[s[i].0] == s[i].1,
{
    let k = s[i].0;
    let c = choose|j: int| 0 <= j < s.len() && (#[trigger] s[j]).0 == k;
    assert(s[i].0 == k);
    assert(c == i) by {
        if c < i {
            assert(key_lt(s[c].0, s[i].0));
        } else if i < c {
            assert(key_lt(s[i].0, s[c].0));
        }
    }
}

proof fn lemma_same_entries<V>(s: Seq<((u64, u64), V)>, m: Map<(u64, u64), V>)
    requires
        entries_sorted(s),
        forall|k: (u64, u64)| #[trigger]
            m.contains_key(k) ==> exists|i: int| 0 <= i < s.len() && (#[trigger] s[i]).0 == k,
        forall|i: int|
            0 <= i < s.len() ==> m.contains_key((#[trigger] s[i]).0) && m[s[i].0] == s[i].1,
    ensures
        entries_map(s) == m,
{
    assert forall|k: (u64, u64)| #[trigger] entries_map(s).contains_key(k) implies m.contains_key(k)
        && m[k] == entries_map(s)[k] by {
        let i = choose|i: int| 0 <= i < s.len() && (#[trigger] s[i]).0 == k;
        lemma_entry(s, i);
        assert(m.contains_key(s[i].0));
    }
    assert forall|k: (u64, u64)| #[trigger] m.contains_key(k) implies entries_map(s).contains_key(
        k,
    ) by {
        let i = choose|i: int| 0 <= i < s.len() && (#[trigger] s[i]).0 == k;
        lemma_entry(s, i);
    }
    assert(entries_map(s) =~= m);
}

impl<V> View for OrderedMap<V> {
    type V = Map<(u64, u64), V>;

    closed spec fn view(&self) -> Map<(u64, u64), V> {
        entries_map(self.entries@)
    }
}

impl<V> OrderedMap<V> {
    /// The entries are in strictly ascending key order.
    pub closed spec fn wf(&self) -> bool {
        entries_sorted(self.entries@)
    }

    /// An empty map.
    pub fn new() -> (m: Self)
        ensures
            m.wf(),
            m@ == Map::<(u64, u64), V>::empty(),
    {
        let m = OrderedMap { entries: Vec::new() };
        proof {
            lemma_same_entries(m.entries@, Map::<(u64, u64), V>::empty());
        }
        m
    }

    /// The map has as many keys as the vector has entries.
    proof fn lemma_len(&self)
        requires
            self.wf(),
        ensures
            self.entries@.len() == self@.dom().len(),
            self@.dom().finite(),
    {
        let ks = self.entries@.map_values(|e: ((u64, u64), V)| e.0);
        assert(ks.no_duplicates()) by {
            assert forall|i: int, j: int|
                0 <= i < ks.len() && 0 <= j < ks.len() && i != j implies ks[i] != ks[j] by {
                if i < j {
                    assert(key_lt(self.entries@[i].0, self.entries@[j].0));
                } else {
                    assert(key_lt(self.entries@[j].0, self.entries@[i].0));
                }
            }
        }
        ks.unique_seq_to_set();
        assert forall|k: (u64, u64)| ks.to_set().contains(k) <==> self@.dom().contains(k) by {
            if ks.to_set().contains(k) {
                let i = choose|i: int| 0 <= i < ks.len() && ks[i] == k;
                lemma_entry(self.entries@, i);
            }
            if self@.dom().contains(k) {
                let i = choose|i: int|
                    0 <= i < self.entries@.len() && (#[trigger] self.entries@[i]).0 == k;
                assert(ks[i] == k);
            }
        }
        assert(ks.to_set() =~= self@.dom());
    }

    /// The map is finite.
    pub proof fn lemma_finite(&self)
        requires
            self.wf(),
        ensures
            self@.dom().finite(),
    {
        self.lemma_len();
    }

    /// Number of entries.
    pub fn len(&self) -> (n: usize)
        requires
            self.wf(),
        ensures
            n == self@.dom().len(),
            self@.dom().finite(),
    {
        proof {
            self.lemma_len();
        }
        self.entries.len()
    }

    /// Whether the map has no entries.
    pub fn is_empty(&self) -> (b: bool)
        requires
            self.wf(),
        ensures
            b == (self@ == Map::<(u64, u64), V>::empty()),
            b == self@.dom().is_empty(),
    {
        let b = self.entries.len() == 0;
        proof {
            if b {
                lemma_same_entries(self.entries@, Map::<(u64, u64), V>::empty());
            } else {
                lemma_entry(self.entries@, 0);
                assert(self@.dom().contains(self.entries@[0].0));
            }
        }
        b
    }

    /// Index of the first entry whose key is not below `k`.
    fn lower_bound(&self, k: (u64, u64)) -> (r: usize)
        requires
            self.wf(),
        ensures
            r <= self.entries@.len(),
            forall|i: int| 0 <= i < r ==> key_lt((#[trigger] self.entries@[i]).0, k),
            forall|i: int| r <= i < self.entries@.len() ==> !key_lt((#[trigger] self.entries@[i]).0, k),
    {
        let mut lo: usize = 0;
        let mut hi: usize = self.entries.len();
        while lo < hi
            invariant
                self.wf(),
                lo <= hi <= self.entries@.len(),
                forall|i: int| 0 <= i < lo ==> key_lt((#[trigger] self.entries@[i]).0, k),
                forall|i: int|
                    hi <= i < self.entries@.len() ==> !key_lt((#[trigger] self.entries@[i]).0, k),
            decreases hi - lo,
        {
            let mid: usize = lo + (hi - lo) / 2;
            if key_less(self.entries[mid].0, k) {
                lo = mid + 1;
            } else {
                hi = mid;
            }
        }
        lo
    }

    /// Adds an entry; the value that had the key before is handed back.
    pub fn insert(&mut self, k: (u64, u64), v: V) -> (prev: Option<V>)
        requires
            old(self).wf(),
        ensures
            final(self).wf(),
            final(self)@ == old(self)@.insert(k, v),
            prev == if old(self)@.contains_key(k) { Some(old(self)@[k]) } else { None },
    {
        let ghost s = self.entries@;
        let i: usize = self.lower_bound(k);
        if i < self.entries.len() && self.entries[i].0.0 == k.0 && self.entries[i].0.1 == k.1 {
            proof {
                lemma_entry(s, i as int);
            }
            let (_, prev) = self.entries.remove(i);
            self.entries.insert(i, (k, v));
            proof {
                let t = self.entries@;
                assert(t =~= s.update(i as int, (k, v)));
                assert forall|j: (u64, u64)| #[trigger] entries_map(s).insert(k, v).contains_key(
                    j,
                ) implies exists|x: int| 0 <= x < t.len() && (#[trigger] t[x]).0 == j by {
                    if j == k {
                        assert(t[i as int].0 == j);
                    } else {
                        let x = choose|x: int| 0 <= x < s.len() && (#[trigger] s[x]).0 == j;
                        assert(t[x].0 == j);
                    }
                }
                assert forall|x: int| 0 <= x < t.len() implies entries_map(s).insert(
                    k,
                    v,
                ).contains_key((#[trigger] t[x]).0) && entries_map(s).insert(k, v)[t[x].0]
                    == t[x].1 by {
                    if x != i {
                        lemma_entry(s, x);
                        assert(key_lt(s[x].0, s[i as int].0) || key_lt(s[i as int].0, s[x].0));
                    }
                }
                lemma_same_entries(t, entries_map(s).insert(k, v));
            }
            Some(prev)
        } else {
            proof {
                assert forall|x: int| 0 <= x < s.len() implies (#[trigger] s[x]).0 != k by {
                    if x >= i {
                        assert(!key_lt(s[x].0, k));
                        if x > i {
                            assert(key_lt(s[i as int].0, s[x].0));
                            assert(!key_lt(s[i as int].0, k));
                        }
                    }
                }
            }
            self.entries.insert(i, (k, v));
            proof {
                let t = self.entries@;
                assert forall|a: int, b: int| 0 <= a < b < t.len() implies key_lt(
                    (#[trigger] t[a]).0,
                    (#[trigger] t[b]).0,
                ) by {
                    if a < i && b > i {
                        assert(key_lt(s[a].0, s[b - 1].0));
                    } else if a < i && b < i {
                        assert(key_lt(s[a].0, s[b].0));
                    } else if a == i {
                        assert(!key_lt(s[b - 1].0, k));
                        assert(s[b - 1].0 != k);
                    } else if b == i {
                        assert(key_lt(s[a].0, k));
                    } else {
                        assert(key_lt(s[a - 1].0, s[b - 1].0));
                    }
                }
                assert forall|j: (u64, u64)| #[trigger] entries_map(s).insert(k, v).contains_key(
                    j,
                ) implies exists|x: int| 0 <= x < t.len() && (#[trigger] t[x]).0 == j by {
                    if j == k {
                        assert(t[i as int].0 == j);
                    } else {
                        let x = choose|x: int| 0 <= x < s.len() && (#[trigger] s[x]).0 == j;
                        if x < i {
                            assert(t[x].0 == j);
                        } else {
                            assert(t[x + 1].0 == j);
                        }
                    }
                }
                assert forall|x: int| 0 <= x < t.len() implies entries_map(s).insert(
                    k,
                    v,
                ).contains_key((#[trigger] t[x]).0) && entries_map(s).insert(k, v)[t[x].0]
                    == t[x].1 by {
                    if x < i {
                        lemma_entry(s, x);
                        assert(s[x].0 != k);
                    } else if x > i {
                        lemma_entry(s, x - 1);
                        assert(s[x - 1].0 != k);
                    }
                }
                lemma_same_entries(t, entries_map(s).insert(k, v));
            }
            None
        }
    }

    /// Index of the entry with key `k`.
    fn position(&self, k: (u64, u64)) -> (r: Option<usize>)
        requires
            self.wf(),
        ensures
            match r {
                Some(i) => i < self.entries@.len() && self.entries@[i as int].0 == k
                    && self@.contains_key(k) && self@[k] == self.entries@[i as int].1,
                None => !self@.contains_key(k),
            },
    {
        let i: usize = self.lower_bound(k);
        if i < self.entries.len() && self.entries[i].0.0 == k.0 && self.entries[i].0.1 == k.1 {
            proof {
                lemma_entry(self.entries@, i as int);
            }
            Some(i)
        } else {
            proof {
                let s = self.entries@;
                if self@.contains_key(k) {
                    let x = choose|x: int| 0 <= x < s.len() && (#[trigger] s[x]).0 == k;
                    assert(!key_lt(s[x].0, k));
                    assert(x >= i);
                    if x > i {
                        assert(key_lt(s[i as int].0, s[x].0));
                    }
                }
            }
            None
        }
    }

    /// Removes the entry with key `k` and hands its value back.
    pub fn remove(&mut self, k: (u64, u64)) -> (prev: Option<V>)
        requires
            old(self).wf(),
        ensures
            final(self).wf(),
            final(self)@ == old(self)@.remove(k),
            prev == if old(self)@.contains_key(k) { Some(old(self)@[k]) } else { None },
    {
        let ghost s = self.entries@;
        match self.position(k) {
            None => {
                assert(self@.remove(k) =~= self@);
                None
            },
            Some(i) => {
                let (_, prev) = self.entries.remove(i);
                proof {
                    let t = self.entries@;
                    assert(t =~= s.remove(i as int));
                    assert forall|j: (u64, u64)| #[trigger] entries_map(s).remove(k).contains_key(
                        j,
                    ) implies exists|x: int| 0 <= x < t.len() && (#[trigger] t[x]).0 == j by {
                        let x = choose|x: int| 0 <= x < s.len() && (#[trigger] s[x]).0 == j;
                        if x < i {
                            assert(t[x].0 == j);
                        } else {
                            assert(t[x - 1].0 == j);
                        }
                    }
                    assert forall|x: int| 0 <= x < t.len() implies entries_map(s).remove(
                        k,
                    ).contains_key((#[trigger] t[x]).0) && entries_map(s).remove(k)[t[x].0]
                        == t[x].1 by {
                        if x < i {
                            lemma_entry(s, x);
                            assert(key_lt(s[x].0, s[i as int].0));
                        } else {
                            lemma_entry(s, x + 1);
                            assert(key_lt(s[i as int].0, s[x + 1].0));
                        }
                    }
                    lemma_same_entries(t, entries_map(s).remove(k));
                }
                Some(prev)
            },
        }
    }

    /// The value at key `k`.
    pub fn get(&self, k: (u64, u64)) -> (r: Option<&V>)
        requires
            self.wf(),
        ensures
            match r {
                Some(v) => self@.contains_key(k) && *v == self@[k],
                None => !self@.contains_key(k),
            },
    {
        match self.position(k) {
            Some(i) => Some(&self.entries[i].1),
            None => None,
        }
    }

    /// The value at key `k`, for update in place.
    pub fn get_mut(&mut self, k: (u64, u64)) -> (r: Option<&mut V>)
        requires
            old(self).wf(),
        ensures
            final(self).wf(),
            match r {
                Some(v) => old(self)@.contains_key(k) && *v == old(self)@[k] && final(self)@
                    == old(self)@.insert(k, *final(v)),
                None => !old(self)@.contains_key(k) && final(self)@ == old(self)@,
            },
    {
        match self.position(k) {
            Some(i) => {
                proof {
                    let s = self.entries@;
                    assert forall|v: V| #![auto] entries_sorted(s.update(i as int, (k, v)))
                        && entries_map(s.update(i as int, (k, v))) == entries_map(s).insert(
                        k,
                        v,
                    ) by {
                        let t = s.update(i as int, (k, v));
                        assert forall|j: (u64, u64)| #[trigger] entries_map(s).insert(
                            k,
                            v,
                        ).contains_key(j) implies exists|x: int|
                            0 <= x < t.len() && (#[trigger] t[x]).0 == j by {
                            if j == k {
                                assert(t[i as int].0 == j);
                            } else {
                                let x = choose|x: int|
                                    0 <= x < s.len() && (#[trigger] s[x]).0 == j;
                                assert(t[x].0 == j);
                            }
                        }
                        assert forall|x: int| 0 <= x < t.len() implies entries_map(s).insert(
                            k,
                            v,
                        ).contains_key((#[trigger] t[x]).0) && entries_map(s).insert(k, v)[t[x].0]
                            == t[x].1 by {
                            if x != i {
                                lemma_entry(s, x);
                                assert(key_lt(s[x].0, s[i as int].0) || key_lt(
                                    s[i as int].0,
                                    s[x].0,
                                ));
                            }
                        }
                        lemma_same_entries(t, entries_map(s).insert(k, v));
                    }
                }
                Some(&mut self.entries[i].1)
            },
            None => None,
        }
    }

    /// The smallest key.
    pub fn first_key(&self) -> (r: Option<(u64, u64)>)
        requires
            self.wf(),
        ensures
            match r {
                Some(k) => is_first_key(self@, k) && k == first_of(self@),
                None => self@ == Map::<(u64, u64), V>::empty(),
            },
    {
        if self.entries.len() == 0 {
            proof {
                lemma_same_entries(self.entries@, Map::<(u64, u64), V>::empty());
            }
            return None;
        }
        proof {
            let s = self.entries@;
            lemma_entry(s, 0);
            assert forall|j: (u64, u64)| #[trigger] self@.contains_key(j) implies key_le(
                s[0].0,
                j,
            ) by {
                let x = choose|x: int| 0 <= x < s.len() && (#[trigger] s[x]).0 == j;
                if x > 0 {
                    assert(key_lt(s[0].0, s[x].0));
                }
            }
            assert(is_first_key(self@, s[0].0));
            first_key_is_unique(self@, s[0].0, first_of(self@));
        }
        Some(self.entries[0].0)
    }

    /// The largest key.
    pub fn last_key(&self) -> (r: Option<(u64, u64)>)
        requires
            self.wf(),
        ensures
            match r {
                Some(k) => is_last_key(self@, k) && k == last_of(self@),
                None => self@ == Map::<(u64, u64), V>::empty(),
            },
    {
        let n: usize = self.entries.len();
        if n == 0 {
            proof {
                lemma_same_entries(self.entries@, Map::<(u64, u64), V>::empty());
            }
            return None;
        }
        proof {
            let s = self.entries@;
            lemma_entry(s, n - 1);
            assert forall|j: (u64, u64)| #[trigger] self@.contains_key(j) implies key_le(
                j,
                s[n - 1].0,
            ) by {
                let x = choose|x: int| 0 <= x < s.len() && (#[trigger] s[x]).0 == j;
                if x < n - 1 {
                    assert(key_lt(s[x].0, s[n - 1].0));
                }
            }
            assert(is_last_key(self@, s[n - 1].0));
            last_key_is_unique(self@, s[n - 1].0, last_of(self@));
        }
        Some(self.entries[n - 1].0)
    }

    /// The smallest key whose second component is `id`.
    pub fn find_id(&self, id: u64) -> (r: Option<(u64, u64)>)
        requires
            self.wf(),
        ensures
            match r {
                Some(k) => has_id(self@, id) && is_first_with_id(self@, id, k) && k
                    == first_with_id(self@, id),
                None => !has_id(self@, id),
            },
    {
        let mut i: usize = 0;
        while i < self.entries.len()
            invariant
                self.wf(),
                i <= self.entries@.len(),
                forall|x: int| 0 <= x < i ==> (#[trigger] self.entries@[x]).0.1 != id,
            decreases self.entries@.len() - i,
        {
            if self.entries[i].0.1 == id {
                proof {
                    let s = self.entries@;
                    lemma_entry(s, i as int);
                    assert forall|j: (u64, u64)| #[trigger]
                        self@.contains_key(j) && j.1 == id implies key_le(s[i as int].0, j) by {
                        let x = choose|x: int| 0 <= x < s.len() && (#[trigger] s[x]).0 == j;
                        if x > i {
                            assert(key_lt(s[i as int].0, s[x].0));
                        }
                    }
                    assert(is_first_with_id(self@, id, s[i as int].0));
                    first_with_id_is_unique(self@, id, s[i as int].0, first_with_id(self@, id));
                }
                return Some(self.entries[i].0);
            }
            i += 1;
        }
        proof {
            let s = self.entries@;
            assert forall|j: (u64, u64)| #[trigger] self@.contains_key(j) implies j.1 != id by {
                let x = choose|x: int| 0 <= x < s.len() && (#[trigger] s[x]).0 == j;
            }
        }
        None
    }

    /// All keys, in ascending order.
    pub fn keys(&self) -> (r: Vec<(u64, u64)>)
        requires
            self.wf(),
        ensures
            keys_ascending(r@),
            forall|k: (u64, u64)| #[trigger] r@.contains(k) <==> self@.contains_key(k),
    {
        let mut r: Vec<(u64, u64)> = Vec::new();
        let mut i: usize = 0;
        while i < self.entries.len()
            invariant
                i <= self.entries@.len(),
                r@.len() == i,
                forall|x: int| 0 <= x < i ==> (#[trigger] r@[x]) == self.entries@[x].0,
            decreases self.entries@.len() - i,
        {
            r.push(self.entries[i].0);
            i += 1;
        }
        proof {
            let s = self.entries@;
            assert forall|a: int, b: int| 0 <= a < b < r@.len() implies key_lt(
                #[trigger] r@[a],
                #[trigger] r@[b],
            ) by {
                assert(key_lt(s[a].0, s[b].0));
            }
            assert forall|k: (u64, u64)| #[trigger] r@.contains(k) <==> self@.contains_key(k) by {
                if r@.contains(k) {
                    let x = choose|x: int| 0 <= x < r@.len() && r@[x] == k;
                    lemma_entry(s, x);
                }
                if self@.contains_key(k) {
                    let x = choose|x: int| 0 <= x < s.len() && (#[trigger] s[x]).0 == k;
                    assert(r@[x] == k);
                }
            }
        }
        r
    }
}

/// A map has at most one smallest key.
pub proof fn first_key_is_unique<V>(m: Map<(u64, u64), V>, a: (u64, u64), b: (u64, u64))
    requires
        is_first_key(m, a),
        is_first_key(m, b),
    ensures
        a == b,
{
    assert(key_le(a, b) && key_le(b, a));
}

/// A map has at most one largest key.
pub proof fn last_key_is_unique<V>(m: Map<(u64, u64), V>, a: (u64, u64), b: (u64, u64))
    requires
        is_last_key(m, a),
        is_last_key(m, b),
    ensures
        a == b,
{
    assert(key_le(a, b) && key_le(b, a));
}

/// A map has at most one smallest key with a given second component.
pub proof fn first_with_id_is_unique<V>(
    m: Map<(u64, u64), V>,
    id: u64,
    a: (u64, u64),
    b: (u64, u64),
)
    requires
        is_first_with_id(m, id, a),
        is_first_with_id(m, id, b),
    ensures
        a == b,
{
    assert(key_le(a, b) && key_le(b, a));
}

/// A finite map that is not empty has a smallest key.
pub proof fn finite_map_has_first<V>(m: Map<(u64, u64), V>)
    requires
        m.dom().finite(),
        !m.dom().is_empty(),
    ensures
        is_first_key(m, first_of(m)),
    decreases m.dom().len(),
{
    let a = m.dom().choose();
    let rest = m.remove(a);
    assert(rest.dom() =~= m.dom().remove(a));
    if rest.dom().is_empty() {
        assert(forall|j: (u64, u64)| #[trigger] m.contains_key(j) ==> j == a) by {
            assert forall|j: (u64, u64)| #[trigger] m.contains_key(j) implies j == a by {
                if j != a {
                    assert(rest.dom().contains(j));
                }
            }
        }
        assert(is_first_key(m, a));
    } else {
        finite_map_has_first(rest);
        let b = first_of(rest);
        let c = if key_le(a, b) {
            a
        } else {
            b
        };
        assert(is_first_key(m, c)) by {
            assert forall|j: (u64, u64)| #[trigger] m.contains_key(j) implies key_le(c, j) by {
                if j != a {
                    assert(rest.contains_key(j));
                }
            }
        }
    }
}

/// A finite map that is not empty has a largest key.
pub proof fn finite_map_has_last<V>(m: Map<(u64, u64), V>)
    requires
        m.dom().finite(),
        !m.dom().is_empty(),
    ensures
        is_last_key(m, last_of(m)),
    decreases m.dom().len(),
{
    let a = m.dom().choose();
    let rest = m.remove(a);
    assert(rest.dom() =~= m.dom().remove(a));
    if rest.dom().is_empty() {
        assert forall|j: (u64, u64)| #[trigger] m.contains_key(j) implies j == a by {
            if j != a {
                assert(rest.dom().contains(j));
            }
        }
        assert(is_last_key(m, a));
    } else {
        finite_map_has_last(rest);
        let b = last_of(rest);
        let c = if key_le(a, b) {
            b
        } else {
            a
        };
        assert(is_last_key(m, c)) by {
            assert forall|j: (u64, u64)| #[trigger] m.contains_key(j) implies key_le(j, c) by {
                if j != a {
                    assert(rest.contains_key(j));
                }
            }
        }
    }
}

/// Keys are ordered by their first part, and those with the same first part by the second.
pub proof fn keys_are_ordered_by_parts(a: (u64, u64), b: (u64, u64))
    ensures
        a.0 < b.0 ==> key_lt(a, b) && key_le(a, b),
        a.0 > b.0 ==> !key_lt(a, b) && !key_le(a, b),
        a.0 == b.0 ==> (key_lt(a, b) <==> a.1 < b.1),
        a.0 == b.0 ==> (key_le(a, b) <==> a.1 <= b.1),
{
}

/// The first key of a map stands before all others, and the last one behind them.
pub proof fn first_and_last_enclose_the_keys<V>(m: Map<(u64, u64), V>, k: (u64, u64))
    requires
        m.dom().finite(),
        m.contains_key(k),
    ensures
        m.contains_key(first_of(m)),
        m.contains_key(last_of(m)),
        first_of(m).0 < k.0 || (first_of(m).0 == k.0 && first_of(m).1 <= k.1),
        last_of(m).0 > k.0 || (last_of(m).0 == k.0 && last_of(m).1 >= k.1),
{
    assert(m.dom().contains(k));
    finite_map_has_first(m);
    finite_map_has_last(m);
    assert(key_le(first_of(m), k));
    assert(key_le(k, last_of(m)));
}

} // verus!
