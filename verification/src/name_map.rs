//! A map keyed by names.

use crate::text;
use crate::text::text_less;
use vstd::prelude::*;
use vstd::string::StringExecFns;

verus! {

/// An entry of a map keyed by names.
pub struct Named<V> {
    pub name: String,
    pub value: V,
}

/// A map from names to values, kept in the order of the names.
pub struct NameMap<V> {
    entries: Vec<Named<V>>,
}

/// Some entry has the name.
pub open spec fn has_name<V>(s: Seq<Named<V>>, n: Seq<char>) -> bool {
    exists|i: int| 0 <= i < s.len() && (#[trigger] s[i]).name@ == n
}

/// The entry with the name.
pub open spec fn index_of<V>(s: Seq<Named<V>>, n: Seq<char>) -> int {
    choose|i: int| 0 <= i < s.len() && (#[trigger] s[i]).name@ == n
}

/// The names stand in strictly ascending order.
pub open spec fn names_ascend<V>(s: Seq<Named<V>>) -> bool {
    forall|i: int, j: int|
        0 <= i < j < s.len() ==> text::text_lt((#[trigger] s[i]).name@, (#[trigger] s[j]).name@)
}

/// The map that entries stand for.
pub open spec fn named_map<V>(s: Seq<Named<V>>) -> Map<Seq<char>, V> {
    Map::new(|n: Seq<char>| has_name(s, n), |n: Seq<char>| s[index_of(s, n)].value)
}

/// In ascending entries a name occurs once.
proof fn lemma_entry<V>(s: Seq<Named<V>>, i: int)
    requires
        names_ascend(s),
        0 <= i < s.len(),
    ensures
        has_name(s, s[i].name@),
        index_of(s, s[i].name@) == i,
        named_map(s).contains_key(s[i].name@),
        named_map(s)[s[i].name@] == s[i].value,
{
    let n = s[i].name@;
    let c = index_of(s, n);
    assert(s[i].name@ == n);
    text::text_lt_irreflexive(n);
    if c < i {
        assert(text::text_lt(s[c].name@, s[i].name@));
    } else if i < c {
        assert(text::text_lt(s[i].name@, s[c].name@));
    }
}

/// Ascending entries stand for the map that holds exactly them.
proof fn lemma_same<V>(s: Seq<Named<V>>, m: Map<Seq<char>, V>)
    requires
        names_ascend(s),
        forall|n: Seq<char>| #[trigger] m.contains_key(n) ==> has_name(s, n),
        forall|i: int|
            0 <= i < s.len() ==> m.contains_key((#[trigger] s[i]).name@) && m[s[i].name@]
                == s[i].value,
    ensures
        named_map(s) == m,
{
    assert forall|n: Seq<char>| #[trigger] named_map(s).contains_key(n) implies m.contains_key(n)
        && m[n] == named_map(s)[n] by {
        let i = index_of(s, n);
        lemma_entry(s, i);
        assert(m.contains_key(s[i].name@));
    }
    assert(named_map(s) =~= m);
}

impl<V> View for NameMap<V> {
    type V = Map<Seq<char>, V>;

    closed spec fn view(&self) -> Map<Seq<char>, V> {
        named_map(self.entries@)
    }
}

impl<V> NameMap<V> {
    /// The entries stand in ascending order.
    pub closed spec fn wf(&self) -> bool {
        names_ascend(self.entries@)
    }

    /// The entries in the order of their names.
    pub closed spec fn sorted(&self) -> Seq<Named<V>> {
        self.entries@
    }

    /// The entries in order are those of the map.
    pub proof fn lemma_sorted(&self)
        requires
            self.wf(),
        ensures
            names_ascend(self.sorted()),
            self@ == named_map(self.sorted()),
            forall|i: int|
                0 <= i < self.sorted().len() ==> self@.contains_key(
                    (#[trigger] self.sorted()[i]).name@,
                ) && self@[self.sorted()[i].name@] == self.sorted()[i].value,
    {
        assert forall|i: int| 0 <= i < self.sorted().len() implies self@.contains_key(
            (#[trigger] self.sorted()[i]).name@,
        ) && self@[self.sorted()[i].name@] == self.sorted()[i].value by {
            lemma_entry(self.entries@, i);
        }
    }

    /// An empty map.
    pub fn new() -> (m: Self)
        ensures
            m.wf(),
            m@ == Map::<Seq<char>, V>::empty(),
    {
        let m = NameMap { entries: Vec::new() };
        proof {
            lemma_same(m.entries@, Map::<Seq<char>, V>::empty());
        }
        m
    }

    /// There are as many names as entries.
    proof fn lemma_len(&self)
        requires
            self.wf(),
        ensures
            self.entries@.len() == self@.dom().len(),
            self@.dom().finite(),
    {
        let s = self.entries@;
        let ks = s.map_values(|e: Named<V>| e.name@);
        assert forall|i: int, j: int|
            0 <= i < ks.len() && 0 <= j < ks.len() && i != j implies ks[i] != ks[j] by {
            lemma_entry(s, i);
            lemma_entry(s, j);
        }
        ks.unique_seq_to_set();
        assert forall|n: Seq<char>| ks.to_set().contains(n) <==> self@.dom().contains(n) by {
            if ks.to_set().contains(n) {
                let i = choose|i: int| 0 <= i < ks.len() && ks[i] == n;
                lemma_entry(s, i);
            }
            if self@.dom().contains(n) {
                assert(ks[index_of(s, n)] == n);
            }
        }
        assert(ks.to_set() =~= self@.dom());
    }

    /// Number of entries.
    pub fn len(&self) -> (n: usize)
        requires
            self.wf(),
        ensures
            n == self@.dom().len(),
            n == self.sorted().len(),
            self@.dom().finite(),
    {
        proof {
            self.lemma_len();
        }
        self.entries.len()
    }

    /// Whether the map has no entries.
    pub fn is_empty(&self) -> (b: bool)
        requires
            self.wf(),
        ensures
            b == self@.dom().is_empty(),
    {
        proof {
            self.lemma_len();
            if self.entries@.len() > 0 {
                lemma_entry(self.entries@, 0);
            }
        }
        self.entries.len() == 0
    }

    /// Index of the first entry whose name does not come before `name`.
    fn lower_bound(&self, name: &str) -> (r: usize)
        requires
            self.wf(),
        ensures
            r <= self.entries@.len(),
            forall|i: int| 0 <= i < r ==> text::text_lt((#[trigger] self.entries@[i]).name@, name@),
            forall|i: int|
                r <= i < self.entries@.len() ==> !text::text_lt(
                    (#[trigger] self.entries@[i]).name@,
                    name@,
                ),
    {
        let mut i: usize = 0;
        while i < self.entries.len() && text_less(self.entries[i].name.as_str(), name)
            invariant
                i <= self.entries@.len(),
                forall|k: int| 0 <= k < i ==> text::text_lt((#[trigger] self.entries@[k]).name@, name@),
            decreases self.entries@.len() - i,
        {
            i += 1;
        }
        proof {
            let s = self.entries@;
            assert forall|k: int| i <= k < s.len() implies !text::text_lt(
                (#[trigger] s[k]).name@,
                name@,
            ) by {
                if k > i && text::text_lt(s[k].name@, name@) {
                    assert(text::text_lt(s[i as int].name@, s[k].name@));
                    text::text_lt_transitive(s[i as int].name@, s[k].name@, name@);
                }
            }
        }
        i
    }

    /// Index of the entry with a name.
    pub fn position(&self, name: &str) -> (r: Option<usize>)
        requires
            self.wf(),
        ensures
            match r {
                Some(i) => i < self.sorted().len() && self.sorted()[i as int].name@ == name@
                    && self@.contains_key(name@) && self@[name@] == self.sorted()[i as int].value,
                None => !self@.contains_key(name@),
            },
    {
        let i: usize = self.lower_bound(name);
        let ghost s = self.entries@;
        if i < self.entries.len() && !text_less(name, self.entries[i].name.as_str()) {
            proof {
                text::text_lt_total(s[i as int].name@, name@);
                lemma_entry(s, i as int);
            }
            Some(i)
        } else {
            proof {
                if self@.contains_key(name@) {
                    let x = index_of(s, name@);
                    text::text_lt_irreflexive(name@);
                    assert(x >= i);
                    if x > i {
                        assert(text::text_lt(s[i as int].name@, s[x].name@));
                    }
                }
            }
            None
        }
    }

    /// Adds an entry; the value that had the name before is handed back.
    pub fn insert(&mut self, name: String, value: V) -> (prev: Option<V>)
        requires
            old(self).wf(),
        ensures
            final(self).wf(),
            final(self)@ == old(self)@.insert(name@, value),
            prev == if old(self)@.contains_key(name@) {
                Some(old(self)@[name@])
            } else {
                None
            },
    {
        let ghost s = self.entries@;
        let ghost n = name@;
        match self.position(name.as_str()) {
            Some(i) => {
                let entry = self.entries.remove(i);
                self.entries.insert(i, Named { name, value });
                proof {
                    let t = self.entries@;
                    let m = named_map(s).insert(n, value);
                    assert(t =~= s.update(i as int, Named { name, value }));
                    assert forall|x: Seq<char>| #[trigger] m.contains_key(x) implies has_name(
                        t,
                        x,
                    ) by {
                        if x == n {
                            assert(t[i as int].name@ == x);
                        } else {
                            assert(t[index_of(s, x)].name@ == x);
                        }
                    }
                    assert forall|k: int| 0 <= k < t.len() implies m.contains_key(
                        (#[trigger] t[k]).name@,
                    ) && m[t[k].name@] == t[k].value by {
                        lemma_entry(s, k);
                        lemma_entry(s, i as int);
                    }
                    lemma_same(t, m);
                }
                Some(entry.value)
            },
            None => {
                let i: usize = self.lower_bound(name.as_str());
                self.entries.insert(i, Named { name, value });
                proof {
                    let t = self.entries@;
                    let m = named_map(s).insert(n, value);
                    assert forall|a: int, b: int| 0 <= a < b < t.len() implies text::text_lt(
                        (#[trigger] t[a]).name@,
                        (#[trigger] t[b]).name@,
                    ) by {
                        if a == i {
                            assert(t[b] == s[b - 1]);
                            text::text_lt_total(s[b - 1].name@, n);
                            lemma_entry(s, b - 1);
                        } else if b == i {
                            assert(t[a] == s[a]);
                        } else {
                            let x = if a < i {
                                a
                            } else {
                                a - 1
                            };
                            let y = if b < i {
                                b
                            } else {
                                b - 1
                            };
                            assert(text::text_lt(s[x].name@, s[y].name@));
                        }
                    }
                    assert forall|x: Seq<char>| #[trigger] m.contains_key(x) implies has_name(
                        t,
                        x,
                    ) by {
                        if x == n {
                            assert(t[i as int].name@ == x);
                        } else {
                            let k = index_of(s, x);
                            if k < i {
                                assert(t[k].name@ == x);
                            } else {
                                assert(t[k + 1].name@ == x);
                            }
                        }
                    }
                    assert forall|k: int| 0 <= k < t.len() implies m.contains_key(
                        (#[trigger] t[k]).name@,
                    ) && m[t[k].name@] == t[k].value by {
                        if k < i {
                            lemma_entry(s, k);
                        } else if k > i {
                            lemma_entry(s, k - 1);
                        }
                    }
                    lemma_same(t, m);
                }
                None
            },
        }
    }

    /// Removes an entry and hands its value back.
    pub fn remove(&mut self, name: &str) -> (prev: Option<V>)
        requires
            old(self).wf(),
        ensures
            final(self).wf(),
            final(self)@ == old(self)@.remove(name@),
            prev == if old(self)@.contains_key(name@) {
                Some(old(self)@[name@])
            } else {
                None
            },
    {
        let ghost s = self.entries@;
        match self.position(name) {
            Some(i) => {
                let entry = self.entries.remove(i);
                proof {
                    let t = self.entries@;
                    let m = named_map(s).remove(name@);
                    assert forall|a: int, b: int| 0 <= a < b < t.len() implies text::text_lt(
                        (#[trigger] t[a]).name@,
                        (#[trigger] t[b]).name@,
                    ) by {
                        let x = if a < i {
                            a
                        } else {
                            a + 1
                        };
                        let y = if b < i {
                            b
                        } else {
                            b + 1
                        };
                        assert(text::text_lt(s[x].name@, s[y].name@));
                    }
                    assert forall|x: Seq<char>| #[trigger] m.contains_key(x) implies has_name(
                        t,
                        x,
                    ) by {
                        let k = index_of(s, x);
                        if k < i {
                            assert(t[k].name@ == x);
                        } else {
                            assert(k != i);
                            assert(t[k - 1].name@ == x);
                        }
                    }
                    assert forall|k: int| 0 <= k < t.len() implies m.contains_key(
                        (#[trigger] t[k]).name@,
                    ) && m[t[k].name@] == t[k].value by {
                        let x = if k < i {
                            k
                        } else {
                            k + 1
                        };
                        lemma_entry(s, x);
                        lemma_entry(s, i as int);
                    }
                    lemma_same(t, m);
                }
                Some(entry.value)
            },
            None => {
                assert(self@.remove(name@) =~= self@);
                None
            },
        }
    }

    /// The value of a name.
    pub fn get(&self, name: &str) -> (r: Option<&V>)
        requires
            self.wf(),
        ensures
            match r {
                Some(v) => self@.contains_key(name@) && *v == self@[name@],
                None => !self@.contains_key(name@),
            },
    {
        match self.position(name) {
            Some(i) => Some(&self.entries[i].value),
            None => None,
        }
    }

    /// The name at a position of the order.
    pub fn name_at(&self, i: usize) -> (r: &String)
        requires
            i < self.sorted().len(),
        ensures
            r@ == self.sorted()[i as int].name@,
    {
        &self.entries[i].name
    }

    /// The value at a position of the order.
    pub fn value_at(&self, i: usize) -> (r: &V)
        requires
            i < self.sorted().len(),
        ensures
            *r == self.sorted()[i as int].value,
    {
        &self.entries[i].value
    }

    /// All names in order.
    pub fn names(&self) -> (r: Vec<String>)
        ensures
            r@.len() == self.sorted().len(),
            forall|i: int| 0 <= i < r@.len() ==> (#[trigger] r@[i])@ == self.sorted()[i].name@,
    {
        let mut r: Vec<String> = Vec::new();
        let mut i: usize = 0;
        while i < self.entries.len()
            invariant
                i <= self.entries@.len(),
                r@.len() == i,
                forall|k: int| 0 <= k < i ==> (#[trigger] r@[k])@ == self.entries@[k].name@,
            decreases self.entries@.len() - i,
        {
            r.push(self.entries[i].name.clone());
            i += 1;
        }
        r
    }
}

} // verus!
