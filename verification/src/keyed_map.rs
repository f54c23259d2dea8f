//! An ordered map from string keys to values, iterated in key order.

use vstd::prelude::*;
use crate::ir::WorkflowIrNode;
use crate::text::{key_lt, lemma_key_irreflexive, lemma_key_total, lemma_key_transitive, str_eq, str_lt};

verus! {

/// A map from `String` keys to values that keeps its entries sorted by key
/// (the byte order of `String`), so iteration is deterministic.
#[derive(Clone, Debug, PartialEq, Eq)]
pub struct KeyedMap<V> {
    entries: Vec<(String, V)>,
}

impl<V> KeyedMap<V> {
    /// Number of entries.
    pub closed spec fn len(&self) -> nat {
        self.entries@.len()
    }

    /// The key of the entry at position `i`.
    pub closed spec fn key(&self, i: int) -> Seq<char> {
        self.entries@[i].0@
    }

    /// The value of the entry at position `i`.
    pub closed spec fn value(&self, i: int) -> V {
        self.entries@[i].1
    }

    /// The keys in iteration order.
    pub open spec fn keys(&self) -> Seq<Seq<char>> {
        Seq::new(self.len(), |i: int| self.key(i))
    }

    /// The values in iteration order.
    pub open spec fn values(&self) -> Seq<V> {
        Seq::new(self.len(), |i: int| self.value(i))
    }

    /// Keys are strictly increasing.
    pub open spec fn wf(&self) -> bool {
        forall|i: int, j: int| 0 <= i < j < self.len() ==> key_lt(#[trigger] self.key(i), #[trigger] self.key(j))
    }

    /// Whether `k` is a key.
    pub open spec fn contains(&self, k: Seq<char>) -> bool {
        exists|i: int| 0 <= i < self.len() && #[trigger] self.key(i) == k
    }

    /// The position of key `k`.
    pub open spec fn index_of(&self, k: Seq<char>) -> int {
        choose|i: int| 0 <= i < self.len() && #[trigger] self.key(i) == k
    }

    /// The value stored under `k`, if any.
    pub open spec fn lookup(&self, k: Seq<char>) -> Option<V> {
        if self.contains(k) {
            Some(self.value(self.index_of(k)))
        } else {
            None
        }
    }

    /// In a well-formed map, a key sits at exactly one position.
    pub proof fn lemma_unique_position(&self, i: int, k: Seq<char>)
        requires
            self.wf(),
            0 <= i < self.len(),
            self.key(i) == k,
        ensures
            self.contains(k),
            self.index_of(k) == i,
            self.lookup(k) == Some(self.value(i)),
    {
        assert(self.contains(k));
        let j = self.index_of(k);
        if j < i {
            assert(key_lt(self.key(j), self.key(i)));
            lemma_key_irreflexive(k);
        } else if i < j {
            assert(key_lt(self.key(i), self.key(j)));
            lemma_key_irreflexive(k);
        }
    }

    /// An empty map.
    pub fn new() -> (m: Self)
        ensures
            m.wf(),
            m.len() == 0,
            forall|k: Seq<char>| #[trigger] m.lookup(k) == None::<V>,
    {
        KeyedMap { entries: Vec::new() }
    }

    /// Number of entries.
    pub fn size(&self) -> (r: usize)
        ensures
            r == self.len(),
    {
        self.entries.len()
    }

    /// The key at position `i`.
    pub fn key_at(&self, i: usize) -> (r: &String)
        requires
            i < self.len(),
        ensures
            r@ == self.key(i as int),
    {
        &self.entries[i].0
    }

    /// The value at position `i`.
    pub fn value_at(&self, i: usize) -> (r: &V)
        requires
            i < self.len(),
        ensures
            *r == self.value(i as int),
    {
        &self.entries[i].1
    }

    /// The position of `key`, if present.
    pub fn position(&self, key: &String) -> (r: Option<usize>)
        requires
            self.wf(),
        ensures
            r is None <==> !self.contains(key@),
            r matches Some(i) ==> i < self.len() && self.key(i as int) == key@ && self.index_of(key@) == i,
    {
        let mut i: usize = 0;
        while i < self.entries.len()
            invariant
                i <= self.len(),
                self.wf(),
                forall|j: int| 0 <= j < i ==> #[trigger] self.key(j) != key@,
            decreases self.len() - i,
        {
            if str_eq(&self.entries[i].0, key) {
                proof {
                    self.lemma_unique_position(i as int, key@);
                }
                return Some(i);
            }
            i += 1;
        }
        None
    }

    /// The value stored under `key`, if any.
    pub fn get(&self, key: &String) -> (r: Option<&V>)
        requires
            self.wf(),
        ensures
            r matches Some(v) ==> self.lookup(key@) == Some(*v),
            r is None ==> self.lookup(key@) is None,
    {
        match self.position(key) {
            Some(i) => {
                proof {
                    self.lemma_unique_position(i as int, key@);
                }
                Some(&self.entries[i].1)
            },
            None => None,
        }
    }

    /// Whether `key` is present.
    pub fn contains_key(&self, key: &String) -> (r: bool)
        requires
            self.wf(),
        ensures
            r == self.contains(key@),
    {
        self.position(key).is_some()
    }

    /// Inserts `value` under `key`, returning the value it replaces.
    pub fn insert(&mut self, key: String, value: V) -> (r: Option<V>)
        requires
            old(self).wf(),
        ensures
            final(self).wf(),
            r == old(self).lookup(key@),
            final(self).lookup(key@) == Some(value),
            forall|k: Seq<char>| k != key@ ==> #[trigger] final(self).lookup(k) == old(self).lookup(k),
            forall|k: Seq<char>| #[trigger] final(self).contains(k) <==> (k == key@ || old(self).contains(k)),
            final(self).len() == old(self).len() + if old(self).contains(key@) { 0int } else { 1int },
    {
        let ghost k0 = key@;
        let mut p: usize = 0;
        while p < self.entries.len() && str_lt(self.entries[p].0.as_str(), key.as_str())
            invariant
                p <= self.len(),
                self.wf(),
                forall|j: int| 0 <= j < p ==> key_lt(#[trigger] self.key(j), k0),
                key@ == k0,
            decreases self.len() - p,
        {
            p += 1;
        }
        let ghost old_map = *self;
        if p < self.entries.len() && str_eq(&self.entries[p].0, &key) {
            proof {
                old_map.lemma_unique_position(p as int, k0);
            }
            let old_entry = self.entries.remove(p);
            self.entries.insert(p, (key, value));
            proof {
                assert forall|i: int, j: int| 0 <= i < j < self.len() implies key_lt(#[trigger] self.key(i), #[trigger] self.key(j)) by {
                    assert(self.key(i) == old_map.key(i));
                    assert(self.key(j) == old_map.key(j));
                }
                self.lemma_unique_position(p as int, k0);
                assert forall|k: Seq<char>| k != k0 implies #[trigger] self.lookup(k) == old_map.lookup(k) by {
                    if old_map.contains(k) {
                        let q = old_map.index_of(k);
                        old_map.lemma_unique_position(q, k);
                        assert(self.key(q) == k);
                        self.lemma_unique_position(q, k);
                    }
                    if self.contains(k) {
                        let q = self.index_of(k);
                        assert(old_map.key(q) == k);
                    }
                }
                assert forall|k: Seq<char>| #[trigger] self.contains(k) <==> (k == k0 || old_map.contains(k)) by {
                    if old_map.contains(k) {
                        let q = old_map.index_of(k);
                        assert(self.key(q) == k);
                    }
                    if self.contains(k) {
                        let q = self.index_of(k);
                        assert(old_map.key(q) == k);
                    }
                }
            }
            Some(old_entry.1)
        } else {
            proof {
                if p < old_map.len() {
                    lemma_key_total(old_map.key(p as int), k0);
                    assert(key_lt(k0, old_map.key(p as int)));
                }
                assert(!old_map.contains(k0)) by {
                    if old_map.contains(k0) {
                        let q = old_map.index_of(k0);
                        if q < p {
                            assert(key_lt(old_map.key(q), k0));
                            lemma_key_irreflexive(k0);
                        } else {
                            if q > p {
                                assert(key_lt(old_map.key(p as int), old_map.key(q)));
                                lemma_key_transitive(k0, old_map.key(p as int), k0);
                            }
                            lemma_key_irreflexive(k0);
                        }
                    }
                }
            }
            self.entries.insert(p, (key, value));
            proof {
                assert forall|i: int, j: int| 0 <= i < j < self.len() implies key_lt(#[trigger] self.key(i), #[trigger] self.key(j)) by {
                    if j < p {
                        assert(self.key(i) == old_map.key(i));
                        assert(self.key(j) == old_map.key(j));
                    } else if j == p {
                        assert(self.key(i) == old_map.key(i));
                    } else if i < p {
                        assert(self.key(i) == old_map.key(i));
                        assert(self.key(j) == old_map.key(j - 1));
                        assert(key_lt(k0, old_map.key(p as int)));
                        if j - 1 > p {
                            assert(key_lt(old_map.key(p as int), old_map.key(j - 1)));
                            lemma_key_transitive(k0, old_map.key(p as int), old_map.key(j - 1));
                        }
                        lemma_key_transitive(self.key(i), k0, self.key(j));
                    } else if i == p {
                        assert(self.key(j) == old_map.key(j - 1));
                        if j - 1 > p {
                            assert(key_lt(old_map.key(p as int), old_map.key(j - 1)));
                            lemma_key_transitive(k0, old_map.key(p as int), old_map.key(j - 1));
                        }
                    } else {
                        assert(self.key(i) == old_map.key(i - 1));
                        assert(self.key(j) == old_map.key(j - 1));
                    }
                }
                self.lemma_unique_position(p as int, k0);
                assert forall|k: Seq<char>| k != k0 implies #[trigger] self.lookup(k) == old_map.lookup(k) by {
                    if old_map.contains(k) {
                        let q = old_map.index_of(k);
                        old_map.lemma_unique_position(q, k);
                        let q2 = if q < p { q } else { q + 1 };
                        assert(self.key(q2) == k);
                        self.lemma_unique_position(q2, k);
                    }
                    if self.contains(k) {
                        let q = self.index_of(k);
                        let q2 = if q < p { q } else { q - 1 };
                        assert(old_map.key(q2) == k);
                    }
                }
                assert forall|k: Seq<char>| #[trigger] self.contains(k) <==> (k == k0 || old_map.contains(k)) by {
                    if old_map.contains(k) {
                        let q = old_map.index_of(k);
                        let q2 = if q < p { q } else { q + 1 };
                        assert(self.key(q2) == k);
                    }
                    if self.contains(k) && k != k0 {
                        let q = self.index_of(k);
                        let q2 = if q < p { q } else { q - 1 };
                        assert(old_map.key(q2) == k);
                    }
                }
            }
            None
        }
    }
}

impl<V> KeyedMap<V> {
    /// Replaces the value at position `i`, keeping every key.
    pub fn set_value_at(&mut self, i: usize, value: V)
        requires
            old(self).wf(),
            i < old(self).len(),
        ensures
            final(self).wf(),
            final(self).len() == old(self).len(),
            forall|j: int| 0 <= j < final(self).len() ==> #[trigger] final(self).key(j) == old(self).key(j),
            final(self).value(i as int) == value,
            forall|j: int| 0 <= j < final(self).len() && j != i ==> #[trigger] final(self).value(j) == old(self).value(j),
    {
        let (k, _) = self.entries.remove(i);
        self.entries.insert(i, (k, value));
        assert forall|a: int, b: int| 0 <= a < b < self.len() implies key_lt(#[trigger] self.key(a), #[trigger] self.key(b)) by {
            assert(self.key(a) == old(self).key(a));
            assert(self.key(b) == old(self).key(b));
        }
    }

    /// Keeps the entries at the positions `keep` marks and drops the rest,
    /// preserving order.
    pub fn retain_positions(&mut self, keep: &Vec<bool>)
        requires
            old(self).wf(),
            keep@.len() == old(self).len(),
        ensures
            final(self).wf(),
            forall|k: Seq<char>| #[trigger] final(self).lookup(k) == if old(self).contains(k) && keep@[old(self).index_of(k)] {
                old(self).lookup(k)
            } else {
                None
            },
    {
        let ghost old_map = *self;
        let mut rest: Vec<(String, V)> = Vec::new();
        std::mem::swap(&mut rest, &mut self.entries);
        let ghost all = rest@;
        let n = rest.len();
        let mut i: usize = 0;
        let ghost mut picked: Seq<int> = Seq::empty();
        while i < n
            invariant
                old_map.wf(),
                all == old_map.entries@,
                n == all.len(),
                keep@.len() == n,
                i <= n,
                rest@ == all.subrange(i as int, n as int),
                self.entries@.len() == picked.len(),
                forall|t: int| 0 <= t < picked.len() ==> 0 <= #[trigger] picked[t] < i && keep@[picked[t]]
                    && self.entries@[t] == all[picked[t]],
                forall|t: int, u: int| 0 <= t < u < picked.len() ==> #[trigger] picked[t] < #[trigger] picked[u],
                forall|j: int| 0 <= j < i && keep@[j] ==> exists|t: int| 0 <= t < picked.len() && #[trigger] picked[t] == j,
            decreases n - i,
        {
            let e = rest.remove(0);
            if keep[i] {
                self.entries.push(e);
                proof {
                    let ghost old_picked = picked;
                    picked = picked.push(i as int);
                    assert forall|j: int| 0 <= j < i + 1 && keep@[j] implies exists|t: int| 0 <= t < picked.len() && #[trigger] picked[t] == j by {
                        if j == i {
                            assert(picked[picked.len() - 1] == j);
                        } else {
                            let t = choose|t: int| 0 <= t < old_picked.len() && #[trigger] old_picked[t] == j;
                            assert(picked[t] == j);
                        }
                    }
                }
            }
            assert(rest@ =~= all.subrange(i + 1, n as int));
            i += 1;
        }
        proof {
            assert forall|a: int, b: int| 0 <= a < b < self.len() implies key_lt(#[trigger] self.key(a), #[trigger] self.key(b)) by {
                assert(self.key(a) == old_map.key(picked[a]));
                assert(self.key(b) == old_map.key(picked[b]));
            }
            assert forall|k: Seq<char>| #[trigger] self.lookup(k) == if old_map.contains(k) && keep@[old_map.index_of(k)] {
                old_map.lookup(k)
            } else {
                None
            } by {
                if self.contains(k) {
                    let t = self.index_of(k);
                    let j = picked[t];
                    assert(old_map.key(j) == k);
                    old_map.lemma_unique_position(j, k);
                    self.lemma_unique_position(t, k);
                } else if old_map.contains(k) {
                    let j = old_map.index_of(k);
                    if keep@[j] {
                        let t = choose|t: int| 0 <= t < picked.len() && #[trigger] picked[t] == j;
                        assert(self.key(t) == k);
                    }
                }
            }
        }
    }
}

impl<V> KeyedMap<V> {
    /// Keeps only the entries whose key is also a key of `other`.
    pub fn retain_keys_of<W>(&mut self, other: &KeyedMap<W>)
        requires
            old(self).wf(),
            other.wf(),
        ensures
            final(self).wf(),
            forall|k: Seq<char>| #[trigger] final(self).lookup(k) == if other.contains(k) { old(self).lookup(k) } else { None },
    {
        let mut keep: Vec<bool> = Vec::new();
        let n = self.entries.len();
        let mut i: usize = 0;
        while i < n
            invariant
                n == self.len(),
                other.wf(),
                i <= n,
                keep@.len() == i,
                forall|j: int| 0 <= j < i ==> (#[trigger] keep@[j] <==> other.contains(self.key(j))),
            decreases n - i,
        {
            let present = other.contains_key(&self.entries[i].0);
            keep.push(present);
            i += 1;
        }
        let ghost old_map = *self;
        self.retain_positions(&keep);
        proof {
            assert forall|k: Seq<char>| #[trigger] self.lookup(k) == if other.contains(k) { old_map.lookup(k) } else { None } by {
                if old_map.contains(k) {
                    let j = old_map.index_of(k);
                    old_map.lemma_unique_position(j, k);
                    assert(keep@[j] == other.contains(k));
                }
            }
        }
    }
}

impl<V> KeyedMap<V> {
    /// Removes the entry under `key`, if any.
    pub fn remove(&mut self, key: &String)
        requires
            old(self).wf(),
        ensures
            final(self).wf(),
            forall|k: Seq<char>| #[trigger] final(self).lookup(k) == if k == key@ { None } else { old(self).lookup(k) },
            final(self).len() == old(self).len() - if old(self).contains(key@) { 1int } else { 0int },
    {
        let ghost old_map = *self;
        match self.position(key) {
            None => {},
            Some(p) => {
                self.entries.remove(p);
                proof {
                    assert(self.entries@ =~= old_map.entries@.remove(p as int));
                    assert forall|a: int, b: int| 0 <= a < b < self.len() implies key_lt(#[trigger] self.key(a), #[trigger] self.key(b)) by {
                        let a2 = if a < p { a } else { a + 1 };
                        let b2 = if b < p { b } else { b + 1 };
                        assert(self.key(a) == old_map.key(a2));
                        assert(self.key(b) == old_map.key(b2));
                    }
                    assert forall|k: Seq<char>| #[trigger] self.lookup(k) == if k == key@ { None } else { old_map.lookup(k) } by {
                        if self.contains(k) {
                            let q = self.index_of(k);
                            let q2 = if q < p { q } else { q + 1 };
                            assert(old_map.key(q2) == k);
                            old_map.lemma_unique_position(q2, k);
                            self.lemma_unique_position(q, k);
                            if k == key@ {
                                old_map.lemma_unique_position(p as int, k);
                            }
                        } else if old_map.contains(k) && k != key@ {
                            let q = old_map.index_of(k);
                            old_map.lemma_unique_position(q, k);
                            old_map.lemma_unique_position(p as int, key@);
                            let q2 = if q < p { q } else { q - 1 };
                            assert(self.key(q2) == k);
                        }
                    }
                }
            },
        }
        proof {
            if !old_map.contains(key@) {
                assert forall|k: Seq<char>| #[trigger] self.lookup(k) == if k == key@ { None } else { old_map.lookup(k) } by {}
            }
        }
    }
}

impl KeyedMap<WorkflowIrNode> {
    /// A copy of this map: same keys, same nodes.
    pub fn duplicate(&self) -> (r: Self)
        requires
            self.wf(),
        ensures
            r.wf(),
            r.len() == self.len(),
            forall|i: int| 0 <= i < r.len() ==> #[trigger] r.key(i) == self.key(i),
            forall|i: int| 0 <= i < r.len() ==> (#[trigger] r.value(i)).node_view() == self.value(i).node_view(),
    {
        let mut entries: Vec<(String, WorkflowIrNode)> = Vec::new();
        let mut i: usize = 0;
        while i < self.entries.len()
            invariant
                i <= self.len(),
                entries@.len() == i,
                forall|j: int| 0 <= j < i ==> #[trigger] entries@[j].0@ == self.key(j)
                    && entries@[j].1.node_view() == self.value(j).node_view(),
            decreases self.len() - i,
        {
            entries.push((self.entries[i].0.clone(), self.entries[i].1.duplicate()));
            i += 1;
        }
        let ghost ev = entries@;
        let r = KeyedMap { entries };
        assert forall|a: int, b: int| 0 <= a < b < r.len() implies key_lt(#[trigger] r.key(a), #[trigger] r.key(b)) by {
            assert(r.key(a) == self.key(a));
            assert(r.key(b) == self.key(b));
        }
        assert forall|i: int| 0 <= i < r.len() implies (#[trigger] r.value(i)).node_view() == self.value(i).node_view() by {
            assert(r.value(i) == ev[i].1);
            assert(ev[i].0@ == self.key(i));
        }
        r
    }
}

impl KeyedMap<String> {
    /// A copy of this map: same keys, same values.
    pub fn duplicate_strings(&self) -> (r: Self)
        requires
            self.wf(),
        ensures
            r.wf(),
            r.len() == self.len(),
            forall|i: int| 0 <= i < r.len() ==> #[trigger] r.key(i) == self.key(i),
            forall|i: int| 0 <= i < r.len() ==> #[trigger] r.value(i)@ == self.value(i)@,
    {
        let mut entries: Vec<(String, String)> = Vec::new();
        let mut i: usize = 0;
        while i < self.entries.len()
            invariant
                i <= self.len(),
                entries@.len() == i,
                forall|j: int| 0 <= j < i ==> #[trigger] entries@[j].0@ == self.key(j) && entries@[j].1@ == self.value(j)@,
            decreases self.len() - i,
        {
            entries.push((self.entries[i].0.clone(), self.entries[i].1.clone()));
            i += 1;
        }
        let ghost ev = entries@;
        let r = KeyedMap { entries };
        assert forall|a: int, b: int| 0 <= a < b < r.len() implies key_lt(#[trigger] r.key(a), #[trigger] r.key(b)) by {
            assert(r.key(a) == self.key(a));
            assert(r.key(b) == self.key(b));
        }
        assert forall|i: int| 0 <= i < r.len() implies #[trigger] r.value(i)@ == self.value(i)@ by {
            assert(ev[i].0@ == self.key(i));
            assert(r.value(i) == ev[i].1);
        }
        r
    }
}

} // verus!
