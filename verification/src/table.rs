//! Table keyed by peer or by name.

use vstd::prelude::*;
use crate::bytes::constant_time_eq;
use crate::peer::PeerId;

verus! {

/// Key of a table: two keys are the same when their views are.
pub trait Key: View + Sized {
    /// Whether two keys are the same.
    fn same(&self, other: &Self) -> (r: bool)
        ensures
            r == (self@ == other@),
    ;

    /// A copy of the key.
    fn copy(&self) -> (r: Self)
        ensures
            r@ == self@,
    ;
}

impl Key for PeerId {
    fn same(&self, other: &Self) -> (r: bool) {
        PeerId::same(self, other)
    }

    fn copy(&self) -> (r: Self) {
        self.clone()
    }
}

impl Key for String {
    fn same(&self, other: &Self) -> (r: bool) {
        *self == *other
    }

    fn copy(&self) -> (r: Self) {
        self.clone()
    }
}

/// Table that holds at most one value per key. Its view is a map from the
/// views of the keys to the values.
pub struct Table<K: Key, V> {
    entries: Vec<(K, V)>,
}

impl<K: Key, V> View for Table<K, V> {
    type V = Map<K::V, V>;

    closed spec fn view(&self) -> Map<K::V, V> {
        Map::new(|p: K::V| self.holds(p), |p: K::V| self.entries@[self.position(p)].1)
    }
}

impl<K: Key, V> Table<K, V> {
    spec fn holds(self, p: K::V) -> bool {
        exists|i: int| 0 <= i < self.entries@.len() && (#[trigger] self.entries@[i]).0@ == p
    }

    spec fn position(self, p: K::V) -> int {
        choose|i: int| 0 <= i < self.entries@.len() && (#[trigger] self.entries@[i]).0@ == p
    }

    /// No key occurs twice.
    pub closed spec fn wf(self) -> bool {
        forall|i: int, j: int|
            0 <= i < j < self.entries@.len() ==> (#[trigger] self.entries@[i]).0@ != (
            #[trigger] self.entries@[j]).0@
    }

    /// Number of entries, in the order of [`Table::entry`].
    pub closed spec fn size(self) -> nat {
        self.entries@.len()
    }

    /// The key of the entry at a position.
    pub closed spec fn key_at(self, i: int) -> K::V {
        self.entries@[i].0@
    }

    /// The value of the entry at a position.
    pub closed spec fn value_at(self, i: int) -> V {
        self.entries@[i].1
    }

    proof fn lemma_at(self, i: int)
        requires
            self.wf(),
            0 <= i < self.entries@.len(),
        ensures
            self@.contains_key(self.entries@[i].0@),
            self@[self.entries@[i].0@] == self.entries@[i].1,
    {
        let p = self.entries@[i].0@;
        assert(self.entries@[i].0@ == p);
        let j = self.position(p);
        assert(0 <= j < self.entries@.len() && self.entries@[j].0@ == p);
        assert(i == j);
    }

    /// Every entry is a pair of the map, under a key of its own, and the map
    /// has no other pair.
    pub(crate) proof fn lemma_entries(self)
        requires
            self.wf(),
        ensures
            forall|i: int|
                0 <= i < self.size() ==> self@.contains_key(#[trigger] self.key_at(i)),
            forall|i: int|
                0 <= i < self.size() ==> self@[self.key_at(i)] == #[trigger] self.value_at(i),
            forall|p: K::V| #[trigger]
                self@.contains_key(p) ==> exists|i: int|
                    0 <= i < self.size() && #[trigger] self.key_at(i) == p,
            forall|i: int, j: int|
                0 <= i < j < self.size() ==> #[trigger] self.key_at(i) != #[trigger] self.key_at(j),
    {
        assert forall|i: int| 0 <= i < self.size() implies self@.contains_key(
            #[trigger] self.key_at(i),
        ) by {
            self.lemma_at(i);
        }
        assert forall|i: int| 0 <= i < self.size() implies self@[self.key_at(i)]
            == #[trigger] self.value_at(i) by {
            self.lemma_at(i);
        }
        assert forall|p: K::V| #[trigger] self@.contains_key(p) implies exists|i: int|
            0 <= i < self.size() && #[trigger] self.key_at(i) == p by {
            let i = self.position(p);
            assert(self.holds(p));
            assert(self.key_at(i) == p);
        }
    }

    /// A table without any entry.
    pub fn new() -> (r: Self)
        ensures
            r.wf(),
            r@ == Map::<K::V, V>::empty(),
            r.size() == 0,
    {
        let r = Table { entries: Vec::new() };
        assert(r@ =~= Map::<K::V, V>::empty());
        r
    }

    fn find(&self, key: &K) -> (r: Option<usize>)
        requires
            self.wf(),
        ensures
            r is Some <==> self@.contains_key(key@),
            r matches Some(i) ==> i < self.entries@.len() && self.entries@[i as int].0@ == key@
                && self.entries@[i as int].1 == self@[key@],
    {
        let mut i: usize = 0;
        while i < self.entries.len()
            invariant
                self.wf(),
                i <= self.entries@.len(),
                forall|j: int| 0 <= j < i ==> (#[trigger] self.entries@[j]).0@ != key@,
            decreases self.entries@.len() - i,
        {
            if self.entries[i].0.same(key) {
                proof {
                    self.lemma_at(i as int);
                }
                return Some(i);
            }
            i += 1;
        }
        None
    }

    /// Whether the table holds a value for the key.
    pub fn contains(&self, key: &K) -> (r: bool)
        requires
            self.wf(),
        ensures
            r == self@.contains_key(key@),
    {
        self.find(key).is_some()
    }

    /// The value of the key.
    pub fn get(&self, key: &K) -> (r: Option<&V>)
        requires
            self.wf(),
        ensures
            r is Some <==> self@.contains_key(key@),
            r matches Some(v) ==> *v == self@[key@],
    {
        match self.find(key) {
            Some(i) => Some(&self.entries[i].1),
            None => None,
        }
    }

    /// Sets the value of the key, in place of the one it had.
    pub fn insert(&mut self, key: K, value: V)
        requires
            old(self).wf(),
        ensures
            final(self).wf(),
            final(self)@ == old(self)@.insert(key@, value),
            final(self).size() == old(self).size() + if old(self)@.contains_key(key@) {
                0int
            } else {
                1int
            },
    {
        let ghost before = *self;
        let ghost p = key@;
        match self.find(&key) {
            Some(i) => {
                self.entries.set(i, (key, value));
                proof {
                    let k = i as int;
                    assert(before.entries@[k].0@ == p);
                    assert forall|a: int, b: int| 0 <= a < b < self.entries@.len() implies (
                    #[trigger] self.entries@[a]).0@ != (#[trigger] self.entries@[b]).0@ by {
                        assert(before.entries@[a].0@ != before.entries@[b].0@);
                    }
                    assert(self.wf());
                    self.lemma_same_but(before, p, k);
                }
            },
            None => {
                self.entries.push((key, value));
                proof {
                    let k = before.entries@.len() as int;
                    assert forall|a: int, b: int| 0 <= a < b < self.entries@.len() implies (
                    #[trigger] self.entries@[a]).0@ != (#[trigger] self.entries@[b]).0@ by {
                        if b == k {
                            assert(before.entries@[a] == self.entries@[a]);
                            assert(!before.holds(p));
                        } else {
                            assert(before.entries@[a].0@ != before.entries@[b].0@);
                        }
                    }
                    assert(self.wf());
                    self.lemma_same_but(before, p, k);
                }
            },
        }
    }

    /// The map of a table that differs from another at one entry, or by one
    /// entry at its end.
    proof fn lemma_same_but(self, before: Self, p: K::V, k: int)
        requires
            self.wf(),
            before.wf(),
            0 <= k < self.entries@.len(),
            k <= before.entries@.len(),
            self.entries@.len() == before.entries@.len() || (self.entries@.len()
                == before.entries@.len() + 1 && k == before.entries@.len()),
            self.entries@[k].0@ == p,
            k < before.entries@.len() ==> before.entries@[k].0@ == p,
            forall|i: int|
                0 <= i < before.entries@.len() && i != k ==> #[trigger] self.entries@[i]
                    == before.entries@[i],
        ensures
            self@ == before@.insert(p, self.entries@[k].1),
    {
        let after = before@.insert(p, self.entries@[k].1);
        assert forall|q: K::V| self@.contains_key(q) <==> after.contains_key(q) by {
            if self@.contains_key(q) {
                let i = self.position(q);
                assert(self.entries@[i].0@ == q);
                if i != k {
                    before.lemma_at(i);
                }
            }
            if before@.contains_key(q) {
                let i = before.position(q);
                assert(before.entries@[i].0@ == q);
                if i != k {
                    self.lemma_at(i);
                } else {
                    self.lemma_at(k);
                }
            }
            self.lemma_at(k);
        }
        assert forall|q: K::V| self@.contains_key(q) implies self@[q] == after[q] by {
            let i = self.position(q);
            assert(self.entries@[i].0@ == q);
            self.lemma_at(i);
            if i != k {
                before.lemma_at(i);
                assert(q != p);
            }
        }
        assert(self@ =~= after);
    }

    /// Removes the value of the key.
    pub fn remove(&mut self, key: &K) -> (r: Option<V>)
        requires
            old(self).wf(),
        ensures
            final(self).wf(),
            final(self)@ == old(self)@.remove(key@),
            r is Some <==> old(self)@.contains_key(key@),
            r matches Some(v) ==> v == old(self)@[key@],
            final(self).size() == old(self).size() - if old(self)@.contains_key(key@) {
                1int
            } else {
                0int
            },
    {
        let ghost before = *self;
        match self.find(key) {
            Some(i) => {
                let (_, value) = self.entries.remove(i);
                proof {
                    let k = i as int;
                    let after = before@.remove(key@);
                    assert forall|a: int| 0 <= a < self.entries@.len() implies (
                    #[trigger] self.entries@[a]) == before.entries@[if a < k {
                        a
                    } else {
                        a + 1
                    }] by {}
                    assert forall|a: int, b: int| 0 <= a < b < self.entries@.len() implies (
                    #[trigger] self.entries@[a]).0@ != (#[trigger] self.entries@[b]).0@ by {
                        let x = if a < k {
                            a
                        } else {
                            a + 1
                        };
                        let y = if b < k {
                            b
                        } else {
                            b + 1
                        };
                        assert(before.entries@[x].0@ != before.entries@[y].0@);
                    }
                    assert forall|q: K::V| self@.contains_key(q) <==> after.contains_key(q) by {
                        if self@.contains_key(q) {
                            let a = self.position(q);
                            assert(self.entries@[a].0@ == q);
                            before.lemma_at(if a < k {
                                a
                            } else {
                                a + 1
                            });
                        }
                        if after.contains_key(q) {
                            let x = before.position(q);
                            assert(before.entries@[x].0@ == q);
                            assert(x != k);
                            let a = if x < k {
                                x
                            } else {
                                x - 1
                            };
                            assert(self.entries@[a] == before.entries@[x]);
                            self.lemma_at(a);
                        }
                    }
                    assert forall|q: K::V| self@.contains_key(q) implies self@[q] == after[q] by {
                        let a = self.position(q);
                        assert(self.entries@[a].0@ == q);
                        self.lemma_at(a);
                        before.lemma_at(if a < k {
                            a
                        } else {
                            a + 1
                        });
                    }
                    assert(self@ =~= after);
                }
                Some(value)
            },
            None => {
                assert(self@ =~= before@.remove(key@));
                None
            },
        }
    }

    /// Number of keys in the table.
    pub fn len(&self) -> (r: usize)
        requires
            self.wf(),
        ensures
            r == self.size(),
            r == self@.len(),
            self@.dom().finite(),
    {
        proof {
            self.lemma_len();
        }
        self.entries.len()
    }

    /// Number of entries, for a walk with [`Table::entry`].
    pub fn count(&self) -> (r: usize)
        ensures
            r == self.size(),
    {
        self.entries.len()
    }

    /// The size of the table is the number of keys of the map.
    pub(crate) proof fn lemma_len(self)
        requires
            self.wf(),
        ensures
            self@.dom().finite(),
            self@.len() == self.size(),
    {
        let keys = Seq::new(self.entries@.len(), |i: int| self.entries@[i].0@);
        assert(keys.no_duplicates());
        keys.unique_seq_to_set();
        assert(keys.to_set() =~= self@.dom()) by {
            assert forall|q: K::V| keys.to_set().contains(q) <==> self@.dom().contains(q) by {
                if keys.to_set().contains(q) {
                    let i = choose|i: int| 0 <= i < keys.len() && keys[i] == q;
                    assert(self.entries@[i].0@ == q);
                    self.lemma_at(i);
                }
                if self@.dom().contains(q) {
                    let i = self.position(q);
                    assert(self.holds(q));
                    assert(keys[i] == q);
                }
            }
        }
    }

    /// The entry at a position.
    pub fn entry(&self, i: usize) -> (r: (&K, &V))
        requires
            i < self.size(),
        ensures
            r.0@ == self.key_at(i as int),
            *r.1 == self.value_at(i as int),
    {
        let e = &self.entries[i];
        (&e.0, &e.1)
    }

    /// The keys of the table, each once.
    pub fn keys(&self) -> (r: Vec<K>)
        requires
            self.wf(),
        ensures
            r@.len() == self.size(),
            forall|i: int|
                0 <= i < r@.len() ==> self@.contains_key(#[trigger] r@[i]@),
            forall|p: K::V| #[trigger]
                self@.contains_key(p) ==> exists|i: int|
                    0 <= i < r@.len() && (#[trigger] r@[i])@ == p,
            forall|i: int, j: int|
                0 <= i < j < r@.len() ==> (#[trigger] r@[i])@ != (#[trigger] r@[j])@,
    {
        let mut out: Vec<K> = Vec::new();
        let mut i: usize = 0;
        while i < self.entries.len()
            invariant
                i <= self.entries@.len(),
                out@.len() == i,
                forall|j: int| 0 <= j < i ==> (#[trigger] out@[j])@ == self.entries@[j].0@,
            decreases self.entries@.len() - i,
        {
            out.push(self.entries[i].0.copy());
            i += 1;
        }
        proof {
            self.lemma_entries();
            assert forall|j: int| 0 <= j < out@.len() implies self@.contains_key(
                #[trigger] out@[j]@,
            ) by {
                assert(self.key_at(j) == out@[j]@);
            }
            assert forall|p: K::V| #[trigger] self@.contains_key(p) implies exists|j: int|
                0 <= j < out@.len() && (#[trigger] out@[j])@ == p by {
                let j = choose|j: int| 0 <= j < self.size() && #[trigger] self.key_at(j) == p;
                assert(out@[j]@ == p);
            }
        }
        out
    }
}

/// Table keyed by peer.
pub type PeerTable<V> = Table<PeerId, V>;

impl<V> Table<PeerId, V> {
    /// The value of the key, found by reading every entry, each compared in
    /// constant time: the time taken depends neither on the presence of the
    /// peer nor on its position.
    pub fn get_constant_time(&self, key: &PeerId) -> (r: Option<&V>)
        requires
            self.wf(),
        ensures
            r is Some <==> self@.contains_key(key@),
            r matches Some(v) ==> *v == self@[key@],
    {
        let needle = key.to_bytes();
        let mut found: Option<usize> = None;
        let mut i: usize = 0;
        while i < self.entries.len()
            invariant
                self.wf(),
                i <= self.entries@.len(),
                needle@ == key@,
                match found {
                    Some(k) => k < i && self.entries@[k as int].0@ == key@,
                    None => forall|j: int|
                        0 <= j < i ==> (#[trigger] self.entries@[j]).0@ != key@,
                },
            decreases self.entries@.len() - i,
        {
            let bytes = self.entries[i].0.to_bytes();
            let matches = bytes.len() == needle.len() && constant_time_eq(
                bytes.as_slice(),
                needle.as_slice(),
            );
            if matches {
                found = Some(i);
            }
            i += 1;
        }
        match found {
            Some(k) => {
                proof {
                    self.lemma_at(k as int);
                }
                Some(&self.entries[k].1)
            },
            None => None,
        }
    }
}

} // verus!
