//! A map kept as a list of entries, for keys that are compared by a model.

use vstd::prelude::*;

verus! {

/// A value that entries can be found by.
pub trait Key: Sized {
    /// Model of the key: two keys find the same entry if and only if their
    /// models are equal.
    type Model;

    spec fn key(&self) -> Self::Model;

    /// Whether two keys find the same entry.
    fn same_key(&self, other: &Self) -> (r: bool)
        ensures
            r == (self.key() == other.key()),
    ;
}

impl Key for String {
    type Model = Seq<char>;

    open spec fn key(&self) -> Seq<char> {
        self@
    }

    fn same_key(&self, other: &Self) -> (r: bool) {
        *self == *other
    }
}

/// Entries by key, each key at most once.
pub struct Table<K: Key, V> {
    entries: Vec<(K, V)>,
}

/// `i` is the place of the entry with the key `k`.
spec fn found<K: Key, V>(entries: Seq<(K, V)>, k: K::Model, i: int) -> bool {
    0 <= i < entries.len() && entries[i].0.key() == k
}

/// Some entry has the key `k`.
spec fn has<K: Key, V>(entries: Seq<(K, V)>, k: K::Model) -> bool {
    exists|i: int| found(entries, k, i)
}

impl<K: Key, V> View for Table<K, V> {
    type V = Map<K::Model, V>;

    closed spec fn view(&self) -> Map<K::Model, V> {
        Map::new(
            |k: K::Model| has(self.entries@, k),
            |k: K::Model| self.entries@[choose|i: int| found(self.entries@, k, i)].1,
        )
    }
}

impl<K: Key, V> Table<K, V> {
    /// No key occurs twice.
    pub closed spec fn wf(&self) -> bool {
        forall|i: int, j: int|
            0 <= i < self.entries@.len() && 0 <= j < self.entries@.len() && (
            #[trigger] self.entries@[i]).0.key() == (#[trigger] self.entries@[j]).0.key() ==> i == j
    }

    /// The table without entries.
    pub fn new() -> (r: Self)
        ensures
            r.wf(),
            r@ == Map::<K::Model, V>::empty(),
    {
        let r: Self = Table { entries: Vec::new() };
        assert(r@ =~= Map::<K::Model, V>::empty());
        r
    }

    fn position(&self, k: &K) -> (r: Option<usize>)
        ensures
            match r {
                Some(i) => found(self.entries@, k.key(), i as int),
                None => forall|i: int| !found(self.entries@, k.key(), i),
            },
    {
        let mut i: usize = 0;
        while i < self.entries.len()
            invariant
                i <= self.entries@.len(),
                forall|j: int| 0 <= j < i ==> !found(self.entries@, k.key(), j),
            decreases self.entries@.len() - i,
        {
            if self.entries[i].0.same_key(k) {
                return Some(i);
            }
            i = i + 1;
        }
        None
    }

    /// The value at the key.
    pub fn get(&self, k: &K) -> (r: Option<&V>)
        requires
            self.wf(),
        ensures
            match r {
                Some(v) => self@.contains_key(k.key()) && *v == self@[k.key()],
                None => !self@.contains_key(k.key()),
            },
    {
        match self.position(k) {
            Some(i) => Some(&self.entries[i].1),
            None => None,
        }
    }

    /// Drops the entry at the key and hands its value out.
    pub fn remove(&mut self, k: &K) -> (r: Option<V>)
        requires
            old(self).wf(),
        ensures
            final(self).wf(),
            final(self)@ == old(self)@.remove(k.key()),
            match r {
                Some(v) => old(self)@.contains_key(k.key()) && v == old(self)@[k.key()],
                None => !old(self)@.contains_key(k.key()),
            },
    {
        match self.position(k) {
            Some(i) => {
                let ghost before = self.entries@;
                let (_, v): (K, V) = self.entries.remove(i);
                proof {
                    let after = self.entries@;
                    assert(after == before.remove(i as int));
                    assert forall|q: K::Model| q != k.key() implies has(before, q) == #[trigger] has(
                        after,
                        q,
                    ) by {
                        if has(before, q) {
                            let j = choose|j: int| found(before, q, j);
                            assert(found(after, q, if j < i {
                                j
                            } else {
                                j - 1
                            }));
                        }
                        if has(after, q) {
                            let j = choose|j: int| found(after, q, j);
                            assert(found(before, q, if j < i {
                                j
                            } else {
                                j + 1
                            }));
                        }
                    }
                    assert forall|j: int| !found(after, k.key(), j) by {
                        if found(after, k.key(), j) {
                            let j2 = if j < i {
                                j
                            } else {
                                j + 1
                            };
                            assert(before[j2].0.key() == before[i as int].0.key());
                        }
                    }
                    assert forall|a: int, b: int|
                        0 <= a < after.len() && 0 <= b < after.len() && (
                        #[trigger] after[a]).0.key() == (
                        #[trigger] after[b]).0.key() implies a == b by {
                        let a2 = if a < i {
                            a
                        } else {
                            a + 1
                        };
                        let b2 = if b < i {
                            b
                        } else {
                            b + 1
                        };
                        assert(before[a2].0.key() == before[b2].0.key());
                    }
                    assert forall|q: K::Model| q != k.key() && self@.contains_key(q) implies self@[q]
                        == old(self)@[q] by {
                        let j = choose|j: int| found(after, q, j);
                        let j0 = choose|j: int| found(before, q, j);
                        let j2 = if j < i {
                            j
                        } else {
                            j + 1
                        };
                        assert(found(before, q, j2));
                        assert(before[j2].0.key() == before[j0].0.key());
                    }
                    assert(self@ =~= old(self)@.remove(k.key()));
                }
                Some(v)
            },
            None => {
                assert(self@ =~= old(self)@.remove(k.key()));
                None
            },
        }
    }

    /// Puts a value at the key, in place of the one that is there.
    pub fn insert(&mut self, k: K, v: V)
        requires
            old(self).wf(),
        ensures
            final(self).wf(),
            final(self)@ == old(self)@.insert(k.key(), v),
    {
        let _ = self.remove(&k);
        let ghost before = self.entries@;
        let ghost mid = self@;
        let ghost kk = k.key();
        self.entries.push((k, v));
        proof {
            let after = self.entries@;
            let n = before.len() as int;
            assert(!mid.contains_key(kk));
            assert forall|j: int| !found(before, kk, j) by {
                if found(before, kk, j) {
                    assert(mid.contains_key(kk));
                }
            }
            assert(found(after, kk, n));
            assert forall|a: int, b: int|
                0 <= a < after.len() && 0 <= b < after.len() && (#[trigger] after[a]).0.key() == (
                #[trigger] after[b]).0.key() implies a == b by {
                if a < n && b < n {
                    assert(before[a].0.key() == before[b].0.key());
                } else if a < n {
                    assert(found(before, kk, a));
                } else if b < n {
                    assert(found(before, kk, b));
                }
            }
            assert forall|q: K::Model| q != kk implies has(before, q) == #[trigger] has(after, q) by {
                if has(before, q) {
                    let j = choose|j: int| found(before, q, j);
                    assert(found(after, q, j));
                }
                if has(after, q) {
                    let j = choose|j: int| found(after, q, j);
                    assert(found(before, q, j));
                }
            }
            assert forall|q: K::Model| q != kk && self@.contains_key(q) implies self@[q] == mid[q] by {
                let j = choose|j: int| found(after, q, j);
                let j0 = choose|j: int| found(before, q, j);
                assert(found(after, q, j0));
                assert(after[j].0.key() == after[j0].0.key());
            }
            let j = choose|j: int| found(after, kk, j);
            assert(after[j].0.key() == after[n].0.key());
            assert(has(after, kk));
            assert(self@[kk] == v);
            assert forall|q: K::Model| #[trigger] self@.contains_key(q) == old(self)@.insert(
                kk,
                v,
            ).contains_key(q) by {
                assert(self@.contains_key(q) == has(after, q));
                assert(mid.contains_key(q) == has(before, q));
            }
            assert forall|q: K::Model| #[trigger] self@.contains_key(q) implies self@[q] == old(
                self,
            )@.insert(kk, v)[q] by {
                if q != kk {
                    assert(mid[q] == old(self)@[q]);
                }
            }
            assert(self@.dom() =~= old(self)@.insert(kk, v).dom());
            assert(self@ =~= old(self)@.insert(kk, v));
        }
    }
}

} // verus!
