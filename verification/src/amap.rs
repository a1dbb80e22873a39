//! A small map from account identifiers to values.
//!
//! Component storage needs maps whose iteration order is part of the
//! interface: every listing operation pages over "the keys, in order". The
//! map is therefore kept as a vector of entries with pairwise-distinct keys,
//! in insertion order. Its view is the abstract [`Map`] it denotes; the
//! entry sequence itself carries the order.

use crate::account::AccountId;
use vstd::prelude::*;

verus! {

/// A map from [`AccountId`] to `V`, as a unique-key entry vector.
pub struct AddrMap<V> {
    pub entries: Vec<(AccountId, V)>,
}

impl<V> View for AddrMap<V> {
    type V = Map<AccountId, V>;

    open spec fn view(&self) -> Map<AccountId, V> {
        Map::new(|k: AccountId| self.spec_contains(k), |k: AccountId| self.spec_get(k))
    }
}

impl<V> AddrMap<V> {
    /// Well-formed: no key occurs twice.
    pub open spec fn wf(self) -> bool {
        forall|i: int, j: int|
            0 <= i < j < self.entries@.len() ==> (#[trigger] self.entries@[i]).0 != (
            #[trigger] self.entries@[j]).0
    }

    /// Some entry carries key `k`.
    pub open spec fn spec_contains(self, k: AccountId) -> bool {
        exists|i: int| 0 <= i < self.entries@.len() && (#[trigger] self.entries@[i]).0 == k
    }

    /// The position of key `k`, when it is present.
    pub open spec fn spec_index_of(self, k: AccountId) -> int {
        choose|i: int| 0 <= i < self.entries@.len() && (#[trigger] self.entries@[i]).0 == k
    }

    /// The value stored under key `k`, when it is present.
    pub open spec fn spec_get(self, k: AccountId) -> V {
        self.entries@[self.spec_index_of(k)].1
    }

    /// The entry at position `i` is exactly what the map view reports for its
    /// key.
    pub proof fn lemma_at_index(self, i: int)
        requires
            self.wf(),
            0 <= i < self.entries@.len(),
        ensures
            self@.contains_key(self.entries@[i].0),
            self@[self.entries@[i].0] == self.entries@[i].1,
            self.spec_index_of(self.entries@[i].0) == i,
    {
        let k = self.entries@[i].0;
        assert(self.spec_contains(k));
        let j = self.spec_index_of(k);
        assert(0 <= j < self.entries@.len() && self.entries@[j].0 == k);
        if i != j {
            assert(false);
        }
    }

    /// A key the view reports sits at its `spec_index_of` position.
    pub proof fn lemma_contained_key(self, k: AccountId)
        requires
            self.wf(),
            self@.contains_key(k),
        ensures
            0 <= self.spec_index_of(k) < self.entries@.len(),
            self.entries@[self.spec_index_of(k)].0 == k,
            self@[k] == self.entries@[self.spec_index_of(k)].1,
    {
    }

    pub fn new() -> (r: Self)
        ensures
            r.wf(),
            r.entries@ =~= Seq::<(AccountId, V)>::empty(),
            r@ =~= Map::<AccountId, V>::empty(),
    {
        let r = AddrMap { entries: Vec::new() };
        proof {
            assert(r@ =~= Map::<AccountId, V>::empty());
        }
        r
    }

    pub fn len(&self) -> (r: usize)
        ensures
            r == self.entries@.len(),
    {
        self.entries.len()
    }

    /// The entry at position `i` of the insertion order.
    pub fn entry_at(&self, i: usize) -> (r: &(AccountId, V))
        requires
            i < self.entries@.len(),
        ensures
            *r == self.entries@[i as int],
    {
        &self.entries[i]
    }

    /// The position of key `k`, if present.
    pub fn index_of(&self, k: AccountId) -> (r: Option<usize>)
        ensures
            match r {
                Some(i) => 0 <= i < self.entries@.len() && self.entries@[i as int].0 == k,
                None => !self.spec_contains(k),
            },
    {
        let n = self.entries.len();
        let mut i: usize = 0;
        while i < n
            invariant
                n == self.entries@.len(),
                0 <= i <= n,
                forall|j: int| 0 <= j < i ==> (#[trigger] self.entries@[j]).0 != k,
            decreases n - i,
        {
            if self.entries[i].0 == k {
                return Some(i);
            }
            i += 1;
        }
        None
    }

    pub fn contains_key(&self, k: AccountId) -> (r: bool)
        requires
            self.wf(),
        ensures
            r == self@.contains_key(k),
    {
        match self.index_of(k) {
            Some(i) => {
                proof {
                    self.lemma_at_index(i as int);
                }
                true
            },
            None => false,
        }
    }

    pub fn get(&self, k: AccountId) -> (r: Option<&V>)
        requires
            self.wf(),
        ensures
            match r {
                Some(v) => self@.contains_key(k) && *v == self@[k],
                None => !self@.contains_key(k),
            },
    {
        match self.index_of(k) {
            Some(i) => {
                proof {
                    self.lemma_at_index(i as int);
                }
                Some(&self.entries[i].1)
            },
            None => None,
        }
    }

    /// Stores `v` under `k`: replaces and returns the previous value when the
    /// key is present, appends a fresh entry otherwise.
    pub fn insert(&mut self, k: AccountId, v: V) -> (r: Option<V>)
        requires
            old(self).wf(),
        ensures
            final(self).wf(),
            final(self)@ =~= old(self)@.insert(k, v),
            match r {
                Some(prev) => {
                    &&& old(self)@.contains_key(k)
                    &&& prev == old(self)@[k]
                    &&& final(self).entries@ =~= old(self).entries@.update(
                        old(self).spec_index_of(k),
                        (k, v),
                    )
                },
                None => {
                    &&& !old(self)@.contains_key(k)
                    &&& final(self).entries@ =~= old(self).entries@.push((k, v))
                },
            },
    {
        let ghost pre = *self;
        match self.index_of(k) {
            Some(i) => {
                proof {
                    pre.lemma_at_index(i as int);
                }
                let mut entry = (k, v);
                core::mem::swap(&mut self.entries[i], &mut entry);
                proof {
                    assert(self.entries@ =~= pre.entries@.update(i as int, (k, v)));
                    assert forall|a: int, b: int| 0 <= a < b < self.entries@.len() implies (
                    #[trigger] self.entries@[a]).0 != (#[trigger] self.entries@[b]).0 by {
                        assert(self.entries@[a].0 == pre.entries@[a].0);
                        assert(self.entries@[b].0 == pre.entries@[b].0);
                    }
                    assert(self@ =~= pre@.insert(k, v)) by {
                        self.lemma_at_index(i as int);
                        assert forall|k2: AccountId| #[trigger]
                            pre@.insert(k, v).contains_key(k2) implies self@.contains_key(k2)
                            && self@[k2] == pre@.insert(k, v)[k2] by {
                            if k2 != k {
                                pre.lemma_contained_key(k2);
                                let j = pre.spec_index_of(k2);
                                assert(self.entries@[j] == pre.entries@[j]);
                                self.lemma_at_index(j);
                            }
                        }
                    }
                }
                Some(entry.1)
            },
            None => {
                self.entries.push((k, v));
                proof {
                    assert forall|a: int, b: int| 0 <= a < b < self.entries@.len() implies (
                    #[trigger] self.entries@[a]).0 != (#[trigger] self.entries@[b]).0 by {
                        if b + 1 == self.entries@.len() {
                            assert(pre.entries@[a].0 != k);
                        }
                    }
                    assert(self@ =~= pre@.insert(k, v)) by {
                        let n = pre.entries@.len() as int;
                        self.lemma_at_index(n);
                        assert forall|k2: AccountId| #[trigger]
                            pre@.insert(k, v).contains_key(k2) implies self@.contains_key(k2)
                            && self@[k2] == pre@.insert(k, v)[k2] by {
                            if k2 != k {
                                pre.lemma_contained_key(k2);
                                let j = pre.spec_index_of(k2);
                                assert(self.entries@[j] == pre.entries@[j]);
                                self.lemma_at_index(j);
                            }
                        }
                        assert forall|k2: AccountId| #[trigger]
                            self@.contains_key(k2) implies pre@.insert(k, v).contains_key(k2) by {
                            let j = self.spec_index_of(k2);
                            assert(self.entries@[j].0 == k2);
                            if j < n && k2 != k {
                                assert(pre.entries@[j].0 == k2);
                                assert(pre.spec_contains(k2));
                            }
                        }
                    }
                }
                None
            },
        }
    }

    /// Removes `k`, returning its value when it was present.
    pub fn take(&mut self, k: AccountId) -> (r: Option<V>)
        requires
            old(self).wf(),
        ensures
            final(self).wf(),
            final(self)@ =~= old(self)@.remove(k),
            match r {
                Some(prev) => {
                    &&& old(self)@.contains_key(k)
                    &&& prev == old(self)@[k]
                    &&& final(self).entries@ =~= old(self).entries@.remove(
                        old(self).spec_index_of(k),
                    )
                },
                None => {
                    &&& !old(self)@.contains_key(k)
                    &&& final(self).entries@ =~= old(self).entries@
                },
            },
    {
        let ghost pre = *self;
        match self.index_of(k) {
            Some(i) => {
                proof {
                    pre.lemma_at_index(i as int);
                }
                let entry = self.entries.remove(i);
                proof {
                    let n = pre.entries@.len() as int;
                    assert forall|a: int, b: int| 0 <= a < b < self.entries@.len() implies (
                    #[trigger] self.entries@[a]).0 != (#[trigger] self.entries@[b]).0 by {
                        let a0 = if a < i as int {
                            a
                        } else {
                            a + 1
                        };
                        let b0 = if b < i as int {
                            b
                        } else {
                            b + 1
                        };
                        assert(self.entries@[a] == pre.entries@[a0]);
                        assert(self.entries@[b] == pre.entries@[b0]);
                    }
                    assert(self@ =~= pre@.remove(k)) by {
                        assert forall|k2: AccountId| #[trigger]
                            pre@.remove(k).contains_key(k2) implies self@.contains_key(k2)
                            && self@[k2] == pre@.remove(k)[k2] by {
                            pre.lemma_contained_key(k2);
                            let j = pre.spec_index_of(k2);
                            let j2 = if j < i as int {
                                j
                            } else {
                                j - 1
                            };
                            assert(self.entries@[j2] == pre.entries@[j]);
                            self.lemma_at_index(j2);
                        }
                        assert forall|k2: AccountId| #[trigger]
                            self@.contains_key(k2) implies pre@.remove(k).contains_key(k2) by {
                            let j = self.spec_index_of(k2);
                            let j0 = if j < i as int {
                                j
                            } else {
                                j + 1
                            };
                            assert(self.entries@[j] == pre.entries@[j0]);
                            assert(pre.spec_contains(k2));
                            if k2 == k {
                                pre.lemma_at_index(j0);
                            }
                        }
                    }
                }
                Some(entry.1)
            },
            None => {
                proof {
                    assert(self@ =~= pre@.remove(k)) by {
                        assert(!pre@.contains_key(k));
                    }
                }
                None
            },
        }
    }
}

} // verus!
