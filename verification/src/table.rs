//! A finite table from keys to values, held as a list in which no key occurs
//! twice.

use vstd::prelude::*;
use crate::address::{Address, Grant};

verus! {

/// A key of a [`Table`]: a plain value whose equality can be decided.
pub trait Key: Copy {
    /// Whether the two keys are equal.
    fn same(&self, other: &Self) -> (r: bool)
        ensures
            r == (*self == *other),
    ;
}

impl Key for Address {
    fn same(&self, other: &Self) -> (r: bool) {
        *self == *other
    }
}

impl Key for Grant {
    fn same(&self, other: &Self) -> (r: bool) {
        *self == *other
    }
}

/// A finite map from `K` to `V`. Its view is the map it stands for.
pub struct Table<K, V> {
    keys: Vec<K>,
    values: Vec<V>,
}

impl<K, V> View for Table<K, V> {
    type V = Map<K, V>;

    closed spec fn view(&self) -> Map<K, V> {
        Map::new(
            |k: K| self.keys@.contains(k),
            |k: K| self.values@[self.keys@.index_of(k)],
        )
    }
}

impl<K: Key, V: Copy> Table<K, V> {
    /// The representation invariant: one value per key, and no key twice.
    pub closed spec fn wf(&self) -> bool {
        &&& self.keys@.len() == self.values@.len()
        &&& self.keys@.no_duplicates()
    }

    /// A well-formed table holds finitely many keys.
    pub proof fn lemma_finite(&self)
        requires
            self.wf(),
        ensures
            self@.dom().finite(),
    {
        vstd::seq_lib::seq_to_set_is_finite(self.keys@);
        assert(self@.dom() =~= self.keys@.to_set());
    }

    /// The empty table.
    pub fn new() -> (t: Self)
        ensures
            t.wf(),
            t@ == Map::<K, V>::empty(),
    {
        let t = Table { keys: Vec::new(), values: Vec::new() };
        assert(t@ =~= Map::<K, V>::empty());
        t
    }

    /// The position of `key` among the keys, if it is there.
    fn position(&self, key: K) -> (r: Option<usize>)
        requires
            self.wf(),
        ensures
            match r {
                Some(i) => i < self.keys@.len() && self.keys@[i as int] == key,
                None => !self.keys@.contains(key),
            },
    {
        let mut i: usize = 0;
        while i < self.keys.len()
            invariant
                i <= self.keys@.len(),
                forall|j: int| 0 <= j < i ==> self.keys@[j] != key,
            decreases self.keys@.len() - i,
        {
            if self.keys[i].same(&key) {
                return Some(i);
            }
            i += 1;
        }
        None
    }

    /// The value stored under `key`, if there is one.
    pub fn get(&self, key: K) -> (r: Option<V>)
        requires
            self.wf(),
        ensures
            r == (if self@.contains_key(key) { Some(self@[key]) } else { None::<V> }),
    {
        match self.position(key) {
            Some(i) => {
                proof {
                    self.lemma_index_of(i as int);
                }
                Some(self.values[i])
            },
            None => None,
        }
    }

    /// Stores `value` under `key`, in place of what was stored there.
    pub fn set(&mut self, key: K, value: V)
        requires
            old(self).wf(),
        ensures
            final(self).wf(),
            final(self)@ == old(self)@.insert(key, value),
    {
        match self.position(key) {
            Some(i) => {
                self.values[i] = value;
                proof {
                    assert forall|k: K| self@.contains_key(k) implies #[trigger] self@[k] == old(self)@.insert(key, value)[k] by {
                        let j = self.keys@.index_of(k);
                        old(self).lemma_index_of(i as int);
                    }
                    assert(self@ =~= old(self)@.insert(key, value));
                }
            },
            None => {
                self.keys.push(key);
                self.values.push(value);
                proof {
                    let n = old(self).keys@.len() as int;
                    assert(self.keys@ == old(self).keys@.push(key));
                    assert forall|a: int, b: int| 0 <= a < self.keys@.len() && 0 <= b < self.keys@.len() && a != b
                        implies self.keys@[a] != self.keys@[b] by {
                        if a == n {
                            assert(old(self).keys@[b] == self.keys@[b]);
                        } else if b == n {
                            assert(old(self).keys@[a] == self.keys@[a]);
                        }
                    }
                    assert forall|k: K| self@.contains_key(k) <==> old(self)@.insert(key, value).contains_key(k) by {
                        if self.keys@.contains(k) {
                            let j = self.keys@.index_of(k);
                            if j < n {
                                assert(old(self).keys@[j] == k);
                            }
                        }
                        if old(self).keys@.contains(k) {
                            let j = old(self).keys@.index_of(k);
                            assert(self.keys@[j] == k);
                        }
                        if k == key {
                            assert(self.keys@[n] == k);
                        }
                    }
                    assert forall|k: K| self@.contains_key(k) implies #[trigger] self@[k] == old(self)@.insert(key, value)[k] by {
                        let j = self.keys@.index_of(k);
                        self.lemma_index_of(j);
                        if j < n {
                            assert(old(self).keys@[j] == k);
                            old(self).lemma_index_of(j);
                        }
                    }
                    assert(self@ =~= old(self)@.insert(key, value));
                }
            },
        }
    }

    /// Takes `key` and what is stored under it out of the table.
    pub fn remove(&mut self, key: K)
        requires
            old(self).wf(),
        ensures
            final(self).wf(),
            final(self)@ == old(self)@.remove(key),
    {
        match self.position(key) {
            Some(i) => {
                self.keys.remove(i);
                self.values.remove(i);
                proof {
                    let before = old(self).keys@;
                    let at = i as int;
                    assert(self.keys@ == before.remove(at));
                    assert forall|a: int, b: int| 0 <= a < self.keys@.len() && 0 <= b < self.keys@.len() && a != b
                        implies self.keys@[a] != self.keys@[b] by {
                        let a0 = if a < at { a } else { a + 1 };
                        let b0 = if b < at { b } else { b + 1 };
                        assert(self.keys@[a] == before[a0]);
                        assert(self.keys@[b] == before[b0]);
                    }
                    assert forall|k: K| self@.contains_key(k) <==> old(self)@.remove(key).contains_key(k) by {
                        if self.keys@.contains(k) {
                            let j = self.keys@.index_of(k);
                            let j0 = if j < at { j } else { j + 1 };
                            assert(before[j0] == k);
                        }
                        if before.contains(k) && k != key {
                            let j0 = before.index_of(k);
                            let j = if j0 < at { j0 } else { j0 - 1 };
                            assert(self.keys@[j] == k);
                        }
                    }
                    assert forall|k: K| self@.contains_key(k) implies #[trigger] self@[k] == old(self)@.remove(key)[k] by {
                        let j = self.keys@.index_of(k);
                        self.lemma_index_of(j);
                        let j0 = if j < at { j } else { j + 1 };
                        assert(before[j0] == k);
                        old(self).lemma_index_of(j0);
                    }
                    assert(self@ =~= old(self)@.remove(key));
                }
            },
            None => {
                proof {
                    assert(self@ =~= old(self)@.remove(key));
                }
            },
        }
    }

    /// In a well-formed table the key at position `i` is found at `i`.
    proof fn lemma_index_of(&self, i: int)
        requires
            self.wf(),
            0 <= i < self.keys@.len(),
        ensures
            self.keys@.index_of(self.keys@[i]) == i,
            self@.contains_key(self.keys@[i]),
            self@[self.keys@[i]] == self.values@[i],
    {
        let k = self.keys@[i];
        assert(self.keys@.contains(k));
        let j = self.keys@.index_of(k);
        assert(self.keys@[j] == k);
    }
}

} // verus!
