//! A small keyed store with a `Map` as its mathematical model, for keys
//! that need no hashing or ordering: lookups walk the entries.

use vstd::prelude::*;

verus! {

/// Keys that can be compared in executable code, with the comparison
/// agreeing with mathematical equality.
pub trait Key: Sized {
    /// Whether `self` and `other` are the same key.
    fn same(&self, other: &Self) -> (eq: bool)
        ensures
            eq == (*self == *other),
    ;
}

impl Key for u32 {
    fn same(&self, other: &Self) -> (eq: bool) {
        *self == *other
    }
}

impl Key for u64 {
    fn same(&self, other: &Self) -> (eq: bool) {
        *self == *other
    }
}

impl<A: Key, B: Key> Key for (A, B) {
    fn same(&self, other: &Self) -> (eq: bool) {
        self.0.same(&other.0) && self.1.same(&other.1)
    }
}

impl Key for [u8; 32] {
    fn same(&self, other: &Self) -> (eq: bool) {
        let mut i: usize = 0;
        while i < 32
            invariant
                i <= 32,
                forall|j: int| 0 <= j < i ==> self[j] == other[j],
            decreases 32 - i,
        {
            if self[i] != other[i] {
                return false;
            }
            i += 1;
        }
        assert(*self =~= *other);
        true
    }
}

/// A finite map from keys to values, held as a list of entries in which no
/// key occurs twice.
pub struct Table<K, V> {
    entries: Vec<(K, V)>,
}

impl<K, V> Table<K, V> {
    spec fn keys(self) -> Seq<K> {
        self.entries@.map_values(|e: (K, V)| e.0)
    }

    /// No key occurs twice among the entries.
    pub closed spec fn wf(self) -> bool {
        self.keys().no_duplicates()
    }

    /// Each entry is what the model holds under its key, and the model holds
    /// nothing else.
    proof fn lemma_entries(self)
        requires
            self.wf(),
        ensures
            forall|i: int|
                0 <= i < self.entries@.len() ==> self@.contains_key(#[trigger] self.keys()[i])
                    && self@[self.keys()[i]] == self.entries@[i].1,
            forall|k: K| #[trigger]
                self@.contains_key(k) ==> 0 <= self.keys().index_of(k) < self.entries@.len()
                    && self.keys()[self.keys().index_of(k)] == k,
    {
        assert forall|i: int| 0 <= i < self.entries@.len() implies self@.contains_key(
            #[trigger] self.keys()[i],
        ) && self@[self.keys()[i]] == self.entries@[i].1 by {
            let k = self.keys()[i];
            assert(self.keys().contains(k));
            let j: int = self.keys().index_of(k);
            assert(0 <= j < self.keys().len() && self.keys()[j] == k);
            assert(j == i);
        }
    }
}

impl<K, V> View for Table<K, V> {
    type V = Map<K, V>;

    closed spec fn view(&self) -> Map<K, V> {
        Map::new(
            |k: K| self.keys().contains(k),
            |k: K| self.entries@[self.keys().index_of(k)].1,
        )
    }
}

impl<K: Key + Copy, V> Table<K, V> {
    /// An empty table.
    pub fn new() -> (t: Self)
        ensures
            t.wf(),
            t@ == Map::<K, V>::empty(),
    {
        let t = Table { entries: Vec::new() };
        assert(t@ =~= Map::<K, V>::empty());
        t
    }

    /// The model's domain is always finite.
    pub proof fn lemma_finite(&self)
        ensures
            self@.dom().finite(),
    {
        vstd::seq_lib::seq_to_set_is_finite(self.keys());
        assert(self@.dom() =~= self.keys().to_set());
    }

    fn position(&self, key: &K) -> (at: Option<usize>)
        ensures
            (match at {
                Some(i) => i < self.entries@.len() && self.keys()[i as int] == *key,
                None => !self.keys().contains(*key),
            }),
    {
        let mut i: usize = 0;
        while i < self.entries.len()
            invariant
                i <= self.entries@.len(),
                forall|j: int| 0 <= j < i ==> self.keys()[j] != *key,
            decreases self.entries@.len() - i,
        {
            if self.entries[i].0.same(key) {
                return Some(i);
            }
            i += 1;
        }
        None
    }

    /// Whether an entry is stored under `key`.
    pub fn contains_key(&self, key: &K) -> (found: bool)
        ensures
            found == self@.contains_key(*key),
    {
        self.position(key).is_some()
    }

    /// The value stored under `key`, if any.
    pub fn get(&self, key: &K) -> (found: Option<&V>)
        requires
            self.wf(),
        ensures
            (match found {
                Some(v) => self@.contains_key(*key) && *v == self@[*key],
                None => !self@.contains_key(*key),
            }),
    {
        match self.position(key) {
            Some(i) => Some(&self.entries[i].1),
            None => None,
        }
    }

    /// Stores `value` under `key`, replacing what was there.
    pub fn insert(&mut self, key: K, value: V)
        requires
            old(self).wf(),
        ensures
            final(self).wf(),
            final(self)@ == old(self)@.insert(key, value),
    {
        let ghost before = *self;
        let ghost at: int;
        match self.position(&key) {
            Some(i) => {
                self.entries[i] = (key, value);
                proof {
                    at = i as int;
                    assert(self.keys() =~= before.keys());
                }
            },
            None => {
                self.entries.push((key, value));
                proof {
                    at = before.entries@.len() as int;
                    assert(self.keys() =~= before.keys().push(key));
                }
            },
        }
        proof {
            let after = *self;
            let want = before@.insert(key, value);
            before.lemma_entries();
            after.lemma_entries();
            assert(after.keys()[at] == key);
            assert forall|k: K| after@.contains_key(k) <==> want.contains_key(k) by {
                if after@.contains_key(k) && k != key {
                    let j: int = after.keys().index_of(k);
                    assert(before.keys()[j] == k);
                }
                if want.contains_key(k) && k != key {
                    let j: int = before.keys().index_of(k);
                    assert(after.keys()[j] == k);
                }
            }
            assert forall|k: K| after@.contains_key(k) implies after@[k] == want[k] by {
                let j: int = after.keys().index_of(k);
                assert(after.keys()[j] == k);
                if k != key {
                    assert(before.keys()[j] == k);
                }
            }
            assert(after@ =~= want);
        }
    }

    /// Takes out the entry stored under `key`, if any.
    pub fn remove(&mut self, key: &K) -> (taken: Option<V>)
        requires
            old(self).wf(),
        ensures
            final(self).wf(),
            final(self)@ == old(self)@.remove(*key),
            taken == (if old(self)@.contains_key(*key) {
                Some(old(self)@[*key])
            } else {
                None
            }),
    {
        let ghost before = *self;
        proof {
            before.lemma_entries();
        }
        match self.position(key) {
            Some(i) => {
                let entry = self.entries.swap_remove(i);
                proof {
                    let after = *self;
                    let last: int = before.entries@.len() - 1;
                    assert forall|a: int, b: int|
                        0 <= a < after.keys().len() && 0 <= b < after.keys().len() && a
                            != b implies after.keys()[a] != after.keys()[b] by {
                        let pa: int = if a == i { last } else { a };
                        let pb: int = if b == i { last } else { b };
                        assert(after.keys()[a] == before.keys()[pa]);
                        assert(after.keys()[b] == before.keys()[pb]);
                    }
                    after.lemma_entries();
                    let want = before@.remove(*key);
                    assert forall|k: K| after@.contains_key(k) <==> want.contains_key(k) by {
                        if after@.contains_key(k) {
                            let j: int = after.keys().index_of(k);
                            let pj: int = if j == i { last } else { j };
                            assert(before.keys()[pj] == k);
                        }
                        if want.contains_key(k) {
                            let j: int = before.keys().index_of(k);
                            assert(j != i);
                            let pj: int = if j == last { i as int } else { j };
                            assert(after.keys()[pj] == k);
                        }
                    }
                    assert forall|k: K| after@.contains_key(k) implies after@[k] == want[k] by {
                        let j: int = after.keys().index_of(k);
                        let pj: int = if j == i { last } else { j };
                        assert(before.keys()[pj] == k);
                    }
                    assert(after@ =~= want);
                }
                Some(entry.1)
            },
            None => {
                assert(self@ =~= before@.remove(*key));
                None
            },
        }
    }
}

} // verus!
