use vstd::prelude::*;

verus! {

/// A key that can be compared in executable code.
pub trait StoreKey: Copy + Sized {
    fn same_key(&self, other: &Self) -> (r: bool)
        ensures
            r == (*self == *other),
    ;
}

/// A table from keys to values, each key at most once.
///
/// It plays the part of a keyed persistent store: `get` of a key that was
/// never written finds nothing, and `insert` overwrites.
#[verifier::reject_recursive_types(K)]
pub struct Store<K, V> {
    entries: Vec<(K, V)>,
    model: Ghost<Map<K, V>>,
}

impl<K, V> View for Store<K, V> {
    type V = Map<K, V>;

    closed spec fn view(&self) -> Map<K, V> {
        self.model@
    }
}

impl<K: StoreKey, V: Copy> Store<K, V> {
    /// The entries match the model one for one and no key occurs twice.
    pub closed spec fn wf(&self) -> bool {
        &&& forall|i: int, j: int|
            0 <= i < j < self.entries@.len() ==> #[trigger] self.entries@[i].0
                != #[trigger] self.entries@[j].0
        &&& forall|i: int|
            0 <= i < self.entries@.len() ==> self.model@.contains_key(
                (#[trigger] self.entries@[i]).0,
            ) && self.model@[self.entries@[i].0] == self.entries@[i].1
        &&& forall|k: K| #[trigger]
            self.model@.contains_key(k) ==> exists|i: int|
                0 <= i < self.entries@.len() && (#[trigger] self.entries@[i]).0 == k
        &&& self.model@.dom().finite()
        &&& self.model@.dom().len() == self.entries@.len()
    }

    pub fn new() -> (s: Self)
        ensures
            s.wf(),
            s@ == Map::<K, V>::empty(),
            s@.dom().finite(),
    {
        Store { entries: Vec::new(), model: Ghost(Map::empty()) }
    }

    fn find(&self, k: &K) -> (r: Option<usize>)
        requires
            self.wf(),
        ensures
            match r {
                Some(i) => i < self.entries@.len() && self.entries@[i as int].0 == *k,
                None => !self@.contains_key(*k),
            },
    {
        let mut i: usize = 0;
        while i < self.entries.len()
            invariant
                self.wf(),
                0 <= i <= self.entries@.len(),
                forall|j: int| 0 <= j < i ==> (#[trigger] self.entries@[j]).0 != *k,
            decreases self.entries@.len() - i,
        {
            if self.entries[i].0.same_key(k) {
                return Some(i);
            }
            i = i + 1;
        }
        None
    }

    /// The value stored under `k`, if any.
    pub fn get(&self, k: &K) -> (r: Option<V>)
        requires
            self.wf(),
        ensures
            r == (if self@.contains_key(*k) {
                Some(self@[*k])
            } else {
                None
            }),
    {
        match self.find(k) {
            Some(i) => Some(self.entries[i].1),
            None => None,
        }
    }

    pub fn contains(&self, k: &K) -> (r: bool)
        requires
            self.wf(),
        ensures
            r == self@.contains_key(*k),
    {
        self.find(k).is_some()
    }

    /// Number of keys stored.
    pub fn len(&self) -> (r: usize)
        requires
            self.wf(),
        ensures
            r == self@.dom().len(),
    {
        self.entries.len()
    }

    /// Stores `v` under `k`, replacing what was there.
    pub fn insert(&mut self, k: K, v: V)
        requires
            old(self).wf(),
        ensures
            final(self).wf(),
            final(self)@ == old(self)@.insert(k, v),
            final(self)@.dom().finite(),
    {
        match self.find(&k) {
            Some(i) => {
                let ghost old_entries = self.entries@;
                self.entries.set(i, (k, v));
                self.model = Ghost(self.model@.insert(k, v));
                proof {
                    assert(self.model@.dom() =~= old(self).model@.dom());
                    assert forall|k2: K| #[trigger] self.model@.contains_key(k2) implies exists|
                        a: int,
                    |
                        0 <= a < self.entries@.len() && (#[trigger] self.entries@[a]).0
                            == k2 by {
                        let j = choose|j: int|
                            0 <= j < old_entries.len() && (#[trigger] old_entries[j]).0 == k2;
                        assert(self.entries@[j].0 == old_entries[j].0);
                    }
                }
            },
            None => {
                self.entries.push((k, v));
                self.model = Ghost(self.model@.insert(k, v));
                proof {
                    let n = self.entries@.len() - 1;
                    assert(self.model@.dom() =~= old(self).model@.dom().insert(k));
                    assert forall|k2: K| #[trigger] self.model@.contains_key(k2) implies exists|
                        i: int,
                    |
                        0 <= i < self.entries@.len() && (#[trigger] self.entries@[i]).0
                            == k2 by {
                        if k2 == k {
                            assert(self.entries@[n].0 == k2);
                        } else {
                            assert(old(self).model@.contains_key(k2));
                            let j = choose|j: int|
                                0 <= j < old(self).entries@.len() && (#[trigger] old(
                                    self,
                                ).entries@[j]).0 == k2;
                            assert(self.entries@[j] == old(self).entries@[j]);
                        }
                    }
                }
            },
        }
    }

    /// Deletes the entry of `k`, if there is one.
    pub fn remove(&mut self, k: &K)
        requires
            old(self).wf(),
        ensures
            final(self).wf(),
            final(self)@ == old(self)@.remove(*k),
            final(self)@.dom().finite(),
    {
        match self.find(k) {
            Some(i) => {
                let ghost old_entries = self.entries@;
                self.entries.remove(i);
                self.model = Ghost(self.model@.remove(*k));
                proof {
                    assert forall|a: int, b: int|
                        0 <= a < b < self.entries@.len() implies #[trigger] self.entries@[a].0
                        != #[trigger] self.entries@[b].0 by {
                        let a0 = if a < i { a } else { a + 1 };
                        let b0 = if b < i { b } else { b + 1 };
                        assert(self.entries@[a] == old_entries[a0]);
                        assert(self.entries@[b] == old_entries[b0]);
                    }
                    assert forall|a: int| 0 <= a < self.entries@.len() implies self.model@.contains_key(
                        (#[trigger] self.entries@[a]).0,
                    ) && self.model@[self.entries@[a].0] == self.entries@[a].1 by {
                        let a0 = if a < i { a } else { a + 1 };
                        assert(self.entries@[a] == old_entries[a0]);
                        assert(old_entries[a0].0 != old_entries[i as int].0);
                    }
                    assert forall|k2: K| #[trigger] self.model@.contains_key(k2) implies exists|
                        a: int,
                    |
                        0 <= a < self.entries@.len() && (#[trigger] self.entries@[a]).0
                            == k2 by {
                        let j = choose|j: int|
                            0 <= j < old_entries.len() && (#[trigger] old_entries[j]).0 == k2;
                        if j < i {
                            assert(self.entries@[j] == old_entries[j]);
                        } else {
                            assert(j != i);
                            assert(self.entries@[j - 1] == old_entries[j]);
                        }
                    }
                }
            },
            None => {
                assert(self.model@.remove(*k) =~= self.model@);
            },
        }
    }
}

} // verus!
