//! A keyed table: the storage maps of the pallet, held as a list of entries
//! whose keys are pairwise distinct, and seen as a `Map` from key to the view
//! of the value.
use vstd::prelude::*;

verus! {

/// Keys that can be compared in executable code.
pub trait TableKey: Copy + Sized {
    fn same(&self, other: &Self) -> (r: bool)
        ensures
            r == (*self == *other),
    ;
}

impl TableKey for u64 {
    fn same(&self, other: &Self) -> (r: bool) {
        *self == *other
    }
}

impl TableKey for [u8; 32] {
    fn same(&self, other: &Self) -> (r: bool) {
        let mut i: usize = 0;
        while i < 32
            invariant
                0 <= i <= 32,
                forall|j: int| 0 <= j < i ==> self[j] == other[j],
            decreases 32 - i,
        {
            if self[i] != other[i] {
                return false;
            }
            i = i + 1;
        }
        proof {
            broadcast use vstd::array::axiom_array_ext_equal;
            assert(*self =~= *other);
        }
        true
    }
}

/// Values that can be copied with their view kept.
pub trait Duplicate: View + Sized {
    fn duplicate(&self) -> (r: Self)
        ensures
            r@ == self@,
    ;
}

impl Duplicate for Vec<[u8; 32]> {
    fn duplicate(&self) -> (r: Self) {
        let mut r: Vec<[u8; 32]> = Vec::new();
        let mut i: usize = 0;
        while i < self.len()
            invariant
                0 <= i <= self.len(),
                r@ =~= self@.subrange(0, i as int),
            decreases self.len() - i,
        {
            r.push(self[i]);
            i = i + 1;
        }
        assert(r@ =~= self@);
        r
    }
}

/// One entry of a table.
pub struct Entry<K, V> {
    pub key: K,
    pub value: V,
}

/// A table from keys to values with pairwise distinct keys.
pub struct Table<K, V> {
    entries: Vec<Entry<K, V>>,
}

impl<K: TableKey, V: View> Table<K, V> {
    /// The keys are pairwise distinct.
    pub closed spec fn wf(&self) -> bool {
        forall|i: int, j: int|
            0 <= i < j < self.entries@.len() ==> #[trigger] self.entries@[i].key
                != #[trigger] self.entries@[j].key
    }

    pub closed spec fn has_key_at(&self, k: K, i: int) -> bool {
        0 <= i < self.entries@.len() && self.entries@[i].key == k
    }

    pub closed spec fn index_of(&self, k: K) -> int {
        choose|i: int| self.has_key_at(k, i)
    }

    pub closed spec fn as_map(&self) -> Map<K, V::V> {
        Map::new(
            |k: K| exists|i: int| self.has_key_at(k, i),
            |k: K| self.entries@[self.index_of(k)].value@,
        )
    }

    /// Number of entries.
    pub closed spec fn spec_len(&self) -> nat {
        self.entries@.len()
    }

    /// The key of the entry at position `i`.
    pub closed spec fn key_at(&self, i: int) -> K {
        self.entries@[i].key
    }

    proof fn lemma_index(&self, k: K, i: int)
        requires
            self.wf(),
            self.has_key_at(k, i),
        ensures
            self.as_map().dom().contains(k),
            self.index_of(k) == i,
            self.as_map()[k] == self.entries@[i].value@,
    {
        assert(self.has_key_at(k, self.index_of(k)));
        if self.index_of(k) != i {
            let j = self.index_of(k);
            if j < i {
                assert(self.entries@[j].key != self.entries@[i].key);
            } else {
                assert(self.entries@[i].key != self.entries@[j].key);
            }
        }
    }

    /// Every entry is in the map under its key, with its value.
    pub proof fn lemma_entry(&self, i: int)
        requires
            self.wf(),
            0 <= i < self.spec_len(),
        ensures
            self.as_map().dom().contains(self.key_at(i)),
            self.as_map()[self.key_at(i)] == self.value_view_at(i),
    {
        self.lemma_index(self.key_at(i), i);
    }

    /// Every key of the map is the key of some entry.
    pub proof fn lemma_key(&self, k: K)
        requires
            self.as_map().dom().contains(k),
        ensures
            0 <= self.index_of(k) < self.spec_len(),
            self.key_at(self.index_of(k)) == k,
    {
        assert(self.has_key_at(k, self.index_of(k)));
    }

    /// The view of the value at position `i`.
    pub closed spec fn value_view_at(&self, i: int) -> V::V {
        self.entries@[i].value@
    }

    /// The keys of the first `n` entries.
    pub closed spec fn keys_upto(&self, n: int) -> Set<K> {
        Set::new(|k: K| exists|i: int| 0 <= i < n && self.has_key_at(k, i))
    }

    /// The keys of the first `n + 1` entries are those of the first `n` and
    /// the key at `n`, which is new among them.
    pub proof fn lemma_keys_upto_step(&self, n: int)
        requires
            self.wf(),
            0 <= n < self.spec_len(),
        ensures
            self.keys_upto(n + 1) == self.keys_upto(n).insert(self.key_at(n)),
            !self.keys_upto(n).contains(self.key_at(n)),
    {
        assert(self.has_key_at(self.key_at(n), n));
        assert(self.keys_upto(n + 1) =~= self.keys_upto(n).insert(self.key_at(n)));
        if self.keys_upto(n).contains(self.key_at(n)) {
            let j = choose|j: int| 0 <= j < n && self.has_key_at(self.key_at(n), j);
            assert(self.entries@[j].key != self.entries@[n].key);
        }
    }

    pub proof fn lemma_keys_upto_ends(&self)
        ensures
            self.keys_upto(0) == Set::<K>::empty(),
            self.keys_upto(self.spec_len() as int) == self.as_map().dom(),
    {
        assert(self.keys_upto(0) =~= Set::<K>::empty());
        assert(self.keys_upto(self.spec_len() as int) =~= self.as_map().dom());
    }

    pub fn new() -> (r: Self)
        ensures
            r.wf(),
            r@ == Map::<K, V::V>::empty(),
    {
        let r = Table { entries: Vec::new() };
        assert(r@ =~= Map::<K, V::V>::empty());
        r
    }

    pub fn len(&self) -> (r: usize)
        ensures
            r == self.spec_len(),
    {
        self.entries.len()
    }

    /// The key at position `i`.
    pub fn key(&self, i: usize) -> (r: K)
        requires
            i < self.spec_len(),
        ensures
            r == self.key_at(i as int),
    {
        self.entries[i].key
    }

    /// The value at position `i`.
    pub fn value(&self, i: usize) -> (r: &V)
        requires
            i < self.spec_len(),
        ensures
            r@ == self.value_view_at(i as int),
    {
        &self.entries[i].value
    }

    fn find(&self, k: &K) -> (r: Option<usize>)
        requires
            self.wf(),
        ensures
            match r {
                Some(i) => self.has_key_at(*k, i as int),
                None => !self.as_map().dom().contains(*k),
            },
    {
        let mut i: usize = 0;
        while i < self.entries.len()
            invariant
                0 <= i <= self.entries@.len(),
                forall|j: int| 0 <= j < i ==> self.entries@[j].key != *k,
            decreases self.entries@.len() - i,
        {
            if self.entries[i].key.same(k) {
                return Some(i);
            }
            i = i + 1;
        }
        proof {
            if self.as_map().dom().contains(*k) {
                let j = choose|j: int| self.has_key_at(*k, j);
                assert(self.entries@[j].key == *k);
            }
        }
        None
    }

    pub fn contains_key(&self, k: &K) -> (r: bool)
        requires
            self.wf(),
        ensures
            r == self@.dom().contains(*k),
    {
        match self.find(k) {
            Some(i) => {
                proof {
                    self.lemma_index(*k, i as int);
                }
                true
            },
            None => false,
        }
    }

    pub fn get(&self, k: &K) -> (r: Option<&V>)
        requires
            self.wf(),
        ensures
            match r {
                Some(v) => self@.dom().contains(*k) && v@ == self@[*k],
                None => !self@.dom().contains(*k),
            },
    {
        match self.find(k) {
            Some(i) => {
                proof {
                    self.lemma_index(*k, i as int);
                }
                Some(&self.entries[i].value)
            },
            None => None,
        }
    }

    pub fn insert(&mut self, k: K, v: V)
        requires
            old(self).wf(),
        ensures
            final(self).wf(),
            final(self)@ == old(self)@.insert(k, v@),
    {
        let ghost old_self = *self;
        let ghost vv = v@;
        match self.find(&k) {
            Some(i) => {
                self.entries.set(i, Entry { key: k, value: v });
                proof {
                    assert forall|a: int, b: int|
                        0 <= a < b < self.entries@.len() implies #[trigger] self.entries@[a].key
                        != #[trigger] self.entries@[b].key by {
                        assert(old_self.entries@[a].key != old_self.entries@[b].key);
                    }
                    assert forall|key: K| #[trigger] self.as_map().dom().contains(key)
                        <==> old_self.as_map().insert(k, vv).dom().contains(key) by {
                        if self.as_map().dom().contains(key) {
                            let j = choose|j: int| self.has_key_at(key, j);
                            if j != i {
                                assert(old_self.has_key_at(key, j));
                            }
                        }
                        if old_self.as_map().dom().contains(key) {
                            let j = choose|j: int| old_self.has_key_at(key, j);
                            assert(self.has_key_at(key, j));
                        }
                        if key == k {
                            assert(self.has_key_at(key, i as int));
                        }
                    }
                    assert forall|key: K| #[trigger] self.as_map().dom().contains(key) implies
                        self.as_map()[key] == old_self.as_map().insert(k, vv)[key] by {
                        let j = choose|j: int| self.has_key_at(key, j);
                        self.lemma_index(key, j);
                        if key != k {
                            assert(old_self.has_key_at(key, j));
                            old_self.lemma_index(key, j);
                        }
                    }
                    assert(self.as_map() =~= old_self.as_map().insert(k, vv));
                }
            },
            None => {
                self.entries.push(Entry { key: k, value: v });
                proof {
                    let n = old_self.entries@.len() as int;
                    assert forall|a: int, b: int|
                        0 <= a < b < self.entries@.len() implies #[trigger] self.entries@[a].key
                        != #[trigger] self.entries@[b].key by {
                        if b < n {
                            assert(old_self.entries@[a].key != old_self.entries@[b].key);
                        } else {
                            assert(old_self.has_key_at(self.entries@[a].key, a));
                        }
                    }
                    assert forall|key: K| #[trigger] self.as_map().dom().contains(key)
                        <==> old_self.as_map().insert(k, vv).dom().contains(key) by {
                        if self.as_map().dom().contains(key) {
                            let j = choose|j: int| self.has_key_at(key, j);
                            if j != n {
                                assert(old_self.has_key_at(key, j));
                            }
                        }
                        if old_self.as_map().dom().contains(key) {
                            let j = choose|j: int| old_self.has_key_at(key, j);
                            assert(self.has_key_at(key, j));
                        }
                        if key == k {
                            assert(self.has_key_at(key, n));
                        }
                    }
                    assert forall|key: K| #[trigger] self.as_map().dom().contains(key) implies
                        self.as_map()[key] == old_self.as_map().insert(k, vv)[key] by {
                        let j = choose|j: int| self.has_key_at(key, j);
                        self.lemma_index(key, j);
                        if key != k {
                            assert(old_self.has_key_at(key, j));
                            old_self.lemma_index(key, j);
                        }
                    }
                    assert(self.as_map() =~= old_self.as_map().insert(k, vv));
                }
            },
        }
    }

    pub fn remove(&mut self, k: &K) -> (r: Option<V>)
        requires
            old(self).wf(),
        ensures
            final(self).wf(),
            final(self)@ == old(self)@.remove(*k),
            match r {
                Some(v) => old(self)@.dom().contains(*k) && v@ == old(self)@[*k],
                None => !old(self)@.dom().contains(*k),
            },
    {
        let ghost old_self = *self;
        match self.find(k) {
            Some(i) => {
                proof {
                    old_self.lemma_index(*k, i as int);
                }
                let e = self.entries.remove(i);
                proof {
                    let n = old_self.entries@.len() as int;
                    assert forall|a: int, b: int|
                        0 <= a < b < self.entries@.len() implies #[trigger] self.entries@[a].key
                        != #[trigger] self.entries@[b].key by {
                        let a0 = if a < i { a } else { a + 1 };
                        let b0 = if b < i { b } else { b + 1 };
                        assert(self.entries@[a] == old_self.entries@[a0]);
                        assert(self.entries@[b] == old_self.entries@[b0]);
                        assert(old_self.entries@[a0].key != old_self.entries@[b0].key);
                    }
                    assert forall|key: K| #[trigger] self.as_map().dom().contains(key)
                        <==> old_self.as_map().remove(*k).dom().contains(key) by {
                        if self.as_map().dom().contains(key) {
                            let j = choose|j: int| self.has_key_at(key, j);
                            let j0 = if j < i { j } else { j + 1 };
                            assert(self.entries@[j] == old_self.entries@[j0]);
                            assert(old_self.has_key_at(key, j0));
                            assert(old_self.entries@[j0].key != old_self.entries@[i as int].key);
                        }
                        if old_self.as_map().remove(*k).dom().contains(key) {
                            let j = choose|j: int| old_self.has_key_at(key, j);
                            assert(j != i);
                            let j1 = if j < i { j } else { j - 1 };
                            assert(self.entries@[j1] == old_self.entries@[j]);
                            assert(self.has_key_at(key, j1));
                        }
                    }
                    assert forall|key: K| #[trigger] self.as_map().dom().contains(key) implies
                        self.as_map()[key] == old_self.as_map().remove(*k)[key] by {
                        let j = choose|j: int| self.has_key_at(key, j);
                        self.lemma_index(key, j);
                        let j0 = if j < i { j } else { j + 1 };
                        assert(self.entries@[j] == old_self.entries@[j0]);
                        old_self.lemma_index(key, j0);
                    }
                    assert(self.as_map() =~= old_self.as_map().remove(*k));
                }
                Some(e.value)
            },
            None => {
                proof {
                    assert(self.as_map() =~= old_self.as_map().remove(*k));
                }
                None
            },
        }
    }
}

impl<K: TableKey, V: Duplicate> Table<K, V> {
    /// A copy of the table with the same view.
    pub fn duplicate(&self) -> (r: Self)
        requires
            self.wf(),
        ensures
            r.wf(),
            r@ == self@,
    {
        let mut entries: Vec<Entry<K, V>> = Vec::new();
        let mut i: usize = 0;
        while i < self.entries.len()
            invariant
                0 <= i <= self.entries@.len(),
                entries@.len() == i,
                forall|j: int|
                    0 <= j < i ==> #[trigger] entries@[j].key == self.entries@[j].key
                        && entries@[j].value@ == self.entries@[j].value@,
            decreases self.entries@.len() - i,
        {
            let v = self.entries[i].value.duplicate();
            entries.push(Entry { key: self.entries[i].key, value: v });
            i = i + 1;
        }
        let r = Table { entries };
        proof {
            assert forall|a: int, b: int|
                0 <= a < b < r.entries@.len() implies #[trigger] r.entries@[a].key
                != #[trigger] r.entries@[b].key by {
                assert(r.entries@[a].key == self.entries@[a].key);
                assert(r.entries@[b].key == self.entries@[b].key);
            }
            assert forall|key: K| #[trigger] r.as_map().dom().contains(key)
                <==> self.as_map().dom().contains(key) by {
                if r.as_map().dom().contains(key) {
                    let j = choose|j: int| r.has_key_at(key, j);
                    assert(self.has_key_at(key, j));
                }
                if self.as_map().dom().contains(key) {
                    let j = choose|j: int| self.has_key_at(key, j);
                    assert(r.entries@[j].key == self.entries@[j].key);
                    assert(r.has_key_at(key, j));
                }
            }
            assert forall|key: K| #[trigger] r.as_map().dom().contains(key) implies r.as_map()[key]
                == self.as_map()[key] by {
                let j = choose|j: int| r.has_key_at(key, j);
                r.lemma_index(key, j);
                assert(self.has_key_at(key, j));
                self.lemma_index(key, j);
            }
            assert(r.as_map() =~= self.as_map());
        }
        r
    }
}

impl<K: TableKey, V: View> View for Table<K, V> {
    type V = Map<K, V::V>;

    open spec fn view(&self) -> Map<K, V::V> {
        self.as_map()
    }
}

} // verus!
