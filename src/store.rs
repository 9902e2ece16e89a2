use vstd::prelude::*;
use crate::record::{bytes_eq, expire_at_of, is_expired, ttl_of, Key, Value};

verus! {

/// The store after a sweep at `now`: every record that is expired at `now`
/// is gone, every other one is kept unchanged.
pub open spec fn swept(m: Map<Seq<u8>, Seq<u8>>, now: int) -> Map<Seq<u8>, Seq<u8>> {
    Map::new(|k: Seq<u8>| m.contains_key(k) && !is_expired(m[k], now), |k: Seq<u8>| m[k])
}

/// One record removed by a sweep, with the figures that decided it.
#[derive(Debug)]
pub struct Expiry {
    pub key: Key,
    pub expire_at: i64,
    pub ttl_delta: i16,
}

struct Entry {
    key: Key,
    value: Value,
}

/// The key-value store: 63-byte keys mapped to 64-byte value records, each
/// key at most once.
pub struct Store {
    entries: Vec<Entry>,
}

impl View for Store {
    type V = Map<Seq<u8>, Seq<u8>>;

    closed spec fn view(&self) -> Map<Seq<u8>, Seq<u8>> {
        Map::new(
            |k: Seq<u8>| self.has(k),
            |k: Seq<u8>| self.entries@[self.index_of(k)].value@,
        )
    }
}

impl Store {
    spec fn has(&self, k: Seq<u8>) -> bool {
        exists|i: int| 0 <= i < self.entries@.len() && #[trigger] self.entries@[i].key@ == k
    }

    spec fn index_of(&self, k: Seq<u8>) -> int {
        choose|i: int| 0 <= i < self.entries@.len() && #[trigger] self.entries@[i].key@ == k
    }

    /// Every key has 63 bytes and every value 64, and no key occurs twice.
    pub closed spec fn wf(&self) -> bool {
        &&& forall|i: int|
            0 <= i < self.entries@.len() ==> (#[trigger] self.entries@[i]).key.wf()
                && self.entries@[i].value.wf()
        &&& forall|i: int, j: int|
            0 <= i < self.entries@.len() && 0 <= j < self.entries@.len() && i != j
                ==> self.entries@[i].key@ != self.entries@[j].key@
    }

    /// Every key and every value in the store has its fixed length.
    pub proof fn lemma_lengths(&self, k: Seq<u8>)
        requires
            self.wf(),
            self@.contains_key(k),
        ensures
            k.len() == crate::record::KEY_LEN,
            self@[k].len() == crate::record::VALUE_LEN,
    {
        let i = self.index_of(k);
        assert(self.entries@[i].key.wf());
    }

    proof fn lemma_view_at(&self, i: int)
        requires
            self.wf(),
            0 <= i < self.entries@.len(),
        ensures
            self@.contains_key(self.entries@[i].key@),
            self@[self.entries@[i].key@] == self.entries@[i].value@,
    {
        let k = self.entries@[i].key@;
        assert(self.has(k));
        let j = self.index_of(k);
        assert(self.entries@[j].key@ == k);
    }

    /// An empty store.
    pub fn new() -> (r: Store)
        ensures
            r.wf(),
            r@ == Map::<Seq<u8>, Seq<u8>>::empty(),
    {
        let r = Store { entries: Vec::new() };
        assert(r@ =~= Map::<Seq<u8>, Seq<u8>>::empty());
        r
    }

    fn find(&self, key: &[u8]) -> (r: Option<usize>)
        requires
            self.wf(),
        ensures
            r matches Some(i) ==> i < self.entries@.len() && self.entries@[i as int].key@ == key@,
            r is None ==> !self@.contains_key(key@),
    {
        let mut i: usize = 0;
        while i < self.entries.len()
            invariant
                i <= self.entries@.len(),
                forall|j: int| 0 <= j < i ==> self.entries@[j].key@ != key@,
            decreases self.entries@.len() - i,
        {
            if bytes_eq(self.entries[i].key.as_bytes(), key) {
                return Some(i);
            }
            i = i + 1;
        }
        None
    }

    proof fn lemma_len(&self)
        requires
            self.wf(),
        ensures
            self@.dom().finite(),
            self@.len() == self.entries@.len(),
    {
        let ks = self.entries@.map_values(|e: Entry| e.key@);
        assert(ks.no_duplicates()) by {
            assert forall|i: int, j: int|
                0 <= i < ks.len() && 0 <= j < ks.len() && i != j implies ks[i] != ks[j] by {}
        }
        assert(self@.dom() =~= ks.to_set()) by {
            assert forall|k: Seq<u8>| self@.dom().contains(k) implies ks.to_set().contains(k) by {
                let i = self.index_of(k);
                assert(ks[i] == k);
            }
            assert forall|k: Seq<u8>| ks.to_set().contains(k) implies self@.dom().contains(k) by {
                let i = choose|i: int| 0 <= i < ks.len() && ks[i] == k;
                assert(self.entries@[i].key@ == k);
            }
        }
        ks.unique_seq_to_set();
    }

    /// The store holds finitely many records.
    pub proof fn lemma_finite(&self)
        requires
            self.wf(),
        ensures
            self@.dom().finite(),
    {
        self.lemma_len();
    }

    /// Number of records held.
    pub fn len(&self) -> (r: usize)
        requires
            self.wf(),
        ensures
            self@.dom().finite(),
            r == self@.len(),
    {
        proof { self.lemma_len(); }
        self.entries.len()
    }

    /// The record stored under `key`, if any.
    pub fn get(&self, key: &[u8]) -> (r: Option<&Value>)
        requires
            self.wf(),
        ensures
            self@.contains_key(key@) ==> (r matches Some(v) && v@ == self@[key@]),
            !self@.contains_key(key@) ==> r is None,
    {
        match self.find(key) {
            Some(i) => {
                proof { self.lemma_view_at(i as int); }
                Some(&self.entries[i].value)
            },
            None => None,
        }
    }

    /// Every record, each once, as independent copies.
    pub fn entries(&self) -> (r: Vec<(Key, Value)>)
        requires
            self.wf(),
        ensures
            r@.len() == self@.len(),
            forall|i: int| 0 <= i < r@.len() ==> {
                let k = (#[trigger] r@[i]).0@;
                self@.contains_key(k) && self@[k] == r@[i].1@
            },
            forall|k: Seq<u8>| self@.contains_key(k) ==> exists|i: int|
                0 <= i < r@.len() && (#[trigger] r@[i]).0@ == k,
    {
        let mut r: Vec<(Key, Value)> = Vec::new();
        let mut i: usize = 0;
        while i < self.entries.len()
            invariant
                self.wf(),
                i <= self.entries@.len(),
                r@.len() == i,
                forall|j: int| 0 <= j < i ==> (#[trigger] r@[j]).0@ == self.entries@[j].key@
                    && r@[j].1@ == self.entries@[j].value@,
            decreases self.entries@.len() - i,
        {
            let e = &self.entries[i];
            r.push((e.key.duplicate(), e.value.duplicate()));
            i = i + 1;
        }
        proof {
            assert forall|j: int| 0 <= j < r@.len() implies {
                let k = (#[trigger] r@[j]).0@;
                self@.contains_key(k) && self@[k] == r@[j].1@
            } by {
                self.lemma_view_at(j);
            }
            assert forall|k: Seq<u8>| self@.contains_key(k) implies exists|j: int|
                0 <= j < r@.len() && (#[trigger] r@[j]).0@ == k by {
                let j = self.index_of(k);
                assert(r@[j].0@ == k);
            }
        }
        proof { self.lemma_len(); }
        r
    }

    /// Stores `value` under `key`, replacing whatever was stored there.
    pub fn insert(&mut self, key: Key, value: Value)
        requires
            old(self).wf(),
            key.wf(),
            value.wf(),
        ensures
            final(self).wf(),
            final(self)@ == old(self)@.insert(key@, value@),
    {
        let ghost k = key@;
        let ghost pre = *self;
        match self.find(key.as_bytes()) {
            Some(i) => {
                self.entries.set(i, Entry { key, value });
                proof {
                    assert forall|k2: Seq<u8>| #[trigger] self@.contains_key(k2) == pre@.insert(k, value@).contains_key(k2)
                        && (self@.contains_key(k2) ==> self@[k2] == pre@.insert(k, value@)[k2]) by {
                        if pre.has(k2) {
                            let j = pre.index_of(k2);
                            pre.lemma_view_at(j);
                            self.lemma_view_at(j);
                        }
                        if self.has(k2) {
                            let j = self.index_of(k2);
                            self.lemma_view_at(j);
                            if j != i {
                                pre.lemma_view_at(j);
                            }
                        }
                    }
                    assert(self@ =~= pre@.insert(k, value@));
                }
            },
            None => {
                self.entries.push(Entry { key, value });
                proof {
                    let n = pre.entries@.len() as int;
                    assert forall|j: int| 0 <= j < n implies self.entries@[j].key@ != k by {
                        pre.lemma_view_at(j);
                    }
                    assert(self.entries@[n].key@ == k);
                    assert(self.wf());
                    self.lemma_view_at(n);
                    assert forall|k2: Seq<u8>| #[trigger] self@.contains_key(k2) == pre@.insert(k, value@).contains_key(k2)
                        && (self@.contains_key(k2) ==> self@[k2] == pre@.insert(k, value@)[k2]) by {
                        if pre.has(k2) {
                            let j = pre.index_of(k2);
                            pre.lemma_view_at(j);
                            self.lemma_view_at(j);
                        }
                        if self.has(k2) {
                            let j = self.index_of(k2);
                            self.lemma_view_at(j);
                            if j != n {
                                pre.lemma_view_at(j);
                            }
                        }
                    }
                    assert(self@ =~= pre@.insert(k, value@));
                }
            },
        }
    }

    /// Removes the record stored under `key`, returning it.
    pub fn remove(&mut self, key: &[u8]) -> (r: Option<Value>)
        requires
            old(self).wf(),
        ensures
            final(self).wf(),
            final(self)@ == old(self)@.remove(key@),
            old(self)@.contains_key(key@) ==> (r matches Some(v) && v@ == old(self)@[key@] && v.wf()),
            !old(self)@.contains_key(key@) ==> r is None,
    {
        let ghost pre = *self;
        match self.find(key) {
            Some(i) => {
                let e = self.entries.remove(i);
                proof {
                    let k = key@;
                    let ii = i as int;
                    pre.lemma_view_at(ii);
                    assert forall|a: int, b: int|
                        0 <= a < self.entries@.len() && 0 <= b < self.entries@.len() && a != b
                            implies self.entries@[a].key@ != self.entries@[b].key@ by {
                        let a0 = if a < ii { a } else { a + 1 };
                        let b0 = if b < ii { b } else { b + 1 };
                        assert(self.entries@[a] == pre.entries@[a0]);
                        assert(self.entries@[b] == pre.entries@[b0]);
                    }
                    assert forall|a: int| 0 <= a < self.entries@.len() implies
                        (#[trigger] self.entries@[a]).key.wf() && self.entries@[a].value.wf() by {
                        let a0 = if a < ii { a } else { a + 1 };
                        assert(self.entries@[a] == pre.entries@[a0]);
                    }
                    assert(self.wf());
                    assert forall|k2: Seq<u8>| #[trigger] self@.contains_key(k2) == pre@.remove(k).contains_key(k2)
                        && (self@.contains_key(k2) ==> self@[k2] == pre@.remove(k)[k2]) by {
                        if pre.has(k2) && k2 != k {
                            let j = pre.index_of(k2);
                            pre.lemma_view_at(j);
                            let j1 = if j < ii { j } else { j - 1 };
                            assert(self.entries@[j1] == pre.entries@[j]);
                            self.lemma_view_at(j1);
                        }
                        if self.has(k2) {
                            let j1 = self.index_of(k2);
                            self.lemma_view_at(j1);
                            let j = if j1 < ii { j1 } else { j1 + 1 };
                            assert(self.entries@[j1] == pre.entries@[j]);
                            pre.lemma_view_at(j);
                        }
                    }
                    assert(self@ =~= pre@.remove(k));
                }
                Some(e.value)
            },
            None => {
                proof {
                    assert(pre@ =~= pre@.remove(key@));
                }
                None
            },
        }
    }

    /// Removes every record that is expired at `now` (epoch seconds) and
    /// reports each removal. The store is scanned whole first and the marked
    /// keys are removed afterwards.
    pub fn sweep(&mut self, now: i64) -> (r: Vec<Expiry>)
        requires
            old(self).wf(),
        ensures
            final(self).wf(),
            final(self)@ == swept(old(self)@, now as int),
            r@.len() == old(self)@.len() - final(self)@.len(),
            forall|j: int| 0 <= j < r@.len() ==> {
                let k = (#[trigger] r@[j]).key@;
                &&& old(self)@.contains_key(k)
                &&& is_expired(old(self)@[k], now as int)
                &&& r@[j].expire_at as int == expire_at_of(old(self)@[k])
                &&& r@[j].ttl_delta as int == ttl_of(old(self)@[k])
            },
            forall|k: Seq<u8>| old(self)@.contains_key(k) && is_expired(old(self)@[k], now as int)
                ==> exists|j: int| 0 <= j < r@.len() && (#[trigger] r@[j]).key@ == k,
    {
        let ghost pre = *self;
        let mut marked: Vec<Expiry> = Vec::new();
        let mut i: usize = 0;
        while i < self.entries.len()
            invariant
                *self == pre,
                pre.wf(),
                i <= self.entries@.len(),
                forall|j: int| 0 <= j < marked@.len() ==> {
                    let k = (#[trigger] marked@[j]).key@;
                    &&& pre@.contains_key(k)
                    &&& is_expired(pre@[k], now as int)
                    &&& marked@[j].expire_at as int == expire_at_of(pre@[k])
                    &&& marked@[j].ttl_delta as int == ttl_of(pre@[k])
                },
                forall|t: int| 0 <= t < i && is_expired(#[trigger] pre.entries@[t].value@, now as int)
                    ==> exists|j: int| 0 <= j < marked@.len() && (#[trigger] marked@[j]).key@ == pre.entries@[t].key@,
                forall|j: int| 0 <= j < marked@.len() ==> exists|t: int|
                    0 <= t < i && pre.entries@[t].key@ == (#[trigger] marked@[j]).key@,
                forall|a: int, b: int| 0 <= a < marked@.len() && 0 <= b < marked@.len() && a != b
                    ==> marked@[a].key@ != marked@[b].key@,
            decreases self.entries@.len() - i,
        {
            let e = &self.entries[i];
            proof { pre.lemma_view_at(i as int); }
            let ghost before = marked@;
            if e.value.is_expired_at(now) {
                let x = Expiry { key: e.key.duplicate(), expire_at: e.value.expire_at(), ttl_delta: e.value.ttl_delta() };
                marked.push(x);
                proof {
                    let last = marked@.len() - 1;
                    assert(marked@[last].key@ == pre.entries@[i as int].key@);
                    assert forall|j: int| 0 <= j < last implies marked@[j].key@ != marked@[last].key@ by {
                        assert(marked@[j] == before[j]);
                        let t = choose|t: int| 0 <= t < i && pre.entries@[t].key@ == (#[trigger] before[j]).key@;
                    }
                }
            }
            proof {
                assert forall|t: int| 0 <= t < i + 1 && is_expired(#[trigger] pre.entries@[t].value@, now as int)
                    implies exists|j: int| 0 <= j < marked@.len() && (#[trigger] marked@[j]).key@ == pre.entries@[t].key@ by {
                    if t < i {
                        let j = choose|j: int| 0 <= j < before.len() && (#[trigger] before[j]).key@ == pre.entries@[t].key@;
                        assert(marked@[j] == before[j]);
                    } else {
                        assert(marked@[marked@.len() - 1].key@ == pre.entries@[t].key@);
                    }
                }
                assert forall|j: int| 0 <= j < marked@.len() implies exists|t: int|
                    0 <= t < i + 1 && pre.entries@[t].key@ == (#[trigger] marked@[j]).key@ by {
                    if j < before.len() {
                        assert(marked@[j] == before[j]);
                        let t = choose|t: int| 0 <= t < i && pre.entries@[t].key@ == (#[trigger] before[j]).key@;
                        assert(pre.entries@[t].key@ == marked@[j].key@);
                    } else {
                        assert(pre.entries@[i as int].key@ == marked@[j].key@);
                    }
                }
            }
            i = i + 1;
        }
        proof {
            pre.lemma_len();
        }
        let mut j: usize = 0;
        while j < marked.len()
            invariant
                self.wf(),
                j <= marked@.len(),
                forall|k: Seq<u8>| #[trigger] self@.contains_key(k) <==> (pre@.contains_key(k)
                    && !(exists|m: int| 0 <= m < j && (#[trigger] marked@[m]).key@ == k)),
                forall|k: Seq<u8>| #[trigger] self@.contains_key(k) ==> self@[k] == pre@[k],
                forall|a: int, b: int| 0 <= a < marked@.len() && 0 <= b < marked@.len() && a != b
                    ==> marked@[a].key@ != marked@[b].key@,
                forall|m: int| 0 <= m < marked@.len() ==> pre@.contains_key((#[trigger] marked@[m]).key@),
                self@.dom().finite(),
                self@.len() == pre@.len() - j,
            decreases marked@.len() - j,
        {
            proof {
                let k = marked@[j as int].key@;
                assert(self@.contains_key(k));
            }
            let _ = self.remove(marked[j].key.as_bytes());
            proof { self.lemma_len(); }
            j = j + 1;
        }
        proof {
            assert forall|k: Seq<u8>| #[trigger] self@.contains_key(k) == swept(pre@, now as int).contains_key(k) by {
                if pre@.contains_key(k) && is_expired(pre@[k], now as int) {
                    let t = pre.index_of(k);
                    pre.lemma_view_at(t);
                    assert(is_expired(pre.entries@[t].value@, now as int));
                }
            }
            assert(self@ =~= swept(pre@, now as int));
        }
        marked
    }
}

} // verus!
