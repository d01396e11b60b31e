//! A small table of keys and values, each key at most once, in the order in
//! which the keys came.

use vstd::prelude::*;

verus! {

/// A key that can be told from another by what it stands for.
pub trait TableKey: View {
    fn same_key(&self, other: &Self) -> (same: bool)
        ensures
            same == (self@ == other@),
    ;
}

impl TableKey for String {
    fn same_key(&self, other: &Self) -> (same: bool) {
        *self == *other
    }
}

#[derive(Debug)]
pub struct Table<K, V> {
    pub entries: Vec<(K, V)>,
}

impl<K: TableKey, V> Table<K, V> {
    /// No key stands twice.
    pub open spec fn wf(self) -> bool {
        forall|i: int, j: int|
            0 <= i < j < self.entries@.len() ==> (#[trigger] self.entries@[i]).0@ != (
            #[trigger] self.entries@[j]).0@
    }

    /// Whether the table has an entry for `key`.
    pub open spec fn has(self, key: K::V) -> bool {
        exists|i: int| 0 <= i < self.entries@.len() && (#[trigger] self.entries@[i]).0@ == key
    }

    /// Where the entry for `key` stands.
    pub open spec fn place(self, key: K::V) -> int {
        choose|i: int| 0 <= i < self.entries@.len() && (#[trigger] self.entries@[i]).0@ == key
    }

    /// The table as a map.
    pub open spec fn view(self) -> Map<K::V, V> {
        Map::new(|key: K::V| self.has(key), |key: K::V| self.entries@[self.place(key)].1)
    }

    /// An entry's key is mapped to the entry's value.
    pub proof fn lemma_entry(self, i: int)
        requires
            self.wf(),
            0 <= i < self.entries@.len(),
        ensures
            self@.contains_key(self.entries@[i].0@),
            self@[self.entries@[i].0@] == self.entries@[i].1,
            self.place(self.entries@[i].0@) == i,
    {
        let key = self.entries@[i].0@;
        let p = self.place(key);
        assert(self.entries@[i].0@ == key);
        assert(self.has(key));
        assert(0 <= p < self.entries@.len() && self.entries@[p].0@ == key);
        if p < i {
        } else if i < p {
        }
    }

    pub fn new() -> (t: Self)
        ensures
            t.wf(),
            t@ == Map::<K::V, V>::empty(),
    {
        let t = Table { entries: Vec::new() };
        assert(t@ =~= Map::<K::V, V>::empty());
        t
    }

    /// Where the entry for `key` stands, if there is one.
    pub fn find(&self, key: &K) -> (at: Option<usize>)
        requires
            self.wf(),
        ensures
            match at {
                Some(i) => i < self.entries@.len() && self.entries@[i as int].0@ == key@
                    && self@.contains_key(key@) && self@[key@] == self.entries@[i as int].1,
                None => !self@.contains_key(key@),
            },
    {
        let mut i: usize = 0;
        while i < self.entries.len()
            invariant
                self.wf(),
                i <= self.entries@.len(),
                forall|j: int| 0 <= j < i ==> (#[trigger] self.entries@[j]).0@ != key@,
            decreases self.entries@.len() - i,
        {
            if self.entries[i].0.same_key(key) {
                proof {
                    self.lemma_entry(i as int);
                }
                return Some(i);
            }
            i += 1;
        }
        None
    }

    pub fn get(&self, key: &K) -> (value: Option<&V>)
        requires
            self.wf(),
        ensures
            match value {
                Some(v) => self@.contains_key(key@) && self@[key@] == *v,
                None => !self@.contains_key(key@),
            },
    {
        match self.find(key) {
            Some(i) => Some(&self.entries[i].1),
            None => None,
        }
    }

    /// Maps `key` to `value`, in place of what it was mapped to.
    pub fn insert(&mut self, key: K, value: V)
        requires
            old(self).wf(),
        ensures
            final(self).wf(),
            final(self)@ == old(self)@.insert(key@, value),
    {
        let ghost before = *self;
        match self.find(&key) {
            Some(i) => {
                proof {
                    before.lemma_entry(i as int);
                }
                let ghost k = key@;
                let ghost v = value;
                self.entries[i] = (key, value);
                proof {
                    assert forall|a: int, b: int| 0 <= a < b < self.entries@.len() implies (
                    #[trigger] self.entries@[a]).0@ != (#[trigger] self.entries@[b]).0@ by {
                        assert(before.entries@[a].0@ != before.entries@[b].0@);
                    }
                    let want = before@.insert(k, v);
                    assert(self@ =~= want) by {
                        assert forall|q: K::V| self@.contains_key(q) == want.contains_key(q) by {
                            if self.has(q) {
                                let p = self.place(q);
                                assert(before.entries@[p].0@ == q);
                            }
                            if before.has(q) {
                                let p = before.place(q);
                                assert(self.entries@[p].0@ == q);
                            }
                        }
                        assert forall|q: K::V| self@.contains_key(q) implies self@[q]
                            == want[q] by {
                            let p = self.place(q);
                            self.lemma_entry(p);
                            before.lemma_entry(p);
                        }
                    }
                }
            },
            None => {
                let ghost k = key@;
                let ghost v = value;
                self.entries.push((key, value));
                proof {
                    let n = before.entries@.len() as int;
                    assert forall|a: int, b: int| 0 <= a < b < self.entries@.len() implies (
                    #[trigger] self.entries@[a]).0@ != (#[trigger] self.entries@[b]).0@ by {
                        assert(self.entries@[a] == before.entries@[a]);
                        if b < n {
                            assert(before.entries@[a].0@ != before.entries@[b].0@);
                        } else {
                            assert(before.has(before.entries@[a].0@));
                        }
                    }
                    let want = before@.insert(k, v);
                    assert(self@ =~= want) by {
                        assert forall|q: K::V| self@.contains_key(q) == want.contains_key(q) by {
                            if self.has(q) {
                                let p = self.place(q);
                                if p < n {
                                    assert(before.entries@[p].0@ == q);
                                }
                            }
                            if before.has(q) {
                                let p = before.place(q);
                                assert(self.entries@[p].0@ == q);
                            }
                            if q == k {
                                assert(self.entries@[n].0@ == q);
                            }
                        }
                        assert forall|q: K::V| self@.contains_key(q) implies self@[q]
                            == want[q] by {
                            let p = self.place(q);
                            self.lemma_entry(p);
                            if p < n {
                                before.lemma_entry(p);
                                assert(before.has(q));
                            }
                        }
                    }
                }
            },
        }
    }

    /// Takes out the entry at `at`; the others keep their order.
    pub fn remove_at(&mut self, at: usize)
        requires
            old(self).wf(),
            at < old(self).entries@.len(),
        ensures
            final(self).wf(),
            final(self).entries@ == old(self).entries@.remove(at as int),
            final(self)@ == old(self)@.remove(old(self).entries@[at as int].0@),
    {
        let ghost before = *self;
        let _ = self.entries.remove(at);
        proof {
            let gone = before.entries@[at as int].0@;
            assert forall|a: int, b: int| 0 <= a < b < self.entries@.len() implies (
            #[trigger] self.entries@[a]).0@ != (#[trigger] self.entries@[b]).0@ by {
                let a0 = if a < at { a } else { a + 1 };
                let b0 = if b < at { b } else { b + 1 };
                assert(self.entries@[a] == before.entries@[a0]);
                assert(self.entries@[b] == before.entries@[b0]);
            }
            let want = before@.remove(gone);
            assert(self@ =~= want) by {
                assert forall|q: K::V| self@.contains_key(q) == want.contains_key(q) by {
                    if self.has(q) {
                        let p = self.place(q);
                        let p0 = if p < at { p } else { p + 1 };
                        assert(self.entries@[p] == before.entries@[p0]);
                        assert(before.entries@[p0].0@ == q);
                        before.lemma_entry(p0);
                        before.lemma_entry(at as int);
                    }
                    if before.has(q) && q != gone {
                        let p = before.place(q);
                        let p1 = if p < at { p } else { p - 1 };
                        assert(self.entries@[p1] == before.entries@[p]);
                        assert(self.entries@[p1].0@ == q);
                    }
                }
                assert forall|q: K::V| self@.contains_key(q) implies self@[q] == want[q] by {
                    let p = self.place(q);
                    let p0 = if p < at { p } else { p + 1 };
                    self.lemma_entry(p);
                    assert(self.entries@[p] == before.entries@[p0]);
                    before.lemma_entry(p0);
                }
            }
        }
    }

    /// Takes out the entry for `key`, if there is one.
    pub fn remove(&mut self, key: &K)
        requires
            old(self).wf(),
        ensures
            final(self).wf(),
            final(self)@ == old(self)@.remove(key@),
    {
        match self.find(key) {
            Some(i) => self.remove_at(i),
            None => {
                assert(self@.remove(key@) =~= self@);
            },
        }
    }
}

} // verus!
