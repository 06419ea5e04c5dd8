//! A table of values keyed by name, each name at most once.

use vstd::prelude::*;

verus! {

/// Values keyed by name. Names are kept in a `Vec` together with their
/// values, and no name occurs twice.
pub struct Table<V> {
    names: Vec<String>,
    values: Vec<V>,
}

impl<V: View> Table<V> {
    pub closed spec fn wf(&self) -> bool {
        &&& self.names@.len() == self.values@.len()
        &&& forall|i: int, j: int|
            0 <= i < self.names@.len() && 0 <= j < self.names@.len() && i != j
                ==> self.names@[i]@ != self.names@[j]@
    }

    spec fn has(&self, k: Seq<char>) -> bool {
        exists|i: int| 0 <= i < self.names@.len() && self.names@[i]@ == k
    }

    spec fn index_of(&self, k: Seq<char>) -> int {
        choose|i: int| 0 <= i < self.names@.len() && self.names@[i]@ == k
    }

    pub closed spec fn map(&self) -> Map<Seq<char>, V::V> {
        Map::new(|k: Seq<char>| self.has(k), |k: Seq<char>| self.values@[self.index_of(k)]@)
    }

    proof fn lemma_index_of(&self, i: int)
        requires
            self.wf(),
            0 <= i < self.names@.len(),
        ensures
            self.has(self.names@[i]@),
            self.index_of(self.names@[i]@) == i,
            self.map().contains_key(self.names@[i]@),
            self.map()[self.names@[i]@] == self.values@[i]@,
    {
        let k = self.names@[i]@;
        assert(self.has(k));
        let j = self.index_of(k);
        assert(self.names@[j]@ == k);
    }

    /// An empty table.
    pub fn new() -> (r: Table<V>)
        ensures
            r.wf(),
            r.map() == Map::<Seq<char>, V::V>::empty(),
    {
        let r = Table { names: Vec::new(), values: Vec::new() };
        assert(r.map() =~= Map::<Seq<char>, V::V>::empty());
        r
    }

    /// The position of `name`, if the table holds it.
    fn find(&self, name: &str) -> (r: Option<usize>)
        requires
            self.wf(),
        ensures
            match r {
                Some(i) => i < self.names@.len() && self.names@[i as int]@ == name@,
                None => !self.map().contains_key(name@),
            },
    {
        let key = name.to_owned();
        let mut i: usize = 0;
        while i < self.names.len()
            invariant
                i <= self.names@.len(),
                key@ == name@,
                forall|j: int| 0 <= j < i ==> self.names@[j]@ != name@,
            decreases self.names.len() - i,
        {
            if self.names[i] == key {
                return Some(i);
            }
            i = i + 1;
        }
        None
    }

    /// Whether the table holds `name`.
    pub fn contains(&self, name: &str) -> (r: bool)
        requires
            self.wf(),
        ensures
            r == self.map().contains_key(name@),
    {
        match self.find(name) {
            Some(i) => {
                proof {
                    self.lemma_index_of(i as int);
                }
                true
            },
            None => false,
        }
    }

    /// The value under `name`, if any.
    pub fn get(&self, name: &str) -> (r: Option<&V>)
        requires
            self.wf(),
        ensures
            match r {
                Some(v) => self.map().contains_key(name@) && self.map()[name@] == v@,
                None => !self.map().contains_key(name@),
            },
    {
        match self.find(name) {
            Some(i) => {
                proof {
                    self.lemma_index_of(i as int);
                }
                Some(&self.values[i])
            },
            None => None,
        }
    }

    /// Puts `value` under `name`, in place of any value there was.
    pub fn insert(&mut self, name: &str, value: V)
        requires
            old(self).wf(),
        ensures
            final(self).wf(),
            final(self).map() == old(self).map().insert(name@, value@),
    {
        let ghost old_table = *self;
        let ghost v = value@;
        match self.find(name) {
            Some(i) => {
                self.values.set(i, value);
                proof {
                    assert forall|k: Seq<char>|
                        #![trigger self.map().contains_key(k)]
                        self.map().contains_key(k) == old_table.map().insert(name@, v).contains_key(k)
                        by {
                        if old_table.has(k) {
                            let j = old_table.index_of(k);
                            assert(self.names@[j]@ == k);
                        }
                    }
                    assert forall|k: Seq<char>| #[trigger] self.map().contains_key(k)
                        implies self.map()[k] == old_table.map().insert(name@, v)[k] by {
                        let j = self.index_of(k);
                        self.lemma_index_of(j);
                        if j != i {
                            old_table.lemma_index_of(j);
                        }
                    }
                    assert(self.map() =~= old_table.map().insert(name@, v));
                }
            },
            None => {
                self.names.push(name.to_owned());
                self.values.push(value);
                proof {
                    let n = old_table.names@.len() as int;
                    assert forall|a: int, b: int|
                        0 <= a < self.names@.len() && 0 <= b < self.names@.len() && a != b
                        implies self.names@[a]@ != self.names@[b]@ by {
                        if a < n && b < n {
                        } else if a < n {
                            old_table.lemma_index_of(a);
                        } else {
                            old_table.lemma_index_of(b);
                        }
                    }
                    self.lemma_index_of(n);
                    assert forall|k: Seq<char>|
                        #![trigger self.map().contains_key(k)]
                        self.map().contains_key(k) == old_table.map().insert(name@, v).contains_key(k)
                        by {
                        if old_table.has(k) {
                            let j = old_table.index_of(k);
                            assert(self.names@[j]@ == k);
                        }
                        if self.has(k) {
                            let j = self.index_of(k);
                            if j < n {
                                assert(old_table.names@[j]@ == k);
                            }
                        }
                    }
                    assert forall|k: Seq<char>| #[trigger] self.map().contains_key(k)
                        implies self.map()[k] == old_table.map().insert(name@, v)[k] by {
                        let j = self.index_of(k);
                        self.lemma_index_of(j);
                        if j < n {
                            old_table.lemma_index_of(j);
                        }
                    }
                    assert(self.map() =~= old_table.map().insert(name@, v));
                }
            },
        }
    }

    /// Takes the value under `name` out of the table.
    pub fn remove(&mut self, name: &str) -> (r: Option<V>)
        requires
            old(self).wf(),
        ensures
            final(self).wf(),
            final(self).map() == old(self).map().remove(name@),
            match r {
                Some(v) => old(self).map().contains_key(name@) && old(self).map()[name@] == v@,
                None => !old(self).map().contains_key(name@),
            },
    {
        let ghost old_table = *self;
        match self.find(name) {
            Some(i) => {
                proof {
                    old_table.lemma_index_of(i as int);
                }
                self.names.remove(i);
                let v = self.values.remove(i);
                proof {
                    let n = old_table.names@.len() as int;
                    assert forall|a: int| 0 <= a < n - 1 implies
                        #[trigger] self.names@[a] == old_table.names@[if a < i { a } else { a + 1 }]
                        && self.values@[a] == old_table.values@[if a < i { a } else { a + 1 }] by {
                    }
                    assert forall|a: int, b: int|
                        0 <= a < self.names@.len() && 0 <= b < self.names@.len() && a != b
                        implies self.names@[a]@ != self.names@[b]@ by {
                        let a1 = if a < i { a } else { a + 1 };
                        let b1 = if b < i { b } else { b + 1 };
                        assert(self.names@[a] == old_table.names@[a1]);
                        assert(self.names@[b] == old_table.names@[b1]);
                    }
                    assert forall|k: Seq<char>|
                        #![trigger self.map().contains_key(k)]
                        self.map().contains_key(k) == old_table.map().remove(name@).contains_key(k)
                        by {
                        if old_table.has(k) && k != name@ {
                            let j = old_table.index_of(k);
                            assert(j != i);
                            let j1 = if j < i { j } else { j - 1 };
                            assert(self.names@[j1] == old_table.names@[j]);
                        }
                        if self.has(k) {
                            let j = self.index_of(k);
                            let j1 = if j < i { j } else { j + 1 };
                            assert(self.names@[j] == old_table.names@[j1]);
                            assert(j1 != i);
                        }
                    }
                    assert forall|k: Seq<char>| #[trigger] self.map().contains_key(k)
                        implies self.map()[k] == old_table.map().remove(name@)[k] by {
                        let j = self.index_of(k);
                        self.lemma_index_of(j);
                        let j1 = if j < i { j } else { j + 1 };
                        assert(self.names@[j] == old_table.names@[j1]);
                        old_table.lemma_index_of(j1);
                    }
                    assert(self.map() =~= old_table.map().remove(name@));
                }
                Some(v)
            },
            None => {
                assert(self.map() =~= old_table.map().remove(name@));
                None
            },
        }
    }

    /// The names in the table, each once, in no particular order.
    pub fn names(&self) -> (r: Vec<String>)
        requires
            self.wf(),
        ensures
            r.deep_view().no_duplicates(),
            forall|k: Seq<char>| r.deep_view().contains(k) <==> self.map().contains_key(k),
    {
        let mut out: Vec<String> = Vec::new();
        let mut i: usize = 0;
        while i < self.names.len()
            invariant
                self.wf(),
                i <= self.names@.len(),
                out@.len() == i,
                forall|j: int| 0 <= j < i ==> #[trigger] out@[j]@ == self.names@[j]@,
            decreases self.names.len() - i,
        {
            out.push(self.names[i].clone());
            i = i + 1;
        }
        proof {
            assert forall|a: int, b: int|
                0 <= a < out.deep_view().len() && 0 <= b < out.deep_view().len() && a != b
                implies out.deep_view()[a] != out.deep_view()[b] by {
                assert(out.deep_view()[a] == out@[a]@);
                assert(out.deep_view()[b] == out@[b]@);
            }
            assert forall|k: Seq<char>| out.deep_view().contains(k) <==> self.map().contains_key(k) by {
                if out.deep_view().contains(k) {
                    let j = choose|j: int| 0 <= j < out.deep_view().len() && out.deep_view()[j] == k;
                    assert(out.deep_view()[j] == out@[j]@);
                    self.lemma_index_of(j);
                }
                if self.map().contains_key(k) {
                    let j = self.index_of(k);
                    assert(out.deep_view()[j] == out@[j]@);
                }
            }
        }
        out
    }
}

} // verus!
