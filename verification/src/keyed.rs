//! A small map keyed by names, each name held once.

use vstd::prelude::*;
use crate::scan::str_eq;

verus! {

/// A map from names to values, as a list of (name, value) entries in
/// which no name occurs twice.
pub struct KeyMap<V> {
    entries: Vec<(String, V)>,
}

impl<V: Copy> KeyMap<V> {
    /// No name occurs twice.
    pub closed spec fn wf(&self) -> bool {
        forall|i: int, j: int|
            0 <= i < self.entries@.len() && 0 <= j < self.entries@.len() && i != j
                ==> #[trigger] self.entries@[i].0@ != #[trigger] self.entries@[j].0@
    }

    spec fn index_of(&self, k: Seq<char>) -> int {
        choose|i: int| 0 <= i < self.entries@.len() && self.entries@[i].0@ == k
    }

    pub closed spec fn view(&self) -> Map<Seq<char>, V> {
        Map::new(
            |k: Seq<char>| exists|i: int| 0 <= i < self.entries@.len() && self.entries@[i].0@ == k,
            |k: Seq<char>| self.entries@[self.index_of(k)].1,
        )
    }

    proof fn lemma_at(&self, i: int)
        requires
            self.wf(),
            0 <= i < self.entries@.len(),
        ensures
            self.view().contains_key(self.entries@[i].0@),
            self.view()[self.entries@[i].0@] == self.entries@[i].1,
    {
        let k = self.entries@[i].0@;
        assert(self.view().dom().contains(k));
        let j = self.index_of(k);
        assert(self.entries@[j].0@ == k);
        assert(j == i);
    }

    pub fn new() -> (m: Self)
        ensures
            m.wf(),
            m.view() == Map::<Seq<char>, V>::empty(),
    {
        let m = KeyMap { entries: Vec::new() };
        assert(m.view() =~= Map::<Seq<char>, V>::empty());
        m
    }

    fn find(&self, k: &str) -> (r: Option<usize>)
        requires
            self.wf(),
        ensures
            match r {
                Some(i) => i < self.entries@.len() && self.entries@[i as int].0@ == k@,
                None => !self.view().contains_key(k@),
            },
    {
        let mut i: usize = 0;
        while i < self.entries.len()
            invariant
                i <= self.entries@.len(),
                forall|j: int| 0 <= j < i ==> self.entries@[j].0@ != k@,
            decreases self.entries.len() - i,
        {
            if str_eq(self.entries[i].0.as_str(), k) {
                return Some(i);
            }
            i = i + 1;
        }
        None
    }

    /// The value of a name, when present.
    pub fn get(&self, k: &str) -> (r: Option<V>)
        requires
            self.wf(),
        ensures
            r == (if self.view().contains_key(k@) {
                Some(self.view()[k@])
            } else {
                None::<V>
            }),
    {
        match self.find(k) {
            Some(i) => {
                proof {
                    self.lemma_at(i as int);
                }
                Some(self.entries[i].1)
            },
            None => None,
        }
    }

    /// Whether a name is present.
    pub fn contains(&self, k: &str) -> (b: bool)
        requires
            self.wf(),
        ensures
            b == self.view().contains_key(k@),
    {
        match self.find(k) {
            Some(i) => {
                proof {
                    self.lemma_at(i as int);
                }
                true
            },
            None => false,
        }
    }

    /// Sets the value of a name.
    pub fn insert(&mut self, k: &str, v: V)
        requires
            old(self).wf(),
        ensures
            final(self).wf(),
            final(self).view() == old(self).view().insert(k@, v),
    {
        let ghost pre = *self;
        match self.find(k) {
            Some(i) => {
                let key = self.entries[i].0.clone();
                self.entries.set(i, (key, v));
                proof {
                    assert(self.wf());
                    assert forall|q: Seq<char>|
                        self.view().contains_key(q) == pre.view().insert(k@, v).contains_key(q) by {
                        if pre.view().contains_key(q) {
                            let j = pre.index_of(q);
                            assert(self.entries@[j].0@ == q);
                        }
                        if self.view().contains_key(q) {
                            let j = self.index_of(q);
                            if j != i {
                                assert(pre.entries@[j].0@ == q);
                            }
                        }
                    }
                    assert forall|q: Seq<char>| #[trigger]
                        self.view().contains_key(q) implies self.view()[q] == pre.view().insert(
                        k@,
                        v,
                    )[q] by {
                        let j = self.index_of(q);
                        self.lemma_at(j);
                        if j != i {
                            pre.lemma_at(j);
                        }
                    }
                    assert(self.view() =~= pre.view().insert(k@, v));
                }
            },
            None => {
                let key = crate::text::string_of(k);
                self.entries.push((key, v));
                proof {
                    let n = pre.entries@.len() as int;
                    assert(self.wf());
                    assert forall|q: Seq<char>|
                        self.view().contains_key(q) == pre.view().insert(k@, v).contains_key(q) by {
                        if pre.view().contains_key(q) {
                            let j = pre.index_of(q);
                            assert(self.entries@[j].0@ == q);
                        }
                        if q == k@ {
                            assert(self.entries@[n].0@ == q);
                        }
                        if self.view().contains_key(q) {
                            let j = self.index_of(q);
                            if j != n {
                                assert(pre.entries@[j].0@ == q);
                            }
                        }
                    }
                    assert forall|q: Seq<char>| #[trigger]
                        self.view().contains_key(q) implies self.view()[q] == pre.view().insert(
                        k@,
                        v,
                    )[q] by {
                        let j = self.index_of(q);
                        self.lemma_at(j);
                        if j != n {
                            pre.lemma_at(j);
                        }
                    }
                    assert(self.view() =~= pre.view().insert(k@, v));
                }
            },
        }
    }

    /// Removes a name.
    pub fn remove(&mut self, k: &str)
        requires
            old(self).wf(),
        ensures
            final(self).wf(),
            final(self).view() == old(self).view().remove(k@),
    {
        let ghost pre = *self;
        match self.find(k) {
            Some(i) => {
                self.entries.remove(i);
                proof {
                    assert(self.wf()) by {
                        assert forall|a: int, b: int|
                            0 <= a < self.entries@.len() && 0 <= b < self.entries@.len() && a
                                != b implies #[trigger] self.entries@[a].0@
                            != #[trigger] self.entries@[b].0@ by {
                            let pa = if a < i { a } else { a + 1 };
                            let pb = if b < i { b } else { b + 1 };
                            assert(self.entries@[a] == pre.entries@[pa]);
                            assert(self.entries@[b] == pre.entries@[pb]);
                        }
                    }
                    assert forall|q: Seq<char>|
                        self.view().contains_key(q) == pre.view().remove(k@).contains_key(q) by {
                        if pre.view().contains_key(q) && q != k@ {
                            let j = pre.index_of(q);
                            assert(j != i);
                            let nj = if j < i { j } else { j - 1 };
                            assert(self.entries@[nj].0@ == q);
                        }
                        if self.view().contains_key(q) {
                            let j = self.index_of(q);
                            let pj = if j < i { j } else { j + 1 };
                            assert(pre.entries@[pj].0@ == q);
                            assert(pj != i);
                        }
                    }
                    assert forall|q: Seq<char>| #[trigger]
                        self.view().contains_key(q) implies self.view()[q] == pre.view().remove(
                        k@,
                    )[q] by {
                        let j = self.index_of(q);
                        self.lemma_at(j);
                        let pj = if j < i { j } else { j + 1 };
                        assert(pre.entries@[pj] == self.entries@[j]);
                        pre.lemma_at(pj);
                    }
                    assert(self.view() =~= pre.view().remove(k@));
                }
            },
            None => {
                assert(self.view() =~= pre.view().remove(k@));
            },
        }
    }

    /// Removes every name.
    pub fn clear(&mut self)
        ensures
            final(self).wf(),
            final(self).view() == Map::<Seq<char>, V>::empty(),
    {
        self.entries = Vec::new();
        assert(self.view() =~= Map::<Seq<char>, V>::empty());
    }
}

} // verus!
