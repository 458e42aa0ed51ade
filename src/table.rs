//! Dependency tables: records keyed by dependency name, each name at most once.

use vstd::prelude::*;
use crate::dependency::{DependencyModel, DependencyView};

verus! {

/// Dependency records by name.
#[derive(Debug, Clone, Default)]
pub struct DependencyTable {
    /// The entries, in the order they were added; no name occurs twice.
    pub entries: Vec<(String, DependencyModel)>,
}

impl DependencyTable {
    /// The name of entry `i`.
    pub open spec fn key(&self, i: int) -> Seq<char> {
        self.entries@[i].0@
    }

    /// No name occurs twice.
    pub open spec fn wf(&self) -> bool {
        forall|i: int, j: int|
            0 <= i < self.entries@.len() && 0 <= j < self.entries@.len() && i != j
                ==> #[trigger] self.key(i) != #[trigger] self.key(j)
    }

    /// Whether some entry is named `k`.
    pub open spec fn has(&self, k: Seq<char>) -> bool {
        exists|i: int| 0 <= i < self.entries@.len() && #[trigger] self.key(i) == k
    }

    /// The position of the entry named `k`.
    pub open spec fn index_of(&self, k: Seq<char>) -> int {
        choose|i: int| 0 <= i < self.entries@.len() && #[trigger] self.key(i) == k
    }

    /// In a well-formed table, entry `i` is what the table holds under its name.
    pub proof fn lemma_entry(&self, i: int)
        requires
            self.wf(),
            0 <= i < self.entries@.len(),
        ensures
            self@.contains_key(self.key(i)),
            self@[self.key(i)] == self.entries@[i].1@,
            self.index_of(self.key(i)) == i,
    {
        let k = self.key(i);
        assert(self.has(k));
        let j = self.index_of(k);
        assert(self.key(j) == k);
    }

    /// An empty table.
    pub fn new() -> (r: DependencyTable)
        ensures
            r.wf(),
            r@ == Map::<Seq<char>, DependencyView>::empty(),
            r.entries@.len() == 0,
    {
        let r = DependencyTable { entries: Vec::new() };
        assert(r@ =~= Map::<Seq<char>, DependencyView>::empty());
        r
    }

    /// A copy of the table.
    pub fn duplicate(&self) -> (r: DependencyTable)
        requires
            self.wf(),
        ensures
            r.wf(),
            r@ == self@,
            r.entries@.len() == self.entries@.len(),
            forall|i: int| 0 <= i < self.entries@.len() ==> r.key(i) == self.key(i),
    {
        let mut v: Vec<(String, DependencyModel)> = Vec::new();
        let mut i: usize = 0;
        while i < self.entries.len()
            invariant
                self.wf(),
                i <= self.entries@.len(),
                v@.len() == i,
                forall|j: int|
                    0 <= j < i ==> (#[trigger] v@[j]).0@ == self.key(j) && v@[j].1@
                        == self.entries@[j].1@,
            decreases self.entries@.len() - i,
        {
            let (n, d) = &self.entries[i];
            v.push((n.clone(), d.duplicate()));
            i = i + 1;
        }
        let r = DependencyTable { entries: v };
        proof {
            assert forall|a: int, b: int|
                0 <= a < r.entries@.len() && 0 <= b < r.entries@.len() && a != b
                implies #[trigger] r.key(a) != #[trigger] r.key(b) by {
                assert(self.key(a) != self.key(b));
            }
            assert forall|x: Seq<char>| #[trigger] r@.contains_key(x) == self@.contains_key(x) by {
                if r.has(x) {
                    let j = r.index_of(x);
                    assert(self.key(j) == x);
                }
                if self.has(x) {
                    let j = self.index_of(x);
                    assert(r.key(j) == x);
                }
            }
            assert forall|x: Seq<char>| #[trigger] r@.contains_key(x) implies r@[x] == self@[x] by {
                let j = r.index_of(x);
                r.lemma_entry(j);
                assert(self.key(j) == x);
                self.lemma_entry(j);
            }
            assert(r@ =~= self@);
        }
        r
    }

    /// The number of entries.
    pub fn len(&self) -> (r: usize)
        ensures
            r == self.entries@.len(),
    {
        self.entries.len()
    }

    /// Whether the table has no entry.
    pub fn is_empty(&self) -> (r: bool)
        ensures
            r == (self.entries@.len() == 0),
    {
        self.entries.len() == 0
    }

    /// The position of the entry named `name`.
    pub fn find(&self, name: &String) -> (r: Option<usize>)
        requires
            self.wf(),
        ensures
            match r {
                Some(i) => i < self.entries@.len() && self.key(i as int) == name@,
                None => !self.has(name@),
            },
            r is Some == self@.contains_key(name@),
    {
        let mut i: usize = 0;
        while i < self.entries.len()
            invariant
                self.wf(),
                i <= self.entries@.len(),
                forall|j: int| 0 <= j < i ==> self.key(j) != name@,
            decreases self.entries@.len() - i,
        {
            if self.entries[i].0 == *name {
                proof {
                    self.lemma_entry(i as int);
                }
                return Some(i);
            }
            i = i + 1;
        }
        None
    }

    /// Whether an entry is named `name`.
    pub fn contains_key(&self, name: &String) -> (r: bool)
        requires
            self.wf(),
        ensures
            r == self@.contains_key(name@),
    {
        self.find(name).is_some()
    }

    /// The record named `name`, if any.
    pub fn get(&self, name: &String) -> (r: Option<&DependencyModel>)
        requires
            self.wf(),
        ensures
            match r {
                Some(d) => self@.contains_key(name@) && d@ == self@[name@],
                None => !self@.contains_key(name@),
            },
    {
        match self.find(name) {
            Some(i) => {
                proof {
                    self.lemma_entry(i as int);
                }
                Some(&self.entries[i].1)
            },
            None => None,
        }
    }

    /// Sets the record named `name`, replacing the one held before.
    pub fn insert(&mut self, name: String, dep: DependencyModel)
        requires
            old(self).wf(),
        ensures
            final(self).wf(),
            final(self)@ == old(self)@.insert(name@, dep@),
    {
        let ghost k = name@;
        let ghost v = dep@;
        match self.find(&name) {
            Some(i) => {
                self.entries.set(i, (name, dep));
                proof {
                    assert forall|a: int, b: int|
                        0 <= a < self.entries@.len() && 0 <= b < self.entries@.len() && a != b
                        implies #[trigger] self.key(a) != #[trigger] self.key(b) by {
                        assert(old(self).key(a) != old(self).key(b));
                    }
                    self.lemma_same_view_except(*old(self), i as int);
                }
            },
            None => {
                self.entries.push((name, dep));
                proof {
                    let n = old(self).entries@.len() as int;
                    assert forall|a: int, b: int|
                        0 <= a < self.entries@.len() && 0 <= b < self.entries@.len() && a != b
                        implies #[trigger] self.key(a) != #[trigger] self.key(b) by {
                        if a < n && b < n {
                            assert(old(self).key(a) != old(self).key(b));
                        } else if a == n {
                            assert(old(self).key(b) == self.key(b));
                        } else {
                            assert(old(self).key(a) == self.key(a));
                        }
                    }
                    self.lemma_same_view_except(*old(self), n);
                }
            },
        }
    }

    /// Where `self` holds the entries of `o` and one more or one replaced at
    /// position `i`, its view is that of `o` with the entry at `i` set.
    proof fn lemma_same_view_except(&self, o: DependencyTable, i: int)
        requires
            self.wf(),
            o.wf(),
            0 <= i < self.entries@.len(),
            self.entries@.len() == o.entries@.len() || (self.entries@.len() == o.entries@.len() + 1
                && i == o.entries@.len()),
            forall|j: int| 0 <= j < self.entries@.len() && j != i ==> self.entries@[j] == o.entries@[j],
            i < o.entries@.len() ==> o.key(i) == self.key(i),
        ensures
            self@ == o@.insert(self.key(i), self.entries@[i].1@),
    {
        let k = self.key(i);
        assert forall|x: Seq<char>| #[trigger] self@.contains_key(x) == o@.insert(k, self.entries@[i].1@).contains_key(x) by {
            if self.has(x) {
                let j = self.index_of(x);
                if j != i {
                    assert(o.key(j) == x);
                }
            }
            if o.has(x) {
                let j = o.index_of(x);
                if j != i {
                    assert(self.key(j) == x);
                }
            }
        }
        assert forall|x: Seq<char>| #[trigger] self@.contains_key(x) implies self@[x] == o@.insert(k, self.entries@[i].1@)[x] by {
            let j = self.index_of(x);
            self.lemma_entry(j);
            if x != k {
                assert(j != i);
                assert(o.key(j) == x);
                o.lemma_entry(j);
            }
        }
        assert(self@ =~= o@.insert(k, self.entries@[i].1@));
    }

    /// Removes the record named `name`, if any.
    pub fn remove(&mut self, name: &String)
        requires
            old(self).wf(),
        ensures
            final(self).wf(),
            final(self)@ == old(self)@.remove(name@),
    {
        match self.find(name) {
            Some(i) => {
                let ghost o = *old(self);
                let _ = self.entries.remove(i);
                proof {
                    let n = self.entries@.len() as int;
                    assert forall|j: int| 0 <= j < n implies #[trigger] self.key(j) == o.key(
                        if j < i { j } else { j + 1 },
                    ) by {}
                    assert forall|a: int, b: int|
                        0 <= a < n && 0 <= b < n && a != b
                        implies #[trigger] self.key(a) != #[trigger] self.key(b) by {
                        let a2 = if a < i { a } else { a + 1 };
                        let b2 = if b < i { b } else { b + 1 };
                        assert(self.key(a) == o.key(a2));
                        assert(self.key(b) == o.key(b2));
                    }
                    assert forall|x: Seq<char>| #[trigger] self@.contains_key(x) == o@.remove(name@).contains_key(x) by {
                        if self.has(x) {
                            let j = self.index_of(x);
                            let j2 = if j < i { j } else { j + 1 };
                            assert(self.key(j) == o.key(j2));
                            o.lemma_entry(i as int);
                            assert(o.has(x));
                            if x == name@ {
                                assert(j2 != i);
                            }
                        }
                        if o.has(x) && x != name@ {
                            let j = o.index_of(x);
                            assert(j != i);
                            let j1 = if j < i { j } else { j - 1 };
                            assert(self.key(j1) == o.key(j));
                        }
                    }
                    assert forall|x: Seq<char>| #[trigger] self@.contains_key(x) implies self@[x] == o@.remove(name@)[x] by {
                        let j = self.index_of(x);
                        self.lemma_entry(j);
                        let j2 = if j < i { j } else { j + 1 };
                        assert(self.key(j) == o.key(j2));
                        o.lemma_entry(j2);
                    }
                    assert(self@ =~= o@.remove(name@));
                }
            },
            None => {
                proof {
                    assert(self@ =~= old(self)@.remove(name@));
                }
            },
        }
    }
}

impl View for DependencyTable {
    type V = Map<Seq<char>, DependencyView>;

    open spec fn view(&self) -> Map<Seq<char>, DependencyView> {
        Map::new(|k: Seq<char>| self.has(k), |k: Seq<char>| self.entries@[self.index_of(k)].1@)
    }
}

} // verus!
