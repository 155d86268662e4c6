use vstd::prelude::*;

use crate::names::NameSet;

verus! {

/// A mapping from type name to the names that its definition references,
/// one entry per name.
pub struct Graph {
    entries: Vec<(String, NameSet)>,
}

impl View for Graph {
    type V = Map<Seq<char>, Set<Seq<char>>>;

    closed spec fn view(&self) -> Map<Seq<char>, Set<Seq<char>>> {
        Map::new(|k: Seq<char>| self.has(k), |k: Seq<char>| self.refs(self.index_of(k)))
    }
}

impl Graph {
    /// Number of entries.
    pub closed spec fn size(&self) -> int {
        self.entries.len() as int
    }

    /// The key of entry `i`.
    pub closed spec fn key(&self, i: int) -> Seq<char> {
        self.entries@[i].0@
    }

    /// The referenced names of entry `i`.
    pub closed spec fn refs(&self, i: int) -> Set<Seq<char>> {
        self.entries@[i].1@
    }

    closed spec fn has(&self, k: Seq<char>) -> bool {
        exists|i: int| 0 <= i < self.size() && #[trigger] self.key(i) == k
    }

    closed spec fn index_of(&self, k: Seq<char>) -> int {
        choose|i: int| 0 <= i < self.size() && #[trigger] self.key(i) == k
    }

    /// Keys are unique and every reference set is well formed.
    pub closed spec fn wf(&self) -> bool {
        &&& forall|i: int, j: int|
            0 <= i < self.size() && 0 <= j < self.size() && i != j
                ==> #[trigger] self.key(i) != #[trigger] self.key(j)
        &&& forall|i: int| 0 <= i < self.size() ==> (#[trigger] self.entries@[i]).1.wf()
    }

    /// Entry `i` is the map's value at its key, and every key has an entry.
    pub proof fn lemma_entries(&self)
        requires
            self.wf(),
        ensures
            forall|i: int| 0 <= i < self.size() ==>
                self@.contains_key(#[trigger] self.key(i)) && self@[self.key(i)] == self.refs(i),
            forall|k: Seq<char>| #[trigger] self@.contains_key(k) ==>
                exists|i: int| 0 <= i < self.size() && #[trigger] self.key(i) == k,
            forall|i: int, j: int|
                0 <= i < self.size() && 0 <= j < self.size() && i != j
                    ==> #[trigger] self.key(i) != #[trigger] self.key(j),
    {
        assert forall|i: int| 0 <= i < self.size() implies
            self@.contains_key(#[trigger] self.key(i)) && self@[self.key(i)] == self.refs(i) by {
            assert(self.has(self.key(i)));
            let j = self.index_of(self.key(i));
            assert(self.key(j) == self.key(i));
        }
    }

    pub fn new() -> (r: Graph)
        ensures
            r.wf(),
            r@ == Map::<Seq<char>, Set<Seq<char>>>::empty(),
    {
        let r = Graph { entries: Vec::new() };
        assert(r@ =~= Map::<Seq<char>, Set<Seq<char>>>::empty());
        r
    }

    pub fn len(&self) -> (r: usize)
        ensures
            r == self.size(),
    {
        self.entries.len()
    }

    pub fn key_at(&self, i: usize) -> (r: &String)
        requires
            i < self.size(),
        ensures
            r@ == self.key(i as int),
    {
        &self.entries[i].0
    }

    pub fn names_at(&self, i: usize) -> (r: &NameSet)
        requires
            self.wf(),
            i < self.size(),
        ensures
            r.wf(),
            r@ == self.refs(i as int),
    {
        &self.entries[i].1
    }

    fn find(&self, k: &String) -> (r: Option<usize>)
        ensures
            match r {
                Some(i) => i < self.size() && self.key(i as int) == k@,
                None => !self.has(k@),
            },
    {
        let mut i: usize = 0;
        while i < self.entries.len()
            invariant
                i <= self.size(),
                forall|j: int| 0 <= j < i ==> #[trigger] self.key(j) != k@,
            decreases self.entries.len() - i,
        {
            if self.entries[i].0 == *k {
                return Some(i);
            }
            i = i + 1;
        }
        None
    }

    /// The reference set recorded for `k`.
    pub fn get(&self, k: &String) -> (r: Option<&NameSet>)
        requires
            self.wf(),
        ensures
            match r {
                Some(s) => self@.contains_key(k@) && s@ == self@[k@] && s.wf(),
                None => !self@.contains_key(k@),
            },
    {
        proof {
            self.lemma_entries();
        }
        match self.find(k) {
            Some(i) => Some(&self.entries[i].1),
            None => None,
        }
    }

    /// Records `v` for `k`, handing back the set it displaced, if any.
    pub fn insert(&mut self, k: String, v: NameSet) -> (r: Option<NameSet>)
        requires
            old(self).wf(),
            v.wf(),
        ensures
            final(self).wf(),
            final(self)@ == old(self)@.insert(k@, v@),
            match r {
                Some(p) => old(self)@.contains_key(k@) && p@ == old(self)@[k@] && p.wf(),
                None => !old(self)@.contains_key(k@),
            },
    {
        proof {
            self.lemma_entries();
        }
        let ghost kv = k@;
        let ghost vv = v@;
        match self.find(&k) {
            Some(i) => {
                self.entries.push((k, v));
                let (_, p) = self.entries.swap_remove(i);
                proof {
                    assert(self.key(i as int) == kv);
                    assert(self.refs(i as int) == vv);
                    assert forall|a: int, b: int|
                        0 <= a < self.size() && 0 <= b < self.size() && a != b
                            implies #[trigger] self.key(a) != #[trigger] self.key(b) by {
                        assert(a == i || self.key(a) == old(self).key(a));
                        assert(b == i || self.key(b) == old(self).key(b));
                    }
                    assert forall|a: int| 0 <= a < self.size() implies (#[trigger] self.entries@[a]).1.wf() by {
                        assert(a == i || self.entries@[a] == old(self).entries@[a]);
                    }
                    self.lemma_entries();
                    assert(self@ =~= old(self)@.insert(kv, vv)) by {
                        assert forall|x: Seq<char>| #[trigger] self@.contains_key(x) implies
                            old(self)@.insert(kv, vv).contains_key(x) by {
                            let a = choose|a: int| 0 <= a < self.size() && #[trigger] self.key(a) == x;
                            if a != i {
                                assert(old(self).key(a) == x);
                            }
                        }
                        assert forall|x: Seq<char>| #[trigger] old(self)@.insert(kv, vv).contains_key(x) implies
                            self@.contains_key(x) && self@[x] == old(self)@.insert(kv, vv)[x] by {
                            if x != kv {
                                let a = choose|a: int| 0 <= a < old(self).size() && #[trigger] old(self).key(a) == x;
                                assert(a != i);
                                assert(self.key(a) == x);
                            }
                        }
                    }
                }
                Some(p)
            },
            None => {
                self.entries.push((k, v));
                proof {
                    let n = old(self).size();
                    assert(self.key(n) == kv);
                    assert forall|a: int| 0 <= a < self.size() implies (#[trigger] self.entries@[a]).1.wf() by {
                        assert(a == n || self.entries@[a] == old(self).entries@[a]);
                    }
                    assert forall|a: int, b: int|
                        0 <= a < self.size() && 0 <= b < self.size() && a != b
                            implies #[trigger] self.key(a) != #[trigger] self.key(b) by {
                        if a == n {
                            assert(old(self).key(b) == self.key(b));
                        } else if b == n {
                            assert(old(self).key(a) == self.key(a));
                        } else {
                            assert(old(self).key(a) == self.key(a));
                            assert(old(self).key(b) == self.key(b));
                        }
                    }
                    self.lemma_entries();
                    assert(self@ =~= old(self)@.insert(kv, vv)) by {
                        assert forall|x: Seq<char>| #[trigger] self@.contains_key(x) implies
                            old(self)@.insert(kv, vv).contains_key(x) by {
                            let a = choose|a: int| 0 <= a < self.size() && #[trigger] self.key(a) == x;
                            if a != n {
                                assert(old(self).key(a) == x);
                            }
                        }
                        assert forall|x: Seq<char>| #[trigger] old(self)@.insert(kv, vv).contains_key(x) implies
                            self@.contains_key(x) && self@[x] == old(self)@.insert(kv, vv)[x] by {
                            if x != kv {
                                let a = choose|a: int| 0 <= a < old(self).size() && #[trigger] old(self).key(a) == x;
                                assert(self.key(a) == x);
                                assert(self.refs(a) == old(self).refs(a));
                            }
                        }
                    }
                }
                None
            },
        }
    }

    /// Drops the entry for `k`, if any.
    pub fn remove(&mut self, k: &String) -> (r: Option<NameSet>)
        requires
            old(self).wf(),
        ensures
            final(self).wf(),
            final(self)@ == old(self)@.remove(k@),
            match r {
                Some(p) => old(self)@.contains_key(k@) && p@ == old(self)@[k@],
                None => !old(self)@.contains_key(k@),
            },
    {
        proof {
            self.lemma_entries();
        }
        match self.find(k) {
            Some(i) => {
                let ghost n = old(self).size() - 1;
                let (_, p) = self.entries.swap_remove(i);
                proof {
                    assert forall|a: int| 0 <= a < self.size() implies
                        self.entries@[a] == old(self).entries@[if a == i { n } else { a }] by {}
                    assert forall|a: int| 0 <= a < self.size() implies (#[trigger] self.entries@[a]).1.wf() by {
                        assert(self.entries@[a] == old(self).entries@[if a == i { n } else { a }]);
                    }
                    assert forall|a: int, b: int|
                        0 <= a < self.size() && 0 <= b < self.size() && a != b
                            implies #[trigger] self.key(a) != #[trigger] self.key(b) by {
                        let oa = if a == i { n } else { a };
                        let ob = if b == i { n } else { b };
                        assert(self.key(a) == old(self).key(oa));
                        assert(self.key(b) == old(self).key(ob));
                    }
                    self.lemma_entries();
                    assert(self@ =~= old(self)@.remove(k@)) by {
                        assert forall|x: Seq<char>| #[trigger] self@.contains_key(x) implies
                            old(self)@.remove(k@).contains_key(x) && self@[x] == old(self)@[x] by {
                            let a = choose|a: int| 0 <= a < self.size() && #[trigger] self.key(a) == x;
                            let oa = if a == i { n } else { a };
                            assert(self.entries@[a] == old(self).entries@[oa]);
                            assert(old(self).key(oa) == x);
                            assert(oa != i);
                        }
                        assert forall|x: Seq<char>| #[trigger] old(self)@.remove(k@).contains_key(x) implies
                            self@.contains_key(x) by {
                            let a = choose|a: int| 0 <= a < old(self).size() && #[trigger] old(self).key(a) == x;
                            assert(a != i);
                            let na = if a == n { i as int } else { a };
                            assert(self.entries@[na] == old(self).entries@[a]);
                            assert(self.key(na) == x);
                        }
                    }
                }
                Some(p)
            },
            None => {
                proof {
                    assert(self@ =~= old(self)@.remove(k@));
                }
                None
            },
        }
    }
}

} // verus!
