use vstd::prelude::*;

verus! {

/// A deduplicated set of type names, kept as a vector without repeats.
pub struct NameSet {
    names: Vec<String>,
}

impl View for NameSet {
    type V = Set<Seq<char>>;

    closed spec fn view(&self) -> Set<Seq<char>> {
        Set::new(|n: Seq<char>| exists|i: int| 0 <= i < self.names.len() && #[trigger] self.names@[i]@ == n)
    }
}

/// Two sets share at least one name.
pub open spec fn meets(a: Set<Seq<char>>, b: Set<Seq<char>>) -> bool {
    exists|n: Seq<char>| #[trigger] a.contains(n) && b.contains(n)
}

impl NameSet {
    /// No name is stored twice.
    pub closed spec fn wf(&self) -> bool {
        forall|i: int, j: int|
            0 <= i < self.names.len() && 0 <= j < self.names.len() && i != j
                ==> #[trigger] self.names@[i]@ != #[trigger] self.names@[j]@
    }

    /// The names in storage order.
    pub closed spec fn elems(&self) -> Seq<Seq<char>> {
        self.names@.map_values(|s: String| s@)
    }

    pub proof fn lemma_elems(&self)
        requires
            self.wf(),
        ensures
            self.elems().no_duplicates(),
            self.elems().to_set() == self@,
            self.elems().len() == self@.len(),
    {
        assert(self.elems().to_set() =~= self@) by {
            assert forall|n: Seq<char>| self@.contains(n) implies self.elems().contains(n) by {
                let i = choose|i: int| 0 <= i < self.names.len() && #[trigger] self.names@[i]@ == n;
                assert(self.elems()[i] == n);
            }
            assert forall|n: Seq<char>| self.elems().contains(n) implies self@.contains(n) by {
                let i = choose|i: int| 0 <= i < self.elems().len() && self.elems()[i] == n;
                assert(self.names@[i]@ == n);
            }
        }
        self.elems().unique_seq_to_set();
    }

    pub fn new() -> (r: NameSet)
        ensures
            r.wf(),
            r@ == Set::<Seq<char>>::empty(),
    {
        let r = NameSet { names: Vec::new() };
        assert(r@ =~= Set::<Seq<char>>::empty());
        r
    }

    pub fn len(&self) -> (r: usize)
        requires
            self.wf(),
        ensures
            r == self@.len(),
    {
        proof {
            self.lemma_elems();
            self.elems().unique_seq_to_set();
        }
        self.names.len()
    }

    pub fn contains(&self, name: &String) -> (r: bool)
        ensures
            r == self@.contains(name@),
    {
        let mut i: usize = 0;
        while i < self.names.len()
            invariant
                i <= self.names.len(),
                forall|j: int| 0 <= j < i ==> #[trigger] self.names@[j]@ != name@,
            decreases self.names.len() - i,
        {
            if self.names[i] == *name {
                return true;
            }
            i = i + 1;
        }
        proof {
            if self@.contains(name@) {
                let j = choose|j: int| 0 <= j < self.names.len() && #[trigger] self.names@[j]@ == name@;
                assert(self.names@[j]@ != name@);
            }
        }
        false
    }

    /// Adds `name`; returns whether it was new.
    pub fn insert(&mut self, name: String) -> (r: bool)
        requires
            old(self).wf(),
        ensures
            final(self).wf(),
            final(self)@ == old(self)@.insert(name@),
            r == !old(self)@.contains(name@),
    {
        if self.contains(&name) {
            assert(self@.insert(name@) =~= self@);
            false
        } else {
            let ghost prev = self.names@;
            let ghost nv = name@;
            self.names.push(name);
            assert(self.names@[prev.len() as int]@ == nv);
            assert(self@ =~= old(self)@.insert(nv)) by {
                assert forall|n: Seq<char>| #[trigger] old(self)@.contains(n) implies self@.contains(n) by {
                    let i = choose|i: int| 0 <= i < prev.len() && #[trigger] prev[i]@ == n;
                    assert(self.names@[i]@ == n);
                }
            }
            true
        }
    }

    /// Adds every name of `other`.
    pub fn insert_all(&mut self, other: &NameSet)
        requires
            old(self).wf(),
        ensures
            final(self).wf(),
            final(self)@ == old(self)@.union(other@),
    {
        let mut i: usize = 0;
        while i < other.names.len()
            invariant
                self.wf(),
                i <= other.names.len(),
                self@ == old(self)@.union(
                    Set::new(|n: Seq<char>| exists|j: int| 0 <= j < i && #[trigger] other.names@[j]@ == n),
                ),
            decreases other.names.len() - i,
        {
            let ghost before = self@;
            self.insert(other.names[i].clone());
            assert(self@ =~= old(self)@.union(
                Set::new(|n: Seq<char>| exists|j: int| 0 <= j < i + 1 && #[trigger] other.names@[j]@ == n),
            )) by {
                assert forall|n: Seq<char>|
                    (exists|j: int| 0 <= j < i + 1 && #[trigger] other.names@[j]@ == n) implies
                    self@.contains(n) by {
                    let j = choose|j: int| 0 <= j < i + 1 && #[trigger] other.names@[j]@ == n;
                    if j < i {
                        assert(before.contains(n));
                    }
                }
            }
            i = i + 1;
        }
        assert(self@ =~= old(self)@.union(other@));
    }

    /// Whether the two sets share a name.
    pub fn meets(&self, other: &NameSet) -> (r: bool)
        ensures
            r == meets(self@, other@),
    {
        let mut i: usize = 0;
        while i < self.names.len()
            invariant
                i <= self.names.len(),
                forall|j: int| 0 <= j < i ==> !other@.contains(#[trigger] self.names@[j]@),
            decreases self.names.len() - i,
        {
            if other.contains(&self.names[i]) {
                assert(self@.contains(self.names@[i as int]@));
                return true;
            }
            i = i + 1;
        }
        proof {
            if meets(self@, other@) {
                let n = choose|n: Seq<char>| #[trigger] self@.contains(n) && other@.contains(n);
                let j = choose|j: int| 0 <= j < self.names.len() && #[trigger] self.names@[j]@ == n;
                assert(!other@.contains(self.names@[j]@));
            }
        }
        false
    }

    /// The names, in storage order.
    pub fn to_vec(&self) -> (r: Vec<String>)
        requires
            self.wf(),
        ensures
            r@.map_values(|s: String| s@) == self.elems(),
    {
        let r = self.names.clone();
        assert(r@.map_values(|s: String| s@) =~= self.elems());
        r
    }

    /// The name stored at position `i`.
    pub fn get(&self, i: usize) -> (r: &String)
        requires
            i < self.elems().len(),
        ensures
            r@ == self.elems()[i as int],
    {
        &self.names[i]
    }
}

} // verus!
