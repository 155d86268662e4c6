use vstd::prelude::*;

use crate::ast::{Item, ItemKind};
use crate::extract::{alias_names, variant_names};
use crate::graph::Graph;
use crate::names::NameSet;

verus! {

/// A graph together with the duplicate reports made while building it: each
/// report is a name and the reference set that a later definition displaced.
pub type CollectState = (Map<Seq<char>, Set<Seq<char>>>, Seq<(Seq<char>, Set<Seq<char>>)>);

/// The reference set a definition contributes, if it is a record or an alias.
pub open spec fn entry_of(kind: ItemKind) -> Option<Set<Seq<char>>> {
    match kind {
        ItemKind::Struct(v) => Some(variant_names(v)),
        ItemKind::TyAlias(k) => Some(alias_names(k)),
        ItemKind::Other => None,
    }
}

/// Records one definition's own entry, ignoring what is nested in it.
pub open spec fn record(st: CollectState, name: Seq<char>, kind: ItemKind) -> CollectState {
    match entry_of(kind) {
        Some(s) => (
            st.0.insert(name, s),
            if st.0.contains_key(name) {
                st.1.push((name, st.0[name]))
            } else {
                st.1
            },
        ),
        None => st,
    }
}

/// Visits a definition, then everything nested in it, in order.
pub open spec fn visit_item_spec(st: CollectState, item: Item) -> CollectState
    decreases item,
{
    visit_items_spec(record(st, item.ident@, item.kind), item.nested@)
}

/// Visits the definitions of `items` from first to last.
pub open spec fn visit_items_spec(st: CollectState, items: Seq<Item>) -> CollectState
    decreases items,
{
    if items.len() == 0 {
        st
    } else {
        visit_item_spec(visit_items_spec(st, items.drop_last()), items.last())
    }
}

/// Builds the graph from parsed definitions.
pub struct Collector {
    items: Graph,
    duplicates: Vec<(String, NameSet)>,
}

impl Collector {
    pub closed spec fn wf(&self) -> bool {
        &&& self.items.wf()
        &&& forall|i: int| 0 <= i < self.duplicates.len() ==> (#[trigger] self.duplicates@[i]).1.wf()
    }

    /// The graph so far and the duplicate reports so far.
    pub closed spec fn state(&self) -> CollectState {
        (self.items@, self.duplicates@.map_values(|d: (String, NameSet)| (d.0@, d.1@)))
    }

    pub fn new() -> (r: Collector)
        ensures
            r.wf(),
            r.state().0 == Map::<Seq<char>, Set<Seq<char>>>::empty(),
            r.state().1 == Seq::<(Seq<char>, Set<Seq<char>>)>::empty(),
    {
        let r = Collector { items: Graph::new(), duplicates: Vec::new() };
        assert(r.state().1 =~= Seq::<(Seq<char>, Set<Seq<char>>)>::empty());
        r
    }

    /// Adds the entry of one record or alias definition, reporting the set it
    /// displaces; other definitions add nothing. Nested definitions are not
    /// visited here.
    fn record_item(&mut self, item: &Item)
        requires
            old(self).wf(),
        ensures
            final(self).wf(),
            final(self).state() == record(old(self).state(), item.ident@, item.kind),
    {
        let set = match &item.kind {
            ItemKind::Struct(variant) => variant.type_names(),
            ItemKind::TyAlias(kind) => kind.type_names(),
            ItemKind::Other => {
                return;
            },
        };
        let res = self.items.insert(item.ident.clone(), set);
        match res {
            Some(v) => {
                let ghost before = self.duplicates@;
                self.duplicates.push((item.ident.clone(), v));
                proof {
                    assert(self.duplicates@.map_values(|d: (String, NameSet)| (d.0@, d.1@)) =~=
                        before.map_values(|d: (String, NameSet)| (d.0@, d.1@)).push((item.ident@, v@)));
                }
            },
            None => {},
        }
    }

    /// Visits a definition and, recursively, every definition nested in it.
    pub fn visit_item(&mut self, item: &Item)
        requires
            old(self).wf(),
        ensures
            final(self).wf(),
            final(self).state() == visit_item_spec(old(self).state(), *item),
        decreases item,
    {
        self.record_item(item);
        self.collect(&item.nested);
    }

    /// Visits the definitions of `items` in order; for a parsed file these
    /// are its top-level definitions.
    pub fn collect(&mut self, items: &Vec<Item>)
        requires
            old(self).wf(),
        ensures
            final(self).wf(),
            final(self).state() == visit_items_spec(old(self).state(), items@),
        decreases items,
    {
        let mut i: usize = 0;
        while i < items.len()
            invariant
                i <= items.len(),
                self.wf(),
                self.state() == visit_items_spec(old(self).state(), items@.subrange(0, i as int)),
            decreases items.len() - i,
        {
            assert(decreases_to!(items => items@[i as int]));
            self.visit_item(&items[i]);
            assert(items@.subrange(0, i + 1).drop_last() =~= items@.subrange(0, i as int));
            i = i + 1;
        }
        assert(items@.subrange(0, i as int) =~= items@);
    }

    /// The graph built so far.
    pub fn graph(&self) -> (r: &Graph)
        requires
            self.wf(),
        ensures
            r.wf(),
            r@ == self.state().0,
    {
        &self.items
    }

    /// Number of duplicate reports.
    pub fn duplicate_count(&self) -> (r: usize)
        ensures
            r == self.state().1.len(),
    {
        self.duplicates.len()
    }

    /// The `i`-th duplicate report: the name and the set it displaced.
    pub fn duplicate_at(&self, i: usize) -> (r: (&String, &NameSet))
        requires
            self.wf(),
            i < self.state().1.len(),
        ensures
            r.0@ == self.state().1[i as int].0,
            r.1@ == self.state().1[i as int].1,
            r.1.wf(),
    {
        let d = &self.duplicates[i];
        (&d.0, &d.1)
    }

    /// Hands over the graph.
    pub fn into_graph(self) -> (r: Graph)
        requires
            self.wf(),
        ensures
            r.wf(),
            r@ == self.state().0,
    {
        self.items
    }
}

} // verus!

verus! {

/// Two record or alias definitions of one name, visited in turn: the later
/// one's reference set stands in the graph, and a report names the name with
/// the earlier one's set (after a report of what the first displaced, if the
/// name was already present).
pub proof fn law_duplicate_overwrite(st: CollectState, first: Item, second: Item)
    requires
        first.ident@ == second.ident@,
        entry_of(first.kind) is Some,
        entry_of(second.kind) is Some,
        first.nested@.len() == 0,
        second.nested@.len() == 0,
    ensures
        ({
            let name = first.ident@;
            let r = visit_items_spec(st, seq![first, second]);
            let before = if st.0.contains_key(name) {
                st.1.push((name, st.0[name]))
            } else {
                st.1
            };
            &&& r.0 == st.0.insert(name, entry_of(second.kind)->Some_0)
            &&& r.1 == before.push((name, entry_of(first.kind)->Some_0))
        }),
{
    let s2 = seq![first, second];
    assert(s2.drop_last() =~= seq![first]);
    assert(seq![first].drop_last() =~= Seq::<Item>::empty());
    let a = record(st, first.ident@, first.kind);
    assert(visit_items_spec(st, Seq::<Item>::empty()) == st);
    assert(visit_items_spec(a, first.nested@) == a);
    assert(visit_item_spec(st, first) == a);
    assert(seq![first].last() == first);
    assert(visit_items_spec(st, seq![first]) == a);
    assert(s2.last() == second);
    let b = record(a, second.ident@, second.kind);
    assert(visit_items_spec(b, second.nested@) == b);
    assert(visit_item_spec(a, second) == b);
    assert(b.0 =~= st.0.insert(first.ident@, entry_of(second.kind)->Some_0));
}

} // verus!
