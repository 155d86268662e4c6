//! Finds the named record and alias types that transitively embed a seed
//! type, through the types of their fields, and renders the subgraph they
//! induce as a directed-graph description.
use vstd::prelude::*;

pub mod ast;
pub mod collect;
pub mod extract;
pub mod graph;
pub mod names;
pub mod reach;
pub mod render;

use crate::graph::Graph;
use crate::names::NameSet;
use crate::reach::{is_closure, reachable, redirect, redirected};
use crate::render::{dot_text, induced_edges, render, Edge};

verus! {

/// The interior-mutability primitive the analysis is seeded with.
pub open spec fn seed_primitive() -> Seq<char> {
    "UnsafeCell"@
}

/// The type redirected onto the seed primitive.
pub open spec fn umbrella_name() -> Seq<char> {
    "Cell"@
}

/// The type whose own definition is left out of the graph.
pub open spec fn suppressed_name() -> Seq<char> {
    "Id"@
}

/// Redirects the graph as the analysis prescribes (drops the suppressed
/// type's entry, makes the umbrella type reference the seed primitive alone)
/// and returns every name reachable from the seed primitive.
pub fn taint(graph: &mut Graph) -> (r: NameSet)
    requires
        old(graph).wf(),
    ensures
        final(graph).wf(),
        final(graph)@ == redirected(old(graph)@, suppressed_name(), umbrella_name(), seed_primitive()),
        r.wf(),
        is_closure(final(graph)@, set![seed_primitive()], r@),
{
    redirect(graph, &String::from_str("Id"), String::from_str("Cell"), String::from_str("UnsafeCell"));
    let mut seeds = NameSet::new();
    seeds.insert(String::from_str("UnsafeCell"));
    reachable(graph, &seeds)
}

/// The directed-graph description of everything that reaches the seed
/// primitive in `graph` once it is redirected.
pub fn report(graph: Graph) -> (r: String)
    requires
        graph.wf(),
    ensures
        exists|rs: Set<Seq<char>>, es: Seq<Edge>|
            is_closure(
                redirected(graph@, suppressed_name(), umbrella_name(), seed_primitive()),
                set![seed_primitive()],
                rs,
            ) && es.no_duplicates() && es.to_set() == induced_edges(
                redirected(graph@, suppressed_name(), umbrella_name(), seed_primitive()),
                rs,
            ) && r@ == dot_text(es),
{
    let mut graph = graph;
    let reach = taint(&mut graph);
    render(&graph, &reach)
}

} // verus!
