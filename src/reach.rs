use vstd::prelude::*;

use crate::graph::Graph;
use crate::names::{meets, NameSet};

verus! {

/// Every key whose reference set meets `r` is itself in `r`.
pub open spec fn closed_under(g: Map<Seq<char>, Set<Seq<char>>>, r: Set<Seq<char>>) -> bool {
    forall|k: Seq<char>| #[trigger] g.contains_key(k) && meets(g[k], r) ==> r.contains(k)
}

/// `r` is the smallest superset of `seeds` closed under `g`: the names that
/// transitively contain a seed, and the seeds.
pub open spec fn is_closure(
    g: Map<Seq<char>, Set<Seq<char>>>,
    seeds: Set<Seq<char>>,
    r: Set<Seq<char>>,
) -> bool {
    &&& seeds.subset_of(r)
    &&& closed_under(g, r)
    &&& forall|s: Set<Seq<char>>| seeds.subset_of(s) && #[trigger] closed_under(g, s) ==> r.subset_of(s)
}

/// The keys among `remaining` that one scan promotes: those whose reference
/// set meets `r`.
pub open spec fn promoted(
    g: Map<Seq<char>, Set<Seq<char>>>,
    remaining: Set<Seq<char>>,
    r: Set<Seq<char>>,
) -> Set<Seq<char>> {
    remaining.filter(|k: Seq<char>| g.contains_key(k) && meets(g[k], r))
}

/// The graph after the redirection: `suppressed` loses its entry and
/// `umbrella` references exactly `seed`.
pub open spec fn redirected(
    g: Map<Seq<char>, Set<Seq<char>>>,
    suppressed: Seq<char>,
    umbrella: Seq<char>,
    seed: Seq<char>,
) -> Map<Seq<char>, Set<Seq<char>>> {
    g.remove(suppressed).insert(umbrella, set![seed])
}

/// A pass only adds names: the set after it contains the set before it.
/// And once a closure is reached, a further pass over every key promotes
/// nothing new, and closing the closure again gives it back.
pub proof fn law_closure_grows_then_settles(
    g: Map<Seq<char>, Set<Seq<char>>>,
    seeds: Set<Seq<char>>,
    remaining: Set<Seq<char>>,
    before: Set<Seq<char>>,
    r: Set<Seq<char>>,
)
    requires
        is_closure(g, seeds, r),
    ensures
        before.subset_of(before.union(promoted(g, remaining, before))),
        promoted(g, g.dom(), r).subset_of(r),
        is_closure(g, r, r),
{
    assert forall|s: Set<Seq<char>>| r.subset_of(s) && #[trigger] closed_under(g, s) implies r.subset_of(s) by {}
}

/// With `umbrella` redirected onto `seed`, `umbrella` is reachable from any
/// seed set holding `seed`, whatever its own definition was, and the
/// suppressed name has no entry of its own unless it is the umbrella.
pub proof fn law_redirect_reaches_umbrella(
    g: Map<Seq<char>, Set<Seq<char>>>,
    suppressed: Seq<char>,
    umbrella: Seq<char>,
    seed: Seq<char>,
    seeds: Set<Seq<char>>,
    r: Set<Seq<char>>,
)
    requires
        seeds.contains(seed),
        is_closure(redirected(g, suppressed, umbrella, seed), seeds, r),
    ensures
        r.contains(umbrella),
        suppressed != umbrella ==> !redirected(g, suppressed, umbrella, seed).contains_key(suppressed),
{
    let h = redirected(g, suppressed, umbrella, seed);
    assert(h.contains_key(umbrella));
    assert(h[umbrella].contains(seed) && r.contains(seed));
    assert(meets(h[umbrella], r));
}

/// Suppresses `suppressed`'s entry and makes `umbrella` reference `seed` alone.
pub fn redirect(graph: &mut Graph, suppressed: &String, umbrella: String, seed: String)
    requires
        old(graph).wf(),
    ensures
        final(graph).wf(),
        final(graph)@ == redirected(old(graph)@, suppressed@, umbrella@, seed@),
{
    graph.remove(suppressed);
    let mut s = NameSet::new();
    s.insert(seed);
    graph.insert(umbrella, s);
}

/// One scan over the entries at the positions in `remaining`: splits them
/// into those whose reference set meets `reach` and the rest.
fn scan(graph: &Graph, remaining: &Vec<usize>, reach: &NameSet) -> (r: (Vec<usize>, Vec<usize>))
    requires
        graph.wf(),
        forall|q: int| 0 <= q < remaining.len() ==> #[trigger] remaining@[q] < graph.size(),
    ensures
        r.0.len() + r.1.len() == remaining.len(),
        forall|q: int| 0 <= q < r.0.len() ==>
            #[trigger] r.0@[q] < graph.size() && meets(graph.refs(r.0@[q] as int), reach@),
        forall|q: int| 0 <= q < r.1.len() ==> remaining@.contains(#[trigger] r.1@[q]),
        forall|q: int| 0 <= q < remaining.len() ==>
            r.0@.contains(#[trigger] remaining@[q]) || !meets(graph.refs(remaining@[q] as int), reach@),
        forall|q: int| 0 <= q < remaining.len() ==>
            r.0@.contains(#[trigger] remaining@[q]) || r.1@.contains(remaining@[q]),
{
    let mut added: Vec<usize> = Vec::new();
    let mut kept: Vec<usize> = Vec::new();
    let mut p: usize = 0;
    while p < remaining.len()
        invariant
            graph.wf(),
            forall|q: int| 0 <= q < remaining.len() ==> #[trigger] remaining@[q] < graph.size(),
            p <= remaining.len(),
            added.len() + kept.len() == p,
            forall|q: int| 0 <= q < added.len() ==>
                #[trigger] added@[q] < graph.size() && meets(graph.refs(added@[q] as int), reach@),
            forall|q: int| 0 <= q < kept.len() ==> remaining@.contains(#[trigger] kept@[q]),
            forall|q: int| 0 <= q < p ==>
                added@.contains(#[trigger] remaining@[q]) || !meets(graph.refs(remaining@[q] as int), reach@),
            forall|q: int| 0 <= q < p ==>
                added@.contains(#[trigger] remaining@[q]) || kept@.contains(remaining@[q]),
        decreases remaining.len() - p,
    {
        let j = remaining[p];
        let ghost prev_added = added@;
        let ghost prev_kept = kept@;
        if graph.names_at(j).meets(reach) {
            added.push(j);
            assert(added@[prev_added.len() as int] == j);
        } else {
            kept.push(j);
            assert(kept@[prev_kept.len() as int] == j);
        }
        proof {
            assert forall|q: int| 0 <= q < p + 1 implies
                (added@.contains(#[trigger] remaining@[q]) || !meets(graph.refs(remaining@[q] as int), reach@))
                && (added@.contains(remaining@[q]) || kept@.contains(remaining@[q])) by {
                if q < p {
                    if prev_added.contains(remaining@[q]) {
                        let w = choose|w: int| 0 <= w < prev_added.len() && prev_added[w] == remaining@[q];
                        assert(added@[w] == remaining@[q]);
                    }
                    if prev_kept.contains(remaining@[q]) {
                        let w = choose|w: int| 0 <= w < prev_kept.len() && prev_kept[w] == remaining@[q];
                        assert(kept@[w] == remaining@[q]);
                    }
                }
            }
        }
        p = p + 1;
    }
    (added, kept)
}

/// The names that transitively contain a seed, together with the seeds.
pub fn reachable(graph: &Graph, seeds: &NameSet) -> (r: NameSet)
    requires
        graph.wf(),
        seeds.wf(),
    ensures
        r.wf(),
        is_closure(graph@, seeds@, r@),
        r@.subset_of(seeds@.union(graph@.dom())),
{
    proof {
        graph.lemma_entries();
    }
    let mut reach = NameSet::new();
    reach.insert_all(seeds);
    let n = graph.len();
    let mut remaining: Vec<usize> = Vec::new();
    let mut i: usize = 0;
    while i < n
        invariant
            n == graph.size(),
            i <= n,
            remaining.len() == i,
            forall|q: int| 0 <= q < i ==> #[trigger] remaining@[q] == q,
        decreases n - i,
    {
        remaining.push(i);
        i = i + 1;
    }
    assert forall|j: int| 0 <= j < n && !remaining@.contains(j as usize)
        implies reach@.contains(#[trigger] graph.key(j)) by {
        assert(remaining@[j] == j as usize);
    }
    loop
        invariant
            graph.wf(),
            n == graph.size(),
            reach.wf(),
            seeds@.subset_of(reach@),
            forall|s: Set<Seq<char>>| seeds@.subset_of(s) && #[trigger] closed_under(graph@, s)
                ==> reach@.subset_of(s),
            forall|q: int| 0 <= q < remaining.len() ==> #[trigger] remaining@[q] < n,
            forall|j: int| 0 <= j < n && !remaining@.contains(j as usize)
                ==> reach@.contains(#[trigger] graph.key(j)),
        ensures
            reach.wf(),
            seeds@.subset_of(reach@),
            forall|s: Set<Seq<char>>| seeds@.subset_of(s) && #[trigger] closed_under(graph@, s)
                ==> reach@.subset_of(s),
            closed_under(graph@, reach@),
        decreases remaining.len(),
    {
        let (added, kept) = scan(graph, &remaining, &reach);
        if added.len() == 0 {
            proof {
                graph.lemma_entries();
                assert forall|k: Seq<char>| #[trigger] graph@.contains_key(k) && meets(graph@[k], reach@)
                    implies reach@.contains(k) by {
                    let j = choose|j: int| 0 <= j < graph.size() && #[trigger] graph.key(j) == k;
                    if remaining@.contains(j as usize) {
                        let q = choose|q: int| 0 <= q < remaining.len() && remaining@[q] == j as usize;
                        assert(!meets(graph.refs(remaining@[q] as int), reach@));
                    }
                }
            }
            break;
        }
        let ghost reach0 = reach@;
        let mut q: usize = 0;
        while q < added.len()
            invariant
                graph.wf(),
                n == graph.size(),
                reach.wf(),
                q <= added.len(),
                reach0.subset_of(reach@),
                seeds@.subset_of(reach0),
                forall|s: Set<Seq<char>>| seeds@.subset_of(s) && #[trigger] closed_under(graph@, s)
                    ==> reach0.subset_of(s),
                forall|s: Set<Seq<char>>| seeds@.subset_of(s) && #[trigger] closed_under(graph@, s)
                    ==> reach@.subset_of(s),
                forall|w: int| 0 <= w < added.len() ==>
                    #[trigger] added@[w] < graph.size() && meets(graph.refs(added@[w] as int), reach0),
                forall|w: int| 0 <= w < q ==> reach@.contains(graph.key(#[trigger] added@[w] as int)),
            decreases added.len() - q,
        {
            let a = added[q];
            let k = graph.key_at(a).clone();
            let ghost before = reach@;
            proof {
                graph.lemma_entries();
                assert forall|s: Set<Seq<char>>| seeds@.subset_of(s) && #[trigger] closed_under(graph@, s)
                    implies reach@.insert(k@).subset_of(s) by {
                    let x = choose|x: Seq<char>| #[trigger] graph.refs(a as int).contains(x) && reach0.contains(x);
                    assert(graph@[graph.key(a as int)] == graph.refs(a as int));
                    assert(s.contains(x));
                    assert(meets(graph@[k@], s));
                }
            }
            reach.insert(k);
            assert(reach@.contains(graph.key(added@[q as int] as int)));
            assert forall|w: int| 0 <= w < q + 1 implies reach@.contains(graph.key(#[trigger] added@[w] as int)) by {
                if w < q {
                    assert(before.contains(graph.key(added@[w] as int)));
                }
            }
            q = q + 1;
        }
        proof {
            assert forall|j: int| 0 <= j < n && !kept@.contains(j as usize)
                implies reach@.contains(#[trigger] graph.key(j)) by {
                if remaining@.contains(j as usize) {
                    let p = choose|p: int| 0 <= p < remaining.len() && remaining@[p] == j as usize;
                    assert(added@.contains(remaining@[p]) || kept@.contains(remaining@[p]));
                    let w = choose|w: int| 0 <= w < added.len() && added@[w] == j as usize;
                    assert(reach@.contains(graph.key(added@[w] as int)));
                    assert(graph.key(added@[w] as int) == graph.key(j));
                } else {
                    assert(reach0.contains(graph.key(j)));
                }
            }
        }
        remaining = kept;
    }
    proof {
        let bound = seeds@.union(graph@.dom());
        assert(closed_under(graph@, bound));
    }
    reach
}

} // verus!
