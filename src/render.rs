use vstd::prelude::*;
use vstd::string::StringExecFns;

use crate::graph::Graph;
use crate::names::NameSet;

verus! {

/// An edge from a definition's name to a name it references.
pub type Edge = (Seq<char>, Seq<char>);

/// The edges of `g` whose two ends both lie in `r`.
pub open spec fn induced_edges(g: Map<Seq<char>, Set<Seq<char>>>, r: Set<Seq<char>>) -> Set<Edge> {
    Set::new(|e: Edge| r.contains(e.0) && g.contains_key(e.0) && g[e.0].contains(e.1) && r.contains(e.1))
}

/// One edge line: `  "from" -> "to";` and a newline.
pub open spec fn edge_line(e: Edge) -> Seq<char> {
    "  \""@ + e.0 + "\" -> \""@ + e.1 + "\";\n"@
}

pub open spec fn edge_lines(es: Seq<Edge>) -> Seq<char>
    decreases es.len(),
{
    if es.len() == 0 {
        Seq::empty()
    } else {
        edge_lines(es.drop_last()) + edge_line(es.last())
    }
}

/// The directed-graph description listing the edges `es` in order.
pub open spec fn dot_text(es: Seq<Edge>) -> Seq<char> {
    "digraph G {\n"@ + edge_lines(es) + "}"@
}

proof fn lemma_push_contains(s: Seq<Seq<char>>, a: Seq<char>)
    ensures
        forall|x: Seq<char>| #[trigger] s.push(a).contains(x) <==> s.contains(x) || x == a,
{
    assert forall|x: Seq<char>| #[trigger] s.push(a).contains(x) <==> s.contains(x) || x == a by {
        if s.push(a).contains(x) {
            let t = choose|t: int| 0 <= t < s.len() + 1 && s.push(a)[t] == x;
            if t < s.len() {
                assert(s[t] == x);
            }
        }
        if s.contains(x) {
            let t = choose|t: int| 0 <= t < s.len() && s[t] == x;
            assert(s.push(a)[t] == x);
        }
        if x == a {
            assert(s.push(a)[s.len() as int] == x);
        }
    }
}

/// Writes the edges of `graph` between members of `reach`, each once, in
/// some order, as a directed-graph description.
pub fn render(graph: &Graph, reach: &NameSet) -> (r: String)
    requires
        graph.wf(),
        reach.wf(),
    ensures
        exists|es: Seq<Edge>|
            es.no_duplicates() && es.to_set() == induced_edges(graph@, reach@) && r@ == dot_text(es),
{
    let mut out = String::from_str("digraph G {\n");
    let ghost mut es: Seq<Edge> = Seq::empty();
    let ghost g = graph@;
    let ghost rs = reach@;
    let ghost elems = reach.elems();
    proof {
        reach.lemma_elems();
    }
    let n = reach.len();
    let mut i: usize = 0;
    while i < n
        invariant
            graph.wf(),
            reach.wf(),
            g == graph@,
            rs == reach@,
            elems == reach.elems(),
            elems.no_duplicates(),
            elems.to_set() == rs,
            n == elems.len(),
            i <= n,
            out@ == "digraph G {\n"@ + edge_lines(es),
            es.no_duplicates(),
            es.to_set() == induced_edges(g, rs).filter(|e: Edge| elems.subrange(0, i as int).contains(e.0)),
        decreases n - i,
    {
        let r = reach.get(i);
        let ghost src = elems[i as int];
        let ghost es0 = es;
        match graph.get(r) {
            Some(ks) => {
                proof {
                    ks.lemma_elems();
                }
                let m = ks.len();
                let mut j: usize = 0;
                while j < m
                    invariant
                        reach.wf(),
                        ks.wf(),
                        rs == reach@,
                        elems == reach.elems(),
                        elems.no_duplicates(),
                        elems.to_set() == rs,
                        i < n,
                        n == elems.len(),
                        src == elems[i as int],
                        r@ == src,
                        ks@ == g[src],
                        g.contains_key(src),
                        ks.elems().no_duplicates(),
                        ks.elems().to_set() == ks@,
                        m == ks.elems().len(),
                        j <= m,
                        out@ == "digraph G {\n"@ + edge_lines(es),
                        es.no_duplicates(),
                        es0.no_duplicates(),
                        es0.to_set() == induced_edges(g, rs).filter(|e: Edge| elems.subrange(0, i as int).contains(e.0)),
                        es.to_set() == es0.to_set().union(
                            induced_edges(g, rs).filter(|e: Edge| e.0 == src && ks.elems().subrange(0, j as int).contains(e.1)),
                        ),
                    decreases m - j,
                {
                    let k = ks.get(j);
                    proof {
                        assert(elems.contains(src) && ks.elems().contains(k@)) by {
                            assert(elems[i as int] == src);
                            assert(ks.elems()[j as int] == k@);
                        }
                        assert(rs.contains(src));
                        assert(g[src].contains(k@));
                    }
                    if reach.contains(k) {
                        out.append("  \"");
                        out.append(r.as_str());
                        out.append("\" -> \"");
                        out.append(k.as_str());
                        out.append("\";\n");
                        proof {
                            let e: Edge = (src, k@);
                            assert(!es.contains(e)) by {
                                if es.contains(e) {
                                    assert(es.to_set().contains(e));
                                    if es0.to_set().contains(e) {
                                        let a = choose|a: int| 0 <= a < i && elems.subrange(0, i as int)[a] == src;
                                        assert(elems[a] == elems[i as int]);
                                    } else {
                                        let b = choose|b: int| 0 <= b < j && ks.elems().subrange(0, j as int)[b] == k@;
                                        assert(ks.elems()[b] == ks.elems()[j as int]);
                                    }
                                }
                            }
                            let es1 = es.push(e);
                            assert(es1.drop_last() =~= es);
                            assert(edge_lines(es1) == edge_lines(es) + edge_line(e));
                            assert(out@ =~= "digraph G {\n"@ + edge_lines(es1));
                            assert(es1.to_set() =~= es.to_set().insert(e));
                            es = es1;
                        }
                    }
                    proof {
                        assert(ks.elems().subrange(0, j + 1) =~= ks.elems().subrange(0, j as int).push(k@));
                        lemma_push_contains(ks.elems().subrange(0, j as int), k@);
                        assert(es.to_set() =~= es0.to_set().union(
                            induced_edges(g, rs).filter(|e: Edge| e.0 == src && ks.elems().subrange(0, j + 1).contains(e.1)),
                        ));
                    }
                    j = j + 1;
                }
                proof {
                    assert(ks.elems().subrange(0, j as int) =~= ks.elems());
                }
            },
            None => {},
        }
        proof {
            assert(elems.subrange(0, i + 1) =~= elems.subrange(0, i as int).push(src));
            lemma_push_contains(elems.subrange(0, i as int), src);
            assert(es.to_set() =~= induced_edges(g, rs).filter(|e: Edge| elems.subrange(0, i + 1).contains(e.0)));
        }
        i = i + 1;
    }
    out.append("}");
    proof {
        assert(elems.subrange(0, i as int) =~= elems);
        assert(es.to_set() =~= induced_edges(g, rs));
    }
    out
}

} // verus!
