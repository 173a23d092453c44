//! Roots: nodes from which all other nodes are reached without a choice.
use vstd::prelude::*;

use crate::codegen::page::graph::{
    closed, copied, cut_group, entered, inside, is_edge, is_walk, lemma_cut_group,
    lemma_loops_are_marked, lemma_reaches_through, lists, mark_group,
    reachable_from, reaches, settled, Graph,
};
use crate::codegen::page::PageInstrWithEdges;

verus! {

/// The root of each node: the node itself, or the only root that reaches it.
pub struct Roots {
    root_of: Vec<usize>,
}

/// The successors of each instruction.
pub open spec fn edge_graph(edges: Seq<PageInstrWithEdges>) -> Graph {
    Seq::new(edges.len(), |i: int| edges[i].succs@)
}

/// The instructions that are roots in any case.
pub open spec fn first_roots(edges: Seq<PageInstrWithEdges>) -> Seq<bool> {
    Seq::new(edges.len(), |i: int| edges[i].make_split_point || edges[i].preds.len() == 0)
}

/// All nodes in ascending order.
pub open spec fn all_nodes(n: nat) -> Seq<usize> {
    Seq::new(n, |i: int| i as usize)
}

/// The first roots and those that cut loops.
pub open spec fn loop_roots(edges: Seq<PageInstrWithEdges>) -> Seq<bool> {
    cut_group(
        edge_graph(edges),
        first_roots(edges),
        first_roots(edges),
        all_nodes(edges.len()),
        0,
    )
}

/// Whether more than one root reaches a node.
pub open spec fn several_reach(g: Graph, roots: Seq<bool>, t: int) -> bool {
    exists|a: int, b: int|
        #![trigger reaches(g, a, t), reaches(g, b, t)]
        0 <= a < g.len() && 0 <= b < g.len() && a != b && roots[a] && roots[b] && reaches(g, a, t)
            && reaches(g, b, t)
}

/// Whether an instruction is a root: one to start with, one that cuts a loop, or one that several
/// of these reach.
pub open spec fn is_root(edges: Seq<PageInstrWithEdges>, t: int) -> bool {
    loop_roots(edges)[t] || several_reach(edge_graph(edges), loop_roots(edges), t)
}

/// Every edge leads to an instruction, and every instruction is reached from one of the first roots.
pub open spec fn rooted(edges: Seq<PageInstrWithEdges>) -> bool {
    &&& closed(edge_graph(edges))
    &&& forall|t: int|
        0 <= t < edges.len() ==> #[trigger] entered(edge_graph(edges), first_roots(edges), t)
}

/// A root is its own root. Any other instruction has a root that reaches it.
pub open spec fn are_roots(edges: Seq<PageInstrWithEdges>, root_of: Seq<usize>) -> bool {
    &&& root_of.len() == edges.len()
    &&& forall|t: int|
        0 <= t < edges.len() ==> {
            let root = #[trigger] root_of[t] as int;
            if is_root(edges, t) {
                root == t
            } else {
                &&& 0 <= root < edges.len()
                &&& loop_roots(edges)[root]
                &&& reaches(edge_graph(edges), root, t)
            }
        }
}

/// The nodes below `n` with a root, in ascending order.
pub open spec fn members(root_of: Seq<usize>, root: usize, n: int) -> Seq<usize>
    decreases n,
{
    if n <= 0 {
        Seq::empty()
    } else if root_of[n - 1] == root {
        members(root_of, root, n - 1).push((n - 1) as usize)
    } else {
        members(root_of, root, n - 1)
    }
}

/// The roots below `n`, in ascending order.
pub open spec fn root_list(root_of: Seq<usize>, n: int) -> Seq<usize>
    decreases n,
{
    if n <= 0 {
        Seq::empty()
    } else if root_of[n - 1] == n - 1 {
        root_list(root_of, n - 1).push((n - 1) as usize)
    } else {
        root_list(root_of, n - 1)
    }
}

/// The first `n` rows say what each root reaches.
spec fn are_rows(g: Graph, roots: Seq<bool>, rows: Seq<Vec<bool>>, n: int) -> bool {
    &&& rows.len() >= n
    &&& forall|a: int| 0 <= a < n && roots[a] ==> (#[trigger] rows[a]).len() == g.len()
    &&& forall|a: int, t: int|
        0 <= a < n && 0 <= t < g.len() && roots[a] ==> #[trigger] rows[a][t] == reaches(g, a, t)
}

impl Roots {
    pub closed spec fn view(&self) -> Seq<usize> {
        self.root_of@
    }

    /// Finds the roots of instructions.
    pub fn of(edges: &Vec<PageInstrWithEdges>) -> (r: Roots)
        requires
            rooted(edges@),
        ensures
            are_roots(edges@, r@),
    {
        let ghost g = edge_graph(edges@);
        let mut succs: Vec<Vec<usize>> = Vec::new();
        let mut roots: Vec<bool> = Vec::new();
        let mut starts: Vec<bool> = Vec::new();
        let mut nodes: Vec<usize> = Vec::new();
        let mut i: usize = 0;
        while i < edges.len()
            invariant
                i <= edges.len(),
                succs.len() == i,
                roots.len() == i,
                starts.len() == i,
                nodes.len() == i,
                forall|k: int| 0 <= k < i ==> (#[trigger] succs[k])@ == edges[k].succs@,
                forall|k: int| 0 <= k < i ==> #[trigger] roots[k] == first_roots(edges@)[k],
                forall|k: int| 0 <= k < i ==> #[trigger] starts[k] == first_roots(edges@)[k],
                forall|k: int| 0 <= k < i ==> #[trigger] nodes[k] == k,
            decreases edges.len() - i,
        {
            succs.push(copied(&edges[i].succs));
            let first = edges[i].make_split_point || edges[i].preds.len() == 0;
            roots.push(first);
            starts.push(first);
            nodes.push(i);
            i += 1;
        }
        assert(lists(succs@) =~= g);
        assert(roots@ =~= first_roots(edges@));
        assert(starts@ =~= first_roots(edges@));
        assert(nodes@ =~= all_nodes(edges.len() as nat));
        mark_group(&succs, &starts, &mut roots, &nodes);
        proof {
            lemma_first_are_loop_roots(edges@);
        }
        // The nodes that each root reaches. Other nodes have no row.
        let mut reached: Vec<Vec<bool>> = Vec::new();
        let mut n: usize = 0;
        while n < edges.len()
            invariant
                n <= edges.len(),
                reached.len() == n,
                g == lists(succs@),
                closed(g),
                g.len() == edges.len(),
                roots.len() == g.len(),
                are_rows(g, roots@, reached@, n as int),
            decreases edges.len() - n,
        {
            if roots[n] {
                reached.push(reachable_from(&succs, n));
            } else {
                reached.push(Vec::new());
            }
            n += 1;
        }
        let mut root_of: Vec<usize> = Vec::new();
        let mut t: usize = 0;
        while t < edges.len()
            invariant
                t <= edges.len(),
                root_of.len() == t,
                rooted(edges@),
                g == edge_graph(edges@),
                g.len() == edges.len(),
                roots@ == loop_roots(edges@),
                roots.len() == g.len(),
                reached.len() == g.len(),
                forall|k: int| 0 <= k < g.len() && first_roots(edges@)[k] ==> #[trigger] roots[k],
                are_rows(g, roots@, reached@, g.len() as int),
                forall|k: int|
                    0 <= k < t ==> {
                        let root = #[trigger] root_of[k] as int;
                        if is_root(edges@, k) {
                            root == k
                        } else {
                            &&& 0 <= root < edges.len()
                            &&& loop_roots(edges@)[root]
                            &&& reaches(g, root, k)
                        }
                    },
            decreases edges.len() - t,
        {
            let mut root: Option<usize> = None;
            let mut several: bool = false;
            let mut a: usize = 0;
            while a < edges.len()
                invariant
                    a <= edges.len(),
                    t < edges.len(),
                    g.len() == edges.len(),
                    roots.len() == g.len(),
                    reached.len() == g.len(),
                    are_rows(g, roots@, reached@, g.len() as int),
                    match root {
                        None => !several && forall|b: int|
                            0 <= b < a && roots[b] ==> !#[trigger] reaches(g, b, t as int),
                        Some(f) => f < a && roots[f as int] && reaches(g, f as int, t as int)
                            && if several {
                            several_reach(g, roots@, t as int)
                        } else {
                            forall|b: int|
                                0 <= b < a && roots[b] && #[trigger] reaches(g, b, t as int) ==> b
                                    == f
                        },
                    },
                decreases edges.len() - a,
            {
                if roots[a] {
                    assert(reached[a as int][t as int] == reaches(g, a as int, t as int));
                    if reached[a][t] {
                        match root {
                            None => {
                                root = Some(a);
                            },
                            Some(f) => {
                                several = true;
                                assert(several_reach(g, roots@, t as int));
                            },
                        }
                    }
                }
                a += 1;
            }
            proof {
                assert(entered(g, first_roots(edges@), t as int));
                let s = choose|s: int|
                    0 <= s < g.len() && first_roots(edges@)[s] && #[trigger] reaches(g, s, t as int);
                assert(roots[s]);
            }
            if roots[t] || several {
                root_of.push(t);
            } else {
                root_of.push(root.unwrap());
            }
            t += 1;
        }
        Roots { root_of }
    }

    /// The roots in ascending order, each with its nodes.
    pub fn split(&self) -> (r: Vec<(usize, Vec<usize>)>)
        ensures
            r.len() == root_list(self@, self@.len() as int).len(),
            forall|i: int|
                0 <= i < r.len() ==> {
                    &&& (#[trigger] r[i]).0 == root_list(self@, self@.len() as int)[i]
                    &&& r[i].1@ == members(self@, r[i].0, self@.len() as int)
                },
    {
        let mut r: Vec<(usize, Vec<usize>)> = Vec::new();
        let mut n: usize = 0;
        while n < self.root_of.len()
            invariant
                n <= self.root_of.len(),
                r.len() == root_list(self@, n as int).len(),
                forall|i: int|
                    0 <= i < r.len() ==> {
                        &&& (#[trigger] r[i]).0 == root_list(self@, n as int)[i]
                        &&& r[i].1@ == members(self@, r[i].0, self@.len() as int)
                    },
            decreases self.root_of.len() - n,
        {
            if self.root_of[n] == n {
                let mut items: Vec<usize> = Vec::new();
                let mut k: usize = 0;
                while k < self.root_of.len()
                    invariant
                        k <= self.root_of.len(),
                        items@ == members(self@, n, k as int),
                    decreases self.root_of.len() - k,
                {
                    if self.root_of[k] == n {
                        items.push(k);
                    }
                    k += 1;
                }
                r.push((n, items));
            }
            n += 1;
        }
        r
    }

    /// The root of a node.
    pub fn index(&self, index: usize) -> (r: usize)
        requires
            index < self@.len(),
        ensures
            r == self@[index as int],
    {
        self.root_of[index]
    }
}

proof fn lemma_first_are_loop_roots(edges: Seq<PageInstrWithEdges>)
    requires
        closed(edge_graph(edges)),
        edges.len() <= usize::MAX,
    ensures
        loop_roots(edges).len() == edges.len(),
        forall|t: int| 0 <= t < edges.len() && first_roots(edges)[t] ==> #[trigger] loop_roots(edges)[t],
        forall|t: int|
            0 <= t < edges.len() ==> #[trigger] settled(
                edge_graph(edges),
                first_roots(edges),
                loop_roots(edges),
                t,
            ),
{
    let g = edge_graph(edges);
    let first = first_roots(edges);
    let nodes = all_nodes(edges.len());
    assert(inside(g, nodes));
    lemma_cut_group(g, first, first, nodes, 0);
    assert forall|t: int| 0 <= t < edges.len() implies #[trigger] settled(g, first, loop_roots(edges), t) by {
        assert(nodes[t] == t);
        assert(settled(g, first, loop_roots(edges), nodes[t] as int));
    }
}

/// No other root than its own reaches a node that is not a root.
pub proof fn only_its_root_reaches_a_node(
    edges: Seq<PageInstrWithEdges>,
    root_of: Seq<usize>,
    root: int,
    t: int,
)
    requires
        edges.len() <= usize::MAX,
        rooted(edges),
        are_roots(edges, root_of),
        0 <= root < edges.len(),
        0 <= t < edges.len(),
        root_of[root] == root,
        root_of[t] != t,
        reaches(edge_graph(edges), root, t),
    ensures
        root_of[t] == root,
        root_of[root_of[t] as int] == root_of[t],
{
    let g = edge_graph(edges);
    let marks = loop_roots(edges);
    lemma_first_are_loop_roots(edges);
    let own = root_of[t] as int;
    if !marks[root] {
        if several_reach(g, marks, root) {
            let (a, b) = choose|a: int, b: int|
                #![trigger reaches(g, a, root), reaches(g, b, root)]
                0 <= a < g.len() && 0 <= b < g.len() && a != b && marks[a] && marks[b] && reaches(
                    g,
                    a,
                    root,
                ) && reaches(g, b, root);
            lemma_reaches_through(g, a, root, t);
            lemma_reaches_through(g, b, root, t);
            assert(several_reach(g, marks, t));
        } else {
            assert(!is_root(edges, root));
        }
    }
    assert(is_root(edges, own));
}

/// Every loop passes a root.
pub proof fn every_loop_passes_a_root(
    edges: Seq<PageInstrWithEdges>,
    root_of: Seq<usize>,
    w: Seq<int>,
)
    requires
        edges.len() <= usize::MAX,
        rooted(edges),
        are_roots(edges, root_of),
        is_walk(edge_graph(edges), w),
        w.len() > 1,
        w.first() == w.last(),
    ensures
        exists|i: int| 0 <= i < w.len() && root_of[#[trigger] w[i]] == w[i],
{
    let g = edge_graph(edges);
    let first = first_roots(edges);
    let marks = loop_roots(edges);
    lemma_first_are_loop_roots(edges);
    assert(entered(g, first, w[0]));
    let s = choose|s: int| 0 <= s < g.len() && first[s] && #[trigger] reaches(g, s, w[0]);
    let way = choose|v: Seq<int>| #[trigger] is_walk(g, v) && v.first() == s && v.last() == w[0];
    let a = way.len() - 1;
    let b = a + w.len() - 1;
    let long = way + w.drop_first();
    assert forall|i: int| 0 <= i < w.len() implies long[a + i] == #[trigger] w[i] by {
        if i > 0 {
            assert(w.drop_first()[i - 1] == w[i]);
        }
    }
    assert forall|i: int| 0 <= i < long.len() implies 0 <= #[trigger] long[i] < g.len() by {
        if i < way.len() {
            assert(long[i] == way[i]);
        } else {
            assert(long[a + (i - a)] == w[i - a]);
        }
    }
    assert forall|i: int| #![trigger long[i]] 0 <= i < long.len() - 1 implies is_edge(
        g,
        long[i],
        long[i + 1],
    ) by {
        if i < a {
            assert(is_edge(g, way[i], way[i + 1]));
        } else {
            assert(long[a + (i - a)] == w[i - a]);
            assert(long[a + (i - a + 1)] == w[i - a + 1]);
            assert(is_edge(g, w[i - a], w[i - a + 1]));
        }
    }
    assert(is_walk(g, long));
    assert(long[a + 0] == w[0]);
    assert(long[a + (w.len() - 1)] == w[w.len() - 1]);
    assert forall|i: int| 0 <= i < long.len() implies settled(g, first, marks, #[trigger] long[i]) by {}
    lemma_loops_are_marked(g, marks, first, long, a, b);
    let c = choose|c: int| a < c <= b && marks[#[trigger] long[c]];
    assert(long[a + (c - a)] == w[c - a]);
    assert(is_root(edges, w[c - a]));
}

} // verus!
