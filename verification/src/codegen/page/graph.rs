//! Graphs of instructions or blocks, and the nodes that cut their loops.
use vstd::prelude::*;

verus! {

/// The successors of each node.
pub type Graph = Seq<Seq<usize>>;

/// The lists of a vector of vectors.
pub open spec fn lists(v: Seq<Vec<usize>>) -> Graph {
    Seq::new(v.len(), |i: int| v[i]@)
}

/// Every edge leads to a node.
pub open spec fn closed(g: Graph) -> bool {
    forall|i: int, k: int| 0 <= i < g.len() && 0 <= k < g[i].len() ==> #[trigger] g[i][k] < g.len()
}

pub open spec fn is_edge(g: Graph, a: int, b: int) -> bool {
    &&& 0 <= a < g.len()
    &&& 0 <= b < g.len()
    &&& exists|k: int| 0 <= k < g[a].len() && #[trigger] g[a][k] == b
}

/// Nodes of which each has an edge to the one that follows.
pub open spec fn is_walk(g: Graph, w: Seq<int>) -> bool {
    &&& w.len() > 0
    &&& forall|i: int| 0 <= i < w.len() ==> 0 <= #[trigger] w[i] < g.len()
    &&& forall|i: int| #![trigger w[i]] 0 <= i < w.len() - 1 ==> is_edge(g, w[i], w[i + 1])
}

/// Whether a walk leads from `a` to `b`. Every node reaches itself.
pub open spec fn reaches(g: Graph, a: int, b: int) -> bool {
    exists|w: Seq<int>| #[trigger] is_walk(g, w) && w.first() == a && w.last() == b
}

/// The number of nodes that are not in the set.
pub open spec fn missing(set: Seq<bool>) -> nat
    decreases set.len(),
{
    if set.len() == 0 {
        0
    } else {
        missing(set.drop_last()) + if set.last() {
            0nat
        } else {
            1nat
        }
    }
}

pub proof fn lemma_missing_update(set: Seq<bool>, i: int)
    requires
        0 <= i < set.len(),
        !set[i],
    ensures
        missing(set.update(i, true)) + 1 == missing(set),
    decreases set.len(),
{
    if i == set.len() - 1 {
        assert(set.update(i, true).drop_last() =~= set.drop_last());
    } else {
        assert(set.update(i, true).drop_last() =~= set.drop_last().update(i, true));
        lemma_missing_update(set.drop_last(), i);
    }
}

/// The marks after a depth-first search that goes on from the successor of number `i` of `current`.
///
/// `path` holds the nodes that the search must not enter, among them those that lead to `current`.
/// An edge to one of these marks it. Marked nodes are not entered.
pub open spec fn looped(
    g: Graph,
    marks: Seq<bool>,
    current: int,
    path: Seq<bool>,
    i: int,
) -> Seq<bool>
    decreases missing(path), g[current].len() - i,
    when closed(g) && 0 <= current < g.len() && path.len() == g.len() && 0 <= i
    via looped_decreases
{
    if i >= g[current].len() {
        marks
    } else {
        let next = g[current][i] as int;
        let reached = if path[next] {
            marks.update(next, true)
        } else if !marks[next] {
            looped(g, marks, next, path.update(next, true), 0)
        } else {
            marks
        };
        looped(g, reached, current, path, i + 1)
    }
}

#[via_fn]
proof fn looped_decreases(g: Graph, marks: Seq<bool>, current: int, path: Seq<bool>, i: int) {
    if i < g[current].len() {
        let next = g[current][i] as int;
        if !path[next] {
            lemma_missing_update(path, next);
        }
    }
}

pub proof fn lemma_looped_len(
    g: Graph,
    marks: Seq<bool>,
    current: int,
    path: Seq<bool>,
    i: int,
)
    requires
        closed(g),
        0 <= current < g.len(),
        marks.len() == g.len(),
        path.len() == g.len(),
        0 <= i,
    ensures
        looped(g, marks, current, path, i).len() == g.len(),
    decreases missing(path), g[current].len() - i,
{
    if i < g[current].len() {
        let next = g[current][i] as int;
        if path[next] {
            lemma_looped_len(g, marks.update(next, true), current, path, i + 1);
        } else if !marks[next] {
            lemma_missing_update(path, next);
            lemma_looped_len(g, marks, next, path.update(next, true), 0);
            lemma_looped_len(
                g,
                looped(g, marks, next, path.update(next, true), 0),
                current,
                path,
                i + 1,
            );
        } else {
            lemma_looped_len(g, marks, current, path, i + 1);
        }
    }
}

/// Marks nodes that an edge of the search leads back to.
pub fn mark_loops(
    succs: &Vec<Vec<usize>>,
    marks: &mut Vec<bool>,
    current: usize,
    path: &mut Vec<bool>,
)
    requires
        closed(lists(succs@)),
        current < succs.len(),
        old(marks).len() == succs.len(),
        old(path).len() == succs.len(),
    ensures
        final(path)@ == old(path)@,
        final(marks)@ == looped(lists(succs@), old(marks)@, current as int, old(path)@, 0),
        final(marks).len() == succs.len(),
    decreases missing(old(path)@),
{
    let ghost g = lists(succs@);
    let ghost whole = looped(g, marks@, current as int, path@, 0);
    let ghost path0 = path@;
    let mut i: usize = 0;
    while i < succs[current].len()
        invariant
            g == lists(succs@),
            closed(g),
            current < succs.len(),
            marks.len() == succs.len(),
            path.len() == succs.len(),
            path@ == path0,
            path0 == old(path)@,
            i <= succs[current as int].len(),
            looped(g, marks@, current as int, path@, i as int) == whole,
        decreases succs[current as int].len() - i,
    {
        assert(g[current as int] == succs[current as int]@);
        let next: usize = succs[current][i];
        assert(next == g[current as int][i as int]);
        if path[next] {
            marks.set(next, true);
        } else if !marks[next] {
            path.set(next, true);
            proof {
                lemma_missing_update(path0, next as int);
            }
            mark_loops(succs, marks, next, path);
            path.set(next, false);
            assert(path@ =~= path0);
        }
        i += 1;
    }
}

/// Which nodes `start` reaches.
pub fn reachable_from(succs: &Vec<Vec<usize>>, start: usize) -> (r: Vec<bool>)
    requires
        closed(lists(succs@)),
        start < succs.len(),
    ensures
        r.len() == succs.len(),
        forall|i: int|
            0 <= i < r.len() ==> #[trigger] r[i] == reaches(lists(succs@), start as int, i),
{
    let ghost g = lists(succs@);
    let mut reached: Vec<bool> = Vec::new();
    let mut n: usize = 0;
    while n < succs.len()
        invariant
            n <= succs.len(),
            reached.len() == n,
            forall|i: int| 0 <= i < n ==> !#[trigger] reached[i],
        decreases succs.len() - n,
    {
        reached.push(false);
        n += 1;
    }
    let mut frontier: Vec<usize> = Vec::new();
    frontier.push(start);
    reached.set(start, true);
    proof {
        lemma_reaches_itself(g, start as int);
        assert(frontier@[0] == start);
    }
    while frontier.len() > 0
        invariant
            g == lists(succs@),
            closed(g),
            start < succs.len(),
            reached.len() == succs.len(),
            reached[start as int],
            forall|i: int| 0 <= i < reached.len() && #[trigger] reached[i] ==> reaches(g, start as int, i),
            forall|k: int|
                0 <= k < frontier.len() ==> #[trigger] frontier[k] < reached.len()
                    && reached[frontier[k] as int],
            forall|i: int, k: int|
                0 <= i < g.len() && reached[i] && 0 <= k < g[i].len()
                    && !reached[#[trigger] g[i][k] as int] ==> frontier@.contains(i as usize),
        decreases missing(reached@), frontier.len(),
    {
        let ghost frontier0 = frontier@;
        let ghost reached0 = reached@;
        let index: usize = frontier.pop().unwrap();
        assert(frontier0[frontier0.len() - 1] == index);
        assert(frontier0 =~= frontier@.push(index));
        let ghost rest = frontier@;
        let mut i: usize = 0;
        while i < succs[index].len()
            invariant
                g == lists(succs@),
                closed(g),
                start < succs.len(),
                index < succs.len(),
                i <= succs[index as int].len(),
                reached.len() == succs.len(),
                reached[start as int],
                reached[index as int],
                forall|i: int| 0 <= i < reached.len() && #[trigger] reached[i] ==> reaches(g, start as int, i),
                forall|k: int|
                0 <= k < frontier.len() ==> #[trigger] frontier[k] < reached.len()
                    && reached[frontier[k] as int],
                forall|j: int, k: int|
                    0 <= j < g.len() && reached[j] && 0 <= k < g[j].len()
                        && !reached[#[trigger] g[j][k] as int] ==> frontier@.contains(j as usize)
                        || (j == index && k >= i),
                missing(reached@) < missing(reached0) || (missing(reached@) == missing(reached0) && frontier@ == rest),
            decreases succs[index as int].len() - i,
        {
            assert(g[index as int] == succs[index as int]@);
            let next: usize = succs[index][i];
            assert(next == g[index as int][i as int]);
            let ghost frontier1 = frontier@;
            if !reached[next] {
                proof {
                    lemma_missing_update(reached@, next as int);
                    assert(is_edge(g, index as int, next as int));
                    lemma_reaches_edge(g, start as int, index as int, next as int);
                }
                reached.set(next, true);
                frontier.push(next);
                assert forall|j: int, k: int|
                    0 <= j < g.len() && reached[j] && 0 <= k < g[j].len()
                        && !reached[#[trigger] g[j][k] as int] implies frontier@.contains(j as usize)
                    || (j == index && k >= i + 1) by {
                    if j == next {
                        assert(frontier@[frontier@.len() - 1] == next);
                    } else if frontier1.contains(j as usize) {
                        let p = frontier1.index_of(j as usize);
                        assert(frontier@[p] == j as usize);
                    }
                }
            }
            i += 1;
        }
        assert forall|j: int, k: int|
            0 <= j < g.len() && reached[j] && 0 <= k < g[j].len()
                && !reached[#[trigger] g[j][k] as int] implies frontier@.contains(j as usize) by {
            assert(g[index as int] == succs[index as int]@);
        }
    }
    assert forall|i: int| 0 <= i < reached.len() implies #[trigger] reached[i] == reaches(
        g,
        start as int,
        i,
    ) by {
        if reaches(g, start as int, i) {
            let w = choose|w: Seq<int>| #[trigger] is_walk(g, w) && w.first() == start && w.last() == i;
            lemma_walk_stays(g, w, reached@, w.len() - 1);
        }
    }
    reached
}

proof fn lemma_walk_stays(g: Graph, w: Seq<int>, set: Seq<bool>, n: int)
    requires
        is_walk(g, w),
        set.len() == g.len(),
        set[w[0]],
        0 <= n < w.len(),
        forall|i: int, k: int|
            0 <= i < g.len() && set[i] && 0 <= k < g[i].len() ==> set[#[trigger] g[i][k] as int],
    ensures
        set[w[n]],
    decreases n,
{
    if n > 0 {
        lemma_walk_stays(g, w, set, n - 1);
        assert(is_edge(g, w[n - 1], w[n - 1 + 1]));
        let k = choose|k: int| 0 <= k < g[w[n - 1]].len() && #[trigger] g[w[n - 1]][k] == w[n];
        assert(set[g[w[n - 1]][k] as int]);
    }
}

/// Every node reaches itself.
pub proof fn lemma_reaches_itself(g: Graph, a: int)
    requires
        0 <= a < g.len(),
    ensures
        reaches(g, a, a),
{
    let w = seq![a];
    assert(is_walk(g, w) && w.first() == a && w.last() == a);
}

/// What reaches a node reaches the node's successors.
pub proof fn lemma_reaches_edge(g: Graph, a: int, b: int, c: int)
    requires
        reaches(g, a, b),
        is_edge(g, b, c),
    ensures
        reaches(g, a, c),
{
    let w = choose|w: Seq<int>| #[trigger] is_walk(g, w) && w.first() == a && w.last() == b;
    let longer = w.push(c);
    assert forall|i: int| #![trigger longer[i]] 0 <= i < longer.len() - 1 implies is_edge(
        g,
        longer[i],
        longer[i + 1],
    ) by {
        if i < w.len() - 1 {
            assert(is_edge(g, w[i], w[i + 1]));
        }
    }
    assert(is_walk(g, longer) && longer.first() == a && longer.last() == c);
}

/// Reaching is transitive.
pub proof fn lemma_reaches_through(g: Graph, a: int, b: int, c: int)
    requires
        reaches(g, a, b),
        reaches(g, b, c),
    ensures
        reaches(g, a, c),
{
    let w = choose|w: Seq<int>| #[trigger] is_walk(g, w) && w.first() == b && w.last() == c;
    lemma_reaches_walk(g, a, w, w.len() - 1);
}

proof fn lemma_reaches_walk(g: Graph, a: int, w: Seq<int>, n: int)
    requires
        is_walk(g, w),
        reaches(g, a, w[0]),
        0 <= n < w.len(),
    ensures
        reaches(g, a, w[n]),
    decreases n,
{
    if n > 0 {
        lemma_reaches_walk(g, a, w, n - 1);
        assert(is_edge(g, w[n - 1], w[n - 1 + 1]));
        lemma_reaches_edge(g, a, w[n - 1], w[n]);
    }
}

/// A walk on which no node but the first may be marked.
pub open spec fn free_walk(g: Graph, marks: Seq<bool>, w: Seq<int>) -> bool {
    is_walk(g, w) && forall|i: int| 1 <= i < w.len() ==> !marks[#[trigger] w[i]]
}

/// No walk from `a` over unmarked nodes comes to a node twice.
pub open spec fn cut_behind(g: Graph, marks: Seq<bool>, a: int) -> bool {
    forall|w: Seq<int>| #[trigger] free_walk(g, marks, w) && w[0] == a ==> w.no_duplicates()
}

/// The walks of `looped` that start with the successor of number `i` or a later one keep off `path`
/// and come to no node twice.
spec fn keeps_off(
    g: Graph,
    marks: Seq<bool>,
    current: int,
    path: Seq<bool>,
    i: int,
    w: Seq<int>,
) -> bool {
    free_walk(g, marks, w) && w[0] == current && w.len() > 1 && (exists|k: int|
        i <= k < g[current].len() && #[trigger] g[current][k] == w[1]) ==> {
        &&& w.drop_first().no_duplicates()
        &&& forall|j: int| 1 <= j < w.len() ==> !path[#[trigger] w[j]]
    }
}

/// A node that `looped` marked: one of the path that a node of the search leads to, or one that was
/// searched to its end.
spec fn marked_well(
    g: Graph,
    marks: Seq<bool>,
    current: int,
    path: Seq<bool>,
    t: int,
) -> bool {
    if path[t] {
        exists|u: int| (u == current || !path[u]) && #[trigger] is_edge(g, u, t)
    } else {
        cut_behind(g, marks, t)
    }
}

proof fn lemma_looped(g: Graph, marks: Seq<bool>, current: int, path: Seq<bool>, i: int)
    requires
        closed(g),
        0 <= current < g.len(),
        marks.len() == g.len(),
        path.len() == g.len(),
        path[current],
        0 <= i,
    ensures
        looped(g, marks, current, path, i).len() == g.len(),
        forall|t: int|
            0 <= t < g.len() && marks[t] ==> #[trigger] looped(g, marks, current, path, i)[t],
        forall|w: Seq<int>|
            #[trigger] keeps_off(g, looped(g, marks, current, path, i), current, path, i, w),
        forall|t: int|
            0 <= t < g.len() && #[trigger] looped(g, marks, current, path, i)[t] && !marks[t]
                ==> marked_well(g, looped(g, marks, current, path, i), current, path, t),
    decreases missing(path), g[current].len() - i,
{
    lemma_looped_len(g, marks, current, path, i);
    let after = looped(g, marks, current, path, i);
    if i < g[current].len() {
        let next = g[current][i] as int;
        let reached = if path[next] {
            marks.update(next, true)
        } else if !marks[next] {
            looped(g, marks, next, path.update(next, true), 0)
        } else {
            marks
        };
        assert(is_edge(g, current, next));
        let inner = path.update(next, true);
        if path[next] {
        } else if !marks[next] {
            lemma_missing_update(path, next);
            lemma_looped(g, marks, next, inner, 0);
        }
        lemma_looped(g, reached, current, path, i + 1);
        assert(after == looped(g, reached, current, path, i + 1));
        let entered = !path[next] && !marks[next];
        if entered {
            lemma_walks_from_entered(g, reached, after, next, path);
        }
        assert forall|w: Seq<int>| #[trigger] keeps_off(g, after, current, path, i, w) by {
            assert(keeps_off(g, after, current, path, i + 1, w));
            if free_walk(g, after, w) && w[0] == current && w.len() > 1 && w[1] == next {
                assert(!after[w[1]]);
                assert(entered);
                let rest = w.drop_first();
                lemma_walk_suffix(g, after, w);
                assert(rest[0] == next);
                assert(rest.no_duplicates());
                assert forall|j: int| 1 <= j < w.len() implies !path[#[trigger] w[j]] by {
                    assert(w[j] == rest[j - 1]);
                }
            }
        }
        assert forall|t: int| 0 <= t < g.len() && #[trigger] after[t] && !marks[t] implies marked_well(
            g,
            after,
            current,
            path,
            t,
        ) by {
            if reached[t] {
                if !entered {
                    assert(t == next && path[next]);
                } else {
                    assert(marked_well(g, reached, next, inner, t));
                    if t == next {
                    } else if path[t] {
                        let u = choose|u: int| (u == next || !inner[u]) && #[trigger] is_edge(g, u, t);
                        assert(!path[u]);
                        assert(is_edge(g, u, t));
                    } else {
                        lemma_cut_stays(g, reached, after, t);
                    }
                }
            }
        }
    }
}

proof fn lemma_walks_from_entered(
    g: Graph,
    reached: Seq<bool>,
    after: Seq<bool>,
    next: int,
    path: Seq<bool>,
)
    requires
        0 <= next < g.len(),
        path.len() == g.len(),
        !path[next],
        forall|t: int| 0 <= t < g.len() && reached[t] ==> #[trigger] after[t],
        forall|w: Seq<int>| #[trigger] keeps_off(g, reached, next, path.update(next, true), 0, w),
    ensures
        cut_behind(g, after, next),
        forall|w: Seq<int>, j: int|
            free_walk(g, after, w) && w[0] == next && 0 <= j < w.len() ==> !path[#[trigger] w[j]],
{
    let inner = path.update(next, true);
    assert forall|w: Seq<int>| #[trigger] free_walk(g, after, w) && w[0] == next implies {
        &&& w.no_duplicates()
        &&& forall|j: int| 0 <= j < w.len() ==> !path[#[trigger] w[j]]
    } by {
        assert(free_walk(g, reached, w));
        assert(keeps_off(g, reached, next, inner, 0, w));
        if w.len() > 1 {
            assert(is_edge(g, w[0], w[0int + 1]));
            assert forall|i: int, j: int| 0 <= i < w.len() && 0 <= j < w.len() && i != j implies w[i]
                != w[j] by {
                if i > 0 && j > 0 {
                    assert(w.drop_first()[i - 1] == w[i] && w.drop_first()[j - 1] == w[j]);
                } else if i > 0 {
                    assert(!inner[w[i]]);
                } else {
                    assert(!inner[w[j]]);
                }
            }
            assert forall|j: int| 0 <= j < w.len() implies !path[#[trigger] w[j]] by {
                if j > 0 {
                    assert(!inner[w[j]]);
                }
            }
        }
    }
}

proof fn lemma_walk_suffix(g: Graph, marks: Seq<bool>, w: Seq<int>)
    requires
        free_walk(g, marks, w),
        w.len() > 1,
    ensures
        free_walk(g, marks, w.drop_first()),
{
    let rest = w.drop_first();
    assert forall|i: int| #![trigger rest[i]] 0 <= i < rest.len() - 1 implies is_edge(
        g,
        rest[i],
        rest[i + 1],
    ) by {
        assert(is_edge(g, w[i + 1], w[i + 1 + 1]));
    }
}

proof fn lemma_cut_stays(g: Graph, before: Seq<bool>, after: Seq<bool>, t: int)
    requires
        forall|t: int| 0 <= t < g.len() && before[t] ==> #[trigger] after[t],
        cut_behind(g, before, t),
    ensures
        cut_behind(g, after, t),
{
    assert forall|w: Seq<int>| #[trigger] free_walk(g, after, w) && w[0] == t implies w.no_duplicates() by {
        assert(free_walk(g, before, w));
    }
}

/// The nodes that are not in a group.
pub open spec fn outside(n: nat, group: Seq<usize>) -> Seq<bool> {
    Seq::new(n, |i: int| !group.contains(i as usize))
}

/// The marks after searches that stay in a group, from each of its nodes that is a start or marked.
pub open spec fn cut_group(
    g: Graph,
    starts: Seq<bool>,
    marks: Seq<bool>,
    group: Seq<usize>,
    k: int,
) -> Seq<bool>
    decreases group.len() - k,
{
    if k >= group.len() {
        marks
    } else {
        let s = group[k] as int;
        let reached = if starts[s] || marks[s] {
            looped(g, marks, s, outside(g.len(), group).update(s, true), 0)
        } else {
            marks
        };
        cut_group(g, starts, reached, group, k + 1)
    }
}

/// The marks after all groups from number `k` on were searched one after the other.
pub open spec fn cut_groups(
    g: Graph,
    starts: Seq<bool>,
    marks: Seq<bool>,
    groups: Seq<Seq<usize>>,
    k: int,
) -> Seq<bool>
    decreases groups.len() - k,
{
    if k >= groups.len() {
        marks
    } else {
        cut_groups(g, starts, cut_group(g, starts, marks, groups[k], 0), groups, k + 1)
    }
}

/// Every node of the groups is a node of the graph.
pub open spec fn inside(g: Graph, group: Seq<usize>) -> bool {
    forall|k: int| 0 <= k < group.len() ==> #[trigger] group[k] < g.len()
}

/// Behind a start or a mark no loop is left.
pub open spec fn settled(g: Graph, starts: Seq<bool>, marks: Seq<bool>, t: int) -> bool {
    starts[t] || marks[t] ==> cut_behind(g, marks, t)
}

pub proof fn lemma_cut_group(
    g: Graph,
    starts: Seq<bool>,
    marks: Seq<bool>,
    group: Seq<usize>,
    k: int,
)
    requires
        closed(g),
        inside(g, group),
        starts.len() == g.len(),
        marks.len() == g.len(),
        0 <= k <= group.len(),
        forall|j: int| 0 <= j < k ==> settled(g, starts, marks, #[trigger] group[j] as int),
    ensures
        cut_group(g, starts, marks, group, k).len() == g.len(),
        forall|t: int|
            0 <= t < g.len() && marks[t] ==> #[trigger] cut_group(g, starts, marks, group, k)[t],
        forall|j: int|
            0 <= j < group.len() ==> settled(
                g,
                starts,
                cut_group(g, starts, marks, group, k),
                #[trigger] group[j] as int,
            ),
        forall|t: int|
            0 <= t < g.len() && !group.contains(t as usize) && #[trigger] cut_group(
                g,
                starts,
                marks,
                group,
                k,
            )[t] && !marks[t] ==> exists|u: int|
                group.contains(u as usize) && #[trigger] is_edge(g, u, t),
    decreases group.len() - k,
{
    if k < group.len() {
        let s = group[k] as int;
        let path = outside(g.len(), group).update(s, true);
        let reached = if starts[s] || marks[s] {
            looped(g, marks, s, path, 0)
        } else {
            marks
        };
        if starts[s] || marks[s] {
            lemma_looped(g, marks, s, path, 0);
            assert(cut_behind(g, reached, s)) by {
                assert forall|w: Seq<int>| #[trigger] free_walk(g, reached, w) && w[0] == s implies w.no_duplicates() by {
                    assert(keeps_off(g, reached, s, path, 0, w));
                    if w.len() > 1 {
                        assert(is_edge(g, w[0], w[0int + 1]));
                        assert forall|i: int, j: int|
                            0 <= i < w.len() && 0 <= j < w.len() && i != j implies w[i] != w[j] by {
                            if i > 0 && j > 0 {
                                assert(w.drop_first()[i - 1] == w[i] && w.drop_first()[j - 1]
                                    == w[j]);
                            } else if i > 0 {
                                assert(!path[w[i]]);
                            } else {
                                assert(!path[w[j]]);
                            }
                        }
                    }
                }
            }
            assert forall|j: int| 0 <= j < k + 1 implies settled(
                g,
                starts,
                reached,
                #[trigger] group[j] as int,
            ) by {
                let t = group[j] as int;
                if t != s {
                    assert(group.contains(t as usize));
                    assert(!path[t]);
                    if starts[t] || marks[t] {
                        assert(settled(g, starts, marks, group[j] as int));
                        lemma_cut_stays(g, marks, reached, t);
                    }
                }
            }
        }
        lemma_cut_group(g, starts, reached, group, k + 1);
        let after = cut_group(g, starts, reached, group, k + 1);
        assert forall|t: int|
            0 <= t < g.len() && !group.contains(t as usize) && #[trigger] after[t]
                && !marks[t] implies exists|u: int|
            group.contains(u as usize) && #[trigger] is_edge(g, u, t) by {
            if reached[t] {
                assert(path[t]);
                assert(marked_well(g, reached, s, path, t));
                let u = choose|u: int| (u == s || !path[u]) && #[trigger] is_edge(g, u, t);
                assert(group.contains(group[k]));
                assert(group.contains(u as usize));
                assert(is_edge(g, u, t));
            }
        }
    }
}

/// No edge leads from a group to an earlier one.
pub open spec fn ordered(g: Graph, groups: Seq<Seq<usize>>) -> bool {
    forall|a: int, b: int, u: int, t: int|
        #![trigger groups[a].contains(u as usize), groups[b].contains(t as usize)]
        0 <= b < a < groups.len() && groups[a].contains(u as usize) && groups[b].contains(t as usize)
            ==> !is_edge(g, u, t)
}

pub proof fn lemma_cut_groups(
    g: Graph,
    starts: Seq<bool>,
    marks: Seq<bool>,
    groups: Seq<Seq<usize>>,
    k: int,
)
    requires
        closed(g),
        g.len() <= usize::MAX,
        starts.len() == g.len(),
        marks.len() == g.len(),
        0 <= k <= groups.len(),
        forall|j: int| 0 <= j < groups.len() ==> inside(g, #[trigger] groups[j]),
        ordered(g, groups),
        forall|j: int, t: int|
            0 <= j < k && #[trigger] groups[j].contains(t as usize) && 0 <= t < g.len() ==> settled(
                g,
                starts,
                marks,
                t,
            ),
    ensures
        cut_groups(g, starts, marks, groups, k).len() == g.len(),
        forall|t: int|
            0 <= t < g.len() && marks[t] ==> #[trigger] cut_groups(g, starts, marks, groups, k)[t],
        forall|j: int, t: int|
            0 <= j < groups.len() && #[trigger] groups[j].contains(t as usize) && 0 <= t < g.len()
                ==> settled(g, starts, cut_groups(g, starts, marks, groups, k), t),
    decreases groups.len() - k,
{
    if k < groups.len() {
        let reached = cut_group(g, starts, marks, groups[k], 0);
        lemma_cut_group(g, starts, marks, groups[k], 0);
        assert forall|j: int, t: int|
            0 <= j < k + 1 && #[trigger] groups[j].contains(t as usize) && 0 <= t < g.len() implies settled(
            g,
            starts,
            reached,
            t,
        ) by {
            if groups[k].contains(t as usize) {
                let p = groups[k].index_of(t as usize);
                assert(settled(g, starts, reached, groups[k][p] as int));
            } else {
                if reached[t] && !marks[t] {
                    let u = choose|u: int|
                        groups[k].contains(u as usize) && #[trigger] is_edge(g, u, t);
                    assert(groups[k].contains(u as usize));
                }
                if starts[t] || marks[t] {
                    lemma_cut_stays(g, marks, reached, t);
                }
            }
        }
        lemma_cut_groups(g, starts, reached, groups, k + 1);
    }
}

/// Where no loop is left behind starts and marks, a walk from a start that comes to a node twice
/// passes a mark in between.
pub proof fn lemma_loops_are_marked(
    g: Graph,
    marks: Seq<bool>,
    starts: Seq<bool>,
    w: Seq<int>,
    a: int,
    b: int,
)
    requires
        starts.len() == g.len(),
        marks.len() == g.len(),
        is_walk(g, w),
        forall|i: int| 0 <= i < w.len() ==> settled(g, starts, marks, #[trigger] w[i]),
        starts[w[0]] || marks[w[0]],
        0 <= a < b < w.len(),
        w[a] == w[b],
    ensures
        exists|c: int| a < c <= b && marks[#[trigger] w[c]],
{
    if forall|c: int| a < c <= b ==> !marks[#[trigger] w[c]] {
        let j = lemma_last_start(g, marks, starts, w, a);
        let part = w.subrange(j, b + 1);
        assert forall|i: int| #![trigger part[i]] 0 <= i < part.len() - 1 implies is_edge(
            g,
            part[i],
            part[i + 1],
        ) by {
            assert(is_edge(g, w[j + i], w[j + i + 1]));
        }
        assert(is_walk(g, part));
        assert(free_walk(g, marks, part));
        assert(settled(g, starts, marks, w[j]));
        assert(part.no_duplicates());
        assert(part[a - j] == part[b - j]);
    }
}

proof fn lemma_last_start(
    g: Graph,
    marks: Seq<bool>,
    starts: Seq<bool>,
    w: Seq<int>,
    a: int,
) -> (j: int)
    requires
        0 <= a < w.len(),
        starts[w[0]] || marks[w[0]],
    ensures
        0 <= j <= a,
        starts[w[j]] || marks[w[j]],
        forall|c: int| j < c <= a ==> !marks[#[trigger] w[c]],
    decreases a,
{
    if a == 0 || marks[w[a]] {
        a
    } else {
        lemma_last_start(g, marks, starts, w, a - 1)
    }
}

/// Whether a start reaches a node.
pub open spec fn entered(g: Graph, starts: Seq<bool>, t: int) -> bool {
    exists|s: int| 0 <= s < g.len() && starts[s] && #[trigger] reaches(g, s, t)
}

/// Two nodes of one loop, or a node and itself.
pub open spec fn connected(g: Graph, a: int, b: int) -> bool {
    reaches(g, a, b) && reaches(g, b, a)
}

/// The nodes that starts reach, in groups of connected nodes. What a node reaches is in its own
/// group or in a later one.
pub open spec fn is_components(g: Graph, starts: Seq<bool>, groups: Seq<Seq<usize>>) -> bool {
    &&& forall|j: int| 0 <= j < groups.len() ==> inside(g, #[trigger] groups[j])
    &&& forall|t: int|
        0 <= t < g.len() ==> (#[trigger] entered(g, starts, t) <==> exists|j: int|
            0 <= j < groups.len() && #[trigger] groups[j].contains(t as usize))
    &&& forall|j: int, u: usize, t: usize|
        #![trigger groups[j].contains(u), groups[j].contains(t)]
        0 <= j < groups.len() && groups[j].contains(u) && t < g.len() ==> (groups[j].contains(t)
            <==> connected(g, u as int, t as int))
    &&& forall|a: int, b: int, u: usize, t: usize|
        #![trigger groups[a].contains(u), groups[b].contains(t)]
        0 <= b < a < groups.len() && groups[a].contains(u) && groups[b].contains(t) ==> !reaches(
            g,
            u as int,
            t as int,
        )
}

proof fn lemma_missing_subset(a: Seq<bool>, b: Seq<bool>)
    requires
        a.len() == b.len(),
        forall|i: int| 0 <= i < a.len() && b[i] ==> #[trigger] a[i],
    ensures
        missing(a) <= missing(b),
        missing(a) == missing(b) ==> a == b,
    decreases a.len(),
{
    if a.len() > 0 {
        let x = a.drop_last();
        let y = b.drop_last();
        assert forall|i: int| 0 <= i < x.len() && y[i] implies #[trigger] x[i] by {
            assert(a[i]);
        }
        lemma_missing_subset(x, y);
        if missing(a) == missing(b) {
            assert(a[a.len() - 1] == a.last());
            assert(b[b.len() - 1] == b.last());
            assert forall|i: int| 0 <= i < a.len() implies a[i] == b[i] by {
                if i < a.len() - 1 {
                    assert(x[i] == y[i]);
                }
            }
            assert(a =~= b);
        }
    } else {
        assert(a =~= b);
    }
}

proof fn lemma_missing_bounded(set: Seq<bool>)
    ensures
        missing(set) <= set.len(),
    decreases set.len(),
{
    if set.len() > 0 {
        lemma_missing_bounded(set.drop_last());
    }
}

fn count_missing(set: &Vec<bool>) -> (r: usize)
    ensures
        r == missing(set@),
{
    let mut r: usize = 0;
    let mut i: usize = 0;
    while i < set.len()
        invariant
            i <= set.len(),
            r <= i,
            r == missing(set@.take(i as int)),
        decreases set.len() - i,
    {
        assert(set@.take(i + 1).drop_last() =~= set@.take(i as int));
        if !set[i] {
            r += 1;
        }
        i += 1;
    }
    assert(set@.take(i as int) =~= set@);
    r
}

/// `matrix` says which node reaches which.
spec fn is_matrix(g: Graph, matrix: Seq<Vec<bool>>) -> bool {
    &&& matrix.len() == g.len()
    &&& forall|a: int| 0 <= a < g.len() ==> (#[trigger] matrix[a]).len() == g.len()
    &&& forall|a: int, b: int|
        0 <= a < g.len() && 0 <= b < g.len() ==> #[trigger] matrix[a][b] == reaches(g, a, b)
}

fn reach_matrix(succs: &Vec<Vec<usize>>) -> (r: Vec<Vec<bool>>)
    requires
        closed(lists(succs@)),
    ensures
        is_matrix(lists(succs@), r@),
{
    let mut r: Vec<Vec<bool>> = Vec::new();
    let ghost g = lists(succs@);
    let mut n: usize = 0;
    while n < succs.len()
        invariant
            g == lists(succs@),
            closed(g),
            n <= succs.len(),
            r.len() == n,
            forall|a: int| 0 <= a < n ==> (#[trigger] r[a]).len() == g.len(),
            forall|a: int, b: int|
                0 <= a < n && 0 <= b < g.len() ==> #[trigger] r[a][b] == reaches(g, a, b),
        decreases succs.len() - n,
    {
        let row = reachable_from(succs, n);
        r.push(row);
        n += 1;
    }
    r
}

proof fn lemma_rows(g: Graph, matrix: Seq<Vec<bool>>, a: int, b: int)
    requires
        is_matrix(g, matrix),
        0 <= a < g.len(),
        0 <= b < g.len(),
        reaches(g, a, b),
    ensures
        missing(matrix[a]@) <= missing(matrix[b]@),
        missing(matrix[a]@) == missing(matrix[b]@) ==> reaches(g, b, a),
{
    let x = matrix[a]@;
    let y = matrix[b]@;
    assert forall|i: int| 0 <= i < x.len() && y[i] implies #[trigger] x[i] by {
        assert(matrix[b][i]);
        lemma_reaches_through(g, a, b, i);
        assert(matrix[a][i]);
    }
    lemma_missing_subset(x, y);
    lemma_reaches_itself(g, a);
    assert(matrix[a][a]);
    if missing(x) == missing(y) {
        assert(matrix[b][a]);
    }
}

/// Whether a node is reached from a start.
fn is_entered(matrix: &Vec<Vec<bool>>, starts: &Vec<bool>, t: usize, Ghost(g): Ghost<Graph>) -> (r: bool)
    requires
        is_matrix(g, matrix@),
        starts.len() == g.len(),
        t < g.len(),
    ensures
        r == entered(g, starts@, t as int),
{
    let mut s: usize = 0;
    while s < starts.len()
        invariant
            is_matrix(g, matrix@),
            starts.len() == g.len(),
            t < g.len(),
            s <= starts.len(),
            forall|i: int| 0 <= i < s && starts[i] ==> !#[trigger] reaches(g, i, t as int),
        decreases starts.len() - s,
    {
        assert(matrix[s as int][t as int] == reaches(g, s as int, t as int));
        if starts[s] && matrix[s][t] {
            return true;
        }
        s += 1;
    }
    false
}

/// A copy of a list.
pub fn copied(list: &Vec<usize>) -> (r: Vec<usize>)
    ensures
        r@ == list@,
{
    let mut r: Vec<usize> = Vec::new();
    let mut i: usize = 0;
    while i < list.len()
        invariant
            i <= list.len(),
            r@ == list@.take(i as int),
        decreases list.len() - i,
    {
        r.push(list[i]);
        assert(r@ =~= list@.take(i + 1));
        i += 1;
    }
    assert(list@.take(i as int) =~= list@);
    r
}

/// The nodes that are connected with `a`, in ascending order.
fn group_of(matrix: &Vec<Vec<bool>>, a: usize, Ghost(g): Ghost<Graph>) -> (r: Vec<usize>)
    requires
        is_matrix(g, matrix@),
        a < g.len(),
    ensures
        inside(g, r@),
        forall|t: usize|
            t < g.len() ==> (#[trigger] r@.contains(t) <==> connected(g, a as int, t as int)),
{
    let mut r: Vec<usize> = Vec::new();
    let mut i: usize = 0;
    while i < matrix.len()
        invariant
            is_matrix(g, matrix@),
            a < g.len(),
            i <= matrix.len(),
            forall|k: int| 0 <= k < r.len() ==> #[trigger] r[k] < i,
            forall|t: usize| t < i ==> (#[trigger] r@.contains(t) <==> connected(g, a as int, t as int)),
        decreases matrix.len() - i,
    {
        assert(matrix[a as int][i as int] == reaches(g, a as int, i as int));
        assert(matrix[i as int][a as int] == reaches(g, i as int, a as int));
        let ghost before = r@;
        assert(!before.contains(i));
        if matrix[a][i] && matrix[i][a] {
            r.push(i);
            assert(r@[r@.len() - 1] == i);
        }
        assert forall|t: usize| t < i + 1 implies (#[trigger] r@.contains(t) <==> connected(
            g,
            a as int,
            t as int,
        )) by {
            if t < i {
                assert(before.contains(t) <==> connected(g, a as int, t as int));
                if before.contains(t) {
                    let p = before.index_of(t);
                    assert(r@[p] == t);
                }
            }
        }
        i += 1;
    }
    r
}

/// What is known of the first groups while the nodes are taken in the order of what they miss:
/// those that miss less than `level`, and of those that miss as many the first `done`.
spec fn grouped(
    g: Graph,
    starts: Seq<bool>,
    matrix: Seq<Vec<bool>>,
    groups: Seq<Seq<usize>>,
    placed: Seq<bool>,
    level: int,
    done: int,
) -> bool {
    &&& placed.len() == g.len()
    &&& forall|j: int| 0 <= j < groups.len() ==> inside(g, #[trigger] groups[j])
    &&& forall|t: int|
        0 <= t < g.len() ==> (#[trigger] placed[t] <==> exists|j: int|
            0 <= j < groups.len() && #[trigger] groups[j].contains(t as usize))
    &&& forall|t: int|
        0 <= t < g.len() && #[trigger] placed[t] ==> entered(g, starts, t) && missing(matrix[t]@)
            <= level
    &&& forall|t: int|
        0 <= t < g.len() && entered(g, starts, t) && (missing(matrix[t]@) < level || (missing(
            matrix[t]@,
        ) == level && t < done)) ==> #[trigger] placed[t]
    &&& forall|j: int, u: usize, t: usize|
        #![trigger groups[j].contains(u), groups[j].contains(t)]
        0 <= j < groups.len() && groups[j].contains(u) && t < g.len() ==> (groups[j].contains(t)
            <==> connected(g, u as int, t as int))
    &&& forall|a: int, b: int, u: usize, t: usize|
        #![trigger groups[a].contains(u), groups[b].contains(t)]
        0 <= b < a < groups.len() && groups[a].contains(u) && groups[b].contains(t) ==> !reaches(
            g,
            u as int,
            t as int,
        )
}

proof fn lemma_group_added(
    g: Graph,
    starts: Seq<bool>,
    matrix: Seq<Vec<bool>>,
    groups: Seq<Seq<usize>>,
    placed: Seq<bool>,
    level: int,
    i: int,
    group: Seq<usize>,
    after: Seq<bool>,
)
    requires
        g.len() <= usize::MAX,
        is_matrix(g, matrix),
        starts.len() == g.len(),
        grouped(g, starts, matrix, groups, placed, level, i),
        0 <= i < g.len(),
        !placed[i],
        entered(g, starts, i),
        missing(matrix[i]@) == level,
        inside(g, group),
        forall|t: usize| t < g.len() ==> (#[trigger] group.contains(t) <==> connected(g, i, t as int)),
        after.len() == g.len(),
        forall|t: int| 0 <= t < g.len() ==> #[trigger] after[t] == (placed[t] || group.contains(t as usize)),
    ensures
        grouped(g, starts, matrix, groups.push(group), after, level, i + 1),
{
    let longer = groups.push(group);
    lemma_reaches_itself(g, i);
    assert(group.contains(i as usize));
    assert(after[i]);
    assert forall|t: int| 0 <= t < g.len() && #[trigger] after[t] implies entered(g, starts, t)
        && missing(matrix[t]@) <= level by {
        if !placed[t] {
            assert(connected(g, i, t as usize as int));
            lemma_rows(g, matrix, t, i);
            let s = choose|s: int| 0 <= s < g.len() && starts[s] && #[trigger] reaches(g, s, i);
            lemma_reaches_through(g, s, i, t);
        }
    }
    assert forall|t: int| 0 <= t < g.len() implies (#[trigger] after[t] <==> exists|j: int|
        0 <= j < longer.len() && #[trigger] longer[j].contains(t as usize)) by {
        if placed[t] {
            let j = choose|j: int| 0 <= j < groups.len() && #[trigger] groups[j].contains(t as usize);
            assert(longer[j].contains(t as usize));
        }
        if group.contains(t as usize) {
            assert(longer[groups.len() as int].contains(t as usize));
        }
        if exists|j: int| 0 <= j < longer.len() && #[trigger] longer[j].contains(t as usize) {
            let j = choose|j: int| 0 <= j < longer.len() && #[trigger] longer[j].contains(t as usize);
            if j < groups.len() {
                assert(groups[j].contains(t as usize));
            }
        }
    }
    assert forall|j: int, u: usize, t: usize|
        #![trigger longer[j].contains(u), longer[j].contains(t)]
        0 <= j < longer.len() && longer[j].contains(u) && t < g.len() implies (longer[j].contains(t)
        <==> connected(g, u as int, t as int)) by {
        if j < groups.len() {
            assert(groups[j].contains(u));
            assert(groups[j].contains(t) <==> connected(g, u as int, t as int));
        } else {
            let p = group.index_of(u);
            assert(group[p] < g.len());
            assert(connected(g, i, u as int));
            if connected(g, i, t as int) {
                lemma_reaches_through(g, u as int, i, t as int);
                lemma_reaches_through(g, t as int, i, u as int);
            }
            if connected(g, u as int, t as int) {
                lemma_reaches_through(g, i, u as int, t as int);
                lemma_reaches_through(g, t as int, u as int, i);
            }
        }
    }
    assert forall|a: int, b: int, u: usize, t: usize|
        #![trigger longer[a].contains(u), longer[b].contains(t)]
        0 <= b < a < longer.len() && longer[a].contains(u) && longer[b].contains(t) implies !reaches(
        g,
        u as int,
        t as int,
    ) by {
        assert(groups[b].contains(t));
        let p = groups[b].index_of(t);
        assert(inside(g, groups[b]));
        assert(groups[b][p] < g.len());
        if a < groups.len() {
            assert(groups[a].contains(u));
        } else {
            let q = group.index_of(u);
            assert(group[q] < g.len());
            assert(connected(g, i, u as int));
            if reaches(g, u as int, t as int) {
                lemma_reaches_through(g, i, u as int, t as int);
                lemma_rows(g, matrix, i, t as int);
                assert(t == t as int as usize);
                assert(placed[t as int]);
                assert(missing(matrix[t as int]@) <= level);
                assert(connected(g, t as int, i as usize as int));
                assert(groups[b].contains(i as usize));
                assert(placed[i]);
            }
        }
    }
}

/// The groups of connected nodes that starts reach, those that are reached from others behind them.
pub fn components(succs: &Vec<Vec<usize>>, starts: &Vec<bool>) -> (r: Vec<Vec<usize>>)
    requires
        closed(lists(succs@)),
        starts.len() == succs.len(),
    ensures
        is_components(lists(succs@), starts@, lists(r@)),
{
    let ghost g = lists(succs@);
    let matrix = reach_matrix(succs);
    let mut placed: Vec<bool> = Vec::new();
    let mut n: usize = 0;
    while n < succs.len()
        invariant
            n <= succs.len(),
            placed.len() == n,
            forall|t: int| 0 <= t < n ==> !#[trigger] placed[t],
        decreases succs.len() - n,
    {
        placed.push(false);
        n += 1;
    }
    let mut r: Vec<Vec<usize>> = Vec::new();
    assert(lists(r@) =~= Seq::empty());
    let mut level: usize = 0;
    while level < succs.len()
        invariant
            g == lists(succs@),
            is_matrix(g, matrix@),
            starts.len() == succs.len(),
            level <= succs.len(),
            grouped(g, starts@, matrix@, lists(r@), placed@, level as int, 0),
        decreases succs.len() - level,
    {
        let mut i: usize = 0;
        while i < succs.len()
            invariant
                g == lists(succs@),
                is_matrix(g, matrix@),
                starts.len() == succs.len(),
                level < succs.len(),
                i <= succs.len(),
                grouped(g, starts@, matrix@, lists(r@), placed@, level as int, i as int),
            decreases succs.len() - i,
        {
            assert(matrix[i as int].len() == g.len());
            let missed: usize = count_missing(&matrix[i]);
            if !placed[i] && missed == level && is_entered(&matrix, starts, i, Ghost(g)) {
                let group = group_of(&matrix, i, Ghost(g));
                let ghost placed0 = placed@;
                let ghost groups0 = lists(r@);
                let mut k: usize = 0;
                while k < group.len()
                    invariant
                        inside(g, group@),
                        k <= group.len(),
                        placed.len() == g.len(),
                        placed0.len() == g.len(),
                        g.len() == succs.len(),
                        forall|t: int|
                            0 <= t < g.len() ==> #[trigger] placed[t] == (placed0[t] || group@.take(
                                k as int,
                            ).contains(t as usize)),
                    decreases group.len() - k,
                {
                    let t: usize = group[k];
                    placed.set(t, true);
                    assert forall|t: int| 0 <= t < g.len() implies #[trigger] placed[t] == (placed0[t]
                        || group@.take(k + 1).contains(t as usize)) by {
                        let x = group@.take(k as int);
                        let y = group@.take(k + 1);
                        assert(y[k as int] == group[k as int]);
                        if x.contains(t as usize) {
                            let p = x.index_of(t as usize);
                            assert(y[p] == t as usize);
                        }
                        if y.contains(t as usize) {
                            let p = y.index_of(t as usize);
                            if p < k {
                                assert(x[p] == t as usize);
                            }
                        }
                    }
                    k += 1;
                }
                assert(group@.take(k as int) =~= group@);
                proof {
                    lemma_group_added(
                        g,
                        starts@,
                        matrix@,
                        groups0,
                        placed0,
                        level as int,
                        i as int,
                        group@,
                        placed@,
                    );
                }
                r.push(group);
                assert(lists(r@) =~= groups0.push(group@));
            }
            i += 1;
        }
        level += 1;
    }
    assert forall|t: int| 0 <= t < g.len() implies (#[trigger] entered(g, starts@, t) <==> placed[t]) by {
        lemma_reaches_itself(g, t);
        assert(matrix[t][t]);
        lemma_missing_below(matrix[t]@, t);
    }
    r
}

proof fn lemma_missing_below(set: Seq<bool>, i: int)
    requires
        0 <= i < set.len(),
        set[i],
    ensures
        missing(set) < set.len(),
    decreases set.len(),
{
    lemma_missing_bounded(set.drop_last());
    if i < set.len() - 1 {
        lemma_missing_below(set.drop_last(), i);
    }
}

/// Searches a group from each of its nodes that is a start or marked.
pub fn mark_group(
    succs: &Vec<Vec<usize>>,
    starts: &Vec<bool>,
    marks: &mut Vec<bool>,
    group: &Vec<usize>,
)
    requires
        closed(lists(succs@)),
        inside(lists(succs@), group@),
        starts.len() == succs.len(),
        old(marks).len() == succs.len(),
    ensures
        final(marks).len() == succs.len(),
        final(marks)@ == cut_group(lists(succs@), starts@, old(marks)@, group@, 0),
{
    let ghost g = lists(succs@);
    let ghost whole = cut_group(g, starts@, marks@, group@, 0);
    let mut path: Vec<bool> = Vec::new();
    let mut n: usize = 0;
    while n < succs.len()
        invariant
            n <= succs.len(),
            path.len() == n,
            forall|t: int| 0 <= t < n ==> #[trigger] path[t],
        decreases succs.len() - n,
    {
        path.push(true);
        n += 1;
    }
    let mut k: usize = 0;
    while k < group.len()
        invariant
            inside(g, group@),
            g.len() == succs.len(),
            path.len() == g.len(),
            k <= group.len(),
            forall|t: int|
                0 <= t < g.len() ==> #[trigger] path[t] == !group@.take(k as int).contains(t as usize),
        decreases group.len() - k,
    {
        path.set(group[k], false);
        assert forall|t: int| 0 <= t < g.len() implies #[trigger] path[t] == !group@.take(
            k + 1,
        ).contains(t as usize) by {
            let x = group@.take(k as int);
            let y = group@.take(k + 1);
            assert(y[k as int] == group[k as int]);
            if x.contains(t as usize) {
                let p = x.index_of(t as usize);
                assert(y[p] == t as usize);
            }
            if y.contains(t as usize) {
                let p = y.index_of(t as usize);
                if p < k {
                    assert(x[p] == t as usize);
                }
            }
        }
        k += 1;
    }
    assert(group@.take(k as int) =~= group@);
    let ghost around = outside(g.len(), group@);
    assert(path@ =~= around);
    let mut i: usize = 0;
    while i < group.len()
        invariant
            g == lists(succs@),
            closed(g),
            inside(g, group@),
            starts.len() == succs.len(),
            marks.len() == succs.len(),
            path@ == around,
            around == outside(g.len(), group@),
            i <= group.len(),
            cut_group(g, starts@, marks@, group@, i as int) == whole,
        decreases group.len() - i,
    {
        let s: usize = group[i];
        if starts[s] || marks[s] {
            assert(group@.contains(group@[i as int]));
            path.set(s, true);
            mark_loops(succs, marks, s, &mut path);
            path.set(s, false);
            assert(path@ =~= around);
        }
        i += 1;
    }
}

} // verus!
