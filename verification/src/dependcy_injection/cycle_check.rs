use std::collections::HashSet;
use vstd::prelude::*;

use crate::dependcy_injection::edge::{
    cycle_path_text, cycle_report, depends_on, depends_on_within, display_name, has_dependency_cycle,
    is_dependency_cycle, lemma_owner_name_of_none, owner_name_of, DependencyEdge,
};

verus! {

broadcast use vstd::std_specs::hash::group_hash_axioms;

/// A service of the dependency graph with the registered services it depends on.
pub(crate) struct GraphNode {
    pub(crate) id: u64,
    pub(crate) name: String,
    pub(crate) deps: Vec<u64>,
}

/// The dependency graph between registered services, one node per owner.
pub(crate) struct DependencyGraph {
    pub(crate) nodes: Vec<GraphNode>,
}

/// All service keys that occur in `nodes`, as owners or as dependencies.
pub(crate) open spec fn keys_of(nodes: Seq<GraphNode>) -> Seq<u64>
    decreases nodes.len(),
{
    if nodes.len() == 0 {
        Seq::empty()
    } else {
        keys_of(nodes.drop_last()) + seq![nodes.last().id] + nodes.last().deps@
    }
}

proof fn lemma_keys_of_contains(nodes: Seq<GraphNode>, k: int)
    requires
        0 <= k < nodes.len(),
    ensures
        keys_of(nodes).contains(nodes[k].id),
        forall|v: u64| #[trigger] nodes[k].deps@.contains(v) ==> keys_of(nodes).contains(v),
    decreases nodes.len(),
{
    let prev = keys_of(nodes.drop_last());
    let last = nodes.last();
    assert(keys_of(nodes) == prev + seq![last.id] + last.deps@);
    if k == nodes.len() - 1 {
        assert((prev + seq![last.id] + last.deps@)[prev.len() as int] == last.id);
        assert forall|v: u64| nodes[k].deps@.contains(v) implies keys_of(nodes).contains(v) by {
            let j = choose|j: int| 0 <= j < last.deps@.len() && last.deps@[j] == v;
            assert((prev + seq![last.id] + last.deps@)[prev.len() + 1 + j] == v);
        }
    } else {
        lemma_keys_of_contains(nodes.drop_last(), k);
        assert(nodes.drop_last()[k] == nodes[k]);
        let i = choose|i: int| 0 <= i < prev.len() && prev[i] == nodes[k].id;
        assert((prev + seq![last.id] + last.deps@)[i] == nodes[k].id);
        assert forall|v: u64| nodes[k].deps@.contains(v) implies keys_of(nodes).contains(v) by {
            assert(nodes.drop_last()[k].deps@.contains(v));
            assert(prev.contains(v));
            let j = choose|j: int| 0 <= j < prev.len() && prev[j] == v;
            assert((prev + seq![last.id] + last.deps@)[j] == v);
        }
    }
}

impl DependencyGraph {
    pub(crate) open spec fn has_node(&self, u: u64) -> bool {
        exists|k: int| 0 <= k < self.nodes@.len() && (#[trigger] self.nodes@[k]).id == u
    }

    pub(crate) open spec fn has_edge(&self, u: u64, v: u64) -> bool {
        exists|k: int|
            0 <= k < self.nodes@.len() && (#[trigger] self.nodes@[k]).id == u && self.nodes@[k].deps@.contains(v)
    }

    /// Owners are distinct.
    pub(crate) open spec fn wf(&self) -> bool {
        forall|a: int, b: int|
            0 <= a < b < self.nodes@.len() ==> (#[trigger] self.nodes@[a]).id != (#[trigger] self.nodes@[b]).id
    }

    pub(crate) open spec fn universe(&self) -> Set<u64> {
        keys_of(self.nodes@).to_set()
    }

    pub(crate) open spec fn is_cycle(&self, c: Seq<u64>) -> bool {
        &&& c.len() >= 2
        &&& c[0] == c.last()
        &&& forall|i: int| 0 <= i < c.len() - 1 ==> self.has_edge(#[trigger] c[i], c[i + 1])
    }

    proof fn lemma_universe(&self, k: int)
        requires
            0 <= k < self.nodes@.len(),
        ensures
            self.universe().contains(self.nodes@[k].id),
            forall|v: u64| self.nodes@[k].deps@.contains(v) ==> self.universe().contains(v),
            self.universe().finite(),
    {
        lemma_keys_of_contains(self.nodes@, k);
        vstd::seq_lib::seq_to_set_is_finite(keys_of(self.nodes@));
    }

    fn find(&self, id: u64) -> (r: Option<usize>)
        requires
            self.wf(),
        ensures
            match r {
                Some(k) => k < self.nodes@.len() && self.nodes@[k as int].id == id,
                None => !self.has_node(id),
            },
    {
        let mut k: usize = 0;
        while k < self.nodes.len()
            invariant
                k <= self.nodes@.len(),
                forall|j: int| 0 <= j < k ==> (#[trigger] self.nodes@[j]).id != id,
            decreases self.nodes@.len() - k,
        {
            if self.nodes[k].id == id {
                return Some(k);
            }
            k = k + 1;
        }
        None
    }

    /// In a well-formed graph, the edges out of the node at `k` are exactly its dependencies.
    proof fn lemma_edge_at(&self, k: int, v: u64)
        requires
            self.wf(),
            0 <= k < self.nodes@.len(),
        ensures
            self.has_edge(self.nodes@[k].id, v) <==> self.nodes@[k].deps@.contains(v),
    {
        if self.has_edge(self.nodes@[k].id, v) {
            let m = choose|m: int|
                0 <= m < self.nodes@.len() && (#[trigger] self.nodes@[m]).id == self.nodes@[k].id
                    && self.nodes@[m].deps@.contains(v);
            if m != k {
                if m < k {
                    assert(self.nodes@[m].id != self.nodes@[k].id);
                } else {
                    assert(self.nodes@[k].id != self.nodes@[m].id);
                }
            }
        }
    }
}

/// Depth-first search state: the services seen so far, the ones on the current
/// path (as a set and in order), and, as ghost state, the finished services in the
/// order in which they finished.
pub(crate) struct DfsState {
    pub(crate) visited: HashSet<u64>,
    pub(crate) stack: HashSet<u64>,
    pub(crate) path: Vec<u64>,
    pub(crate) order: Ghost<Seq<u64>>,
}

impl DfsState {
    pub(crate) open spec fn inv(&self, g: &DependencyGraph) -> bool {
        &&& forall|x: u64| self.stack@.contains(x) <==> self.path@.contains(x)
        &&& self.path@.no_duplicates()
        &&& forall|x: u64| self.stack@.contains(x) ==> self.visited@.contains(x)
        &&& self.order@.no_duplicates()
        &&& forall|x: u64|
            self.order@.contains(x) <==> (self.visited@.contains(x) && !self.stack@.contains(x))
        &&& forall|i: int| 0 <= i < self.path@.len() - 1 ==> g.has_edge(#[trigger] self.path@[i], self.path@[i + 1])
        &&& forall|k: int, v: u64|
            0 <= k < self.order@.len() && #[trigger] g.has_edge(self.order@[k], v) ==> exists|m: int|
                0 <= m < k && self.order@[m] == v
    }
}

/// When a node finishes, every later-finished node ranks above the nodes it depends on,
/// so following dependencies from a finished node only reaches nodes that finished earlier.
proof fn lemma_descend(g: &DependencyGraph, order: Seq<u64>, c: Seq<u64>, k0: int, i: int)
    requires
        0 <= k0 < order.len(),
        order[k0] == c[0],
        0 <= i < c.len(),
        forall|j: int| 0 <= j < c.len() - 1 ==> g.has_edge(#[trigger] c[j], c[j + 1]),
        forall|k: int, v: u64|
            0 <= k < order.len() && #[trigger] g.has_edge(order[k], v) ==> exists|m: int| 0 <= m < k && order[m] == v,
    ensures
        exists|m: int| 0 <= m <= k0 - i && order[m] == c[i],
    decreases i,
{
    if i > 0 {
        lemma_descend(g, order, c, k0, i - 1);
        let m = choose|m: int| 0 <= m <= k0 - (i - 1) && order[m] == c[i - 1];
        assert(g.has_edge(c[i - 1], c[i]));
        assert(g.has_edge(order[m], c[i]));
    }
}

/// A graph whose nodes all finished in a closed order has no cycle.
proof fn lemma_acyclic(g: &DependencyGraph, order: Seq<u64>, c: Seq<u64>)
    requires
        order.no_duplicates(),
        forall|x: u64| g.has_node(x) ==> order.contains(x),
        forall|k: int, v: u64|
            0 <= k < order.len() && #[trigger] g.has_edge(order[k], v) ==> exists|m: int| 0 <= m < k && order[m] == v,
    ensures
        !g.is_cycle(c),
{
    if g.is_cycle(c) {
        assert(g.has_edge(c[0], c[1]));
        let n = choose|n: int| 0 <= n < g.nodes@.len() && (#[trigger] g.nodes@[n]).id == c[0] && g.nodes@[n].deps@.contains(c[1]);
        assert(g.has_node(c[0]));
        let k0 = choose|k0: int| 0 <= k0 < order.len() && order[k0] == c[0];
        let last = c.len() - 1;
        lemma_descend(g, order, c, k0, last);
        let m = choose|m: int| 0 <= m <= k0 - last && order[m] == c[last];
        assert(order[m] == order[k0]);
    }
}

proof fn lemma_measure_decreases(u: Set<u64>, v1: Set<u64>, v2: Set<u64>, x: u64)
    requires
        u.finite(),
        u.contains(x),
        !v1.contains(x),
        v2.contains(x),
        v1.subset_of(v2),
    ensures
        u.difference(v2).len() < u.difference(v1).len(),
{
    vstd::set_lib::lemma_len_subset(u.difference(v1), u);
    let d1 = u.difference(v1);
    assert(u.difference(v2).subset_of(d1.remove(x)));
    vstd::set_lib::lemma_len_subset(d1.remove(x), d1);
    vstd::set_lib::lemma_len_subset(u.difference(v2), d1.remove(x));
}

proof fn lemma_within_grow(edges: Seq<DependencyEdge>, n: int, registered: Set<u64>, u: u64, v: u64)
    requires
        0 <= n < edges.len(),
        depends_on_within(edges, n, registered, u, v),
    ensures
        depends_on_within(edges, n + 1, registered, u, v),
{
    let t = choose|t: int| 0 <= t < n && (#[trigger] edges[t]).owner == u && edges[t].declares(v);
    assert(edges[t].owner == u && edges[t].declares(v));
}

proof fn lemma_subset_trans(a: Set<u64>, b: Set<u64>, c: Set<u64>)
    requires
        a.subset_of(b),
        b.subset_of(c),
    ensures
        a.subset_of(c),
{
    assert forall|x: u64| a.contains(x) implies c.contains(x) by {
        assert(b.contains(x));
    }
}

proof fn lemma_measure_monotone(u: Set<u64>, v1: Set<u64>, v2: Set<u64>)
    requires
        u.finite(),
        v1.subset_of(v2),
    ensures
        u.difference(v2).len() <= u.difference(v1).len(),
{
    vstd::set_lib::lemma_len_subset(u.difference(v1), u);
    vstd::set_lib::lemma_len_subset(u.difference(v2), u.difference(v1));
}

/// `v` can be reached from `u` by following zero or more edges.
pub(crate) open spec fn reaches(g: &DependencyGraph, u: u64, v: u64) -> bool {
    exists|p: Seq<u64>| #[trigger] g.is_walk(p) && p[0] == u && p.last() == v
}

impl DependencyGraph {
    /// `p` is a nonempty sequence of nodes, each with an edge to the next.
    pub(crate) open spec fn is_walk(&self, p: Seq<u64>) -> bool {
        &&& p.len() >= 1
        &&& forall|i: int| 0 <= i < p.len() - 1 ==> self.has_edge(#[trigger] p[i], p[i + 1])
    }
}

proof fn lemma_reaches_step(g: &DependencyGraph, u: u64, v: u64, w: u64)
    requires
        g.has_edge(u, v),
        reaches(g, v, w),
    ensures
        reaches(g, u, w),
{
    let p = choose|p: Seq<u64>| #[trigger] g.is_walk(p) && p[0] == v && p.last() == w;
    let q = seq![u] + p;
    assert forall|i: int| 0 <= i < q.len() - 1 implies g.has_edge(#[trigger] q[i], q[i + 1]) by {
        if i > 0 {
            assert(q[i] == p[i - 1] && q[i + 1] == p[i]);
        }
    }
    assert(g.is_walk(q) && q[0] == u && q.last() == w);
}

proof fn lemma_reaches_edge(g: &DependencyGraph, u: u64, v: u64)
    requires
        g.has_edge(u, v),
    ensures
        reaches(g, u, v),
{
    let q = seq![u, v];
    assert(g.is_walk(q) && q[0] == u && q.last() == v);
}

/// The cycle `c` closes the depth-first path that started as `old_path` and went on from
/// `node` along a walk `w` without repeating a node: `c` without its last node is the tail
/// of that path, and its last node is where that tail starts.
pub(crate) open spec fn closes_dfs_path(g: &DependencyGraph, old_path: Seq<u64>, node: u64, c: Seq<u64>) -> bool {
    exists|w: Seq<u64>|
        #![trigger g.is_walk(w)]
        g.is_walk(w) && w[0] == node && (old_path + w).no_duplicates() && c.len() >= 1 && c.len() - 1 <= (
        old_path + w).len() && c.drop_last() == (old_path + w).skip((old_path + w).len() - (c.len() - 1))
}

proof fn lemma_closes_here(g: &DependencyGraph, old_path: Seq<u64>, node: u64, c: Seq<u64>)
    requires
        old_path.push(node).no_duplicates(),
        c.len() >= 1,
        c.len() - 1 <= old_path.len() + 1,
        c.drop_last() == old_path.push(node).skip(old_path.len() + 1 - (c.len() - 1)),
    ensures
        closes_dfs_path(g, old_path, node, c),
{
    let w = seq![node];
    assert(g.is_walk(w));
    assert(old_path + w =~= old_path.push(node));
}

proof fn lemma_closes_extend(g: &DependencyGraph, old_path: Seq<u64>, node: u64, dep: u64, c: Seq<u64>)
    requires
        g.has_edge(node, dep),
        closes_dfs_path(g, old_path.push(node), dep, c),
    ensures
        closes_dfs_path(g, old_path, node, c),
{
    let p1 = old_path.push(node);
    let w2 = choose|w2: Seq<u64>|
        #![trigger g.is_walk(w2)]
        g.is_walk(w2) && w2[0] == dep && (p1 + w2).no_duplicates() && c.len() >= 1 && c.len() - 1 <= (p1
            + w2).len() && c.drop_last() == (p1 + w2).skip((p1 + w2).len() - (c.len() - 1));
    let w = seq![node] + w2;
    assert forall|t: int| 0 <= t < w.len() - 1 implies g.has_edge(#[trigger] w[t], w[t + 1]) by {
        if t > 0 {
            assert(w[t] == w2[t - 1] && w[t + 1] == w2[t]);
        }
    }
    assert(g.is_walk(w));
    assert(old_path + w =~= p1 + w2);
}

/// From a node of a closed finishing order no cycle can be reached.
proof fn lemma_no_cycle_reachable(g: &DependencyGraph, order: Seq<u64>, node: u64, c: Seq<u64>)
    requires
        order.no_duplicates(),
        order.contains(node),
        forall|k: int, v: u64|
            0 <= k < order.len() && #[trigger] g.has_edge(order[k], v) ==> exists|m: int| 0 <= m < k && order[m] == v,
    ensures
        !(g.is_cycle(c) && reaches(g, node, c[0])),
{
    if g.is_cycle(c) && reaches(g, node, c[0]) {
        let p = choose|p: Seq<u64>| #[trigger] g.is_walk(p) && p[0] == node && p.last() == c[0];
        let k0 = choose|k0: int| 0 <= k0 < order.len() && order[k0] == node;
        lemma_descend(g, order, p, k0, p.len() - 1);
        let k1 = choose|m: int| 0 <= m <= k0 - (p.len() - 1) && order[m] == p[p.len() - 1];
        let last = c.len() - 1;
        lemma_descend(g, order, c, k1, last);
        let m = choose|m: int| 0 <= m <= k1 - last && order[m] == c[last];
        assert(order[m] == order[k1]);
    }
}

/// The part of `path` from the occurrence of `dep` on, closed by `dep` again.
fn cut_cycle(path: &Vec<u64>, dep: u64, graph: &DependencyGraph) -> (c: Vec<u64>)
    requires
        path@.contains(dep),
        path@.len() > 0,
        graph.has_edge(path@.last(), dep),
        forall|i: int| 0 <= i < path@.len() - 1 ==> graph.has_edge(#[trigger] path@[i], path@[i + 1]),
        path@.no_duplicates(),
    ensures
        graph.is_cycle(c@),
        c@.drop_last().no_duplicates(),
        c@[0] == dep,
        1 <= c@.len() <= path@.len() + 1,
        c@.drop_last() == path@.skip(path@.len() - (c@.len() - 1)),
{
    let mut start: usize = 0;
    while start < path.len() && path[start] != dep
        invariant
            path@.contains(dep),
            start <= path@.len(),
            forall|j: int| 0 <= j < start ==> path@[j] != dep,
        decreases path@.len() - start,
    {
        start = start + 1;
    }
    assert(start < path@.len());
    assert(path@[start as int] == dep);
    let mut cycle: Vec<u64> = Vec::new();
    let mut j: usize = start;
    while j < path.len()
        invariant
            start <= j <= path@.len(),
            cycle@ == path@.subrange(start as int, j as int),
        decreases path@.len() - j,
    {
        cycle.push(path[j]);
        j = j + 1;
    }
    cycle.push(dep);
    proof {
        let p = path@;
        let c = cycle@;
        assert(c == p.subrange(start as int, p.len() as int).push(dep));
        assert(c.drop_last() =~= p.subrange(start as int, p.len() as int));
        assert(c[0] == p[start as int]);
        assert(p.skip(p.len() - (c.len() - 1)) =~= p.subrange(start as int, p.len() as int));
        assert forall|t: int| 0 <= t < c.len() - 1 implies graph.has_edge(#[trigger] c[t], c[t + 1]) by {
            if t < c.len() - 2 {
                assert(c[t] == p[start + t]);
                assert(c[t + 1] == p[start + t + 1]);
            } else {
                assert(c[t] == p[p.len() - 1]);
            }
        }
    }
    cycle
}

/// Depth-first search from `node`. Returns a cycle through the current path if one is
/// reachable; otherwise `node` and everything reachable from it end up finished.
#[verifier::rlimit(40)]
fn dfs_detect(node: u64, graph: &DependencyGraph, state: &mut DfsState) -> (r: Option<Vec<u64>>)
    requires
        graph.wf(),
        old(state).inv(graph),
        !old(state).visited@.contains(node),
        old(state).path@.len() > 0 ==> graph.has_edge(old(state).path@.last(), node),
        graph.universe().contains(node),
        graph.universe().finite(),
    ensures
        old(state).visited@.subset_of(final(state).visited@),
        forall|x: u64| #[trigger] final(state).visited@.contains(x) ==> old(state).visited@.contains(x) || reaches(graph, node, x),
        match r {
            Some(c) => graph.is_cycle(c@) && c@.drop_last().no_duplicates() && reaches(graph, node, c@[0])
                && closes_dfs_path(graph, old(state).path@, node, c@),
            None => {
                &&& final(state).inv(graph)
                &&& final(state).visited@.contains(node)
                &&& final(state).path@ == old(state).path@
                &&& final(state).stack@ == old(state).stack@
                &&& final(state).order@.len() >= old(state).order@.len()
                &&& final(state).order@.subrange(0, old(state).order@.len() as int) == old(state).order@
                &&& final(state).order@.contains(node)
                &&& forall|c: Seq<u64>| !(graph.is_cycle(c) && reaches(graph, node, c[0]))
            },
        },
    decreases graph.universe().difference(old(state).visited@).len(),
{
    let ghost old_state = *state;
    state.visited.insert(node);
    state.stack.insert(node);
    state.path.push(node);
    proof {
        assert(state.path@.last() == node);
        assert forall|x: u64| state.stack@.contains(x) <==> state.path@.contains(x) by {
            if state.path@.contains(x) && x != node {
                let j = choose|j: int| 0 <= j < state.path@.len() && state.path@[j] == x;
                assert(old_state.path@[j] == x);
            }
            if old_state.path@.contains(x) {
                let j = choose|j: int| 0 <= j < old_state.path@.len() && old_state.path@[j] == x;
                assert(state.path@[j] == x);
            }
        }
        assert(state.path@.no_duplicates()) by {
            assert forall|a: int, b: int| 0 <= a < b < state.path@.len() implies state.path@[a] != state.path@[b] by {
                if b == state.path@.len() - 1 {
                    assert(old_state.path@.contains(state.path@[a]));
                } else {
                    assert(old_state.path@[a] == state.path@[a]);
                }
            }
        }
        assert forall|i: int| 0 <= i < state.path@.len() - 1 implies graph.has_edge(
            #[trigger] state.path@[i],
            state.path@[i + 1],
        ) by {
            if i < state.path@.len() - 2 {
                assert(old_state.path@[i] == state.path@[i]);
                assert(old_state.path@[i + 1] == state.path@[i + 1]);
            } else {
                assert(old_state.path@.last() == state.path@[i]);
            }
        }
        assert(state.inv(graph));
        lemma_measure_decreases(graph.universe(), old_state.visited@, state.visited@, node);
    }
    assert(state.order@.subrange(0, old_state.order@.len() as int) =~= old_state.order@);
    proof {
        assert(graph.is_walk(seq![node]) && seq![node][0] == node && seq![node].last() == node);
        assert(reaches(graph, node, node));
    }
    let found = graph.find(node);
    if let Some(k) = found {
        let deps = &graph.nodes[k].deps;
        proof {
            graph.lemma_universe(k as int);
        }
        let mut i: usize = 0;
        while i < deps.len()
            invariant
                graph.wf(),
                graph.universe().finite(),
                forall|v: u64| deps@.contains(v) ==> graph.universe().contains(v),
                k < graph.nodes@.len(),
                graph.nodes@[k as int].id == node,
                deps == &graph.nodes@[k as int].deps,
                i <= deps@.len(),
                state.inv(graph),
                old_state == *old(state),
                state.path@ == old_state.path@.push(node),
                state.stack@ == old_state.stack@.insert(node),
                old_state.visited@.subset_of(state.visited@),
                state.visited@.contains(node),
                forall|x: u64| #[trigger] state.visited@.contains(x) ==> old_state.visited@.contains(x) || reaches(graph, node, x),
                state.order@.len() >= old_state.order@.len(),
                state.order@.subrange(0, old_state.order@.len() as int) == old_state.order@,
                forall|j: int| 0 <= j < i ==> state.order@.contains(#[trigger] deps@[j]),
                graph.universe().difference(state.visited@).len() < graph.universe().difference(old_state.visited@).len(),
            decreases deps@.len() - i,
        {
            let dep = deps[i];
            assert(deps@.contains(dep));
            assert(graph.has_edge(node, dep)) by {
                graph.lemma_edge_at(k as int, dep);
            }
            if state.stack.contains(&dep) {
                // the dependency is on the current path: cut the cycle out of it
                let cycle = cut_cycle(&state.path, dep, graph);
                proof {
                    lemma_reaches_edge(graph, node, dep);
                    lemma_closes_here(graph, old_state.path@, node, cycle@);
                }
                return Some(cycle);
            }
            if !state.visited.contains(&dep) {
                let ghost before = *state;
                assert(graph.universe().contains(dep));
                let r = dfs_detect(dep, graph, state);
                proof {
                    lemma_subset_trans(old_state.visited@, before.visited@, state.visited@);
                    assert forall|x: u64| #[trigger] state.visited@.contains(x) implies old_state.visited@.contains(x)
                        || reaches(graph, node, x) by {
                        if !before.visited@.contains(x) {
                            lemma_reaches_step(graph, node, dep, x);
                        }
                    }
                }
                match r {
                    Some(c) => {
                        proof {
                            lemma_reaches_step(graph, node, dep, c@[0]);
                            lemma_closes_extend(graph, old_state.path@, node, dep, c@);
                        }
                        return Some(c);
                    },
                    None => {},
                }
                proof {
                    assert forall|j: int| 0 <= j < i + 1 implies state.order@.contains(#[trigger] deps@[j]) by {
                        if j < i {
                            let m = choose|m: int| 0 <= m < before.order@.len() && before.order@[m] == deps@[j];
                            assert(state.order@.subrange(0, before.order@.len() as int)[m] == deps@[j]);
                        }
                    }
                    assert(state.order@.subrange(0, old_state.order@.len() as int) =~= old_state.order@) by {
                        assert forall|t: int| 0 <= t < old_state.order@.len() implies state.order@[t] == old_state.order@[t] by {
                            assert(state.order@.subrange(0, before.order@.len() as int)[t] == before.order@[t]);
                            assert(before.order@.subrange(0, old_state.order@.len() as int)[t] == old_state.order@[t]);
                        }
                    }
                    lemma_measure_monotone(graph.universe(), before.visited@, state.visited@);
                }
            }
            i = i + 1;
        }
        proof {
            assert forall|v: u64| #[trigger] graph.has_edge(node, v) implies state.order@.contains(v) by {
                graph.lemma_edge_at(k as int, v);
                let j = choose|j: int| 0 <= j < deps@.len() && deps@[j] == v;
            }
        }
    } else {
        assert forall|v: u64| #[trigger] graph.has_edge(node, v) implies state.order@.contains(v) by {
            assert(!graph.has_node(node));
            let m = choose|m: int| 0 <= m < graph.nodes@.len() && (#[trigger] graph.nodes@[m]).id == node && graph.nodes@[m].deps@.contains(v);
            assert(graph.has_node(node));
        }
    }
    let ghost mid = *state;
    state.stack.remove(&node);
    state.path.pop();
    proof {
        state.order@ = state.order@.push(node);
        let o = state.order@;
        assert(mid.path@ == old_state.path@.push(node));
        assert(state.path@ =~= old_state.path@);
        assert(state.stack@ =~= old_state.stack@) by {
            assert(!old_state.stack@.contains(node));
        }
        assert(!mid.order@.contains(node));
        assert(o.no_duplicates()) by {
            assert forall|a: int, b: int| 0 <= a < b < o.len() implies o[a] != o[b] by {
                if b == o.len() - 1 {
                    assert(mid.order@.contains(o[a]));
                } else {
                    assert(mid.order@[a] == o[a] && mid.order@[b] == o[b]);
                }
            }
        }
        assert forall|x: u64| o.contains(x) <==> (state.visited@.contains(x) && !state.stack@.contains(x)) by {
            if o.contains(x) && x != node {
                let j = choose|j: int| 0 <= j < o.len() && o[j] == x;
                assert(mid.order@[j] == x);
            }
            if mid.order@.contains(x) {
                let j = choose|j: int| 0 <= j < mid.order@.len() && mid.order@[j] == x;
                assert(o[j] == x);
            }
            if x == node {
                assert(o[o.len() - 1] == node);
            }
        }
        assert forall|k: int, v: u64| 0 <= k < o.len() && #[trigger] graph.has_edge(o[k], v) implies exists|m: int|
            0 <= m < k && o[m] == v by {
            if k == o.len() - 1 {
                assert(mid.order@.contains(v));
                let m = choose|m: int| 0 <= m < mid.order@.len() && mid.order@[m] == v;
                assert(o[m] == v);
            } else {
                assert(o[k] == mid.order@[k]);
                let m = choose|m: int| 0 <= m < k && mid.order@[m] == v;
                assert(o[m] == v);
            }
        }
        assert forall|i: int| 0 <= i < state.path@.len() - 1 implies graph.has_edge(
            #[trigger] state.path@[i],
            state.path@[i + 1],
        ) by {
            assert(state.path@[i] == old_state.path@[i]);
            assert(state.path@[i + 1] == old_state.path@[i + 1]);
        }
        assert(o[o.len() - 1] == node);
        assert(o.subrange(0, old_state.order@.len() as int) =~= old_state.order@) by {
            assert forall|t: int| 0 <= t < old_state.order@.len() implies o[t] == old_state.order@[t] by {
                assert(mid.order@.subrange(0, old_state.order@.len() as int)[t] == old_state.order@[t]);
            }
        }
        assert(o.contains(node));
        assert forall|c: Seq<u64>| !(graph.is_cycle(c) && reaches(graph, node, c[0])) by {
            lemma_no_cycle_reachable(graph, o, node, c);
        }
    }
    None
}


/// The dependencies of `edge` on registered services, in declaration order.
fn registered_dependencies(edge: &DependencyEdge, registered: &HashSet<u64>) -> (r: Vec<u64>)
    ensures
        forall|v: u64| r@.contains(v) <==> (registered@.contains(v) && edge.declares(v)),
{
    let mut out: Vec<u64> = Vec::new();
    let mut j: usize = 0;
    while j < edge.dependencies.len()
        invariant
            j <= edge.dependencies@.len(),
            forall|v: u64|
                out@.contains(v) <==> (registered@.contains(v) && exists|t: int|
                    0 <= t < j && (#[trigger] edge.dependencies@[t]).0 == v),
        decreases edge.dependencies@.len() - j,
    {
        let id = edge.dependencies[j].0;
        let ghost prev = out@;
        if registered.contains(&id) {
            out.push(id);
        }
        proof {
            assert forall|v: u64|
                out@.contains(v) <==> (registered@.contains(v) && exists|t: int|
                    0 <= t < j + 1 && (#[trigger] edge.dependencies@[t]).0 == v) by {
                if out@.contains(v) && v != id {
                    let m = choose|m: int| 0 <= m < out@.len() && out@[m] == v;
                    assert(prev[m] == v);
                }
                if prev.contains(v) {
                    let m = choose|m: int| 0 <= m < prev.len() && prev[m] == v;
                    assert(out@[m] == v);
                }
                if v == id && registered@.contains(v) {
                    assert(out@[out@.len() - 1] == v);
                    assert(edge.dependencies@[j as int].0 == v);
                }
            }
        }
        j = j + 1;
    }
    out
}

/// `extra` appended to `base`, element by element.
fn appended(base: &Vec<u64>, extra: &Vec<u64>) -> (r: Vec<u64>)
    ensures
        r@ == base@ + extra@,
{
    let mut out: Vec<u64> = Vec::new();
    let mut j: usize = 0;
    while j < base.len()
        invariant
            j <= base@.len(),
            out@ == base@.subrange(0, j as int),
        decreases base@.len() - j,
    {
        out.push(base[j]);
        j = j + 1;
    }
    let mut t: usize = 0;
    while t < extra.len()
        invariant
            t <= extra@.len(),
            out@ == base@ + extra@.subrange(0, t as int),
        decreases extra@.len() - t,
    {
        out.push(extra[t]);
        t = t + 1;
    }
    assert(base@.subrange(0, base@.len() as int) == base@);
    assert(extra@.subrange(0, extra@.len() as int) == extra@);
    out
}

impl DependencyGraph {
    /// The graph of the registered owners in `edges`, each with the registered services it depends on.
    #[verifier::rlimit(40)]
    fn build(edges: &Vec<DependencyEdge>, registered: &HashSet<u64>) -> (g: DependencyGraph)
        ensures
            g.wf(),
            forall|u: u64, v: u64| #[trigger] g.has_edge(u, v) <==> depends_on(edges@, registered@, u, v),
            forall|k: int|
                0 <= k < g.nodes@.len() ==> owner_name_of(edges@, (#[trigger] g.nodes@[k]).id) == Some(
                    g.nodes@[k].name@,
                ),
    {
        let mut g = DependencyGraph { nodes: Vec::new() };
        let mut i: usize = 0;
        while i < edges.len()
            invariant
                i <= edges@.len(),
                g.wf(),
                forall|u: u64, v: u64|
                    #[trigger] g.has_edge(u, v) <==> depends_on_within(edges@, i as int, registered@, u, v),
                forall|u: u64|
                    #[trigger] g.has_node(u) <==> (registered@.contains(u) && exists|t: int|
                        0 <= t < i && (#[trigger] edges@[t]).owner == u),
                forall|k: int|
                    0 <= k < g.nodes@.len() ==> owner_name_of(edges@.take(i as int), (#[trigger] g.nodes@[k]).id)
                        == Some(g.nodes@[k].name@),
            decreases edges@.len() - i,
        {
            let edge = &edges[i];
            let ghost prev = g;
            proof {
                assert(edges@.take(i + 1).drop_last() =~= edges@.take(i as int));
                assert(edges@.take(i + 1).last() == edges@[i as int]);
                assert forall|k: int|
                    0 <= k < g.nodes@.len() implies owner_name_of(edges@.take(i + 1), (#[trigger] g.nodes@[k]).id)
                    == Some(g.nodes@[k].name@) by {
                    assert(owner_name_of(edges@.take(i as int), g.nodes@[k].id) is Some);
                }
            }
            if registered.contains(&edge.owner) {
                let filtered = registered_dependencies(edge, registered);
                match g.find(edge.owner) {
                    Some(k) => {
                        let deps = appended(&g.nodes[k].deps, &filtered);
                        let name = g.nodes[k].name.clone();
                        let node = GraphNode { id: edge.owner, name, deps };
                        g.nodes.set(k, node);
                        proof {
                            assert forall|a: int, b: int|
                                0 <= a < b < g.nodes@.len() implies (#[trigger] g.nodes@[a]).id != (
                            #[trigger] g.nodes@[b]).id by {
                                assert(prev.nodes@[a].id != prev.nodes@[b].id);
                            }
                            assert forall|u: u64, v: u64|
                                depends_on_within(edges@, i + 1, registered@, u, v) implies #[trigger] g.has_edge(u, v) by {
                                if depends_on_within(edges@, i as int, registered@, u, v) {
                                    assert(prev.has_edge(u, v));
                                    let m = choose|m: int|
                                        0 <= m < prev.nodes@.len() && (#[trigger] prev.nodes@[m]).id == u
                                            && prev.nodes@[m].deps@.contains(v);
                                    if m == k {
                                        let t = choose|t: int| 0 <= t < prev.nodes@[m].deps@.len() && prev.nodes@[m].deps@[t] == v;
                                        assert(g.nodes@[m].deps@[t] == v);
                                    } else {
                                        assert(g.nodes@[m] == prev.nodes@[m]);
                                    }
                                } else {
                                    let t = choose|t: int| 0 <= t < i + 1 && (#[trigger] edges@[t]).owner == u && edges@[t].declares(v);
                                    assert(t == i);
                                    assert(filtered@.contains(v));
                                    let f = choose|f: int| 0 <= f < filtered@.len() && filtered@[f] == v;
                                    assert(g.nodes@[k as int].deps@[prev.nodes@[k as int].deps@.len() + f] == v);
                                }
                            }
                            assert forall|u: u64, v: u64|
                                #[trigger] g.has_edge(u, v) implies depends_on_within(edges@, i + 1, registered@, u, v) by {
                                {
                                    let m = choose|m: int|
                                        0 <= m < g.nodes@.len() && (#[trigger] g.nodes@[m]).id == u
                                            && g.nodes@[m].deps@.contains(v);
                                    if m == k {
                                        let t = choose|t: int| 0 <= t < g.nodes@[m].deps@.len() && g.nodes@[m].deps@[t] == v;
                                        if t < prev.nodes@[m].deps@.len() {
                                            assert(prev.nodes@[m].deps@[t] == v);
                                            assert(prev.has_edge(u, v));
                                            lemma_within_grow(edges@, i as int, registered@, u, v);
                                        } else {
                                            assert(filtered@[t - prev.nodes@[m].deps@.len()] == v);
                                            assert(filtered@.contains(v));
                                            assert(edges@[i as int].owner == u);
                                            assert(edges@[i as int].declares(v));
                                        }
                                    } else {
                                        assert(g.nodes@[m] == prev.nodes@[m]);
                                        assert(prev.has_edge(u, v));
                                        lemma_within_grow(edges@, i as int, registered@, u, v);
                                    }
                                }
                            }
                            assert forall|u: u64| #[trigger] g.has_node(u) <==> (registered@.contains(u) && exists|t: int|
                                0 <= t < i + 1 && (#[trigger] edges@[t]).owner == u) by {
                                if g.has_node(u) {
                                    let m = choose|m: int| 0 <= m < g.nodes@.len() && (#[trigger] g.nodes@[m]).id == u;
                                    assert(g.nodes@[m].id == prev.nodes@[m].id);
                                    assert(prev.has_node(u));
                                }
                                if registered@.contains(u) && exists|t: int| 0 <= t < i + 1 && (#[trigger] edges@[t]).owner == u {
                                    let t = choose|t: int| 0 <= t < i + 1 && (#[trigger] edges@[t]).owner == u;
                                    if t < i {
                                        assert(prev.has_node(u));
                                        let m = choose|m: int| 0 <= m < prev.nodes@.len() && (#[trigger] prev.nodes@[m]).id == u;
                                        assert(g.nodes@[m].id == prev.nodes@[m].id);
                                    } else {
                                        assert(g.nodes@[k as int].id == u);
                                    }
                                }
                            }
                            assert forall|kk: int|
                                0 <= kk < g.nodes@.len() implies owner_name_of(edges@.take(i + 1), (#[trigger] g.nodes@[kk]).id)
                                == Some(g.nodes@[kk].name@) by {
                                assert(prev.nodes@[kk].id == g.nodes@[kk].id);
                                assert(prev.nodes@[kk].name@ == g.nodes@[kk].name@);
                            }
                        }
                    },
                    None => {
                        let name = edge.owner_name.clone();
                        let node = GraphNode { id: edge.owner, name, deps: filtered };
                        g.nodes.push(node);
                        proof {
                            assert forall|a: int, b: int|
                                0 <= a < b < g.nodes@.len() implies (#[trigger] g.nodes@[a]).id != (
                            #[trigger] g.nodes@[b]).id by {
                                if b == g.nodes@.len() - 1 {
                                    assert(prev.nodes@[a] == g.nodes@[a]);
                                } else {
                                    assert(prev.nodes@[a].id != prev.nodes@[b].id);
                                }
                            }
                            let last = g.nodes@.len() - 1;
                            assert forall|u: u64, v: u64|
                                depends_on_within(edges@, i + 1, registered@, u, v) implies #[trigger] g.has_edge(u, v) by {
                                if depends_on_within(edges@, i as int, registered@, u, v) {
                                    assert(prev.has_edge(u, v));
                                    let m = choose|m: int|
                                        0 <= m < prev.nodes@.len() && (#[trigger] prev.nodes@[m]).id == u
                                            && prev.nodes@[m].deps@.contains(v);
                                    assert(g.nodes@[m] == prev.nodes@[m]);
                                } else {
                                    let t = choose|t: int| 0 <= t < i + 1 && (#[trigger] edges@[t]).owner == u && edges@[t].declares(v);
                                    assert(t == i);
                                    assert(filtered@.contains(v));
                                    assert(g.nodes@[last].id == u);
                                }
                            }
                            assert forall|u: u64, v: u64|
                                #[trigger] g.has_edge(u, v) implies depends_on_within(edges@, i + 1, registered@, u, v) by {
                                {
                                    let m = choose|m: int|
                                        0 <= m < g.nodes@.len() && (#[trigger] g.nodes@[m]).id == u
                                            && g.nodes@[m].deps@.contains(v);
                                    if m == last {
                                        assert(edges@[i as int].owner == u);
                                        assert(filtered@.contains(v));
                                        assert(edges@[i as int].declares(v));
                                    } else {
                                        assert(g.nodes@[m] == prev.nodes@[m]);
                                        assert(prev.has_edge(u, v));
                                        lemma_within_grow(edges@, i as int, registered@, u, v);
                                    }
                                }
                            }
                            assert forall|u: u64| #[trigger] g.has_node(u) <==> (registered@.contains(u) && exists|t: int|
                                0 <= t < i + 1 && (#[trigger] edges@[t]).owner == u) by {
                                if g.has_node(u) {
                                    let m = choose|m: int| 0 <= m < g.nodes@.len() && (#[trigger] g.nodes@[m]).id == u;
                                    if m == last {
                                        assert(edges@[i as int].owner == u);
                                    } else {
                                        assert(g.nodes@[m] == prev.nodes@[m]);
                                        assert(prev.has_node(u));
                                    }
                                }
                                if registered@.contains(u) && exists|t: int| 0 <= t < i + 1 && (#[trigger] edges@[t]).owner == u {
                                    let t = choose|t: int| 0 <= t < i + 1 && (#[trigger] edges@[t]).owner == u;
                                    if t < i {
                                        assert(prev.has_node(u));
                                        let m = choose|m: int| 0 <= m < prev.nodes@.len() && (#[trigger] prev.nodes@[m]).id == u;
                                        assert(g.nodes@[m] == prev.nodes@[m]);
                                    } else {
                                        assert(g.nodes@[last].id == u);
                                    }
                                }
                            }
                            assert forall|kk: int|
                                0 <= kk < g.nodes@.len() implies owner_name_of(edges@.take(i + 1), (#[trigger] g.nodes@[kk]).id)
                                == Some(g.nodes@[kk].name@) by {
                                if kk == last {
                                    lemma_owner_name_of_none(edges@.take(i as int), edge.owner);
                                    if owner_name_of(edges@.take(i as int), edge.owner) is Some {
                                        let t = choose|t: int| 0 <= t < i && !((#[trigger] edges@.take(i as int)[t]).owner != edge.owner);
                                        assert(edges@.take(i as int)[t] == edges@[t]);
                                        assert(edges@[t].owner == edge.owner);
                                        assert(prev.has_node(edge.owner));
                                    }
                                } else {
                                    assert(prev.nodes@[kk] == g.nodes@[kk]);
                                }
                            }
                        }
                    },
                }
            } else {
                proof {
                    assert forall|u: u64| #[trigger] g.has_node(u) <==> (registered@.contains(u) && exists|t: int|
                        0 <= t < i + 1 && (#[trigger] edges@[t]).owner == u) by {
                        if registered@.contains(u) && exists|t: int| 0 <= t < i + 1 && (#[trigger] edges@[t]).owner == u {
                            let t = choose|t: int| 0 <= t < i + 1 && (#[trigger] edges@[t]).owner == u;
                            assert(t != i);
                        }
                    }
                    assert forall|u: u64, v: u64|
                        #[trigger] g.has_edge(u, v) <==> depends_on_within(edges@, i + 1, registered@, u, v) by {
                        if depends_on_within(edges@, i + 1, registered@, u, v) {
                            let t = choose|t: int| 0 <= t < i + 1 && (#[trigger] edges@[t]).owner == u && edges@[t].declares(v);
                            assert(t != i);
                        }
                    }
                }
            }
            i = i + 1;
        }
        proof {
            assert(edges@.take(edges@.len() as int) =~= edges@);
        }
        g
    }
}

/// Checks the registered services for circular dependencies.
///
/// `edges` are the declared dependencies of every service type, `registered` the keys
/// of the services that the provider holds; dependencies on services that are not
/// registered are left out. Returns an error with the report of one cycle when the
/// registered services depend on each other in a circle.
pub fn check_dependency_cycles(edges: &Vec<DependencyEdge>, registered: &HashSet<u64>) -> (r: Result<(), String>)
    ensures
        r is Ok <==> !has_dependency_cycle(edges@, registered@),
        r matches Err(m) ==> exists|c: Seq<u64>|
            is_dependency_cycle(edges@, registered@, c) && c.drop_last().no_duplicates() && m@ == cycle_report(
                edges@,
                c,
            ),
{
    let graph = DependencyGraph::build(edges, registered);
    let mut state = DfsState {
        visited: HashSet::new(),
        stack: HashSet::new(),
        path: Vec::new(),
        order: Ghost(Seq::empty()),
    };
    let mut k: usize = 0;
    while k < graph.nodes.len()
        invariant
            graph.wf(),
            forall|u: u64, v: u64| #[trigger] graph.has_edge(u, v) <==> depends_on(edges@, registered@, u, v),
            forall|kk: int|
                0 <= kk < graph.nodes@.len() ==> owner_name_of(edges@, (#[trigger] graph.nodes@[kk]).id) == Some(
                    graph.nodes@[kk].name@,
                ),
            k <= graph.nodes@.len(),
            state.inv(&graph),
            state.path@.len() == 0,
            state.stack@ == Set::<u64>::empty(),
            forall|j: int| 0 <= j < k ==> state.visited@.contains(#[trigger] graph.nodes@[j].id),
        decreases graph.nodes@.len() - k,
    {
        let start = graph.nodes[k].id;
        proof {
            graph.lemma_universe(k as int);
        }
        if !state.visited.contains(&start) {
            let ghost before = state;
            match dfs_detect(start, &graph, &mut state) {
                Some(c) => {
                    let text = cycle_text(&graph, &c, Ghost(edges@));
                    proof {
                        assert forall|t: int| 0 <= t < c@.len() - 1 implies depends_on(
                            edges@,
                            registered@,
                            #[trigger] c@[t],
                            c@[t + 1],
                        ) by {
                            assert(graph.has_edge(c@[t], c@[t + 1]));
                        }
                        assert(is_dependency_cycle(edges@, registered@, c@));
                        assert(c@.drop_last().no_duplicates());
                    }
                    return Err(text);
                },
                None => {},
            }
            proof {
                assert forall|j: int| 0 <= j < k + 1 implies state.visited@.contains(#[trigger] graph.nodes@[j].id) by {
                    if j < k {
                        assert(before.visited@.contains(graph.nodes@[j].id));
                    }
                }
            }
        }
        k = k + 1;
    }
    proof {
        assert forall|x: u64| graph.has_node(x) implies state.order@.contains(x) by {
            let j = choose|j: int| 0 <= j < graph.nodes@.len() && (#[trigger] graph.nodes@[j]).id == x;
            assert(state.visited@.contains(graph.nodes@[j].id));
        }
        assert forall|c: Seq<u64>| !is_dependency_cycle(edges@, registered@, c) by {
            lemma_acyclic(&graph, state.order@, c);
            if is_dependency_cycle(edges@, registered@, c) {
                assert forall|t: int| 0 <= t < c.len() - 1 implies graph.has_edge(#[trigger] c[t], c[t + 1]) by {
                    assert(depends_on(edges@, registered@, c[t], c[t + 1]));
                }
            }
        }
    }
    Ok(())
}

/// The report for the cycle `c` of `graph`: the names of its services joined by ` -> `.
fn cycle_text(graph: &DependencyGraph, c: &Vec<u64>, Ghost(edges): Ghost<Seq<DependencyEdge>>) -> (text: String)
    requires
        graph.wf(),
        graph.is_cycle(c@),
        forall|kk: int|
            0 <= kk < graph.nodes@.len() ==> owner_name_of(edges, (#[trigger] graph.nodes@[kk]).id) == Some(
                graph.nodes@[kk].name@,
            ),
    ensures
        text@ == cycle_report(edges, c@),
{
    let mut text = String::from_str("Found circular dependency: ");
    let ghost prefix = text@;
    proof {
        reveal_strlit("Found circular dependency: ");
        reveal_strlit(" -> ");
    }
    assert(text@ =~= prefix + cycle_path_text(edges, c@.take(0)));
    let mut t: usize = 0;
    while t < c.len()
        invariant
            graph.wf(),
            graph.is_cycle(c@),
            forall|kk: int|
                0 <= kk < graph.nodes@.len() ==> owner_name_of(edges, (#[trigger] graph.nodes@[kk]).id) == Some(
                    graph.nodes@[kk].name@,
                ),
            t <= c@.len(),
            prefix == "Found circular dependency: "@,
            text@ == prefix + cycle_path_text(edges, c@.take(t as int)),
        decreases c@.len() - t,
    {
        let id = c[t];
        proof {
            let s = c@;
            let j = if t < s.len() - 1 { t as int } else { 0 };
            assert(s[j] == id);
            assert(graph.has_edge(s[j], s[j + 1]));
        }
        let name_str = match graph.find(id) {
            Some(k) => graph.nodes[k].name.as_str(),
            None => "?",
        };
        proof {
            assert(c@.take(t + 1).drop_last() =~= c@.take(t as int));
            assert(c@.take(t + 1).last() == id);
            assert(name_str@ == display_name(edges, id));
        }
        let ghost old_text = text@;
        if t > 0 {
            text.append(" -> ");
        }
        text.append(name_str);
        proof {
            let path = cycle_path_text(edges, c@.take(t + 1));
            if t == 0 {
                assert(cycle_path_text(edges, c@.take(0)) =~= Seq::<char>::empty());
                assert(old_text =~= prefix);
                assert(path == display_name(edges, id));
                assert(text@ =~= prefix + path);
            } else {
                reveal_strlit(" -> ");
                assert(" -> "@ =~= seq![' ', '-', '>', ' ']);
                assert(path == cycle_path_text(edges, c@.take(t as int)) + seq![' ', '-', '>', ' '] + display_name(edges, id));
                assert(text@ =~= prefix + path);
            }
        }
        t = t + 1;
    }
    assert(c@.take(c@.len() as int) =~= c@);
    text
}

} // verus!
