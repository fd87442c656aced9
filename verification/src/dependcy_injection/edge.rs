use vstd::prelude::*;

verus! {

/// One edge group of the dependency graph: the service `owner` depends on
/// every service listed in `dependencies`.
///
/// Services are identified by an integer key (one per service type); the
/// names are only used to report a cycle.
pub struct DependencyEdge {
    pub owner: u64,
    pub owner_name: String,
    pub dependencies: Vec<(u64, String)>,
}

impl DependencyEdge {
    /// `self` declares a dependency on `v`.
    pub open spec fn declares(self, v: u64) -> bool {
        exists|j: int| 0 <= j < self.dependencies@.len() && (#[trigger] self.dependencies@[j]).0 == v
    }
}

/// Among the first `n` edge groups, one that belongs to `u` declares a dependency on `v`,
/// and both services are registered.
pub open spec fn depends_on_within(
    edges: Seq<DependencyEdge>,
    n: int,
    registered: Set<u64>,
    u: u64,
    v: u64,
) -> bool {
    &&& registered.contains(u)
    &&& registered.contains(v)
    &&& exists|i: int| 0 <= i < n && (#[trigger] edges[i]).owner == u && edges[i].declares(v)
}

/// The registered service `u` depends directly on the registered service `v`.
pub open spec fn depends_on(edges: Seq<DependencyEdge>, registered: Set<u64>, u: u64, v: u64) -> bool {
    depends_on_within(edges, edges.len() as int, registered, u, v)
}

/// `c` is a circular chain of direct dependencies that starts and ends at the same service.
pub open spec fn is_dependency_cycle(edges: Seq<DependencyEdge>, registered: Set<u64>, c: Seq<u64>) -> bool {
    &&& c.len() >= 2
    &&& c[0] == c.last()
    &&& forall|i: int| 0 <= i < c.len() - 1 ==> depends_on(edges, registered, #[trigger] c[i], c[i + 1])
}

/// The registered services depend on each other in a circle.
pub open spec fn has_dependency_cycle(edges: Seq<DependencyEdge>, registered: Set<u64>) -> bool {
    exists|c: Seq<u64>| is_dependency_cycle(edges, registered, c)
}

/// The name of the first edge group that belongs to `u`, if any.
pub open spec fn owner_name_of(edges: Seq<DependencyEdge>, u: u64) -> Option<Seq<char>>
    decreases edges.len(),
{
    if edges.len() == 0 {
        None
    } else {
        match owner_name_of(edges.drop_last(), u) {
            Some(n) => Some(n),
            None => if edges.last().owner == u {
                Some(edges.last().owner_name@)
            } else {
                None
            },
        }
    }
}

/// The name under which `u` is reported: its owner name, or `?` for an unknown service.
pub open spec fn display_name(edges: Seq<DependencyEdge>, u: u64) -> Seq<char> {
    match owner_name_of(edges, u) {
        Some(n) => n,
        None => seq!['?'],
    }
}

/// The names of the services along `c`, joined by ` -> `.
pub open spec fn cycle_path_text(edges: Seq<DependencyEdge>, c: Seq<u64>) -> Seq<char>
    decreases c.len(),
{
    if c.len() == 0 {
        Seq::empty()
    } else if c.len() == 1 {
        display_name(edges, c[0])
    } else {
        cycle_path_text(edges, c.drop_last()) + seq![' ', '-', '>', ' '] + display_name(edges, c.last())
    }
}

/// The report for the cycle `c`.
pub open spec fn cycle_report(edges: Seq<DependencyEdge>, c: Seq<u64>) -> Seq<char> {
    "Found circular dependency: "@ + cycle_path_text(edges, c)
}

/// `owner_name_of` finds a name exactly when some edge group belongs to `u`.
pub proof fn lemma_owner_name_of_none(edges: Seq<DependencyEdge>, u: u64)
    ensures
        owner_name_of(edges, u) is None <==> forall|i: int| 0 <= i < edges.len() ==> (#[trigger] edges[i]).owner != u,
    decreases edges.len(),
{
    if edges.len() > 0 {
        lemma_owner_name_of_none(edges.drop_last(), u);
        if owner_name_of(edges.drop_last(), u) is None {
            assert forall|i: int| 0 <= i < edges.len() - 1 implies (#[trigger] edges[i]).owner != u by {
                assert(edges.drop_last()[i] == edges[i]);
            }
        } else {
            let i = choose|i: int| 0 <= i < edges.len() - 1 && !((#[trigger] edges.drop_last()[i]).owner != u);
            assert(edges[i] == edges.drop_last()[i]);
        }
    }
}

} // verus!
