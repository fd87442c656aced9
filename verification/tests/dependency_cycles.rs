use asp_dot_rust::dependcy_injection::cycle_check::check_dependency_cycles;
use asp_dot_rust::dependcy_injection::DependencyEdge;
use std::collections::HashSet;

fn edge(owner: u64, name: &str, deps: &[(u64, &str)]) -> DependencyEdge {
    DependencyEdge {
        owner,
        owner_name: name.to_string(),
        dependencies: deps.iter().map(|(k, n)| (*k, n.to_string())).collect(),
    }
}

fn registered(keys: &[u64]) -> HashSet<u64> {
    keys.iter().copied().collect()
}

#[test]
fn acyclic_graph_passes() {
    let edges = vec![edge(1, "A", &[(2, "B")]), edge(2, "B", &[(3, "C")]), edge(3, "C", &[])];
    assert_eq!(check_dependency_cycles(&edges, &registered(&[1, 2, 3])), Ok(()));
}

#[test]
fn self_dependency_is_reported() {
    let edges = vec![edge(1, "A", &[(1, "A")])];
    assert_eq!(
        check_dependency_cycles(&edges, &registered(&[1])),
        Err("Found circular dependency: A -> A".to_string())
    );
}

#[test]
fn two_service_cycle_is_reported() {
    let edges = vec![edge(1, "A", &[(2, "B")]), edge(2, "B", &[(1, "A")])];
    let r = check_dependency_cycles(&edges, &registered(&[1, 2]));
    let m = r.unwrap_err();
    assert!(
        m == "Found circular dependency: A -> B -> A" || m == "Found circular dependency: B -> A -> B",
        "{}",
        m
    );
}

#[test]
fn unregistered_services_are_ignored() {
    let edges = vec![edge(1, "A", &[(2, "B")]), edge(2, "B", &[(1, "A")])];
    assert_eq!(check_dependency_cycles(&edges, &registered(&[1])), Ok(()));
    assert_eq!(check_dependency_cycles(&edges, &registered(&[])), Ok(()));
}

#[test]
fn cycle_behind_a_path_is_found() {
    let edges = vec![
        edge(1, "Root", &[(2, "Mid")]),
        edge(2, "Mid", &[(3, "Leaf")]),
        edge(3, "Leaf", &[(2, "Mid")]),
    ];
    let m = check_dependency_cycles(&edges, &registered(&[1, 2, 3])).unwrap_err();
    assert!(
        m == "Found circular dependency: Mid -> Leaf -> Mid" || m == "Found circular dependency: Leaf -> Mid -> Leaf",
        "{}",
        m
    );
}

#[test]
fn edges_of_one_owner_are_merged() {
    let edges = vec![edge(1, "A", &[(2, "B")]), edge(1, "A", &[]), edge(2, "B", &[]), edge(2, "B", &[(1, "A")])];
    assert!(check_dependency_cycles(&edges, &registered(&[1, 2])).is_err());
}
