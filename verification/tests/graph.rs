use perfect_hash::graph::Graph;

#[test]
fn path_graph_assignment_consistent() {
    // 0 -(7)- 1 -(3)- 2 over 5 vertices: acyclic, three touched vertices
    let mut g = Graph::new(5, 2);
    g.connect(0, 1, 7);
    g.connect(1, 2, 3);
    let vv = g.assign_vertex_values().expect("a path is acyclic");
    assert_eq!(vv.len(), 5);
    for &v in &vv {
        assert!(v < 5);
    }
    assert_eq!((vv[0] + vv[1]) % 5, 7 % 5);
    assert_eq!((vv[1] + vv[2]) % 5, 3 % 5);
}

#[test]
fn star_graph_assignment_consistent() {
    let mut g = Graph::new(6, 3);
    g.connect(0, 1, 1);
    g.connect(0, 2, 2);
    g.connect(0, 3, 3);
    let vv = g.assign_vertex_values().expect("a star is acyclic");
    assert_eq!(vv.len(), 6);
    assert_eq!((vv[0] + vv[1]) % 6, 1);
    assert_eq!((vv[0] + vv[2]) % 6, 2);
    assert_eq!((vv[0] + vv[3]) % 6, 3);
}

#[test]
fn triangle_graph_rejected() {
    let mut g = Graph::new(5, 2);
    g.connect(0, 1, 0);
    g.connect(1, 2, 1);
    g.connect(2, 0, 2);
    assert!(g.assign_vertex_values().is_none());
}

#[test]
fn parallel_edges_rejected() {
    // two keys whose projections coincide pairwise: the second edge between
    // the same pair of vertices must count as a cycle, not as a back-edge
    let mut g = Graph::new(4, 1);
    g.connect(0, 1, 5);
    g.connect(0, 1, 6);
    assert!(g.assign_vertex_values().is_none());
}

#[test]
fn self_loop_rejected() {
    let mut g = Graph::new(4, 0);
    g.connect(2, 2, 1);
    assert!(g.assign_vertex_values().is_none());
}

#[test]
fn sparse_graph_rejected_by_prefilter() {
    // only two vertices carry an edge, which does not exceed the key count
    let mut g = Graph::new(5, 3);
    g.connect(0, 1, 0);
    g.connect(0, 1, 1);
    g.connect(1, 0, 2);
    assert!(g.assign_vertex_values().is_none());
}

#[test]
fn assignment_is_deterministic() {
    // the answer is a function of the graph alone: two passes agree, on a
    // graph that succeeds and on one that fails
    let mut g = Graph::new(5, 2);
    g.connect(0, 1, 7);
    g.connect(1, 2, 3);
    assert_eq!(g.assign_vertex_values(), g.assign_vertex_values());
    assert!(g.assign_vertex_values().is_some());
    let mut c = Graph::new(5, 2);
    c.connect(0, 1, 0);
    c.connect(1, 2, 1);
    c.connect(2, 0, 2);
    assert_eq!(c.assign_vertex_values(), c.assign_vertex_values());
    assert!(c.assign_vertex_values().is_none());
}

#[test]
fn edge_values_reduced_modulo_table_size() {
    // an edge value above ng still satisfies the equation modulo ng
    let mut g = Graph::new(3, 1);
    g.connect(0, 1, 1002);
    g.connect(1, 2, 7);
    let vv = g.assign_vertex_values().expect("a path is acyclic");
    assert_eq!((vv[0] + vv[1]) % 3, 1002 % 3);
    assert_eq!((vv[1] + vv[2]) % 3, 7 % 3);
}
