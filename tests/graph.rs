use algo_drills::graph::{Graph, NodeNotInGraph, UndirectedGraph};

fn edge(a: &str, b: &str, w: i32) -> (String, String, i32) {
    (String::from(a), String::from(b), w)
}

fn count(edges: &[(String, String, i32)], e: &(String, String, i32)) -> usize {
    edges.iter().filter(|x| *x == e).count()
}

#[test]
fn test_add_edge() {
    let mut graph = UndirectedGraph::new();
    graph.add_edge(("a", "b", 5));
    graph.add_edge(("b", "c", 10));
    graph.add_edge(("c", "a", 7));

    let expected_edges = [
        edge("a", "b", 5),
        edge("b", "a", 5),
        edge("c", "a", 7),
        edge("a", "c", 7),
        edge("b", "c", 10),
        edge("c", "b", 10),
    ];
    for e in expected_edges.iter() {
        assert_eq!(graph.edges().contains(e), true);
    }
}

#[test]
fn triangle_edges_and_nodes_exactly() {
    let mut graph = UndirectedGraph::new();
    graph.add_edge(("a", "b", 5));
    graph.add_edge(("b", "c", 10));
    graph.add_edge(("c", "a", 7));

    let mut edges = graph.edges();
    edges.sort();
    let mut expected = vec![
        edge("a", "b", 5),
        edge("b", "a", 5),
        edge("b", "c", 10),
        edge("c", "b", 10),
        edge("c", "a", 7),
        edge("a", "c", 7),
    ];
    expected.sort();
    assert_eq!(edges, expected);

    let mut nodes = graph.nodes();
    nodes.sort();
    assert_eq!(nodes, vec![String::from("a"), String::from("b"), String::from("c")]);
}

#[test]
fn add_node_twice_reports_new_then_present() {
    let mut graph = UndirectedGraph::new();
    assert!(graph.add_node("n"));
    assert!(!graph.add_node("n"));
    assert_eq!(graph.nodes(), vec![String::from("n")]);
    assert!(graph.edges().is_empty());
}

#[test]
fn add_edge_records_both_directions() {
    let mut graph = UndirectedGraph::new();
    graph.add_node("x");
    graph.add_edge(("u", "v", -3));
    let edges = graph.edges();
    assert_eq!(edges.len(), 2);
    assert!(edges.contains(&edge("u", "v", -3)));
    assert!(edges.contains(&edge("v", "u", -3)));
}

#[test]
fn add_edge_creates_missing_endpoints() {
    let mut graph = UndirectedGraph::new();
    assert!(!graph.contains("u"));
    assert!(!graph.contains("v"));
    graph.add_edge(("u", "v", 1));
    assert!(graph.contains("u"));
    assert!(graph.contains("v"));
    assert!(!graph.contains("w"));
    assert_eq!(graph.nodes(), vec![String::from("u"), String::from("v")]);
}

#[test]
fn same_edge_twice_is_kept_twice() {
    let mut graph = UndirectedGraph::new();
    graph.add_edge(("u", "v", 4));
    graph.add_edge(("u", "v", 4));
    let edges = graph.edges();
    assert_eq!(edges.len(), 4);
    assert_eq!(count(&edges, &edge("u", "v", 4)), 2);
    assert_eq!(count(&edges, &edge("v", "u", 4)), 2);
    assert_eq!(graph.nodes().len(), 2);
}

#[test]
fn self_loop_is_stored_twice() {
    let mut graph = UndirectedGraph::new();
    graph.add_edge(("s", "s", 9));
    let edges = graph.edges();
    assert_eq!(edges, vec![edge("s", "s", 9), edge("s", "s", 9)]);
    assert_eq!(graph.nodes(), vec![String::from("s")]);
}

#[test]
fn new_graph_is_empty() {
    let graph = UndirectedGraph::new();
    assert!(graph.nodes().is_empty());
    assert!(graph.edges().is_empty());
    assert!(!graph.contains("a"));
    assert!(graph.adjacency_table().is_empty());
}

#[test]
fn adjacency_lists_follow_insertion_order() {
    let mut graph = UndirectedGraph::new();
    graph.add_edge(("a", "b", 1));
    graph.add_edge(("a", "c", 2));
    let table = graph.adjacency_table();
    assert_eq!(table.len(), 3);
    assert_eq!(table[0].0, "a");
    assert_eq!(table[0].1, vec![(String::from("b"), 1), (String::from("c"), 2)]);
    assert_eq!(table[1].1, vec![(String::from("a"), 1)]);
    assert_eq!(table[2].1, vec![(String::from("a"), 2)]);
}

#[test]
fn extreme_weights_are_accepted() {
    let mut graph = UndirectedGraph::new();
    graph.add_edge(("p", "q", i32::MIN));
    graph.add_edge(("q", "r", i32::MAX));
    let edges = graph.edges();
    assert!(edges.contains(&edge("q", "p", i32::MIN)));
    assert!(edges.contains(&edge("r", "q", i32::MAX)));
}

#[test]
fn node_not_in_graph_message() {
    let e = NodeNotInGraph;
    assert_eq!(e.message(), "accessing a node that is not in the graph");
}
