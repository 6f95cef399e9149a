use petgraph::visit::EdgeRef;
use sql_lineage::graph::find_node;
use sql_lineage::item::{Item, SourceTable};
use sql_lineage::lineage::{Lineage, Link};
use sql_lineage::model::SqlModel;
use sql_lineage::models::SqlModels;

fn texts(parts: &[&str]) -> Vec<String> {
    parts.iter().map(|s| s.to_string()).collect()
}

fn flow(from: &str, to: &str, label: &str) -> Link {
    Link { from: from.to_string(), to: to.to_string(), label: label.to_string() }
}

fn two_source_model() -> SqlModels {
    SqlModels(vec![SqlModel {
        name: "joined".to_string(),
        tables: vec![
            SourceTable { origin: texts(&["t1"]), alias: Some("a".to_string()) },
            SourceTable { origin: texts(&["t2"]), alias: Some("b".to_string()) },
        ],
        items: vec![
            Item { name: "x".to_string(), path: texts(&["a"]), alias: None, data_type: None },
            Item { name: "y".to_string(), path: texts(&["b"]), alias: None, data_type: None },
            Item { name: "z".to_string(), path: texts(&["a"]), alias: None, data_type: None },
        ],
    }])
}

#[test]
fn find_node_gives_the_first_index() {
    let nodes = texts(&["a", "b", "a"]);
    assert_eq!(find_node(&nodes, "a"), Some(0));
    assert_eq!(find_node(&nodes, "b"), Some(1));
    assert_eq!(find_node(&nodes, "c"), None);
}

#[test]
fn graph_has_the_nodes_and_edges_of_the_lineage() {
    let lineage = Lineage {
        nodes: texts(&["users", "active_users", "reports"]),
        edges: vec![
            flow("users", "active_users", "user_id - String"),
            flow("active_users", "reports", "id - String"),
            flow("users", "reports", ""),
        ],
    };
    let graph = lineage.to_graph().unwrap();
    assert_eq!(graph.node_count(), 3);
    assert_eq!(graph.edge_count(), 3);
    let weights: Vec<String> = graph.node_weights().cloned().collect();
    assert_eq!(weights, texts(&["users", "active_users", "reports"]));
    let edges: Vec<(usize, usize, String)> = graph
        .edge_references()
        .map(|e| (e.source().index(), e.target().index(), e.weight().clone()))
        .collect();
    assert_eq!(
        edges,
        vec![
            (0, 1, "user_id - String".to_string()),
            (1, 2, "id - String".to_string()),
            (0, 2, String::new()),
        ]
    );
}

#[test]
fn graph_of_an_empty_lineage_is_empty() {
    let graph = Lineage { nodes: vec![], edges: vec![] }.to_graph().unwrap();
    assert_eq!(graph.node_count(), 0);
    assert_eq!(graph.edge_count(), 0);
}

#[test]
fn no_graph_for_an_edge_that_ends_in_no_node() {
    let lineage = Lineage { nodes: texts(&["a"]), edges: vec![flow("a", "missing", "")] };
    assert!(lineage.to_graph().is_none());
    assert!(lineage.to_dot().is_none());
}

#[test]
fn dot_text_lists_nodes_and_edges() {
    let lineage = Lineage {
        nodes: texts(&["users", "active_users"]),
        edges: vec![flow("users", "active_users", "user_id - String")],
    };
    assert_eq!(
        lineage.to_dot().unwrap(),
        "digraph {\n    0 [ label = \"users\" ]\n    1 [ label = \"active_users\" ]\n    \
         0 -> 1 [ label = \"user_id - String\" ]\n}\n"
    );
}

#[test]
fn dot_text_breaks_lines_inside_a_label() {
    let text = two_source_model().to_dot().unwrap();
    assert_eq!(
        text,
        "digraph {\n    0 [ label = \"t1\" ]\n    1 [ label = \"joined\" ]\n    \
         2 [ label = \"t2\" ]\n    0 -> 1 [ label = \"x - Unknown\\lz - Unknown\" ]\n    \
         2 -> 1 [ label = \"y - Unknown\" ]\n}\n"
    );
}

#[test]
fn models_graph_is_deduplicated() {
    let mut models = two_source_model();
    models.0.push(SqlModel {
        name: "joined".to_string(),
        tables: vec![SourceTable { origin: texts(&["ns", "t2"]), alias: None }],
        items: vec![],
    });
    models.0.push(SqlModel {
        name: "t1".to_string(),
        tables: vec![SourceTable { origin: texts(&["joined"]), alias: None }],
        items: vec![],
    });
    let graph = models.to_graph().unwrap();
    let weights: Vec<String> = graph.node_weights().cloned().collect();
    assert_eq!(weights, texts(&["t1", "joined", "t2"]));
    let edges: Vec<(usize, usize, String)> = graph
        .edge_references()
        .map(|e| (e.source().index(), e.target().index(), e.weight().clone()))
        .collect();
    assert_eq!(
        edges,
        vec![
            (0, 1, "x - Unknown\nz - Unknown".to_string()),
            (2, 1, String::new()),
            (1, 0, String::new()),
        ]
    );
}
