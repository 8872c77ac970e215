//! Lineage queries: upstream traversal, downstream impact, and search.

use lineage_tracer::query::{get_impact_analysis, get_metric_lineage, search_nodes};
use lineage_tracer::types::{
    LineageEdge, LineageEdgeType, LineageGraph, LineageNode, LineageNodeType, ParseResult,
};

fn node(id: &str, node_type: LineageNodeType, name: &str, description: Option<&str>) -> LineageNode {
    LineageNode {
        id: id.to_string(),
        node_type,
        name: name.to_string(),
        description: description.map(|s| s.to_string()),
        metadata: Vec::new(),
    }
}

fn edge(id: &str, source: &str, target: &str, edge_type: LineageEdgeType) -> LineageEdge {
    LineageEdge {
        id: id.to_string(),
        source: source.to_string(),
        target: target.to_string(),
        edge_type,
        label: None,
    }
}

/// metric -> measure -> entity -> model -> source, plus one unrelated model.
fn chain_result() -> ParseResult {
    let mut r = ParseResult::default();
    r.lineage = LineageGraph {
        nodes: vec![
            node("n-src", LineageNodeType::Source, "orders", None),
            node("n-mod", LineageNodeType::Model, "stg_orders", None),
            node("n-ent", LineageNodeType::Entity, "order_id", None),
            node("n-mea", LineageNodeType::Measure, "total_amount", None),
            node("n-met", LineageNodeType::Metric, "revenue", Some("Total revenue")),
            node("n-other", LineageNodeType::Model, "unrelated", None),
        ],
        edges: vec![
            edge("e1", "n-met", "n-mea", LineageEdgeType::MetricToMeasure),
            edge("e2", "n-mea", "n-ent", LineageEdgeType::MeasureToEntity),
            edge("e3", "n-ent", "n-mod", LineageEdgeType::EntityToModel),
            edge("e4", "n-mod", "n-src", LineageEdgeType::ModelToSource),
        ],
    };
    r
}

fn id_set(nodes: &[LineageNode]) -> Vec<String> {
    let mut ids: Vec<String> = nodes.iter().map(|n| n.id.clone()).collect();
    ids.sort();
    ids
}

#[test]
fn test_metric_lineage_collects_upstream_subgraph() {
    let r = chain_result();
    let filtered = get_metric_lineage(r, "revenue".to_string()).expect("metric exists");
    assert!(filtered.success);
    assert_eq!(
        id_set(&filtered.lineage.nodes),
        vec!["n-ent", "n-mea", "n-met", "n-mod", "n-src"]
    );
    assert_eq!(filtered.lineage.edges.len(), 4);
}

#[test]
fn test_metric_lineage_not_found() {
    let r = chain_result();
    let err = match get_metric_lineage(r, "no_such_metric".to_string()) {
        Err(e) => e,
        Ok(_) => panic!("expected a not-found error"),
    };
    assert_eq!(err, "Metric 'no_such_metric' not found");
}

#[test]
fn test_metric_lineage_requires_metric_node() {
    // a node with the right name but the wrong kind is not a match
    let r = chain_result();
    let err = match get_metric_lineage(r, "stg_orders".to_string()) {
        Err(e) => e,
        Ok(_) => panic!("expected a not-found error"),
    };
    assert_eq!(err, "Metric 'stg_orders' not found");
}

#[test]
fn test_impact_analysis_walks_downstream() {
    let r = chain_result();
    let filtered = get_impact_analysis(r, "stg_orders".to_string()).expect("node exists");
    assert_eq!(
        id_set(&filtered.lineage.nodes),
        vec!["n-ent", "n-mea", "n-met", "n-mod"]
    );
    assert_eq!(filtered.lineage.edges.len(), 3);
}

#[test]
fn test_impact_analysis_not_found() {
    let r = chain_result();
    let err = match get_impact_analysis(r, "ghost_table".to_string()) {
        Err(e) => e,
        Ok(_) => panic!("expected a not-found error"),
    };
    assert_eq!(err, "Node 'ghost_table' not found");
}

#[test]
fn test_upstream_reach_unchanged_by_reordering() {
    let straight = get_metric_lineage(chain_result(), "revenue".to_string()).unwrap();

    let mut shuffled = chain_result();
    shuffled.lineage.edges.reverse();
    let mut nodes = shuffled.lineage.nodes;
    nodes.swap(0, 3);
    nodes.swap(1, 5);
    shuffled.lineage.nodes = nodes;
    let reordered = get_metric_lineage(shuffled, "revenue".to_string()).unwrap();

    assert_eq!(id_set(&straight.lineage.nodes), id_set(&reordered.lineage.nodes));
}

#[test]
fn test_search_is_case_insensitive_on_names() {
    let r = chain_result();
    let hits = search_nodes(r, "REVEN".to_string());
    assert_eq!(hits.len(), 1);
    assert_eq!(hits[0].name, "revenue");
}

#[test]
fn test_search_matches_descriptions() {
    let r = chain_result();
    let hits = search_nodes(r, "total Rev".to_string());
    assert_eq!(hits.len(), 1);
    assert_eq!(hits[0].id, "n-met");
}

#[test]
fn test_search_empty_query_matches_everything() {
    let r = chain_result();
    let n = r.lineage.nodes.len();
    let hits = search_nodes(r, String::new());
    assert_eq!(hits.len(), n);
}

#[test]
fn test_search_keeps_graph_order() {
    let r = chain_result();
    let hits = search_nodes(r, "or".to_string());
    // "orders", "stg_orders", "order_id" and "unrelated" do not all match:
    // names containing "or" in graph order
    let names: Vec<&str> = hits.iter().map(|n| n.name.as_str()).collect();
    assert_eq!(names, vec!["orders", "stg_orders", "order_id"]);
}
