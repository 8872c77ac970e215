//! End-to-end scenarios: building the lineage graph and auditing it.

use lineage_tracer::analysis::LineageAnalyzer;
use lineage_tracer::graph::LineageBuilder;
use lineage_tracer::types::{
    AuditResult, DbtColumn, DbtModel, DbtSource, DbtSourceRef, IssueSeverity, IssueType,
    LineageEdgeType, LineageGraph, LineageNodeType, Measure, MeasureRef, Metric, MetricTypeParams,
    SemanticEntity, SemanticModel,
};

fn column(name: &str, description: Option<&str>, tests: &[&str]) -> DbtColumn {
    DbtColumn {
        name: name.to_string(),
        description: description.map(|s| s.to_string()),
        data_type: None,
        meta: Vec::new(),
        tests: tests.iter().map(|s| s.to_string()).collect(),
    }
}

fn model(
    name: &str,
    description: Option<&str>,
    refs: &[&str],
    sources: &[(&str, &str)],
    columns: Vec<DbtColumn>,
) -> DbtModel {
    DbtModel {
        unique_id: format!("model.{}", name),
        name: name.to_string(),
        schema: None,
        database: None,
        description: description.map(|s| s.to_string()),
        columns,
        depends_on: Vec::new(),
        refs: refs.iter().map(|s| s.to_string()).collect(),
        sources: sources
            .iter()
            .map(|(g, t)| DbtSourceRef { source_name: g.to_string(), table_name: t.to_string() })
            .collect(),
        file_path: format!("models/{}.sql", name),
        raw_sql: None,
        materialization: None,
        tags: Vec::new(),
    }
}

fn source(group: &str, table: &str, description: Option<&str>) -> DbtSource {
    DbtSource {
        unique_id: format!("source.{}.{}", group, table),
        source_name: group.to_string(),
        name: table.to_string(),
        schema: None,
        database: None,
        description: description.map(|s| s.to_string()),
        columns: Vec::new(),
        loader: None,
        freshness: None,
        tags: Vec::new(),
    }
}

fn entity(name: &str, role: &str) -> SemanticEntity {
    SemanticEntity {
        name: name.to_string(),
        entity_type: role.to_string(),
        expr: None,
        description: None,
    }
}

fn measure(name: &str, agg: &str) -> Measure {
    Measure {
        name: name.to_string(),
        agg: agg.to_string(),
        expr: None,
        description: None,
        create_metric: None,
        non_additive_dimension: None,
    }
}

fn semantic_model(
    name: &str,
    model_name: &str,
    entities: Vec<SemanticEntity>,
    measures: Vec<Measure>,
) -> SemanticModel {
    SemanticModel {
        name: name.to_string(),
        description: None,
        model: model_name.to_string(),
        defaults: None,
        entities,
        measures,
        dimensions: Vec::new(),
    }
}

fn simple_metric(name: &str, measure_name: &str) -> Metric {
    Metric {
        name: name.to_string(),
        description: None,
        metric_type: "simple".to_string(),
        type_params: MetricTypeParams {
            measure: Some(MeasureRef {
                name: measure_name.to_string(),
                filter: None,
                alias: None,
            }),
            expr: None,
            metrics: None,
            window: None,
            grain_to_date: None,
        },
        filter: None,
        label: None,
    }
}

/// One source, one model over it, one semantic model with a primary
/// entity and a measure, and one simple metric over that measure.
fn revenue_fixture() -> (Vec<DbtModel>, Vec<DbtSource>, Vec<SemanticModel>, Vec<Metric>) {
    let models = vec![model(
        "stg_orders",
        None,
        &[],
        &[("raw", "orders")],
        vec![column("order_id", None, &["unique"])],
    )];
    let sources = vec![source("raw", "orders", None)];
    let sms = vec![semantic_model(
        "orders",
        "stg_orders",
        vec![entity("order_id", "primary")],
        vec![measure("total_amount", "sum")],
    )];
    let metrics = vec![simple_metric("revenue", "total_amount")];
    (models, sources, sms, metrics)
}

fn build_graph(
    models: &Vec<DbtModel>,
    sources: &Vec<DbtSource>,
    sms: &Vec<SemanticModel>,
    metrics: &Vec<Metric>,
) -> LineageGraph {
    LineageBuilder::new().build(models, sources, sms, metrics)
}

fn audit(
    graph: &LineageGraph,
    models: &Vec<DbtModel>,
    sources: &Vec<DbtSource>,
    sms: &Vec<SemanticModel>,
    metrics: &Vec<Metric>,
) -> AuditResult {
    LineageAnalyzer::new().analyze(graph, models, sources, sms, metrics)
}

#[test]
fn test_simple_project_graph_and_scores() {
    let (models, sources, sms, metrics) = revenue_fixture();
    let graph = build_graph(&models, &sources, &sms, &metrics);

    assert_eq!(graph.nodes.len(), 5);
    let kinds: Vec<LineageNodeType> = graph.nodes.iter().map(|n| n.node_type).collect();
    assert_eq!(
        kinds,
        vec![
            LineageNodeType::Source,
            LineageNodeType::Model,
            LineageNodeType::Entity,
            LineageNodeType::Measure,
            LineageNodeType::Metric,
        ]
    );
    let edge_kinds: Vec<LineageEdgeType> = graph.edges.iter().map(|e| e.edge_type).collect();
    assert_eq!(
        edge_kinds,
        vec![
            LineageEdgeType::ModelToSource,
            LineageEdgeType::EntityToModel,
            LineageEdgeType::MeasureToEntity,
            LineageEdgeType::MetricToMeasure,
        ]
    );

    let result = audit(&graph, &models, &sources, &sms, &metrics);
    assert_eq!(result.completeness_score.num, 1);
    assert_eq!(result.completeness_score.den, 1);
    assert_eq!(result.completeness_score.percent_hundredths(), 10000);
    assert!(!result
        .issues
        .iter()
        .any(|i| matches!(i.issue_type, IssueType::OrphanedMetric)));
}

#[test]
fn test_metric_with_unknown_measure_is_orphaned() {
    let (models, sources, sms, _) = revenue_fixture();
    let metrics = vec![simple_metric("revenue", "no_such_measure")];
    let graph = build_graph(&models, &sources, &sms, &metrics);

    let metric_node = graph
        .nodes
        .iter()
        .find(|n| n.node_type == LineageNodeType::Metric)
        .expect("metric node present");
    assert!(!graph.edges.iter().any(|e| e.source == metric_node.id));

    let result = audit(&graph, &models, &sources, &sms, &metrics);
    assert_eq!(result.completeness_score.num, 0);
    assert_eq!(result.completeness_score.den, 1);
    assert_eq!(result.completeness_score.percent_hundredths(), 0);

    let orphans: Vec<_> = result
        .issues
        .iter()
        .filter(|i| matches!(i.issue_type, IssueType::OrphanedMetric))
        .collect();
    assert_eq!(orphans.len(), 1);
    assert_eq!(orphans[0].severity, IssueSeverity::Error);
    assert_eq!(orphans[0].node_id.as_deref(), Some(metric_node.id.as_str()));
    assert_eq!(
        orphans[0].message,
        "Metric 'revenue' has no connection to any measure"
    );
}

#[test]
fn test_model_without_columns_counts_as_untested() {
    let models = vec![model("bare_model", Some("documented"), &[], &[], Vec::new())];
    let sources = Vec::new();
    let sms = Vec::new();
    let metrics = Vec::new();
    let graph = build_graph(&models, &sources, &sms, &metrics);
    let result = audit(&graph, &models, &sources, &sms, &metrics);

    let no_tests: Vec<_> = result
        .issues
        .iter()
        .filter(|i| matches!(i.issue_type, IssueType::NoTests))
        .collect();
    assert_eq!(no_tests.len(), 1);
    assert_eq!(no_tests[0].severity, IssueSeverity::Warning);
    assert_eq!(no_tests[0].message, "Model 'bare_model' has no tests defined");
    assert!(!result
        .issues
        .iter()
        .any(|i| matches!(i.issue_type, IssueType::UndocumentedColumn)));
}

#[test]
fn test_no_dangling_edges() {
    let (models, sources, sms, metrics) = revenue_fixture();
    let graph = build_graph(&models, &sources, &sms, &metrics);
    for edge in &graph.edges {
        assert!(graph.nodes.iter().any(|n| n.id == edge.source));
        assert!(graph.nodes.iter().any(|n| n.id == edge.target));
    }
}

#[test]
fn test_documentation_coverage_formula() {
    let empty = build_graph(&Vec::new(), &Vec::new(), &Vec::new(), &Vec::new());
    let result = audit(&empty, &Vec::new(), &Vec::new(), &Vec::new(), &Vec::new());
    assert_eq!(result.documentation_coverage.den, 0);
    assert_eq!(result.documentation_coverage.percent_hundredths(), 10000);
    // no metrics at all: completeness is vacuously full too
    assert_eq!(result.completeness_score.percent_hundredths(), 10000);

    let models = vec![
        model("documented_model", Some("has a description"), &[], &[], Vec::new()),
        model("undocumented_model", None, &[], &[], Vec::new()),
    ];
    let graph = build_graph(&models, &Vec::new(), &Vec::new(), &Vec::new());
    let result2 = audit(&graph, &models, &Vec::new(), &Vec::new(), &Vec::new());
    assert_eq!(result2.documentation_coverage.num, 1);
    assert_eq!(result2.documentation_coverage.den, 2);
    assert_eq!(result2.documentation_coverage.percent_hundredths(), 5000);
}

#[test]
fn test_model_coverage_and_summary_counts() {
    let (models2, _, _, _) = revenue_fixture();
    let mut models = models2;
    models.push(model("unused_model", None, &[], &[], Vec::new()));
    let sources = vec![source("raw", "orders", Some("raw order feed"))];
    let sms = vec![semantic_model(
        "orders",
        "stg_orders",
        vec![entity("order_id", "primary")],
        vec![measure("total_amount", "sum"), measure("order_count", "count")],
    )];
    let metrics = vec![simple_metric("revenue", "total_amount")];
    let graph = build_graph(&models, &sources, &sms, &metrics);
    let result = audit(&graph, &models, &sources, &sms, &metrics);

    assert_eq!(result.model_coverage.num, 1);
    assert_eq!(result.model_coverage.den, 2);
    assert_eq!(result.model_coverage.percent_hundredths(), 5000);

    assert_eq!(result.summary.total_metrics, 1);
    assert_eq!(result.summary.total_measures, 2);
    assert_eq!(result.summary.total_models, 2);
    assert_eq!(result.summary.total_sources, 1);
    assert_eq!(result.summary.documented_metrics, 0);
    assert_eq!(result.summary.documented_models, 0);
    assert_eq!(result.summary.tested_models, 1);
    let orphan_issue_count = result
        .issues
        .iter()
        .filter(|i| matches!(i.issue_type, IssueType::OrphanedModel))
        .count();
    assert_eq!(result.summary.orphaned_models, orphan_issue_count);
    assert_eq!(orphan_issue_count, 1);
}

#[test]
fn test_missing_source_reference_is_reported() {
    let models = vec![model(
        "stg_orders",
        None,
        &[],
        &[("raw", "not_there")],
        Vec::new(),
    )];
    let sources = vec![source("raw", "orders", None)];
    let graph = build_graph(&models, &sources, &Vec::new(), &Vec::new());
    let result = audit(&graph, &models, &sources, &Vec::new(), &Vec::new());

    let missing: Vec<_> = result
        .issues
        .iter()
        .filter(|i| matches!(i.issue_type, IssueType::MissingSource))
        .collect();
    assert_eq!(missing.len(), 1);
    assert_eq!(missing[0].severity, IssueSeverity::Error);
    assert_eq!(
        missing[0].message,
        "Model 'stg_orders' references undefined source 'raw.not_there'"
    );
    assert_eq!(
        missing[0].suggestion.as_deref(),
        Some("Define source 'raw.not_there' in a schema.yml file")
    );
}

#[test]
fn test_missing_description_issue_text() {
    let (models, sources, sms, metrics) = revenue_fixture();
    let graph = build_graph(&models, &sources, &sms, &metrics);
    let result = audit(&graph, &models, &sources, &sms, &metrics);
    let descs: Vec<_> = result
        .issues
        .iter()
        .filter(|i| matches!(i.issue_type, IssueType::MissingDescription))
        .collect();
    // all five nodes lack a description
    assert_eq!(descs.len(), 5);
    assert_eq!(descs[0].message, "Source 'orders' is missing a description");
    assert_eq!(descs[0].severity, IssueSeverity::Info);
    assert_eq!(descs[1].message, "Model 'stg_orders' is missing a description");
    assert_eq!(descs[1].severity, IssueSeverity::Warning);
    assert_eq!(descs[4].message, "Metric 'revenue' is missing a description");
    assert_eq!(descs[4].severity, IssueSeverity::Warning);
}

#[test]
fn test_build_twice_is_structurally_equal() {
    let (models, sources, sms, metrics) = revenue_fixture();
    let g1 = build_graph(&models, &sources, &sms, &metrics);
    let g2 = build_graph(&models, &sources, &sms, &metrics);

    assert_eq!(g1.nodes.len(), g2.nodes.len());
    for (a, b) in g1.nodes.iter().zip(g2.nodes.iter()) {
        assert_eq!(a.node_type, b.node_type);
        assert_eq!(a.name, b.name);
        assert_eq!(a.description, b.description);
    }
    assert_eq!(g1.edges.len(), g2.edges.len());
    let pos = |g: &LineageGraph, id: &str| g.nodes.iter().position(|n| n.id == id).unwrap();
    for (a, b) in g1.edges.iter().zip(g2.edges.iter()) {
        assert_eq!(a.edge_type, b.edge_type);
        assert_eq!(a.label, b.label);
        assert_eq!(pos(&g1, &a.source), pos(&g2, &b.source));
        assert_eq!(pos(&g1, &a.target), pos(&g2, &b.target));
    }
}

#[test]
fn test_derived_metric_edges_carry_offset_labels() {
    let (models, sources, sms, mut metrics) = revenue_fixture();
    metrics.push(Metric {
        name: "revenue_growth".to_string(),
        description: None,
        metric_type: "derived".to_string(),
        type_params: MetricTypeParams {
            measure: None,
            expr: Some("revenue / revenue_prev".to_string()),
            metrics: Some(vec![
                lineage_tracer::types::MetricRef {
                    name: "revenue".to_string(),
                    offset_window: None,
                    offset_to_grain: None,
                },
                lineage_tracer::types::MetricRef {
                    name: "revenue".to_string(),
                    offset_window: Some("1 month".to_string()),
                    offset_to_grain: None,
                },
            ]),
            window: None,
            grain_to_date: None,
        },
        filter: None,
        label: None,
    });
    let graph = build_graph(&models, &sources, &sms, &metrics);
    let derived_edges: Vec<_> = graph
        .edges
        .iter()
        .filter(|e| e.edge_type == LineageEdgeType::MetricToMetric)
        .collect();
    assert_eq!(derived_edges.len(), 2);
    assert_eq!(derived_edges[0].label, None);
    assert_eq!(derived_edges[1].label, Some("1 month".to_string()));

    // the derived metric reaches the source through the simple one
    let result = audit(&graph, &models, &sources, &sms, &metrics);
    assert_eq!(result.completeness_score.num, 2);
    assert_eq!(result.completeness_score.den, 2);
}

#[test]
fn test_percent_hundredths_rounding() {
    let s = lineage_tracer::Score { num: 1, den: 3 };
    assert_eq!(s.percent_hundredths(), 3333);
    let full = lineage_tracer::Score { num: 0, den: 0 };
    assert_eq!(full.percent_hundredths(), 10000);
    let zero = lineage_tracer::Score { num: 0, den: 1 };
    assert_eq!(zero.percent_hundredths(), 0);
}

#[test]
fn test_parser_entry_points_keep_their_path() {
    let p = lineage_tracer::parsers::DbtProjectParser::new("/tmp/project".to_string());
    assert_eq!(p.project_path().as_str(), "/tmp/project");
    let s = lineage_tracer::parsers::DbtSemanticLayerParser::new("/tmp/project".to_string());
    assert_eq!(s.project_path().as_str(), "/tmp/project");
    let _ = lineage_tracer::parsers::SnowflakeSemanticLayerParser::new();
}
