//! Core data types: parsed project entities, the lineage graph, and audit results.

use vstd::prelude::*;
use crate::Score;

verus! {

// =============================================================================
// Project configuration
// =============================================================================

pub struct ProjectConfig {
    pub dbt_project_path: String,
    pub semantic_layer_path: Option<String>,
    pub semantic_layer_type: SemanticLayerType,
}

#[derive(Clone, Copy, PartialEq, Eq, Structural, Debug)]
pub enum SemanticLayerType {
    DbtSemanticLayer,
    Snowflake,
    NoSemanticLayer,
}

// =============================================================================
// dbt project types
// =============================================================================

pub struct DbtProject {
    pub name: String,
    pub version: Option<String>,
    pub config_version: Option<i32>,
    pub profile: Option<String>,
    pub model_paths: Vec<String>,
    pub seed_paths: Vec<String>,
    pub test_paths: Vec<String>,
    pub analysis_paths: Vec<String>,
    pub macro_paths: Vec<String>,
    pub target_path: Option<String>,
}

/// An open-ended annotation value attached to a node or a column.
/// Annotations are display-only: no check or traversal reads them.
pub enum MetaValue {
    Text(String),
    Count(usize),
    Flag(bool),
    Items(Vec<String>),
}

pub struct DbtModel {
    pub unique_id: String,
    pub name: String,
    pub schema: Option<String>,
    pub database: Option<String>,
    pub description: Option<String>,
    pub columns: Vec<DbtColumn>,
    pub depends_on: Vec<String>,
    pub refs: Vec<String>,
    pub sources: Vec<DbtSourceRef>,
    pub file_path: String,
    pub raw_sql: Option<String>,
    pub materialization: Option<String>,
    pub tags: Vec<String>,
}

pub struct DbtColumn {
    pub name: String,
    pub description: Option<String>,
    pub data_type: Option<String>,
    pub meta: Vec<(String, MetaValue)>,
    pub tests: Vec<String>,
}

pub struct DbtSource {
    pub unique_id: String,
    pub source_name: String,
    pub name: String,
    pub schema: Option<String>,
    pub database: Option<String>,
    pub description: Option<String>,
    pub columns: Vec<DbtColumn>,
    pub loader: Option<String>,
    pub freshness: Option<DbtFreshness>,
    pub tags: Vec<String>,
}

pub struct DbtSourceRef {
    pub source_name: String,
    pub table_name: String,
}

pub struct DbtFreshness {
    pub warn_after: Option<DbtFreshnessRule>,
    pub error_after: Option<DbtFreshnessRule>,
}

pub struct DbtFreshnessRule {
    pub count: i32,
    pub period: String,
}

// =============================================================================
// Semantic layer types
// =============================================================================

pub struct SemanticModel {
    pub name: String,
    pub description: Option<String>,
    pub model: String,
    pub defaults: Option<SemanticModelDefaults>,
    pub entities: Vec<SemanticEntity>,
    pub measures: Vec<Measure>,
    pub dimensions: Vec<Dimension>,
}

pub struct SemanticModelDefaults {
    pub agg_time_dimension: Option<String>,
}

pub struct SemanticEntity {
    pub name: String,
    pub entity_type: String,
    pub expr: Option<String>,
    pub description: Option<String>,
}

pub struct Measure {
    pub name: String,
    pub agg: String,
    pub expr: Option<String>,
    pub description: Option<String>,
    pub create_metric: Option<bool>,
    pub non_additive_dimension: Option<NonAdditiveDimension>,
}

pub struct NonAdditiveDimension {
    pub name: String,
    pub window_choice: Option<String>,
}

pub struct Dimension {
    pub name: String,
    pub dimension_type: String,
    pub expr: Option<String>,
    pub description: Option<String>,
    pub type_params: Option<DimensionTypeParams>,
}

pub struct DimensionTypeParams {
    pub time_granularity: Option<String>,
    pub validity_params: Option<String>,
}

pub struct Metric {
    pub name: String,
    pub description: Option<String>,
    pub metric_type: String,
    pub type_params: MetricTypeParams,
    pub filter: Option<String>,
    pub label: Option<String>,
}

pub struct MetricTypeParams {
    pub measure: Option<MeasureRef>,
    pub expr: Option<String>,
    pub metrics: Option<Vec<MetricRef>>,
    pub window: Option<String>,
    pub grain_to_date: Option<String>,
}

pub struct MeasureRef {
    pub name: String,
    pub filter: Option<String>,
    pub alias: Option<String>,
}

pub struct MetricRef {
    pub name: String,
    pub offset_window: Option<String>,
    pub offset_to_grain: Option<String>,
}

// =============================================================================
// Snowflake semantic layer types
// =============================================================================

pub struct SnowflakeSemanticLayer {
    pub tables: Vec<SnowflakeTable>,
    pub metrics: Vec<SnowflakeMetric>,
    pub dimensions: Vec<SnowflakeDimension>,
}

pub struct SnowflakeTable {
    pub name: String,
    pub database: String,
    pub schema: String,
    pub table_name: String,
    pub description: Option<String>,
}

pub struct SnowflakeMetric {
    pub name: String,
    pub table: String,
    pub expression: String,
    pub description: Option<String>,
    pub label: Option<String>,
}

pub struct SnowflakeDimension {
    pub name: String,
    pub table: String,
    pub expression: String,
    pub description: Option<String>,
    pub dimension_type: Option<String>,
}

// =============================================================================
// Lineage graph types
// =============================================================================

#[derive(Clone, Copy, PartialEq, Eq, Structural, Debug)]
pub enum LineageNodeType {
    Metric,
    Measure,
    Dimension,
    Entity,
    Model,
    Source,
}

pub struct LineageNode {
    pub id: String,
    pub node_type: LineageNodeType,
    pub name: String,
    pub description: Option<String>,
    pub metadata: Vec<(String, MetaValue)>,
}

#[derive(Clone, Copy, PartialEq, Eq, Structural, Debug)]
pub enum LineageEdgeType {
    MetricToMeasure,
    MeasureToEntity,
    EntityToModel,
    ModelToModel,
    ModelToSource,
    DimensionToEntity,
    MetricToMetric,
}

pub struct LineageEdge {
    pub id: String,
    pub source: String,
    pub target: String,
    pub edge_type: LineageEdgeType,
    pub label: Option<String>,
}

pub struct LineageGraph {
    pub nodes: Vec<LineageNode>,
    pub edges: Vec<LineageEdge>,
}

// =============================================================================
// Audit types
// =============================================================================

pub struct AuditResult {
    pub completeness_score: Score,
    pub documentation_coverage: Score,
    pub model_coverage: Score,
    pub issues: Vec<AuditIssue>,
    pub summary: AuditSummary,
}

pub struct AuditIssue {
    pub severity: IssueSeverity,
    pub issue_type: IssueType,
    pub message: String,
    pub node_id: Option<String>,
    pub suggestion: Option<String>,
}

#[derive(Clone, Copy, PartialEq, Eq, Structural, Debug)]
pub enum IssueSeverity {
    Error,
    Warning,
    Info,
}

#[derive(Clone, Copy, PartialEq, Eq, Structural, Debug)]
pub enum IssueType {
    MissingDescription,
    OrphanedModel,
    OrphanedMetric,
    MissingSource,
    CircularDependency,
    MissingMeasure,
    UndocumentedColumn,
    NoTests,
}

#[derive(Clone, Copy, PartialEq, Eq, Structural, Debug)]
pub struct AuditSummary {
    pub total_metrics: usize,
    pub total_measures: usize,
    pub total_models: usize,
    pub total_sources: usize,
    pub documented_metrics: usize,
    pub documented_models: usize,
    pub tested_models: usize,
    pub orphaned_models: usize,
}

// =============================================================================
// Combined pipeline result
// =============================================================================

pub struct ParseResult {
    pub success: bool,
    pub dbt_project: Option<DbtProject>,
    pub models: Vec<DbtModel>,
    pub sources: Vec<DbtSource>,
    pub semantic_models: Vec<SemanticModel>,
    pub metrics: Vec<Metric>,
    pub lineage: LineageGraph,
    pub audit: AuditResult,
    pub errors: Vec<String>,
    pub warnings: Vec<String>,
}

impl Default for ParseResult {
    /// An empty result: nothing parsed, an empty graph, and zeroed scores.
    fn default() -> (r: Self)
        ensures
            r.success == false,
            r.dbt_project is None,
            r.models@.len() == 0,
            r.sources@.len() == 0,
            r.semantic_models@.len() == 0,
            r.metrics@.len() == 0,
            r.lineage.nodes@.len() == 0,
            r.lineage.edges@.len() == 0,
            r.audit.completeness_score == (Score { num: 0, den: 1 }),
            r.audit.documentation_coverage == (Score { num: 0, den: 1 }),
            r.audit.model_coverage == (Score { num: 0, den: 1 }),
            r.audit.issues@.len() == 0,
            r.audit.summary == (AuditSummary {
                total_metrics: 0,
                total_measures: 0,
                total_models: 0,
                total_sources: 0,
                documented_metrics: 0,
                documented_models: 0,
                tested_models: 0,
                orphaned_models: 0,
            }),
            r.errors@.len() == 0,
            r.warnings@.len() == 0,
    {
        ParseResult {
            success: false,
            dbt_project: None,
            models: Vec::new(),
            sources: Vec::new(),
            semantic_models: Vec::new(),
            metrics: Vec::new(),
            lineage: LineageGraph { nodes: Vec::new(), edges: Vec::new() },
            audit: AuditResult {
                completeness_score: Score { num: 0, den: 1 },
                documentation_coverage: Score { num: 0, den: 1 },
                model_coverage: Score { num: 0, den: 1 },
                issues: Vec::new(),
                summary: AuditSummary {
                    total_metrics: 0,
                    total_measures: 0,
                    total_models: 0,
                    total_sources: 0,
                    documented_metrics: 0,
                    documented_models: 0,
                    tested_models: 0,
                    orphaned_models: 0,
                },
            },
            errors: Vec::new(),
            warnings: Vec::new(),
        }
    }
}

} // verus!
