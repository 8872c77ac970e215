//! Audit analysis over a built lineage graph and the raw entity lists.
//!
//! Six checks produce issues in a fixed order, and three scores grade
//! completeness, documentation and semantic-layer coverage.  Every
//! check is specified as a fold over the entity or node sequence it
//! examines, so the issue list is pinned down exactly — message texts,
//! severities and node references included.

use vstd::prelude::*;
use vstd::string::*;
use crate::Score;
use crate::reach::{contains_view, pair_views, reach_ids, reaches};
use crate::types::{
    AuditIssue, AuditResult, AuditSummary, DbtModel, DbtSource, IssueSeverity, IssueType,
    LineageEdge, LineageGraph, LineageNode, LineageNodeType, Metric, SemanticModel,
};

verus! {

pub struct LineageAnalyzer;

/// The view of an audit issue: everything it carries, over character
/// sequences.
pub ghost struct IssueV {
    pub severity: IssueSeverity,
    pub issue_type: IssueType,
    pub message: Seq<char>,
    pub node_id: Option<Seq<char>>,
    pub suggestion: Option<Seq<char>>,
}

pub open spec fn issue_v(i: AuditIssue) -> IssueV {
    IssueV {
        severity: i.severity,
        issue_type: i.issue_type,
        message: i.message@,
        node_id: crate::graph::opt_view(i.node_id),
        suggestion: crate::graph::opt_view(i.suggestion),
    }
}

pub open spec fn issue_views(issues: Seq<AuditIssue>) -> Seq<IssueV> {
    issues.map_values(|x: AuditIssue| issue_v(x))
}

/// The display name of a node type.
pub open spec fn node_type_name(t: LineageNodeType) -> Seq<char> {
    match t {
        LineageNodeType::Metric => "Metric"@,
        LineageNodeType::Measure => "Measure"@,
        LineageNodeType::Dimension => "Dimension"@,
        LineageNodeType::Entity => "Entity"@,
        LineageNodeType::Model => "Model"@,
        LineageNodeType::Source => "Source"@,
    }
}

fn node_type_label(t: LineageNodeType) -> (r: String)
    ensures
        r@ == node_type_name(t),
{
    match t {
        LineageNodeType::Metric => String::from_str("Metric"),
        LineageNodeType::Measure => String::from_str("Measure"),
        LineageNodeType::Dimension => String::from_str("Dimension"),
        LineageNodeType::Entity => String::from_str("Entity"),
        LineageNodeType::Model => String::from_str("Model"),
        LineageNodeType::Source => String::from_str("Source"),
    }
}

// =============================================================================
// Check: missing descriptions
// =============================================================================

pub open spec fn missing_desc_issue(n: LineageNode) -> IssueV {
    IssueV {
        severity: if n.node_type == LineageNodeType::Metric || n.node_type
            == LineageNodeType::Model {
            IssueSeverity::Warning
        } else {
            IssueSeverity::Info
        },
        issue_type: IssueType::MissingDescription,
        message: node_type_name(n.node_type) + " '"@ + n.name@ + "' is missing a description"@,
        node_id: Option::Some(n.id@),
        suggestion: Option::Some(
            "Add a description to help users understand what '"@ + n.name@ + "' represents"@,
        ),
    }
}

/// One issue per node without a description, in node order.
pub open spec fn missing_desc_issues(nodes: Seq<LineageNode>, i: int) -> Seq<IssueV>
    decreases i,
{
    if i <= 0 {
        Seq::empty()
    } else {
        missing_desc_issues(nodes, i - 1) + (if nodes[i - 1].description is None {
            seq![missing_desc_issue(nodes[i - 1])]
        } else {
            Seq::empty()
        })
    }
}

impl LineageAnalyzer {
    pub fn new() -> Self {
        LineageAnalyzer
    }

    fn check_missing_descriptions(&self, graph: &LineageGraph) -> (r: Vec<AuditIssue>)
        ensures
            issue_views(r@) == missing_desc_issues(graph.nodes@, graph.nodes@.len() as int),
    {
        let mut out: Vec<AuditIssue> = Vec::new();
        let mut i: usize = 0;
        while i < graph.nodes.len()
            invariant
                0 <= i <= graph.nodes@.len(),
                issue_views(out@) == missing_desc_issues(graph.nodes@, i as int),
            decreases graph.nodes@.len() - i,
        {
            let n = &graph.nodes[i];
            match &n.description {
                None => {
                    let severity = match n.node_type {
                        LineageNodeType::Metric => IssueSeverity::Warning,
                        LineageNodeType::Model => IssueSeverity::Warning,
                        _ => IssueSeverity::Info,
                    };
                    let msg = node_type_label(n.node_type).concat(" '").concat(
                        n.name.as_str(),
                    ).concat("' is missing a description");
                    let sugg = String::from_str(
                        "Add a description to help users understand what '",
                    ).concat(n.name.as_str()).concat("' represents");
                    let issue = AuditIssue {
                        severity,
                        issue_type: IssueType::MissingDescription,
                        message: msg,
                        node_id: Some(n.id.clone()),
                        suggestion: Some(sugg),
                    };
                    proof {
                        assert(issue_v(issue) == missing_desc_issue(graph.nodes@[i as int]));
                    }
                    out.push(issue);
                },
                Some(_) => {},
            }
            proof {
                assert(issue_views(out@) =~= missing_desc_issues(graph.nodes@, i as int + 1));
            }
            i = i + 1;
        }
        out
    }
}

impl Default for LineageAnalyzer {
    fn default() -> Self {
        Self::new()
    }
}

} // verus!

verus! {

// =============================================================================
// Check: orphaned models
// =============================================================================

/// Node `i` is the first Model-typed node carrying the id `id`.
pub open spec fn is_first_model_with_id(nodes: Seq<LineageNode>, id: Seq<char>, i: int) -> bool {
    &&& 0 <= i < nodes.len()
    &&& nodes[i].id@ == id
    &&& nodes[i].node_type == LineageNodeType::Model
    &&& forall|k: int|
        0 <= k < i ==> !((#[trigger] nodes[k]).id@ == id && nodes[k].node_type
            == LineageNodeType::Model)
}

pub proof fn lemma_first_model_with_id_unique(
    nodes: Seq<LineageNode>,
    id: Seq<char>,
    i: int,
    j: int,
)
    requires
        is_first_model_with_id(nodes, id, i),
        is_first_model_with_id(nodes, id, j),
    ensures
        i == j,
{
    if i < j {
        assert(!(nodes[i].id@ == id && nodes[i].node_type == LineageNodeType::Model));
    }
    if j < i {
        assert(!(nodes[j].id@ == id && nodes[j].node_type == LineageNodeType::Model));
    }
}

/// Node `i` is the first Model-typed node named `name`.
pub open spec fn is_first_model_with_name(
    nodes: Seq<LineageNode>,
    name: Seq<char>,
    i: int,
) -> bool {
    &&& 0 <= i < nodes.len()
    &&& nodes[i].name@ == name
    &&& nodes[i].node_type == LineageNodeType::Model
    &&& forall|k: int|
        0 <= k < i ==> !((#[trigger] nodes[k]).name@ == name && nodes[k].node_type
            == LineageNodeType::Model)
}

pub proof fn lemma_first_model_with_name_unique(
    nodes: Seq<LineageNode>,
    name: Seq<char>,
    i: int,
    j: int,
)
    requires
        is_first_model_with_name(nodes, name, i),
        is_first_model_with_name(nodes, name, j),
    ensures
        i == j,
{
    if i < j {
        assert(!(nodes[i].name@ == name && nodes[i].node_type == LineageNodeType::Model));
    }
    if j < i {
        assert(!(nodes[j].name@ == name && nodes[j].node_type == LineageNodeType::Model));
    }
}

/// Some edge points at a Model node named `name` (going by the first
/// node that carries the edge's target id).
pub open spec fn model_referenced(g: LineageGraph, name: Seq<char>) -> bool {
    exists|j: int, i: int|
        #![trigger g.edges@[j], g.nodes@[i]]
        0 <= j < g.edges@.len() && is_first_model_with_id(g.nodes@, g.edges@[j].target@, i)
            && g.nodes@[i].name@ == name
}

/// The node reference attached to an orphaned-model issue: the first
/// Model node with the model's name, if the graph holds one.
pub open spec fn model_node_ref(g: LineageGraph, name: Seq<char>) -> Option<Seq<char>> {
    if exists|i: int| is_first_model_with_name(g.nodes@, name, i) {
        Option::Some(g.nodes@[choose|i: int| is_first_model_with_name(g.nodes@, name, i)].id@)
    } else {
        Option::None
    }
}

pub open spec fn orphaned_model_issue(g: LineageGraph, m: DbtModel) -> IssueV {
    IssueV {
        severity: IssueSeverity::Info,
        issue_type: IssueType::OrphanedModel,
        message: "Model '"@ + m.name@ + "' is not used by any semantic model or other model"@,
        node_id: model_node_ref(g, m.name@),
        suggestion: Option::Some(
            "Consider removing unused models or documenting their purpose"@,
        ),
    }
}

/// One issue per model that no edge-referenced Model node is named
/// after, in model order.
pub open spec fn orphaned_model_issues(g: LineageGraph, models: Seq<DbtModel>, i: int) -> Seq<
    IssueV,
>
    decreases i,
{
    if i <= 0 {
        Seq::empty()
    } else {
        orphaned_model_issues(g, models, i - 1) + (if !model_referenced(g, models[i - 1].name@) {
            seq![orphaned_model_issue(g, models[i - 1])]
        } else {
            Seq::empty()
        })
    }
}

/// The first Model-typed node carrying the given id, if any.
fn find_first_model_by_id(nodes: &Vec<LineageNode>, id: &String) -> (r: Option<usize>)
    ensures
        match r {
            Option::Some(i) => is_first_model_with_id(nodes@, id@, i as int),
            Option::None => forall|k: int|
                0 <= k < nodes@.len() ==> !((#[trigger] nodes@[k]).id@ == id@
                    && nodes@[k].node_type == LineageNodeType::Model),
        },
{
    let mut i: usize = 0;
    while i < nodes.len()
        invariant
            0 <= i <= nodes@.len(),
            forall|k: int|
                0 <= k < i ==> !((#[trigger] nodes@[k]).id@ == id@ && nodes@[k].node_type
                    == LineageNodeType::Model),
        decreases nodes@.len() - i,
    {
        let matches_model = match nodes[i].node_type {
            LineageNodeType::Model => true,
            _ => false,
        };
        if matches_model && nodes[i].id == *id {
            return Some(i);
        }
        i = i + 1;
    }
    None
}

/// The first Model-typed node with the given name, if any.
fn find_first_model_by_name(nodes: &Vec<LineageNode>, name: &String) -> (r: Option<usize>)
    ensures
        match r {
            Option::Some(i) => is_first_model_with_name(nodes@, name@, i as int),
            Option::None => forall|k: int|
                0 <= k < nodes@.len() ==> !((#[trigger] nodes@[k]).name@ == name@
                    && nodes@[k].node_type == LineageNodeType::Model),
        },
{
    let mut i: usize = 0;
    while i < nodes.len()
        invariant
            0 <= i <= nodes@.len(),
            forall|k: int|
                0 <= k < i ==> !((#[trigger] nodes@[k]).name@ == name@ && nodes@[k].node_type
                    == LineageNodeType::Model),
        decreases nodes@.len() - i,
    {
        let matches_model = match nodes[i].node_type {
            LineageNodeType::Model => true,
            _ => false,
        };
        if matches_model && nodes[i].name == *name {
            return Some(i);
        }
        i = i + 1;
    }
    None
}

/// Whether any edge references a Model node named `name`.
fn is_model_referenced_exec(graph: &LineageGraph, name: &String) -> (r: bool)
    ensures
        r == model_referenced(*graph, name@),
{
    let mut j: usize = 0;
    while j < graph.edges.len()
        invariant
            0 <= j <= graph.edges@.len(),
            forall|jj: int, i: int|
                #![trigger graph.edges@[jj], graph.nodes@[i]]
                0 <= jj < j ==> !(is_first_model_with_id(graph.nodes@, graph.edges@[jj].target@, i)
                    && graph.nodes@[i].name@ == name@),
        decreases graph.edges@.len() - j,
    {
        match find_first_model_by_id(&graph.nodes, &graph.edges[j].target) {
            Some(i) => {
                if graph.nodes[i].name == *name {
                    proof {
                        assert(0 <= j < graph.edges@.len() && is_first_model_with_id(
                            graph.nodes@,
                            graph.edges@[j as int].target@,
                            i as int,
                        ) && graph.nodes@[i as int].name@ == name@);
                    }
                    return true;
                }
                proof {
                    assert forall|ii: int|
                        !(is_first_model_with_id(
                            graph.nodes@,
                            graph.edges@[j as int].target@,
                            ii,
                        ) && graph.nodes@[ii].name@ == name@) by {
                        if is_first_model_with_id(
                            graph.nodes@,
                            graph.edges@[j as int].target@,
                            ii,
                        ) {
                            lemma_first_model_with_id_unique(
                                graph.nodes@,
                                graph.edges@[j as int].target@,
                                ii,
                                i as int,
                            );
                        }
                    }
                }
            },
            None => {
                proof {
                    assert forall|ii: int|
                        !(is_first_model_with_id(
                            graph.nodes@,
                            graph.edges@[j as int].target@,
                            ii,
                        ) && graph.nodes@[ii].name@ == name@) by {
                        if is_first_model_with_id(graph.nodes@, graph.edges@[j as int].target@, ii) {
                            assert(graph.nodes@[ii].id@ == graph.edges@[j as int].target@
                                && graph.nodes@[ii].node_type == LineageNodeType::Model);
                        }
                    }
                }
            },
        }
        j = j + 1;
    }
    false
}

impl LineageAnalyzer {
    fn check_orphaned_models(&self, graph: &LineageGraph, models: &Vec<DbtModel>) -> (r: Vec<
        AuditIssue,
    >)
        ensures
            issue_views(r@) == orphaned_model_issues(*graph, models@, models@.len() as int),
    {
        let mut out: Vec<AuditIssue> = Vec::new();
        let mut i: usize = 0;
        while i < models.len()
            invariant
                0 <= i <= models@.len(),
                issue_views(out@) == orphaned_model_issues(*graph, models@, i as int),
            decreases models@.len() - i,
        {
            let m = &models[i];
            if !is_model_referenced_exec(graph, &m.name) {
                let msg = String::from_str("Model '").concat(m.name.as_str()).concat(
                    "' is not used by any semantic model or other model",
                );
                let node_id = match find_first_model_by_name(&graph.nodes, &m.name) {
                    Some(ni) => {
                        proof {
                            let ci = choose|k: int|
                                is_first_model_with_name(graph.nodes@, m.name@, k);
                            lemma_first_model_with_name_unique(
                                graph.nodes@,
                                m.name@,
                                ni as int,
                                ci,
                            );
                        }
                        Some(graph.nodes[ni].id.clone())
                    },
                    None => {
                        proof {
                            if exists|k: int| is_first_model_with_name(graph.nodes@, m.name@, k) {
                                let ci = choose|k: int|
                                    is_first_model_with_name(graph.nodes@, m.name@, k);
                                assert(!(graph.nodes@[ci].name@ == m.name@
                                    && graph.nodes@[ci].node_type == LineageNodeType::Model));
                            }
                        }
                        None
                    },
                };
                let issue = AuditIssue {
                    severity: IssueSeverity::Info,
                    issue_type: IssueType::OrphanedModel,
                    message: msg,
                    node_id,
                    suggestion: Some(String::from_str(
                        "Consider removing unused models or documenting their purpose",
                    )),
                };
                proof {
                    assert(issue_v(issue) == orphaned_model_issue(*graph, models@[i as int]));
                }
                out.push(issue);
            }
            proof {
                assert(issue_views(out@) =~= orphaned_model_issues(
                    *graph,
                    models@,
                    i as int + 1,
                ));
            }
            i = i + 1;
        }
        out
    }
}

} // verus!

verus! {

// =============================================================================
// Check: orphaned metrics
// =============================================================================

/// Some edge leaves the node with id `id`.
pub open spec fn has_outgoing(edges: Seq<LineageEdge>, id: Seq<char>) -> bool {
    exists|j: int| 0 <= j < edges.len() && (#[trigger] edges[j]).source@ == id
}

pub open spec fn orphaned_metric_issue(n: LineageNode) -> IssueV {
    IssueV {
        severity: IssueSeverity::Error,
        issue_type: IssueType::OrphanedMetric,
        message: "Metric '"@ + n.name@ + "' has no connection to any measure"@,
        node_id: Option::Some(n.id@),
        suggestion: Option::Some(
            "Check the metric definition - it may be missing a measure reference"@,
        ),
    }
}

/// One Error issue per Metric node without outgoing edges, in node order.
pub open spec fn orphaned_metric_issues(g: LineageGraph, i: int) -> Seq<IssueV>
    decreases i,
{
    if i <= 0 {
        Seq::empty()
    } else {
        orphaned_metric_issues(g, i - 1) + (if g.nodes@[i - 1].node_type == LineageNodeType::Metric
            && !has_outgoing(g.edges@, g.nodes@[i - 1].id@) {
            seq![orphaned_metric_issue(g.nodes@[i - 1])]
        } else {
            Seq::empty()
        })
    }
}

/// Whether any edge leaves the given id.
fn has_outgoing_exec(edges: &Vec<LineageEdge>, id: &String) -> (r: bool)
    ensures
        r == has_outgoing(edges@, id@),
{
    let mut j: usize = 0;
    while j < edges.len()
        invariant
            0 <= j <= edges@.len(),
            forall|jj: int| 0 <= jj < j ==> (#[trigger] edges@[jj]).source@ != id@,
        decreases edges@.len() - j,
    {
        if edges[j].source == *id {
            return true;
        }
        j = j + 1;
    }
    false
}

// =============================================================================
// Check: missing sources
// =============================================================================

/// Some parsed source table carries the referenced group and table names.
pub open spec fn source_defined(
    sources: Seq<DbtSource>,
    group: Seq<char>,
    table: Seq<char>,
) -> bool {
    exists|i: int|
        0 <= i < sources.len() && (#[trigger] sources[i]).source_name@ == group
            && sources[i].name@ == table
}

pub open spec fn missing_source_issue(m: DbtModel, group: Seq<char>, table: Seq<char>) -> IssueV {
    IssueV {
        severity: IssueSeverity::Error,
        issue_type: IssueType::MissingSource,
        message: "Model '"@ + m.name@ + "' references undefined source '"@ + group + "."@ + table
            + "'"@,
        node_id: Option::None,
        suggestion: Option::Some(
            "Define source '"@ + group + "."@ + table + "' in a schema.yml file"@,
        ),
    }
}

/// Issues for the first `j` source references of one model.
pub open spec fn missing_source_issues_for(
    m: DbtModel,
    sources: Seq<DbtSource>,
    j: int,
) -> Seq<IssueV>
    decreases j,
{
    if j <= 0 {
        Seq::empty()
    } else {
        missing_source_issues_for(m, sources, j - 1) + (if !source_defined(
            sources,
            m.sources@[j - 1].source_name@,
            m.sources@[j - 1].table_name@,
        ) {
            seq![
                missing_source_issue(
                    m,
                    m.sources@[j - 1].source_name@,
                    m.sources@[j - 1].table_name@,
                ),
            ]
        } else {
            Seq::empty()
        })
    }
}

/// One Error issue per unresolvable source reference, model by model.
pub open spec fn missing_source_issues(
    models: Seq<DbtModel>,
    sources: Seq<DbtSource>,
    i: int,
) -> Seq<IssueV>
    decreases i,
{
    if i <= 0 {
        Seq::empty()
    } else {
        missing_source_issues(models, sources, i - 1) + missing_source_issues_for(
            models[i - 1],
            sources,
            models[i - 1].sources@.len() as int,
        )
    }
}

/// Whether the parsed sources hold the given group and table pair.
fn source_defined_exec(sources: &Vec<DbtSource>, group: &String, table: &String) -> (r: bool)
    ensures
        r == source_defined(sources@, group@, table@),
{
    let mut i: usize = 0;
    while i < sources.len()
        invariant
            0 <= i <= sources@.len(),
            forall|k: int|
                0 <= k < i ==> !((#[trigger] sources@[k]).source_name@ == group@
                    && sources@[k].name@ == table@),
        decreases sources@.len() - i,
    {
        if sources[i].source_name == *group && sources[i].name == *table {
            return true;
        }
        i = i + 1;
    }
    false
}

// =============================================================================
// Check: undocumented columns
// =============================================================================

pub open spec fn undocumented_col_issue(m: DbtModel, col_name: Seq<char>) -> IssueV {
    IssueV {
        severity: IssueSeverity::Info,
        issue_type: IssueType::UndocumentedColumn,
        message: "Column '"@ + col_name + "' in model '"@ + m.name@ + "' is not documented"@,
        node_id: Option::None,
        suggestion: Option::Some(
            "Add a description to help users understand this column"@,
        ),
    }
}

/// Issues for the first `j` columns of one model.
pub open spec fn undocumented_col_issues_for(m: DbtModel, j: int) -> Seq<IssueV>
    decreases j,
{
    if j <= 0 {
        Seq::empty()
    } else {
        undocumented_col_issues_for(m, j - 1) + (if m.columns@[j - 1].description is None {
            seq![undocumented_col_issue(m, m.columns@[j - 1].name@)]
        } else {
            Seq::empty()
        })
    }
}

/// One Info issue per column without a description, model by model.
pub open spec fn undocumented_col_issues(models: Seq<DbtModel>, i: int) -> Seq<IssueV>
    decreases i,
{
    if i <= 0 {
        Seq::empty()
    } else {
        undocumented_col_issues(models, i - 1) + undocumented_col_issues_for(
            models[i - 1],
            models[i - 1].columns@.len() as int,
        )
    }
}

// =============================================================================
// Check: models without tests
// =============================================================================

/// Every column's test list is empty — vacuously true for a model
/// without columns.
pub open spec fn model_untested(m: DbtModel) -> bool {
    forall|k: int| 0 <= k < m.columns@.len() ==> (#[trigger] m.columns@[k]).tests@.len() == 0
}

pub open spec fn no_tests_issue(m: DbtModel) -> IssueV {
    IssueV {
        severity: IssueSeverity::Warning,
        issue_type: IssueType::NoTests,
        message: "Model '"@ + m.name@ + "' has no tests defined"@,
        node_id: Option::None,
        suggestion: Option::Some(
            "Add tests for key columns (unique, not_null, accepted_values)"@,
        ),
    }
}

/// One Warning issue per model whose columns carry no tests at all.
pub open spec fn no_tests_issues(models: Seq<DbtModel>, i: int) -> Seq<IssueV>
    decreases i,
{
    if i <= 0 {
        Seq::empty()
    } else {
        no_tests_issues(models, i - 1) + (if model_untested(models[i - 1]) {
            seq![no_tests_issue(models[i - 1])]
        } else {
            Seq::empty()
        })
    }
}

fn model_untested_exec(m: &DbtModel) -> (r: bool)
    ensures
        r == model_untested(*m),
{
    let mut k: usize = 0;
    while k < m.columns.len()
        invariant
            0 <= k <= m.columns@.len(),
            forall|kk: int| 0 <= kk < k ==> (#[trigger] m.columns@[kk]).tests@.len() == 0,
        decreases m.columns@.len() - k,
    {
        if m.columns[k].tests.len() > 0 {
            return false;
        }
        k = k + 1;
    }
    true
}

impl LineageAnalyzer {
    fn check_orphaned_metrics(&self, graph: &LineageGraph, metrics: &Vec<Metric>) -> (r: Vec<
        AuditIssue,
    >)
        ensures
            issue_views(r@) == orphaned_metric_issues(*graph, graph.nodes@.len() as int),
    {
        let mut out: Vec<AuditIssue> = Vec::new();
        let mut i: usize = 0;
        while i < graph.nodes.len()
            invariant
                0 <= i <= graph.nodes@.len(),
                issue_views(out@) == orphaned_metric_issues(*graph, i as int),
            decreases graph.nodes@.len() - i,
        {
            let n = &graph.nodes[i];
            let is_metric = match n.node_type {
                LineageNodeType::Metric => true,
                _ => false,
            };
            if is_metric && !has_outgoing_exec(&graph.edges, &n.id) {
                let msg = String::from_str("Metric '").concat(n.name.as_str()).concat(
                    "' has no connection to any measure",
                );
                let issue = AuditIssue {
                    severity: IssueSeverity::Error,
                    issue_type: IssueType::OrphanedMetric,
                    message: msg,
                    node_id: Some(n.id.clone()),
                    suggestion: Some(String::from_str(
                        "Check the metric definition - it may be missing a measure reference",
                    )),
                };
                proof {
                    assert(issue_v(issue) == orphaned_metric_issue(graph.nodes@[i as int]));
                }
                out.push(issue);
            }
            proof {
                assert(issue_views(out@) =~= orphaned_metric_issues(*graph, i as int + 1));
            }
            i = i + 1;
        }
        out
    }

    fn check_missing_sources(&self, models: &Vec<DbtModel>, sources: &Vec<DbtSource>) -> (r: Vec<
        AuditIssue,
    >)
        ensures
            issue_views(r@) == missing_source_issues(models@, sources@, models@.len() as int),
    {
        let mut out: Vec<AuditIssue> = Vec::new();
        let mut i: usize = 0;
        while i < models.len()
            invariant
                0 <= i <= models@.len(),
                issue_views(out@) == missing_source_issues(models@, sources@, i as int),
            decreases models@.len() - i,
        {
            let m = &models[i];
            let mut j: usize = 0;
            while j < m.sources.len()
                invariant
                    0 <= j <= m.sources@.len(),
                    m == &models@[i as int],
                    0 <= i < models@.len(),
                    issue_views(out@) == missing_source_issues(models@, sources@, i as int)
                        + missing_source_issues_for(models@[i as int], sources@, j as int),
                decreases m.sources@.len() - j,
            {
                let ghost prev_out = out@;
                let sref = &m.sources[j];
                if !source_defined_exec(sources, &sref.source_name, &sref.table_name) {
                    let msg = String::from_str("Model '").concat(m.name.as_str()).concat(
                        "' references undefined source '",
                    ).concat(sref.source_name.as_str()).concat(".").concat(
                        sref.table_name.as_str(),
                    ).concat("'");
                    let sugg = String::from_str("Define source '").concat(
                        sref.source_name.as_str(),
                    ).concat(".").concat(sref.table_name.as_str()).concat(
                        "' in a schema.yml file",
                    );
                    let issue = AuditIssue {
                        severity: IssueSeverity::Error,
                        issue_type: IssueType::MissingSource,
                        message: msg,
                        node_id: None,
                        suggestion: Some(sugg),
                    };
                    proof {
                        assert(issue_v(issue) == missing_source_issue(
                            models@[i as int],
                            models@[i as int].sources@[j as int].source_name@,
                            models@[i as int].sources@[j as int].table_name@,
                        ));
                    }
                    out.push(issue);
                }
                proof {
                    let mm = models@[i as int];
                    let grp = mm.sources@[j as int].source_name@;
                    let tbl = mm.sources@[j as int].table_name@;
                    let delta = if !source_defined(sources@, grp, tbl) {
                        seq![missing_source_issue(mm, grp, tbl)]
                    } else {
                        Seq::<IssueV>::empty()
                    };
                    let outer = missing_source_issues(models@, sources@, i as int);
                    let inner = missing_source_issues_for(mm, sources@, j as int);
                    assert(missing_source_issues_for(mm, sources@, j as int + 1)
                        == inner + delta);
                    assert(issue_views(out@) =~= issue_views(prev_out) + delta);
                    assert((outer + inner) + delta =~= outer + (inner + delta));
                    assert(issue_views(out@) == outer + missing_source_issues_for(
                        mm,
                        sources@,
                        j as int + 1,
                    ));
                }
                j = j + 1;
            }
            proof {
                assert(issue_views(out@) =~= missing_source_issues(
                    models@,
                    sources@,
                    i as int + 1,
                ));
            }
            i = i + 1;
        }
        out
    }

    fn check_undocumented_columns(&self, models: &Vec<DbtModel>) -> (r: Vec<AuditIssue>)
        ensures
            issue_views(r@) == undocumented_col_issues(models@, models@.len() as int),
    {
        let mut out: Vec<AuditIssue> = Vec::new();
        let mut i: usize = 0;
        while i < models.len()
            invariant
                0 <= i <= models@.len(),
                issue_views(out@) == undocumented_col_issues(models@, i as int),
            decreases models@.len() - i,
        {
            let m = &models[i];
            let mut j: usize = 0;
            while j < m.columns.len()
                invariant
                    0 <= j <= m.columns@.len(),
                    m == &models@[i as int],
                    0 <= i < models@.len(),
                    issue_views(out@) == undocumented_col_issues(models@, i as int)
                        + undocumented_col_issues_for(models@[i as int], j as int),
                decreases m.columns@.len() - j,
            {
                let ghost prev_out = out@;
                let col = &m.columns[j];
                match &col.description {
                    None => {
                        let msg = String::from_str("Column '").concat(col.name.as_str()).concat(
                            "' in model '",
                        ).concat(m.name.as_str()).concat("' is not documented");
                        let issue = AuditIssue {
                            severity: IssueSeverity::Info,
                            issue_type: IssueType::UndocumentedColumn,
                            message: msg,
                            node_id: None,
                            suggestion: Some(String::from_str(
                                "Add a description to help users understand this column",
                            )),
                        };
                        proof {
                            assert(issue_v(issue) == undocumented_col_issue(
                                models@[i as int],
                                models@[i as int].columns@[j as int].name@,
                            ));
                        }
                        out.push(issue);
                    },
                    Some(_) => {},
                }
                proof {
                    let mm = models@[i as int];
                    let delta = if mm.columns@[j as int].description is None {
                        seq![undocumented_col_issue(mm, mm.columns@[j as int].name@)]
                    } else {
                        Seq::<IssueV>::empty()
                    };
                    let outer = undocumented_col_issues(models@, i as int);
                    let inner = undocumented_col_issues_for(mm, j as int);
                    assert(undocumented_col_issues_for(mm, j as int + 1) == inner + delta);
                    assert(issue_views(out@) =~= issue_views(prev_out) + delta);
                    assert((outer + inner) + delta =~= outer + (inner + delta));
                    assert(issue_views(out@) == outer + undocumented_col_issues_for(
                        mm,
                        j as int + 1,
                    ));
                }
                j = j + 1;
            }
            proof {
                assert(issue_views(out@) =~= undocumented_col_issues(models@, i as int + 1));
            }
            i = i + 1;
        }
        out
    }

    fn check_models_without_tests(&self, models: &Vec<DbtModel>) -> (r: Vec<AuditIssue>)
        ensures
            issue_views(r@) == no_tests_issues(models@, models@.len() as int),
    {
        let mut out: Vec<AuditIssue> = Vec::new();
        let mut i: usize = 0;
        while i < models.len()
            invariant
                0 <= i <= models@.len(),
                issue_views(out@) == no_tests_issues(models@, i as int),
            decreases models@.len() - i,
        {
            let m = &models[i];
            if model_untested_exec(m) {
                let msg = String::from_str("Model '").concat(m.name.as_str()).concat(
                    "' has no tests defined",
                );
                let issue = AuditIssue {
                    severity: IssueSeverity::Warning,
                    issue_type: IssueType::NoTests,
                    message: msg,
                    node_id: None,
                    suggestion: Some(String::from_str(
                        "Add tests for key columns (unique, not_null, accepted_values)",
                    )),
                };
                proof {
                    assert(issue_v(issue) == no_tests_issue(models@[i as int]));
                }
                out.push(issue);
            }
            proof {
                assert(issue_views(out@) =~= no_tests_issues(models@, i as int + 1));
            }
            i = i + 1;
        }
        out
    }
}

} // verus!

verus! {

// =============================================================================
// Summary counts
// =============================================================================

/// Measures declared across the first `i` semantic models.
pub open spec fn count_measures(sms: Seq<SemanticModel>, i: int) -> int
    decreases i,
{
    if i <= 0 {
        0
    } else {
        count_measures(sms, i - 1) + sms[i - 1].measures@.len()
    }
}

pub proof fn lemma_count_measures_mono(sms: Seq<SemanticModel>, a: int, b: int)
    requires
        0 <= a <= b,
    ensures
        count_measures(sms, a) <= count_measures(sms, b),
    decreases b - a,
{
    if a < b {
        lemma_count_measures_mono(sms, a, b - 1);
    }
}

pub open spec fn count_documented_metrics(metrics: Seq<Metric>, i: int) -> int
    decreases i,
{
    if i <= 0 {
        0
    } else {
        count_documented_metrics(metrics, i - 1) + (if metrics[i - 1].description is Some {
            1int
        } else {
            0int
        })
    }
}

pub open spec fn count_documented_models(models: Seq<DbtModel>, i: int) -> int
    decreases i,
{
    if i <= 0 {
        0
    } else {
        count_documented_models(models, i - 1) + (if models[i - 1].description is Some {
            1int
        } else {
            0int
        })
    }
}

/// Models with at least one tested column.
pub open spec fn count_tested_models(models: Seq<DbtModel>, i: int) -> int
    decreases i,
{
    if i <= 0 {
        0
    } else {
        count_tested_models(models, i - 1) + (if !model_untested(models[i - 1]) {
            1int
        } else {
            0int
        })
    }
}

pub open spec fn count_orphaned_model_issues(issues: Seq<IssueV>, i: int) -> int
    decreases i,
{
    if i <= 0 {
        0
    } else {
        count_orphaned_model_issues(issues, i - 1) + (if issues[i - 1].issue_type
            == IssueType::OrphanedModel {
            1int
        } else {
            0int
        })
    }
}

// =============================================================================
// Scores
// =============================================================================

pub open spec fn count_documented_nodes(nodes: Seq<LineageNode>, i: int) -> int
    decreases i,
{
    if i <= 0 {
        0
    } else {
        count_documented_nodes(nodes, i - 1) + (if nodes[i - 1].description is Some {
            1int
        } else {
            0int
        })
    }
}

/// Some semantic model names this model as its backing model.
pub open spec fn model_covered(sms: Seq<SemanticModel>, name: Seq<char>) -> bool {
    exists|k: int| 0 <= k < sms.len() && (#[trigger] sms[k]).model@ == name
}

pub open spec fn count_covered_models(
    models: Seq<DbtModel>,
    sms: Seq<SemanticModel>,
    i: int,
) -> int
    decreases i,
{
    if i <= 0 {
        0
    } else {
        count_covered_models(models, sms, i - 1) + (if model_covered(sms, models[i - 1].name@) {
            1int
        } else {
            0int
        })
    }
}

/// The id pairs of a graph's edges, source to target.
pub open spec fn epairs(es: Seq<LineageEdge>) -> Seq<(Seq<char>, Seq<char>)> {
    es.map_values(|e: LineageEdge| (e.source@, e.target@))
}

/// Node `i` is the first node carrying the id `id`, of any type.
pub open spec fn is_first_node_with_id(nodes: Seq<LineageNode>, id: Seq<char>, i: int) -> bool {
    &&& 0 <= i < nodes.len()
    &&& nodes[i].id@ == id
    &&& forall|k: int| 0 <= k < i ==> (#[trigger] nodes[k]).id@ != id
}

pub proof fn lemma_first_node_with_id_unique(
    nodes: Seq<LineageNode>,
    id: Seq<char>,
    i: int,
    j: int,
)
    requires
        is_first_node_with_id(nodes, id, i),
        is_first_node_with_id(nodes, id, j),
    ensures
        i == j,
{
    if i < j {
        assert(nodes[i].id@ != id);
    }
    if j < i {
        assert(nodes[j].id@ != id);
    }
}

/// The id resolves (by first match) to a Source-typed node.
pub open spec fn id_is_source(nodes: Seq<LineageNode>, id: Seq<char>) -> bool {
    exists|i: int|
        #[trigger] is_first_node_with_id(nodes, id, i) && nodes[i].node_type
            == LineageNodeType::Source
}

/// Following edges from `id`, some reachable id resolves to a Source node.
pub open spec fn reaches_source(g: LineageGraph, id: Seq<char>) -> bool {
    exists|t: Seq<char>| #[trigger] reaches(epairs(g.edges@), id, t) && id_is_source(g.nodes@, t)
}

pub open spec fn count_metric_nodes(nodes: Seq<LineageNode>, i: int) -> int
    decreases i,
{
    if i <= 0 {
        0
    } else {
        count_metric_nodes(nodes, i - 1) + (if nodes[i - 1].node_type == LineageNodeType::Metric {
            1int
        } else {
            0int
        })
    }
}

/// Metric nodes among the first `i` whose id reaches a source.
pub open spec fn count_complete_metric_nodes(g: LineageGraph, i: int) -> int
    decreases i,
{
    if i <= 0 {
        0
    } else {
        count_complete_metric_nodes(g, i - 1) + (if g.nodes@[i - 1].node_type
            == LineageNodeType::Metric && reaches_source(g, g.nodes@[i - 1].id@) {
            1int
        } else {
            0int
        })
    }
}

/// The edges of a graph as plain id pairs.
pub(crate) fn edge_pairs(edges: &Vec<LineageEdge>) -> (r: Vec<(String, String)>)
    ensures
        pair_views(r@) == epairs(edges@),
{
    let mut r: Vec<(String, String)> = Vec::new();
    let mut i: usize = 0;
    while i < edges.len()
        invariant
            0 <= i <= edges@.len(),
            pair_views(r@) =~= epairs(edges@.take(i as int)),
        decreases edges@.len() - i,
    {
        let ghost prev = r@;
        r.push((edges[i].source.clone(), edges[i].target.clone()));
        proof {
            let pr = (edges@[i as int].source@, edges@[i as int].target@);
            assert(pair_views(r@) =~= pair_views(prev).push(pr));
            assert(epairs(edges@.take(i as int + 1)) =~= epairs(edges@.take(i as int)).push(pr));
            assert(pair_views(r@) =~= epairs(edges@.take(i as int + 1)));
        }
        i = i + 1;
    }
    proof {
        assert(edges@.take(edges@.len() as int) =~= edges@);
    }
    r
}

/// The first node carrying the given id, of any type.
fn find_first_node_by_id(nodes: &Vec<LineageNode>, id: &String) -> (r: Option<usize>)
    ensures
        match r {
            Option::Some(i) => is_first_node_with_id(nodes@, id@, i as int),
            Option::None => forall|k: int|
                0 <= k < nodes@.len() ==> (#[trigger] nodes@[k]).id@ != id@,
        },
{
    let mut i: usize = 0;
    while i < nodes.len()
        invariant
            0 <= i <= nodes@.len(),
            forall|k: int| 0 <= k < i ==> (#[trigger] nodes@[k]).id@ != id@,
        decreases nodes@.len() - i,
    {
        if nodes[i].id == *id {
            return Some(i);
        }
        i = i + 1;
    }
    None
}

impl LineageAnalyzer {
    /// Depth-first search with an explicit frontier and a visited set:
    /// whether any id reachable from `start_id` resolves to a Source node.
    fn has_complete_lineage(&self, graph: &LineageGraph, start_id: &String) -> (r: bool)
        ensures
            r == reaches_source(*graph, start_id@),
    {
        let pairs = edge_pairs(&graph.edges);
        let visited = reach_ids(&pairs, start_id);
        let ghost ps = epairs(graph.edges@);
        let mut k: usize = 0;
        while k < visited.len()
            invariant
                0 <= k <= visited@.len(),
                ps == epairs(graph.edges@),
                forall|t: Seq<char>|
                    #[trigger] contains_view(visited@, t) <==> reaches(ps, start_id@, t),
                forall|kk: int| 0 <= kk < k ==> !id_is_source(graph.nodes@, (#[trigger] visited@[kk])@),
            decreases visited@.len() - k,
        {
            match find_first_node_by_id(&graph.nodes, &visited[k]) {
                Some(ni) => {
                    let is_src = match graph.nodes[ni].node_type {
                        LineageNodeType::Source => true,
                        _ => false,
                    };
                    if is_src {
                        proof {
                            assert(id_is_source(graph.nodes@, visited@[k as int]@));
                            assert(contains_view(visited@, visited@[k as int]@));
                            assert(reaches(ps, start_id@, visited@[k as int]@));
                        }
                        return true;
                    }
                    proof {
                        assert forall|ii: int|
                            !(is_first_node_with_id(graph.nodes@, visited@[k as int]@, ii)
                                && graph.nodes@[ii].node_type == LineageNodeType::Source) by {
                            if is_first_node_with_id(graph.nodes@, visited@[k as int]@, ii) {
                                lemma_first_node_with_id_unique(
                                    graph.nodes@,
                                    visited@[k as int]@,
                                    ii,
                                    ni as int,
                                );
                            }
                        }
                    }
                },
                None => {
                    proof {
                        assert forall|ii: int|
                            !(is_first_node_with_id(graph.nodes@, visited@[k as int]@, ii)
                                && graph.nodes@[ii].node_type == LineageNodeType::Source) by {
                            if is_first_node_with_id(graph.nodes@, visited@[k as int]@, ii) {
                                assert(graph.nodes@[ii].id@ == visited@[k as int]@);
                            }
                        }
                    }
                },
            }
            k = k + 1;
        }
        proof {
            if reaches_source(*graph, start_id@) {
                let t = choose|t: Seq<char>|
                    #[trigger] reaches(epairs(graph.edges@), start_id@, t) && id_is_source(
                        graph.nodes@,
                        t,
                    );
                assert(contains_view(visited@, t));
                let kk = choose|kk: int| 0 <= kk < visited@.len() && visited@[kk]@ == t;
                assert(!id_is_source(graph.nodes@, visited@[kk]@));
            }
        }
        false
    }

    /// The share of Metric nodes with a traceable path to a raw source.
    /// A project without metrics scores as vacuously full.
    fn calculate_completeness_score(
        &self,
        graph: &LineageGraph,
        metrics: &Vec<Metric>,
        _semantic_models: &Vec<SemanticModel>,
    ) -> (r: Score)
        ensures
            metrics@.len() == 0 ==> r == (Score { num: 0, den: 0 }),
            metrics@.len() > 0 ==> r.num == count_complete_metric_nodes(
                *graph,
                graph.nodes@.len() as int,
            ) && r.den == count_metric_nodes(graph.nodes@, graph.nodes@.len() as int),
            r.num <= r.den,
    {
        if metrics.len() == 0 {
            return Score { num: 0, den: 0 };
        }
        let mut total: usize = 0;
        let mut complete: usize = 0;
        let mut i: usize = 0;
        while i < graph.nodes.len()
            invariant
                0 <= i <= graph.nodes@.len(),
                total == count_metric_nodes(graph.nodes@, i as int),
                complete == count_complete_metric_nodes(*graph, i as int),
                0 <= complete <= total <= i,
            decreases graph.nodes@.len() - i,
        {
            let n = &graph.nodes[i];
            let is_metric = match n.node_type {
                LineageNodeType::Metric => true,
                _ => false,
            };
            if is_metric {
                total = total + 1;
                if self.has_complete_lineage(graph, &n.id) {
                    complete = complete + 1;
                }
            }
            i = i + 1;
        }
        Score { num: complete, den: total }
    }

    /// The share of graph nodes carrying a description; vacuously full
    /// for an empty graph.
    fn calculate_documentation_coverage(&self, graph: &LineageGraph) -> (r: Score)
        ensures
            r.num == count_documented_nodes(graph.nodes@, graph.nodes@.len() as int),
            r.den == graph.nodes@.len(),
            r.num <= r.den,
    {
        let mut documented: usize = 0;
        let mut i: usize = 0;
        while i < graph.nodes.len()
            invariant
                0 <= i <= graph.nodes@.len(),
                documented == count_documented_nodes(graph.nodes@, i as int),
                0 <= documented <= i,
            decreases graph.nodes@.len() - i,
        {
            match &graph.nodes[i].description {
                Some(_) => {
                    documented = documented + 1;
                },
                None => {},
            }
            i = i + 1;
        }
        Score { num: documented, den: graph.nodes.len() }
    }

    /// The share of models referenced by some semantic model; vacuously
    /// full when there are no models.
    fn calculate_model_coverage(
        &self,
        models: &Vec<DbtModel>,
        semantic_models: &Vec<SemanticModel>,
    ) -> (r: Score)
        ensures
            r.num == count_covered_models(models@, semantic_models@, models@.len() as int),
            r.den == models@.len(),
            r.num <= r.den,
    {
        let mut used: usize = 0;
        let mut i: usize = 0;
        while i < models.len()
            invariant
                0 <= i <= models@.len(),
                used == count_covered_models(models@, semantic_models@, i as int),
                0 <= used <= i,
            decreases models@.len() - i,
        {
            let mut covered = false;
            let mut k: usize = 0;
            while k < semantic_models.len()
                invariant
                    0 <= k <= semantic_models@.len(),
                    0 <= i < models@.len(),
                    covered ==> model_covered(semantic_models@, models@[i as int].name@),
                    !covered ==> forall|kk: int|
                        0 <= kk < k ==> (#[trigger] semantic_models@[kk]).model@
                            != models@[i as int].name@,
                decreases semantic_models@.len() - k,
            {
                if semantic_models[k].model == models[i].name {
                    covered = true;
                }
                k = k + 1;
            }
            if covered {
                used = used + 1;
            }
            i = i + 1;
        }
        Score { num: used, den: models.len() }
    }
}

} // verus!

verus! {

/// All six checks' issues, in check order.
pub open spec fn all_issues(
    g: LineageGraph,
    models: Seq<DbtModel>,
    sources: Seq<DbtSource>,
) -> Seq<IssueV> {
    missing_desc_issues(g.nodes@, g.nodes@.len() as int) + orphaned_model_issues(
        g,
        models,
        models.len() as int,
    ) + orphaned_metric_issues(g, g.nodes@.len() as int) + missing_source_issues(
        models,
        sources,
        models.len() as int,
    ) + undocumented_col_issues(models, models.len() as int) + no_tests_issues(
        models,
        models.len() as int,
    )
}

impl LineageAnalyzer {
    fn calculate_summary(
        &self,
        models: &Vec<DbtModel>,
        sources: &Vec<DbtSource>,
        semantic_models: &Vec<SemanticModel>,
        metrics: &Vec<Metric>,
        issues: &Vec<AuditIssue>,
    ) -> (r: AuditSummary)
        requires
            count_measures(semantic_models@, semantic_models@.len() as int) <= usize::MAX,
        ensures
            r.total_metrics == metrics@.len(),
            r.total_measures == count_measures(
                semantic_models@,
                semantic_models@.len() as int,
            ),
            r.total_models == models@.len(),
            r.total_sources == sources@.len(),
            r.documented_metrics == count_documented_metrics(metrics@, metrics@.len() as int),
            r.documented_models == count_documented_models(models@, models@.len() as int),
            r.tested_models == count_tested_models(models@, models@.len() as int),
            r.orphaned_models == count_orphaned_model_issues(
                issue_views(issues@),
                issues@.len() as int,
            ),
    {
        let mut total_measures: usize = 0;
        let mut i: usize = 0;
        while i < semantic_models.len()
            invariant
                0 <= i <= semantic_models@.len(),
                total_measures == count_measures(semantic_models@, i as int),
                count_measures(semantic_models@, semantic_models@.len() as int) <= usize::MAX,
            decreases semantic_models@.len() - i,
        {
            proof {
                lemma_count_measures_mono(
                    semantic_models@,
                    i as int + 1,
                    semantic_models@.len() as int,
                );
            }
            total_measures = total_measures + semantic_models[i].measures.len();
            i = i + 1;
        }

        let mut documented_metrics: usize = 0;
        let mut i2: usize = 0;
        while i2 < metrics.len()
            invariant
                0 <= i2 <= metrics@.len(),
                documented_metrics == count_documented_metrics(metrics@, i2 as int),
                0 <= documented_metrics <= i2,
            decreases metrics@.len() - i2,
        {
            match &metrics[i2].description {
                Some(_) => {
                    documented_metrics = documented_metrics + 1;
                },
                None => {},
            }
            i2 = i2 + 1;
        }

        let mut documented_models: usize = 0;
        let mut i3: usize = 0;
        while i3 < models.len()
            invariant
                0 <= i3 <= models@.len(),
                documented_models == count_documented_models(models@, i3 as int),
                0 <= documented_models <= i3,
            decreases models@.len() - i3,
        {
            match &models[i3].description {
                Some(_) => {
                    documented_models = documented_models + 1;
                },
                None => {},
            }
            i3 = i3 + 1;
        }

        let mut tested_models: usize = 0;
        let mut i4: usize = 0;
        while i4 < models.len()
            invariant
                0 <= i4 <= models@.len(),
                tested_models == count_tested_models(models@, i4 as int),
                0 <= tested_models <= i4,
            decreases models@.len() - i4,
        {
            if !model_untested_exec(&models[i4]) {
                tested_models = tested_models + 1;
            }
            i4 = i4 + 1;
        }

        let mut orphaned_models: usize = 0;
        let mut i5: usize = 0;
        while i5 < issues.len()
            invariant
                0 <= i5 <= issues@.len(),
                orphaned_models == count_orphaned_model_issues(issue_views(issues@), i5 as int),
                0 <= orphaned_models <= i5,
            decreases issues@.len() - i5,
        {
            let is_orphan = match issues[i5].issue_type {
                IssueType::OrphanedModel => true,
                _ => false,
            };
            proof {
                assert(issue_views(issues@)[i5 as int] == issue_v(issues@[i5 as int]));
            }
            if is_orphan {
                orphaned_models = orphaned_models + 1;
            }
            i5 = i5 + 1;
        }

        AuditSummary {
            total_metrics: metrics.len(),
            total_measures,
            total_models: models.len(),
            total_sources: sources.len(),
            documented_metrics,
            documented_models,
            tested_models,
            orphaned_models,
        }
    }

    /// Analyze the lineage graph and the raw entity lists: run all six
    /// checks in order, then compute the summary and the three scores.
    ///
    /// Pure and total; deterministic given identical inputs.  The issue
    /// list equals the concatenation of the six checks' findings
    /// ([`all_issues`]), and every score's numerator and denominator are
    /// the stated counts.
    pub fn analyze(
        &self,
        graph: &LineageGraph,
        models: &Vec<DbtModel>,
        sources: &Vec<DbtSource>,
        semantic_models: &Vec<SemanticModel>,
        metrics: &Vec<Metric>,
    ) -> (r: AuditResult)
        requires
            count_measures(semantic_models@, semantic_models@.len() as int) <= usize::MAX,
        ensures
            issue_views(r.issues@) == all_issues(*graph, models@, sources@),
            metrics@.len() == 0 ==> r.completeness_score == (Score { num: 0, den: 0 }),
            metrics@.len() > 0 ==> r.completeness_score.num == count_complete_metric_nodes(
                *graph,
                graph.nodes@.len() as int,
            ) && r.completeness_score.den == count_metric_nodes(
                graph.nodes@,
                graph.nodes@.len() as int,
            ),
            r.completeness_score.num <= r.completeness_score.den,
            r.documentation_coverage.num == count_documented_nodes(
                graph.nodes@,
                graph.nodes@.len() as int,
            ),
            r.documentation_coverage.den == graph.nodes@.len(),
            r.documentation_coverage.num <= r.documentation_coverage.den,
            r.model_coverage.num == count_covered_models(
                models@,
                semantic_models@,
                models@.len() as int,
            ),
            r.model_coverage.den == models@.len(),
            r.model_coverage.num <= r.model_coverage.den,
            r.summary.total_metrics == metrics@.len(),
            r.summary.total_measures == count_measures(
                semantic_models@,
                semantic_models@.len() as int,
            ),
            r.summary.total_models == models@.len(),
            r.summary.total_sources == sources@.len(),
            r.summary.documented_metrics == count_documented_metrics(
                metrics@,
                metrics@.len() as int,
            ),
            r.summary.documented_models == count_documented_models(
                models@,
                models@.len() as int,
            ),
            r.summary.tested_models == count_tested_models(models@, models@.len() as int),
            r.summary.orphaned_models == count_orphaned_model_issues(
                all_issues(*graph, models@, sources@),
                all_issues(*graph, models@, sources@).len() as int,
            ),
    {
        let ghost s1 = missing_desc_issues(graph.nodes@, graph.nodes@.len() as int);
        let ghost s2 = orphaned_model_issues(*graph, models@, models@.len() as int);
        let ghost s3 = orphaned_metric_issues(*graph, graph.nodes@.len() as int);
        let ghost s4 = missing_source_issues(models@, sources@, models@.len() as int);
        let ghost s5 = undocumented_col_issues(models@, models@.len() as int);
        let ghost s6 = no_tests_issues(models@, models@.len() as int);

        let mut issues = self.check_missing_descriptions(graph);
        let mut c2 = self.check_orphaned_models(graph, models);
        let ghost c2v = c2@;
        let ghost p1 = issues@;
        issues.append(&mut c2);
        proof {
            assert(issue_views(issues@) =~= issue_views(p1) + issue_views(c2v));
            assert(issue_views(issues@) == s1 + s2);
        }
        let mut c3 = self.check_orphaned_metrics(graph, metrics);
        let ghost c3v = c3@;
        let ghost p2 = issues@;
        issues.append(&mut c3);
        proof {
            assert(issue_views(issues@) =~= issue_views(p2) + issue_views(c3v));
            assert(issue_views(issues@) == (s1 + s2) + s3);
        }
        let mut c4 = self.check_missing_sources(models, sources);
        let ghost c4v = c4@;
        let ghost p3 = issues@;
        issues.append(&mut c4);
        proof {
            assert(issue_views(issues@) =~= issue_views(p3) + issue_views(c4v));
            assert(issue_views(issues@) == ((s1 + s2) + s3) + s4);
        }
        let mut c5 = self.check_undocumented_columns(models);
        let ghost c5v = c5@;
        let ghost p4 = issues@;
        issues.append(&mut c5);
        proof {
            assert(issue_views(issues@) =~= issue_views(p4) + issue_views(c5v));
            assert(issue_views(issues@) == (((s1 + s2) + s3) + s4) + s5);
        }
        let mut c6 = self.check_models_without_tests(models);
        let ghost c6v = c6@;
        let ghost p5 = issues@;
        issues.append(&mut c6);
        proof {
            assert(issue_views(issues@) =~= issue_views(p5) + issue_views(c6v));
            assert(issue_views(issues@) == ((((s1 + s2) + s3) + s4) + s5) + s6);
            assert(issue_views(issues@) == all_issues(*graph, models@, sources@));
        }

        let summary = self.calculate_summary(models, sources, semantic_models, metrics, &issues);

        let completeness_score = self.calculate_completeness_score(graph, metrics, semantic_models);
        let documentation_coverage = self.calculate_documentation_coverage(graph);
        let model_coverage = self.calculate_model_coverage(models, semantic_models);

        proof {
            assert(issues@.len() == issue_views(issues@).len());
        }

        AuditResult {
            completeness_score,
            documentation_coverage,
            model_coverage,
            issues,
            summary,
        }
    }
}

} // verus!

verus! {

// =============================================================================
// Consequences for orphaned metrics
// =============================================================================

/// Metric nodes without outgoing edges among the first `i` nodes.
pub open spec fn count_orphaned_metric_nodes(g: LineageGraph, i: int) -> int
    decreases i,
{
    if i <= 0 {
        0
    } else {
        count_orphaned_metric_nodes(g, i - 1) + (if g.nodes@[i - 1].node_type
            == LineageNodeType::Metric && !has_outgoing(g.edges@, g.nodes@[i - 1].id@) {
            1int
        } else {
            0int
        })
    }
}

/// Issues tagged orphaned-metric among the first `i` issues.
pub open spec fn count_orphaned_metric_issues(issues: Seq<IssueV>, i: int) -> int
    decreases i,
{
    if i <= 0 {
        0
    } else {
        count_orphaned_metric_issues(issues, i - 1) + (if issues[i - 1].issue_type
            == IssueType::OrphanedMetric {
            1int
        } else {
            0int
        })
    }
}

proof fn lemma_count_omi_left(a: Seq<IssueV>, b: Seq<IssueV>, j: int)
    requires
        0 <= j <= a.len(),
    ensures
        count_orphaned_metric_issues(a + b, j) == count_orphaned_metric_issues(a, j),
    decreases j,
{
    if j > 0 {
        lemma_count_omi_left(a, b, j - 1);
        assert((a + b)[j - 1] == a[j - 1]);
    }
}

proof fn lemma_count_omi_concat(a: Seq<IssueV>, b: Seq<IssueV>, i: int)
    requires
        0 <= i <= b.len(),
    ensures
        count_orphaned_metric_issues(a + b, a.len() + i) == count_orphaned_metric_issues(
            a,
            a.len() as int,
        ) + count_orphaned_metric_issues(b, i),
    decreases i,
{
    if i == 0 {
        lemma_count_omi_left(a, b, a.len() as int);
    } else {
        lemma_count_omi_concat(a, b, i - 1);
        assert((a + b)[a.len() + i - 1] == b[i - 1]);
    }
}

proof fn lemma_count_omi_missing_desc(nodes: Seq<LineageNode>, i: int)
    ensures
        count_orphaned_metric_issues(
            missing_desc_issues(nodes, i),
            missing_desc_issues(nodes, i).len() as int,
        ) == 0,
    decreases i,
{
    if i > 0 {
        lemma_count_omi_missing_desc(nodes, i - 1);
        let prev = missing_desc_issues(nodes, i - 1);
        let delta = if nodes[i - 1].description is None {
            seq![missing_desc_issue(nodes[i - 1])]
        } else {
            Seq::<IssueV>::empty()
        };
        assert(count_orphaned_metric_issues(delta, 0) == 0);
        lemma_count_omi_concat(prev, delta, delta.len() as int);
    }
}

proof fn lemma_count_omi_orphaned_model(g: LineageGraph, models: Seq<DbtModel>, i: int)
    ensures
        count_orphaned_metric_issues(
            orphaned_model_issues(g, models, i),
            orphaned_model_issues(g, models, i).len() as int,
        ) == 0,
    decreases i,
{
    if i > 0 {
        lemma_count_omi_orphaned_model(g, models, i - 1);
        let prev = orphaned_model_issues(g, models, i - 1);
        let delta = if !model_referenced(g, models[i - 1].name@) {
            seq![orphaned_model_issue(g, models[i - 1])]
        } else {
            Seq::<IssueV>::empty()
        };
        assert(count_orphaned_metric_issues(delta, 0) == 0);
        lemma_count_omi_concat(prev, delta, delta.len() as int);
    }
}

proof fn lemma_count_omi_orphaned_metric(g: LineageGraph, i: int)
    ensures
        count_orphaned_metric_issues(
            orphaned_metric_issues(g, i),
            orphaned_metric_issues(g, i).len() as int,
        ) == count_orphaned_metric_nodes(g, i),
    decreases i,
{
    if i > 0 {
        lemma_count_omi_orphaned_metric(g, i - 1);
        let prev = orphaned_metric_issues(g, i - 1);
        let delta = if g.nodes@[i - 1].node_type == LineageNodeType::Metric && !has_outgoing(
            g.edges@,
            g.nodes@[i - 1].id@,
        ) {
            seq![orphaned_metric_issue(g.nodes@[i - 1])]
        } else {
            Seq::<IssueV>::empty()
        };
        assert(count_orphaned_metric_issues(delta, 0) == 0);
        lemma_count_omi_concat(prev, delta, delta.len() as int);
    }
}

proof fn lemma_count_omi_missing_source_for(m: DbtModel, sources: Seq<DbtSource>, j: int)
    ensures
        count_orphaned_metric_issues(
            missing_source_issues_for(m, sources, j),
            missing_source_issues_for(m, sources, j).len() as int,
        ) == 0,
    decreases j,
{
    if j > 0 {
        lemma_count_omi_missing_source_for(m, sources, j - 1);
        let prev = missing_source_issues_for(m, sources, j - 1);
        let delta = if !source_defined(
            sources,
            m.sources@[j - 1].source_name@,
            m.sources@[j - 1].table_name@,
        ) {
            seq![
                missing_source_issue(
                    m,
                    m.sources@[j - 1].source_name@,
                    m.sources@[j - 1].table_name@,
                ),
            ]
        } else {
            Seq::<IssueV>::empty()
        };
        assert(count_orphaned_metric_issues(delta, 0) == 0);
        lemma_count_omi_concat(prev, delta, delta.len() as int);
    }
}

proof fn lemma_count_omi_missing_source(models: Seq<DbtModel>, sources: Seq<DbtSource>, i: int)
    ensures
        count_orphaned_metric_issues(
            missing_source_issues(models, sources, i),
            missing_source_issues(models, sources, i).len() as int,
        ) == 0,
    decreases i,
{
    if i > 0 {
        lemma_count_omi_missing_source(models, sources, i - 1);
        let prev = missing_source_issues(models, sources, i - 1);
        let delta = missing_source_issues_for(
            models[i - 1],
            sources,
            models[i - 1].sources@.len() as int,
        );
        lemma_count_omi_missing_source_for(
            models[i - 1],
            sources,
            models[i - 1].sources@.len() as int,
        );
        assert(count_orphaned_metric_issues(delta, 0) == 0);
        lemma_count_omi_concat(prev, delta, delta.len() as int);
    }
}

proof fn lemma_count_omi_undocumented_for(m: DbtModel, j: int)
    ensures
        count_orphaned_metric_issues(
            undocumented_col_issues_for(m, j),
            undocumented_col_issues_for(m, j).len() as int,
        ) == 0,
    decreases j,
{
    if j > 0 {
        lemma_count_omi_undocumented_for(m, j - 1);
        let prev = undocumented_col_issues_for(m, j - 1);
        let delta = if m.columns@[j - 1].description is None {
            seq![undocumented_col_issue(m, m.columns@[j - 1].name@)]
        } else {
            Seq::<IssueV>::empty()
        };
        assert(count_orphaned_metric_issues(delta, 0) == 0);
        lemma_count_omi_concat(prev, delta, delta.len() as int);
    }
}

proof fn lemma_count_omi_undocumented(models: Seq<DbtModel>, i: int)
    ensures
        count_orphaned_metric_issues(
            undocumented_col_issues(models, i),
            undocumented_col_issues(models, i).len() as int,
        ) == 0,
    decreases i,
{
    if i > 0 {
        lemma_count_omi_undocumented(models, i - 1);
        let prev = undocumented_col_issues(models, i - 1);
        let delta = undocumented_col_issues_for(models[i - 1], models[i - 1].columns@.len() as int);
        lemma_count_omi_undocumented_for(models[i - 1], models[i - 1].columns@.len() as int);
        assert(count_orphaned_metric_issues(delta, 0) == 0);
        lemma_count_omi_concat(prev, delta, delta.len() as int);
    }
}

proof fn lemma_count_omi_no_tests(models: Seq<DbtModel>, i: int)
    ensures
        count_orphaned_metric_issues(
            no_tests_issues(models, i),
            no_tests_issues(models, i).len() as int,
        ) == 0,
    decreases i,
{
    if i > 0 {
        lemma_count_omi_no_tests(models, i - 1);
        let prev = no_tests_issues(models, i - 1);
        let delta = if model_untested(models[i - 1]) {
            seq![no_tests_issue(models[i - 1])]
        } else {
            Seq::<IssueV>::empty()
        };
        assert(count_orphaned_metric_issues(delta, 0) == 0);
        lemma_count_omi_concat(prev, delta, delta.len() as int);
    }
}

/// The audit reports exactly one orphaned-metric issue per Metric node
/// without outgoing edges: no other check contributes issues of that
/// kind, and the orphaned-metric check contributes one per such node.
pub proof fn lemma_orphaned_metric_issue_count(
    g: LineageGraph,
    models: Seq<DbtModel>,
    sources: Seq<DbtSource>,
)
    ensures
        count_orphaned_metric_issues(
            all_issues(g, models, sources),
            all_issues(g, models, sources).len() as int,
        ) == count_orphaned_metric_nodes(g, g.nodes@.len() as int),
{
    let s1 = missing_desc_issues(g.nodes@, g.nodes@.len() as int);
    let s2 = orphaned_model_issues(g, models, models.len() as int);
    let s3 = orphaned_metric_issues(g, g.nodes@.len() as int);
    let s4 = missing_source_issues(models, sources, models.len() as int);
    let s5 = undocumented_col_issues(models, models.len() as int);
    let s6 = no_tests_issues(models, models.len() as int);
    lemma_count_omi_missing_desc(g.nodes@, g.nodes@.len() as int);
    lemma_count_omi_orphaned_model(g, models, models.len() as int);
    lemma_count_omi_orphaned_metric(g, g.nodes@.len() as int);
    lemma_count_omi_missing_source(models, sources, models.len() as int);
    lemma_count_omi_undocumented(models, models.len() as int);
    lemma_count_omi_no_tests(models, models.len() as int);
    lemma_count_omi_concat(s1, s2, s2.len() as int);
    lemma_count_omi_concat(s1 + s2, s3, s3.len() as int);
    lemma_count_omi_concat((s1 + s2) + s3, s4, s4.len() as int);
    lemma_count_omi_concat(((s1 + s2) + s3) + s4, s5, s5.len() as int);
    lemma_count_omi_concat((((s1 + s2) + s3) + s4) + s5, s6, s6.len() as int);
}

/// A Metric node with no outgoing edges cannot trace to a source, so it
/// counts as incomplete for the completeness score.  The one exception
/// would be a graph where the metric's own id already resolves to a
/// Source node, which only duplicate ids can produce; the premise rules
/// that out.
pub proof fn lemma_orphaned_metric_incomplete(g: LineageGraph, i: int)
    requires
        0 <= i < g.nodes@.len(),
        g.nodes@[i].node_type == LineageNodeType::Metric,
        !has_outgoing(g.edges@, g.nodes@[i].id@),
        !id_is_source(g.nodes@, g.nodes@[i].id@),
    ensures
        !reaches_source(g, g.nodes@[i].id@),
{
    let id = g.nodes@[i].id@;
    let ps = epairs(g.edges@);
    if reaches_source(g, id) {
        let t = choose|t: Seq<char>|
            #[trigger] reaches(ps, id, t) && id_is_source(g.nodes@, t);
        assert forall|j: int| 0 <= j < ps.len() implies (#[trigger] ps[j].0) != id by {
            assert(ps[j].0 == g.edges@[j].source@);
            assert(g.edges@[j].source@ != id);
        }
        crate::reach::lemma_no_outgoing_reaches_only_self(ps, id, t);
        assert(t == id);
    }
}

} // verus!
