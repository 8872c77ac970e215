//! Ad hoc lineage queries over an already-built graph: upstream lineage
//! for a metric, downstream impact for any node, and substring search.

use vstd::prelude::*;
use vstd::string::*;
use crate::analysis::epairs;
use crate::reach::{
    contains_view, lemma_reaches_same_links, lemma_same_pair_set_same_links, pair_views,
    reach_ids, reaches,
};
use crate::types::{LineageEdge, LineageGraph, LineageNode, LineageNodeType, ParseResult};

verus! {

/// What `str::to_lowercase` returns: a function of the characters alone.
pub uninterp spec fn lower_of(s: Seq<char>) -> Seq<char>;

/// Relies on `str::to_lowercase`: the Unicode lowercase mapping of the
/// string, depending on its characters alone (no locale input).
#[verifier::external_body]
fn lowercase(s: &str) -> (r: String)
    ensures
        r@ == lower_of(s@),
{
    s.to_lowercase()
}

/// `p` occurs in `s` as a contiguous substring.
pub open spec fn spec_contains(s: Seq<char>, p: Seq<char>) -> bool {
    exists|i: int| 0 <= i && i + p.len() <= s.len() && #[trigger] s.subrange(i, i + p.len()) == p
}

/// Relies on `str::contains` with a string pattern: true exactly when
/// the pattern matches a sub-slice.  Byte-level matches of valid UTF-8
/// fall on character boundaries, so this is substring containment over
/// the character sequences.
#[verifier::external_body]
fn contains_sub(s: &str, p: &str) -> (r: bool)
    ensures
        r == spec_contains(s@, p@),
{
    s.contains(p)
}

/// Case-insensitive match of a query against a node's name or description.
pub open spec fn node_matches_query(n: LineageNode, q: Seq<char>) -> bool {
    ||| spec_contains(lower_of(n.name@), lower_of(q))
    ||| (n.description matches Option::Some(d) && spec_contains(lower_of(d@), lower_of(q)))
}

/// Node `i` is the first Metric-typed node named `name`.
pub open spec fn is_first_metric_with_name(
    nodes: Seq<LineageNode>,
    name: Seq<char>,
    i: int,
) -> bool {
    &&& 0 <= i < nodes.len()
    &&& nodes[i].name@ == name
    &&& nodes[i].node_type == LineageNodeType::Metric
    &&& forall|k: int|
        0 <= k < i ==> !((#[trigger] nodes[k]).name@ == name && nodes[k].node_type
            == LineageNodeType::Metric)
}

pub proof fn lemma_first_metric_with_name_unique(
    nodes: Seq<LineageNode>,
    name: Seq<char>,
    i: int,
    j: int,
)
    requires
        is_first_metric_with_name(nodes, name, i),
        is_first_metric_with_name(nodes, name, j),
    ensures
        i == j,
{
    if i < j {
        assert(!(nodes[i].name@ == name && nodes[i].node_type == LineageNodeType::Metric));
    }
    if j < i {
        assert(!(nodes[j].name@ == name && nodes[j].node_type == LineageNodeType::Metric));
    }
}

/// Node `i` is the first node named `name`, of any type.
pub open spec fn is_first_node_with_name(
    nodes: Seq<LineageNode>,
    name: Seq<char>,
    i: int,
) -> bool {
    &&& 0 <= i < nodes.len()
    &&& nodes[i].name@ == name
    &&& forall|k: int| 0 <= k < i ==> (#[trigger] nodes[k]).name@ != name
}

pub proof fn lemma_first_node_with_name_unique(
    nodes: Seq<LineageNode>,
    name: Seq<char>,
    i: int,
    j: int,
)
    requires
        is_first_node_with_name(nodes, name, i),
        is_first_node_with_name(nodes, name, j),
    ensures
        i == j,
{
    if i < j {
        assert(nodes[i].name@ != name);
    }
    if j < i {
        assert(nodes[j].name@ != name);
    }
}

/// The edge id pairs reversed, for walking dependencies backwards.
pub open spec fn rpairs(es: Seq<LineageEdge>) -> Seq<(Seq<char>, Seq<char>)> {
    es.map_values(|e: LineageEdge| (e.target@, e.source@))
}

/// The nodes whose ids are reachable from `start` along `ps`, in their
/// original order.
pub open spec fn nodes_reaching(
    nodes: Seq<LineageNode>,
    ps: Seq<(Seq<char>, Seq<char>)>,
    start: Seq<char>,
) -> Seq<LineageNode> {
    nodes.filter(|n: LineageNode| reaches(ps, start, n.id@))
}

/// The edges both of whose endpoints are reachable from `start`.
pub open spec fn edges_within(
    edges: Seq<LineageEdge>,
    ps: Seq<(Seq<char>, Seq<char>)>,
    start: Seq<char>,
) -> Seq<LineageEdge> {
    edges.filter(
        |e: LineageEdge| reaches(ps, start, e.source@) && reaches(ps, start, e.target@),
    )
}


/// The first Metric-typed node with the given name, if any.
fn find_first_metric_by_name(nodes: &Vec<LineageNode>, name: &String) -> (r: Option<usize>)
    ensures
        match r {
            Option::Some(i) => is_first_metric_with_name(nodes@, name@, i as int),
            Option::None => forall|k: int|
                0 <= k < nodes@.len() ==> !((#[trigger] nodes@[k]).name@ == name@
                    && nodes@[k].node_type == LineageNodeType::Metric),
        },
{
    let mut i: usize = 0;
    while i < nodes.len()
        invariant
            0 <= i <= nodes@.len(),
            forall|k: int|
                0 <= k < i ==> !((#[trigger] nodes@[k]).name@ == name@ && nodes@[k].node_type
                    == LineageNodeType::Metric),
        decreases nodes@.len() - i,
    {
        let is_metric = match nodes[i].node_type {
            LineageNodeType::Metric => true,
            _ => false,
        };
        if is_metric && nodes[i].name == *name {
            return Some(i);
        }
        i = i + 1;
    }
    None
}

/// The first node with the given name, of any type, if any.
fn find_first_any_by_name(nodes: &Vec<LineageNode>, name: &String) -> (r: Option<usize>)
    ensures
        match r {
            Option::Some(i) => is_first_node_with_name(nodes@, name@, i as int),
            Option::None => forall|k: int|
                0 <= k < nodes@.len() ==> (#[trigger] nodes@[k]).name@ != name@,
        },
{
    let mut i: usize = 0;
    while i < nodes.len()
        invariant
            0 <= i <= nodes@.len(),
            forall|k: int| 0 <= k < i ==> (#[trigger] nodes@[k]).name@ != name@,
        decreases nodes@.len() - i,
    {
        if nodes[i].name == *name {
            return Some(i);
        }
        i = i + 1;
    }
    None
}

/// Keep the nodes whose id view is held by `visited`.
fn filter_nodes_by_reach(
    nodes: Vec<LineageNode>,
    visited: &Vec<String>,
    Ghost(ps): Ghost<Seq<(Seq<char>, Seq<char>)>>,
    Ghost(start): Ghost<Seq<char>>,
) -> (r: Vec<LineageNode>)
    requires
        forall|t: Seq<char>| #[trigger] contains_view(visited@, t) <==> reaches(ps, start, t),
    ensures
        r@ == nodes_reaching(nodes@, ps, start),
{
    let ghost orig = nodes@;
    let mut rest = nodes;
    let orig_len: usize = rest.len();
    let mut out: Vec<LineageNode> = Vec::new();
    let mut i: usize = 0;
    proof {
        reveal(Seq::<_>::filter);
        assert(orig.take(0) =~= Seq::<LineageNode>::empty());
    }
    while rest.len() > 0
        invariant
            forall|t: Seq<char>| #[trigger] contains_view(visited@, t) <==> reaches(ps, start, t),
            orig.len() == orig_len,
            0 <= i <= orig.len(),
            i + rest@.len() == orig.len(),
            rest@ =~= orig.skip(i as int),
            out@ == nodes_reaching(orig.take(i as int), ps, start),
        decreases rest@.len(),
    {
        let n = rest.remove(0);
        proof {
            assert(n == orig[i as int]);
            assert(rest@ =~= orig.skip(i as int + 1));
        }
        let keep = crate::reach::contains_string(visited, &n.id);
        if keep {
            out.push(n);
        }
        proof {
            reveal(Seq::<_>::filter);
            assert(orig.take(i as int + 1).drop_last() =~= orig.take(i as int));
            assert(orig.take(i as int + 1).last() == orig[i as int]);
            assert(out@ == nodes_reaching(orig.take(i as int + 1), ps, start));
        }
        i = i + 1;
    }
    proof {
        assert(orig.take(orig.len() as int) =~= orig);
    }
    out
}

/// Keep the edges both of whose endpoint id views are held by `visited`.
fn filter_edges_by_reach(
    edges: Vec<LineageEdge>,
    visited: &Vec<String>,
    Ghost(ps): Ghost<Seq<(Seq<char>, Seq<char>)>>,
    Ghost(start): Ghost<Seq<char>>,
) -> (r: Vec<LineageEdge>)
    requires
        forall|t: Seq<char>| #[trigger] contains_view(visited@, t) <==> reaches(ps, start, t),
    ensures
        r@ == edges_within(edges@, ps, start),
{
    let ghost orig = edges@;
    let mut rest = edges;
    let orig_len: usize = rest.len();
    let mut out: Vec<LineageEdge> = Vec::new();
    let mut i: usize = 0;
    proof {
        reveal(Seq::<_>::filter);
        assert(orig.take(0) =~= Seq::<LineageEdge>::empty());
    }
    while rest.len() > 0
        invariant
            forall|t: Seq<char>| #[trigger] contains_view(visited@, t) <==> reaches(ps, start, t),
            orig.len() == orig_len,
            0 <= i <= orig.len(),
            i + rest@.len() == orig.len(),
            rest@ =~= orig.skip(i as int),
            out@ == edges_within(orig.take(i as int), ps, start),
        decreases rest@.len(),
    {
        let e = rest.remove(0);
        proof {
            assert(e == orig[i as int]);
            assert(rest@ =~= orig.skip(i as int + 1));
        }
        let keep_src = crate::reach::contains_string(visited, &e.source);
        let keep = if keep_src {
            crate::reach::contains_string(visited, &e.target)
        } else {
            false
        };
        if keep {
            out.push(e);
        }
        proof {
            reveal(Seq::<_>::filter);
            assert(orig.take(i as int + 1).drop_last() =~= orig.take(i as int));
            assert(orig.take(i as int + 1).last() == orig[i as int]);
            assert(out@ == edges_within(orig.take(i as int + 1), ps, start));
        }
        i = i + 1;
    }
    proof {
        assert(orig.take(orig.len() as int) =~= orig);
    }
    out
}

/// Upstream lineage for a metric: the subgraph the metric's node can
/// reach by following edges from source to target.
///
/// Fails exactly when no Metric node carries the given name; ambiguity
/// is resolved by taking the first match in graph order.
pub fn get_metric_lineage(parse_result: ParseResult, metric_name: String) -> (r: Result<
    ParseResult,
    String,
>)
    ensures
        match r {
            Result::Ok(res) => {
                &&& exists|i: int|
                    is_first_metric_with_name(
                        parse_result.lineage.nodes@,
                        metric_name@,
                        i,
                    )
                &&& {
                    let i = choose|i: int|
                        is_first_metric_with_name(parse_result.lineage.nodes@, metric_name@, i);
                    let start = parse_result.lineage.nodes@[i].id@;
                    let ps = epairs(parse_result.lineage.edges@);
                    &&& res.success == true
                    &&& res.lineage.nodes@ == nodes_reaching(
                        parse_result.lineage.nodes@,
                        ps,
                        start,
                    )
                    &&& res.lineage.edges@ == edges_within(
                        parse_result.lineage.edges@,
                        ps,
                        start,
                    )
                    &&& res.models@.len() == 0
                    &&& res.sources@.len() == 0
                    &&& res.semantic_models@.len() == 0
                    &&& res.metrics@.len() == 0
                    &&& res.dbt_project is None
                    &&& res.errors@.len() == 0
                    &&& res.warnings@.len() == 0
                }
            },
            Result::Err(e) => {
                &&& forall|k: int|
                    0 <= k < parse_result.lineage.nodes@.len()
                        ==> !((#[trigger] parse_result.lineage.nodes@[k]).name@ == metric_name@
                        && parse_result.lineage.nodes@[k].node_type == LineageNodeType::Metric)
                &&& e@ == "Metric '"@ + metric_name@ + "' not found"@
            },
        },
{
    let fi = match find_first_metric_by_name(&parse_result.lineage.nodes, &metric_name) {
        Some(i) => i,
        None => {
            let e = String::from_str("Metric '").concat(metric_name.as_str()).concat(
                "' not found",
            );
            return Err(e);
        },
    };
    let start_id = parse_result.lineage.nodes[fi].id.clone();
    proof {
        let ci = choose|i: int|
            is_first_metric_with_name(parse_result.lineage.nodes@, metric_name@, i);
        lemma_first_metric_with_name_unique(
            parse_result.lineage.nodes@,
            metric_name@,
            fi as int,
            ci,
        );
    }
    let pairs = crate::analysis::edge_pairs(&parse_result.lineage.edges);
    let visited = reach_ids(&pairs, &start_id);
    let ghost ps = epairs(parse_result.lineage.edges@);
    let ghost start = start_id@;
    let lineage = parse_result.lineage;
    let kept_nodes = filter_nodes_by_reach(lineage.nodes, &visited, Ghost(ps), Ghost(start));
    let kept_edges = filter_edges_by_reach(lineage.edges, &visited, Ghost(ps), Ghost(start));
    let mut filtered_result = ParseResult::default();
    filtered_result.success = true;
    filtered_result.lineage = LineageGraph { nodes: kept_nodes, edges: kept_edges };
    Ok(filtered_result)
}

/// Downstream impact for a node of any kind: the subgraph that depends
/// on it, found by walking edges from target back to source.
///
/// Fails exactly when no node carries the given name; ambiguity is
/// resolved by taking the first match in graph order.
pub fn get_impact_analysis(parse_result: ParseResult, node_name: String) -> (r: Result<
    ParseResult,
    String,
>)
    ensures
        match r {
            Result::Ok(res) => {
                &&& exists|i: int|
                    is_first_node_with_name(parse_result.lineage.nodes@, node_name@, i)
                &&& {
                    let i = choose|i: int|
                        is_first_node_with_name(parse_result.lineage.nodes@, node_name@, i);
                    let start = parse_result.lineage.nodes@[i].id@;
                    let ps = rpairs(parse_result.lineage.edges@);
                    &&& res.success == true
                    &&& res.lineage.nodes@ == nodes_reaching(
                        parse_result.lineage.nodes@,
                        ps,
                        start,
                    )
                    &&& res.lineage.edges@ == edges_within(
                        parse_result.lineage.edges@,
                        ps,
                        start,
                    )
                    &&& res.models@.len() == 0
                    &&& res.sources@.len() == 0
                    &&& res.semantic_models@.len() == 0
                    &&& res.metrics@.len() == 0
                    &&& res.dbt_project is None
                    &&& res.errors@.len() == 0
                    &&& res.warnings@.len() == 0
                }
            },
            Result::Err(e) => {
                &&& forall|k: int|
                    0 <= k < parse_result.lineage.nodes@.len()
                        ==> (#[trigger] parse_result.lineage.nodes@[k]).name@ != node_name@
                &&& e@ == "Node '"@ + node_name@ + "' not found"@
            },
        },
{
    let fi = match find_first_any_by_name(&parse_result.lineage.nodes, &node_name) {
        Some(i) => i,
        None => {
            let e = String::from_str("Node '").concat(node_name.as_str()).concat("' not found");
            return Err(e);
        },
    };
    let start_id = parse_result.lineage.nodes[fi].id.clone();
    proof {
        let ci = choose|i: int|
            is_first_node_with_name(parse_result.lineage.nodes@, node_name@, i);
        lemma_first_node_with_name_unique(
            parse_result.lineage.nodes@,
            node_name@,
            fi as int,
            ci,
        );
    }
    // reversed pairs: walk from target back to source
    let mut pairs: Vec<(String, String)> = Vec::new();
    let mut j: usize = 0;
    while j < parse_result.lineage.edges.len()
        invariant
            0 <= j <= parse_result.lineage.edges@.len(),
            pair_views(pairs@) =~= rpairs(parse_result.lineage.edges@.take(j as int)),
        decreases parse_result.lineage.edges@.len() - j,
    {
        let ghost prev = pairs@;
        let e = &parse_result.lineage.edges[j];
        pairs.push((e.target.clone(), e.source.clone()));
        proof {
            let es = parse_result.lineage.edges@;
            let pr = (es[j as int].target@, es[j as int].source@);
            assert(pair_views(pairs@) =~= pair_views(prev).push(pr));
            assert(rpairs(es.take(j as int + 1)) =~= rpairs(es.take(j as int)).push(pr));
        }
        j = j + 1;
    }
    proof {
        assert(parse_result.lineage.edges@.take(parse_result.lineage.edges@.len() as int)
            =~= parse_result.lineage.edges@);
    }
    let visited = reach_ids(&pairs, &start_id);
    let ghost ps = rpairs(parse_result.lineage.edges@);
    let ghost start = start_id@;
    let lineage = parse_result.lineage;
    let kept_nodes = filter_nodes_by_reach(lineage.nodes, &visited, Ghost(ps), Ghost(start));
    let kept_edges = filter_edges_by_reach(lineage.edges, &visited, Ghost(ps), Ghost(start));
    let mut filtered_result = ParseResult::default();
    filtered_result.success = true;
    filtered_result.lineage = LineageGraph { nodes: kept_nodes, edges: kept_edges };
    Ok(filtered_result)
}

/// Search nodes by case-insensitive substring match against the name or
/// the description, in graph order.  An empty query matches everything.
pub fn search_nodes(parse_result: ParseResult, query: String) -> (r: Vec<LineageNode>)
    ensures
        r@ == parse_result.lineage.nodes@.filter(
            |n: LineageNode| node_matches_query(n, query@),
        ),
{
    let query_lower = lowercase(query.as_str());
    let ghost orig = parse_result.lineage.nodes@;
    let mut rest = parse_result.lineage.nodes;
    let orig_len: usize = rest.len();
    let mut out: Vec<LineageNode> = Vec::new();
    let mut i: usize = 0;
    proof {
        reveal(Seq::<_>::filter);
        assert(orig.take(0) =~= Seq::<LineageNode>::empty());
        assert(out@ == orig.take(0).filter(|n: LineageNode| node_matches_query(n, query@)));
    }
    while rest.len() > 0
        invariant
            query_lower@ == lower_of(query@),
            orig.len() == orig_len,
            0 <= i <= orig.len(),
            i + rest@.len() == orig.len(),
            rest@ =~= orig.skip(i as int),
            out@ == orig.take(i as int).filter(|n: LineageNode| node_matches_query(n, query@)),
        decreases rest@.len(),
    {
        let n = rest.remove(0);
        proof {
            assert(n == orig[i as int]);
            assert(rest@ =~= orig.skip(i as int + 1));
        }
        let name_lower = lowercase(n.name.as_str());
        let name_hit = contains_sub(name_lower.as_str(), query_lower.as_str());
        let desc_hit = match &n.description {
            Some(d) => {
                let desc_lower = lowercase(d.as_str());
                contains_sub(desc_lower.as_str(), query_lower.as_str())
            },
            None => false,
        };
        let keep = name_hit || desc_hit;
        proof {
            assert(keep == node_matches_query(orig[i as int], query@));
        }
        if keep {
            out.push(n);
        }
        proof {
            reveal(Seq::<_>::filter);
            assert(orig.take(i as int + 1).drop_last() =~= orig.take(i as int));
            assert(orig.take(i as int + 1).last() == orig[i as int]);
            assert(out@ == orig.take(i as int + 1).filter(
                |n: LineageNode| node_matches_query(n, query@),
            ));
        }
        i = i + 1;
    }
    proof {
        assert(orig.take(orig.len() as int) =~= orig);
    }
    out
}

/// Reordering the node and edge lists before an upstream query does not
/// change which ids are reachable: reachability depends only on the set
/// of edge id pairs and the starting id.
pub proof fn lemma_upstream_reach_permutation_invariant(
    g1: LineageGraph,
    g2: LineageGraph,
    start: Seq<char>,
)
    requires
        epairs(g1.edges@).to_set() == epairs(g2.edges@).to_set(),
    ensures
        forall|t: Seq<char>|
            #![trigger reaches(epairs(g1.edges@), start, t)]
            reaches(epairs(g1.edges@), start, t) <==> reaches(epairs(g2.edges@), start, t),
{
    let ps1 = epairs(g1.edges@);
    let ps2 = epairs(g2.edges@);
    lemma_same_pair_set_same_links(ps1, ps2);
    assert forall|t: Seq<char>|
        reaches(ps1, start, t) <==> reaches(ps2, start, t) by {
        lemma_reaches_same_links(ps1, ps2, start, t);
    }
}

} // verus!
