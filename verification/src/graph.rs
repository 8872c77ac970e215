//! Lineage graph construction from parsed project entities.
//!
//! The builder assigns every entity a synthetic node id and resolves
//! name-based cross-references into id-based edges.  Resolution goes
//! through an internal key table scoped to one build: later entities
//! sharing a key overwrite the mapping, but never remove earlier nodes.
//!
//! The specification side mirrors the construction as a fold
//! ([`spec_build`]) over the input collections.  Node ids are opaque
//! (freshly drawn for every build), so the fold records each node's
//! *shape* — type, name, description, annotations — and each edge's
//! endpoints as node positions; [`builds_from`] ties a built graph to
//! that model.

use vstd::prelude::*;
use vstd::string::*;
use crate::types::{
    DbtModel, DbtSource, Dimension, LineageEdge, LineageEdgeType, LineageGraph, LineageNode,
    LineageNodeType, Measure, MetaValue, Metric, MetricRef, SemanticEntity, SemanticModel,
};

verus! {

/// Relies on uuid's `Uuid::new_v4`: a freshly drawn random identifier,
/// rendered in its hyphenated text form.  The result is random, so no
/// contract is stated: everything proved downstream holds for any
/// returned string.
#[verifier::external_body]
fn fresh_id() -> String {
    uuid::Uuid::new_v4().to_string()
}

// =============================================================================
// Spec-level mirrors of the graph data
// =============================================================================

/// The view of an optional string.
pub open spec fn opt_view(o: Option<String>) -> Option<Seq<char>> {
    match o {
        Option::Some(s) => Option::Some(s@),
        Option::None => Option::None,
    }
}

/// The view of an annotation value.
pub ghost enum MetaV {
    TextV(Seq<char>),
    CountV(int),
    FlagV(bool),
    ItemsV(Seq<Seq<char>>),
}

pub open spec fn meta_v(m: MetaValue) -> MetaV {
    match m {
        MetaValue::Text(s) => MetaV::TextV(s@),
        MetaValue::Count(c) => MetaV::CountV(c as int),
        MetaValue::Flag(b) => MetaV::FlagV(b),
        MetaValue::Items(v) => MetaV::ItemsV(v@.map_values(|t: String| t@)),
    }
}

/// Everything observable about a node except its synthetic id.
pub ghost struct NodeShape {
    pub node_type: LineageNodeType,
    pub name: Seq<char>,
    pub description: Option<Seq<char>>,
    pub metadata: Seq<(Seq<char>, MetaV)>,
}

pub open spec fn node_shape(n: LineageNode) -> NodeShape {
    NodeShape {
        node_type: n.node_type,
        name: n.name@,
        description: opt_view(n.description),
        metadata: n.metadata@.map_values(|p: (String, MetaValue)| (p.0@, meta_v(p.1))),
    }
}

/// Everything observable about an edge except its synthetic id: its
/// endpoints are given as positions into the node sequence.
pub ghost struct EdgeShape {
    pub src: int,
    pub tgt: int,
    pub edge_type: LineageEdgeType,
    pub label: Option<Seq<char>>,
}

// =============================================================================
// Resolution keys
// =============================================================================

/// A resolution key, built from an entity's type and qualifying names.
/// Internal to one build pass; never exposed.
pub(crate) enum ResKey {
    SourceKey(String, String),
    ModelKey(String),
    EntityKey(String, String),
    MeasureKey(String, String),
    DimensionKey(String, String),
    MetricKey(String),
}

/// The view of a resolution key.
pub ghost enum KeyV {
    SourceK(Seq<char>, Seq<char>),
    ModelK(Seq<char>),
    EntityK(Seq<char>, Seq<char>),
    MeasureK(Seq<char>, Seq<char>),
    DimensionK(Seq<char>, Seq<char>),
    MetricK(Seq<char>),
}

pub(crate) open spec fn key_v(k: ResKey) -> KeyV {
    match k {
        ResKey::SourceKey(a, b) => KeyV::SourceK(a@, b@),
        ResKey::ModelKey(a) => KeyV::ModelK(a@),
        ResKey::EntityKey(a, b) => KeyV::EntityK(a@, b@),
        ResKey::MeasureKey(a, b) => KeyV::MeasureK(a@, b@),
        ResKey::DimensionKey(a, b) => KeyV::DimensionK(a@, b@),
        ResKey::MetricKey(a) => KeyV::MetricK(a@),
    }
}

fn key_eq(a: &ResKey, b: &ResKey) -> (r: bool)
    ensures
        r == (key_v(*a) == key_v(*b)),
{
    match (a, b) {
        (ResKey::SourceKey(a1, a2), ResKey::SourceKey(b1, b2)) => *a1 == *b1 && *a2 == *b2,
        (ResKey::ModelKey(a1), ResKey::ModelKey(b1)) => *a1 == *b1,
        (ResKey::EntityKey(a1, a2), ResKey::EntityKey(b1, b2)) => *a1 == *b1 && *a2 == *b2,
        (ResKey::MeasureKey(a1, a2), ResKey::MeasureKey(b1, b2)) => *a1 == *b1 && *a2 == *b2,
        (ResKey::DimensionKey(a1, a2), ResKey::DimensionKey(b1, b2)) => *a1 == *b1 && *a2 == *b2,
        (ResKey::MetricKey(a1), ResKey::MetricKey(b1)) => *a1 == *b1,
        _ => false,
    }
}

/// The position of the last entry of `al` whose key has view `k`
/// (later entries win, matching overwrite-on-insert).
pub(crate) open spec fn alist_find(al: Seq<(ResKey, String)>, k: KeyV) -> Option<int>
    decreases al.len(),
{
    if al.len() == 0 {
        Option::None
    } else if key_v(al.last().0) == k {
        Option::Some(al.len() - 1)
    } else {
        alist_find(al.drop_last(), k)
    }
}

proof fn lemma_alist_find_props(al: Seq<(ResKey, String)>, k: KeyV)
    ensures
        match alist_find(al, k) {
            Option::Some(i) => 0 <= i < al.len() && key_v(al[i].0) == k,
            Option::None => true,
        },
    decreases al.len(),
{
    if al.len() > 0 && key_v(al.last().0) != k {
        lemma_alist_find_props(al.drop_last(), k);
    }
}

proof fn lemma_alist_find_push(al: Seq<(ResKey, String)>, k: KeyV, e: (ResKey, String))
    ensures
        alist_find(al.push(e), k) == if key_v(e.0) == k {
            Option::Some(al.len() as int)
        } else {
            alist_find(al, k)
        },
{
    let al2 = al.push(e);
    assert(al2.last() == e);
    if key_v(e.0) != k {
        assert(al2.drop_last() =~= al);
    }
}

/// Skipping a non-matching suffix does not change the lookup result.
proof fn lemma_alist_find_skip(al: Seq<(ResKey, String)>, k: KeyV, i: int)
    requires
        0 <= i <= al.len(),
        forall|jj: int| i <= jj < al.len() ==> key_v(#[trigger] al[jj].0) != k,
    ensures
        alist_find(al, k) == alist_find(al.take(i), k),
    decreases al.len() - i,
{
    if i == al.len() {
        assert(al.take(i) =~= al);
    } else {
        lemma_alist_find_skip(al, k, i + 1);
        let t = al.take(i + 1);
        assert(t.last() == al[i]);
        assert(key_v(t.last().0) != k);
        assert(t.drop_last() =~= al.take(i));
    }
}

// =============================================================================
// The construction model
// =============================================================================

/// The evolving state of one build pass, at the specification level.
pub ghost struct BState {
    pub shapes: Seq<NodeShape>,
    pub edges: Seq<EdgeShape>,
    pub keymap: Map<KeyV, int>,
}

pub open spec fn bs_init() -> BState {
    BState { shapes: Seq::empty(), edges: Seq::empty(), keymap: Map::empty() }
}

/// Register a node: its shape joins the output, and its key now maps to
/// its position (overwriting any earlier holder of the key).
pub open spec fn bs_add_node(st: BState, shape: NodeShape, key: KeyV) -> BState {
    BState {
        shapes: st.shapes.push(shape),
        edges: st.edges,
        keymap: st.keymap.insert(key, st.shapes.len() as int),
    }
}

pub open spec fn bs_add_edge(
    st: BState,
    src: int,
    tgt: int,
    edge_type: LineageEdgeType,
    label: Option<Seq<char>>,
) -> BState {
    BState {
        shapes: st.shapes,
        edges: st.edges.push(EdgeShape { src, tgt, edge_type, label }),
        keymap: st.keymap,
    }
}

/// A conditional annotation: present exactly when the value is.
pub open spec fn opt_meta(key: Seq<char>, v: Option<String>) -> Seq<(Seq<char>, MetaV)> {
    match v {
        Option::Some(s) => seq![(key, MetaV::TextV(s@))],
        Option::None => Seq::empty(),
    }
}

pub open spec fn source_node_shape(s: DbtSource) -> NodeShape {
    NodeShape {
        node_type: LineageNodeType::Source,
        name: s.name@,
        description: opt_view(s.description),
        metadata: opt_meta("schema"@, s.schema) + opt_meta("database"@, s.database) + seq![
            ("source_name"@, MetaV::TextV(s.source_name@)),
            ("columns"@, MetaV::CountV(s.columns@.len() as int)),
        ],
    }
}

pub open spec fn source_key(s: DbtSource) -> KeyV {
    KeyV::SourceK(s.source_name@, s.name@)
}

pub open spec fn bs_sources(st: BState, sources: Seq<DbtSource>, i: int) -> BState
    decreases i,
{
    if i <= 0 {
        st
    } else {
        let prev = bs_sources(st, sources, i - 1);
        bs_add_node(prev, source_node_shape(sources[i - 1]), source_key(sources[i - 1]))
    }
}

// =============================================================================
// The builder
// =============================================================================

pub struct LineageBuilder {
    nodes: Vec<LineageNode>,
    edges: Vec<LineageEdge>,
    node_ids: Vec<(ResKey, String)>,
}

impl LineageBuilder {
    /// The builder holds no nodes, edges or key mappings yet.
    pub closed spec fn fresh(self) -> bool {
        self.nodes@.len() == 0 && self.edges@.len() == 0 && self.node_ids@.len() == 0
    }

    /// The builder's exec state realizes the model state `st`.
    pub(crate) closed spec fn matches(self, st: BState) -> bool {
        &&& self.nodes@.map_values(|n: LineageNode| node_shape(n)) == st.shapes
        &&& self.edges@.len() == st.edges.len()
        &&& forall|j: int|
            0 <= j < self.edges@.len() ==> edge_matches(
                self.nodes@,
                #[trigger] self.edges@[j],
                st.edges[j],
            )
        &&& forall|k: KeyV|
            {
                &&& ((#[trigger] alist_find(self.node_ids@, k)) is Some <==> st.keymap.contains_key(
                    k,
                ))
                &&& (alist_find(self.node_ids@, k) matches Option::Some(i)
                    ==> st.keymap.contains_key(k) && 0 <= st.keymap[k] < self.nodes@.len()
                    && self.node_ids@[i].1@ == self.nodes@[st.keymap[k]].id@)
            }
    }

    pub fn new() -> (r: Self)
        ensures
            r.fresh(),
    {
        LineageBuilder { nodes: Vec::new(), edges: Vec::new(), node_ids: Vec::new() }
    }

    /// Look a key up in the resolution table (the latest entry wins).
    fn get_id(&self, k: &ResKey, Ghost(st): Ghost<BState>) -> (r: Option<String>)
        requires
            self.matches(st),
        ensures
            match r {
                Option::None => !st.keymap.contains_key(key_v(*k)),
                Option::Some(id) => st.keymap.contains_key(key_v(*k)) && 0 <= st.keymap[key_v(*k)]
                    < self.nodes@.len() && id@ == self.nodes@[st.keymap[key_v(*k)]].id@,
            },
    {
        let ghost kv = key_v(*k);
        let mut i: usize = self.node_ids.len();
        while i > 0
            invariant
                self.matches(st),
                0 <= i <= self.node_ids@.len(),
                kv == key_v(*k),
                forall|jj: int|
                    i <= jj < self.node_ids@.len() ==> key_v(#[trigger] self.node_ids@[jj].0) != kv,
            decreases i,
        {
            i = i - 1;
            if key_eq(&self.node_ids[i].0, k) {
                proof {
                    lemma_alist_find_skip(self.node_ids@, kv, i + 1);
                    let t = self.node_ids@.take(i + 1);
                    assert(t.last() == self.node_ids@[i as int]);
                    assert(alist_find(self.node_ids@, kv) == Option::Some(i as int));
                }
                return Some(self.node_ids[i].1.clone());
            }
        }
        proof {
            lemma_alist_find_skip(self.node_ids@, kv, 0);
            assert(self.node_ids@.take(0) =~= Seq::<(ResKey, String)>::empty());
            assert(alist_find(self.node_ids@, kv) is None);
        }
        None
    }

    /// Append a node and register its key.
    fn register_node(
        &mut self,
        node: LineageNode,
        key: ResKey,
        id_copy: String,
        Ghost(st): Ghost<BState>,
    )
        requires
            old(self).matches(st),
            id_copy@ == node.id@,
        ensures
            final(self).matches(bs_add_node(st, node_shape(node), key_v(key))),
            final(self).nodes@ == old(self).nodes@.push(node),
            final(self).edges@ == old(self).edges@,
    {
        let ghost old_nodes = self.nodes@;
        let ghost old_al = self.node_ids@;
        let ghost shape = node_shape(node);
        let ghost kv = key_v(key);
        self.nodes.push(node);
        self.node_ids.push((key, id_copy));
        proof {
            let st2 = bs_add_node(st, shape, kv);
            assert(self.nodes@.map_values(|n: LineageNode| node_shape(n)) =~= st2.shapes);
            assert forall|j: int| 0 <= j < self.edges@.len() implies edge_matches(
                self.nodes@,
                #[trigger] self.edges@[j],
                st2.edges[j],
            ) by {
                assert(edge_matches(old_nodes, self.edges@[j], st.edges[j]));
            }
            assert forall|k: KeyV|
                {
                    &&& ((#[trigger] alist_find(self.node_ids@, k)) is Some
                        <==> st2.keymap.contains_key(k))
                    &&& (alist_find(self.node_ids@, k) matches Option::Some(i)
                        ==> st2.keymap.contains_key(k) && 0 <= st2.keymap[k] < self.nodes@.len()
                        && self.node_ids@[i].1@ == self.nodes@[st2.keymap[k]].id@)
                } by {
                lemma_alist_find_push(old_al, k, (key, id_copy));
                if k == kv {
                    assert(alist_find(self.node_ids@, k) == Option::Some(old_al.len() as int));
                    assert(st2.keymap[k] == old_nodes.len() as int);
                } else {
                    assert(alist_find(self.node_ids@, k) == alist_find(old_al, k));
                    if alist_find(old_al, k) is Some {
                        let i = alist_find(old_al, k).unwrap();
                        lemma_alist_find_props(old_al, k);
                        assert(self.node_ids@[i] == old_al[i]);
                        assert(st2.keymap[k] == st.keymap[k]);
                        assert(self.nodes@[st.keymap[k]] == old_nodes[st.keymap[k]]);
                    }
                }
            }
        }
    }

    /// Append an edge between two already-registered nodes.
    fn push_edge(
        &mut self,
        src_id: String,
        tgt_id: String,
        edge_type: LineageEdgeType,
        label: Option<String>,
        Ghost(st): Ghost<BState>,
        Ghost(si): Ghost<int>,
        Ghost(ti): Ghost<int>,
    )
        requires
            old(self).matches(st),
            0 <= si < old(self).nodes@.len(),
            0 <= ti < old(self).nodes@.len(),
            src_id@ == old(self).nodes@[si].id@,
            tgt_id@ == old(self).nodes@[ti].id@,
        ensures
            final(self).matches(bs_add_edge(st, si, ti, edge_type, opt_view(label))),
            final(self).nodes@ == old(self).nodes@,
    {
        let ghost old_edges = self.edges@;
        let ghost lv = opt_view(label);
        let edge = LineageEdge {
            id: fresh_id(),
            source: src_id,
            target: tgt_id,
            edge_type,
            label,
        };
        self.edges.push(edge);
        proof {
            let st2 = bs_add_edge(st, si, ti, edge_type, lv);
            assert forall|j: int| 0 <= j < self.edges@.len() implies edge_matches(
                self.nodes@,
                #[trigger] self.edges@[j],
                st2.edges[j],
            ) by {
                if j < old_edges.len() {
                    assert(edge_matches(self.nodes@, old_edges[j], st.edges[j]));
                    assert(st2.edges[j] == st.edges[j]);
                } else {
                    assert(self.edges@[j] == edge);
                    assert(st2.edges[j] == (EdgeShape { src: si, tgt: ti, edge_type, label: lv }));
                }
            }
        }
    }
}

/// An exec edge realizes an edge shape against a node sequence.
pub open spec fn edge_matches(nodes: Seq<LineageNode>, e: LineageEdge, es: EdgeShape) -> bool {
    &&& 0 <= es.src < nodes.len()
    &&& 0 <= es.tgt < nodes.len()
    &&& e.edge_type == es.edge_type
    &&& opt_view(e.label) == es.label
    &&& e.source@ == nodes[es.src].id@
    &&& e.target@ == nodes[es.tgt].id@
}

// =============================================================================
// Small exec helpers
// =============================================================================

/// A copy of a string vector, equal element for element.
pub fn clone_strings(v: &Vec<String>) -> (r: Vec<String>)
    ensures
        r@ == v@,
{
    let mut r: Vec<String> = Vec::new();
    let mut i: usize = 0;
    while i < v.len()
        invariant
            0 <= i <= v@.len(),
            r@ =~= v@.take(i as int),
        decreases v@.len() - i,
    {
        r.push(v[i].clone());
        i = i + 1;
    }
    proof {
        assert(r@ =~= v@);
    }
    r
}

/// A copy of an optional string, equal to its input.
pub fn clone_opt_string(o: &Option<String>) -> (r: Option<String>)
    ensures
        r == *o,
{
    match o {
        Some(s) => Some(s.clone()),
        None => None,
    }
}

} // verus!

verus! {

// =============================================================================
// Node shapes and keys per entity kind
// =============================================================================

/// A conditional boolean annotation.
pub open spec fn flag_meta(key: Seq<char>, v: Option<bool>) -> Seq<(Seq<char>, MetaV)> {
    match v {
        Option::Some(b) => seq![(key, MetaV::FlagV(b))],
        Option::None => Seq::empty(),
    }
}

pub open spec fn model_node_shape(m: DbtModel) -> NodeShape {
    NodeShape {
        node_type: LineageNodeType::Model,
        name: m.name@,
        description: opt_view(m.description),
        metadata: opt_meta("materialization"@, m.materialization) + seq![
            ("file_path"@, MetaV::TextV(m.file_path@)),
            ("columns"@, MetaV::CountV(m.columns@.len() as int)),
            ("tags"@, MetaV::ItemsV(m.tags@.map_values(|t: String| t@))),
        ],
    }
}

pub open spec fn model_key(m: DbtModel) -> KeyV {
    KeyV::ModelK(m.name@)
}

pub open spec fn entity_node_shape(sm_name: Seq<char>, e: SemanticEntity) -> NodeShape {
    NodeShape {
        node_type: LineageNodeType::Entity,
        name: e.name@,
        description: opt_view(e.description),
        metadata: seq![
            ("entity_type"@, MetaV::TextV(e.entity_type@)),
            ("semantic_model"@, MetaV::TextV(sm_name)),
        ] + opt_meta("expr"@, e.expr),
    }
}

pub open spec fn measure_node_shape(sm_name: Seq<char>, m: Measure) -> NodeShape {
    NodeShape {
        node_type: LineageNodeType::Measure,
        name: m.name@,
        description: opt_view(m.description),
        metadata: seq![
            ("agg"@, MetaV::TextV(m.agg@)),
            ("semantic_model"@, MetaV::TextV(sm_name)),
        ] + opt_meta("expr"@, m.expr) + flag_meta("create_metric"@, m.create_metric),
    }
}

pub open spec fn dimension_node_shape(sm_name: Seq<char>, d: Dimension) -> NodeShape {
    NodeShape {
        node_type: LineageNodeType::Dimension,
        name: d.name@,
        description: opt_view(d.description),
        metadata: seq![
            ("dimension_type"@, MetaV::TextV(d.dimension_type@)),
            ("semantic_model"@, MetaV::TextV(sm_name)),
        ] + opt_meta("expr"@, d.expr),
    }
}

pub open spec fn metric_node_shape(m: Metric) -> NodeShape {
    NodeShape {
        node_type: LineageNodeType::Metric,
        name: m.name@,
        description: opt_view(m.description),
        metadata: seq![("metric_type"@, MetaV::TextV(m.metric_type@))] + opt_meta(
            "filter"@,
            m.filter,
        ) + opt_meta("label"@, m.label),
    }
}

// =============================================================================
// The six construction phases, as folds
// =============================================================================

pub open spec fn bs_models(st: BState, models: Seq<DbtModel>, i: int) -> BState
    decreases i,
{
    if i <= 0 {
        st
    } else {
        let prev = bs_models(st, models, i - 1);
        bs_add_node(prev, model_node_shape(models[i - 1]), model_key(models[i - 1]))
    }
}

/// Edges from one model to the models it references, in declaration order.
pub open spec fn bs_ref_edges(st: BState, mid: int, refs: Seq<String>, j: int) -> BState
    decreases j,
{
    if j <= 0 {
        st
    } else {
        let prev = bs_ref_edges(st, mid, refs, j - 1);
        let k = KeyV::ModelK(refs[j - 1]@);
        if prev.keymap.contains_key(k) {
            bs_add_edge(prev, mid, prev.keymap[k], LineageEdgeType::ModelToModel, Option::Some("ref"@))
        } else {
            prev
        }
    }
}

/// Edges from one model to the source tables it references.
pub open spec fn bs_src_edges(
    st: BState,
    mid: int,
    srefs: Seq<crate::types::DbtSourceRef>,
    j: int,
) -> BState
    decreases j,
{
    if j <= 0 {
        st
    } else {
        let prev = bs_src_edges(st, mid, srefs, j - 1);
        let k = KeyV::SourceK(srefs[j - 1].source_name@, srefs[j - 1].table_name@);
        if prev.keymap.contains_key(k) {
            bs_add_edge(prev, mid, prev.keymap[k], LineageEdgeType::ModelToSource, Option::Some("source"@))
        } else {
            prev
        }
    }
}

pub open spec fn bs_model_edges_step(st: BState, m: DbtModel) -> BState {
    let k = KeyV::ModelK(m.name@);
    if st.keymap.contains_key(k) {
        let mid = st.keymap[k];
        bs_src_edges(
            bs_ref_edges(st, mid, m.refs@, m.refs@.len() as int),
            mid,
            m.sources@,
            m.sources@.len() as int,
        )
    } else {
        st
    }
}

pub open spec fn bs_model_edges(st: BState, models: Seq<DbtModel>, i: int) -> BState
    decreases i,
{
    if i <= 0 {
        st
    } else {
        bs_model_edges_step(bs_model_edges(st, models, i - 1), models[i - 1])
    }
}

/// The position of the first entity declared with the primary role.
pub open spec fn is_first_primary(entities: Seq<SemanticEntity>, i: int) -> bool {
    &&& 0 <= i < entities.len()
    &&& entities[i].entity_type@ == "primary"@
    &&& forall|k: int| 0 <= k < i ==> (#[trigger] entities[k].entity_type@) != "primary"@
}

pub proof fn lemma_first_primary_unique(entities: Seq<SemanticEntity>, i: int, j: int)
    requires
        is_first_primary(entities, i),
        is_first_primary(entities, j),
    ensures
        i == j,
{
    if i < j {
        assert(entities[i].entity_type@ != "primary"@);
    }
    if j < i {
        assert(entities[j].entity_type@ != "primary"@);
    }
}

pub open spec fn bs_entity_step(st: BState, sm: SemanticModel, e: SemanticEntity) -> BState {
    let st1 = bs_add_node(st, entity_node_shape(sm.name@, e), KeyV::EntityK(sm.name@, e.name@));
    let mk = KeyV::ModelK(sm.model@);
    if st1.keymap.contains_key(mk) {
        bs_add_edge(st1, st1.shapes.len() - 1, st1.keymap[mk], LineageEdgeType::EntityToModel, Option::None)
    } else {
        st1
    }
}

pub open spec fn bs_entities(st: BState, sm: SemanticModel, i: int) -> BState
    decreases i,
{
    if i <= 0 {
        st
    } else {
        bs_entity_step(bs_entities(st, sm, i - 1), sm, sm.entities@[i - 1])
    }
}

/// Wire a freshly added measure or dimension node to the semantic
/// model's primary entity, when one exists and resolves.
pub open spec fn bs_primary_edge(
    st1: BState,
    sm: SemanticModel,
    edge_type: LineageEdgeType,
) -> BState {
    if exists|i: int| is_first_primary(sm.entities@, i) {
        let i = choose|i: int| is_first_primary(sm.entities@, i);
        let ek = KeyV::EntityK(sm.name@, sm.entities@[i].name@);
        if st1.keymap.contains_key(ek) {
            bs_add_edge(st1, st1.shapes.len() - 1, st1.keymap[ek], edge_type, Option::None)
        } else {
            st1
        }
    } else {
        st1
    }
}

pub open spec fn bs_measure_step(st: BState, sm: SemanticModel, m: Measure) -> BState {
    let st1 = bs_add_node(st, measure_node_shape(sm.name@, m), KeyV::MeasureK(sm.name@, m.name@));
    bs_primary_edge(st1, sm, LineageEdgeType::MeasureToEntity)
}

pub open spec fn bs_measures(st: BState, sm: SemanticModel, i: int) -> BState
    decreases i,
{
    if i <= 0 {
        st
    } else {
        bs_measure_step(bs_measures(st, sm, i - 1), sm, sm.measures@[i - 1])
    }
}

pub open spec fn bs_dimension_step(st: BState, sm: SemanticModel, d: Dimension) -> BState {
    let st1 = bs_add_node(
        st,
        dimension_node_shape(sm.name@, d),
        KeyV::DimensionK(sm.name@, d.name@),
    );
    bs_primary_edge(st1, sm, LineageEdgeType::DimensionToEntity)
}

pub open spec fn bs_dimensions(st: BState, sm: SemanticModel, i: int) -> BState
    decreases i,
{
    if i <= 0 {
        st
    } else {
        bs_dimension_step(bs_dimensions(st, sm, i - 1), sm, sm.dimensions@[i - 1])
    }
}

pub open spec fn bs_sm_step(st: BState, sm: SemanticModel) -> BState {
    bs_dimensions(
        bs_measures(bs_entities(st, sm, sm.entities@.len() as int), sm, sm.measures@.len() as int),
        sm,
        sm.dimensions@.len() as int,
    )
}

pub open spec fn bs_sms(st: BState, sms: Seq<SemanticModel>, i: int) -> BState
    decreases i,
{
    if i <= 0 {
        st
    } else {
        bs_sm_step(bs_sms(st, sms, i - 1), sms[i - 1])
    }
}

pub open spec fn metric_key(m: Metric) -> KeyV {
    KeyV::MetricK(m.name@)
}

pub open spec fn bs_metric_nodes(st: BState, metrics: Seq<Metric>, i: int) -> BState
    decreases i,
{
    if i <= 0 {
        st
    } else {
        let prev = bs_metric_nodes(st, metrics, i - 1);
        bs_add_node(prev, metric_node_shape(metrics[i - 1]), metric_key(metrics[i - 1]))
    }
}

/// The position of the first semantic model whose measure key for
/// `mname` is registered.
pub open spec fn is_first_measure_owner(
    km: Map<KeyV, int>,
    sms: Seq<SemanticModel>,
    mname: Seq<char>,
    i: int,
) -> bool {
    &&& 0 <= i < sms.len()
    &&& km.contains_key(KeyV::MeasureK(sms[i].name@, mname))
    &&& forall|k: int|
        0 <= k < i ==> !km.contains_key(KeyV::MeasureK((#[trigger] sms[k]).name@, mname))
}

pub proof fn lemma_first_measure_owner_unique(
    km: Map<KeyV, int>,
    sms: Seq<SemanticModel>,
    mname: Seq<char>,
    i: int,
    j: int,
)
    requires
        is_first_measure_owner(km, sms, mname, i),
        is_first_measure_owner(km, sms, mname, j),
    ensures
        i == j,
{
    if i < j {
        assert(!km.contains_key(KeyV::MeasureK(sms[i].name@, mname)));
    }
    if j < i {
        assert(!km.contains_key(KeyV::MeasureK(sms[j].name@, mname)));
    }
}

/// Edges from a derived metric to the metrics it references.
pub open spec fn bs_derived_edges(st: BState, mid: int, refs: Seq<MetricRef>, j: int) -> BState
    decreases j,
{
    if j <= 0 {
        st
    } else {
        let prev = bs_derived_edges(st, mid, refs, j - 1);
        let k = KeyV::MetricK(refs[j - 1].name@);
        if prev.keymap.contains_key(k) {
            bs_add_edge(
                prev,
                mid,
                prev.keymap[k],
                LineageEdgeType::MetricToMetric,
                opt_view(refs[j - 1].offset_window),
            )
        } else {
            prev
        }
    }
}

pub open spec fn bs_metric_edge_step(st: BState, mt: Metric, sms: Seq<SemanticModel>) -> BState {
    let mk = KeyV::MetricK(mt.name@);
    if !st.keymap.contains_key(mk) {
        st
    } else {
        let mid = st.keymap[mk];
        if mt.metric_type@ == "simple"@ || mt.metric_type@ == "cumulative"@ {
            match mt.type_params.measure {
                Option::Some(mr) => {
                    if exists|i: int| is_first_measure_owner(st.keymap, sms, mr.name@, i) {
                        let i = choose|i: int| is_first_measure_owner(st.keymap, sms, mr.name@, i);
                        bs_add_edge(
                            st,
                            mid,
                            st.keymap[KeyV::MeasureK(sms[i].name@, mr.name@)],
                            LineageEdgeType::MetricToMeasure,
                            Option::None,
                        )
                    } else {
                        st
                    }
                },
                Option::None => st,
            }
        } else if mt.metric_type@ == "derived"@ {
            match mt.type_params.metrics {
                Option::Some(refs) => bs_derived_edges(st, mid, refs@, refs@.len() as int),
                Option::None => st,
            }
        } else {
            st
        }
    }
}

pub open spec fn bs_metric_edges(
    st: BState,
    metrics: Seq<Metric>,
    sms: Seq<SemanticModel>,
    i: int,
) -> BState
    decreases i,
{
    if i <= 0 {
        st
    } else {
        bs_metric_edge_step(bs_metric_edges(st, metrics, sms, i - 1), metrics[i - 1], sms)
    }
}

/// The complete construction: sources, then models, then model edges,
/// then semantic models, then metric nodes, then metric edges.
pub open spec fn spec_build(
    models: Seq<DbtModel>,
    sources: Seq<DbtSource>,
    sms: Seq<SemanticModel>,
    metrics: Seq<Metric>,
) -> BState {
    let st1 = bs_sources(bs_init(), sources, sources.len() as int);
    let st2 = bs_models(st1, models, models.len() as int);
    let st3 = bs_model_edges(st2, models, models.len() as int);
    let st4 = bs_sms(st3, sms, sms.len() as int);
    let st5 = bs_metric_nodes(st4, metrics, metrics.len() as int);
    bs_metric_edges(st5, metrics, sms, metrics.len() as int)
}

/// The graph realizes the construction model of the given inputs:
/// node shapes in order, and every edge connecting the node positions
/// the model gives it.
pub open spec fn builds_from(
    g: LineageGraph,
    models: Seq<DbtModel>,
    sources: Seq<DbtSource>,
    sms: Seq<SemanticModel>,
    metrics: Seq<Metric>,
) -> bool {
    let st = spec_build(models, sources, sms, metrics);
    &&& g.nodes@.map_values(|n: LineageNode| node_shape(n)) == st.shapes
    &&& g.edges@.len() == st.edges.len()
    &&& forall|j: int|
        0 <= j < g.edges@.len() ==> edge_matches(g.nodes@, #[trigger] g.edges@[j], st.edges[j])
}

} // verus!

verus! {

impl LineageBuilder {
    fn add_source_node(&mut self, source: &DbtSource, Ghost(st): Ghost<BState>)
        requires
            old(self).matches(st),
        ensures
            final(self).matches(
                bs_add_node(st, source_node_shape(*source), source_key(*source)),
            ),
    {
        let id = fresh_id();
        let mut metadata: Vec<(String, MetaValue)> = Vec::new();
        match &source.schema {
            Some(v) => metadata.push((String::from_str("schema"), MetaValue::Text(v.clone()))),
            None => {},
        }
        match &source.database {
            Some(v) => metadata.push((String::from_str("database"), MetaValue::Text(v.clone()))),
            None => {},
        }
        metadata.push((
            String::from_str("source_name"),
            MetaValue::Text(source.source_name.clone()),
        ));
        metadata.push((String::from_str("columns"), MetaValue::Count(source.columns.len())));
        let node = LineageNode {
            id: id.clone(),
            node_type: LineageNodeType::Source,
            name: source.name.clone(),
            description: clone_opt_string(&source.description),
            metadata,
        };
        proof {
            assert(node_shape(node).metadata =~= source_node_shape(*source).metadata);
            assert(node_shape(node) == source_node_shape(*source));
        }
        self.register_node(
            node,
            ResKey::SourceKey(source.source_name.clone(), source.name.clone()),
            id,
            Ghost(st),
        );
    }

    fn add_model_node(&mut self, model: &DbtModel, Ghost(st): Ghost<BState>)
        requires
            old(self).matches(st),
        ensures
            final(self).matches(bs_add_node(st, model_node_shape(*model), model_key(*model))),
    {
        let id = fresh_id();
        let mut metadata: Vec<(String, MetaValue)> = Vec::new();
        match &model.materialization {
            Some(v) => metadata.push((
                String::from_str("materialization"),
                MetaValue::Text(v.clone()),
            )),
            None => {},
        }
        metadata.push((String::from_str("file_path"), MetaValue::Text(model.file_path.clone())));
        metadata.push((String::from_str("columns"), MetaValue::Count(model.columns.len())));
        metadata.push((String::from_str("tags"), MetaValue::Items(clone_strings(&model.tags))));
        let node = LineageNode {
            id: id.clone(),
            node_type: LineageNodeType::Model,
            name: model.name.clone(),
            description: clone_opt_string(&model.description),
            metadata,
        };
        proof {
            assert(node_shape(node).metadata =~= model_node_shape(*model).metadata);
            assert(node_shape(node) == model_node_shape(*model));
        }
        self.register_node(node, ResKey::ModelKey(model.name.clone()), id, Ghost(st));
    }
}

} // verus!

verus! {

/// The position of the first entity declared with the primary role, if any.
fn find_primary_entity(entities: &Vec<SemanticEntity>) -> (r: Option<usize>)
    ensures
        match r {
            Option::Some(i) => is_first_primary(entities@, i as int),
            Option::None => forall|k: int|
                0 <= k < entities@.len() ==> (#[trigger] entities@[k].entity_type@) != "primary"@,
        },
{
    let prim = String::from_str("primary");
    let mut i: usize = 0;
    while i < entities.len()
        invariant
            prim@ == "primary"@,
            0 <= i <= entities@.len(),
            forall|k: int| 0 <= k < i ==> (#[trigger] entities@[k].entity_type@) != "primary"@,
        decreases entities@.len() - i,
    {
        if entities[i].entity_type == prim {
            return Some(i);
        }
        i = i + 1;
    }
    None
}

impl LineageBuilder {
    fn add_model_edges(&mut self, model: &DbtModel, Ghost(st): Ghost<BState>)
        requires
            old(self).matches(st),
        ensures
            final(self).matches(bs_model_edges_step(st, *model)),
    {
        let model_key_e = ResKey::ModelKey(model.name.clone());
        let model_id_opt = self.get_id(&model_key_e, Ghost(st));
        match model_id_opt {
            None => {},
            Some(model_id) => {
                let ghost mid = st.keymap[KeyV::ModelK(model.name@)];
                let mut j: usize = 0;
                while j < model.refs.len()
                    invariant
                        0 <= j <= model.refs@.len(),
                        self.matches(bs_ref_edges(st, mid, model.refs@, j as int)),
                        0 <= mid < self.nodes@.len(),
                        model_id@ == self.nodes@[mid].id@,
                    decreases model.refs@.len() - j,
                {
                    let ghost cur = bs_ref_edges(st, mid, model.refs@, j as int);
                    let ref_key = ResKey::ModelKey(model.refs[j].clone());
                    match self.get_id(&ref_key, Ghost(cur)) {
                        Some(rid) => {
                            let ghost ti = cur.keymap[KeyV::ModelK(model.refs@[j as int]@)];
                            self.push_edge(
                                model_id.clone(),
                                rid,
                                LineageEdgeType::ModelToModel,
                                Some(String::from_str("ref")),
                                Ghost(cur),
                                Ghost(mid),
                                Ghost(ti),
                            );
                        },
                        None => {},
                    }
                    j = j + 1;
                }
                let mut j2: usize = 0;
                let ghost st_refs = bs_ref_edges(st, mid, model.refs@, model.refs@.len() as int);
                while j2 < model.sources.len()
                    invariant
                        0 <= j2 <= model.sources@.len(),
                        st_refs == bs_ref_edges(st, mid, model.refs@, model.refs@.len() as int),
                        self.matches(bs_src_edges(st_refs, mid, model.sources@, j2 as int)),
                        0 <= mid < self.nodes@.len(),
                        model_id@ == self.nodes@[mid].id@,
                    decreases model.sources@.len() - j2,
                {
                    let ghost cur = bs_src_edges(st_refs, mid, model.sources@, j2 as int);
                    let source_key_e = ResKey::SourceKey(
                        model.sources[j2].source_name.clone(),
                        model.sources[j2].table_name.clone(),
                    );
                    match self.get_id(&source_key_e, Ghost(cur)) {
                        Some(sid) => {
                            let ghost ti = cur.keymap[KeyV::SourceK(
                                model.sources@[j2 as int].source_name@,
                                model.sources@[j2 as int].table_name@,
                            )];
                            self.push_edge(
                                model_id.clone(),
                                sid,
                                LineageEdgeType::ModelToSource,
                                Some(String::from_str("source")),
                                Ghost(cur),
                                Ghost(mid),
                                Ghost(ti),
                            );
                        },
                        None => {},
                    }
                    j2 = j2 + 1;
                }
            },
        }
    }
}

} // verus!

verus! {

impl LineageBuilder {
    fn add_entity_nodes(&mut self, sm: &SemanticModel, Ghost(st): Ghost<BState>)
        requires
            old(self).matches(st),
        ensures
            final(self).matches(bs_entities(st, *sm, sm.entities@.len() as int)),
    {
        let mut i: usize = 0;
        while i < sm.entities.len()
            invariant
                0 <= i <= sm.entities@.len(),
                self.matches(bs_entities(st, *sm, i as int)),
            decreases sm.entities@.len() - i,
        {
            let ghost cur = bs_entities(st, *sm, i as int);
            let entity = &sm.entities[i];
            let id = fresh_id();
            let mut metadata: Vec<(String, MetaValue)> = Vec::new();
            metadata.push((
                String::from_str("entity_type"),
                MetaValue::Text(entity.entity_type.clone()),
            ));
            metadata.push((
                String::from_str("semantic_model"),
                MetaValue::Text(sm.name.clone()),
            ));
            match &entity.expr {
                Some(v) => metadata.push((String::from_str("expr"), MetaValue::Text(v.clone()))),
                None => {},
            }
            let node = LineageNode {
                id: id.clone(),
                node_type: LineageNodeType::Entity,
                name: entity.name.clone(),
                description: clone_opt_string(&entity.description),
                metadata,
            };
            proof {
                assert(node_shape(node).metadata =~= entity_node_shape(
                    sm.name@,
                    sm.entities@[i as int],
                ).metadata);
                assert(node_shape(node) == entity_node_shape(sm.name@, sm.entities@[i as int]));
            }
            self.register_node(
                node,
                ResKey::EntityKey(sm.name.clone(), entity.name.clone()),
                id.clone(),
                Ghost(cur),
            );
            let ghost st1 = bs_add_node(
                cur,
                entity_node_shape(sm.name@, sm.entities@[i as int]),
                KeyV::EntityK(sm.name@, sm.entities@[i as int].name@),
            );
            let ghost eidx = self.nodes@.len() - 1;
            let mk = ResKey::ModelKey(sm.model.clone());
            match self.get_id(&mk, Ghost(st1)) {
                Some(model_id) => {
                    let ghost ti = st1.keymap[KeyV::ModelK(sm.model@)];
                    self.push_edge(
                        id,
                        model_id,
                        LineageEdgeType::EntityToModel,
                        None,
                        Ghost(st1),
                        Ghost(eidx),
                        Ghost(ti),
                    );
                },
                None => {},
            }
            i = i + 1;
        }
    }

    fn add_measure_nodes(&mut self, sm: &SemanticModel, Ghost(st): Ghost<BState>)
        requires
            old(self).matches(st),
        ensures
            final(self).matches(bs_measures(st, *sm, sm.measures@.len() as int)),
    {
        let mut i: usize = 0;
        while i < sm.measures.len()
            invariant
                0 <= i <= sm.measures@.len(),
                self.matches(bs_measures(st, *sm, i as int)),
            decreases sm.measures@.len() - i,
        {
            let ghost cur = bs_measures(st, *sm, i as int);
            let measure = &sm.measures[i];
            let id = fresh_id();
            let mut metadata: Vec<(String, MetaValue)> = Vec::new();
            metadata.push((String::from_str("agg"), MetaValue::Text(measure.agg.clone())));
            metadata.push((
                String::from_str("semantic_model"),
                MetaValue::Text(sm.name.clone()),
            ));
            match &measure.expr {
                Some(v) => metadata.push((String::from_str("expr"), MetaValue::Text(v.clone()))),
                None => {},
            }
            match &measure.create_metric {
                Some(b) => metadata.push((String::from_str("create_metric"), MetaValue::Flag(*b))),
                None => {},
            }
            let node = LineageNode {
                id: id.clone(),
                node_type: LineageNodeType::Measure,
                name: measure.name.clone(),
                description: clone_opt_string(&measure.description),
                metadata,
            };
            proof {
                assert(node_shape(node).metadata =~= measure_node_shape(
                    sm.name@,
                    sm.measures@[i as int],
                ).metadata);
                assert(node_shape(node) == measure_node_shape(sm.name@, sm.measures@[i as int]));
            }
            self.register_node(
                node,
                ResKey::MeasureKey(sm.name.clone(), measure.name.clone()),
                id.clone(),
                Ghost(cur),
            );
            let ghost st1 = bs_add_node(
                cur,
                measure_node_shape(sm.name@, sm.measures@[i as int]),
                KeyV::MeasureK(sm.name@, sm.measures@[i as int].name@),
            );
            let ghost midx = self.nodes@.len() - 1;
            self.attach_primary_edge(
                sm,
                id,
                LineageEdgeType::MeasureToEntity,
                Ghost(st1),
                Ghost(midx),
            );
            i = i + 1;
        }
    }

    fn add_dimension_nodes(&mut self, sm: &SemanticModel, Ghost(st): Ghost<BState>)
        requires
            old(self).matches(st),
        ensures
            final(self).matches(bs_dimensions(st, *sm, sm.dimensions@.len() as int)),
    {
        let mut i: usize = 0;
        while i < sm.dimensions.len()
            invariant
                0 <= i <= sm.dimensions@.len(),
                self.matches(bs_dimensions(st, *sm, i as int)),
            decreases sm.dimensions@.len() - i,
        {
            let ghost cur = bs_dimensions(st, *sm, i as int);
            let dim = &sm.dimensions[i];
            let id = fresh_id();
            let mut metadata: Vec<(String, MetaValue)> = Vec::new();
            metadata.push((
                String::from_str("dimension_type"),
                MetaValue::Text(dim.dimension_type.clone()),
            ));
            metadata.push((
                String::from_str("semantic_model"),
                MetaValue::Text(sm.name.clone()),
            ));
            match &dim.expr {
                Some(v) => metadata.push((String::from_str("expr"), MetaValue::Text(v.clone()))),
                None => {},
            }
            let node = LineageNode {
                id: id.clone(),
                node_type: LineageNodeType::Dimension,
                name: dim.name.clone(),
                description: clone_opt_string(&dim.description),
                metadata,
            };
            proof {
                assert(node_shape(node).metadata =~= dimension_node_shape(
                    sm.name@,
                    sm.dimensions@[i as int],
                ).metadata);
                assert(node_shape(node) == dimension_node_shape(
                    sm.name@,
                    sm.dimensions@[i as int],
                ));
            }
            self.register_node(
                node,
                ResKey::DimensionKey(sm.name.clone(), dim.name.clone()),
                id.clone(),
                Ghost(cur),
            );
            let ghost st1 = bs_add_node(
                cur,
                dimension_node_shape(sm.name@, sm.dimensions@[i as int]),
                KeyV::DimensionK(sm.name@, sm.dimensions@[i as int].name@),
            );
            let ghost didx = self.nodes@.len() - 1;
            self.attach_primary_edge(
                sm,
                id,
                LineageEdgeType::DimensionToEntity,
                Ghost(st1),
                Ghost(didx),
            );
            i = i + 1;
        }
    }

    /// Wire the node just added (at position `nidx`, with id `node_id`) to
    /// the semantic model's primary entity, when one exists and resolves.
    fn attach_primary_edge(
        &mut self,
        sm: &SemanticModel,
        node_id: String,
        edge_type: LineageEdgeType,
        Ghost(st1): Ghost<BState>,
        Ghost(nidx): Ghost<int>,
    )
        requires
            old(self).matches(st1),
            nidx == st1.shapes.len() - 1,
            0 <= nidx < old(self).nodes@.len(),
            node_id@ == old(self).nodes@[nidx].id@,
        ensures
            final(self).matches(bs_primary_edge(st1, *sm, edge_type)),
    {
        match find_primary_entity(&sm.entities) {
            Some(pi) => {
                proof {
                    let ci = choose|i: int| is_first_primary(sm.entities@, i);
                    lemma_first_primary_unique(sm.entities@, pi as int, ci);
                    assert(ci == pi as int);
                }
                let ek = ResKey::EntityKey(sm.name.clone(), sm.entities[pi].name.clone());
                match self.get_id(&ek, Ghost(st1)) {
                    Some(eid) => {
                        let ghost ti = st1.keymap[KeyV::EntityK(
                            sm.name@,
                            sm.entities@[pi as int].name@,
                        )];
                        self.push_edge(
                            node_id,
                            eid,
                            edge_type,
                            None,
                            Ghost(st1),
                            Ghost(nidx),
                            Ghost(ti),
                        );
                    },
                    None => {},
                }
            },
            None => {
                proof {
                    if exists|i: int| is_first_primary(sm.entities@, i) {
                        let ci = choose|i: int| is_first_primary(sm.entities@, i);
                        assert(sm.entities@[ci].entity_type@ != "primary"@);
                    }
                }
            },
        }
    }

    fn add_semantic_model_nodes(&mut self, sm: &SemanticModel, Ghost(st): Ghost<BState>)
        requires
            old(self).matches(st),
        ensures
            final(self).matches(bs_sm_step(st, *sm)),
    {
        self.add_entity_nodes(sm, Ghost(st));
        let ghost st_e = bs_entities(st, *sm, sm.entities@.len() as int);
        self.add_measure_nodes(sm, Ghost(st_e));
        let ghost st_m = bs_measures(st_e, *sm, sm.measures@.len() as int);
        self.add_dimension_nodes(sm, Ghost(st_m));
    }
}

} // verus!

verus! {

impl LineageBuilder {
    fn add_metric_node(&mut self, metric: &Metric, Ghost(st): Ghost<BState>)
        requires
            old(self).matches(st),
        ensures
            final(self).matches(bs_add_node(st, metric_node_shape(*metric), metric_key(*metric))),
    {
        let id = fresh_id();
        let mut metadata: Vec<(String, MetaValue)> = Vec::new();
        metadata.push((
            String::from_str("metric_type"),
            MetaValue::Text(metric.metric_type.clone()),
        ));
        match &metric.filter {
            Some(v) => metadata.push((String::from_str("filter"), MetaValue::Text(v.clone()))),
            None => {},
        }
        match &metric.label {
            Some(v) => metadata.push((String::from_str("label"), MetaValue::Text(v.clone()))),
            None => {},
        }
        let node = LineageNode {
            id: id.clone(),
            node_type: LineageNodeType::Metric,
            name: metric.name.clone(),
            description: clone_opt_string(&metric.description),
            metadata,
        };
        proof {
            assert(node_shape(node).metadata =~= metric_node_shape(*metric).metadata);
            assert(node_shape(node) == metric_node_shape(*metric));
        }
        self.register_node(node, ResKey::MetricKey(metric.name.clone()), id, Ghost(st));
    }

    fn add_metric_edges(
        &mut self,
        metric: &Metric,
        semantic_models: &Vec<SemanticModel>,
        Ghost(st): Ghost<BState>,
    )
        requires
            old(self).matches(st),
        ensures
            final(self).matches(bs_metric_edge_step(st, *metric, semantic_models@)),
    {
        let metric_key_e = ResKey::MetricKey(metric.name.clone());
        let metric_id_opt = self.get_id(&metric_key_e, Ghost(st));
        match metric_id_opt {
            None => {},
            Some(metric_id) => {
                let ghost mid = st.keymap[KeyV::MetricK(metric.name@)];
                let simple = String::from_str("simple");
                let cumulative = String::from_str("cumulative");
                let derived = String::from_str("derived");
                if metric.metric_type == simple || metric.metric_type == cumulative {
                    match &metric.type_params.measure {
                        Some(measure_ref) => {
                            let mut i: usize = 0;
                            let mut target: Option<String> = None;
                            let ghost mut tidx: int = 0;
                            while i < semantic_models.len() && target.is_none()
                                invariant
                                    self.matches(st),
                                    0 <= i <= semantic_models@.len(),
                                    0 <= mid < self.nodes@.len(),
                                    metric_id@ == self.nodes@[mid].id@,
                                    target is None ==> forall|k: int|
                                        0 <= k < i ==> !st.keymap.contains_key(
                                            KeyV::MeasureK(
                                                (#[trigger] semantic_models@[k]).name@,
                                                measure_ref.name@,
                                            ),
                                        ),
                                    target matches Option::Some(t) ==> {
                                        &&& is_first_measure_owner(
                                            st.keymap,
                                            semantic_models@,
                                            measure_ref.name@,
                                            tidx,
                                        )
                                        &&& st.keymap.contains_key(
                                            KeyV::MeasureK(
                                                semantic_models@[tidx].name@,
                                                measure_ref.name@,
                                            ),
                                        )
                                        &&& 0 <= st.keymap[KeyV::MeasureK(
                                            semantic_models@[tidx].name@,
                                            measure_ref.name@,
                                        )] < self.nodes@.len()
                                        &&& t@ == self.nodes@[st.keymap[KeyV::MeasureK(
                                            semantic_models@[tidx].name@,
                                            measure_ref.name@,
                                        )]].id@
                                    },
                                decreases semantic_models@.len() - i,
                            {
                                let mk = ResKey::MeasureKey(
                                    semantic_models[i].name.clone(),
                                    measure_ref.name.clone(),
                                );
                                match self.get_id(&mk, Ghost(st)) {
                                    Some(found) => {
                                        target = Some(found);
                                        proof {
                                            tidx = i as int;
                                        }
                                    },
                                    None => {},
                                }
                                i = i + 1;
                            }
                            match target {
                                Some(measure_id) => {
                                    proof {
                                        let ci = choose|k: int|
                                            is_first_measure_owner(
                                                st.keymap,
                                                semantic_models@,
                                                measure_ref.name@,
                                                k,
                                            );
                                        lemma_first_measure_owner_unique(
                                            st.keymap,
                                            semantic_models@,
                                            measure_ref.name@,
                                            tidx,
                                            ci,
                                        );
                                    }
                                    let ghost ti = st.keymap[KeyV::MeasureK(
                                        semantic_models@[tidx].name@,
                                        measure_ref.name@,
                                    )];
                                    self.push_edge(
                                        metric_id.clone(),
                                        measure_id,
                                        LineageEdgeType::MetricToMeasure,
                                        None,
                                        Ghost(st),
                                        Ghost(mid),
                                        Ghost(ti),
                                    );
                                },
                                None => {
                                    proof {
                                        if exists|k: int|
                                            is_first_measure_owner(
                                                st.keymap,
                                                semantic_models@,
                                                measure_ref.name@,
                                                k,
                                            ) {
                                            let ci = choose|k: int|
                                                is_first_measure_owner(
                                                    st.keymap,
                                                    semantic_models@,
                                                    measure_ref.name@,
                                                    k,
                                                );
                                            assert(!st.keymap.contains_key(
                                                KeyV::MeasureK(
                                                    semantic_models@[ci].name@,
                                                    measure_ref.name@,
                                                ),
                                            ));
                                        }
                                    }
                                },
                            }
                        },
                        None => {},
                    }
                } else if metric.metric_type == derived {
                    match &metric.type_params.metrics {
                        Some(refs) => {
                            let mut j: usize = 0;
                            while j < refs.len()
                                invariant
                                    0 <= j <= refs@.len(),
                                    self.matches(bs_derived_edges(st, mid, refs@, j as int)),
                                    0 <= mid < self.nodes@.len(),
                                    metric_id@ == self.nodes@[mid].id@,
                                decreases refs@.len() - j,
                            {
                                let ghost cur = bs_derived_edges(st, mid, refs@, j as int);
                                let ref_key = ResKey::MetricKey(refs[j].name.clone());
                                match self.get_id(&ref_key, Ghost(cur)) {
                                    Some(rid) => {
                                        let ghost ti = cur.keymap[KeyV::MetricK(
                                            refs@[j as int].name@,
                                        )];
                                        self.push_edge(
                                            metric_id.clone(),
                                            rid,
                                            LineageEdgeType::MetricToMetric,
                                            clone_opt_string(&refs[j].offset_window),
                                            Ghost(cur),
                                            Ghost(mid),
                                            Ghost(ti),
                                        );
                                    },
                                    None => {},
                                }
                                j = j + 1;
                            }
                        },
                        None => {},
                    }
                }
            },
        }
    }
}

} // verus!

verus! {

impl LineageBuilder {
    /// Build a complete lineage graph from all parsed data.
    ///
    /// Total: unresolvable references degrade to dropped edges, never
    /// to errors.  The output realizes the construction model of the
    /// four inputs ([`builds_from`]); only the synthetic ids differ
    /// between two builds of the same inputs.
    pub fn build(
        self,
        models: &Vec<DbtModel>,
        sources: &Vec<DbtSource>,
        semantic_models: &Vec<SemanticModel>,
        metrics: &Vec<Metric>,
    ) -> (g: LineageGraph)
        requires
            self.fresh(),
        ensures
            builds_from(g, models@, sources@, semantic_models@, metrics@),
    {
        let mut b = self;
        proof {
            assert(b.nodes@.map_values(|n: LineageNode| node_shape(n)) =~= bs_init().shapes);
            assert(b.matches(bs_init()));
        }

        let mut i: usize = 0;
        while i < sources.len()
            invariant
                0 <= i <= sources@.len(),
                b.matches(bs_sources(bs_init(), sources@, i as int)),
            decreases sources@.len() - i,
        {
            b.add_source_node(&sources[i], Ghost(bs_sources(bs_init(), sources@, i as int)));
            i = i + 1;
        }
        let ghost st1 = bs_sources(bs_init(), sources@, sources@.len() as int);

        let mut i2: usize = 0;
        while i2 < models.len()
            invariant
                0 <= i2 <= models@.len(),
                st1 == bs_sources(bs_init(), sources@, sources@.len() as int),
                b.matches(bs_models(st1, models@, i2 as int)),
            decreases models@.len() - i2,
        {
            b.add_model_node(&models[i2], Ghost(bs_models(st1, models@, i2 as int)));
            i2 = i2 + 1;
        }
        let ghost st2 = bs_models(st1, models@, models@.len() as int);

        let mut i3: usize = 0;
        while i3 < models.len()
            invariant
                0 <= i3 <= models@.len(),
                st2 == bs_models(st1, models@, models@.len() as int),
                st1 == bs_sources(bs_init(), sources@, sources@.len() as int),
                b.matches(bs_model_edges(st2, models@, i3 as int)),
            decreases models@.len() - i3,
        {
            b.add_model_edges(&models[i3], Ghost(bs_model_edges(st2, models@, i3 as int)));
            i3 = i3 + 1;
        }
        let ghost st3 = bs_model_edges(st2, models@, models@.len() as int);

        let mut i4: usize = 0;
        while i4 < semantic_models.len()
            invariant
                0 <= i4 <= semantic_models@.len(),
                st3 == bs_model_edges(st2, models@, models@.len() as int),
                st2 == bs_models(st1, models@, models@.len() as int),
                st1 == bs_sources(bs_init(), sources@, sources@.len() as int),
                b.matches(bs_sms(st3, semantic_models@, i4 as int)),
            decreases semantic_models@.len() - i4,
        {
            b.add_semantic_model_nodes(
                &semantic_models[i4],
                Ghost(bs_sms(st3, semantic_models@, i4 as int)),
            );
            i4 = i4 + 1;
        }
        let ghost st4 = bs_sms(st3, semantic_models@, semantic_models@.len() as int);

        let mut i5: usize = 0;
        while i5 < metrics.len()
            invariant
                0 <= i5 <= metrics@.len(),
                st4 == bs_sms(st3, semantic_models@, semantic_models@.len() as int),
                st3 == bs_model_edges(st2, models@, models@.len() as int),
                st2 == bs_models(st1, models@, models@.len() as int),
                st1 == bs_sources(bs_init(), sources@, sources@.len() as int),
                b.matches(bs_metric_nodes(st4, metrics@, i5 as int)),
            decreases metrics@.len() - i5,
        {
            b.add_metric_node(&metrics[i5], Ghost(bs_metric_nodes(st4, metrics@, i5 as int)));
            i5 = i5 + 1;
        }
        let ghost st5 = bs_metric_nodes(st4, metrics@, metrics@.len() as int);

        let mut i6: usize = 0;
        while i6 < metrics.len()
            invariant
                0 <= i6 <= metrics@.len(),
                st5 == bs_metric_nodes(st4, metrics@, metrics@.len() as int),
                st4 == bs_sms(st3, semantic_models@, semantic_models@.len() as int),
                st3 == bs_model_edges(st2, models@, models@.len() as int),
                st2 == bs_models(st1, models@, models@.len() as int),
                st1 == bs_sources(bs_init(), sources@, sources@.len() as int),
                b.matches(bs_metric_edges(st5, metrics@, semantic_models@, i6 as int)),
            decreases metrics@.len() - i6,
        {
            b.add_metric_edges(
                &metrics[i6],
                semantic_models,
                Ghost(bs_metric_edges(st5, metrics@, semantic_models@, i6 as int)),
            );
            i6 = i6 + 1;
        }

        LineageGraph { nodes: b.nodes, edges: b.edges }
    }
}

impl Default for LineageBuilder {
    fn default() -> (r: Self)
        ensures
            r.fresh(),
    {
        Self::new()
    }
}

// =============================================================================
// Structural consequences of the construction
// =============================================================================

/// No dangling edges: in a built graph, every edge's source and target
/// ids belong to some node of the same graph.
pub proof fn lemma_no_dangling_edges(
    g: LineageGraph,
    models: Seq<DbtModel>,
    sources: Seq<DbtSource>,
    sms: Seq<SemanticModel>,
    metrics: Seq<Metric>,
)
    requires
        builds_from(g, models, sources, sms, metrics),
    ensures
        forall|j: int|
            0 <= j < g.edges@.len() ==> (exists|i: int|
                0 <= i < g.nodes@.len() && (#[trigger] g.edges@[j]).source@ == g.nodes@[i].id@)
                && (exists|i: int|
                0 <= i < g.nodes@.len() && g.edges@[j].target@ == g.nodes@[i].id@),
{
    let st = spec_build(models, sources, sms, metrics);
    assert forall|j: int| 0 <= j < g.edges@.len() implies (exists|i: int|
        0 <= i < g.nodes@.len() && (#[trigger] g.edges@[j]).source@ == g.nodes@[i].id@) && (
    exists|i: int| 0 <= i < g.nodes@.len() && g.edges@[j].target@ == g.nodes@[i].id@) by {
        assert(edge_matches(g.nodes@, g.edges@[j], st.edges[j]));
        let es = st.edges[j];
        assert(0 <= es.src < g.nodes@.len() && g.edges@[j].source@ == g.nodes@[es.src].id@);
        assert(0 <= es.tgt < g.nodes@.len() && g.edges@[j].target@ == g.nodes@[es.tgt].id@);
    }
}

/// Building twice from the same inputs gives structurally equal graphs:
/// the same node shapes in the same order, and edges of the same kinds
/// and labels connecting the same node positions.  Only the synthetic
/// id strings may differ.
pub proof fn lemma_build_deterministic(
    g1: LineageGraph,
    g2: LineageGraph,
    models: Seq<DbtModel>,
    sources: Seq<DbtSource>,
    sms: Seq<SemanticModel>,
    metrics: Seq<Metric>,
)
    requires
        builds_from(g1, models, sources, sms, metrics),
        builds_from(g2, models, sources, sms, metrics),
    ensures
        g1.nodes@.len() == g2.nodes@.len(),
        forall|i: int|
            0 <= i < g1.nodes@.len() ==> node_shape(#[trigger] g1.nodes@[i]) == node_shape(
                g2.nodes@[i],
            ),
        g1.edges@.len() == g2.edges@.len(),
        forall|j: int|
            0 <= j < g1.edges@.len() ==> (#[trigger] g1.edges@[j]).edge_type
                == g2.edges@[j].edge_type && opt_view(g1.edges@[j].label) == opt_view(
                g2.edges@[j].label,
            ),
        forall|j: int|
            0 <= j < g1.edges@.len() ==> exists|a: int|
                0 <= a < g1.nodes@.len() && (#[trigger] g1.edges@[j]).source@ == g1.nodes@[a].id@
                    && g2.edges@[j].source@ == g2.nodes@[a].id@,
        forall|j: int|
            0 <= j < g1.edges@.len() ==> exists|a: int|
                0 <= a < g1.nodes@.len() && (#[trigger] g1.edges@[j]).target@ == g1.nodes@[a].id@
                    && g2.edges@[j].target@ == g2.nodes@[a].id@,
{
    let st = spec_build(models, sources, sms, metrics);
    assert(g1.nodes@.len() == st.shapes.len());
    assert(g2.nodes@.len() == st.shapes.len());
    assert forall|i: int| 0 <= i < g1.nodes@.len() implies node_shape(#[trigger] g1.nodes@[i])
        == node_shape(g2.nodes@[i]) by {
        assert(g1.nodes@.map_values(|n: LineageNode| node_shape(n))[i] == st.shapes[i]);
        assert(g2.nodes@.map_values(|n: LineageNode| node_shape(n))[i] == st.shapes[i]);
    }
    assert forall|j: int| 0 <= j < g1.edges@.len() implies (#[trigger] g1.edges@[j]).edge_type
        == g2.edges@[j].edge_type && opt_view(g1.edges@[j].label) == opt_view(
        g2.edges@[j].label,
    ) by {
        assert(edge_matches(g1.nodes@, g1.edges@[j], st.edges[j]));
        assert(edge_matches(g2.nodes@, g2.edges@[j], st.edges[j]));
    }
    assert forall|j: int| 0 <= j < g1.edges@.len() implies (exists|a: int|
        0 <= a < g1.nodes@.len() && (#[trigger] g1.edges@[j]).source@ == g1.nodes@[a].id@
            && g2.edges@[j].source@ == g2.nodes@[a].id@) by {
        assert(edge_matches(g1.nodes@, g1.edges@[j], st.edges[j]));
        assert(edge_matches(g2.nodes@, g2.edges@[j], st.edges[j]));
        let es = st.edges[j];
        assert(0 <= es.src < g1.nodes@.len() && g1.edges@[j].source@ == g1.nodes@[es.src].id@
            && g2.edges@[j].source@ == g2.nodes@[es.src].id@);
    }
    assert forall|j: int| 0 <= j < g1.edges@.len() implies (exists|a: int|
        0 <= a < g1.nodes@.len() && (#[trigger] g1.edges@[j]).target@ == g1.nodes@[a].id@
            && g2.edges@[j].target@ == g2.nodes@[a].id@) by {
        assert(edge_matches(g1.nodes@, g1.edges@[j], st.edges[j]));
        assert(edge_matches(g2.nodes@, g2.edges@[j], st.edges[j]));
        let es = st.edges[j];
        assert(0 <= es.tgt < g1.nodes@.len() && g1.edges@[j].target@ == g1.nodes@[es.tgt].id@
            && g2.edges@[j].target@ == g2.nodes@[es.tgt].id@);
    }
}

} // verus!
