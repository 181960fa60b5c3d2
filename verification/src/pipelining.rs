//! Pipeline nodes and pipeline sequences.
//!
//! A pipeline node pairs a stable label with a factory for one stage; a
//! pipeline sequence is an ordered list of such nodes, built by filtering
//! a declared catalogue through inclusion settings, and instantiated by
//! inserting every stage into a sub-graph and chaining consecutive labels
//! with directed edges.

use vstd::prelude::*;

use crate::labels::derive_label;
use crate::labels::derived_label;
use crate::labels::strs_view;
use crate::render_graph::ExecutionContext;
use crate::render_graph::GraphError;
use crate::render_graph::RenderApp;
use crate::render_graph::Stage;
use crate::render_graph::SubGraph;
use crate::render_graph::chain_pairs;
use crate::render_graph::find_sub_graph;
use crate::render_graph::lemma_find_sub_graph;
use crate::settings::PipelineSettings;
use crate::settings::included;

verus! {

/// Creates one stage from the shared execution context.
pub trait NodeCreator: Sized {
    /// The kind of stage this creator constructs.
    spec fn spec_kind(&self) -> u64;

    /// Constructs the stage.  Construction fails exactly when the
    /// context cannot build this kind of stage, and never alters the
    /// context.
    fn create_node(&self, world: &mut ExecutionContext) -> (r: Result<Stage, GraphError>)
        ensures
            *final(world) == *old(world),
            r is Ok <==> old(world).spec_can_build(self.spec_kind()),
            r matches Ok(s) ==> s.kind == self.spec_kind(),
            r matches Err(e) ==> e matches GraphError::StageConstruction { kind } && kind
                == self.spec_kind(),
    ;
}

/// A stage factory: binds the stable kind of a concrete stage type, and
/// constructs one instance of it on demand.  It is stateless beyond the
/// kind binding and cheap to copy.
#[derive(Clone, Copy, Debug, PartialEq, Eq, Structural)]
pub struct NodeFactory {
    /// The stage kind this factory constructs.
    pub stage_kind: u64,
}

impl NodeCreator for NodeFactory {
    open spec fn spec_kind(&self) -> u64 {
        self.stage_kind
    }

    fn create_node(&self, world: &mut ExecutionContext) -> (r: Result<Stage, GraphError>) {
        if world.can_build(self.stage_kind) {
            Ok(Stage { kind: self.stage_kind })
        } else {
            Err(GraphError::StageConstruction { kind: self.stage_kind })
        }
    }
}

/// A declared pipeline stage: a stable label that identifies the stage
/// inside a sub-graph, paired with the factory that constructs it.
pub trait PipelineNode: Sized {
    /// The node creator used by this declaration.
    type Factory: NodeCreator;

    /// The label of this pipeline node in the render graph.
    spec fn spec_label(&self) -> Seq<char>;

    /// The kind of stage this node constructs.
    spec fn spec_kind(&self) -> u64;

    /// The label of this pipeline node in the render graph.
    fn label(&self) -> (l: &str)
        ensures
            l@ == self.spec_label(),
    ;

    /// The node creator for this declaration.
    fn node_factory(&self) -> (f: Self::Factory)
        ensures
            f.spec_kind() == self.spec_kind(),
    ;

    /// Constructs this node's stage and inserts it under this node's
    /// label into the named sub-graph of the render app.
    fn add_node(&self, render_app: &mut RenderApp, sub_graph_name: &str) -> (r: Result<
        (),
        GraphError,
    >)
        requires
            old(render_app).wf(),
        ensures
            final(render_app).wf(),
            ({
                let s = old(render_app).graph.sub_graphs@;
                let t = final(render_app).graph.sub_graphs@;
                let idx = find_sub_graph(s, sub_graph_name@);
                if !old(render_app).world.spec_can_build(self.spec_kind()) {
                    &&& r matches Err(GraphError::StageConstruction { kind }) && kind
                        == self.spec_kind()
                    &&& *final(render_app) == *old(render_app)
                } else if idx < 0 {
                    &&& r is Ok
                    &&& final(render_app).graph == old(render_app).graph
                    &&& final(render_app).world == old(render_app).world
                    &&& final(render_app).spec_warnings() == old(render_app).spec_warnings().push(
                        sub_graph_name@,
                    )
                } else if s[idx].spec_labels().contains(self.spec_label()) {
                    &&& r matches Err(GraphError::DuplicateNodeLabel { label }) && label@
                        == self.spec_label()
                    &&& *final(render_app) == *old(render_app)
                } else {
                    &&& r is Ok
                    &&& t.len() == s.len()
                    &&& forall|j: int| 0 <= j < s.len() && j != idx ==> t[j] == s[j]
                    &&& t[idx].name == s[idx].name
                    &&& t[idx].spec_labels() == s[idx].spec_labels().push(self.spec_label())
                    &&& t[idx].spec_kinds() == s[idx].spec_kinds().push(self.spec_kind())
                    &&& t[idx].edges == s[idx].edges
                    &&& final(render_app).world == old(render_app).world
                    &&& final(render_app).warnings == old(render_app).warnings
                }
            }),
    {
        let factory = self.node_factory();
        let stage = match factory.create_node(&mut render_app.world) {
            Ok(stage) => stage,
            Err(e) => {
                return Err(e);
            },
        };
        render_app.add_node_to_render_graph(sub_graph_name, self.label(), stage)
    }
}

/// A reusable declaration of one named stage: the label under which the
/// stage is inserted, and the factory that constructs it.  This is the
/// value the declaration facility yields for every stage of a catalogue.
#[derive(Debug)]
pub struct NamedNode {
    /// The label that identifies the stage.
    pub label: String,
    /// The factory that constructs the stage.
    pub node_factory: NodeFactory,
}

impl NamedNode {
    /// Declares a stage: binds the factory to the explicit label when one
    /// is given, and otherwise to the label derived from the
    /// declaration's identifier.
    pub fn new(identifier: &str, explicit_label: Option<&str>, node_factory: NodeFactory) -> (n:
        NamedNode)
        ensures
            n.spec_label() == match explicit_label {
                Some(l) => l@,
                None => derived_label(identifier@),
            },
            n.spec_kind() == node_factory.stage_kind,
    {
        let label = match explicit_label {
            Some(l) => l.to_owned(),
            None => derive_label(identifier),
        };
        NamedNode { label, node_factory }
    }
}

impl PipelineNode for NamedNode {
    type Factory = NodeFactory;

    open spec fn spec_label(&self) -> Seq<char> {
        self.label@
    }

    open spec fn spec_kind(&self) -> u64 {
        self.node_factory.stage_kind
    }

    fn label(&self) -> (l: &str) {
        self.label.as_str()
    }

    fn node_factory(&self) -> (f: NodeFactory) {
        proof {
            assert(NodeCreator::spec_kind(&self.node_factory) == self.node_factory.stage_kind);
        }
        self.node_factory
    }
}

/// The sub-sequence of the catalogue whose labels the settings include,
/// in the catalogue's order.
pub open spec fn filter_catalogue<N: PipelineNode>(c: Seq<N>, m: Map<Seq<char>, bool>) -> Seq<N>
    decreases c.len(),
{
    if c.len() == 0 {
        Seq::empty()
    } else {
        let rest = filter_catalogue(c.drop_last(), m);
        if included(m, c.last().spec_label()) {
            rest.push(c.last())
        } else {
            rest
        }
    }
}

/// The positions, in the catalogue, of the stages the filter keeps, in
/// increasing order.
pub open spec fn kept_indices<N: PipelineNode>(c: Seq<N>, m: Map<Seq<char>, bool>) -> Seq<int>
    decreases c.len(),
{
    if c.len() == 0 {
        Seq::empty()
    } else {
        let rest = kept_indices(c.drop_last(), m);
        if included(m, c.last().spec_label()) {
            rest.push(c.len() - 1)
        } else {
            rest
        }
    }
}

/// Order preservation: the built sequence is a sub-sequence of the
/// catalogue in the catalogue's relative order.  Every kept stage stands
/// at one of the kept positions, and the kept positions are strictly
/// increasing.
pub proof fn lemma_filter_preserves_order<N: PipelineNode>(c: Seq<N>, m: Map<Seq<char>, bool>)
    ensures
        ({
            let f = filter_catalogue(c, m);
            let idx = kept_indices(c, m);
            &&& idx.len() == f.len()
            &&& forall|i: int|
                0 <= i < idx.len() ==> 0 <= #[trigger] idx[i] < c.len() && f[i] == c[idx[i]]
            &&& forall|i: int, j: int| 0 <= i < j < idx.len() ==> idx[i] < idx[j]
        }),
    decreases c.len(),
{
    if c.len() == 0 {
    } else {
        let d = c.drop_last();
        lemma_filter_preserves_order(d, m);
        let f = filter_catalogue(c, m);
        let idx = kept_indices(c, m);
        let f0 = filter_catalogue(d, m);
        let idx0 = kept_indices(d, m);
        assert forall|i: int| 0 <= i < idx.len() implies 0 <= #[trigger] idx[i] < c.len() && f[i]
            == c[idx[i]] by {
            if i < idx0.len() {
                assert(idx[i] == idx0[i]);
                assert(f[i] == f0[i]);
                assert(d[idx0[i]] == c[idx0[i]]);
            }
        }
    }
}

/// Default inclusion: with an empty mapping every stage of the catalogue
/// is kept, in place.
pub proof fn lemma_empty_settings_keep_catalogue<N: PipelineNode>(
    c: Seq<N>,
    m: Map<Seq<char>, bool>,
)
    requires
        m.dom() == Set::<Seq<char>>::empty(),
    ensures
        filter_catalogue(c, m) == c,
    decreases c.len(),
{
    if c.len() == 0 {
        assert(filter_catalogue(c, m) =~= c);
    } else {
        lemma_empty_settings_keep_catalogue(c.drop_last(), m);
        assert(!m.contains_key(c.last().spec_label()));
        assert(filter_catalogue(c, m) =~= c);
    }
}

impl RenderApp {
    /// Convenience that constructs a stage through the given creator and
    /// inserts it under `node_name` into the named sub-graph: a failed
    /// construction is fatal and propagates, a missing sub-graph only
    /// records a warning.
    pub fn add_render_graph_node<C: NodeCreator>(
        &mut self,
        sub_graph_name: &str,
        node_name: &str,
        creator: &C,
    ) -> (r: Result<(), GraphError>)
        requires
            old(self).wf(),
        ensures
            final(self).wf(),
            ({
                let s = old(self).graph.sub_graphs@;
                let t = final(self).graph.sub_graphs@;
                let idx = find_sub_graph(s, sub_graph_name@);
                if !old(self).world.spec_can_build(creator.spec_kind()) {
                    &&& r matches Err(GraphError::StageConstruction { kind }) && kind
                        == creator.spec_kind()
                    &&& *final(self) == *old(self)
                } else if idx < 0 {
                    &&& r is Ok
                    &&& final(self).graph == old(self).graph
                    &&& final(self).world == old(self).world
                    &&& final(self).spec_warnings() == old(self).spec_warnings().push(
                        sub_graph_name@,
                    )
                } else if s[idx].spec_labels().contains(node_name@) {
                    &&& r matches Err(GraphError::DuplicateNodeLabel { label }) && label@
                        == node_name@
                    &&& *final(self) == *old(self)
                } else {
                    &&& r is Ok
                    &&& t.len() == s.len()
                    &&& forall|j: int| 0 <= j < s.len() && j != idx ==> t[j] == s[j]
                    &&& t[idx].name == s[idx].name
                    &&& t[idx].spec_labels() == s[idx].spec_labels().push(node_name@)
                    &&& t[idx].spec_kinds() == s[idx].spec_kinds().push(creator.spec_kind())
                    &&& t[idx].edges == s[idx].edges
                    &&& final(self).world == old(self).world
                    &&& final(self).warnings == old(self).warnings
                }
            }),
    {
        let stage = match creator.create_node(&mut self.world) {
            Ok(stage) => stage,
            Err(e) => {
                return Err(e);
            },
        };
        self.add_node_to_render_graph(sub_graph_name, node_name, stage)
    }
}

/// An ordered sequence of pipeline nodes that will be connected by edges
/// mirroring the sequence order, addressed to one pipeline sub-graph.
pub struct PipelineSequence<N: PipelineNode> {
    pipeline_label: String,
    node_sequence: Vec<N>,
    label_sequence: Vec<String>,
}

impl<N: PipelineNode> PipelineSequence<N> {
    /// The declared nodes, in order.
    pub closed spec fn spec_nodes(&self) -> Seq<N> {
        self.node_sequence@
    }

    /// The labels of the declared nodes, in order.
    pub closed spec fn spec_labels(&self) -> Seq<Seq<char>> {
        strs_view(self.label_sequence@)
    }

    /// The stage kinds of the declared nodes, in order.
    pub open spec fn spec_kinds(&self) -> Seq<u64> {
        self.spec_nodes().map_values(|n: N| n.spec_kind())
    }

    /// The label of the pipeline this sequence belongs to.
    pub closed spec fn spec_pipeline_label(&self) -> Seq<char> {
        self.pipeline_label@
    }

    /// The label list mirrors the node list, position by position.
    pub open spec fn wf(&self) -> bool {
        self.spec_labels() == self.spec_nodes().map_values(|n: N| n.spec_label())
    }

    /// Whether the execution context can construct every stage of this
    /// sequence.
    pub open spec fn all_buildable(&self, world: ExecutionContext) -> bool {
        forall|i: int|
            0 <= i < self.spec_kinds().len() ==> world.spec_can_build(#[trigger] self.spec_kinds()[i])
    }

    /// Creates a new sequence from a vector of pipeline nodes; the label
    /// list is read off the nodes.
    pub fn new(pipeline_label: &str, node_sequence: Vec<N>) -> (s: PipelineSequence<N>)
        ensures
            s.wf(),
            s.spec_pipeline_label() == pipeline_label@,
            s.spec_nodes() == node_sequence@,
    {
        let mut label_sequence: Vec<String> = Vec::new();
        let mut i: usize = 0;
        while i < node_sequence.len()
            invariant
                0 <= i <= node_sequence@.len(),
                strs_view(label_sequence@) == node_sequence@.subrange(0, i as int).map_values(
                    |n: N| n.spec_label(),
                ),
            decreases node_sequence@.len() - i,
        {
            let ghost labels0 = label_sequence@;
            label_sequence.push(node_sequence[i].label().to_owned());
            proof {
                let lhs = strs_view(label_sequence@);
                let rhs = node_sequence@.subrange(0, i + 1).map_values(|n: N| n.spec_label());
                assert(label_sequence@.len() == labels0.len() + 1);
                assert(strs_view(labels0).len() == labels0.len());
                assert(strs_view(labels0).len() == i as int);
                assert(rhs.len() == i + 1);
                assert(lhs.len() == rhs.len());
                assert forall|j: int| 0 <= j < lhs.len() implies lhs[j] == rhs[j] by {
                    if j < i {
                        assert(label_sequence@[j] == labels0[j]);
                        assert(strs_view(labels0)[j] == labels0[j]@);
                        assert(strs_view(labels0)[j] == node_sequence@.subrange(
                            0,
                            i as int,
                        ).map_values(|n: N| n.spec_label())[j]);
                    }
                }
                assert(lhs =~= rhs);
            }
            i = i + 1;
        }
        proof {
            assert(node_sequence@.subrange(0, node_sequence@.len() as int) =~= node_sequence@);
        }
        PipelineSequence {
            pipeline_label: pipeline_label.to_owned(),
            node_sequence,
            label_sequence,
        }
    }

    /// The number of stages in the sequence.
    pub fn len(&self) -> (n: usize)
        ensures
            n == self.spec_nodes().len(),
    {
        self.node_sequence.len()
    }

    /// The label of the stage at position `i`.
    pub fn label_at(&self, i: usize) -> (l: &String)
        requires
            self.wf(),
            i < self.spec_nodes().len(),
        ensures
            l@ == self.spec_labels()[i as int],
    {
        proof {
            assert(strs_view(self.label_sequence@).len() == self.label_sequence@.len());
            assert(self.spec_nodes().map_values(|x: N| x.spec_label()).len()
                == self.spec_nodes().len());
            assert(strs_view(self.label_sequence@)[i as int] == self.label_sequence@[i as int]@);
        }
        &self.label_sequence[i]
    }

    /// The label of the pipeline this sequence belongs to.
    pub fn pipeline_label(&self) -> (l: &String)
        ensures
            l@ == self.spec_pipeline_label(),
    {
        &self.pipeline_label
    }
}

/// Builds the stage sequence of a pipeline: filters the catalogue by the
/// settings, keeping a stage exactly when its label is included, and
/// preserving the catalogue's relative order.
pub fn build_sequence<N: PipelineNode, S: PipelineSettings>(
    pipeline_label: &str,
    catalogue: Vec<N>,
    settings: &S,
) -> (s: PipelineSequence<N>)
    requires
        settings.wf(),
    ensures
        s.wf(),
        s.spec_pipeline_label() == pipeline_label@,
        s.spec_nodes() == filter_catalogue(catalogue@, settings.spec_map()),
{
    let ghost orig = catalogue@;
    let ghost m = settings.spec_map();
    let mut remaining = catalogue;
    let mut kept: Vec<N> = Vec::new();
    while remaining.len() > 0
        invariant
            settings.wf(),
            m == settings.spec_map(),
            remaining@.len() <= orig.len(),
            remaining@ == orig.subrange(
                orig.len() - remaining@.len(),
                orig.len() as int,
            ),
            kept@ == filter_catalogue(orig.subrange(0, orig.len() - remaining@.len()), m),
        decreases remaining@.len(),
    {
        let ghost k = orig.len() - remaining@.len();
        let node = remaining.remove(0);
        proof {
            assert(node == orig[k as int]);
            assert(remaining@ =~= orig.subrange(k + 1, orig.len() as int));
        }
        let keep = settings.get_bool(node.label());
        proof {
            let pre = orig.subrange(0, k as int);
            let ext = orig.subrange(0, k + 1);
            assert(ext.drop_last() =~= pre);
            assert(ext.last() == orig[k as int]);
            if included(m, node.spec_label()) {
                assert(filter_catalogue(ext, m) == filter_catalogue(pre, m).push(node));
            } else {
                assert(filter_catalogue(ext, m) == filter_catalogue(pre, m));
            }
        }
        if keep {
            kept.push(node);
        }
    }
    proof {
        assert(orig.subrange(0, orig.len() as int) =~= orig);
    }
    PipelineSequence::new(pipeline_label, kept)
}

/// The label list contributed by an optional anchor.
pub open spec fn opt_label(l: Option<&str>) -> Seq<Seq<char>> {
    match l {
        Some(s) => seq![s@],
        None => Seq::empty(),
    }
}

/// Whether the label at position `j` of the list collides with a label
/// already present or with an earlier label of the list itself.
pub open spec fn conflicts_at(existing: Seq<Seq<char>>, ls: Seq<Seq<char>>, j: int) -> bool {
    existing.contains(ls[j]) || exists|k: int| 0 <= k < j && ls[k] == ls[j]
}

/// The first position at or after `j` whose label collides, or `-1` if
/// none does.
pub open spec fn first_conflict_from(existing: Seq<Seq<char>>, ls: Seq<Seq<char>>, j: int) -> int
    decreases ls.len() - j,
{
    if j < 0 || j >= ls.len() {
        -1
    } else if conflicts_at(existing, ls, j) {
        j
    } else {
        first_conflict_from(existing, ls, j + 1)
    }
}

/// Whether some label of the list collides with a label already present
/// or with an earlier label of the list.
pub open spec fn has_conflict(existing: Seq<Seq<char>>, ls: Seq<Seq<char>>) -> bool {
    first_conflict_from(existing, ls, 0) >= 0
}

/// `first_conflict_from` finds the first colliding position, and `-1`
/// exactly when no position at or after `j` collides.
pub proof fn lemma_first_conflict(existing: Seq<Seq<char>>, ls: Seq<Seq<char>>, j: int)
    requires
        0 <= j <= ls.len(),
    ensures
        ({
            let r = first_conflict_from(existing, ls, j);
            &&& r == -1 || j <= r < ls.len()
            &&& r == -1 ==> forall|k: int| j <= k < ls.len() ==> !conflicts_at(existing, ls, k)
            &&& r >= 0 ==> j <= r < ls.len() && conflicts_at(existing, ls, r) && forall|k: int|
                j <= k < r ==> !conflicts_at(existing, ls, k)
        }),
    decreases ls.len() - j,
{
    if j >= ls.len() {
    } else if conflicts_at(existing, ls, j) {
    } else {
        lemma_first_conflict(existing, ls, j + 1);
    }
}

/// The first position at or after `j` whose stage kind the context
/// cannot build, or `-1` if it can build them all.
pub open spec fn first_unbuildable_from(ks: Seq<u64>, world: ExecutionContext, j: int) -> int
    decreases ks.len() - j,
{
    if j < 0 || j >= ks.len() {
        -1
    } else if !world.spec_can_build(ks[j]) {
        j
    } else {
        first_unbuildable_from(ks, world, j + 1)
    }
}

/// `first_unbuildable_from` finds the first kind the context cannot
/// build, and `-1` exactly when it can build every kind at or after `j`.
pub proof fn lemma_first_unbuildable(ks: Seq<u64>, world: ExecutionContext, j: int)
    requires
        0 <= j <= ks.len(),
    ensures
        ({
            let r = first_unbuildable_from(ks, world, j);
            &&& r == -1 || j <= r < ks.len()
            &&& r == -1 ==> forall|k: int| j <= k < ks.len() ==> world.spec_can_build(
                #[trigger] ks[k],
            )
            &&& r >= 0 ==> j <= r < ks.len() && !world.spec_can_build(ks[r]) && forall|k: int|
                j <= k < r ==> world.spec_can_build(#[trigger] ks[k])
        }),
    decreases ks.len() - j,
{
    if j >= ks.len() {
    } else if !world.spec_can_build(ks[j]) {
    } else {
        lemma_first_unbuildable(ks, world, j + 1);
    }
}

/// Two sub-graph lists carrying the same names position by position are
/// searched identically.
pub proof fn lemma_find_same_names(s: Seq<SubGraph>, t: Seq<SubGraph>, name: Seq<char>)
    requires
        s.len() == t.len(),
        forall|j: int| 0 <= j < s.len() ==> (#[trigger] s[j]).name@ == t[j].name@,
    ensures
        find_sub_graph(s, name) == find_sub_graph(t, name),
{
    lemma_find_sub_graph(s, name);
    lemma_find_sub_graph(t, name);
    let rs = find_sub_graph(s, name);
    let rt = find_sub_graph(t, name);
    if rs >= 0 && rt >= 0 {
        if rs < rt {
            assert(t[rs].name@ != name);
            assert(s[rs].name@ == name);
        }
        if rt < rs {
            assert(s[rt].name@ != name);
            assert(t[rt].name@ == name);
        }
    } else if rs >= 0 {
        assert(t[rs].name@ != name);
    } else if rt >= 0 {
        assert(s[rt].name@ != name);
    }
}

/// The first position of `labels` that collides with a label of the
/// sub-graph or with an earlier position of `labels`, if any.
fn find_conflict(sg: &SubGraph, labels: &Vec<String>) -> (r: Option<usize>)
    ensures
        ({
            let first = first_conflict_from(sg.spec_labels(), strs_view(labels@), 0);
            match r {
                Some(j) => first == j && j < labels@.len(),
                None => first == -1,
            }
        }),
{
    let ghost existing = sg.spec_labels();
    let ghost lv = strs_view(labels@);
    proof {
        lemma_first_conflict(existing, lv, 0);
    }
    let mut j: usize = 0;
    while j < labels.len()
        invariant
            0 <= j <= lv.len(),
            lv == strs_view(labels@),
            existing == sg.spec_labels(),
            forall|q: int| 0 <= q < j ==> !conflicts_at(existing, lv, q),
        decreases lv.len() - j,
    {
        if crate::render_graph::sub_graph_has_label(sg, labels[j].as_str()) {
            proof {
                assert(conflicts_at(existing, lv, j as int));
                lemma_first_conflict(existing, lv, 0);
                let first = first_conflict_from(existing, lv, 0);
                if first == -1 {
                    assert(!conflicts_at(existing, lv, j as int));
                } else if first < j {
                    assert(!conflicts_at(existing, lv, first));
                    assert(conflicts_at(existing, lv, first));
                } else if first > j {
                    assert(!conflicts_at(existing, lv, j as int));
                }
            }
            return Some(j);
        }
        let mut k: usize = 0;
        while k < j
            invariant
                0 <= k <= j < lv.len(),
                lv == strs_view(labels@),
                existing == sg.spec_labels(),
                forall|q: int| 0 <= q < j ==> !conflicts_at(existing, lv, q),
                !existing.contains(lv[j as int]),
                forall|q: int| 0 <= q < k ==> lv[q] != lv[j as int],
            decreases j - k,
        {
            if crate::labels::str_eq(labels[k].as_str(), labels[j].as_str()) {
                proof {
                    assert(lv[k as int] == lv[j as int]);
                    assert(conflicts_at(existing, lv, j as int));
                    lemma_first_conflict(existing, lv, 0);
                    let first = first_conflict_from(existing, lv, 0);
                    if first == -1 {
                        assert(!conflicts_at(existing, lv, j as int));
                    } else if first < j {
                        assert(!conflicts_at(existing, lv, first));
                        assert(conflicts_at(existing, lv, first));
                    } else if first > j {
                        assert(!conflicts_at(existing, lv, j as int));
                    }
                }
                return Some(j);
            }
            k = k + 1;
        }
        proof {
            assert(!conflicts_at(existing, lv, j as int)) by {
                if exists|q: int| 0 <= q < j && lv[q] == lv[j as int] {
                    let q = choose|q: int| 0 <= q < j && lv[q] == lv[j as int];
                    assert(lv[q] != lv[j as int]);
                }
            }
        }
        j = j + 1;
    }
    proof {
        lemma_first_conflict(existing, lv, 0);
        let first = first_conflict_from(existing, lv, 0);
        if first >= 0 {
            assert(!conflicts_at(existing, lv, first));
            assert(conflicts_at(existing, lv, first));
        }
    }
    None
}

impl<N: PipelineNode> PipelineSequence<N> {
    /// Inserts this pipeline sequence into an existing sub-graph of the
    /// render graph, constructing every stage from the execution context
    /// and chaining consecutive labels with directed edges.
    ///
    /// An optional existing node, `existing_root`, is connected to the
    /// first label of the sequence, and an optional `existing_target` to
    /// the last; the whole ordered chain is declared in one call.  All
    /// stages are constructed before any is inserted, so a failed
    /// construction is reported with the graph untouched, and a duplicate
    /// label is likewise reported before anything changes.  When the
    /// sub-graph does not exist, every insertion and the edge
    /// declaration record one warning each, and nothing else happens.
    pub fn insert_into_sub_graph(
        &self,
        render_app: &mut RenderApp,
        sub_graph_name: &str,
        existing_root: Option<&str>,
        existing_target: Option<&str>,
    ) -> (r: Result<(), GraphError>)
        requires
            old(render_app).wf(),
            self.wf(),
        ensures
            final(render_app).wf(),
            final(render_app).world == old(render_app).world,
            ({
                let s = old(render_app).graph.sub_graphs@;
                let t = final(render_app).graph.sub_graphs@;
                let idx = find_sub_graph(s, sub_graph_name@);
                let ls = self.spec_labels();
                let ks = self.spec_kinds();
                if !self.all_buildable(old(render_app).world) {
                    &&& r matches Err(GraphError::StageConstruction { kind }) && kind == ks[
                        first_unbuildable_from(ks, old(render_app).world, 0)
                    ]
                    &&& *final(render_app) == *old(render_app)
                } else if idx < 0 {
                    &&& r is Ok
                    &&& final(render_app).graph == old(render_app).graph
                    &&& final(render_app).spec_warnings() == old(render_app).spec_warnings()
                        + Seq::new((ls.len() + 1) as nat, |q: int| sub_graph_name@)
                } else if has_conflict(s[idx].spec_labels(), ls) {
                    &&& r matches Err(GraphError::DuplicateNodeLabel { label }) && label@ == ls[
                        first_conflict_from(s[idx].spec_labels(), ls, 0)
                    ]
                    &&& *final(render_app) == *old(render_app)
                } else {
                    &&& r is Ok
                    &&& t.len() == s.len()
                    &&& forall|j: int| 0 <= j < s.len() && j != idx ==> t[j] == s[j]
                    &&& t[idx].name == s[idx].name
                    &&& t[idx].spec_labels() == s[idx].spec_labels() + ls
                    &&& t[idx].spec_kinds() == s[idx].spec_kinds() + ks
                    &&& t[idx].spec_edges() == s[idx].spec_edges() + chain_pairs(
                        opt_label(existing_root) + ls + opt_label(existing_target),
                    )
                    &&& final(render_app).warnings == old(render_app).warnings
                }
            }),
    {
        let ghost s = old(render_app).graph.sub_graphs@;
        let ghost ls = self.spec_labels();
        let ghost ks = self.spec_kinds();
        let n: usize = self.node_sequence.len();
        proof {
            lemma_find_sub_graph(s, sub_graph_name@);
            lemma_first_unbuildable(ks, old(render_app).world, 0);
            assert(strs_view(self.label_sequence@).len() == self.label_sequence@.len());
            assert(self.spec_nodes().map_values(|x: N| x.spec_label()).len()
                == self.spec_nodes().len());
            assert(self.label_sequence@.len() == n);
        }

        // Construct every stage first: a failed construction leaves the
        // graph untouched.
        let mut stages: Vec<Stage> = Vec::new();
        let mut i: usize = 0;
        while i < n
            invariant
                0 <= i <= n,
                n == self.node_sequence@.len(),
                ks == self.spec_kinds(),
                self.wf(),
                old(render_app).wf(),
                *render_app == *old(render_app),
                stages@.len() == i,
                forall|j: int| 0 <= j < i ==> old(render_app).world.spec_can_build(
                    #[trigger] ks[j],
                ),
                forall|j: int| 0 <= j < i ==> (#[trigger] stages@[j]).kind == ks[j],
            decreases n - i,
        {
            let factory = self.node_sequence[i].node_factory();
            proof {
                assert(factory.spec_kind() == self.node_sequence@[i as int].spec_kind());
                assert(ks[i as int] == self.node_sequence@[i as int].spec_kind());
            }
            match factory.create_node(&mut render_app.world) {
                Ok(stage) => {
                    stages.push(stage);
                },
                Err(e) => {
                    proof {
                        assert(!old(render_app).world.spec_can_build(ks[i as int]));
                        lemma_first_unbuildable(ks, old(render_app).world, 0);
                        let first = first_unbuildable_from(ks, old(render_app).world, 0);
                        if first == -1 {
                            assert(old(render_app).world.spec_can_build(ks[i as int]));
                        } else if first < i {
                            assert(old(render_app).world.spec_can_build(ks[first]));
                            assert(!old(render_app).world.spec_can_build(ks[first]));
                        } else if first > i {
                            assert(old(render_app).world.spec_can_build(ks[i as int]));
                        }
                        assert(first == i);
                        assert(!self.all_buildable(old(render_app).world)) by {
                            assert(!old(render_app).world.spec_can_build(
                                self.spec_kinds()[i as int],
                            ));
                        }
                    }
                    return Err(e);
                },
            }
            i = i + 1;
        }
        proof {
            assert(self.all_buildable(old(render_app).world));
        }

        match render_app.graph.find_index(sub_graph_name) {
            None => {
                // The sub-graph is missing: each insertion and the edge
                // declaration would have warned once; record the same
                // warnings and leave the graph alone.
                let ghost w0 = render_app.spec_warnings();
                let mut w: usize = 0;
                while w < n
                    invariant
                        0 <= w <= n,
                        old(render_app).wf(),
                        render_app.graph == old(render_app).graph,
                        render_app.world == old(render_app).world,
                        render_app.spec_warnings() == w0 + Seq::new(
                            w as nat,
                            |q: int| sub_graph_name@,
                        ),
                    decreases n - w,
                {
                    let ghost wpre = render_app.spec_warnings();
                    render_app.warnings.push(sub_graph_name.to_owned());
                    proof {
                        assert(render_app.spec_warnings() =~= wpre.push(sub_graph_name@));
                        assert(wpre.push(sub_graph_name@) =~= w0 + Seq::new(
                            (w + 1) as nat,
                            |q: int| sub_graph_name@,
                        ));
                    }
                    w = w + 1;
                }
                let ghost wpre = render_app.spec_warnings();
                render_app.warnings.push(sub_graph_name.to_owned());
                proof {
                    assert(render_app.spec_warnings() =~= wpre.push(sub_graph_name@));
                    assert(wpre.push(sub_graph_name@) =~= w0 + Seq::new(
                        (n + 1) as nat,
                        |q: int| sub_graph_name@,
                    ));
                }
                Ok(())
            },
            Some(gi) => {
                let ghost idx = gi as int;
                // Check the whole label list for collisions before
                // inserting anything.
                match find_conflict(&render_app.graph.sub_graphs[gi], &self.label_sequence) {
                    Some(cj) => {
                        proof {
                            lemma_first_conflict(s[idx].spec_labels(), ls, 0);
                        }
                        return Err(GraphError::DuplicateNodeLabel {
                            label: self.label_sequence[cj].clone(),
                        });
                    },
                    None => {},
                }
                proof {
                    lemma_first_conflict(s[idx].spec_labels(), ls, 0);
                    assert(forall|q: int| 0 <= q < ls.len() ==> !conflicts_at(
                        s[idx].spec_labels(),
                        ls,
                        q,
                    ));
                }

                // Insert the stages in order.
                let mut t: usize = 0;
                while t < n
                    invariant
                        0 <= t <= n,
                        n == self.node_sequence@.len(),
                        n == self.label_sequence@.len(),
                        self.wf(),
                        ls == self.spec_labels(),
                        ks == self.spec_kinds(),
                        s == old(render_app).graph.sub_graphs@,
                        0 <= idx < s.len(),
                        idx == find_sub_graph(s, sub_graph_name@),
                        forall|q: int| 0 <= q < ls.len() ==> !conflicts_at(
                            s[idx].spec_labels(),
                            ls,
                            q,
                        ),
                        stages@.len() == n,
                        forall|j: int| 0 <= j < n ==> (#[trigger] stages@[j]).kind == ks[j],
                        render_app.wf(),
                        render_app.world == old(render_app).world,
                        render_app.warnings == old(render_app).warnings,
                        render_app.graph.sub_graphs@.len() == s.len(),
                        forall|j: int|
                            0 <= j < s.len() && j != idx ==> render_app.graph.sub_graphs@[j] == s[j],
                        render_app.graph.sub_graphs@[idx].name == s[idx].name,
                        render_app.graph.sub_graphs@[idx].spec_labels() == s[idx].spec_labels()
                            + ls.subrange(0, t as int),
                        render_app.graph.sub_graphs@[idx].spec_kinds() == s[idx].spec_kinds()
                            + ks.subrange(0, t as int),
                        render_app.graph.sub_graphs@[idx].edges == s[idx].edges,
                    decreases n - t,
                {
                    let ghost cur = render_app.graph.sub_graphs@;
                    proof {
                        lemma_find_same_names(s, cur, sub_graph_name@);
                        assert(!cur[idx].spec_labels().contains(ls[t as int])) by {
                            let labs = cur[idx].spec_labels();
                            if labs.contains(ls[t as int]) {
                                let q = choose|q: int|
                                    0 <= q < labs.len() && labs[q] == ls[t as int];
                                if q < s[idx].spec_labels().len() {
                                    assert(s[idx].spec_labels().contains(ls[t as int])) by {
                                        assert(s[idx].spec_labels()[q] == ls[t as int]);
                                    }
                                    assert(conflicts_at(s[idx].spec_labels(), ls, t as int));
                                } else {
                                    let p = q - s[idx].spec_labels().len();
                                    assert(ls.subrange(0, t as int)[p] == ls[t as int]);
                                    assert(ls[p] == ls[t as int]);
                                    assert(conflicts_at(s[idx].spec_labels(), ls, t as int));
                                }
                            }
                        }
                        assert(ls[t as int] == self.label_sequence@[t as int]@);
                    }
                    let res = render_app.add_node_to_render_graph(
                        sub_graph_name,
                        self.label_sequence[t].as_str(),
                        stages[t],
                    );
                    match res {
                        Ok(_) => {},
                        Err(e) => {
                            return Err(e);
                        },
                    }
                    proof {
                        let now = render_app.graph.sub_graphs@;
                        assert(now[idx].spec_labels() =~= s[idx].spec_labels() + ls.subrange(
                            0,
                            t + 1,
                        )) by {
                            assert(ls.subrange(0, t as int).push(ls[t as int]) =~= ls.subrange(
                                0,
                                t + 1,
                            ));
                        }
                        assert(now[idx].spec_kinds() =~= s[idx].spec_kinds() + ks.subrange(
                            0,
                            t + 1,
                        )) by {
                            assert(ks.subrange(0, t as int).push(ks[t as int]) =~= ks.subrange(
                                0,
                                t + 1,
                            ));
                        }
                    }
                    t = t + 1;
                }
                proof {
                    assert(ls.subrange(0, n as int) =~= ls);
                    assert(ks.subrange(0, n as int) =~= ks);
                }

                // Declare the full ordered edge chain in one call.
                let mut chain: Vec<String> = Vec::new();
                match existing_root {
                    Some(root) => {
                        chain.push(root.to_owned());
                    },
                    None => {},
                }
                proof {
                    assert(strs_view(chain@) =~= opt_label(existing_root));
                }
                let mut c: usize = 0;
                while c < n
                    invariant
                        0 <= c <= n,
                        n == self.label_sequence@.len(),
                        ls == self.spec_labels(),
                        strs_view(chain@) == opt_label(existing_root) + ls.subrange(0, c as int),
                    decreases n - c,
                {
                    let ghost chain0 = chain@;
                    chain.push(self.label_sequence[c].clone());
                    proof {
                        assert(ls[c as int] == self.label_sequence@[c as int]@);
                        assert(strs_view(chain@) =~= strs_view(chain0).push(ls[c as int]));
                        assert(strs_view(chain0).push(ls[c as int]) =~= opt_label(existing_root)
                            + ls.subrange(0, c + 1));
                    }
                    c = c + 1;
                }
                match existing_target {
                    Some(target) => {
                        chain.push(target.to_owned());
                    },
                    None => {},
                }
                proof {
                    assert(ls.subrange(0, n as int) =~= ls);
                    assert(strs_view(chain@) =~= opt_label(existing_root) + ls + opt_label(
                        existing_target,
                    ));
                }
                let ghost before_edges = render_app.graph.sub_graphs@;
                proof {
                    lemma_find_same_names(s, before_edges, sub_graph_name@);
                }
                render_app.add_render_graph_edges(sub_graph_name, &chain);
                proof {
                    let t2 = render_app.graph.sub_graphs@;
                    assert(t2[idx].spec_labels() == before_edges[idx].spec_labels());
                    assert(t2[idx].spec_kinds() == before_edges[idx].spec_kinds());
                }
                Ok(())
            },
        }
    }

    /// Uses this pipeline sequence to create a new sub-graph of the
    /// render graph under `sub_graph_name` and instantiates the sequence
    /// inside it, with no anchors: the sub-graph afterwards holds exactly
    /// the sequence's stages and the edge chain between them.
    pub fn create_new_sub_graph(&self, render_app: &mut RenderApp, sub_graph_name: &str) -> (r:
        Result<(), GraphError>)
        requires
            old(render_app).wf(),
            self.wf(),
        ensures
            final(render_app).wf(),
            final(render_app).world == old(render_app).world,
            final(render_app).warnings == old(render_app).warnings,
            ({
                let s = old(render_app).graph.sub_graphs@;
                let t = final(render_app).graph.sub_graphs@;
                let r0 = find_sub_graph(s, sub_graph_name@);
                let idx = if r0 >= 0 { r0 } else { s.len() as int };
                let ls = self.spec_labels();
                let ks = self.spec_kinds();
                &&& t.len() == (if r0 >= 0 { s.len() as int } else { s.len() as int + 1 })
                &&& forall|j: int| 0 <= j < s.len() && j != idx ==> t[j] == s[j]
                &&& t[idx].name@ == sub_graph_name@
                &&& if !self.all_buildable(old(render_app).world) {
                    &&& r matches Err(GraphError::StageConstruction { kind }) && kind == ks[
                        first_unbuildable_from(ks, old(render_app).world, 0)
                    ]
                    &&& t[idx].nodes@.len() == 0
                    &&& t[idx].edges@.len() == 0
                } else if has_conflict(Seq::<Seq<char>>::empty(), ls) {
                    &&& r matches Err(GraphError::DuplicateNodeLabel { label }) && label@ == ls[
                        first_conflict_from(Seq::<Seq<char>>::empty(), ls, 0)
                    ]
                    &&& t[idx].nodes@.len() == 0
                    &&& t[idx].edges@.len() == 0
                } else {
                    &&& r is Ok
                    &&& t[idx].spec_labels() == ls
                    &&& t[idx].spec_kinds() == ks
                    &&& t[idx].spec_edges() == chain_pairs(ls)
                }
            }),
    {
        let ghost s = old(render_app).graph.sub_graphs@;
        let ghost ls = self.spec_labels();
        proof {
            lemma_find_sub_graph(s, sub_graph_name@);
        }
        render_app.add_render_sub_graph(sub_graph_name);
        let ghost s1 = render_app.graph.sub_graphs@;
        let ghost r0 = find_sub_graph(s, sub_graph_name@);
        let ghost idx = if r0 >= 0 { r0 } else { s.len() as int };
        proof {
            lemma_find_sub_graph(s1, sub_graph_name@);
            let r1 = find_sub_graph(s1, sub_graph_name@);
            assert(s1[idx].name@ == sub_graph_name@);
            if r1 < 0 {
                assert(s1[idx].name@ != sub_graph_name@);
            }
            if r1 != idx {
                if r1 < idx {
                    if r0 >= 0 {
                        assert(s1[r1] == s[r1]);
                        assert(s[r1].name@ != sub_graph_name@);
                    } else {
                        assert(s1[r1] == s[r1]);
                        assert(s[r1].name@ != sub_graph_name@);
                    }
                } else {
                    assert(s1[idx].name@ != sub_graph_name@);
                }
            }
            assert(r1 == idx);
            assert(s1[idx].spec_labels() =~= Seq::<Seq<char>>::empty());
            assert(s1[idx].spec_kinds() =~= Seq::<u64>::empty());
            assert(s1[idx].spec_edges() =~= Seq::<(Seq<char>, Seq<char>)>::empty());
        }
        let r = self.insert_into_sub_graph(
            render_app,
            sub_graph_name,
            Option::<&str>::None,
            Option::<&str>::None,
        );
        proof {
            assert(opt_label(Option::<&str>::None) + ls + opt_label(Option::<&str>::None) =~= ls);
            if self.all_buildable(old(render_app).world) && !has_conflict(Seq::<Seq<char>>::empty(), ls) {
                let t = render_app.graph.sub_graphs@;
                assert(t[idx].spec_labels() =~= ls);
                assert(t[idx].spec_kinds() =~= self.spec_kinds());
            }
        }
        r
    }
}

/// The stages of a sequence that do not carry the label `l`, in order.
pub open spec fn drop_labeled<N: PipelineNode>(s: Seq<N>, l: Seq<char>) -> Seq<N>
    decreases s.len(),
{
    if s.len() == 0 {
        Seq::empty()
    } else {
        let rest = drop_labeled(s.drop_last(), l);
        if s.last().spec_label() == l {
            rest
        } else {
            rest.push(s.last())
        }
    }
}

/// Opt-out correctness: setting a label to `false` removes exactly the
/// stages carrying that label from the built sequence, and no others.
pub proof fn lemma_opt_out_removes_exactly<N: PipelineNode>(
    c: Seq<N>,
    m: Map<Seq<char>, bool>,
    l: Seq<char>,
)
    ensures
        filter_catalogue(c, m.insert(l, false)) == drop_labeled(filter_catalogue(c, m), l),
    decreases c.len(),
{
    if c.len() == 0 {
    } else {
        let d = c.drop_last();
        lemma_opt_out_removes_exactly(d, m, l);
        let last = c.last();
        let f0 = filter_catalogue(d, m);
        if last.spec_label() == l {
            if included(m, last.spec_label()) {
                assert(drop_labeled(f0.push(last), l) =~= drop_labeled(f0, l)) by {
                    assert(f0.push(last).drop_last() =~= f0);
                }
            }
            assert(!included(m.insert(l, false), last.spec_label()));
        } else {
            assert(included(m.insert(l, false), last.spec_label()) == included(
                m,
                last.spec_label(),
            ));
            if included(m, last.spec_label()) {
                assert(drop_labeled(f0.push(last), l) =~= drop_labeled(f0, l).push(last)) by {
                    assert(f0.push(last).drop_last() =~= f0);
                }
            }
        }
    }
}

} // verus!
