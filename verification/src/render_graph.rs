//! The hosting render graph, modelled as explicit data.
//!
//! The graph is a collection of named sub-graphs; a sub-graph owns its
//! stages, keyed by label, and a list of directed edges between labels.
//! Stages are constructed from a shared execution context that knows
//! which stage kinds it can initialize.  Mutations against a sub-graph
//! that does not exist are recorded as warnings and leave the graph
//! untouched, so that declaration order between plugins never aborts
//! startup; a duplicate label inside one sub-graph is reported as an
//! error instead of being overwritten silently.

use vstd::prelude::*;

use crate::labels::str_eq;
use crate::labels::strs_view;

verus! {

/// An opaque unit of rendering work, identified by the kind of the
/// declaration that constructed it.
#[derive(Clone, Copy, Debug, PartialEq, Eq, Structural)]
pub struct Stage {
    /// The stage kind this stage was constructed from.
    pub kind: u64,
}

/// The shared execution context stages are constructed from.  It records
/// which stage kinds have the prerequisites they need: constructing any
/// other kind fails, and that failure is fatal to startup.
pub struct ExecutionContext {
    available: Vec<u64>,
}

/// An error that aborts pipeline assembly.
#[derive(Debug)]
pub enum GraphError {
    /// A stage of this kind could not be constructed from the execution
    /// context.
    StageConstruction { kind: u64 },
    /// A stage with this label is already present in the target
    /// sub-graph.
    DuplicateNodeLabel { label: String },
}

/// A constructed stage stored in a sub-graph under its label.
pub struct GraphNode {
    /// The label the stage is stored under.
    pub label: String,
    /// The stage itself.
    pub stage: Stage,
}

/// A directed dependency edge between two labels of a sub-graph.
pub struct GraphEdge {
    /// Label of the stage the edge leaves.
    pub from: String,
    /// Label of the stage the edge enters.
    pub to: String,
}

/// A named, independently addressable region of the render graph.
pub struct SubGraph {
    /// The sub-graph's name.
    pub name: String,
    /// The stages of the sub-graph, each under its label.
    pub nodes: Vec<GraphNode>,
    /// The directed edges between labels.  Anchor labels of other
    /// sub-graphs may appear here; they are resolved by the hosting
    /// graph, not validated locally.
    pub edges: Vec<GraphEdge>,
}

/// The render graph: a collection of sub-graphs with distinct names.
pub struct RenderGraph {
    /// The sub-graphs, in order of creation.
    pub sub_graphs: Vec<SubGraph>,
}

/// The application value pipeline assembly runs against: the render
/// graph, the execution context stages are constructed from, and the
/// warnings recorded for mutations against missing sub-graphs.
pub struct RenderApp {
    /// The render graph being assembled.
    pub graph: RenderGraph,
    /// The context stages are constructed from.
    pub world: ExecutionContext,
    /// One entry per mutation that named a missing sub-graph: the name
    /// that was not found.
    pub warnings: Vec<String>,
}

impl ExecutionContext {
    /// Whether a stage of this kind can be constructed.
    pub closed spec fn spec_can_build(&self, kind: u64) -> bool {
        self.available@.contains(kind)
    }

    /// A context in which no stage kind can be constructed yet.
    pub fn new() -> (ctx: ExecutionContext)
        ensures
            forall|k: u64| !ctx.spec_can_build(k),
    {
        ExecutionContext { available: Vec::new() }
    }

    /// Registers the prerequisites of one stage kind, so that stages of
    /// that kind can be constructed from this context.
    pub fn register_stage_kind(&mut self, kind: u64)
        ensures
            forall|k: u64|
                final(self).spec_can_build(k) <==> old(self).spec_can_build(k) || k == kind,
    {
        self.available.push(kind);
        proof {
            assert forall|k: u64|
                final(self).spec_can_build(k) <==> old(self).spec_can_build(k) || k == kind by {
                if old(self).spec_can_build(k) || k == kind {
                    if k == kind {
                        assert(self.available@[self.available@.len() - 1] == k);
                    } else {
                        let i = choose|i: int|
                            0 <= i < old(self).available@.len() && old(self).available@[i] == k;
                        assert(self.available@[i] == k);
                    }
                }
            }
        }
    }

    /// Whether a stage of this kind can be constructed.
    pub fn can_build(&self, kind: u64) -> (r: bool)
        ensures
            r == self.spec_can_build(kind),
    {
        let mut i: usize = 0;
        while i < self.available.len()
            invariant
                0 <= i <= self.available@.len(),
                forall|j: int| 0 <= j < i ==> self.available@[j] != kind,
            decreases self.available@.len() - i,
        {
            if self.available[i] == kind {
                return true;
            }
            i = i + 1;
        }
        false
    }
}

impl SubGraph {
    /// The labels of the sub-graph's stages, in insertion order.
    pub open spec fn spec_labels(&self) -> Seq<Seq<char>> {
        self.nodes@.map_values(|n: GraphNode| n.label@)
    }

    /// The kinds of the sub-graph's stages, in insertion order.
    pub open spec fn spec_kinds(&self) -> Seq<u64> {
        self.nodes@.map_values(|n: GraphNode| n.stage.kind)
    }

    /// The edges of the sub-graph, as pairs of labels, in insertion
    /// order.
    pub open spec fn spec_edges(&self) -> Seq<(Seq<char>, Seq<char>)> {
        self.edges@.map_values(|e: GraphEdge| (e.from@, e.to@))
    }

    /// Node labels are unique within the sub-graph.
    pub open spec fn wf(&self) -> bool {
        forall|i: int, j: int|
            0 <= i < j < self.spec_labels().len() ==> self.spec_labels()[i] != self.spec_labels()[j]
    }
}

impl RenderGraph {
    /// The names of the sub-graphs, in order of creation.
    pub open spec fn spec_names(&self) -> Seq<Seq<char>> {
        self.sub_graphs@.map_values(|sg: SubGraph| sg.name@)
    }

    /// Sub-graph names are unique, and every sub-graph is well formed.
    pub open spec fn wf(&self) -> bool {
        &&& forall|i: int, j: int|
            0 <= i < j < self.spec_names().len() ==> self.spec_names()[i] != self.spec_names()[j]
        &&& forall|i: int| 0 <= i < self.sub_graphs@.len() ==> (#[trigger] self.sub_graphs@[i]).wf()
    }
}

impl RenderApp {
    /// The recorded warnings: the missing sub-graph name of each no-op
    /// mutation, in order.
    pub open spec fn spec_warnings(&self) -> Seq<Seq<char>> {
        self.warnings@.map_values(|w: String| w@)
    }

    /// The graph is well formed.
    pub open spec fn wf(&self) -> bool {
        self.graph.wf()
    }

    /// An application with an empty render graph, a fresh execution
    /// context and no warnings.
    pub fn new() -> (app: RenderApp)
        ensures
            app.wf(),
            app.graph.sub_graphs@.len() == 0,
            app.warnings@.len() == 0,
            forall|k: u64| !app.world.spec_can_build(k),
    {
        RenderApp {
            graph: RenderGraph { sub_graphs: Vec::new() },
            world: ExecutionContext::new(),
            warnings: Vec::new(),
        }
    }
}

impl RenderGraph {
    /// The position of the sub-graph called `name`, if it exists.
    pub(crate) fn find_index(&self, name: &str) -> (r: Option<usize>)
        ensures
            match r {
                Some(i) => 0 <= i < self.sub_graphs@.len() && find_sub_graph(
                    self.sub_graphs@,
                    name@,
                ) == i,
                None => find_sub_graph(self.sub_graphs@, name@) == -1,
            },
    {
        let mut i: usize = 0;
        while i < self.sub_graphs.len()
            invariant
                0 <= i <= self.sub_graphs@.len(),
                forall|j: int| 0 <= j < i ==> self.sub_graphs@[j].name@ != name@,
            decreases self.sub_graphs@.len() - i,
        {
            if str_eq(self.sub_graphs[i].name.as_str(), name) {
                proof {
                    lemma_find_sub_graph(self.sub_graphs@, name@);
                    let r = find_sub_graph(self.sub_graphs@, name@);
                    if r < i {
                        assert(self.sub_graphs@[r].name@ != name@);
                    }
                    if r > i {
                        assert(self.sub_graphs@[i as int].name@ != name@);
                    }
                }
                return Some(i);
            }
            i = i + 1;
        }
        proof {
            lemma_find_sub_graph(self.sub_graphs@, name@);
        }
        None
    }
}

/// Whether the sub-graph already stores a stage under this label.
pub fn sub_graph_has_label(sg: &SubGraph, label: &str) -> (r: bool)
    ensures
        r == sg.spec_labels().contains(label@),
{
    let mut i: usize = 0;
    while i < sg.nodes.len()
        invariant
            0 <= i <= sg.nodes@.len(),
            forall|j: int| 0 <= j < i ==> sg.spec_labels()[j] != label@,
        decreases sg.nodes@.len() - i,
    {
        if str_eq(sg.nodes[i].label.as_str(), label) {
            proof {
                assert(sg.spec_labels()[i as int] == label@);
            }
            return true;
        }
        i = i + 1;
    }
    proof {
        assert forall|j: int| 0 <= j < sg.spec_labels().len() implies sg.spec_labels()[j]
            != label@ by {}
    }
    false
}

impl RenderApp {
    /// Creates an empty sub-graph under `sub_graph_name`.  Creating a
    /// name that already exists resets that sub-graph to empty: creation
    /// intends the name to start from a clean slate either way.
    pub fn add_render_sub_graph(&mut self, sub_graph_name: &str)
        requires
            old(self).wf(),
        ensures
            final(self).wf(),
            final(self).world == old(self).world,
            final(self).warnings == old(self).warnings,
            ({
                let s = old(self).graph.sub_graphs@;
                let t = final(self).graph.sub_graphs@;
                let r = find_sub_graph(s, sub_graph_name@);
                if r >= 0 {
                    &&& t.len() == s.len()
                    &&& forall|j: int| 0 <= j < s.len() && j != r ==> t[j] == s[j]
                    &&& t[r].name@ == sub_graph_name@
                    &&& t[r].nodes@.len() == 0
                    &&& t[r].edges@.len() == 0
                } else {
                    &&& t.len() == s.len() + 1
                    &&& forall|j: int| 0 <= j < s.len() ==> t[j] == s[j]
                    &&& t[s.len() as int].name@ == sub_graph_name@
                    &&& t[s.len() as int].nodes@.len() == 0
                    &&& t[s.len() as int].edges@.len() == 0
                }
            }),
    {
        proof {
            lemma_find_sub_graph(old(self).graph.sub_graphs@, sub_graph_name@);
        }
        let fresh = SubGraph { name: sub_graph_name.to_owned(), nodes: Vec::new(), edges: Vec::new() };
        match self.graph.find_index(sub_graph_name) {
            Some(i) => {
                let slot = &mut self.graph.sub_graphs[i];
                *slot = fresh;
                proof {
                    let s = old(self).graph.sub_graphs@;
                    let t = self.graph.sub_graphs@;
                    assert(self.graph.spec_names() =~= old(self).graph.spec_names());
                    assert forall|k: int| 0 <= k < t.len() implies (#[trigger] t[k]).wf() by {
                        if k != i {
                            assert(t[k] == s[k]);
                        }
                    }
                }
            },
            None => {
                self.graph.sub_graphs.push(fresh);
                proof {
                    let s = old(self).graph.sub_graphs@;
                    let t = self.graph.sub_graphs@;
                    assert(self.graph.spec_names() =~= old(self).graph.spec_names().push(
                        sub_graph_name@,
                    ));
                    assert forall|k: int| 0 <= k < t.len() implies (#[trigger] t[k]).wf() by {
                        if k < s.len() {
                            assert(t[k] == s[k]);
                        }
                    }
                }
            },
        }
    }

    /// Inserts a constructed stage under `node_name` into the named
    /// sub-graph.  If the sub-graph is missing, the insertion is a no-op
    /// and one warning is recorded; if the label is already taken, the
    /// duplicate is reported and nothing changes.
    pub fn add_node_to_render_graph(&mut self, sub_graph_name: &str, node_name: &str, node: Stage)
        -> (r: Result<(), GraphError>)
        requires
            old(self).wf(),
        ensures
            final(self).wf(),
            final(self).world == old(self).world,
            ({
                let s = old(self).graph.sub_graphs@;
                let t = final(self).graph.sub_graphs@;
                let idx = find_sub_graph(s, sub_graph_name@);
                if idx < 0 {
                    &&& r is Ok
                    &&& final(self).graph == old(self).graph
                    &&& final(self).spec_warnings() == old(self).spec_warnings().push(
                        sub_graph_name@,
                    )
                } else if s[idx].spec_labels().contains(node_name@) {
                    &&& r matches Err(GraphError::DuplicateNodeLabel { label }) && label@
                        == node_name@
                    &&& *final(self) == *old(self)
                } else {
                    &&& r is Ok
                    &&& t.len() == s.len()
                    &&& forall|j: int| 0 <= j < s.len() && j != idx ==> t[j] == s[j]
                    &&& t[idx].name == s[idx].name
                    &&& t[idx].spec_labels() == s[idx].spec_labels().push(node_name@)
                    &&& t[idx].spec_kinds() == s[idx].spec_kinds().push(node.kind)
                    &&& t[idx].edges == s[idx].edges
                    &&& final(self).warnings == old(self).warnings
                }
            }),
    {
        proof {
            lemma_find_sub_graph(old(self).graph.sub_graphs@, sub_graph_name@);
        }
        match self.graph.find_index(sub_graph_name) {
            None => {
                self.warnings.push(sub_graph_name.to_owned());
                proof {
                    assert(self.spec_warnings() =~= old(self).spec_warnings().push(
                        sub_graph_name@,
                    ));
                }
                Ok(())
            },
            Some(i) => {
                if sub_graph_has_label(&self.graph.sub_graphs[i], node_name) {
                    return Err(GraphError::DuplicateNodeLabel { label: node_name.to_owned() });
                }
                let slot = &mut self.graph.sub_graphs[i];
                slot.nodes.push(GraphNode { label: node_name.to_owned(), stage: node });
                proof {
                    let s = old(self).graph.sub_graphs@;
                    let t = self.graph.sub_graphs@;
                    assert(t[i as int].spec_labels() =~= s[i as int].spec_labels().push(
                        node_name@,
                    ));
                    assert(t[i as int].spec_kinds() =~= s[i as int].spec_kinds().push(node.kind));
                    assert(self.graph.spec_names() =~= old(self).graph.spec_names());
                    assert forall|k: int| 0 <= k < t.len() implies (#[trigger] t[k]).wf() by {
                        if k != i {
                            assert(t[k] == s[k]);
                        } else {
                            let ls = t[i as int].spec_labels();
                            assert forall|a: int, b: int| 0 <= a < b < ls.len() implies ls[a]
                                != ls[b] by {
                                if b == ls.len() - 1 {
                                    assert(!s[i as int].spec_labels().contains(node_name@));
                                    assert(s[i as int].spec_labels()[a] != node_name@);
                                }
                            }
                        }
                    }
                }
                Ok(())
            },
        }
    }

    /// Declares a directed edge between each consecutive pair of the
    /// given labels inside the named sub-graph.  If the sub-graph is
    /// missing, the whole call is a no-op and one warning is recorded.
    pub fn add_render_graph_edges(&mut self, sub_graph_name: &str, edge_labels: &Vec<String>)
        requires
            old(self).wf(),
        ensures
            final(self).wf(),
            final(self).world == old(self).world,
            ({
                let s = old(self).graph.sub_graphs@;
                let t = final(self).graph.sub_graphs@;
                let idx = find_sub_graph(s, sub_graph_name@);
                if idx < 0 {
                    &&& final(self).graph == old(self).graph
                    &&& final(self).spec_warnings() == old(self).spec_warnings().push(
                        sub_graph_name@,
                    )
                } else {
                    &&& t.len() == s.len()
                    &&& forall|j: int| 0 <= j < s.len() && j != idx ==> t[j] == s[j]
                    &&& t[idx].name == s[idx].name
                    &&& t[idx].nodes == s[idx].nodes
                    &&& t[idx].spec_edges() == s[idx].spec_edges() + chain_pairs(
                        strs_view(edge_labels@),
                    )
                    &&& final(self).warnings == old(self).warnings
                }
            }),
    {
        proof {
            lemma_find_sub_graph(old(self).graph.sub_graphs@, sub_graph_name@);
        }
        match self.graph.find_index(sub_graph_name) {
            None => {
                self.warnings.push(sub_graph_name.to_owned());
                proof {
                    assert(self.spec_warnings() =~= old(self).spec_warnings().push(
                        sub_graph_name@,
                    ));
                }
            },
            Some(i) => {
                let ghost s = old(self).graph.sub_graphs@;
                let mut sg = self.graph.sub_graphs.remove(i);
                let ghost edges0 = sg.spec_edges();
                if edge_labels.len() > 1 {
                    let mut k: usize = 1;
                    while k < edge_labels.len()
                        invariant
                            1 <= k <= edge_labels@.len(),
                            sg.name == s[i as int].name,
                            sg.nodes == s[i as int].nodes,
                            edges0 == s[i as int].spec_edges(),
                            sg.spec_edges() == edges0 + chain_pairs(
                                strs_view(edge_labels@).subrange(0, k as int),
                            ),
                        decreases edge_labels@.len() - k,
                    {
                        let from = edge_labels[k - 1].clone();
                        let to = edge_labels[k].clone();
                        let ghost before = sg.spec_edges();
                        sg.edges.push(GraphEdge { from, to });
                        proof {
                            let lv = strs_view(edge_labels@);
                            let pre = lv.subrange(0, k as int);
                            let ext = lv.subrange(0, k + 1);
                            assert(ext.drop_last() =~= pre);
                            assert(ext.last() == lv[k as int]);
                            assert(ext[ext.len() - 2] == lv[k - 1]);
                            assert(sg.spec_edges() =~= before.push((lv[k - 1], lv[k as int])));
                            assert(sg.spec_edges() =~= edges0 + chain_pairs(ext));
                        }
                        k = k + 1;
                    }
                    proof {
                        let lv = strs_view(edge_labels@);
                        assert(lv.subrange(0, lv.len() as int) =~= lv);
                    }
                } else {
                    proof {
                        let lv = strs_view(edge_labels@);
                        lemma_chain_pairs(lv);
                        assert(sg.spec_edges() =~= edges0 + chain_pairs(lv));
                    }
                }
                self.graph.sub_graphs.insert(i, sg);
                proof {
                    let t = self.graph.sub_graphs@;
                    assert(t.len() == s.len());
                    assert forall|j: int| 0 <= j < s.len() && j != i implies t[j] == s[j] by {
                        assert(s.remove(i as int).insert(i as int, sg) == t);
                        if j < i {
                            assert(t[j] == s.remove(i as int)[j]);
                        } else {
                            assert(t[j] == s.remove(i as int)[j - 1]);
                        }
                    }
                    assert(t[i as int] == sg);
                    assert(self.graph.spec_names() =~= old(self).graph.spec_names());
                    assert forall|kk: int| 0 <= kk < t.len() implies (#[trigger] t[kk]).wf() by {
                        if kk != i {
                            assert(t[kk] == s[kk]);
                        } else {
                            assert(t[kk].spec_labels() == s[kk].spec_labels());
                        }
                    }
                }
            },
        }
    }

    /// Declares one directed edge from `output_edge` to `input_edge`
    /// inside the named sub-graph.  If the sub-graph is missing, the call
    /// is a no-op and one warning is recorded.
    pub fn add_render_graph_edge(&mut self, sub_graph_name: &str, output_edge: &str, input_edge: &str)
        requires
            old(self).wf(),
        ensures
            final(self).wf(),
            final(self).world == old(self).world,
            ({
                let s = old(self).graph.sub_graphs@;
                let t = final(self).graph.sub_graphs@;
                let idx = find_sub_graph(s, sub_graph_name@);
                if idx < 0 {
                    &&& final(self).graph == old(self).graph
                    &&& final(self).spec_warnings() == old(self).spec_warnings().push(
                        sub_graph_name@,
                    )
                } else {
                    &&& t.len() == s.len()
                    &&& forall|j: int| 0 <= j < s.len() && j != idx ==> t[j] == s[j]
                    &&& t[idx].name == s[idx].name
                    &&& t[idx].nodes == s[idx].nodes
                    &&& t[idx].spec_edges() == s[idx].spec_edges().push(
                        (output_edge@, input_edge@),
                    )
                    &&& final(self).warnings == old(self).warnings
                }
            }),
    {
        proof {
            lemma_find_sub_graph(old(self).graph.sub_graphs@, sub_graph_name@);
        }
        match self.graph.find_index(sub_graph_name) {
            None => {
                self.warnings.push(sub_graph_name.to_owned());
                proof {
                    assert(self.spec_warnings() =~= old(self).spec_warnings().push(
                        sub_graph_name@,
                    ));
                }
            },
            Some(i) => {
                let ghost s = old(self).graph.sub_graphs@;
                let slot = &mut self.graph.sub_graphs[i];
                slot.edges.push(GraphEdge { from: output_edge.to_owned(), to: input_edge.to_owned() });
                proof {
                    let t = self.graph.sub_graphs@;
                    assert(t[i as int].spec_edges() =~= s[i as int].spec_edges().push(
                        (output_edge@, input_edge@),
                    ));
                    assert(self.graph.spec_names() =~= old(self).graph.spec_names());
                    assert forall|kk: int| 0 <= kk < t.len() implies (#[trigger] t[kk]).wf() by {
                        if kk != i {
                            assert(t[kk] == s[kk]);
                        } else {
                            assert(t[kk].spec_labels() == s[kk].spec_labels());
                        }
                    }
                }
            },
        }
    }
}

/// The position of the sub-graph called `name`, or `-1` if there is none.
pub open spec fn find_sub_graph(s: Seq<SubGraph>, name: Seq<char>) -> int
    decreases s.len(),
{
    if s.len() == 0 {
        -1
    } else if s[0].name@ == name {
        0
    } else {
        let r = find_sub_graph(s.drop_first(), name);
        if r < 0 {
            -1
        } else {
            r + 1
        }
    }
}

/// `find_sub_graph` returns the first position whose sub-graph carries
/// the name, and `-1` exactly when no sub-graph does.
pub proof fn lemma_find_sub_graph(s: Seq<SubGraph>, name: Seq<char>)
    ensures
        ({
            let r = find_sub_graph(s, name);
            &&& -1 <= r < s.len()
            &&& r >= 0 ==> s[r].name@ == name
            &&& r >= 0 ==> forall|j: int| 0 <= j < r ==> s[j].name@ != name
            &&& r < 0 ==> forall|j: int| 0 <= j < s.len() ==> s[j].name@ != name
        }),
    decreases s.len(),
{
    if s.len() == 0 {
    } else if s[0].name@ == name {
    } else {
        let t = s.drop_first();
        lemma_find_sub_graph(t, name);
        let r0 = find_sub_graph(t, name);
        if r0 >= 0 {
            assert(t[r0] == s[r0 + 1]);
            assert forall|j: int| 0 <= j < r0 + 1 implies s[j].name@ != name by {
                if j > 0 {
                    assert(t[j - 1] == s[j]);
                }
            }
        } else {
            assert forall|j: int| 0 <= j < s.len() implies s[j].name@ != name by {
                if j > 0 {
                    assert(t[j - 1] == s[j]);
                }
            }
        }
    }
}

/// The directed edges linking each label of the list to the next one.
pub open spec fn chain_pairs(ls: Seq<Seq<char>>) -> Seq<(Seq<char>, Seq<char>)>
    decreases ls.len(),
{
    if ls.len() <= 1 {
        Seq::empty()
    } else {
        chain_pairs(ls.drop_last()) + seq![(ls[ls.len() - 2], ls.last())]
    }
}

/// The edge chain of a label list has one edge per consecutive pair of
/// labels, in order.
pub proof fn lemma_chain_pairs(ls: Seq<Seq<char>>)
    ensures
        chain_pairs(ls).len() == if ls.len() <= 1 { 0int } else { ls.len() - 1 },
        forall|k: int|
            0 <= k < chain_pairs(ls).len() ==> #[trigger] chain_pairs(ls)[k] == (ls[k], ls[k + 1]),
    decreases ls.len(),
{
    if ls.len() <= 1 {
    } else {
        lemma_chain_pairs(ls.drop_last());
        assert forall|k: int|
            0 <= k < chain_pairs(ls).len() implies #[trigger] chain_pairs(ls)[k] == (
            ls[k],
            ls[k + 1],
        ) by {
            if k < chain_pairs(ls).len() - 1 {
                assert(chain_pairs(ls)[k] == chain_pairs(ls.drop_last())[k]);
                assert(ls.drop_last()[k] == ls[k]);
                assert(ls.drop_last()[k + 1] == ls[k + 1]);
            }
        }
    }
}

/// Chaining a concatenation links the two parts and bridges them with
/// one edge from the last label of the first part to the first label of
/// the second.
pub proof fn lemma_chain_pairs_concat(a: Seq<Seq<char>>, b: Seq<Seq<char>>)
    requires
        a.len() > 0,
        b.len() > 0,
    ensures
        chain_pairs(a + b) == chain_pairs(a) + seq![(a.last(), b[0])] + chain_pairs(b),
    decreases b.len(),
{
    lemma_chain_pairs(a);
    lemma_chain_pairs(b);
    lemma_chain_pairs(a + b);
    let lhs = chain_pairs(a + b);
    let rhs = chain_pairs(a) + seq![(a.last(), b[0])] + chain_pairs(b);
    assert(lhs.len() == rhs.len());
    assert forall|k: int| 0 <= k < lhs.len() implies lhs[k] == rhs[k] by {
        assert((a + b)[k] == if k < a.len() { a[k] } else { b[k - a.len()] });
        assert((a + b)[k + 1] == if k + 1 < a.len() { a[k + 1] } else { b[k + 1 - a.len()] });
    }
    assert(lhs =~= rhs);
}

/// Dropping an interior label from a chained list replaces its two
/// adjacent edges with a single edge that reconnects its former
/// neighbours directly; every other edge of the chain is unchanged.
pub proof fn lemma_chain_reconnects(u: Seq<Seq<char>>, x: Seq<char>, v: Seq<Seq<char>>)
    requires
        u.len() > 0,
        v.len() > 0,
    ensures
        chain_pairs(u + seq![x] + v) == chain_pairs(u) + seq![(u.last(), x), (x, v[0])]
            + chain_pairs(v),
        chain_pairs(u + v) == chain_pairs(u) + seq![(u.last(), v[0])] + chain_pairs(v),
{
    lemma_chain_pairs_concat(u, v);
    lemma_chain_pairs_concat(u, seq![x]);
    lemma_chain_pairs_concat(u + seq![x], v);
    assert(chain_pairs(seq![x]) == Seq::<(Seq<char>, Seq<char>)>::empty());
    assert((u + seq![x]).last() == x);
    assert(chain_pairs(u + seq![x] + v) =~= chain_pairs(u) + seq![(u.last(), x), (x, v[0])]
        + chain_pairs(v));
}

} // verus!
