//! Fast approximate anti-aliasing.
//!
//! Holds the stage's per-camera settings and the plugin that splices the
//! anti-aliasing stage into the core 2d and core 3d pipelines: the stage
//! is inserted under its label into each pipeline's sub-graph, and a
//! three-label edge chain places it between the stages it reads from and
//! feeds into.

use vstd::prelude::*;

use crate::core_2d::BLOOM;
use crate::core_2d::CORE_2D;
use crate::core_2d::END_MAIN_PASS_POST_PROCESSING;
use crate::core_2d::FXAA;
use crate::core_2d::MAIN_PASS;
use crate::core_2d::TONEMAPPING;
use crate::labels::strs_view;
use crate::pipelining::NodeFactory;
use crate::render_graph::GraphError;
use crate::render_graph::RenderApp;
use crate::render_graph::SubGraph;
use crate::render_graph::chain_pairs;
use crate::render_graph::find_sub_graph;
use crate::render_graph::lemma_find_sub_graph;

verus! {

/// Name of the sub-graph of the core 3d pipeline.
pub const CORE_3D: &'static str = "core_3d";

/// Stage kind of the anti-aliasing stage.
pub const FXAA_NODE_KIND: u64 = 7;

/// How sensitively the algorithm detects edges.
///
/// Lower sensitivity gives a sharper, faster result; higher sensitivity
/// a slower, smoother one, at the price of smearing on the highest
/// settings.
#[derive(Clone, Copy, Debug, PartialEq, Eq, Hash, Structural)]
pub enum Sensitivity {
    Low,
    Medium,
    High,
    Ultra,
    Extreme,
}

impl Sensitivity {
    /// The spelling of this sensitivity in shader defines.
    pub open spec fn spec_str(&self) -> Seq<char> {
        match self {
            Sensitivity::Low => "LOW"@,
            Sensitivity::Medium => "MEDIUM"@,
            Sensitivity::High => "HIGH"@,
            Sensitivity::Ultra => "ULTRA"@,
            Sensitivity::Extreme => "EXTREME"@,
        }
    }

    /// The spelling of this sensitivity in shader defines.
    pub fn get_str(&self) -> (r: &'static str)
        ensures
            r@ == self.spec_str(),
    {
        match self {
            Sensitivity::Low => "LOW",
            Sensitivity::Medium => "MEDIUM",
            Sensitivity::High => "HIGH",
            Sensitivity::Ultra => "ULTRA",
            Sensitivity::Extreme => "EXTREME",
        }
    }
}

/// Per-camera settings of the anti-aliasing stage.
#[derive(Clone, Copy, Debug, PartialEq, Eq, Structural)]
pub struct Fxaa {
    /// Enables the render passes of the stage.
    pub enabled: bool,
    /// The minimum amount of local contrast required to apply the
    /// algorithm.
    pub edge_threshold: Sensitivity,
    /// Trims the algorithm from processing darks.
    pub edge_threshold_min: Sensitivity,
}

impl Default for Fxaa {
    /// Enabled, with high sensitivity on both thresholds.
    fn default() -> (f: Fxaa)
        ensures
            f == (Fxaa {
                enabled: true,
                edge_threshold: Sensitivity::High,
                edge_threshold_min: Sensitivity::High,
            }),
    {
        Fxaa { enabled: true, edge_threshold: Sensitivity::High, edge_threshold_min: Sensitivity::High }
    }
}

/// The three labels whose consecutive pairs splice the stage into the
/// core 2d pipeline.
pub open spec fn spec_2d_edge_labels(tonemapping2d: bool) -> Seq<Seq<char>> {
    seq![
        "main_pass"@,
        "bloom"@,
        if tonemapping2d {
            "tonemapping"@
        } else {
            "end_main_pass_post_processing"@
        },
    ]
}

/// The three labels whose consecutive pairs splice the stage into the
/// core 3d pipeline.
pub open spec fn spec_3d_edge_labels() -> Seq<Seq<char>> {
    seq!["tonemapping"@, "fxaa"@, "end_main_pass_post_processing"@]
}

/// The change one successful splice makes to the sub-graph at `idx`: the
/// anti-aliasing stage is appended under its label, and the edge chain
/// of the given three labels is appended after the existing edges.
pub open spec fn spliced_into(
    s: Seq<SubGraph>,
    t: Seq<SubGraph>,
    idx: int,
    chain: Seq<Seq<char>>,
) -> bool {
    &&& t[idx].name == s[idx].name
    &&& t[idx].spec_labels() == s[idx].spec_labels().push("fxaa"@)
    &&& t[idx].spec_kinds() == s[idx].spec_kinds().push(FXAA_NODE_KIND)
    &&& t[idx].spec_edges() == s[idx].spec_edges() + chain_pairs(chain)
}

/// Adds support for fast approximate anti-aliasing: wires the stage into
/// the core 2d and core 3d pipelines.
#[derive(Clone, Copy, Debug)]
pub struct FxaaPlugin {
    /// Whether tonemapping was enabled for the core 2d pipeline.
    pub tonemapping2d: bool,
    /// Whether tonemapping was enabled for the core 3d pipeline.
    pub tonemapping3d: bool,
}

impl Default for FxaaPlugin {
    /// Assumes tonemapping disabled in both pipelines.
    fn default() -> (p: FxaaPlugin)
        ensures
            p == (FxaaPlugin { tonemapping2d: false, tonemapping3d: false }),
    {
        FxaaPlugin { tonemapping2d: false, tonemapping3d: false }
    }
}

impl FxaaPlugin {
    /// The ordered labels that place the stage inside the core 2d
    /// pipeline: after the main pass and bloom, before the stage that
    /// follows them — tonemapping when it is enabled there, otherwise
    /// the end of post-processing.
    pub fn generate_2d_edges(&self) -> (edges: Vec<String>)
        ensures
            strs_view(edges@) == spec_2d_edge_labels(self.tonemapping2d),
    {
        let following_node = if self.tonemapping2d {
            TONEMAPPING
        } else {
            END_MAIN_PASS_POST_PROCESSING
        };
        let mut edges: Vec<String> = Vec::new();
        edges.push(MAIN_PASS.to_owned());
        edges.push(BLOOM.to_owned());
        edges.push(following_node.to_owned());
        proof {
            assert(strs_view(edges@) =~= spec_2d_edge_labels(self.tonemapping2d));
        }
        edges
    }

    /// The ordered labels that place the stage inside the core 3d
    /// pipeline: between tonemapping and the end of post-processing.
    pub fn generate_3d_edges(&self) -> (edges: Vec<String>)
        ensures
            strs_view(edges@) == spec_3d_edge_labels(),
    {
        let mut edges: Vec<String> = Vec::new();
        edges.push(TONEMAPPING.to_owned());
        edges.push(FXAA.to_owned());
        edges.push(END_MAIN_PASS_POST_PROCESSING.to_owned());
        proof {
            assert(strs_view(edges@) =~= spec_3d_edge_labels());
        }
        edges
    }

    /// Wires the anti-aliasing stage into the core 3d pipeline and then
    /// into the core 2d pipeline: in each one, the stage is constructed
    /// and inserted under its label and the three-label edge chain is
    /// declared.  A missing pipeline sub-graph only records warnings; a
    /// label collision or a failed construction is reported.
    pub fn build(&self, render_app: &mut RenderApp) -> (r: Result<(), GraphError>)
        requires
            old(render_app).wf(),
        ensures
            final(render_app).wf(),
            final(render_app).world == old(render_app).world,
            ({
                let s = old(render_app).graph.sub_graphs@;
                let t = final(render_app).graph.sub_graphs@;
                let i3 = find_sub_graph(s, "core_3d"@);
                let i2 = find_sub_graph(s, "core_2d"@);
                let dup3 = i3 >= 0 && s[i3].spec_labels().contains("fxaa"@);
                let dup2 = i2 >= 0 && s[i2].spec_labels().contains("fxaa"@);
                let warned3 = if i3 < 0 {
                    seq!["core_3d"@, "core_3d"@]
                } else {
                    Seq::<Seq<char>>::empty()
                };
                let warned2 = if i2 < 0 {
                    seq!["core_2d"@, "core_2d"@]
                } else {
                    Seq::<Seq<char>>::empty()
                };
                if !old(render_app).world.spec_can_build(FXAA_NODE_KIND) {
                    &&& r matches Err(GraphError::StageConstruction { kind }) && kind
                        == FXAA_NODE_KIND
                    &&& *final(render_app) == *old(render_app)
                } else if dup3 {
                    &&& r matches Err(GraphError::DuplicateNodeLabel { label }) && label@
                        == "fxaa"@
                    &&& *final(render_app) == *old(render_app)
                } else {
                    &&& t.len() == s.len()
                    &&& forall|j: int| 0 <= j < s.len() && j != i3 && j != i2 ==> t[j] == s[j]
                    &&& (i3 >= 0 ==> spliced_into(s, t, i3, spec_3d_edge_labels()))
                    &&& if dup2 {
                        &&& r matches Err(GraphError::DuplicateNodeLabel { label }) && label@
                            == "fxaa"@
                        &&& t[i2] == s[i2]
                        &&& final(render_app).spec_warnings() == old(
                            render_app,
                        ).spec_warnings() + warned3
                    } else {
                        &&& r is Ok
                        &&& (i2 >= 0 ==> spliced_into(s, t, i2, spec_2d_edge_labels(
                            self.tonemapping2d,
                        )))
                        &&& final(render_app).spec_warnings() == old(
                            render_app,
                        ).spec_warnings() + warned3 + warned2
                    }
                }
            }),
    {
        let ghost s = old(render_app).graph.sub_graphs@;
        proof {
            reveal_strlit("core_2d");
            reveal_strlit("core_3d");
            assert("core_2d"@.len() == 7);
            assert("core_3d"@.len() == 7);
            assert("core_2d"@[5] == '2');
            assert("core_3d"@[5] == '3');
            assert("core_2d"@ != "core_3d"@);
            lemma_find_sub_graph(s, "core_3d"@);
            lemma_find_sub_graph(s, "core_2d"@);
        }
        let creator = NodeFactory { stage_kind: FXAA_NODE_KIND };

        match render_app.add_render_graph_node(CORE_3D, FXAA, &creator) {
            Ok(_) => {},
            Err(e) => {
                return Err(e);
            },
        }
        let edges_3d = self.generate_3d_edges();
        let ghost mid3 = render_app.graph.sub_graphs@;
        proof {
            lemma_find_same_names_pair(s, mid3, "core_3d"@, "core_2d"@);
        }
        render_app.add_render_graph_edges(CORE_3D, &edges_3d);
        let ghost mid = render_app.graph.sub_graphs@;
        proof {
            lemma_find_same_names_pair(s, mid, "core_3d"@, "core_2d"@);
        }

        let result_2d = render_app.add_render_graph_node(CORE_2D, FXAA, &creator);
        match result_2d {
            Ok(_) => {},
            Err(e) => {
                return Err(e);
            },
        }
        let edges_2d = self.generate_2d_edges();
        let ghost mid2 = render_app.graph.sub_graphs@;
        proof {
            lemma_find_same_names_pair(s, mid2, "core_3d"@, "core_2d"@);
        }
        render_app.add_render_graph_edges(CORE_2D, &edges_2d);
        proof {
            let t = render_app.graph.sub_graphs@;
            let i3 = find_sub_graph(s, "core_3d"@);
            let i2 = find_sub_graph(s, "core_2d"@);
            if i3 < 0 && i2 < 0 {
                assert(render_app.spec_warnings() =~= old(render_app).spec_warnings() + seq![
                    "core_3d"@,
                    "core_3d"@,
                ] + seq!["core_2d"@, "core_2d"@]);
            } else if i3 < 0 {
                assert(render_app.spec_warnings() =~= old(render_app).spec_warnings() + seq![
                    "core_3d"@,
                    "core_3d"@,
                ] + Seq::<Seq<char>>::empty());
            } else if i2 < 0 {
                assert(render_app.spec_warnings() =~= old(render_app).spec_warnings()
                    + Seq::<Seq<char>>::empty() + seq!["core_2d"@, "core_2d"@]);
            } else {
                assert(render_app.spec_warnings() =~= old(render_app).spec_warnings()
                    + Seq::<Seq<char>>::empty() + Seq::<Seq<char>>::empty());
            }
        }
        Ok(())
    }
}

/// Both searched names are found at the same positions in two sub-graph
/// lists whose names agree position by position.
proof fn lemma_find_same_names_pair(s: Seq<SubGraph>, t: Seq<SubGraph>, n1: Seq<char>, n2: Seq<char>)
    requires
        s.len() == t.len(),
        forall|j: int| 0 <= j < s.len() ==> (#[trigger] s[j]).name@ == t[j].name@,
    ensures
        find_sub_graph(s, n1) == find_sub_graph(t, n1),
        find_sub_graph(s, n2) == find_sub_graph(t, n2),
{
    crate::pipelining::lemma_find_same_names(s, t, n1);
    crate::pipelining::lemma_find_same_names(s, t, n2);
}

} // verus!
