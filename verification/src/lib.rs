//! Declarative assembly of render pipelines.
//!
//! A pipeline is declared as an ordered catalogue of named stages.  An
//! opt-out settings map filters the catalogue into a concrete stage
//! sequence, and the sequence is then instantiated inside a named
//! sub-graph of a render graph: every surviving stage is constructed from
//! the shared execution context and inserted under its label, and
//! consecutive labels are linked by directed edges, optionally spliced
//! between externally supplied anchor labels.

pub mod core_2d;
pub mod fxaa;
pub mod generator;
pub mod labels;
pub mod pipelining;
pub mod render_graph;
pub mod settings;

use vstd::prelude::*;

use crate::core_2d::CORE_2D;
use crate::core_2d::Core2dPipelineSettings;
use crate::core_2d::core_sequence_kinds;
use crate::core_2d::core_sequence_labels;
use crate::core_2d::create_core_pipeline_sequence;
use crate::pipelining::conflicts_at;
use crate::pipelining::first_conflict_from;
use crate::pipelining::first_unbuildable_from;
use crate::pipelining::has_conflict;
use crate::pipelining::lemma_first_conflict;
use crate::render_graph::GraphError;
use crate::render_graph::RenderApp;
use crate::render_graph::chain_pairs;
use crate::render_graph::find_sub_graph;

verus! {

/// Registers the core rendering pipeline: assembles the core 2d stage
/// sequence, under its default settings, into a fresh `"core_2d"`
/// sub-graph of the render app.
#[derive(Clone, Copy, Debug, PartialEq, Eq, Structural)]
pub struct CorePipelinePlugin;

impl Default for CorePipelinePlugin {
    fn default() -> (p: CorePipelinePlugin)
        ensures
            p == (CorePipelinePlugin),
    {
        CorePipelinePlugin
    }
}

impl crate::generator::GraphGenerator for CorePipelinePlugin {
    /// Generating the core pipeline builds it into the render app.
    fn generate(&self, render_app: &mut RenderApp) -> (r: Result<(), GraphError>) {
        self.build(render_app)
    }
}

impl CorePipelinePlugin {
    /// Builds the plugin's pipeline into the render app: creates the
    /// `"core_2d"` sub-graph and instantiates the default core 2d
    /// sequence inside it, so the sub-graph afterwards holds exactly the
    /// five core stages chained in order.
    pub fn build(&self, render_app: &mut RenderApp) -> (r: Result<(), GraphError>)
        requires
            old(render_app).wf(),
        ensures
            final(render_app).wf(),
            final(render_app).world == old(render_app).world,
            final(render_app).warnings == old(render_app).warnings,
            ({
                let s = old(render_app).graph.sub_graphs@;
                let t = final(render_app).graph.sub_graphs@;
                let r0 = find_sub_graph(s, "core_2d"@);
                let idx = if r0 >= 0 { r0 } else { s.len() as int };
                let ks = core_sequence_kinds(true, true);
                &&& t.len() == (if r0 >= 0 { s.len() as int } else { s.len() as int + 1 })
                &&& forall|j: int| 0 <= j < s.len() && j != idx ==> t[j] == s[j]
                &&& t[idx].name@ == "core_2d"@
                &&& if forall|i: int|
                    0 <= i < ks.len() ==> old(render_app).world.spec_can_build(#[trigger] ks[i]) {
                    &&& r is Ok
                    &&& t[idx].spec_labels() == core_sequence_labels(true, true)
                    &&& t[idx].spec_kinds() == ks
                    &&& t[idx].spec_edges() == chain_pairs(core_sequence_labels(true, true))
                } else {
                    &&& r matches Err(GraphError::StageConstruction { kind }) && kind == ks[
                        first_unbuildable_from(ks, old(render_app).world, 0)
                    ]
                    &&& t[idx].nodes@.len() == 0
                    &&& t[idx].edges@.len() == 0
                }
            }),
    {
        let settings = Core2dPipelineSettings::default();
        let sequence = create_core_pipeline_sequence(settings);
        proof {
            let ls = core_sequence_labels(true, true);
            reveal_strlit("main_pass");
            reveal_strlit("bloom");
            reveal_strlit("tonemapping");
            reveal_strlit("end_main_pass_post_processing");
            reveal_strlit("upscaling");
            assert("main_pass"@.len() == 9);
            assert("bloom"@.len() == 5);
            assert("tonemapping"@.len() == 11);
            assert("end_main_pass_post_processing"@.len() == 29);
            assert("upscaling"@.len() == 9);
            assert("main_pass"@[0] == 'm');
            assert("upscaling"@[0] == 'u');
            assert(ls.len() == 5);
            assert(ls[0] == "main_pass"@);
            assert(ls[1] == "bloom"@);
            assert(ls[2] == "tonemapping"@);
            assert(ls[3] == "end_main_pass_post_processing"@);
            assert(ls[4] == "upscaling"@);
            assert forall|a: int, b: int| 0 <= a < b < 5 implies ls[a] != ls[b] by {
                if a == 0 && b == 4 {
                    assert(ls[0][0] != ls[4][0]);
                }
            }
            lemma_first_conflict(Seq::<Seq<char>>::empty(), ls, 0);
            let first = first_conflict_from(Seq::<Seq<char>>::empty(), ls, 0);
            if first >= 0 {
                assert(conflicts_at(Seq::<Seq<char>>::empty(), ls, first));
                assert(!Seq::<Seq<char>>::empty().contains(ls[first]));
                let k = choose|k: int| 0 <= k < first && ls[k] == ls[first];
                assert(ls[k] != ls[first]);
            }
            assert(!has_conflict(Seq::<Seq<char>>::empty(), ls));
        }
        sequence.create_new_sub_graph(render_app, CORE_2D)
    }
}

} // verus!
