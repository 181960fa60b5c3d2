//! The core 2d rendering pipeline.
//!
//! Declares the catalogue of the core 2d pipeline — main pass, bloom,
//! tonemapping, end-of-post-processing and upscaling — together with the
//! settings that decide which of the optional stages survive into the
//! built sequence.

use vstd::prelude::*;

use crate::generator::Independent;
use crate::generator::RequiredFields;
use crate::generator::UnparsedTopology;
use crate::labels::str_eq;
use crate::pipelining::NamedNode;
use crate::pipelining::NodeFactory;
use crate::pipelining::PipelineNode;
use crate::pipelining::PipelineSequence;
use crate::settings::PipelineSettings;
use crate::settings::included;

verus! {

/// Name of the sub-graph of the core 2d pipeline.
pub const CORE_2D: &'static str = "core_2d";

/// Label of the main pass stage.
pub const MAIN_PASS: &'static str = "main_pass";

/// Label of the bloom stage.
pub const BLOOM: &'static str = "bloom";

/// Label of the tonemapping stage.
pub const TONEMAPPING: &'static str = "tonemapping";

/// Label of the anti-aliasing stage.
pub const FXAA: &'static str = "fxaa";

/// Label of the stage that closes post-processing of the main pass.
pub const END_MAIN_PASS_POST_PROCESSING: &'static str = "end_main_pass_post_processing";

/// Label of the upscaling stage.
pub const UPSCALING: &'static str = "upscaling";

/// Label of the multisample writeback stage.
pub const MSAA_WRITEBACK: &'static str = "msaa_writeback";

/// Stage kind of the main pass.
pub const MAIN_PASS_2D_NODE_KIND: u64 = 1;

/// Stage kind of the bloom stage.
pub const BLOOM_NODE_KIND: u64 = 2;

/// Stage kind of the tonemapping stage.
pub const TONEMAPPING_NODE_KIND: u64 = 3;

/// Stage kind of the stage that closes post-processing; it carries no
/// work of its own.
pub const EMPTY_NODE_KIND: u64 = 4;

/// Stage kind of the upscaling stage.
pub const UPSCALING_NODE_KIND: u64 = 5;

/// Stage kind of the multisample writeback stage.
pub const MSAA_WRITEBACK_NODE_KIND: u64 = 6;

/// The mapping stored by a list of settings entries: a later entry for
/// the same label shadows an earlier one.
pub open spec fn entries_map(s: Seq<(String, bool)>) -> Map<Seq<char>, bool>
    decreases s.len(),
{
    if s.len() == 0 {
        Map::empty()
    } else {
        entries_map(s.drop_last()).insert(s.last().0@, s.last().1)
    }
}

/// The position of the last entry stored for `l`, or `-1` if there is
/// none.
pub open spec fn last_entry_for(s: Seq<(String, bool)>, l: Seq<char>) -> int
    decreases s.len(),
{
    if s.len() == 0 {
        -1
    } else if s.last().0@ == l {
        s.len() - 1
    } else {
        last_entry_for(s.drop_last(), l)
    }
}

/// The last entry stored for a label decides its flag, and a label
/// without an entry is not in the mapping.
pub proof fn lemma_entries_map(s: Seq<(String, bool)>, l: Seq<char>)
    ensures
        ({
            let r = last_entry_for(s, l);
            &&& r == -1 || 0 <= r < s.len()
            &&& r == -1 ==> !entries_map(s).contains_key(l) && forall|j: int|
                0 <= j < s.len() ==> (#[trigger] s[j]).0@ != l
            &&& r >= 0 ==> s[r].0@ == l && entries_map(s).contains_key(l) && entries_map(s)[l]
                == s[r].1 && forall|j: int| r < j < s.len() ==> (#[trigger] s[j]).0@ != l
        }),
    decreases s.len(),
{
    if s.len() == 0 {
    } else if s.last().0@ == l {
    } else {
        lemma_entries_map(s.drop_last(), l);
        assert forall|j: int| 0 <= j < s.len() - 1 implies s.drop_last()[j] == s[j] by {}
    }
}

/// The inclusion settings of the core 2d pipeline: a label-keyed opt-out
/// mapping, stored as a list of entries in which a later entry for a
/// label shadows an earlier one.
#[derive(Clone, Debug)]
pub struct Core2dSettings {
    entries: Vec<(String, bool)>,
}

impl PipelineSettings for Core2dSettings {
    closed spec fn spec_map(&self) -> Map<Seq<char>, bool> {
        entries_map(self.entries@)
    }

    open spec fn wf(&self) -> bool {
        true
    }

    fn get_bool(&self, label: &str) -> (b: bool) {
        proof {
            lemma_entries_map(self.entries@, label@);
        }
        let mut i: usize = self.entries.len();
        while i > 0
            invariant
                0 <= i <= self.entries@.len(),
                forall|j: int| i <= j < self.entries@.len() ==> (#[trigger] self.entries@[j]).0@
                    != label@,
            decreases i,
        {
            i = i - 1;
            if str_eq(self.entries[i].0.as_str(), label) {
                proof {
                    lemma_entries_map(self.entries@, label@);
                    let r = last_entry_for(self.entries@, label@);
                    if r == -1 {
                        assert(self.entries@[i as int].0@ != label@);
                    } else if r < i {
                        assert(self.entries@[i as int].0@ != label@);
                    } else if r > i {
                        assert(self.entries@[r].0@ != label@);
                    }
                }
                return self.entries[i].1;
            }
        }
        proof {
            lemma_entries_map(self.entries@, label@);
            let r = last_entry_for(self.entries@, label@);
            if r >= 0 {
                assert(self.entries@[r].0@ != label@);
            }
        }
        true
    }

    fn set_bool(&mut self, label: &str, value: bool) -> (previous: bool) {
        let previous = self.get_bool(label);
        let ghost entries0 = self.entries@;
        self.entries.push((label.to_owned(), value));
        proof {
            assert(self.entries@.drop_last() =~= entries0);
        }
        previous
    }
}

impl Core2dSettings {
    /// An empty settings value: every label is included.
    pub fn new() -> (s: Core2dSettings)
        ensures
            s.wf(),
            s.spec_map() == Map::<Seq<char>, bool>::empty(),
    {
        Core2dSettings { entries: Vec::new() }
    }
}

impl Default for Core2dSettings {
    /// The default settings store `true` for each of the optional
    /// stages: everything is included until a stage is opted out.
    fn default() -> (s: Core2dSettings)
        ensures
            s.wf(),
            s.spec_map() == Map::<Seq<char>, bool>::empty().insert("tonemapping"@, true).insert(
                "bloom"@,
                true,
            ).insert("msaa_writeback"@, true),
    {
        let mut entries: Vec<(String, bool)> = Vec::new();
        entries.push((TONEMAPPING.to_owned(), true));
        proof {
            assert(entries@.drop_last() =~= Seq::<(String, bool)>::empty());
        }
        let ghost e1 = entries@;
        entries.push((BLOOM.to_owned(), true));
        proof {
            assert(entries@.drop_last() =~= e1);
        }
        let ghost e2 = entries@;
        entries.push((MSAA_WRITEBACK.to_owned(), true));
        proof {
            assert(entries@.drop_last() =~= e2);
            assert(entries_map(e1) == Map::<Seq<char>, bool>::empty().insert("tonemapping"@, true))
                by {
                assert(e1.drop_last() =~= Seq::<(String, bool)>::empty());
                assert(entries_map(Seq::<(String, bool)>::empty()) == Map::<Seq<char>,
                    bool,
                >::empty());
            }
            assert(entries_map(e2) == entries_map(e1).insert("bloom"@, true));
            assert(entries_map(entries@) == entries_map(e2).insert("msaa_writeback"@, true));
        }
        Core2dSettings { entries }
    }
}

/// Controls how [`create_core_pipeline_sequence`] generates the core 2d
/// rendering pipeline.
#[derive(Clone, Debug)]
pub struct Core2dPipelineSettings {
    /// The label given to this pipeline in the render graph.
    ///
    /// By default, this is `"core_2d"`.
    pub pipeline_label: String,
    /// Controls whether the tonemapping stage is enabled.
    ///
    /// By default, this is `true`.
    pub tonemapping: bool,
    tonemapping_label: String,
    /// Controls whether the bloom stage is enabled.
    ///
    /// By default, this is `true`.
    pub bloom: bool,
    bloom_label: String,
}

impl Core2dPipelineSettings {
    /// The label given to this pipeline in the render graph.
    pub closed spec fn spec_pipeline_label(&self) -> Seq<char> {
        self.pipeline_label@
    }

    /// Whether the tonemapping stage is enabled.
    pub closed spec fn spec_tonemapping(&self) -> bool {
        self.tonemapping
    }

    /// Whether the bloom stage is enabled.
    pub closed spec fn spec_bloom(&self) -> bool {
        self.bloom
    }

    /// The label→flag mapping these settings stand for: the tonemapping
    /// and bloom labels carry their flags, every other label defaults to
    /// included.
    pub closed spec fn spec_map(&self) -> Map<Seq<char>, bool> {
        Map::empty().insert(self.tonemapping_label@, self.tonemapping).insert(
            self.bloom_label@,
            self.bloom,
        )
    }

    /// The stored stage labels are the declared ones.
    pub closed spec fn wf(&self) -> bool {
        self.tonemapping_label@ == "tonemapping"@ && self.bloom_label@ == "bloom"@
    }

    /// Tests whether a pipeline node should be included in the sequence
    /// generated under these settings: a node labeled like the
    /// tonemapping or bloom stage follows its flag, every other node is
    /// included.
    pub fn test_inclusion<N: PipelineNode>(&self, node: &N) -> (r: bool)
        requires
            self.wf(),
        ensures
            r == included(self.spec_map(), node.spec_label()),
    {
        let node_label = node.label();
        proof {
            reveal_strlit("tonemapping");
            reveal_strlit("bloom");
            assert("tonemapping"@.len() == 11);
            assert("bloom"@.len() == 5);
        }
        if str_eq(self.tonemapping_label.as_str(), node_label) {
            self.tonemapping
        } else if str_eq(self.bloom_label.as_str(), node_label) {
            self.bloom
        } else {
            true
        }
    }
}

impl Default for Core2dPipelineSettings {
    /// The default settings: the pipeline is labeled `"core_2d"` and
    /// both optional stages are enabled.
    fn default() -> (s: Core2dPipelineSettings)
        ensures
            s.wf(),
            s.spec_pipeline_label() == "core_2d"@,
            s.spec_tonemapping(),
            s.spec_bloom(),
    {
        Core2dPipelineSettings {
            pipeline_label: CORE_2D.to_owned(),
            tonemapping: true,
            tonemapping_label: TONEMAPPING.to_owned(),
            bloom: true,
            bloom_label: BLOOM.to_owned(),
        }
    }
}

/// The labels of the core 2d sequence that the given flags produce, in
/// order.
pub open spec fn core_sequence_labels(tonemapping: bool, bloom: bool) -> Seq<Seq<char>> {
    seq!["main_pass"@] + (if bloom {
        seq!["bloom"@]
    } else {
        Seq::<Seq<char>>::empty()
    }) + (if tonemapping {
        seq!["tonemapping"@]
    } else {
        Seq::<Seq<char>>::empty()
    }) + seq!["end_main_pass_post_processing"@, "upscaling"@]
}

/// The stage kinds of the core 2d sequence that the given flags produce,
/// in order.
pub open spec fn core_sequence_kinds(tonemapping: bool, bloom: bool) -> Seq<u64> {
    seq![MAIN_PASS_2D_NODE_KIND] + (if bloom {
        seq![BLOOM_NODE_KIND]
    } else {
        Seq::<u64>::empty()
    }) + (if tonemapping {
        seq![TONEMAPPING_NODE_KIND]
    } else {
        Seq::<u64>::empty()
    }) + seq![EMPTY_NODE_KIND, UPSCALING_NODE_KIND]
}

/// Creates the core 2d rendering pipeline sequence.  The declared
/// catalogue is, in order: main pass, bloom, tonemapping,
/// end-of-post-processing and upscaling; each stage of the catalogue is
/// tested against the settings and kept exactly when they include its
/// label, so the optional bloom and tonemapping stages can be opted out
/// while the relative order of the survivors is preserved.
pub fn create_core_pipeline_sequence(settings: Core2dPipelineSettings) -> (s: PipelineSequence<
    NamedNode,
>)
    requires
        settings.wf(),
    ensures
        s.wf(),
        s.spec_pipeline_label() == settings.spec_pipeline_label(),
        s.spec_labels() == core_sequence_labels(settings.spec_tonemapping(), settings.spec_bloom()),
        s.spec_kinds() == core_sequence_kinds(settings.spec_tonemapping(), settings.spec_bloom()),
{
    proof {
        reveal_strlit("main_pass");
        reveal_strlit("bloom");
        reveal_strlit("tonemapping");
        reveal_strlit("end_main_pass_post_processing");
        reveal_strlit("upscaling");
        assert("main_pass"@.len() == 9);
        assert("bloom"@.len() == 5);
        assert("tonemapping"@.len() == 11);
        assert("end_main_pass_post_processing"@.len() == 29);
        assert("upscaling"@.len() == 9);
        assert("upscaling"@[0] == 'u');
        assert("main_pass"@[0] == 'm');
    }
    let main_pass = NamedNode::new("MainPass", Some(MAIN_PASS), NodeFactory {
        stage_kind: MAIN_PASS_2D_NODE_KIND,
    });
    let bloom = NamedNode::new("Bloom", Some(BLOOM), NodeFactory { stage_kind: BLOOM_NODE_KIND });
    let tonemapping = NamedNode::new("Tonemapping", Some(TONEMAPPING), NodeFactory {
        stage_kind: TONEMAPPING_NODE_KIND,
    });
    let end_post_processing = NamedNode::new(
        "EndMainPassPostProcessing",
        Some(END_MAIN_PASS_POST_PROCESSING),
        NodeFactory { stage_kind: EMPTY_NODE_KIND },
    );
    let upscaling = NamedNode::new("Upscaling", Some(UPSCALING), NodeFactory {
        stage_kind: UPSCALING_NODE_KIND,
    });

    let ghost bloom_snap = bloom;
    let ghost tonemapping_snap = tonemapping;

    let mut kept: Vec<NamedNode> = Vec::new();
    let keep_main = settings.test_inclusion(&main_pass);
    proof {
        assert(keep_main);
    }
    kept.push(main_pass);
    let ghost k1 = kept@;
    if settings.test_inclusion(&bloom) {
        kept.push(bloom);
    }
    proof {
        assert(kept@ =~= k1 + (if settings.spec_bloom() {
            seq![bloom_snap]
        } else {
            Seq::<NamedNode>::empty()
        }));
    }
    let ghost k2 = kept@;
    if settings.test_inclusion(&tonemapping) {
        kept.push(tonemapping);
    }
    proof {
        assert(kept@ =~= k2 + (if settings.spec_tonemapping() {
            seq![tonemapping_snap]
        } else {
            Seq::<NamedNode>::empty()
        }));
    }
    let keep_end = settings.test_inclusion(&end_post_processing);
    proof {
        assert(keep_end);
    }
    kept.push(end_post_processing);
    let keep_upscaling = settings.test_inclusion(&upscaling);
    proof {
        assert(keep_upscaling);
    }
    kept.push(upscaling);

    let label = settings.pipeline_label.as_str();
    let s = PipelineSequence::new(label, kept);
    proof {
        assert(s.spec_labels() =~= core_sequence_labels(
            settings.spec_tonemapping(),
            settings.spec_bloom(),
        ));
        assert(s.spec_kinds() =~= core_sequence_kinds(
            settings.spec_tonemapping(),
            settings.spec_bloom(),
        ));
    }
    s
}

/// Creates the multisample writeback sequence: the single writeback
/// stage, addressed at the core 2d sub-graph.  It is spliced in front of
/// the main pass by naming the existing main pass as the target anchor
/// when the sequence is inserted.
pub fn create_msaa_writeback_sequence() -> (s: PipelineSequence<NamedNode>)
    ensures
        s.wf(),
        s.spec_pipeline_label() == "core_2d"@,
        s.spec_labels() == seq!["msaa_writeback"@],
        s.spec_kinds() == seq![MSAA_WRITEBACK_NODE_KIND],
{
    let node = NamedNode::new("MsaaWriteback", Some(MSAA_WRITEBACK), NodeFactory {
        stage_kind: MSAA_WRITEBACK_NODE_KIND,
    });
    let mut nodes: Vec<NamedNode> = Vec::new();
    nodes.push(node);
    let s = PipelineSequence::new(CORE_2D, nodes);
    proof {
        assert(s.spec_labels() =~= seq!["msaa_writeback"@]);
        assert(s.spec_kinds() =~= seq![MSAA_WRITEBACK_NODE_KIND]);
    }
    s
}

impl RequiredFields for Core2dPipelineSettings {
    open spec fn req_wf(&self) -> bool {
        self.wf()
    }
}

impl RequiredFields for Core2dSettings {
    open spec fn req_wf(&self) -> bool {
        PipelineSettings::wf(self)
    }
}

impl UnparsedTopology for Vec<NamedNode> {

}

impl Independent<Core2dPipelineSettings> for PipelineSequence<NamedNode> {
    /// The core 2d sequence is generated from its settings alone; the
    /// sub-graph label of the bundle is replaced by `graph_label`.
    fn new(graph_label: &str, required_fields: Core2dPipelineSettings) -> Self {
        let mut settings = required_fields;
        settings.pipeline_label = graph_label.to_owned();
        create_core_pipeline_sequence(settings)
    }
}

} // verus!
