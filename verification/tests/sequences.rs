use core_pipeline::core_2d::Core2dPipelineSettings;
use core_pipeline::core_2d::Core2dSettings;
use core_pipeline::core_2d::create_core_pipeline_sequence;
use core_pipeline::generator::Independent;
use core_pipeline::pipelining::NamedNode;
use core_pipeline::pipelining::NodeFactory;
use core_pipeline::pipelining::PipelineSequence;
use core_pipeline::pipelining::build_sequence;
use core_pipeline::settings::PipelineSettings;

fn catalogue() -> Vec<NamedNode> {
    vec![
        NamedNode::new("MainPass", None, NodeFactory { stage_kind: 1 }),
        NamedNode::new("Bloom", None, NodeFactory { stage_kind: 2 }),
        NamedNode::new("Tonemapping", None, NodeFactory { stage_kind: 3 }),
    ]
}

#[test]
fn empty_settings_keep_the_whole_catalogue() {
    let settings = Core2dSettings::new();
    let sequence = build_sequence("core_2d", catalogue(), &settings);
    assert_eq!(sequence.len(), 3);
    assert_eq!(sequence.label_at(0), "main_pass");
    assert_eq!(sequence.label_at(1), "bloom");
    assert_eq!(sequence.label_at(2), "tonemapping");
}

#[test]
fn opting_out_removes_exactly_that_stage() {
    let mut settings = Core2dSettings::new();
    settings.set_bool("bloom", false);
    let sequence = build_sequence("core_2d", catalogue(), &settings);
    assert_eq!(sequence.len(), 2);
    assert_eq!(sequence.label_at(0), "main_pass");
    assert_eq!(sequence.label_at(1), "tonemapping");
}

#[test]
fn opting_everything_out_leaves_nothing() {
    let mut settings = Core2dSettings::new();
    settings.set_bool("main_pass", false);
    settings.set_bool("bloom", false);
    settings.set_bool("tonemapping", false);
    let sequence = build_sequence("core_2d", catalogue(), &settings);
    assert_eq!(sequence.len(), 0);
}

#[test]
fn opting_back_in_restores_the_stage() {
    let mut settings = Core2dSettings::new();
    settings.set_bool("bloom", false);
    settings.set_bool("bloom", true);
    let sequence = build_sequence("core_2d", catalogue(), &settings);
    assert_eq!(sequence.len(), 3);
}

#[test]
fn build_sequence_keeps_the_pipeline_label() {
    let settings = Core2dSettings::new();
    let sequence = build_sequence("my_pipeline", catalogue(), &settings);
    assert_eq!(sequence.pipeline_label(), "my_pipeline");
}

#[test]
fn sequence_new_reads_labels_off_the_nodes() {
    let sequence = PipelineSequence::new("p", catalogue());
    assert_eq!(sequence.len(), 3);
    assert_eq!(sequence.label_at(0), "main_pass");
    assert_eq!(sequence.label_at(2), "tonemapping");
}

#[test]
fn core_sequence_defaults_to_all_five_stages() {
    let sequence = create_core_pipeline_sequence(Core2dPipelineSettings::default());
    assert_eq!(sequence.len(), 5);
    assert_eq!(sequence.pipeline_label(), "core_2d");
    assert_eq!(sequence.label_at(0), "main_pass");
    assert_eq!(sequence.label_at(1), "bloom");
    assert_eq!(sequence.label_at(2), "tonemapping");
    assert_eq!(sequence.label_at(3), "end_main_pass_post_processing");
    assert_eq!(sequence.label_at(4), "upscaling");
}

#[test]
fn core_sequence_drops_disabled_stages() {
    let mut settings = Core2dPipelineSettings::default();
    settings.bloom = false;
    let sequence = create_core_pipeline_sequence(settings);
    assert_eq!(sequence.len(), 4);
    assert_eq!(sequence.label_at(0), "main_pass");
    assert_eq!(sequence.label_at(1), "tonemapping");
    assert_eq!(sequence.label_at(2), "end_main_pass_post_processing");
    assert_eq!(sequence.label_at(3), "upscaling");
}

#[test]
fn core_sequence_without_optional_stages() {
    let mut settings = Core2dPipelineSettings::default();
    settings.bloom = false;
    settings.tonemapping = false;
    let sequence = create_core_pipeline_sequence(settings);
    assert_eq!(sequence.len(), 3);
    assert_eq!(sequence.label_at(0), "main_pass");
    assert_eq!(sequence.label_at(1), "end_main_pass_post_processing");
    assert_eq!(sequence.label_at(2), "upscaling");
}

#[test]
fn independent_generator_takes_the_graph_label() {
    let sequence: PipelineSequence<NamedNode> =
        Independent::new("offscreen", Core2dPipelineSettings::default());
    assert_eq!(sequence.pipeline_label(), "offscreen");
    assert_eq!(sequence.len(), 5);
}
