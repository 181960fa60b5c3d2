use core_pipeline::CorePipelinePlugin;
use core_pipeline::core_2d::BLOOM_NODE_KIND;
use core_pipeline::core_2d::EMPTY_NODE_KIND;
use core_pipeline::core_2d::MAIN_PASS_2D_NODE_KIND;
use core_pipeline::core_2d::TONEMAPPING_NODE_KIND;
use core_pipeline::core_2d::UPSCALING_NODE_KIND;
use core_pipeline::fxaa::FXAA_NODE_KIND;
use core_pipeline::fxaa::Fxaa;
use core_pipeline::fxaa::FxaaPlugin;
use core_pipeline::fxaa::Sensitivity;
use core_pipeline::generator::GraphGenerator;
use core_pipeline::render_graph::RenderApp;

fn register_core_kinds(app: &mut RenderApp) {
    app.world.register_stage_kind(MAIN_PASS_2D_NODE_KIND);
    app.world.register_stage_kind(BLOOM_NODE_KIND);
    app.world.register_stage_kind(TONEMAPPING_NODE_KIND);
    app.world.register_stage_kind(EMPTY_NODE_KIND);
    app.world.register_stage_kind(UPSCALING_NODE_KIND);
}

#[test]
fn sensitivity_spellings() {
    assert_eq!(Sensitivity::Low.get_str(), "LOW");
    assert_eq!(Sensitivity::Medium.get_str(), "MEDIUM");
    assert_eq!(Sensitivity::High.get_str(), "HIGH");
    assert_eq!(Sensitivity::Ultra.get_str(), "ULTRA");
    assert_eq!(Sensitivity::Extreme.get_str(), "EXTREME");
}

#[test]
fn fxaa_defaults_to_enabled_high_sensitivity() {
    let fxaa = Fxaa::default();
    assert!(fxaa.enabled);
    assert_eq!(fxaa.edge_threshold, Sensitivity::High);
    assert_eq!(fxaa.edge_threshold_min, Sensitivity::High);
}

#[test]
fn fxaa_2d_edges_without_tonemapping() {
    let plugin = FxaaPlugin::default();
    let edges = plugin.generate_2d_edges();
    assert_eq!(edges, vec!["main_pass", "bloom", "end_main_pass_post_processing"]);
}

#[test]
fn fxaa_2d_edges_with_tonemapping() {
    let plugin = FxaaPlugin { tonemapping2d: true, tonemapping3d: false };
    let edges = plugin.generate_2d_edges();
    assert_eq!(edges, vec!["main_pass", "bloom", "tonemapping"]);
}

#[test]
fn fxaa_3d_edges_are_fixed() {
    let plugin = FxaaPlugin { tonemapping2d: true, tonemapping3d: true };
    let edges = plugin.generate_3d_edges();
    assert_eq!(edges, vec!["tonemapping", "fxaa", "end_main_pass_post_processing"]);
}

#[test]
fn core_pipeline_plugin_builds_the_core_2d_graph() {
    let mut app = RenderApp::new();
    register_core_kinds(&mut app);
    let plugin = CorePipelinePlugin;
    let r = plugin.build(&mut app);
    assert!(r.is_ok());
    assert_eq!(app.graph.sub_graphs.len(), 1);
    let sg = &app.graph.sub_graphs[0];
    assert_eq!(sg.name, "core_2d");
    let labels: Vec<&str> = sg.nodes.iter().map(|n| n.label.as_str()).collect();
    assert_eq!(
        labels,
        vec!["main_pass", "bloom", "tonemapping", "end_main_pass_post_processing", "upscaling"]
    );
    assert_eq!(sg.edges.len(), 4);
    assert_eq!((sg.edges[0].from.as_str(), sg.edges[0].to.as_str()), ("main_pass", "bloom"));
    assert_eq!((sg.edges[3].from.as_str(), sg.edges[3].to.as_str()), (
        "end_main_pass_post_processing",
        "upscaling",
    ));
}

#[test]
fn core_pipeline_plugin_fails_without_registered_kinds() {
    let mut app = RenderApp::new();
    let plugin = CorePipelinePlugin;
    let r = plugin.build(&mut app);
    assert!(r.is_err());
    assert_eq!(app.graph.sub_graphs.len(), 1);
    assert_eq!(app.graph.sub_graphs[0].nodes.len(), 0);
}

#[test]
fn graph_generator_trait_builds_like_the_plugin() {
    let mut app = RenderApp::new();
    register_core_kinds(&mut app);
    let plugin = CorePipelinePlugin;
    let r = plugin.generate(&mut app);
    assert!(r.is_ok());
    assert_eq!(app.graph.sub_graphs[0].nodes.len(), 5);
}

#[test]
fn fxaa_plugin_splices_into_both_pipelines() {
    let mut app = RenderApp::new();
    app.world.register_stage_kind(FXAA_NODE_KIND);
    app.add_render_sub_graph("core_2d");
    app.add_render_sub_graph("core_3d");
    let plugin = FxaaPlugin::default();
    let r = plugin.build(&mut app);
    assert!(r.is_ok());
    let core_2d = &app.graph.sub_graphs[0];
    let core_3d = &app.graph.sub_graphs[1];
    assert_eq!(core_2d.nodes.len(), 1);
    assert_eq!(core_2d.nodes[0].label, "fxaa");
    assert_eq!(core_3d.nodes.len(), 1);
    assert_eq!(core_3d.nodes[0].label, "fxaa");
    assert_eq!(core_3d.edges.len(), 2);
    assert_eq!((core_3d.edges[0].from.as_str(), core_3d.edges[0].to.as_str()), (
        "tonemapping",
        "fxaa",
    ));
    assert_eq!((core_3d.edges[1].from.as_str(), core_3d.edges[1].to.as_str()), (
        "fxaa",
        "end_main_pass_post_processing",
    ));
    assert_eq!(core_2d.edges.len(), 2);
    assert_eq!((core_2d.edges[0].from.as_str(), core_2d.edges[0].to.as_str()), (
        "main_pass",
        "bloom",
    ));
    assert_eq!((core_2d.edges[1].from.as_str(), core_2d.edges[1].to.as_str()), (
        "bloom",
        "end_main_pass_post_processing",
    ));
    assert_eq!(app.warnings.len(), 0);
}

#[test]
fn fxaa_plugin_warns_for_each_missing_pipeline() {
    let mut app = RenderApp::new();
    app.world.register_stage_kind(FXAA_NODE_KIND);
    let plugin = FxaaPlugin::default();
    let r = plugin.build(&mut app);
    assert!(r.is_ok());
    assert_eq!(app.graph.sub_graphs.len(), 0);
    assert_eq!(app.warnings.len(), 4);
    assert_eq!(app.warnings[0], "core_3d");
    assert_eq!(app.warnings[1], "core_3d");
    assert_eq!(app.warnings[2], "core_2d");
    assert_eq!(app.warnings[3], "core_2d");
}

#[test]
fn disabling_bloom_reconnects_its_neighbours() {
    let mut app = RenderApp::new();
    register_core_kinds(&mut app);
    let mut settings = core_pipeline::core_2d::Core2dPipelineSettings::default();
    settings.bloom = false;
    let sequence = core_pipeline::core_2d::create_core_pipeline_sequence(settings);
    assert!(sequence.create_new_sub_graph(&mut app, "core_2d").is_ok());
    let sg = &app.graph.sub_graphs[0];
    assert_eq!(sg.nodes.len(), 4);
    let edges: Vec<(&str, &str)> = sg
        .edges
        .iter()
        .map(|e| (e.from.as_str(), e.to.as_str()))
        .collect();
    assert_eq!(
        edges,
        vec![
            ("main_pass", "tonemapping"),
            ("tonemapping", "end_main_pass_post_processing"),
            ("end_main_pass_post_processing", "upscaling"),
        ]
    );
}

#[test]
fn msaa_writeback_splices_before_the_main_pass() {
    let mut app = RenderApp::new();
    register_core_kinds(&mut app);
    app.world
        .register_stage_kind(core_pipeline::core_2d::MSAA_WRITEBACK_NODE_KIND);
    let core = CorePipelinePlugin;
    assert!(core.build(&mut app).is_ok());
    let writeback = core_pipeline::core_2d::create_msaa_writeback_sequence();
    let r = writeback.insert_into_sub_graph(
        &mut app,
        "core_2d",
        None,
        Some(core_pipeline::core_2d::MAIN_PASS),
    );
    assert!(r.is_ok());
    let sg = &app.graph.sub_graphs[0];
    assert_eq!(sg.nodes.len(), 6);
    assert_eq!(sg.nodes[5].label, "msaa_writeback");
    let last = sg.edges.last().unwrap();
    assert_eq!((last.from.as_str(), last.to.as_str()), ("msaa_writeback", "main_pass"));
}

#[test]
fn whole_pipeline_end_to_end() {
    let mut app = RenderApp::new();
    register_core_kinds(&mut app);
    app.world.register_stage_kind(FXAA_NODE_KIND);
    let core = CorePipelinePlugin;
    assert!(core.build(&mut app).is_ok());
    let fxaa = FxaaPlugin::default();
    assert!(fxaa.build(&mut app).is_ok());
    let sg = &app.graph.sub_graphs[0];
    assert_eq!(sg.name, "core_2d");
    assert_eq!(sg.nodes.len(), 6);
    assert_eq!(sg.nodes[5].label, "fxaa");
    assert_eq!(sg.edges.len(), 6);
    // the fxaa splice warned only for the missing 3d pipeline
    assert_eq!(app.warnings.len(), 2);
    assert!(app.warnings.iter().all(|w| w == "core_3d"));
}
