use core_pipeline::pipelining::NamedNode;
use core_pipeline::pipelining::NodeFactory;
use core_pipeline::pipelining::PipelineNode;
use core_pipeline::pipelining::PipelineSequence;
use core_pipeline::render_graph::GraphError;
use core_pipeline::render_graph::RenderApp;

fn app_with_sub_graph(name: &str, kinds: &[u64]) -> RenderApp {
    let mut app = RenderApp::new();
    for kind in kinds {
        app.world.register_stage_kind(*kind);
    }
    app.add_render_sub_graph(name);
    app
}

fn two_stage_sequence() -> PipelineSequence<NamedNode> {
    PipelineSequence::new(
        "p",
        vec![
            NamedNode::new("X", Some("x"), NodeFactory { stage_kind: 1 }),
            NamedNode::new("Y", Some("y"), NodeFactory { stage_kind: 2 }),
        ],
    )
}

#[test]
fn anchors_chain_around_the_sequence() {
    let mut app = app_with_sub_graph("sg", &[1, 2]);
    let sequence = two_stage_sequence();
    let r = sequence.insert_into_sub_graph(&mut app, "sg", Some("A"), Some("B"));
    assert!(r.is_ok());
    let sg = &app.graph.sub_graphs[0];
    assert_eq!(sg.nodes.len(), 2);
    assert_eq!(sg.nodes[0].label, "x");
    assert_eq!(sg.nodes[1].label, "y");
    assert_eq!(sg.edges.len(), 3);
    assert_eq!((sg.edges[0].from.as_str(), sg.edges[0].to.as_str()), ("A", "x"));
    assert_eq!((sg.edges[1].from.as_str(), sg.edges[1].to.as_str()), ("x", "y"));
    assert_eq!((sg.edges[2].from.as_str(), sg.edges[2].to.as_str()), ("y", "B"));
}

#[test]
fn single_stage_without_anchors_has_no_edges() {
    let mut app = app_with_sub_graph("sg", &[1]);
    let sequence = PipelineSequence::new(
        "p",
        vec![NamedNode::new("X", Some("x"), NodeFactory { stage_kind: 1 })],
    );
    let r = sequence.insert_into_sub_graph(&mut app, "sg", None, None);
    assert!(r.is_ok());
    let sg = &app.graph.sub_graphs[0];
    assert_eq!(sg.nodes.len(), 1);
    assert_eq!(sg.edges.len(), 0);
}

#[test]
fn empty_sequence_with_anchors_links_them() {
    let mut app = app_with_sub_graph("sg", &[]);
    let sequence: PipelineSequence<NamedNode> = PipelineSequence::new("p", vec![]);
    let r = sequence.insert_into_sub_graph(&mut app, "sg", Some("A"), Some("B"));
    assert!(r.is_ok());
    let sg = &app.graph.sub_graphs[0];
    assert_eq!(sg.nodes.len(), 0);
    assert_eq!(sg.edges.len(), 1);
    assert_eq!((sg.edges[0].from.as_str(), sg.edges[0].to.as_str()), ("A", "B"));
}

#[test]
fn empty_sequence_without_anchors_does_nothing() {
    let mut app = app_with_sub_graph("sg", &[]);
    let sequence: PipelineSequence<NamedNode> = PipelineSequence::new("p", vec![]);
    let r = sequence.insert_into_sub_graph(&mut app, "sg", None, None);
    assert!(r.is_ok());
    let sg = &app.graph.sub_graphs[0];
    assert_eq!(sg.nodes.len(), 0);
    assert_eq!(sg.edges.len(), 0);
}

#[test]
fn only_a_source_anchor_prefixes_the_chain() {
    let mut app = app_with_sub_graph("sg", &[1, 2]);
    let sequence = two_stage_sequence();
    let r = sequence.insert_into_sub_graph(&mut app, "sg", Some("A"), None);
    assert!(r.is_ok());
    let sg = &app.graph.sub_graphs[0];
    assert_eq!(sg.edges.len(), 2);
    assert_eq!((sg.edges[0].from.as_str(), sg.edges[0].to.as_str()), ("A", "x"));
    assert_eq!((sg.edges[1].from.as_str(), sg.edges[1].to.as_str()), ("x", "y"));
}

#[test]
fn inserting_into_a_missing_sub_graph_warns_per_mutation() {
    let mut app = RenderApp::new();
    app.world.register_stage_kind(1);
    app.world.register_stage_kind(2);
    let sequence = two_stage_sequence();
    let r = sequence.insert_into_sub_graph(&mut app, "nowhere", Some("A"), Some("B"));
    assert!(r.is_ok());
    assert_eq!(app.graph.sub_graphs.len(), 0);
    assert_eq!(app.warnings.len(), 3);
    assert!(app.warnings.iter().all(|w| w == "nowhere"));
}

#[test]
fn construction_failure_leaves_the_graph_untouched() {
    let mut app = app_with_sub_graph("sg", &[1]);
    let sequence = two_stage_sequence();
    let r = sequence.insert_into_sub_graph(&mut app, "sg", None, None);
    assert!(matches!(r, Err(GraphError::StageConstruction { kind: 2 })));
    let sg = &app.graph.sub_graphs[0];
    assert_eq!(sg.nodes.len(), 0);
    assert_eq!(sg.edges.len(), 0);
    assert_eq!(app.warnings.len(), 0);
}

#[test]
fn duplicate_label_within_a_sequence_is_reported() {
    let mut app = app_with_sub_graph("sg", &[1, 2]);
    let sequence = PipelineSequence::new(
        "p",
        vec![
            NamedNode::new("X", Some("x"), NodeFactory { stage_kind: 1 }),
            NamedNode::new("AlsoX", Some("x"), NodeFactory { stage_kind: 2 }),
        ],
    );
    let r = sequence.insert_into_sub_graph(&mut app, "sg", None, None);
    assert!(matches!(r, Err(GraphError::DuplicateNodeLabel { label }) if label == "x"));
    assert_eq!(app.graph.sub_graphs[0].nodes.len(), 0);
}

#[test]
fn collision_with_an_existing_label_is_reported() {
    let mut app = app_with_sub_graph("sg", &[1, 2]);
    let _ = app.add_node_to_render_graph(
        "sg",
        "x",
        core_pipeline::render_graph::Stage { kind: 5 },
    );
    let sequence = two_stage_sequence();
    let r = sequence.insert_into_sub_graph(&mut app, "sg", None, None);
    assert!(matches!(r, Err(GraphError::DuplicateNodeLabel { label }) if label == "x"));
    assert_eq!(app.graph.sub_graphs[0].nodes.len(), 1);
}

#[test]
fn create_new_sub_graph_builds_the_whole_pipeline() {
    let mut app = RenderApp::new();
    app.world.register_stage_kind(1);
    app.world.register_stage_kind(2);
    let sequence = two_stage_sequence();
    let r = sequence.create_new_sub_graph(&mut app, "fresh");
    assert!(r.is_ok());
    assert_eq!(app.graph.sub_graphs.len(), 1);
    let sg = &app.graph.sub_graphs[0];
    assert_eq!(sg.name, "fresh");
    assert_eq!(sg.nodes.len(), 2);
    assert_eq!(sg.edges.len(), 1);
    assert_eq!((sg.edges[0].from.as_str(), sg.edges[0].to.as_str()), ("x", "y"));
}

#[test]
fn add_node_inserts_one_stage_through_its_declaration() {
    let mut app = app_with_sub_graph("sg", &[3]);
    let node = NamedNode::new("Solo", None, NodeFactory { stage_kind: 3 });
    let r = node.add_node(&mut app, "sg");
    assert!(r.is_ok());
    let sg = &app.graph.sub_graphs[0];
    assert_eq!(sg.nodes.len(), 1);
    assert_eq!(sg.nodes[0].label, "solo");
    assert_eq!(sg.nodes[0].stage.kind, 3);
}
