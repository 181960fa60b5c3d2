use core_pipeline::render_graph::GraphError;
use core_pipeline::render_graph::RenderApp;
use core_pipeline::render_graph::Stage;

#[test]
fn fresh_app_is_empty() {
    let app = RenderApp::new();
    assert_eq!(app.graph.sub_graphs.len(), 0);
    assert_eq!(app.warnings.len(), 0);
}

#[test]
fn register_stage_kind_enables_construction() {
    let mut app = RenderApp::new();
    assert!(!app.world.can_build(7));
    app.world.register_stage_kind(7);
    assert!(app.world.can_build(7));
    assert!(!app.world.can_build(8));
}

#[test]
fn add_node_to_missing_sub_graph_is_a_warned_no_op() {
    let mut app = RenderApp::new();
    let r = app.add_node_to_render_graph("nowhere", "stage", Stage { kind: 1 });
    assert!(r.is_ok());
    assert_eq!(app.graph.sub_graphs.len(), 0);
    assert_eq!(app.warnings.len(), 1);
    assert_eq!(app.warnings[0], "nowhere");
}

#[test]
fn add_edges_to_missing_sub_graph_is_a_warned_no_op() {
    let mut app = RenderApp::new();
    let labels = vec!["a".to_owned(), "b".to_owned()];
    app.add_render_graph_edges("nowhere", &labels);
    assert_eq!(app.graph.sub_graphs.len(), 0);
    assert_eq!(app.warnings.len(), 1);
    assert_eq!(app.warnings[0], "nowhere");
}

#[test]
fn each_missing_sub_graph_mutation_warns_once() {
    let mut app = RenderApp::new();
    let _ = app.add_node_to_render_graph("nowhere", "stage", Stage { kind: 1 });
    let labels = vec!["a".to_owned(), "b".to_owned()];
    app.add_render_graph_edges("nowhere", &labels);
    app.add_render_graph_edge("nowhere", "a", "b");
    assert_eq!(app.warnings.len(), 3);
}

#[test]
fn nodes_are_stored_under_their_labels() {
    let mut app = RenderApp::new();
    app.add_render_sub_graph("sg");
    let r = app.add_node_to_render_graph("sg", "stage", Stage { kind: 4 });
    assert!(r.is_ok());
    assert_eq!(app.graph.sub_graphs.len(), 1);
    assert_eq!(app.graph.sub_graphs[0].name, "sg");
    assert_eq!(app.graph.sub_graphs[0].nodes.len(), 1);
    assert_eq!(app.graph.sub_graphs[0].nodes[0].label, "stage");
    assert_eq!(app.graph.sub_graphs[0].nodes[0].stage.kind, 4);
    assert_eq!(app.warnings.len(), 0);
}

#[test]
fn duplicate_labels_are_reported() {
    let mut app = RenderApp::new();
    app.add_render_sub_graph("sg");
    let first = app.add_node_to_render_graph("sg", "stage", Stage { kind: 1 });
    assert!(first.is_ok());
    let second = app.add_node_to_render_graph("sg", "stage", Stage { kind: 2 });
    assert!(matches!(
        second,
        Err(GraphError::DuplicateNodeLabel { label }) if label == "stage"
    ));
    assert_eq!(app.graph.sub_graphs[0].nodes.len(), 1);
}

#[test]
fn recreating_a_sub_graph_resets_it() {
    let mut app = RenderApp::new();
    app.add_render_sub_graph("sg");
    let _ = app.add_node_to_render_graph("sg", "stage", Stage { kind: 1 });
    app.add_render_sub_graph("sg");
    assert_eq!(app.graph.sub_graphs.len(), 1);
    assert_eq!(app.graph.sub_graphs[0].nodes.len(), 0);
}

#[test]
fn edges_link_consecutive_labels() {
    let mut app = RenderApp::new();
    app.add_render_sub_graph("sg");
    let labels = vec!["a".to_owned(), "b".to_owned(), "c".to_owned()];
    app.add_render_graph_edges("sg", &labels);
    let edges = &app.graph.sub_graphs[0].edges;
    assert_eq!(edges.len(), 2);
    assert_eq!(edges[0].from, "a");
    assert_eq!(edges[0].to, "b");
    assert_eq!(edges[1].from, "b");
    assert_eq!(edges[1].to, "c");
}

#[test]
fn one_label_declares_no_edge() {
    let mut app = RenderApp::new();
    app.add_render_sub_graph("sg");
    let labels = vec!["a".to_owned()];
    app.add_render_graph_edges("sg", &labels);
    assert_eq!(app.graph.sub_graphs[0].edges.len(), 0);
}

#[test]
fn single_edge_is_declared_directly() {
    let mut app = RenderApp::new();
    app.add_render_sub_graph("sg");
    app.add_render_graph_edge("sg", "from_here", "to_there");
    let edges = &app.graph.sub_graphs[0].edges;
    assert_eq!(edges.len(), 1);
    assert_eq!(edges[0].from, "from_here");
    assert_eq!(edges[0].to, "to_there");
}

#[test]
fn construction_fails_for_unregistered_kinds() {
    let mut app = RenderApp::new();
    app.add_render_sub_graph("sg");
    let creator = core_pipeline::pipelining::NodeFactory { stage_kind: 9 };
    let r = app.add_render_graph_node("sg", "stage", &creator);
    assert!(matches!(r, Err(GraphError::StageConstruction { kind: 9 })));
    assert_eq!(app.graph.sub_graphs[0].nodes.len(), 0);
}

#[test]
fn convenience_node_insertion_constructs_the_stage() {
    let mut app = RenderApp::new();
    app.world.register_stage_kind(9);
    app.add_render_sub_graph("sg");
    let creator = core_pipeline::pipelining::NodeFactory { stage_kind: 9 };
    let r = app.add_render_graph_node("sg", "stage", &creator);
    assert!(r.is_ok());
    assert_eq!(app.graph.sub_graphs[0].nodes[0].stage.kind, 9);
}
