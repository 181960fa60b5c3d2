use core_pipeline::labels::derive_label;
use core_pipeline::labels::str_eq;
use core_pipeline::pipelining::NamedNode;
use core_pipeline::pipelining::NodeFactory;
use core_pipeline::pipelining::PipelineNode;

#[test]
fn derive_label_splits_camel_case() {
    assert_eq!(derive_label("MainPass"), "main_pass");
}

#[test]
fn derive_label_handles_long_identifiers() {
    assert_eq!(
        derive_label("EndMainPassPostProcessing"),
        "end_main_pass_post_processing"
    );
}

#[test]
fn derive_label_single_word() {
    assert_eq!(derive_label("Bloom"), "bloom");
}

#[test]
fn derive_label_keeps_snake_case() {
    assert_eq!(derive_label("already_snake"), "already_snake");
}

#[test]
fn derive_label_empty_identifier() {
    assert_eq!(derive_label(""), "");
}

#[test]
fn derive_label_is_deterministic() {
    let first = derive_label("MsaaWriteback");
    let second = derive_label("MsaaWriteback");
    assert_eq!(first, second);
    assert_eq!(first, "msaa_writeback");
}

#[test]
fn named_node_derives_label_deterministically() {
    let first = NamedNode::new("Tonemapping", None, NodeFactory { stage_kind: 3 });
    let second = NamedNode::new("Tonemapping", None, NodeFactory { stage_kind: 3 });
    assert_eq!(first.label(), "tonemapping");
    assert_eq!(first.label(), second.label());
}

#[test]
fn named_node_explicit_label_wins() {
    let node = NamedNode::new("Tonemapping", Some("tm"), NodeFactory { stage_kind: 3 });
    assert_eq!(node.label(), "tm");
}

#[test]
fn str_eq_compares_contents() {
    assert!(str_eq("bloom", "bloom"));
    assert!(!str_eq("bloom", "blooM"));
    assert!(!str_eq("bloom", "bloom_"));
}
