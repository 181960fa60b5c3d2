//! Initialization facades for pipeline generators.
//!
//! A pipeline declaration passes through three shapes: an unparsed
//! topology (the raw catalogue of declared stages), a settings bundle
//! that suffices to initialize a generator from it, and the generator
//! itself, which knows how to write its part of the render graph.  The
//! traits here name those shapes, so that plugins can register their
//! generators uniformly.

use vstd::prelude::*;

use crate::render_graph::GraphError;
use crate::render_graph::RenderApp;

verus! {

/// Marker for a raw, not yet filtered description of a pipeline's
/// topology, such as the declared catalogue of its stages.
pub trait UnparsedTopology {}

/// Marker for a bundle of references to already-built plugins that a
/// dependent generator needs for its own initialization.
pub trait ParentPlugins {}

/// A settings bundle that suffices to initialize a generator: it has
/// sensible defaults and can be handed on by value.
pub trait RequiredFields: Default + Clone {
    /// The bundle is well formed.
    spec fn req_wf(&self) -> bool;
}

/// A generator that can be initialized from its required fields alone,
/// with no dependency on other plugins' generators.
pub trait Independent<F: RequiredFields>: Sized {
    /// Creates the generator for the sub-graph labeled `graph_label`
    /// from its required fields.
    fn new(graph_label: &str, required_fields: F) -> Self
        requires
            required_fields.req_wf(),
    ;
}

/// Anything that can generate its part of the render graph.
pub trait GraphGenerator {
    /// Generates this generator's nodes and edges into the render app.
    fn generate(&self, render_app: &mut RenderApp) -> (r: Result<(), GraphError>)
        requires
            old(render_app).wf(),
        ensures
            final(render_app).wf(),
    ;
}

} // verus!
