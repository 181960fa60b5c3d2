//! Inclusion settings: an opt-out, label-keyed mapping.
//!
//! Settings decide, at sequence-build time, which optional stages of a
//! catalogue survive into the concrete sequence.  A label that is absent
//! from the mapping defaults to "included": settings opt stages out,
//! they never have to opt one in.

use vstd::prelude::*;

verus! {

/// Whether a label survives filtering under the mapping: a label absent
/// from the mapping is included by default.
pub open spec fn included(m: Map<Seq<char>, bool>, label: Seq<char>) -> bool {
    !m.contains_key(label) || m[label]
}

/// A label-keyed opt-out mapping deciding which optional stages survive
/// into a built sequence.
pub trait PipelineSettings {
    /// The mapping from labels to their stored flag.
    spec fn spec_map(&self) -> Map<Seq<char>, bool>;

    /// The settings value is well formed.
    spec fn wf(&self) -> bool;

    /// The flag stored for `label`, or `true` when the label is unknown.
    fn get_bool(&self, label: &str) -> (b: bool)
        requires
            self.wf(),
        ensures
            b == included(self.spec_map(), label@),
    ;

    /// Stores `value` for `label`, and returns what `get_bool` would
    /// have returned for that label just before the call.
    fn set_bool(&mut self, label: &str, value: bool) -> (previous: bool)
        requires
            old(self).wf(),
        ensures
            final(self).wf(),
            final(self).spec_map() == old(self).spec_map().insert(label@, value),
            previous == included(old(self).spec_map(), label@),
    ;
}

} // verus!
