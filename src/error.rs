//! Errors reported by the routing core.
use vstd::prelude::*;

verus! {

/// Failures of the name computations.
#[derive(Clone, Copy, Debug, PartialEq, Eq, Structural)]
pub enum RoutingError {
    /// Relocation was asked for with no close nodes to anchor it.
    EmptyReferenceSet,
}

} // verus!
