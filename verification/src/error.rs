//! Error taxonomy. Graph-structure errors signal a producer bug rather than
//! bad user input; compilation and execution errors are fatal for the call
//! that raised them.

use vstd::prelude::*;

verus! {

/// Everything that can go wrong while scheduling, compiling or running a
/// graph. Each variant carries enough context to diagnose the failure
/// without re-running with tracing enabled.
#[derive(Clone, Debug)]
pub enum Error {
    /// A graph with no nodes has no result to compute.
    EmptyGraph,
    /// The graph contains a cycle among operand references.
    Cycle,
    /// An operand id that refers to no node of the graph.
    MissingOperand { node: usize, operand: usize },
    /// An output shape inconsistent with the operation that produced it.
    ShapeMismatch { node: usize },
    /// An element count too large for this host.
    Overflow { node: usize },
    /// An operation kind that the selected backend refuses to execute.
    Unsupported { node: usize },
    /// In-place aliasing of a buffer that another consumer still needs.
    AliasViolation { node: usize },
    /// A kernel compilation failure reported by the platform toolchain.
    Compile { message: String },
    /// A device allocation, launch or host-copy failure.
    Device { message: String },
}

impl Error {
    /// Tag an error at the site that raised it. The library carries no
    /// captured stack trace; host layers that want one wrap their own copy
    /// of this type.
    pub fn bt(self) -> (r: Self)
        ensures
            r == self,
    {
        self
    }
}

} // verus!
