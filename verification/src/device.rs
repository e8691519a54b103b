//! Target devices and the compiled artifact each backend produces. One
//! compile/run contract with three structurally different artifacts: the CPU
//! interpreter keeps the node list and its schedule; the JIT backend keeps
//! generated kernel records; the portable-kernel backend keeps the schedule
//! and node list for per-node dispatch.

use core::marker::PhantomData;
use vstd::prelude::*;

use crate::cuda_backend::CudaCompiledKernel;
use crate::dtype::DType;
use crate::graph::GraphNode;
use crate::shape::Shape;

verus! {

/// The host CPU target.
pub struct Cpu;

/// The JIT-compiling accelerator target.
pub struct Cuda;

/// The portable-kernel accelerator target.
pub struct Wgpu;

/// A compilation target.
pub trait Dev {

}

impl Dev for Cpu {

}

impl Dev for Cuda {

}

impl Dev for Wgpu {

}

/// A backend-specific execution plan: created once by `compile`, consumed
/// read-only arbitrarily many times by `run`.
pub enum CompiledGraph<S: Shape, T: DType, D: Dev> {
    /// The CPU interpreter's artifact: the node list plus a fixed schedule.
    Cpu { nodes: Vec<GraphNode<T>>, order: Vec<usize>, marker: PhantomData<(S, D)> },
    /// The JIT backend's artifact: one generated-kernel record per fused
    /// node group, in schedule order.
    Jit { kernels: Vec<CudaCompiledKernel<T>>, marker: PhantomData<(S, D)> },
    /// The portable-kernel backend's artifact: schedule plus node list for
    /// per-node dispatch at run time.
    Wgpu { order: Vec<usize>, nodes: Vec<GraphNode<T>>, marker: PhantomData<(S, D)> },
}

} // verus!
