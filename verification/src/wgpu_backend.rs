//! Portable-kernel backend: no source fusion — the artifact keeps the
//! schedule and node list, and at run time each scheduled node becomes one
//! launch of a precompiled parametric kernel, vectorized by a fixed lane
//! width. The launch sequence is computed here, exactly; performing the
//! launches and reading buffers back is the host layer's work. Node kinds
//! beyond fill and elementwise binary are refused rather than skipped.

use core::marker::PhantomData;
use vstd::prelude::*;

use crate::cpu_storage::CpuStorage;
use crate::device::{CompiledGraph, Wgpu};
use crate::dtype::DType;
use crate::error::Error;
use crate::eval::{graph_ok, numel, numel_of};
use crate::graph::{BinaryOpType, GraphNode, Op};
use crate::scheduler::{topo_order, valid_order};
use crate::shape::Shape;
use crate::validate::{check_graph, lemma_deps_before_schedulable};

verus! {

/// The fixed lane width kernels are vectorized by.
pub const VECTORIZATION: u32 = 4;

/// One parametric kernel launch: the kernel selected by node kind, the
/// buffers it binds (named by node index), the output element count, and
/// the grid sized to it at the fixed lane width.
#[derive(Clone, Copy, Debug)]
pub enum WgpuKernelCall<T> {
    /// Fill the output buffer with one constant.
    Fill { out: usize, value: T, numel: usize, lanes: u32, blocks: u32 },
    /// Elementwise binary kernel over two bound input buffers.
    Binary {
        out: usize,
        l: usize,
        r: usize,
        operator: BinaryOpType,
        numel: usize,
        lanes: u32,
        blocks: u32,
    },
}

/// The launch a node dispatches to, when the backend supports its kind and
/// its element count fits the launcher's grid arithmetic.
pub open spec fn call_spec<T: DType>(nodes: Seq<GraphNode<T>>, idx: int) -> Option<
    WgpuKernelCall<T>,
> {
    if 0 <= idx < nodes.len() && numel(nodes[idx].shape@) <= u32::MAX {
        let m = numel(nodes[idx].shape@);
        match nodes[idx].op {
            Op::Fill { v } => Some(
                WgpuKernelCall::Fill {
                    out: idx as usize,
                    value: v,
                    numel: m as usize,
                    lanes: VECTORIZATION,
                    blocks: (((m + 3) / 4) as u32),
                },
            ),
            Op::BinaryOp { l_id, r_id, operator } => Some(
                WgpuKernelCall::Binary {
                    out: idx as usize,
                    l: l_id.0,
                    r: r_id.0,
                    operator,
                    numel: m as usize,
                    lanes: VECTORIZATION,
                    blocks: (((m + 3) / 4) as u32),
                },
            ),
            _ => None,
        }
    } else {
        None
    }
}

/// A schedule position whose node dispatches to no launch refutes "every
/// scheduled node dispatches".
proof fn lemma_unsupported_witness<T: DType>(
    nodes: Seq<GraphNode<T>>,
    order: Seq<usize>,
    p: int,
)
    requires
        0 <= p < order.len(),
        call_spec(nodes, order[p] as int) is None,
    ensures
        !(forall|p2: int|
            0 <= p2 < order.len() ==> call_spec(nodes, #[trigger] order[p2] as int) is Some),
{
    if forall|p2: int|
        0 <= p2 < order.len() ==> call_spec(nodes, #[trigger] order[p2] as int) is Some {
        assert(call_spec(nodes, order[p] as int) is Some);
    }
}

/// The portable-kernel accelerator backend.
pub struct WgpuDevice;

/// Storage read back from the device: the flat row-major values of one
/// tensor, already copied to the host.
pub struct WgpuStorage<T: DType> {
    pub data: Vec<T>,
    pub marker: PhantomData<T>,
}

impl<T: DType> WgpuStorage<T> {
    /// Convert device-read values into host storage.
    pub fn to_cpu_storage(&self) -> (r: CpuStorage<T>)
        ensures
            r.view_data() =~= self.data@,
    {
        let n = self.data.len();
        let mut out: Vec<T> = Vec::new();
        let mut i: usize = 0;
        while i < n
            invariant
                i <= n,
                n == self.data@.len(),
                out@.len() == i,
                forall|j: int| 0 <= j < i ==> out@[j] == self.data@[j],
            decreases n - i,
        {
            out.push(self.data[i]);
            i = i + 1;
        }
        CpuStorage(out)
    }
}

impl WgpuDevice {
    /// Compile a graph for the portable-kernel backend: validate it and
    /// store the schedule with the node list for dispatch-time
    /// interpretation. Succeeds exactly when the graph is well formed.
    pub fn compile<S: Shape, T: DType>(&self, graph: Vec<GraphNode<T>>) -> (r: Result<
        CompiledGraph<S, T, Wgpu>,
        Error,
    >)
        ensures
            r is Ok <==> graph_ok(graph@),
            match r {
                Ok(cg) => cg matches CompiledGraph::Wgpu { order, nodes, .. } && nodes@ =~= graph@
                    && valid_order(graph@, order@),
                Err(_) => true,
            },
    {
        match check_graph(&graph) {
            Ok(_) => {},
            Err(e) => {
                return Err(e);
            },
        }
        let n_nodes = graph.len();
        proof {
            assert(graph@.len() == n_nodes);
            lemma_deps_before_schedulable(graph@);
        }
        let order = match topo_order(&graph) {
            Ok(order) => order,
            Err(_) => vstd::pervasive::unreached(),
        };
        Ok(CompiledGraph::Wgpu { order, nodes: graph, marker: PhantomData })
    }

    /// Compute the launch sequence for a compiled plan: one parametric
    /// kernel call per scheduled node, in schedule order. The buffer bound
    /// to the highest node index holds the result once the host layer has
    /// performed every launch. Fails closed on node kinds the minimal
    /// contract leaves unimplemented, and on element counts beyond the
    /// launcher's grid arithmetic.
    #[verifier::loop_isolation(false)]
    pub fn run_graph<S: Shape, T: DType>(&self, comp: &CompiledGraph<S, T, Wgpu>) -> (r: Result<
        Vec<WgpuKernelCall<T>>,
        Error,
    >)
        ensures
            match comp {
                CompiledGraph::Wgpu { order, nodes, .. } => {
                    &&& (r is Ok <==> forall|p: int|
                        0 <= p < order@.len() ==> call_spec(
                            nodes@,
                            #[trigger] order@[p] as int,
                        ) is Some)
                    &&& match r {
                        Ok(calls) => {
                            &&& calls@.len() == order@.len()
                            &&& forall|p: int|
                                0 <= p < order@.len() ==> Some(#[trigger] calls@[p]) == call_spec(
                                    nodes@,
                                    order@[p] as int,
                                )
                        },
                        Err(_) => true,
                    }
                },
                _ => r is Err,
            },
    {
        match comp {
            CompiledGraph::Wgpu { order, nodes, .. } => {
                let count = order.len();
                let mut calls: Vec<WgpuKernelCall<T>> = Vec::new();
                let mut p: usize = 0;
                while p < count
                    invariant
                        p <= count,
                        count == order@.len(),
                        calls@.len() == p,
                        forall|q: int|
                            0 <= q < p ==> Some(#[trigger] calls@[q]) == call_spec(
                                nodes@,
                                order@[q] as int,
                            ),
                    decreases count - p,
                {
                    let idx = order[p];
                    if idx >= nodes.len() {
                        proof {
                            lemma_unsupported_witness(nodes@, order@, p as int);
                        }
                        return Err(Error::MissingOperand { node: idx, operand: idx });
                    }
                    let m = match numel_of(&nodes[idx].shape) {
                        Some(m) => m,
                        None => {
                            proof {
                                lemma_unsupported_witness(nodes@, order@, p as int);
                            }
                            return Err(Error::Overflow { node: idx });
                        },
                    };
                    if (m as u64) > (u32::MAX as u64) {
                        proof {
                            lemma_unsupported_witness(nodes@, order@, p as int);
                        }
                        return Err(Error::Overflow { node: idx });
                    }
                    let blocks: u32 = ((m as u64 + 3) / 4) as u32;
                    proof {
                        assert((m as u64 + 3) / 4 <= u32::MAX);
                        assert(blocks as int == (numel(nodes@[idx as int].shape@) + 3) / 4);
                    }
                    let call = match &nodes[idx].op {
                        Op::Fill { v } => WgpuKernelCall::Fill {
                            out: idx,
                            value: *v,
                            numel: m,
                            lanes: VECTORIZATION,
                            blocks,
                        },
                        Op::BinaryOp { l_id, r_id, operator } => WgpuKernelCall::Binary {
                            out: idx,
                            l: l_id.get(),
                            r: r_id.get(),
                            operator: *operator,
                            numel: m,
                            lanes: VECTORIZATION,
                            blocks,
                        },
                        _ => {
                            proof {
                                lemma_unsupported_witness(nodes@, order@, p as int);
                            }
                            return Err(Error::Unsupported { node: idx });
                        },
                    };
                    proof {
                        assert(Some(call) == call_spec(nodes@, idx as int));
                    }
                    calls.push(call);
                    p = p + 1;
                }
                proof {
                    assert forall|p2: int| 0 <= p2 < order@.len() implies call_spec(
                        nodes@,
                        #[trigger] order@[p2] as int,
                    ) is Some by {
                        assert(Some(calls@[p2]) == call_spec(nodes@, order@[p2] as int));
                    }
                }
                Ok(calls)
            },
            _ => Err(Error::Unsupported { node: 0 }),
        }
    }
}

} // verus!
