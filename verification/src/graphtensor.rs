//! The symbolic tensor front end: a handle names one node of a graph, and
//! each operation appends a node rather than computing anything. The graph
//! arena is passed explicitly; handles carry only their node id.

use core::marker::PhantomData;
use vstd::prelude::*;

use crate::cpu_storage::CpuDevice;
use crate::device::{Cpu, Dev};
use crate::dtype::DType;
use crate::error::Error;
use crate::eval::{aranges_exact, eval_node, graph_ok, numel};
use crate::graph::{appended_node, BinaryOpType, Graph, GraphTensorId, Op, UnaryOpType};
use crate::shape::{Shape, R1, R3};
use crate::tensor::Tensor;

verus! {

/// A tensor representing an intermediary result of a graph. Performing
/// operations on this tensor will not cause any computations.
pub struct GraphTensor<S: Shape, T: DType, D: Dev> {
    id: GraphTensorId,
    marker: PhantomData<(S, T, D)>,
}

impl<S: Shape, T: DType, D: Dev> GraphTensor<S, T, D> {
    /// The id of the node this handle names, for use in specifications.
    pub closed spec fn id_spec(&self) -> GraphTensorId {
        self.id
    }

    /// Create a tensor filled with some value.
    pub fn fill(graph: &mut Graph<T>, v: T) -> (r: Self)
        ensures
            appended_node(
                old(graph).nodes_spec(),
                final(graph).nodes_spec(),
                Op::Fill { v },
                S::shape_spec(),
            ),
            r.id_spec().idx() == old(graph).nodes_spec().len(),
    {
        let id = graph.add_op(Op::Fill { v }, S::shape());
        GraphTensor { id, marker: PhantomData }
    }

    /// Create a tensor filled with zeros.
    pub fn zeros(graph: &mut Graph<T>) -> (r: Self)
        ensures
            appended_node(
                old(graph).nodes_spec(),
                final(graph).nodes_spec(),
                Op::Fill { v: T::zero_spec() },
                S::shape_spec(),
            ),
            r.id_spec().idx() == old(graph).nodes_spec().len(),
    {
        Self::fill(graph, T::zero())
    }

    /// Create a tensor filled with ones.
    pub fn ones(graph: &mut Graph<T>) -> (r: Self)
        ensures
            appended_node(
                old(graph).nodes_spec(),
                final(graph).nodes_spec(),
                Op::Fill { v: T::one_spec() },
                S::shape_spec(),
            ),
            r.id_spec().idx() == old(graph).nodes_spec().len(),
    {
        Self::fill(graph, T::one())
    }

    /// Get the graph tensor ID.
    pub fn id(&self) -> (r: GraphTensorId)
        ensures
            r == self.id_spec(),
    {
        self.id
    }

    /// Append an elementwise binary operation against another tensor of the
    /// same shape.
    pub fn binary_op(self, graph: &mut Graph<T>, rhs: Self, operator: BinaryOpType) -> (r: Self)
        ensures
            appended_node(
                old(graph).nodes_spec(),
                final(graph).nodes_spec(),
                Op::BinaryOp { l_id: self.id_spec(), r_id: rhs.id_spec(), operator },
                S::shape_spec(),
            ),
            r.id_spec().idx() == old(graph).nodes_spec().len(),
    {
        let id = graph.add_op(
            Op::BinaryOp { l_id: self.id, r_id: rhs.id, operator },
            S::shape(),
        );
        GraphTensor { id, marker: PhantomData }
    }

    /// Append an elementwise negation.
    pub fn neg(self, graph: &mut Graph<T>) -> (r: Self)
        ensures
            appended_node(
                old(graph).nodes_spec(),
                final(graph).nodes_spec(),
                Op::UnaryOp { v_id: self.id_spec(), operator: UnaryOpType::Neg },
                S::shape_spec(),
            ),
            r.id_spec().idx() == old(graph).nodes_spec().len(),
    {
        let id = graph.add_op(
            Op::UnaryOp { v_id: self.id, operator: UnaryOpType::Neg },
            S::shape(),
        );
        GraphTensor { id, marker: PhantomData }
    }

    /// Append an elementwise square root.
    pub fn sqrt(self, graph: &mut Graph<T>) -> (r: Self)
        ensures
            appended_node(
                old(graph).nodes_spec(),
                final(graph).nodes_spec(),
                Op::UnaryOp { v_id: self.id_spec(), operator: UnaryOpType::Sqrt },
                S::shape_spec(),
            ),
            r.id_spec().idx() == old(graph).nodes_spec().len(),
    {
        let id = graph.add_op(
            Op::UnaryOp { v_id: self.id, operator: UnaryOpType::Sqrt },
            S::shape(),
        );
        GraphTensor { id, marker: PhantomData }
    }
}

impl<const A: usize, T: DType, D: Dev> GraphTensor<R1<A>, T, D> {
    /// A tensor ranging from `start` toward `stop` in `A` equal steps; the
    /// step is `(stop - start) / A` in the element type's own arithmetic.
    pub fn arange(graph: &mut Graph<T>, start: T, stop: T) -> (r: Self)
        ensures
            appended_node(
                old(graph).nodes_spec(),
                final(graph).nodes_spec(),
                Op::Arange {
                    start,
                    step: T::div_spec(T::sub_spec(stop, start), T::from_count_spec(A)),
                    stop,
                },
                R1::<A>::shape_spec(),
            ),
            r.id_spec().idx() == old(graph).nodes_spec().len(),
    {
        let step = T::div(T::sub(stop, start), T::from_count(A));
        let id = graph.add_op(Op::Arange { start, step, stop }, R1::<A>::shape());
        GraphTensor { id, marker: PhantomData }
    }
}

impl<const B: usize, const M: usize, const K: usize, T: DType, D: Dev> GraphTensor<
    R3<B, M, K>,
    T,
    D,
> {
    /// Batched matrix multiplication: `(B x M x K) * (B x K x N)` giving
    /// `(B x M x N)`.
    pub fn matmul<const N: usize>(self, graph: &mut Graph<T>, rhs: GraphTensor<R3<B, K, N>, T, D>)
        -> (r: GraphTensor<R3<B, M, N>, T, D>)
        ensures
            appended_node(
                old(graph).nodes_spec(),
                final(graph).nodes_spec(),
                Op::MatMul {
                    l_id: self.id_spec(),
                    r_id: rhs.id_spec(),
                    o_id: None,
                    k: K,
                    alpha: T::zero_spec(),
                    beta: T::one_spec(),
                },
                R3::<B, M, N>::shape_spec(),
            ),
            r.id_spec().idx() == old(graph).nodes_spec().len(),
    {
        let id = graph.add_op(
            Op::MatMul {
                l_id: self.id,
                r_id: rhs.id,
                o_id: None,
                k: K,
                alpha: T::zero(),
                beta: T::one(),
            },
            R3::<B, M, N>::shape(),
        );
        GraphTensor { id, marker: PhantomData }
    }

    /// Batched matrix multiplication accumulated against an existing
    /// tensor: `alpha * o + beta * (self @ rhs)`.
    pub fn matmul_axpby<const N: usize>(
        self,
        graph: &mut Graph<T>,
        rhs: GraphTensor<R3<B, K, N>, T, D>,
        o: GraphTensor<R3<B, M, N>, T, D>,
        alpha: T,
        beta: T,
    ) -> (r: GraphTensor<R3<B, M, N>, T, D>)
        ensures
            appended_node(
                old(graph).nodes_spec(),
                final(graph).nodes_spec(),
                Op::MatMul {
                    l_id: self.id_spec(),
                    r_id: rhs.id_spec(),
                    o_id: Some(o.id_spec()),
                    k: K,
                    alpha,
                    beta,
                },
                R3::<B, M, N>::shape_spec(),
            ),
            r.id_spec().idx() == old(graph).nodes_spec().len(),
    {
        let id = graph.add_op(
            Op::MatMul { l_id: self.id, r_id: rhs.id, o_id: Some(o.id), k: K, alpha, beta },
            R3::<B, M, N>::shape(),
        );
        GraphTensor { id, marker: PhantomData }
    }
}

impl<S: Shape, T: DType> GraphTensor<S, T, Cpu> {
    /// Convert this `GraphTensor` into a concrete `Tensor` by interpreting
    /// the whole graph on the host; the result holds the last-appended
    /// node's buffer.
    pub fn to_tensor(self, graph: &Graph<T>) -> (r: Result<Tensor<S, T, Cpu>, Error>)
        ensures
            r is Ok <==> graph_ok(graph.nodes_spec()) && aranges_exact(graph.nodes_spec()),
            match r {
                Ok(t) => {
                    &&& t.view_data().len() == numel(
                        graph.nodes_spec()[graph.nodes_spec().len() - 1].shape@,
                    )
                    &&& forall|i: int|
                        0 <= i < t.view_data().len() ==> t.view_data()[i] == eval_node(
                            graph.nodes_spec(),
                            graph.nodes_spec().len() - 1,
                            i,
                        )
                },
                Err(_) => true,
            },
    {
        let dev = CpuDevice;
        match dev.compile_and_run_graph(graph.get_ops()) {
            Ok(storage) => Ok(Tensor::from_data(storage.0)),
            Err(e) => Err(e),
        }
    }

    /// Convert this `GraphTensor` into a concrete `Tensor`, for callers
    /// that only build unsigned operations. The element contract carries a
    /// (wrapping) negation for every type, so this is the same
    /// interpretation as `to_tensor`.
    pub fn to_tensor_unsigned(self, graph: &Graph<T>) -> (r: Result<Tensor<S, T, Cpu>, Error>)
        ensures
            r is Ok <==> graph_ok(graph.nodes_spec()) && aranges_exact(graph.nodes_spec()),
            match r {
                Ok(t) => {
                    &&& t.view_data().len() == numel(
                        graph.nodes_spec()[graph.nodes_spec().len() - 1].shape@,
                    )
                    &&& forall|i: int|
                        0 <= i < t.view_data().len() ==> t.view_data()[i] == eval_node(
                            graph.nodes_spec(),
                            graph.nodes_spec().len() - 1,
                            i,
                        )
                },
                Err(_) => true,
            },
    {
        self.to_tensor(graph)
    }
}

} // verus!
