//! The graph intermediate representation: an append-only list of operation
//! nodes plus a monotonic id generator. Tensor handles refer to nodes by
//! their append position.

use vstd::prelude::*;

verus! {

/// An opaque reference to a node's output, comparable by creation order.
#[derive(Clone, Copy, PartialEq, Eq, Structural, Debug)]
pub struct GraphTensorId(pub usize);

impl GraphTensorId {
    /// The node index this id refers to.
    pub open spec fn idx(self) -> int {
        self.0 as int
    }

    /// Read the node index back out of the id.
    pub fn get(&self) -> (r: usize)
        ensures
            r == self.0,
    {
        self.0
    }
}

/// Elementwise binary operators.
#[derive(Clone, Copy, PartialEq, Eq, Structural, Debug)]
pub enum BinaryOpType {
    Add,
    Sub,
    Mul,
    Div,
}

/// Elementwise unary operators.
#[derive(Clone, Copy, PartialEq, Eq, Structural, Debug)]
pub enum UnaryOpType {
    Neg,
    Sqrt,
}

/// One operation in the graph. Operands are ids of earlier nodes. The
/// in-place variants overwrite the buffer of the operand named `out_id`
/// instead of allocating a fresh one; the optimizer introduces them only
/// when that operand has no other consumer.
#[derive(Clone, Copy, Debug)]
pub enum Op<T> {
    /// A tensor filled with one constant value.
    Fill { v: T },
    /// An arithmetic sequence: elements are generated while `x < stop`,
    /// starting at `start` and advancing by `step`.
    Arange { start: T, step: T, stop: T },
    /// Elementwise unary operation.
    UnaryOp { v_id: GraphTensorId, operator: UnaryOpType },
    /// Elementwise binary operation.
    BinaryOp { l_id: GraphTensorId, r_id: GraphTensorId, operator: BinaryOpType },
    /// Elementwise binary operation that overwrites the buffer of `out_id`,
    /// which must equal `l_id` or `r_id`.
    InplaceBinaryOp {
        out_id: GraphTensorId,
        l_id: GraphTensorId,
        r_id: GraphTensorId,
        operator: BinaryOpType,
    },
    /// `a * b + c` as one kernel.
    FusedMulAdd { a_id: GraphTensorId, b_id: GraphTensorId, c_id: GraphTensorId },
    /// `a * b + c` overwriting the buffer of `out_id`, which must equal one
    /// of the three operands.
    InplaceFusedMulAdd {
        a_id: GraphTensorId,
        b_id: GraphTensorId,
        c_id: GraphTensorId,
        out_id: GraphTensorId,
    },
    /// Batched `out = alpha * o + beta * (l @ r)`; `k` is the contraction
    /// extent, which is not recoverable from the output shape alone.
    MatMul {
        l_id: GraphTensorId,
        r_id: GraphTensorId,
        o_id: Option<GraphTensorId>,
        k: usize,
        alpha: T,
        beta: T,
    },
    /// Terminal placeholder; never evaluated.
    NoOp,
}

/// The node indices an operation reads, in operand order.
pub open spec fn op_deps<T>(op: Op<T>) -> Seq<usize> {
    match op {
        Op::Fill { .. } => Seq::<usize>::empty(),
        Op::Arange { .. } => Seq::<usize>::empty(),
        Op::UnaryOp { v_id, .. } => seq![v_id.0],
        Op::BinaryOp { l_id, r_id, .. } => seq![l_id.0, r_id.0],
        Op::InplaceBinaryOp { l_id, r_id, .. } => seq![l_id.0, r_id.0],
        Op::FusedMulAdd { a_id, b_id, c_id } => seq![a_id.0, b_id.0, c_id.0],
        Op::InplaceFusedMulAdd { a_id, b_id, c_id, .. } => seq![a_id.0, b_id.0, c_id.0],
        Op::MatMul { l_id, r_id, o_id, .. } => match o_id {
            Some(o) => seq![l_id.0, r_id.0, o.0],
            None => seq![l_id.0, r_id.0],
        },
        Op::NoOp => Seq::<usize>::empty(),
    }
}

/// List the node indices an operation reads, in operand order.
pub fn op_dep_list<T: Copy>(op: &Op<T>) -> (r: Vec<usize>)
    ensures
        r@ =~= op_deps::<T>(*op),
{
    match op {
        Op::Fill { .. } => Vec::new(),
        Op::Arange { .. } => Vec::new(),
        Op::UnaryOp { v_id, .. } => vec![v_id.0],
        Op::BinaryOp { l_id, r_id, .. } => vec![l_id.0, r_id.0],
        Op::InplaceBinaryOp { l_id, r_id, .. } => vec![l_id.0, r_id.0],
        Op::FusedMulAdd { a_id, b_id, c_id } => vec![a_id.0, b_id.0, c_id.0],
        Op::InplaceFusedMulAdd { a_id, b_id, c_id, .. } => vec![a_id.0, b_id.0, c_id.0],
        Op::MatMul { l_id, r_id, o_id, .. } => match o_id {
            Some(o) => vec![l_id.0, r_id.0, o.0],
            None => vec![l_id.0, r_id.0],
        },
        Op::NoOp => Vec::new(),
    }
}

/// One node of the graph: an operation plus the flattened per-axis extents
/// of its output.
#[derive(Clone, Debug)]
pub struct GraphNode<T> {
    pub id: GraphTensorId,
    pub op: Op<T>,
    pub shape: Vec<usize>,
}

/// One node was appended: the earlier nodes are untouched, and the new last
/// node holds the given operation and shape under the next id.
pub open spec fn appended_node<T>(
    pre: Seq<GraphNode<T>>,
    post: Seq<GraphNode<T>>,
    op: Op<T>,
    shape: Seq<usize>,
) -> bool {
    &&& post.len() == pre.len() + 1
    &&& forall|i: int| 0 <= i < pre.len() ==> post[i] == pre[i]
    &&& post.last().op == op
    &&& post.last().shape@ =~= shape
    &&& post.last().id.idx() == pre.len()
}

/// The append-only node list plus the monotonic id generator: ids are the
/// append positions. The front end mutates it while building; once
/// scheduling begins it is read-only input.
#[derive(Debug)]
pub struct Graph<T> {
    nodes: Vec<GraphNode<T>>,
}

impl<T: Copy> Graph<T> {
    /// The nodes appended so far, for use in specifications.
    pub closed spec fn nodes_spec(&self) -> Seq<GraphNode<T>> {
        self.nodes@
    }

    /// A fresh graph with no nodes.
    pub fn empty() -> (r: Self)
        ensures
            r.nodes_spec() =~= Seq::<GraphNode<T>>::empty(),
    {
        Graph { nodes: Vec::new() }
    }

    /// Read access to the node list.
    pub fn get_ops(&self) -> (r: &Vec<GraphNode<T>>)
        ensures
            r@ =~= self.nodes_spec(),
    {
        &self.nodes
    }

    /// Hand the node list over to a backend; the graph's immutable snapshot
    /// ends its life at compilation.
    pub fn into_ops(self) -> (r: Vec<GraphNode<T>>)
        ensures
            r@ =~= self.nodes_spec(),
    {
        self.nodes
    }

    /// Append an operation node with the given output shape, allocating the
    /// next id for it.
    pub fn add_op(&mut self, op: Op<T>, shape: Vec<usize>) -> (r: GraphTensorId)
        ensures
            appended_node(old(self).nodes_spec(), final(self).nodes_spec(), op, shape@),
            r.idx() == old(self).nodes_spec().len(),
    {
        let id = GraphTensorId(self.nodes.len());
        let ghost shape_view = shape@;
        self.nodes.push(GraphNode { id, op, shape });
        id
    }
}

} // verus!
