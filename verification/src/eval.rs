//! The mathematical meaning of a graph: what each element of each node's
//! output is, as a function of the node list alone. Backend contracts are
//! stated against these definitions.

use vstd::prelude::*;

use crate::dtype::DType;
use crate::graph::{op_deps, BinaryOpType, GraphNode, Op, UnaryOpType};

verus! {

/// The product of a list of extents: how many elements a shape holds.
pub open spec fn numel(shape: Seq<usize>) -> int
    decreases shape.len(),
{
    if shape.len() == 0 {
        1
    } else {
        numel(shape.drop_last()) * shape.last()
    }
}

/// The `i`-th element of an arithmetic sequence: `start` advanced `i` times
/// by `step`.
pub open spec fn arange_val<T: DType>(start: T, step: T, i: int) -> T
    decreases i,
{
    if i <= 0 {
        start
    } else {
        T::add_spec(arange_val(start, step, i - 1), step)
    }
}

/// An `Arange` node fills its declared element count exactly: every element
/// before `m` is still below `stop`, and the next one is not.
pub open spec fn arange_exact<T: DType>(start: T, step: T, stop: T, m: int) -> bool {
    &&& forall|i: int| 0 <= i < m ==> T::lt_spec(#[trigger] arange_val(start, step, i), stop)
    &&& !T::lt_spec(arange_val(start, step, m), stop)
}

/// Elementwise meaning of a unary operator.
pub open spec fn unary_apply<T: DType>(op: UnaryOpType, a: T) -> T {
    match op {
        UnaryOpType::Neg => T::neg_spec(a),
        UnaryOpType::Sqrt => T::sqrt_spec(a),
    }
}

/// Elementwise meaning of a binary operator.
pub open spec fn binary_apply<T: DType>(op: BinaryOpType, a: T, b: T) -> T {
    match op {
        BinaryOpType::Add => T::add_spec(a, b),
        BinaryOpType::Sub => T::sub_spec(a, b),
        BinaryOpType::Mul => T::mul_spec(a, b),
        BinaryOpType::Div => T::div_spec(a, b),
    }
}

/// The value of element `i` of node `idx`. Operands must stand earlier in
/// the list than their consumer (the graph's construction invariant); any
/// reference that does not is read as zero.
pub open spec fn eval_node<T: DType>(nodes: Seq<GraphNode<T>>, idx: int, i: int) -> T
    decreases idx, 1int, 0int,
{
    if 0 <= idx < nodes.len() {
        let node = nodes[idx];
        match node.op {
            Op::Fill { v } => v,
            Op::Arange { start, step, stop } => arange_val(start, step, i),
            Op::UnaryOp { v_id, operator } => if v_id.idx() < idx {
                unary_apply(operator, eval_node(nodes, v_id.idx(), i))
            } else {
                T::zero_spec()
            },
            Op::BinaryOp { l_id, r_id, operator } => if l_id.idx() < idx && r_id.idx() < idx {
                binary_apply(
                    operator,
                    eval_node(nodes, l_id.idx(), i),
                    eval_node(nodes, r_id.idx(), i),
                )
            } else {
                T::zero_spec()
            },
            Op::InplaceBinaryOp { out_id, l_id, r_id, operator } => if l_id.idx() < idx
                && r_id.idx() < idx {
                binary_apply(
                    operator,
                    eval_node(nodes, l_id.idx(), i),
                    eval_node(nodes, r_id.idx(), i),
                )
            } else {
                T::zero_spec()
            },
            Op::FusedMulAdd { a_id, b_id, c_id } => if a_id.idx() < idx && b_id.idx() < idx
                && c_id.idx() < idx {
                T::add_spec(
                    T::mul_spec(
                        eval_node(nodes, a_id.idx(), i),
                        eval_node(nodes, b_id.idx(), i),
                    ),
                    eval_node(nodes, c_id.idx(), i),
                )
            } else {
                T::zero_spec()
            },
            Op::InplaceFusedMulAdd { a_id, b_id, c_id, out_id } => if a_id.idx() < idx
                && b_id.idx() < idx && c_id.idx() < idx {
                T::add_spec(
                    T::mul_spec(
                        eval_node(nodes, a_id.idx(), i),
                        eval_node(nodes, b_id.idx(), i),
                    ),
                    eval_node(nodes, c_id.idx(), i),
                )
            } else {
                T::zero_spec()
            },
            Op::MatMul { l_id, r_id, o_id, k, alpha, beta } => if l_id.idx() < idx && r_id.idx()
                < idx && (o_id matches Some(o) ==> o.idx() < idx) && node.shape@.len() == 3 {
                let m = node.shape@[1] as int;
                let n = node.shape@[2] as int;
                let batch = i / (m * n);
                let row = (i % (m * n)) / n;
                let col = i % n;
                let acc = match o_id {
                    Some(o) => eval_node(nodes, o.idx(), i),
                    None => T::zero_spec(),
                };
                T::add_spec(
                    T::mul_spec(alpha, acc),
                    gemm_sum(
                        nodes,
                        l_id.idx(),
                        r_id.idx(),
                        beta,
                        batch,
                        row,
                        col,
                        k as int,
                        k as int,
                        m,
                        n,
                    ),
                )
            } else {
                T::zero_spec()
            },
            Op::NoOp => T::zero_spec(),
        }
    } else {
        T::zero_spec()
    }
}

/// The partial contraction sum of a batched matrix product: the first `p`
/// terms of `sum_q beta * L[batch, row, q] * R[batch, q, col]`, accumulated
/// in index order.
pub open spec fn gemm_sum<T: DType>(
    nodes: Seq<GraphNode<T>>,
    l: int,
    r: int,
    beta: T,
    batch: int,
    row: int,
    col: int,
    p: int,
    k: int,
    m: int,
    n: int,
) -> T
    decreases (if l > r { l } else { r }) + 1, 0int, p,
{
    if p <= 0 || l < 0 || r < 0 {
        T::zero_spec()
    } else {
        T::add_spec(
            gemm_sum(nodes, l, r, beta, batch, row, col, p - 1, k, m, n),
            T::mul_spec(
                T::mul_spec(beta, eval_node(nodes, l, batch * (m * k) + row * k + (p - 1))),
                eval_node(nodes, r, batch * (k * n) + (p - 1) * n + col),
            ),
        )
    }
}

/// Two node lists that agree up to `v` give node `v` the same meaning:
/// evaluation only ever looks backward.
pub proof fn lemma_eval_prefix<T: DType>(
    n1: Seq<GraphNode<T>>,
    n2: Seq<GraphNode<T>>,
    v: int,
    i: int,
)
    requires
        0 <= v < n1.len(),
        v < n2.len(),
        forall|u: int| 0 <= u <= v ==> n1[u] == n2[u],
    ensures
        eval_node(n1, v, i) == eval_node(n2, v, i),
    decreases v, 1int, 0int,
{
    match n1[v].op {
        Op::Fill { .. } => {},
        Op::Arange { .. } => {},
        Op::NoOp => {},
        Op::UnaryOp { v_id, .. } => {
            if v_id.idx() < v {
                lemma_eval_prefix(n1, n2, v_id.idx(), i);
            }
        },
        Op::BinaryOp { l_id, r_id, .. } => {
            if l_id.idx() < v && r_id.idx() < v {
                lemma_eval_prefix(n1, n2, l_id.idx(), i);
                lemma_eval_prefix(n1, n2, r_id.idx(), i);
            }
        },
        Op::InplaceBinaryOp { l_id, r_id, .. } => {
            if l_id.idx() < v && r_id.idx() < v {
                lemma_eval_prefix(n1, n2, l_id.idx(), i);
                lemma_eval_prefix(n1, n2, r_id.idx(), i);
            }
        },
        Op::FusedMulAdd { a_id, b_id, c_id } => {
            if a_id.idx() < v && b_id.idx() < v && c_id.idx() < v {
                lemma_eval_prefix(n1, n2, a_id.idx(), i);
                lemma_eval_prefix(n1, n2, b_id.idx(), i);
                lemma_eval_prefix(n1, n2, c_id.idx(), i);
            }
        },
        Op::InplaceFusedMulAdd { a_id, b_id, c_id, .. } => {
            if a_id.idx() < v && b_id.idx() < v && c_id.idx() < v {
                lemma_eval_prefix(n1, n2, a_id.idx(), i);
                lemma_eval_prefix(n1, n2, b_id.idx(), i);
                lemma_eval_prefix(n1, n2, c_id.idx(), i);
            }
        },
        Op::MatMul { l_id, r_id, o_id, k, alpha, beta } => {
            if l_id.idx() < v && r_id.idx() < v && (o_id matches Some(o) ==> o.idx() < v)
                && n1[v].shape@.len() == 3 {
                let m = n1[v].shape@[1] as int;
                let n = n1[v].shape@[2] as int;
                let batch = i / (m * n);
                let row = (i % (m * n)) / n;
                let col = i % n;
                match o_id {
                    Some(o) => {
                        lemma_eval_prefix(n1, n2, o.idx(), i);
                    },
                    None => {},
                }
                lemma_gemm_sum_prefix(
                    n1,
                    n2,
                    l_id.idx(),
                    r_id.idx(),
                    beta,
                    batch,
                    row,
                    col,
                    k as int,
                    k as int,
                    m,
                    n,
                );
            }
        },
    }
}

/// Companion to `lemma_eval_prefix` for the contraction sum.
proof fn lemma_gemm_sum_prefix<T: DType>(
    n1: Seq<GraphNode<T>>,
    n2: Seq<GraphNode<T>>,
    l: int,
    r: int,
    beta: T,
    batch: int,
    row: int,
    col: int,
    p: int,
    k: int,
    m: int,
    n: int,
)
    requires
        0 <= l < n1.len(),
        0 <= r < n1.len(),
        l < n2.len(),
        r < n2.len(),
        forall|u: int| 0 <= u <= (if l > r { l } else { r }) ==> n1[u] == n2[u],
    ensures
        gemm_sum(n1, l, r, beta, batch, row, col, p, k, m, n) == gemm_sum(
            n2,
            l,
            r,
            beta,
            batch,
            row,
            col,
            p,
            k,
            m,
            n,
        ),
    decreases (if l > r { l } else { r }) + 1, 0int, p,
{
    if p > 0 {
        lemma_gemm_sum_prefix(n1, n2, l, r, beta, batch, row, col, p - 1, k, m, n);
        lemma_eval_prefix(n1, n2, l, batch * (m * k) + row * k + (p - 1));
        lemma_eval_prefix(n1, n2, r, batch * (k * n) + (p - 1) * n + col);
    }
}

/// Two node lists that differ in one node whose meaning is unchanged give
/// every node the same meaning.
pub proof fn lemma_eval_except<T: DType>(
    n1: Seq<GraphNode<T>>,
    n2: Seq<GraphNode<T>>,
    idx: int,
    v: int,
    i: int,
)
    requires
        n1.len() == n2.len(),
        0 <= idx < n1.len(),
        0 <= v < n1.len(),
        forall|u: int| 0 <= u < n1.len() && u != idx ==> n1[u] == n2[u],
        forall|ii: int| #[trigger] eval_node(n1, idx, ii) == eval_node(n2, idx, ii),
    ensures
        eval_node(n1, v, i) == eval_node(n2, v, i),
    decreases v, 1int, 0int,
{
    if v == idx {
        assert(eval_node(n1, idx, i) == eval_node(n2, idx, i));
    } else {
        match n1[v].op {
            Op::Fill { .. } => {},
            Op::Arange { .. } => {},
            Op::NoOp => {},
            Op::UnaryOp { v_id, .. } => {
                if v_id.idx() < v {
                    lemma_eval_except(n1, n2, idx, v_id.idx(), i);
                }
            },
            Op::BinaryOp { l_id, r_id, .. } => {
                if l_id.idx() < v && r_id.idx() < v {
                    lemma_eval_except(n1, n2, idx, l_id.idx(), i);
                    lemma_eval_except(n1, n2, idx, r_id.idx(), i);
                }
            },
            Op::InplaceBinaryOp { l_id, r_id, .. } => {
                if l_id.idx() < v && r_id.idx() < v {
                    lemma_eval_except(n1, n2, idx, l_id.idx(), i);
                    lemma_eval_except(n1, n2, idx, r_id.idx(), i);
                }
            },
            Op::FusedMulAdd { a_id, b_id, c_id } => {
                if a_id.idx() < v && b_id.idx() < v && c_id.idx() < v {
                    lemma_eval_except(n1, n2, idx, a_id.idx(), i);
                    lemma_eval_except(n1, n2, idx, b_id.idx(), i);
                    lemma_eval_except(n1, n2, idx, c_id.idx(), i);
                }
            },
            Op::InplaceFusedMulAdd { a_id, b_id, c_id, .. } => {
                if a_id.idx() < v && b_id.idx() < v && c_id.idx() < v {
                    lemma_eval_except(n1, n2, idx, a_id.idx(), i);
                    lemma_eval_except(n1, n2, idx, b_id.idx(), i);
                    lemma_eval_except(n1, n2, idx, c_id.idx(), i);
                }
            },
            Op::MatMul { l_id, r_id, o_id, k, alpha, beta } => {
                if l_id.idx() < v && r_id.idx() < v && (o_id matches Some(o) ==> o.idx() < v)
                    && n1[v].shape@.len() == 3 {
                    let m = n1[v].shape@[1] as int;
                    let n = n1[v].shape@[2] as int;
                    let batch = i / (m * n);
                    let row = (i % (m * n)) / n;
                    let col = i % n;
                    match o_id {
                        Some(o) => {
                            lemma_eval_except(n1, n2, idx, o.idx(), i);
                        },
                        None => {},
                    }
                    lemma_gemm_sum_except(
                        n1,
                        n2,
                        idx,
                        l_id.idx(),
                        r_id.idx(),
                        beta,
                        batch,
                        row,
                        col,
                        k as int,
                        k as int,
                        m,
                        n,
                    );
                }
            },
        }
    }
}

/// Companion to `lemma_eval_except` for the contraction sum.
proof fn lemma_gemm_sum_except<T: DType>(
    n1: Seq<GraphNode<T>>,
    n2: Seq<GraphNode<T>>,
    idx: int,
    l: int,
    r: int,
    beta: T,
    batch: int,
    row: int,
    col: int,
    p: int,
    k: int,
    m: int,
    n: int,
)
    requires
        n1.len() == n2.len(),
        0 <= idx < n1.len(),
        0 <= l < n1.len(),
        0 <= r < n1.len(),
        forall|u: int| 0 <= u < n1.len() && u != idx ==> n1[u] == n2[u],
        forall|ii: int| #[trigger] eval_node(n1, idx, ii) == eval_node(n2, idx, ii),
    ensures
        gemm_sum(n1, l, r, beta, batch, row, col, p, k, m, n) == gemm_sum(
            n2,
            l,
            r,
            beta,
            batch,
            row,
            col,
            p,
            k,
            m,
            n,
        ),
    decreases (if l > r { l } else { r }) + 1, 0int, p,
{
    if p > 0 {
        lemma_gemm_sum_except(n1, n2, idx, l, r, beta, batch, row, col, p - 1, k, m, n);
        if l == idx {
            assert(eval_node(n1, l, batch * (m * k) + row * k + (p - 1)) == eval_node(
                n2,
                l,
                batch * (m * k) + row * k + (p - 1),
            ));
        } else {
            lemma_eval_except(n1, n2, idx, l, batch * (m * k) + row * k + (p - 1));
        }
        if r == idx {
            assert(eval_node(n1, r, batch * (k * n) + (p - 1) * n + col) == eval_node(
                n2,
                r,
                batch * (k * n) + (p - 1) * n + col,
            ));
        } else {
            lemma_eval_except(n1, n2, idx, r, batch * (k * n) + (p - 1) * n + col);
        }
    }
}

/// Every operand stands strictly earlier in the list than its consumer: the
/// invariant the front end maintains by construction of monotonic ids.
pub open spec fn deps_before<T>(nodes: Seq<GraphNode<T>>) -> bool {
    forall|v: int, j: int|
        0 <= v < nodes.len() && 0 <= j < op_deps(nodes[v].op).len() ==> (#[trigger] op_deps(
            nodes[v].op,
        )[j] as int) < v
}

/// No operand refers to a `NoOp` node, which produces no buffer.
pub open spec fn no_noop_operand<T>(nodes: Seq<GraphNode<T>>) -> bool {
    forall|v: int, j: int|
        0 <= v < nodes.len() && 0 <= j < op_deps(nodes[v].op).len() && (#[trigger] op_deps(
            nodes[v].op,
        )[j] as int) < nodes.len() ==> !(nodes[op_deps(nodes[v].op)[j] as int].op is NoOp)
}

/// Every node's element count fits the host's addressable size.
pub open spec fn numels_fit<T>(nodes: Seq<GraphNode<T>>) -> bool {
    forall|v: int| 0 <= v < nodes.len() ==> numel(#[trigger] nodes[v].shape@) <= usize::MAX
}

/// Per-operation shape conditions: elementwise operands hold as many
/// elements as the output; a matrix product has a three-axis output and
/// operands sized to its batch, row, column and contraction extents.
pub open spec fn node_shape_ok<T: DType>(nodes: Seq<GraphNode<T>>, v: int) -> bool {
    let node = nodes[v];
    match node.op {
        Op::Fill { .. } => true,
        Op::Arange { .. } => true,
        Op::NoOp => true,
        Op::UnaryOp { v_id, .. } => elem_operand_ok(nodes, v, v_id.idx()),
        Op::BinaryOp { l_id, r_id, .. } => elem_operand_ok(nodes, v, l_id.idx())
            && elem_operand_ok(nodes, v, r_id.idx()),
        Op::InplaceBinaryOp { out_id, l_id, r_id, .. } => elem_operand_ok(nodes, v, l_id.idx())
            && elem_operand_ok(nodes, v, r_id.idx()) && ((out_id == l_id) != (out_id == r_id)),
        Op::FusedMulAdd { a_id, b_id, c_id } => elem_operand_ok(nodes, v, a_id.idx())
            && elem_operand_ok(nodes, v, b_id.idx()) && elem_operand_ok(nodes, v, c_id.idx()),
        Op::InplaceFusedMulAdd { a_id, b_id, c_id, out_id } => elem_operand_ok(nodes, v, a_id.idx())
            && elem_operand_ok(nodes, v, b_id.idx()) && elem_operand_ok(nodes, v, c_id.idx()) && (
        (if out_id == a_id {
            1int
        } else {
            0int
        }) + (if out_id == b_id {
            1int
        } else {
            0int
        }) + (if out_id == c_id {
            1int
        } else {
            0int
        }) == 1),
        Op::MatMul { l_id, r_id, o_id, k, .. } => {
            &&& node.shape@.len() == 3
            &&& 0 <= l_id.idx() < nodes.len()
            &&& 0 <= r_id.idx() < nodes.len()
            &&& numel(nodes[l_id.idx()].shape@) == (node.shape@[0] as int) * (
            node.shape@[1] as int) * (k as int)
            &&& numel(nodes[r_id.idx()].shape@) == (node.shape@[0] as int) * (k as int) * (
            node.shape@[2] as int)
            &&& (o_id matches Some(o) ==> 0 <= o.idx() < nodes.len() && numel(
                nodes[o.idx()].shape@,
            ) == numel(node.shape@))
        },
    }
}

/// An elementwise operand holds exactly as many elements as the output.
pub open spec fn elem_operand_ok<T: DType>(nodes: Seq<GraphNode<T>>, v: int, d: int) -> bool {
    0 <= d < nodes.len() && numel(nodes[d].shape@) == numel(nodes[v].shape@)
}

/// All per-node shape conditions hold.
pub open spec fn shapes_ok<T: DType>(nodes: Seq<GraphNode<T>>) -> bool {
    forall|v: int| 0 <= v < nodes.len() ==> #[trigger] node_shape_ok(nodes, v)
}

/// The buffer an in-place operation overwrites has no other consumer: no
/// node besides the in-place consumer itself reads it.
pub open spec fn alias_safe<T>(nodes: Seq<GraphNode<T>>) -> bool {
    forall|v: int, w: int, j: int|
        #![trigger inplace_target(nodes[v].op), op_deps(nodes[w].op)[j]]
        0 <= v < nodes.len() && 0 <= w < nodes.len() && w != v && 0 <= j < op_deps(
            nodes[w].op,
        ).len() ==> match inplace_target(nodes[v].op) {
            Some(out) => op_deps(nodes[w].op)[j] != out.0,
            None => true,
        }
}

/// The operand an in-place operation overwrites, if it is one.
pub open spec fn inplace_target<T>(op: Op<T>) -> Option<crate::graph::GraphTensorId> {
    match op {
        Op::InplaceBinaryOp { out_id, .. } => Some(out_id),
        Op::InplaceFusedMulAdd { out_id, .. } => Some(out_id),
        _ => None,
    }
}

/// Everything a backend checks before accepting a graph: nonempty, operands
/// strictly earlier than consumers, no reads of `NoOp` nodes, a result node
/// that is not `NoOp`, consistent shapes, element counts that fit the host,
/// and in-place aliasing confined to single-consumer buffers.
pub open spec fn graph_ok<T: DType>(nodes: Seq<GraphNode<T>>) -> bool {
    &&& nodes.len() > 0
    &&& deps_before(nodes)
    &&& no_noop_operand(nodes)
    &&& !(nodes[nodes.len() - 1].op is NoOp)
    &&& shapes_ok(nodes)
    &&& numels_fit(nodes)
    &&& alias_safe(nodes)
}

/// A shape with a zero extent holds no elements.
proof fn lemma_numel_zero(shape: Seq<usize>, j: int)
    requires
        0 <= j < shape.len(),
        shape[j] == 0,
    ensures
        numel(shape) == 0,
    decreases shape.len(),
{
    if shape.len() > 0 {
        if j == shape.len() - 1 {
            assert(numel(shape.drop_last()) * 0 == 0) by (nonlinear_arith);
        } else {
            lemma_numel_zero(shape.drop_last(), j);
            assert(0 * (shape.last() as int) == 0) by (nonlinear_arith);
        }
    }
}

/// A shape with no zero extent holds at least one element.
proof fn lemma_numel_pos(shape: Seq<usize>)
    requires
        forall|j: int| 0 <= j < shape.len() ==> (#[trigger] shape[j]) >= 1,
    ensures
        numel(shape) >= 1,
    decreases shape.len(),
{
    if shape.len() > 0 {
        lemma_numel_pos(shape.drop_last());
        assert(numel(shape.drop_last()) * (shape.last() as int) >= 1) by (nonlinear_arith)
            requires
                numel(shape.drop_last()) >= 1 && shape.last() >= 1,
        ;
    }
}

/// With no zero extent, a prefix of a shape holds no more elements than
/// the whole shape.
proof fn lemma_numel_prefix_bound(shape: Seq<usize>, i: int)
    requires
        0 <= i <= shape.len(),
        forall|j: int| 0 <= j < shape.len() ==> (#[trigger] shape[j]) >= 1,
    ensures
        numel(shape.take(i)) <= numel(shape),
        numel(shape.take(i)) >= 1,
    decreases shape.len() - i,
{
    if i == shape.len() {
        assert(shape.take(i) =~= shape);
        lemma_numel_pos(shape);
    } else {
        lemma_numel_prefix_bound(shape, i + 1);
        assert(shape.take(i + 1).drop_last() =~= shape.take(i));
        assert(shape.take(i + 1).last() == shape[i]);
        assert(numel(shape.take(i + 1)) == numel(shape.take(i)) * (shape[i] as int));
        assert(numel(shape.take(i)) <= numel(shape.take(i)) * (shape[i] as int) && (numel(
            shape.take(i),
        ) * (shape[i] as int) >= 1 ==> numel(shape.take(i)) >= 1)) by (nonlinear_arith)
            requires
                shape[i] >= 1 && numel(shape.take(i)) * (shape[i] as int) >= 1,
        ;
    }
}

/// Compute how many elements a shape holds, or report that the count does
/// not fit the host's addressable size.
pub fn numel_of(shape: &Vec<usize>) -> (r: Option<usize>)
    ensures
        match r {
            Some(m) => m as int == numel(shape@),
            None => numel(shape@) > usize::MAX,
        },
{
    let len = shape.len();
    let mut i: usize = 0;
    while i < len
        invariant
            i <= len,
            len == shape@.len(),
            forall|j: int| 0 <= j < i ==> (#[trigger] shape@[j]) >= 1,
        decreases len - i,
    {
        if shape[i] == 0 {
            proof {
                lemma_numel_zero(shape@, i as int);
            }
            return Some(0);
        }
        i = i + 1;
    }
    let mut acc: usize = 1;
    let mut i2: usize = 0;
    proof {
        assert(shape@.take(0) =~= Seq::<usize>::empty());
    }
    while i2 < len
        invariant
            i2 <= len,
            len == shape@.len(),
            forall|j: int| 0 <= j < len ==> (#[trigger] shape@[j]) >= 1,
            acc as int == numel(shape@.take(i2 as int)),
        decreases len - i2,
    {
        let step = acc.checked_mul(shape[i2]);
        proof {
            assert(shape@.take(i2 + 1).drop_last() =~= shape@.take(i2 as int));
            assert(shape@.take(i2 + 1).last() == shape@[i2 as int]);
        }
        match step {
            Some(next) => {
                acc = next;
            },
            None => {
                proof {
                    lemma_numel_prefix_bound(shape@, i2 + 1);
                }
                return None;
            },
        }
        i2 = i2 + 1;
    }
    proof {
        assert(shape@.take(len as int) =~= shape@);
    }
    Some(acc)
}

/// Whether one node, if it is an `Arange`, generates exactly its declared
/// element count.
pub open spec fn arange_ok_at<T: DType>(nodes: Seq<GraphNode<T>>, v: int) -> bool {
    match nodes[v].op {
        Op::Arange { start, step, stop } => arange_exact(start, step, stop, numel(nodes[v].shape@)),
        _ => true,
    }
}

/// Every `Arange` node generates exactly its declared element count.
pub open spec fn aranges_exact<T: DType>(nodes: Seq<GraphNode<T>>) -> bool {
    forall|v: int| 0 <= v < nodes.len() ==> #[trigger] arange_ok_at(nodes, v)
}

} // verus!
