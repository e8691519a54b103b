//! Fusion pass: rewrites a multiply feeding an addition into one
//! fused-multiply-add node, and marks a binary or fused node in-place when
//! one operand's buffer has no other consumer. Rewriting never changes any
//! node's meaning, never changes a shape, and keeps the graph well formed:
//! the backends consume its output under the same contract as its input.

use vstd::prelude::*;

use crate::dtype::DType;
use crate::eval::{
    alias_safe, arange_ok_at, deps_before, elem_operand_ok, eval_node, graph_ok, inplace_target,
    lemma_eval_except, lemma_eval_prefix, no_noop_operand, node_shape_ok, numel, numels_fit,
    shapes_ok,
};
use crate::graph::{op_deps, BinaryOpType, GraphNode, GraphTensorId, Op};

verus! {

/// What one rewriting step must preserve, stated against the pass's input.
pub open spec fn rewrite_invariant<T: DType>(
    orig: Seq<GraphNode<T>>,
    cur: Seq<GraphNode<T>>,
) -> bool {
    &&& cur.len() == orig.len()
    &&& graph_ok(cur)
    &&& forall|u: int| 0 <= u < orig.len() ==> (#[trigger] cur[u]).shape == orig[u].shape
    &&& forall|u: int|
        0 <= u < orig.len() ==> #[trigger] arange_ok_at(cur, u) == arange_ok_at(orig, u)
    &&& forall|v: int, i: int|
        0 <= v < orig.len() ==> #[trigger] eval_node(cur, v, i) == eval_node(orig, v, i)
}

/// Replace one node's operation, leaving its shape and id in place.
fn set_op<T: DType>(nodes: &mut Vec<GraphNode<T>>, idx: usize, op: Op<T>)
    requires
        (idx as int) < old(nodes)@.len(),
    ensures
        final(nodes)@.len() == old(nodes)@.len(),
        final(nodes)@[idx as int].op == op,
        final(nodes)@[idx as int].shape == old(nodes)@[idx as int].shape,
        final(nodes)@[idx as int].id == old(nodes)@[idx as int].id,
        forall|u: int|
            0 <= u < old(nodes)@.len() && u != idx ==> final(nodes)@[u] == old(nodes)@[u],
{
    nodes[idx].op = op;
}

/// Whether no node besides `idx` reads node `t`'s output.
fn sole_consumer<T: DType>(nodes: &Vec<GraphNode<T>>, t: usize, idx: usize) -> (r: bool)
    ensures
        r ==> forall|w: int, j: int|
            0 <= w < nodes@.len() && w != idx && 0 <= j < op_deps(nodes@[w].op).len()
                ==> (#[trigger] op_deps(nodes@[w].op)[j]) != t,
{
    let n = nodes.len();
    let mut w: usize = 0;
    while w < n
        invariant
            w <= n,
            n == nodes@.len(),
            forall|w2: int, j: int|
                0 <= w2 < w && w2 != idx && 0 <= j < op_deps(nodes@[w2].op).len()
                    ==> (#[trigger] op_deps(nodes@[w2].op)[j]) != t,
        decreases n - w,
    {
        if w != idx {
            let deps = crate::graph::op_dep_list(&nodes[w].op);
            let mut j: usize = 0;
            while j < deps.len()
                invariant
                    j <= deps@.len(),
                    w < n,
                    n == nodes@.len(),
                    deps@ =~= op_deps(nodes@[w as int].op),
                    forall|ji: int| 0 <= ji < j ==> (#[trigger] deps@[ji]) != t,
                decreases deps@.len() - j,
            {
                if deps[j] == t {
                    return false;
                }
                j = j + 1;
            }
        }
        w = w + 1;
    }
    true
}

/// Whether two node lists with the same shapes give one node the same
/// per-operation shape conditions.
proof fn lemma_shape_ok_same<T: DType>(n1: Seq<GraphNode<T>>, n2: Seq<GraphNode<T>>, v: int)
    requires
        n1.len() == n2.len(),
        0 <= v < n1.len(),
        n1[v].op == n2[v].op,
        forall|u: int| 0 <= u < n1.len() ==> (#[trigger] n1[u]).shape == n2[u].shape,
    ensures
        node_shape_ok(n1, v) == node_shape_ok(n2, v),
{
    assert(n1[v].shape@ == n2[v].shape@);
    assert forall|d: int| 0 <= d < n1.len() implies #[trigger] numel(n1[d].shape@) == numel(
        n2[d].shape@,
    ) by {
        assert(n1[d].shape == n2[d].shape);
    }
}

/// One node's operation was rewritten under the conditions that keep the
/// whole graph well formed.
proof fn lemma_rewrite_ok<T: DType>(cur: Seq<GraphNode<T>>, next: Seq<GraphNode<T>>, idx: int)
    requires
        graph_ok(cur),
        next.len() == cur.len(),
        0 <= idx < cur.len(),
        forall|u: int| 0 <= u < cur.len() && u != idx ==> next[u] == cur[u],
        next[idx].shape == cur[idx].shape,
        !(next[idx].op is NoOp),
        !(cur[idx].op is NoOp),
        // the rewritten node's operands stand earlier and are not NoOp
        forall|j: int|
            0 <= j < op_deps(next[idx].op).len() ==> (#[trigger] op_deps(next[idx].op)[j] as int)
                < idx && !(cur[op_deps(next[idx].op)[j] as int].op is NoOp),
        node_shape_ok(next, idx),
        // nothing the rewritten node reads is aliased by an in-place node
        forall|v2: int, j: int|
            #![trigger inplace_target(cur[v2].op), op_deps(next[idx].op)[j]]
            0 <= v2 < cur.len() && v2 != idx && 0 <= j < op_deps(next[idx].op).len()
                ==> match inplace_target(cur[v2].op) {
                Some(t) => op_deps(next[idx].op)[j] != t.0,
                None => true,
            },
        // if the rewritten node aliases a buffer, it is that buffer's only
        // reader
        match inplace_target(next[idx].op) {
            Some(t) => forall|w: int, j: int|
                0 <= w < cur.len() && w != idx && 0 <= j < op_deps(cur[w].op).len()
                    ==> (#[trigger] op_deps(cur[w].op)[j]) != t.0,
            None => true,
        },
    ensures
        graph_ok(next),
{
    assert(deps_before(next)) by {
        assert forall|v: int, j: int|
            0 <= v < next.len() && 0 <= j < op_deps(next[v].op).len() implies (#[trigger] op_deps(
            next[v].op,
        )[j] as int) < v by {
            if v != idx {
                assert(next[v] == cur[v]);
            }
        }
    }
    assert(no_noop_operand(next)) by {
        assert forall|v: int, j: int|
            0 <= v < next.len() && 0 <= j < op_deps(next[v].op).len() && (#[trigger] op_deps(
                next[v].op,
            )[j] as int) < next.len() implies !(next[op_deps(next[v].op)[j] as int].op
            is NoOp) by {
            let d = op_deps(next[v].op)[j] as int;
            if v != idx {
                assert(next[v] == cur[v]);
                assert(!(cur[d].op is NoOp));
            } else {
                assert(!(cur[d].op is NoOp));
            }
            if d != idx {
                assert(next[d] == cur[d]);
            }
        }
    }
    assert(!(next[next.len() - 1].op is NoOp)) by {
        if idx != next.len() - 1 {
            assert(next[next.len() - 1] == cur[cur.len() - 1]);
        }
    }
    assert(shapes_ok(next)) by {
        assert forall|v: int| 0 <= v < next.len() implies #[trigger] node_shape_ok(next, v) by {
            if v != idx {
                assert(next[v] == cur[v]);
                assert(node_shape_ok(cur, v));
                lemma_shape_ok_same(cur, next, v);
            }
        }
    }
    assert(numels_fit(next)) by {
        assert forall|v: int| 0 <= v < next.len() implies numel(#[trigger] next[v].shape@)
            <= usize::MAX by {
            if v != idx {
                assert(next[v] == cur[v]);
            } else {
                assert(next[idx].shape == cur[idx].shape);
            }
            assert(numel(cur[v].shape@) <= usize::MAX);
        }
    }
    assert(alias_safe(next)) by {
        assert forall|v: int, w: int, j: int|
            #![trigger inplace_target(next[v].op), op_deps(next[w].op)[j]]
            0 <= v < next.len() && 0 <= w < next.len() && w != v && 0 <= j < op_deps(
                next[w].op,
            ).len() implies match inplace_target(next[v].op) {
            Some(out) => op_deps(next[w].op)[j] != out.0,
            None => true,
        } by {
            if v == idx {
                if w != idx {
                    assert(next[w] == cur[w]);
                }
            } else {
                assert(next[v] == cur[v]);
                if w == idx {
                    assert(match inplace_target(cur[v].op) {
                        Some(t) => op_deps(next[idx].op)[j] != t.0,
                        None => true,
                    });
                } else {
                    assert(next[w] == cur[w]);
                }
            }
        }
    }
}

/// Rewrite a multiply whose result feeds only one addition into a
/// fused-multiply-add node at the addition's position. Rewriting preserves
/// every node's meaning, every shape, and the graph's well-formedness.
pub fn fuse_mul_add<T: DType>(nodes: &mut Vec<GraphNode<T>>)
    requires
        graph_ok(old(nodes)@),
    ensures
        rewrite_invariant(old(nodes)@, final(nodes)@),
{
    let ghost orig = nodes@;
    let n = nodes.len();
    let mut idx: usize = 0;
    while idx < n
        invariant
            n == nodes@.len(),
            idx <= n,
            graph_ok(orig),
            rewrite_invariant(orig, nodes@),
        decreases n - idx,
    {
        let node_op = nodes[idx].op;
        match node_op {
            Op::BinaryOp { l_id, r_id, operator: BinaryOpType::Add } => {
                let l = l_id.get();
                proof {
                    assert(op_deps(nodes@[idx as int].op)[0] == l_id.0);
                    assert(op_deps(nodes@[idx as int].op)[1] == r_id.0);
                    assert((op_deps(nodes@[idx as int].op)[0] as int) < idx);
                    assert((op_deps(nodes@[idx as int].op)[1] as int) < idx);
                }
                let lop = nodes[l].op;
                match lop {
                    Op::BinaryOp { l_id: a_id, r_id: b_id, operator: BinaryOpType::Mul } => {
                        if sole_consumer(nodes, l, idx) {
                            let ghost cur = nodes@;
                            proof {
                                assert(op_deps(cur[l as int].op)[0] == a_id.0);
                                assert(op_deps(cur[l as int].op)[1] == b_id.0);
                                assert((op_deps(cur[l as int].op)[0] as int) < l);
                                assert((op_deps(cur[l as int].op)[1] as int) < l);
                            }
                            set_op(nodes, idx, Op::FusedMulAdd { a_id, b_id, c_id: r_id });
                            proof {
                                let next = nodes@;
                                let vi = idx as int;
                                // the fused node means what the addition meant
                                assert forall|i: int| #[trigger] eval_node(next, vi, i)
                                    == eval_node(cur, vi, i) by {
                                    lemma_eval_prefix(next, cur, a_id.idx(), i);
                                    lemma_eval_prefix(next, cur, b_id.idx(), i);
                                    lemma_eval_prefix(next, cur, r_id.idx(), i);
                                    lemma_eval_prefix(next, cur, l_id.idx(), i);
                                }
                                // and so does every other node
                                assert forall|v: int, i: int|
                                    0 <= v < orig.len() implies #[trigger] eval_node(next, v, i)
                                    == eval_node(orig, v, i) by {
                                    lemma_eval_except(cur, next, vi, v, i);
                                    assert(eval_node(cur, v, i) == eval_node(orig, v, i));
                                }
                                // the graph stays well formed
                                assert(node_shape_ok(next, vi)) by {
                                    assert(node_shape_ok(cur, vi));
                                    assert(node_shape_ok(cur, l as int));
                                    assert(elem_operand_ok(cur, vi, l as int));
                                    assert(elem_operand_ok(cur, l as int, a_id.idx()));
                                    assert(elem_operand_ok(cur, l as int, b_id.idx()));
                                    assert(elem_operand_ok(cur, vi, r_id.idx()));
                                    assert(next[a_id.idx()] == cur[a_id.idx()]);
                                    assert(next[b_id.idx()] == cur[b_id.idx()]);
                                    assert(next[r_id.idx()] == cur[r_id.idx()]);
                                    assert(next[l_id.idx()] == cur[l_id.idx()]);
                                }
                                assert forall|j: int|
                                    0 <= j < op_deps(next[vi].op).len() implies (#[trigger] op_deps(
                                    next[vi].op,
                                )[j] as int) < vi && !(cur[op_deps(next[vi].op)[j] as int].op
                                    is NoOp) by {
                                    assert(op_deps(next[vi].op) =~= seq![a_id.0, b_id.0, r_id.0]);
                                }
                                assert forall|v2: int, j: int|
                                    #![trigger inplace_target(cur[v2].op), op_deps(next[vi].op)[j]]
                                    0 <= v2 < cur.len() && v2 != vi && 0 <= j < op_deps(
                                        next[vi].op,
                                    ).len() implies match inplace_target(cur[v2].op) {
                                    Some(t) => op_deps(next[vi].op)[j] != t.0,
                                    None => true,
                                } by {
                                    match inplace_target(cur[v2].op) {
                                        Some(t) => {
                                            if v2 != l as int {
                                                assert(op_deps(cur[l as int].op)[0] != t.0);
                                                assert(op_deps(cur[l as int].op)[1] != t.0);
                                            }
                                            assert(op_deps(cur[vi].op)[1] != t.0);
                                        },
                                        None => {},
                                    }
                                }
                                lemma_rewrite_ok(cur, next, vi);
                                assert forall|u: int| 0 <= u < orig.len() implies #[trigger]
                                arange_ok_at(next, u) == arange_ok_at(orig, u) by {
                                    if u != vi {
                                        assert(next[u] == cur[u]);
                                    }
                                    assert(arange_ok_at(cur, u) == arange_ok_at(orig, u));
                                }
                            }
                        }
                    },
                    _ => {},
                }
            },
            _ => {},
        }
        idx = idx + 1;
    }
}

/// One in-place marking step preserves the pass's contract: the node reads
/// the same operands, means the same values, and its aliased buffer has no
/// other reader.
proof fn lemma_mark_step<T: DType>(
    orig: Seq<GraphNode<T>>,
    cur: Seq<GraphNode<T>>,
    next: Seq<GraphNode<T>>,
    idx: int,
    tid: GraphTensorId,
)
    requires
        graph_ok(orig),
        rewrite_invariant(orig, cur),
        next.len() == cur.len(),
        0 <= idx < cur.len(),
        forall|u: int| 0 <= u < cur.len() && u != idx ==> next[u] == cur[u],
        next[idx].shape == cur[idx].shape,
        op_deps(next[idx].op) =~= op_deps(cur[idx].op),
        !(next[idx].op is NoOp),
        !(next[idx].op is Arange),
        !(cur[idx].op is Arange),
        node_shape_ok(next, idx),
        inplace_target(next[idx].op) == Some(tid),
        forall|w: int, j: int|
            0 <= w < cur.len() && w != idx && 0 <= j < op_deps(cur[w].op).len()
                ==> (#[trigger] op_deps(cur[w].op)[j]) != tid.0,
        forall|i: int| #[trigger] eval_node(next, idx, i) == eval_node(cur, idx, i),
    ensures
        rewrite_invariant(orig, next),
{
    assert forall|v: int, i: int|
        0 <= v < orig.len() implies #[trigger] eval_node(next, v, i) == eval_node(orig, v, i) by {
        lemma_eval_except(cur, next, idx, v, i);
        assert(eval_node(cur, v, i) == eval_node(orig, v, i));
    }
    assert forall|j: int|
        0 <= j < op_deps(next[idx].op).len() implies (#[trigger] op_deps(next[idx].op)[j] as int)
        < idx && !(cur[op_deps(next[idx].op)[j] as int].op is NoOp) by {
        assert(op_deps(next[idx].op)[j] == op_deps(cur[idx].op)[j]);
        assert((op_deps(cur[idx].op)[j] as int) < idx);
        assert(!(cur[op_deps(cur[idx].op)[j] as int].op is NoOp));
    }
    assert forall|v2: int, j: int|
        #![trigger inplace_target(cur[v2].op), op_deps(next[idx].op)[j]]
        0 <= v2 < cur.len() && v2 != idx && 0 <= j < op_deps(next[idx].op).len() implies match
        inplace_target(cur[v2].op) {
        Some(t) => op_deps(next[idx].op)[j] != t.0,
        None => true,
    } by {
        assert(op_deps(next[idx].op)[j] == op_deps(cur[idx].op)[j]);
        match inplace_target(cur[v2].op) {
            Some(t) => {
                assert(op_deps(cur[idx].op)[j] != t.0);
            },
            None => {},
        }
    }
    assert(!(cur[idx].op is NoOp));
    lemma_rewrite_ok(cur, next, idx);
    assert forall|u: int| 0 <= u < orig.len() implies #[trigger] arange_ok_at(next, u)
        == arange_ok_at(orig, u) by {
        if u != idx {
            assert(next[u] == cur[u]);
        }
        assert(arange_ok_at(cur, u) == arange_ok_at(orig, u));
    }
}

/// Mark binary and fused nodes in-place where the chosen operand's buffer
/// has no other consumer: the node then overwrites that buffer instead of
/// allocating a new one. Marking preserves every node's meaning, every
/// shape, and the graph's well-formedness.
pub fn mark_inplace<T: DType>(nodes: &mut Vec<GraphNode<T>>)
    requires
        graph_ok(old(nodes)@),
    ensures
        rewrite_invariant(old(nodes)@, final(nodes)@),
{
    let ghost orig = nodes@;
    let n = nodes.len();
    let mut idx: usize = 0;
    while idx < n
        invariant
            n == nodes@.len(),
            idx <= n,
            graph_ok(orig),
            rewrite_invariant(orig, nodes@),
        decreases n - idx,
    {
        let node_op = nodes[idx].op;
        match node_op {
            Op::BinaryOp { l_id, r_id, operator } => {
                proof {
                    assert(op_deps(nodes@[idx as int].op)[0] == l_id.0);
                    assert(op_deps(nodes@[idx as int].op)[1] == r_id.0);
                    assert((op_deps(nodes@[idx as int].op)[0] as int) < idx);
                    assert((op_deps(nodes@[idx as int].op)[1] as int) < idx);
                }
                let tid: Option<GraphTensorId> = if l_id != r_id && sole_consumer(
                    nodes,
                    l_id.get(),
                    idx,
                ) {
                    Some(l_id)
                } else if l_id != r_id && sole_consumer(nodes, r_id.get(), idx) {
                    Some(r_id)
                } else {
                    None
                };
                if let Some(out_id) = tid {
                    let ghost cur = nodes@;
                    set_op(nodes, idx, Op::InplaceBinaryOp { out_id, l_id, r_id, operator });
                    proof {
                        let next = nodes@;
                        let vi = idx as int;
                        assert forall|i: int| #[trigger] eval_node(next, vi, i) == eval_node(
                            cur,
                            vi,
                            i,
                        ) by {
                            lemma_eval_prefix(next, cur, l_id.idx(), i);
                            lemma_eval_prefix(next, cur, r_id.idx(), i);
                        }
                        assert(node_shape_ok(next, vi)) by {
                            assert(node_shape_ok(cur, vi));
                            assert(elem_operand_ok(cur, vi, l_id.idx()));
                            assert(elem_operand_ok(cur, vi, r_id.idx()));
                            assert(next[l_id.idx()] == cur[l_id.idx()]);
                            assert(next[r_id.idx()] == cur[r_id.idx()]);
                        }
                        assert(op_deps(next[vi].op) =~= op_deps(cur[vi].op));
                        lemma_mark_step(orig, cur, next, vi, out_id);
                    }
                }
            },
            Op::FusedMulAdd { a_id, b_id, c_id } => {
                proof {
                    assert(op_deps(nodes@[idx as int].op)[0] == a_id.0);
                    assert(op_deps(nodes@[idx as int].op)[1] == b_id.0);
                    assert(op_deps(nodes@[idx as int].op)[2] == c_id.0);
                    assert((op_deps(nodes@[idx as int].op)[0] as int) < idx);
                    assert((op_deps(nodes@[idx as int].op)[1] as int) < idx);
                    assert((op_deps(nodes@[idx as int].op)[2] as int) < idx);
                }
                let tid: Option<GraphTensorId> = if a_id != b_id && a_id != c_id && sole_consumer(
                    nodes,
                    a_id.get(),
                    idx,
                ) {
                    Some(a_id)
                } else if b_id != a_id && b_id != c_id && sole_consumer(nodes, b_id.get(), idx) {
                    Some(b_id)
                } else if c_id != a_id && c_id != b_id && sole_consumer(nodes, c_id.get(), idx) {
                    Some(c_id)
                } else {
                    None
                };
                if let Some(out_id) = tid {
                    let ghost cur = nodes@;
                    set_op(nodes, idx, Op::InplaceFusedMulAdd { a_id, b_id, c_id, out_id });
                    proof {
                        let next = nodes@;
                        let vi = idx as int;
                        assert forall|i: int| #[trigger] eval_node(next, vi, i) == eval_node(
                            cur,
                            vi,
                            i,
                        ) by {
                            lemma_eval_prefix(next, cur, a_id.idx(), i);
                            lemma_eval_prefix(next, cur, b_id.idx(), i);
                            lemma_eval_prefix(next, cur, c_id.idx(), i);
                        }
                        assert(node_shape_ok(next, vi)) by {
                            assert(node_shape_ok(cur, vi));
                            assert(elem_operand_ok(cur, vi, a_id.idx()));
                            assert(elem_operand_ok(cur, vi, b_id.idx()));
                            assert(elem_operand_ok(cur, vi, c_id.idx()));
                            assert(next[a_id.idx()] == cur[a_id.idx()]);
                            assert(next[b_id.idx()] == cur[b_id.idx()]);
                            assert(next[c_id.idx()] == cur[c_id.idx()]);
                        }
                        assert(op_deps(next[vi].op) =~= op_deps(cur[vi].op));
                        lemma_mark_step(orig, cur, next, vi, out_id);
                    }
                }
            },
            _ => {},
        }
        idx = idx + 1;
    }
}

/// The fusion contract consumed by every backend: rewrite multiply-then-add
/// pairs into fused nodes and alias single-consumer buffers in place. For a
/// graph `G` and its rewrite `G'`, every node of `G'` evaluates to exactly
/// the values it had in `G`, shapes are untouched, and a well-formed graph
/// stays well formed — so `run(compile(G')) == run(compile(G))` elementwise.
pub fn optimize<T: DType>(nodes: &mut Vec<GraphNode<T>>)
    requires
        graph_ok(old(nodes)@),
    ensures
        rewrite_invariant(old(nodes)@, final(nodes)@),
{
    let ghost orig = nodes@;
    fuse_mul_add(nodes);
    let ghost mid = nodes@;
    mark_inplace(nodes);
    proof {
        let fin = nodes@;
        assert forall|u: int| 0 <= u < orig.len() implies (#[trigger] fin[u]).shape
            == orig[u].shape by {
            assert(mid[u].shape == orig[u].shape);
        }
        assert forall|u: int| 0 <= u < orig.len() implies #[trigger] arange_ok_at(fin, u)
            == arange_ok_at(orig, u) by {
            assert(arange_ok_at(mid, u) == arange_ok_at(orig, u));
        }
        assert forall|v: int, i: int|
            0 <= v < orig.len() implies #[trigger] eval_node(fin, v, i) == eval_node(
            orig,
            v,
            i,
        ) by {
            assert(eval_node(mid, v, i) == eval_node(orig, v, i));
        }
    }
}

} // verus!
