//! Structural validation of a graph before a backend accepts it: operand
//! references, shapes, element counts and in-place aliasing are all checked
//! up front, so execution itself can never trip over a malformed node.

use vstd::prelude::*;

use crate::dtype::DType;
use crate::error::Error;
use crate::eval::{
    alias_safe, deps_before, elem_operand_ok, graph_ok, inplace_target, no_noop_operand,
    node_shape_ok, numel, numel_of, numels_fit, shapes_ok,
};
use crate::graph::{op_dep_list, op_deps, GraphNode, GraphTensorId, Op};

verus! {

/// A graph whose operands all stand earlier than their consumers is
/// scheduled by the ascending index order itself.
pub proof fn lemma_deps_before_schedulable<T>(nodes: Seq<GraphNode<T>>)
    requires
        deps_before(nodes),
        nodes.len() <= usize::MAX,
    ensures
        crate::scheduler::schedulable(nodes),
{
    let ident = Seq::new(nodes.len(), |i: int| i as usize);
    assert forall|p: int| 0 <= p < ident.len() implies (#[trigger] ident[p] as int)
        < nodes.len() by {
        assert(ident[p] == p as usize);
    }
    assert forall|i: int, j: int|
        0 <= i < ident.len() && 0 <= j < ident.len() && i != j implies ident[i] != ident[j] by {
        assert(ident[i] == i as usize && ident[j] == j as usize);
    }
    assert(ident.no_duplicates());
    assert forall|pc: int, j: int|
        0 <= pc < ident.len() && 0 <= j < op_deps(nodes[ident[pc] as int].op).len() implies exists|
        pd: int,
    |
        0 <= pd < pc && ident[pd] == #[trigger] op_deps(nodes[ident[pc] as int].op)[j] by {
        let d = op_deps(nodes[ident[pc] as int].op)[j];
        assert((d as int) < pc);
        assert(ident[d as int] == d);
    }
    assert(crate::scheduler::valid_order(nodes, ident));
}

/// Whether `x` equals the product of three extents, computed without
/// overflowing the host's integer size.
fn prod3_eq(x: usize, a: usize, b: usize, c: usize) -> (r: bool)
    ensures
        r == (x as int == (a as int) * (b as int) * (c as int)),
{
    if a == 0 || b == 0 || c == 0 {
        proof {
            assert((a as int) * (b as int) * (c as int) == 0) by (nonlinear_arith)
                requires
                    a == 0 || b == 0 || c == 0,
            ;
        }
        x == 0
    } else {
        match a.checked_mul(b) {
            Some(ab) => match ab.checked_mul(c) {
                Some(abc) => x == abc,
                None => {
                    proof {
                        assert((a as int) * (b as int) * (c as int) == (ab as int) * (c as int));
                    }
                    false
                },
            },
            None => {
                proof {
                    assert((a as int) * (b as int) * (c as int) > usize::MAX) by (nonlinear_arith)
                        requires
                            (a as int) * (b as int) > usize::MAX && c >= 1,
                    ;
                }
                false
            },
        }
    }
}

/// Whether one node's output shape is consistent with its operation.
fn check_node_shape<T: DType>(nodes: &Vec<GraphNode<T>>, numels: &Vec<usize>, v: usize) -> (r:
    bool)
    requires
        (v as int) < nodes@.len(),
        numels@.len() == nodes@.len(),
        forall|u: int|
            0 <= u < nodes@.len() ==> (#[trigger] numels@[u]) as int == numel(nodes@[u].shape@),
    ensures
        r == node_shape_ok(nodes@, v as int),
{
    let n = nodes.len();
    let me = numels[v];
    match &nodes[v].op {
        Op::Fill { .. } => true,
        Op::Arange { .. } => true,
        Op::NoOp => true,
        Op::UnaryOp { v_id, .. } => {
            let d = v_id.get();
            d < n && numels[d] == me
        },
        Op::BinaryOp { l_id, r_id, .. } => {
            let l = l_id.get();
            let r = r_id.get();
            l < n && numels[l] == me && r < n && numels[r] == me
        },
        Op::InplaceBinaryOp { out_id, l_id, r_id, .. } => {
            let l = l_id.get();
            let r = r_id.get();
            let slot_ok = (out_id.get() == l) != (out_id.get() == r);
            l < n && numels[l] == me && r < n && numels[r] == me && slot_ok
        },
        Op::FusedMulAdd { a_id, b_id, c_id } => {
            let a = a_id.get();
            let b = b_id.get();
            let c = c_id.get();
            a < n && numels[a] == me && b < n && numels[b] == me && c < n && numels[c] == me
        },
        Op::InplaceFusedMulAdd { a_id, b_id, c_id, out_id } => {
            let a = a_id.get();
            let b = b_id.get();
            let c = c_id.get();
            let slots: u32 = (if out_id.get() == a {
                1u32
            } else {
                0u32
            }) + (if out_id.get() == b {
                1u32
            } else {
                0u32
            }) + (if out_id.get() == c {
                1u32
            } else {
                0u32
            });
            a < n && numels[a] == me && b < n && numels[b] == me && c < n && numels[c] == me
                && slots == 1
        },
        Op::MatMul { l_id, r_id, o_id, k, .. } => {
            let shape = &nodes[v].shape;
            if shape.len() != 3 {
                return false;
            }
            let sb = shape[0];
            let sm = shape[1];
            let sn = shape[2];
            let l = l_id.get();
            let r = r_id.get();
            if l >= n || r >= n {
                return false;
            }
            let l_ok = prod3_eq(numels[l], sb, sm, *k);
            let r_ok = prod3_eq(numels[r], sb, *k, sn);
            proof {
                assert(numel(nodes@[l as int].shape@) == numels@[l as int] as int);
                assert(numel(nodes@[r as int].shape@) == numels@[r as int] as int);
            }
            let o_ok = match o_id {
                Some(o) => {
                    let oi = o.get();
                    oi < n && numels[oi] == me
                },
                None => true,
            };
            l_ok && r_ok && o_ok
        },
    }
}

/// Check a node list against everything `graph_ok` asks, handing back each
/// node's element count on success.
pub fn check_graph<T: DType>(nodes: &Vec<GraphNode<T>>) -> (r: Result<Vec<usize>, Error>)
    ensures
        match r {
            Ok(numels) => {
                &&& graph_ok(nodes@)
                &&& numels@.len() == nodes@.len()
                &&& forall|v: int|
                    0 <= v < nodes@.len() ==> (#[trigger] numels@[v]) as int == numel(
                        nodes@[v].shape@,
                    )
            },
            Err(e) => {
                &&& !graph_ok(nodes@)
                &&& (e is EmptyGraph ==> nodes@.len() == 0)
                &&& (e is Overflow ==> !numels_fit(nodes@))
                &&& (e is Cycle ==> !deps_before(nodes@))
                &&& (e is MissingOperand ==> !(deps_before(nodes@) && no_noop_operand(nodes@)))
                &&& (e is ShapeMismatch ==> !shapes_ok(nodes@))
                &&& (e is AliasViolation ==> !alias_safe(nodes@))
                &&& (e is Unsupported ==> nodes@.len() > 0 && nodes@[nodes@.len() - 1].op is NoOp)
            },
        },
{
    let n = nodes.len();
    if n == 0 {
        return Err(Error::EmptyGraph);
    }
    // element counts
    let mut numels: Vec<usize> = Vec::new();
    let mut v: usize = 0;
    while v < n
        invariant
            v <= n,
            n == nodes@.len(),
            numels@.len() == v,
            forall|u: int|
                0 <= u < v ==> (#[trigger] numels@[u]) as int == numel(nodes@[u].shape@),
        decreases n - v,
    {
        match numel_of(&nodes[v].shape) {
            Some(m) => {
                numels.push(m);
            },
            None => {
                return Err(Error::Overflow { node: v });
            },
        }
        v = v + 1;
    }
    // operand references and shapes
    let mut v2: usize = 0;
    while v2 < n
        invariant
            v2 <= n,
            n == nodes@.len(),
            numels@.len() == n,
            forall|u: int|
                0 <= u < n ==> (#[trigger] numels@[u]) as int == numel(nodes@[u].shape@),
            forall|u: int, j: int|
                0 <= u < v2 && 0 <= j < op_deps(nodes@[u].op).len() ==> (#[trigger] op_deps(
                    nodes@[u].op,
                )[j] as int) < u,
            forall|u: int, j: int|
                0 <= u < v2 && 0 <= j < op_deps(nodes@[u].op).len() ==> !(nodes@[(#[trigger] op_deps(
                    nodes@[u].op,
                )[j]) as int].op is NoOp),
            forall|u: int| 0 <= u < v2 ==> #[trigger] node_shape_ok(nodes@, u),
        decreases n - v2,
    {
        let deps = op_dep_list(&nodes[v2].op);
        let mut j: usize = 0;
        while j < deps.len()
            invariant
                j <= deps@.len(),
                v2 < n,
                n == nodes@.len(),
                deps@ =~= op_deps(nodes@[v2 as int].op),
                forall|ji: int| 0 <= ji < j ==> (#[trigger] deps@[ji] as int) < v2,
                forall|ji: int|
                    0 <= ji < j ==> !(nodes@[(#[trigger] deps@[ji]) as int].op is NoOp),
            decreases deps@.len() - j,
        {
            let d = deps[j];
            if d >= v2 {
                if d >= n {
                    return Err(Error::MissingOperand { node: v2, operand: d });
                }
                return Err(Error::Cycle);
            }
            let is_noop = match &nodes[d].op {
                Op::NoOp => true,
                _ => false,
            };
            if is_noop {
                return Err(Error::MissingOperand { node: v2, operand: d });
            }
            j = j + 1;
        }
        if !check_node_shape(nodes, &numels, v2) {
            return Err(Error::ShapeMismatch { node: v2 });
        }
        v2 = v2 + 1;
    }
    // single-consumer aliasing
    let mut v3: usize = 0;
    while v3 < n
        invariant
            v3 <= n,
            n == nodes@.len(),
            forall|u: int, w: int, j: int|
                #![trigger inplace_target(nodes@[u].op), op_deps(nodes@[w].op)[j]]
                0 <= u < v3 && 0 <= w < n && w != u && 0 <= j < op_deps(nodes@[w].op).len()
                    ==> match inplace_target(nodes@[u].op) {
                    Some(out) => op_deps(nodes@[w].op)[j] != out.0,
                    None => true,
                },
        decreases n - v3,
    {
        let target: Option<GraphTensorId> = match &nodes[v3].op {
            Op::InplaceBinaryOp { out_id, .. } => Some(*out_id),
            Op::InplaceFusedMulAdd { out_id, .. } => Some(*out_id),
            _ => None,
        };
        if let Some(out) = target {
            let out_idx = out.get();
            let mut w: usize = 0;
            while w < n
                invariant
                    w <= n,
                    v3 < n,
                    n == nodes@.len(),
                    inplace_target(nodes@[v3 as int].op) == Some(out),
                    out_idx == out.0,
                    forall|w2: int, j: int|
                        0 <= w2 < w && w2 != v3 && 0 <= j < op_deps(nodes@[w2].op).len()
                            ==> (#[trigger] op_deps(nodes@[w2].op)[j]) != out.0,
                decreases n - w,
            {
                if w != v3 {
                    let wdeps = op_dep_list(&nodes[w].op);
                    let mut j2: usize = 0;
                    while j2 < wdeps.len()
                        invariant
                            j2 <= wdeps@.len(),
                            w < n,
                            w != v3,
                            v3 < n,
                            n == nodes@.len(),
                            out_idx == out.0,
                            inplace_target(nodes@[v3 as int].op) == Some(out),
                            wdeps@ =~= op_deps(nodes@[w as int].op),
                            forall|ji: int|
                                0 <= ji < j2 ==> (#[trigger] wdeps@[ji]) != out.0,
                        decreases wdeps@.len() - j2,
                    {
                        if wdeps[j2] == out_idx {
                            proof {
                                assert(inplace_target(nodes@[v3 as int].op) == Some(out));
                                assert(op_deps(nodes@[w as int].op)[j2 as int] == out.0);
                                assert(!alias_safe(nodes@));
                            }
                            return Err(Error::AliasViolation { node: v3 });
                        }
                        j2 = j2 + 1;
                    }
                }
                w = w + 1;
            }
        }
        v3 = v3 + 1;
    }
    // the result node must be evaluable
    let last_is_noop = match &nodes[n - 1].op {
        Op::NoOp => true,
        _ => false,
    };
    if last_is_noop {
        return Err(Error::Unsupported { node: n - 1 });
    }
    proof {
        assert(graph_ok(nodes@)) by {
            assert(deps_before(nodes@));
            assert(no_noop_operand(nodes@));
            assert(shapes_ok(nodes@));
            assert forall|u: int| 0 <= u < nodes@.len() implies numel(#[trigger] nodes@[u].shape@)
                <= usize::MAX by {
                assert(numels@[u] as int == numel(nodes@[u].shape@));
            }
            assert(numels_fit(nodes@));
            assert(alias_safe(nodes@));
        }
    }
    Ok(numels)
}

} // verus!
