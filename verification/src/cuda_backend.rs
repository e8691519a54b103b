//! JIT backend: partitions the schedule into maximal runs of adjacent
//! same-shape nodes (a matrix product always starts a new run), renders each
//! run's final node as one scalar expression by recursive inlining, embeds
//! it in a grid-stride-loop kernel template, and names the kernel by a
//! content hash of its rendered parts. The records are plain data: a host
//! layer hands each source to the platform's runtime compiler, consulting an
//! on-disk cache keyed by the same content hash, and appends its own
//! C-linkage entry point around the templated device function.

use core::marker::PhantomData;
use vstd::prelude::*;
use vstd::string::StrSliceExecFns;
use vstd::string::StringExecFns;

use crate::device::{CompiledGraph, Cuda};
use crate::dtype::DType;
use crate::error::Error;
use crate::eval::deps_before;
use crate::graph::{op_deps, BinaryOpType, GraphNode, Op, UnaryOpType};
use crate::shape::Shape;
use crate::text::{dec_digits, usize_to_dec, u64_to_dec};
use crate::validate::check_graph;

verus! {

/// One generated kernel: its templated source, the content hash that names
/// it and keys its cache entry, the group's output shape, and the schedule
/// position of the group's final node.
pub struct CudaCompiledKernel<T: DType> {
    pub source: String,
    pub key: u64,
    pub shape: Vec<usize>,
    pub order: usize,
    pub marker: PhantomData<T>,
}

/// The kernel-source spelling of a binary operator.
pub open spec fn c_op(op: BinaryOpType) -> Seq<char> {
    match op {
        BinaryOpType::Add => "+"@,
        BinaryOpType::Sub => "-"@,
        BinaryOpType::Mul => "*"@,
        BinaryOpType::Div => "/"@,
    }
}

/// The kernel-source spelling of a binary operator.
fn c_op_str(op: BinaryOpType) -> (r: &'static str)
    ensures
        r@ == c_op(op),
{
    match op {
        BinaryOpType::Add => "+",
        BinaryOpType::Sub => "-",
        BinaryOpType::Mul => "*",
        BinaryOpType::Div => "/",
    }
}

/// The declared name for the `n`-th constant of one kernel.
pub open spec fn name_chars(n: nat) -> Seq<char> {
    "v"@ + dec_digits(n)
}

/// Whether a node can be inlined into a scalar expression: constants,
/// sequences and elementwise operations over earlier nodes. A matrix
/// product or placeholder cannot.
pub open spec fn renderable<T: DType>(nodes: Seq<GraphNode<T>>, idx: int) -> bool
    decreases idx,
{
    0 <= idx < nodes.len() && match nodes[idx].op {
        Op::Fill { .. } => true,
        Op::Arange { .. } => true,
        Op::UnaryOp { v_id, .. } => v_id.idx() < idx && renderable(nodes, v_id.idx()),
        Op::BinaryOp { l_id, r_id, .. } => l_id.idx() < idx && r_id.idx() < idx && renderable(
            nodes,
            l_id.idx(),
        ) && renderable(nodes, r_id.idx()),
        Op::InplaceBinaryOp { l_id, r_id, .. } => l_id.idx() < idx && r_id.idx() < idx
            && renderable(nodes, l_id.idx()) && renderable(nodes, r_id.idx()),
        Op::FusedMulAdd { a_id, b_id, c_id } => a_id.idx() < idx && b_id.idx() < idx && c_id.idx()
            < idx && renderable(nodes, a_id.idx()) && renderable(nodes, b_id.idx()) && renderable(
            nodes,
            c_id.idx(),
        ),
        Op::InplaceFusedMulAdd { a_id, b_id, c_id, .. } => a_id.idx() < idx && b_id.idx() < idx
            && c_id.idx() < idx && renderable(nodes, a_id.idx()) && renderable(nodes, b_id.idx())
            && renderable(nodes, c_id.idx()),
        Op::MatMul { .. } => false,
        Op::NoOp => false,
    }
}

/// The scalar expression for one node, by recursive inlining: the rendered
/// expression text, the constant declarations it needs, and the next free
/// constant number.
pub open spec fn render_node<T: DType>(nodes: Seq<GraphNode<T>>, idx: int, name0: nat) -> (
    Seq<char>,
    Seq<char>,
    nat,
)
    decreases idx,
{
    if 0 <= idx < nodes.len() {
        match nodes[idx].op {
            Op::Fill { v } => {
                let nm = name0 + 1;
                (
                    "("@ + name_chars(nm) + ")"@,
                    "T "@ + name_chars(nm) + " = "@ + T::literal_spec(v) + ";\n"@,
                    nm,
                )
            },
            Op::Arange { start, step, stop } => {
                let nm = name0 + 1;
                (
                    "("@ + name_chars(nm) + ")"@,
                    "T "@ + name_chars(nm) + " = static_cast<T>(i) * static_cast<T>("@
                        + T::literal_spec(step) + ") + static_cast<T>("@ + T::literal_spec(start)
                        + ");\n"@,
                    nm,
                )
            },
            Op::UnaryOp { v_id, operator } => if v_id.idx() < idx {
                let sub = render_node::<T>(nodes, v_id.idx(), name0);
                match operator {
                    UnaryOpType::Neg => ("(-"@ + sub.0 + ")"@, sub.1, sub.2),
                    UnaryOpType::Sqrt => ("(sqrt("@ + sub.0 + "))"@, sub.1, sub.2),
                }
            } else {
                (Seq::<char>::empty(), Seq::<char>::empty(), name0)
            },
            Op::BinaryOp { l_id, r_id, operator } => if l_id.idx() < idx && r_id.idx() < idx {
                let ls = render_node::<T>(nodes, l_id.idx(), name0);
                let rs = render_node::<T>(nodes, r_id.idx(), ls.2);
                (
                    "("@ + ls.0 + " "@ + c_op(operator) + " "@ + rs.0 + ")"@,
                    ls.1 + rs.1,
                    rs.2,
                )
            } else {
                (Seq::<char>::empty(), Seq::<char>::empty(), name0)
            },
            Op::InplaceBinaryOp { l_id, r_id, operator, .. } => if l_id.idx() < idx && r_id.idx()
                < idx {
                let ls = render_node::<T>(nodes, l_id.idx(), name0);
                let rs = render_node::<T>(nodes, r_id.idx(), ls.2);
                (
                    "("@ + ls.0 + " "@ + c_op(operator) + " "@ + rs.0 + ")"@,
                    ls.1 + rs.1,
                    rs.2,
                )
            } else {
                (Seq::<char>::empty(), Seq::<char>::empty(), name0)
            },
            Op::FusedMulAdd { a_id, b_id, c_id } => if a_id.idx() < idx && b_id.idx() < idx
                && c_id.idx() < idx {
                let asr = render_node::<T>(nodes, a_id.idx(), name0);
                let bsr = render_node::<T>(nodes, b_id.idx(), asr.2);
                let csr = render_node::<T>(nodes, c_id.idx(), bsr.2);
                (fma_expr(asr.0, bsr.0, csr.0), asr.1 + bsr.1 + csr.1, csr.2)
            } else {
                (Seq::<char>::empty(), Seq::<char>::empty(), name0)
            },
            Op::InplaceFusedMulAdd { a_id, b_id, c_id, .. } => if a_id.idx() < idx && b_id.idx()
                < idx && c_id.idx() < idx {
                let asr = render_node::<T>(nodes, a_id.idx(), name0);
                let bsr = render_node::<T>(nodes, b_id.idx(), asr.2);
                let csr = render_node::<T>(nodes, c_id.idx(), bsr.2);
                (fma_expr(asr.0, bsr.0, csr.0), asr.1 + bsr.1 + csr.1, csr.2)
            } else {
                (Seq::<char>::empty(), Seq::<char>::empty(), name0)
            },
            Op::MatMul { .. } => (Seq::<char>::empty(), Seq::<char>::empty(), name0),
            Op::NoOp => (Seq::<char>::empty(), Seq::<char>::empty(), name0),
        }
    } else {
        (Seq::<char>::empty(), Seq::<char>::empty(), name0)
    }
}

/// The fused-multiply-add expression around three rendered operands.
pub open spec fn fma_expr(a: Seq<char>, b: Seq<char>, c: Seq<char>) -> Seq<char> {
    "( static_cast<T>(fma(static_cast<double>("@ + a + "), static_cast<double>("@ + b
        + "), static_cast<double>("@ + c + "))))"@
}

/// Rendering only ever moves the constant counter forward.
proof fn lemma_render_name_monotone<T: DType>(nodes: Seq<GraphNode<T>>, idx: int, name0: nat)
    ensures
        render_node::<T>(nodes, idx, name0).2 >= name0,
    decreases idx,
{
    if 0 <= idx < nodes.len() {
        match nodes[idx].op {
            Op::UnaryOp { v_id, .. } => {
                if v_id.idx() < idx {
                    lemma_render_name_monotone::<T>(nodes, v_id.idx(), name0);
                }
            },
            Op::BinaryOp { l_id, r_id, .. } => {
                if l_id.idx() < idx && r_id.idx() < idx {
                    lemma_render_name_monotone::<T>(nodes, l_id.idx(), name0);
                    lemma_render_name_monotone::<T>(
                        nodes,
                        r_id.idx(),
                        render_node::<T>(nodes, l_id.idx(), name0).2,
                    );
                }
            },
            Op::InplaceBinaryOp { l_id, r_id, .. } => {
                if l_id.idx() < idx && r_id.idx() < idx {
                    lemma_render_name_monotone::<T>(nodes, l_id.idx(), name0);
                    lemma_render_name_monotone::<T>(
                        nodes,
                        r_id.idx(),
                        render_node::<T>(nodes, l_id.idx(), name0).2,
                    );
                }
            },
            Op::FusedMulAdd { a_id, b_id, c_id } => {
                if a_id.idx() < idx && b_id.idx() < idx && c_id.idx() < idx {
                    lemma_render_name_monotone::<T>(nodes, a_id.idx(), name0);
                    lemma_render_name_monotone::<T>(
                        nodes,
                        b_id.idx(),
                        render_node::<T>(nodes, a_id.idx(), name0).2,
                    );
                    lemma_render_name_monotone::<T>(
                        nodes,
                        c_id.idx(),
                        render_node::<T>(
                            nodes,
                            b_id.idx(),
                            render_node::<T>(nodes, a_id.idx(), name0).2,
                        ).2,
                    );
                }
            },
            Op::InplaceFusedMulAdd { a_id, b_id, c_id, .. } => {
                if a_id.idx() < idx && b_id.idx() < idx && c_id.idx() < idx {
                    lemma_render_name_monotone::<T>(nodes, a_id.idx(), name0);
                    lemma_render_name_monotone::<T>(
                        nodes,
                        b_id.idx(),
                        render_node::<T>(nodes, a_id.idx(), name0).2,
                    );
                    lemma_render_name_monotone::<T>(
                        nodes,
                        c_id.idx(),
                        render_node::<T>(
                            nodes,
                            b_id.idx(),
                            render_node::<T>(nodes, a_id.idx(), name0).2,
                        ).2,
                    );
                }
            },
            _ => {},
        }
    }
}

/// The content hash used to name kernels and key their cache entries:
/// 64-bit FNV-1a over the rendered characters.
pub open spec fn fnv1a(s: Seq<char>) -> u64
    decreases s.len(),
{
    if s.len() == 0 {
        0xcbf29ce484222325u64
    } else {
        vstd::wrapping::u64_specs::wrapping_mul(
            fnv1a(s.drop_last()) ^ (s.last() as u64),
            0x100000001b3u64,
        )
    }
}

/// Hash a rendered string with 64-bit FNV-1a.
pub fn fnv1a_hash(s: &str) -> (r: u64)
    ensures
        r == fnv1a(s@),
{
    let n = s.unicode_len();
    let mut h: u64 = 0xcbf29ce484222325u64;
    let mut i: usize = 0;
    while i < n
        invariant
            i <= n,
            n == s@.len(),
            h == fnv1a(s@.take(i as int)),
        decreases n - i,
    {
        let c = s.get_char(i);
        proof {
            assert(s@.take(i + 1).drop_last() =~= s@.take(i as int));
            assert(s@.take(i + 1).last() == s@[i as int]);
        }
        h = (h ^ (c as u64)).wrapping_mul(0x100000001b3u64);
        i = i + 1;
    }
    proof {
        assert(s@.take(n as int) =~= s@);
    }
    h
}

/// Render the scalar expression for one node by recursive inlining,
/// appending the constant declarations it needs to `header` and advancing
/// the constant counter. Fails closed on node kinds that cannot be inlined
/// and when the constant counter would overflow.
#[verifier::rlimit(100)]
pub fn handle_node<T: DType>(
    current_name: &mut usize,
    header: &mut String,
    idx: usize,
    nodes: &Vec<GraphNode<T>>,
) -> (r: Result<String, Error>)
    requires
        deps_before(nodes@),
        (idx as int) < nodes@.len(),
    ensures
        match r {
            Ok(expr) => {
                &&& renderable(nodes@, idx as int)
                &&& render_node::<T>(nodes@, idx as int, (*old(current_name)) as nat).2 <= usize::MAX
                &&& expr@ == render_node::<T>(nodes@, idx as int, (*old(current_name)) as nat).0
                &&& final(header)@ == old(header)@ + render_node::<T>(
                    nodes@,
                    idx as int,
                    (*old(current_name)) as nat,
                ).1
                &&& (*final(current_name)) as nat == render_node::<T>(
                    nodes@,
                    idx as int,
                    (*old(current_name)) as nat,
                ).2
            },
            Err(e) => {
                &&& (!renderable(nodes@, idx as int) || render_node::<T>(
                    nodes@,
                    idx as int,
                    (*old(current_name)) as nat,
                ).2 > usize::MAX)
                &&& (e is Unsupported || e is Overflow)
            },
        },
    decreases idx,
{
    let op = nodes[idx].op;
    match op {
        Op::Fill { v } => {
            if *current_name == usize::MAX {
                return Err(Error::Overflow { node: idx });
            }
            *current_name = *current_name + 1;
            let mut nm = String::new();
            nm.append("v");
            let digits = usize_to_dec(*current_name);
            nm.append(digits.as_str());
            proof {
                assert(nm@ =~= name_chars(*current_name as nat));
            }
            header.append("T ");
            header.append(nm.as_str());
            header.append(" = ");
            let lit = T::literal(v);
            header.append(lit.as_str());
            header.append(";\n");
            let mut expr = String::new();
            expr.append("(");
            expr.append(nm.as_str());
            expr.append(")");
            proof {
                let rendered = render_node::<T>(nodes@, idx as int, (*old(current_name)) as nat);
                assert(expr@ =~= rendered.0);
                assert(header@ =~= old(header)@ + rendered.1);
            }
            Ok(expr)
        },
        Op::Arange { start, step, stop } => {
            if *current_name == usize::MAX {
                return Err(Error::Overflow { node: idx });
            }
            *current_name = *current_name + 1;
            let mut nm = String::new();
            nm.append("v");
            let digits = usize_to_dec(*current_name);
            nm.append(digits.as_str());
            proof {
                assert(nm@ =~= name_chars(*current_name as nat));
            }
            header.append("T ");
            header.append(nm.as_str());
            header.append(" = static_cast<T>(i) * static_cast<T>(");
            let step_lit = T::literal(step);
            header.append(step_lit.as_str());
            header.append(") + static_cast<T>(");
            let start_lit = T::literal(start);
            header.append(start_lit.as_str());
            header.append(");\n");
            let mut expr = String::new();
            expr.append("(");
            expr.append(nm.as_str());
            expr.append(")");
            proof {
                let rendered = render_node::<T>(nodes@, idx as int, (*old(current_name)) as nat);
                assert(expr@ =~= rendered.0);
                assert(header@ =~= old(header)@ + rendered.1);
            }
            Ok(expr)
        },
        Op::UnaryOp { v_id, operator } => {
            let d = v_id.get();
            proof {
                assert(op_deps(nodes@[idx as int].op)[0] == v_id.0);
                assert((op_deps(nodes@[idx as int].op)[0] as int) < idx);
            }
            let sub = match handle_node(current_name, header, d, nodes) {
                Ok(s) => s,
                Err(e) => {
                    return Err(e);
                },
            };
            let mut expr = String::new();
            match operator {
                UnaryOpType::Neg => {
                    expr.append("(-");
                    expr.append(sub.as_str());
                    expr.append(")");
                },
                UnaryOpType::Sqrt => {
                    expr.append("(sqrt(");
                    expr.append(sub.as_str());
                    expr.append("))");
                },
            }
            proof {
                let rendered = render_node::<T>(nodes@, idx as int, (*old(current_name)) as nat);
                assert(expr@ =~= rendered.0);
            }
            Ok(expr)
        },
        Op::BinaryOp { l_id, r_id, operator } => {
            let l = l_id.get();
            let rr = r_id.get();
            proof {
                assert(op_deps(nodes@[idx as int].op)[0] == l_id.0);
                assert(op_deps(nodes@[idx as int].op)[1] == r_id.0);
                assert((op_deps(nodes@[idx as int].op)[0] as int) < idx);
                assert((op_deps(nodes@[idx as int].op)[1] as int) < idx);
            }
            let le = match handle_node(current_name, header, l, nodes) {
                Ok(s) => s,
                Err(e) => {
                    proof {
                        lemma_render_name_monotone::<T>(
                            nodes@,
                            rr as int,
                            render_node::<T>(nodes@, l as int, (*old(current_name)) as nat).2,
                        );
                    }
                    return Err(e);
                },
            };
            let re = match handle_node(current_name, header, rr, nodes) {
                Ok(s) => s,
                Err(e) => {
                    return Err(e);
                },
            };
            let mut expr = String::new();
            expr.append("(");
            expr.append(le.as_str());
            expr.append(" ");
            expr.append(c_op_str(operator));
            expr.append(" ");
            expr.append(re.as_str());
            expr.append(")");
            proof {
                let rendered = render_node::<T>(nodes@, idx as int, (*old(current_name)) as nat);
                assert(expr@ =~= rendered.0);
                assert(header@ =~= old(header)@ + rendered.1);
            }
            Ok(expr)
        },
        Op::InplaceBinaryOp { l_id, r_id, operator, .. } => {
            let l = l_id.get();
            let rr = r_id.get();
            proof {
                assert(op_deps(nodes@[idx as int].op)[0] == l_id.0);
                assert(op_deps(nodes@[idx as int].op)[1] == r_id.0);
                assert((op_deps(nodes@[idx as int].op)[0] as int) < idx);
                assert((op_deps(nodes@[idx as int].op)[1] as int) < idx);
            }
            let le = match handle_node(current_name, header, l, nodes) {
                Ok(s) => s,
                Err(e) => {
                    proof {
                        lemma_render_name_monotone::<T>(
                            nodes@,
                            rr as int,
                            render_node::<T>(nodes@, l as int, (*old(current_name)) as nat).2,
                        );
                    }
                    return Err(e);
                },
            };
            let re = match handle_node(current_name, header, rr, nodes) {
                Ok(s) => s,
                Err(e) => {
                    return Err(e);
                },
            };
            let mut expr = String::new();
            expr.append("(");
            expr.append(le.as_str());
            expr.append(" ");
            expr.append(c_op_str(operator));
            expr.append(" ");
            expr.append(re.as_str());
            expr.append(")");
            proof {
                let rendered = render_node::<T>(nodes@, idx as int, (*old(current_name)) as nat);
                assert(expr@ =~= rendered.0);
                assert(header@ =~= old(header)@ + rendered.1);
            }
            Ok(expr)
        },
        Op::FusedMulAdd { a_id, b_id, c_id } => {
            let a = a_id.get();
            let b = b_id.get();
            let c = c_id.get();
            proof {
                assert(op_deps(nodes@[idx as int].op)[0] == a_id.0);
                assert(op_deps(nodes@[idx as int].op)[1] == b_id.0);
                assert(op_deps(nodes@[idx as int].op)[2] == c_id.0);
                assert((op_deps(nodes@[idx as int].op)[0] as int) < idx);
                assert((op_deps(nodes@[idx as int].op)[1] as int) < idx);
                assert((op_deps(nodes@[idx as int].op)[2] as int) < idx);
            }
            let ghost n0 = (*old(current_name)) as nat;
            let ae = match handle_node(current_name, header, a, nodes) {
                Ok(s) => s,
                Err(e) => {
                    proof {
                        lemma_render_name_monotone::<T>(
                            nodes@,
                            b as int,
                            render_node::<T>(nodes@, a as int, n0).2,
                        );
                        lemma_render_name_monotone::<T>(
                            nodes@,
                            c as int,
                            render_node::<T>(
                                nodes@,
                                b as int,
                                render_node::<T>(nodes@, a as int, n0).2,
                            ).2,
                        );
                    }
                    return Err(e);
                },
            };
            let be = match handle_node(current_name, header, b, nodes) {
                Ok(s) => s,
                Err(e) => {
                    proof {
                        lemma_render_name_monotone::<T>(
                            nodes@,
                            c as int,
                            render_node::<T>(
                                nodes@,
                                b as int,
                                render_node::<T>(nodes@, a as int, n0).2,
                            ).2,
                        );
                    }
                    return Err(e);
                },
            };
            let ce = match handle_node(current_name, header, c, nodes) {
                Ok(s) => s,
                Err(e) => {
                    return Err(e);
                },
            };
            let mut expr = String::new();
            expr.append("( static_cast<T>(fma(static_cast<double>(");
            expr.append(ae.as_str());
            expr.append("), static_cast<double>(");
            expr.append(be.as_str());
            expr.append("), static_cast<double>(");
            expr.append(ce.as_str());
            expr.append("))))");
            proof {
                let rendered = render_node::<T>(nodes@, idx as int, (*old(current_name)) as nat);
                assert(expr@ =~= rendered.0);
                assert(header@ =~= old(header)@ + rendered.1);
            }
            Ok(expr)
        },
        Op::InplaceFusedMulAdd { a_id, b_id, c_id, .. } => {
            let a = a_id.get();
            let b = b_id.get();
            let c = c_id.get();
            proof {
                assert(op_deps(nodes@[idx as int].op)[0] == a_id.0);
                assert(op_deps(nodes@[idx as int].op)[1] == b_id.0);
                assert(op_deps(nodes@[idx as int].op)[2] == c_id.0);
                assert((op_deps(nodes@[idx as int].op)[0] as int) < idx);
                assert((op_deps(nodes@[idx as int].op)[1] as int) < idx);
                assert((op_deps(nodes@[idx as int].op)[2] as int) < idx);
            }
            let ghost n0 = (*old(current_name)) as nat;
            let ae = match handle_node(current_name, header, a, nodes) {
                Ok(s) => s,
                Err(e) => {
                    proof {
                        lemma_render_name_monotone::<T>(
                            nodes@,
                            b as int,
                            render_node::<T>(nodes@, a as int, n0).2,
                        );
                        lemma_render_name_monotone::<T>(
                            nodes@,
                            c as int,
                            render_node::<T>(
                                nodes@,
                                b as int,
                                render_node::<T>(nodes@, a as int, n0).2,
                            ).2,
                        );
                    }
                    return Err(e);
                },
            };
            let be = match handle_node(current_name, header, b, nodes) {
                Ok(s) => s,
                Err(e) => {
                    proof {
                        lemma_render_name_monotone::<T>(
                            nodes@,
                            c as int,
                            render_node::<T>(
                                nodes@,
                                b as int,
                                render_node::<T>(nodes@, a as int, n0).2,
                            ).2,
                        );
                    }
                    return Err(e);
                },
            };
            let ce = match handle_node(current_name, header, c, nodes) {
                Ok(s) => s,
                Err(e) => {
                    return Err(e);
                },
            };
            let mut expr = String::new();
            expr.append("( static_cast<T>(fma(static_cast<double>(");
            expr.append(ae.as_str());
            expr.append("), static_cast<double>(");
            expr.append(be.as_str());
            expr.append("), static_cast<double>(");
            expr.append(ce.as_str());
            expr.append("))))");
            proof {
                let rendered = render_node::<T>(nodes@, idx as int, (*old(current_name)) as nat);
                assert(expr@ =~= rendered.0);
                assert(header@ =~= old(header)@ + rendered.1);
            }
            Ok(expr)
        },
        Op::MatMul { .. } => Err(Error::Unsupported { node: idx }),
        Op::NoOp => Err(Error::Unsupported { node: idx }),
    }
}

/// The kernel cache key: a content hash of the rendered header, the
/// rendered body, and the element type's kernel-source name.
pub open spec fn kernel_key_spec<T: DType>(header: Seq<char>, body: Seq<char>) -> u64 {
    fnv1a(header + body + T::c_name_spec())
}

/// The full templated kernel source: fixed type aliases, the element type's
/// extra header line if any, and a grid-stride loop writing the rendered
/// expression, wrapped in a device function named by the content hash. The
/// host layer appends its own C-linkage entry point around this.
pub open spec fn kernel_source_spec<T: DType>(header: Seq<char>, body: Seq<char>, key: u64) -> Seq<
    char,
> {
    "typedef unsigned char uint8_t;\ntypedef int int32_t;\ntypedef unsigned int uint32_t;\ntypedef long long int int64_t;\n"@
        + (match T::c_dep_spec() {
        Some(d) => d,
        None => Seq::<char>::empty(),
    }) + "\ntemplate <typename T>\n__device__ void jit_kernel_"@ + dec_digits(key as nat) + "_"@
        + T::name_spec()
        + "_kernel(T *buf, const unsigned long long numel) {\n  for (unsigned int i = blockIdx.x * blockDim.x + threadIdx.x; i < numel;\n      i += blockDim.x * gridDim.x) {\n"@
        + header + "    buf[i] = "@ + body + ";\n  }\n}\n"@
}

/// Build one kernel's source text and content hash from its rendered parts.
fn build_kernel<T: DType>(header: &String, body: &String) -> (r: (String, u64))
    ensures
        r.1 == kernel_key_spec::<T>(header@, body@),
        r.0@ == kernel_source_spec::<T>(header@, body@, r.1),
{
    let mut hin = header.clone();
    hin.append(body.as_str());
    let type_c_name = T::c_name();
    hin.append(type_c_name.as_str());
    proof {
        assert(hin@ =~= header@ + body@ + T::c_name_spec());
    }
    let key = fnv1a_hash(hin.as_str());
    let mut src = String::new();
    src.append(
        "typedef unsigned char uint8_t;\ntypedef int int32_t;\ntypedef unsigned int uint32_t;\ntypedef long long int int64_t;\n",
    );
    match T::c_dep() {
        Some(d) => {
            src.append(d.as_str());
        },
        None => {},
    }
    src.append("\ntemplate <typename T>\n__device__ void jit_kernel_");
    let key_digits = u64_to_dec(key);
    src.append(key_digits.as_str());
    src.append("_");
    let tn = T::name();
    src.append(tn.as_str());
    src.append(
        "_kernel(T *buf, const unsigned long long numel) {\n  for (unsigned int i = blockIdx.x * blockDim.x + threadIdx.x; i < numel;\n      i += blockDim.x * gridDim.x) {\n",
    );
    src.append(header.as_str());
    src.append("    buf[i] = ");
    src.append(body.as_str());
    src.append(";\n  }\n}\n");
    proof {
        assert(src@ =~= kernel_source_spec::<T>(header@, body@, key));
    }
    (src, key)
}

/// Whether a node closes its fused group: the last node, a shape change, or
/// a following matrix product, which always starts a group of its own.
pub open spec fn is_group_end<T: DType>(nodes: Seq<GraphNode<T>>, i: int) -> bool {
    ||| i == nodes.len() - 1
    ||| !(nodes[i + 1].shape@ =~= nodes[i].shape@)
    ||| nodes[i + 1].op is MatMul
}

/// The final node index of each fused group at or after position `i`.
pub open spec fn group_ends_from<T: DType>(nodes: Seq<GraphNode<T>>, i: int) -> Seq<int>
    decreases nodes.len() - i,
{
    if i < 0 || i >= nodes.len() {
        Seq::<int>::empty()
    } else if is_group_end(nodes, i) {
        seq![i] + group_ends_from(nodes, i + 1)
    } else {
        group_ends_from(nodes, i + 1)
    }
}

/// One kernel record is exactly the record for the group ending at `end`:
/// rendered with a fresh constant counter, keyed by the content hash of its
/// parts, shaped like its final node, ordered by that node's position.
pub open spec fn kernel_matches<T: DType>(
    nodes: Seq<GraphNode<T>>,
    k: CudaCompiledKernel<T>,
    end: int,
) -> bool {
    let rendered = render_node::<T>(nodes, end, 0);
    let key = kernel_key_spec::<T>(rendered.1, rendered.0);
    &&& k.order == end
    &&& k.shape@ =~= nodes[end].shape@
    &&& k.key == key
    &&& k.source@ == kernel_source_spec::<T>(rendered.1, rendered.0, key)
}

/// Every group's final node renders within the host's limits.
pub open spec fn groups_renderable<T: DType>(nodes: Seq<GraphNode<T>>) -> bool {
    forall|g: int|
        0 <= g < group_ends_from(nodes, 0).len() ==> renderable(
            nodes,
            #[trigger] group_ends_from(nodes, 0)[g],
        ) && render_node::<T>(nodes, group_ends_from(nodes, 0)[g], 0).2 <= usize::MAX
}

/// Copy an extent list.
fn clone_extents(v: &Vec<usize>) -> (r: Vec<usize>)
    ensures
        r@ =~= v@,
{
    let n = v.len();
    let mut out: Vec<usize> = Vec::new();
    let mut i: usize = 0;
    while i < n
        invariant
            i <= n,
            n == v@.len(),
            out@.len() == i,
            forall|j: int| 0 <= j < i ==> out@[j] == v@[j],
        decreases n - i,
    {
        out.push(v[i]);
        i = i + 1;
    }
    out
}

/// The JIT-compiling accelerator backend.
pub struct CudaDevice;

impl CudaDevice {
    /// Compile a graph for the JIT accelerator: validate it, partition the
    /// ascending-index schedule (a valid topological order by the graph's
    /// construction invariant, and stable for a fixed graph as the kernel
    /// cache requires) into maximal same-shape runs, and render one kernel
    /// record per run. Succeeds exactly when the graph is well formed and
    /// every run's final node can be inlined within the host's limits.
    pub fn compile<S: Shape, T: DType>(&self, graph: Vec<GraphNode<T>>) -> (r: Result<
        CompiledGraph<S, T, Cuda>,
        Error,
    >)
        ensures
            r is Ok <==> crate::eval::graph_ok(graph@) && groups_renderable::<T>(graph@),
            match r {
                Ok(cg) => cg matches CompiledGraph::Jit { kernels, .. } && kernels@.len()
                    == group_ends_from(graph@, 0).len() && (forall|g: int|
                    0 <= g < kernels@.len() ==> kernel_matches(
                        graph@,
                        #[trigger] kernels@[g],
                        group_ends_from(graph@, 0)[g],
                    )),
                Err(_) => true,
            },
    {
        match check_graph(&graph) {
            Ok(_) => {},
            Err(e) => {
                return Err(e);
            },
        }
        let ghost ge = group_ends_from(graph@, 0);
        let n = graph.len();
        let mut kernels: Vec<CudaCompiledKernel<T>> = Vec::new();
        let mut i: usize = 0;
        while i < n
            invariant
                n == graph@.len(),
                i <= n,
                crate::eval::graph_ok(graph@),
                ge =~= group_ends_from(graph@, 0),
                ge =~= kernels@.map_values(|k: CudaCompiledKernel<T>| k.order as int)
                    + group_ends_from(graph@, i as int),
                forall|g: int|
                    0 <= g < kernels@.len() ==> kernel_matches(
                        graph@,
                        #[trigger] kernels@[g],
                        kernels@[g].order as int,
                    ),
                forall|g: int|
                    0 <= g < kernels@.len() ==> renderable(
                        graph@,
                        (#[trigger] kernels@[g]).order as int,
                    ) && render_node::<T>(graph@, kernels@[g].order as int, 0).2 <= usize::MAX,
            decreases n - i,
        {
            let is_last = i == n - 1;
            let shape_breaks = if is_last {
                true
            } else {
                let next_is_matmul = match &graph[i + 1].op {
                    Op::MatMul { .. } => true,
                    _ => false,
                };
                !crate::tensor::shapes_equal(&graph[i + 1].shape, &graph[i].shape)
                    || next_is_matmul
            };
            if shape_breaks {
                proof {
                    assert(is_group_end(graph@, i as int));
                    assert(group_ends_from(graph@, i as int) =~= seq![i as int]
                        + group_ends_from(graph@, i + 1));
                    assert(ge[kernels@.len() as int] == i as int);
                }
                let mut header = String::new();
                let mut current_name: usize = 0;
                let body = match handle_node(&mut current_name, &mut header, i, &graph) {
                    Ok(b) => b,
                    Err(e) => {
                        proof {
                            assert(!groups_renderable::<T>(graph@)) by {
                                let g0 = kernels@.len() as int;
                                assert(group_ends_from(graph@, 0)[g0] == i as int);
                                if groups_renderable::<T>(graph@) {
                                    assert(renderable(graph@, group_ends_from(graph@, 0)[g0])
                                        && render_node::<T>(
                                        graph@,
                                        group_ends_from(graph@, 0)[g0],
                                        0,
                                    ).2 <= usize::MAX);
                                }
                            }
                        }
                        return Err(e);
                    },
                };
                let (source, key) = build_kernel::<T>(&header, &body);
                let shape = clone_extents(&graph[i].shape);
                let kernel = CudaCompiledKernel {
                    source,
                    key,
                    shape,
                    order: i,
                    marker: PhantomData,
                };
                let ghost prev = kernels@;
                kernels.push(kernel);
                proof {
                    assert(kernels@.map_values(|k: CudaCompiledKernel<T>| k.order as int)
                        =~= prev.map_values(|k: CudaCompiledKernel<T>| k.order as int) + seq![
                        i as int,
                    ]);
                    assert(ge =~= kernels@.map_values(|k: CudaCompiledKernel<T>| k.order as int)
                        + group_ends_from(graph@, i + 1));
                }
            } else {
                proof {
                    assert(!is_group_end(graph@, i as int));
                    assert(group_ends_from(graph@, i as int) =~= group_ends_from(graph@, i + 1));
                }
            }
            i = i + 1;
        }
        proof {
            assert(group_ends_from(graph@, n as int) =~= Seq::<int>::empty());
            assert(ge =~= kernels@.map_values(|k: CudaCompiledKernel<T>| k.order as int));
            assert forall|g: int| 0 <= g < kernels@.len() implies kernel_matches(
                graph@,
                #[trigger] kernels@[g],
                group_ends_from(graph@, 0)[g],
            ) by {
                assert(ge[g] == kernels@[g].order as int);
            }
            assert(groups_renderable::<T>(graph@)) by {
                assert forall|g: int| 0 <= g < group_ends_from(graph@, 0).len() implies renderable(
                    graph@,
                    #[trigger] group_ends_from(graph@, 0)[g],
                ) && render_node::<T>(graph@, group_ends_from(graph@, 0)[g], 0).2
                    <= usize::MAX by {
                    assert(ge[g] == kernels@[g].order as int);
                }
            }
        }
        Ok(CompiledGraph::Jit { kernels, marker: PhantomData })
    }

    /// The run contract's result selection: the record with the maximum
    /// schedule position holds the graph's output once every kernel has
    /// been launched in increasing group order.
    pub fn result_kernel_index<T: DType>(&self, kernels: &Vec<CudaCompiledKernel<T>>) -> (r:
        Result<usize, Error>)
        ensures
            match r {
                Ok(g) => {
                    &&& (g as int) < kernels@.len()
                    &&& forall|g2: int|
                        0 <= g2 < kernels@.len() ==> (#[trigger] kernels@[g2].order)
                            <= kernels@[g as int].order
                },
                Err(e) => kernels@.len() == 0 && e is EmptyGraph,
            },
    {
        if kernels.len() == 0 {
            return Err(Error::EmptyGraph);
        }
        let n = kernels.len();
        let mut best: usize = 0;
        let mut g: usize = 1;
        while g < n
            invariant
                1 <= g <= n,
                n == kernels@.len(),
                (best as int) < g,
                forall|g2: int|
                    0 <= g2 < g ==> (#[trigger] kernels@[g2].order)
                        <= kernels@[best as int].order,
            decreases n - g,
        {
            if kernels[g].order > kernels[best].order {
                best = g;
            }
            g = g + 1;
        }
        Ok(best)
    }
}

/// Compiling the same graph twice produces identical kernel records: the
/// same sources, the same content hashes keying the same cache entries, in
/// the same order. A warm cache therefore serves exactly the kernels a
/// fresh compilation would produce.
pub proof fn lemma_jit_compile_deterministic<T: DType>(
    nodes: Seq<GraphNode<T>>,
    k1: Seq<CudaCompiledKernel<T>>,
    k2: Seq<CudaCompiledKernel<T>>,
)
    requires
        k1.len() == group_ends_from(nodes, 0).len(),
        k2.len() == group_ends_from(nodes, 0).len(),
        forall|g: int|
            0 <= g < k1.len() ==> kernel_matches(
                nodes,
                #[trigger] k1[g],
                group_ends_from(nodes, 0)[g],
            ),
        forall|g: int|
            0 <= g < k2.len() ==> kernel_matches(
                nodes,
                #[trigger] k2[g],
                group_ends_from(nodes, 0)[g],
            ),
    ensures
        k1.len() == k2.len(),
        forall|g: int|
            0 <= g < k1.len() ==> (#[trigger] k1[g]).key == k2[g].key && k1[g].source@
                == k2[g].source@ && k1[g].order == k2[g].order && k1[g].shape@ == k2[g].shape@,
{
    assert forall|g: int|
        0 <= g < k1.len() implies (#[trigger] k1[g]).key == k2[g].key && k1[g].source@
        == k2[g].source@ && k1[g].order == k2[g].order && k1[g].shape@ == k2[g].shape@ by {
        assert(kernel_matches(nodes, k1[g], group_ends_from(nodes, 0)[g]));
        assert(kernel_matches(nodes, k2[g], group_ends_from(nodes, 0)[g]));
    }
}

} // verus!
