//! CPU backend: a pooled-buffer interpreter that walks the graph in schedule
//! order, dispatching each node to an elementwise kernel or the batched
//! matrix multiply. The unary kernel runs data-parallel across a worker
//! pool; every kernel's result is pinned elementwise, so worker count and
//! scheduling order cannot show in the output.

use rayon::iter::IndexedParallelIterator;
use rayon::iter::IntoParallelRefIterator;
use rayon::iter::IntoParallelRefMutIterator;
use rayon::iter::ParallelIterator;
use vstd::prelude::*;

use crate::dtype::DType;
use crate::error::Error;
use crate::eval::{
    arange_exact, arange_ok_at, aranges_exact, binary_apply, deps_before, eval_node, graph_ok,
    inplace_target, node_shape_ok, numel, unary_apply,
};
use crate::gemm::{gemm_cell, gemm_dot, launch_gemm, lemma_flat_index_total};
use crate::graph::{op_deps, BinaryOpType, GraphNode, Op, UnaryOpType};
use crate::validate::check_graph;

verus! {

/// Node `u`'s buffer was taken over by an in-place operation among the
/// first `upto` nodes.
pub open spec fn consumed<T>(nodes: Seq<GraphNode<T>>, u: int, upto: int) -> bool {
    exists|w: int|
        0 <= w < upto && match #[trigger] inplace_target(nodes[w].op) {
            Some(out) => out.0 as int == u,
            None => false,
        }
}

/// A results-table slot holds node `u`'s finished buffer: present, sized to
/// the node's element count, and elementwise equal to the node's meaning.
pub open spec fn buffer_matches<T: DType>(
    nodes: Seq<GraphNode<T>>,
    u: int,
    slot: Option<Vec<T>>,
) -> bool {
    match slot {
        Some(buf) => {
            &&& buf@.len() == numel(nodes[u].shape@)
            &&& forall|i: int| 0 <= i < buf@.len() ==> buf@[i] == eval_node(nodes, u, i)
        },
        None => false,
    }
}

/// An operand read by node `v` cannot have been consumed by any in-place
/// node: the consumer of an aliased buffer is unique.
proof fn lemma_operand_available<T: DType>(nodes: Seq<GraphNode<T>>, v: int, j: int, upto: int)
    requires
        crate::eval::alias_safe(nodes),
        deps_before(nodes),
        0 <= v < nodes.len(),
        0 <= j < op_deps(nodes[v].op).len(),
        upto <= v,
    ensures
        !consumed(nodes, op_deps(nodes[v].op)[j] as int, upto),
{
    let d = op_deps(nodes[v].op)[j] as int;
    if consumed(nodes, d, upto) {
        let w = choose|w: int|
            0 <= w < upto && match #[trigger] inplace_target(nodes[w].op) {
                Some(out) => out.0 as int == d,
                None => false,
            };
        assert(w != v);
        assert(match inplace_target(nodes[w].op) {
            Some(out) => op_deps(nodes[v].op)[j] != out.0,
            None => true,
        });
        assert(false);
    }
}

/// Copy another buffer's values over this one.
fn copy_into<T: DType>(out: &mut Vec<T>, src: &Vec<T>)
    requires
        old(out)@.len() == src@.len(),
    ensures
        final(out)@.len() == src@.len(),
        forall|i: int| 0 <= i < src@.len() ==> final(out)@[i] == src@[i],
{
    let n = src.len();
    let mut i: usize = 0;
    while i < n
        invariant
            n == src@.len(),
            out@.len() == n,
            i <= n,
            forall|j: int| 0 <= j < i ==> out@[j] == src@[j],
        decreases n - i,
    {
        out[i] = src[i];
        i = i + 1;
    }
}

/// A three-axis shape's element count is the product of its extents.
proof fn lemma_numel3(shape: Seq<usize>)
    requires
        shape.len() == 3,
    ensures
        numel(shape) == (shape[0] as int) * (shape[1] as int) * (shape[2] as int),
{
    let s2 = shape;
    let s1 = shape.drop_last();
    let s0 = s1.drop_last();
    let se = s0.drop_last();
    assert(numel(se) == 1);
    assert(numel(s0) == numel(se) * (shape[0] as int));
    assert(numel(s0) == shape[0] as int) by (nonlinear_arith)
        requires
            numel(s0) == 1 * (shape[0] as int),
    ;
    assert(s0.last() == shape[0]);
    assert(s1.last() == shape[1]);
    assert(numel(s1) == numel(s0) * (shape[1] as int));
    assert(numel(s2) == numel(s1) * (shape[2] as int));
}

/// With the operand buffers holding the operand nodes' values, the
/// buffer-level contraction sum equals the graph-level one.
proof fn lemma_gemm_dot_matches<T: DType>(
    nodes: Seq<GraphNode<T>>,
    l: int,
    r: int,
    lbuf: Seq<T>,
    rbuf: Seq<T>,
    beta: T,
    bb: int,
    batch: int,
    row: int,
    col: int,
    p: int,
    k: int,
    m: int,
    n: int,
)
    requires
        0 <= l,
        0 <= r,
        lbuf.len() == bb * (m * k),
        rbuf.len() == bb * (k * n),
        forall|q: int| 0 <= q < lbuf.len() ==> lbuf[q] == eval_node(nodes, l, q),
        forall|q: int| 0 <= q < rbuf.len() ==> rbuf[q] == eval_node(nodes, r, q),
        0 <= batch < bb,
        0 <= row < m,
        0 <= col < n,
        0 <= p <= k,
    ensures
        gemm_dot(lbuf, rbuf, beta, batch, row, col, p, k, m, n) == crate::eval::gemm_sum(
            nodes,
            l,
            r,
            beta,
            batch,
            row,
            col,
            p,
            k,
            m,
            n,
        ),
    decreases p,
{
    if p > 0 {
        lemma_gemm_dot_matches(nodes, l, r, lbuf, rbuf, beta, bb, batch, row, col, p - 1, k, m, n);
        assert(0 <= batch * (m * k) + row * k + (p - 1) < bb * (m * k)) by (nonlinear_arith)
            requires
                0 <= batch < bb && 0 <= row < m && 0 < p <= k,
        ;
        assert(0 <= batch * (k * n) + (p - 1) * n + col < bb * (k * n)) by (nonlinear_arith)
            requires
                0 <= batch < bb && 0 <= col < n && 0 < p <= k,
        ;
    }
}

/// A free list of reusable value buffers. A buffer handed out is owned
/// exclusively by its user until given back, at which point its capacity
/// returns to the pool rather than being freed.
pub struct BufferPool<T: DType> {
    free: Vec<Vec<T>>,
}

impl<T: DType> BufferPool<T> {
    /// How many buffers wait on the free list.
    pub closed spec fn free_count(&self) -> int {
        self.free@.len() as int
    }

    /// A pool with nothing on its free list.
    pub fn new() -> (r: Self)
        ensures
            r.free_count() == 0,
    {
        BufferPool { free: Vec::new() }
    }

    /// A zero-filled buffer of the requested length, reusing a free
    /// buffer's storage when one is available.
    pub fn get_buffer(&mut self, len: usize) -> (r: Vec<T>)
        ensures
            r@.len() == len,
            forall|i: int| 0 <= i < len ==> r@[i] == T::zero_spec(),
    {
        let mut buf = match self.free.pop() {
            Some(b) => b,
            None => Vec::new(),
        };
        buf.clear();
        let mut i: usize = 0;
        while i < len
            invariant
                i <= len,
                buf@.len() == i,
                forall|j: int| 0 <= j < i ==> buf@[j] == T::zero_spec(),
            decreases len - i,
        {
            buf.push(T::zero());
            i = i + 1;
        }
        buf
    }

    /// Return a buffer's storage to the free list.
    pub fn give_back(&mut self, buf: Vec<T>)
        ensures
            final(self).free_count() == old(self).free_count() + 1,
    {
        self.free.push(buf);
    }
}

/// Apply a unary operator to one element.
fn unary_exec<T: DType>(op: UnaryOpType, x: T) -> (r: T)
    ensures
        r == unary_apply(op, x),
{
    match op {
        UnaryOpType::Neg => T::neg(x),
        UnaryOpType::Sqrt => T::sqrt(x),
    }
}

/// Apply a binary operator to one pair of elements.
fn binary_exec<T: DType>(op: BinaryOpType, a: T, b: T) -> (r: T)
    ensures
        r == binary_apply(op, a, b),
{
    match op {
        BinaryOpType::Add => T::add(a, b),
        BinaryOpType::Sub => T::sub(a, b),
        BinaryOpType::Mul => T::mul(a, b),
        BinaryOpType::Div => T::div(a, b),
    }
}

/// Elementwise unary kernel, data-parallel across the worker pool.
///
/// Relies on rayon: `par_iter_mut().zip(..).for_each(..)` over indexed
/// parallel iterators pairs the two buffers position by position and runs
/// the closure exactly once per position; the closure only calls the
/// verified per-element operation.
#[verifier::external_body]
fn par_unary_map<T: DType>(src: &Vec<T>, out: &mut Vec<T>, op: UnaryOpType)
    requires
        old(out)@.len() == src@.len(),
    ensures
        final(out)@.len() == src@.len(),
        forall|i: int| 0 <= i < src@.len() ==> final(out)@[i] == unary_apply(op, src@[i]),
{
    out.par_iter_mut().zip(src.par_iter()).for_each(|(o, x)| {
        *o = unary_exec::<T>(op, *x);
    });
}

/// Elementwise binary kernel into a fresh output buffer.
fn binary_map<T: DType>(l: &Vec<T>, r: &Vec<T>, out: &mut Vec<T>, op: BinaryOpType)
    requires
        r@.len() == l@.len(),
        old(out)@.len() == l@.len(),
    ensures
        final(out)@.len() == l@.len(),
        forall|i: int| 0 <= i < l@.len() ==> final(out)@[i] == binary_apply(op, l@[i], r@[i]),
{
    let n = l.len();
    let mut i: usize = 0;
    while i < n
        invariant
            n == l@.len(),
            r@.len() == n,
            out@.len() == n,
            i <= n,
            forall|j: int| 0 <= j < i ==> out@[j] == binary_apply(op, l@[j], r@[j]),
        decreases n - i,
    {
        out[i] = binary_exec(op, l[i], r[i]);
        i = i + 1;
    }
}

/// Elementwise binary kernel that overwrites its left operand's buffer.
fn binary_map_inplace_lhs<T: DType>(l: &mut Vec<T>, r: &Vec<T>, op: BinaryOpType)
    requires
        r@.len() == old(l)@.len(),
    ensures
        final(l)@.len() == old(l)@.len(),
        forall|i: int|
            0 <= i < old(l)@.len() ==> final(l)@[i] == binary_apply(op, old(l)@[i], r@[i]),
{
    let n = l.len();
    let mut i: usize = 0;
    while i < n
        invariant
            n == old(l)@.len(),
            l@.len() == n,
            r@.len() == n,
            i <= n,
            forall|j: int| 0 <= j < i ==> l@[j] == binary_apply(op, old(l)@[j], r@[j]),
            forall|j: int| i <= j < n ==> l@[j] == old(l)@[j],
        decreases n - i,
    {
        l[i] = binary_exec(op, l[i], r[i]);
        i = i + 1;
    }
}

/// Elementwise binary kernel that overwrites its right operand's buffer.
fn binary_map_inplace_rhs<T: DType>(l: &Vec<T>, r: &mut Vec<T>, op: BinaryOpType)
    requires
        old(r)@.len() == l@.len(),
    ensures
        final(r)@.len() == l@.len(),
        forall|i: int| 0 <= i < l@.len() ==> final(r)@[i] == binary_apply(op, l@[i], old(r)@[i]),
{
    let n = l.len();
    let mut i: usize = 0;
    while i < n
        invariant
            n == l@.len(),
            r@.len() == n,
            i <= n,
            forall|j: int| 0 <= j < i ==> r@[j] == binary_apply(op, l@[j], old(r)@[j]),
            forall|j: int| i <= j < n ==> r@[j] == old(r)@[j],
        decreases n - i,
    {
        r[i] = binary_exec(op, l[i], r[i]);
        i = i + 1;
    }
}

/// Fused multiply-add kernel into a fresh output buffer.
fn fma_map<T: DType>(a: &Vec<T>, b: &Vec<T>, c: &Vec<T>, out: &mut Vec<T>)
    requires
        b@.len() == a@.len(),
        c@.len() == a@.len(),
        old(out)@.len() == a@.len(),
    ensures
        final(out)@.len() == a@.len(),
        forall|i: int|
            0 <= i < a@.len() ==> final(out)@[i] == T::add_spec(
                T::mul_spec(a@[i], b@[i]),
                c@[i],
            ),
{
    let n = a.len();
    let mut i: usize = 0;
    while i < n
        invariant
            n == a@.len(),
            b@.len() == n,
            c@.len() == n,
            out@.len() == n,
            i <= n,
            forall|j: int|
                0 <= j < i ==> out@[j] == T::add_spec(T::mul_spec(a@[j], b@[j]), c@[j]),
        decreases n - i,
    {
        out[i] = T::add(T::mul(a[i], b[i]), c[i]);
        i = i + 1;
    }
}

/// Fused multiply-add overwriting the buffer of `a`.
fn fma_map_inplace_a<T: DType>(a: &mut Vec<T>, b: &Vec<T>, c: &Vec<T>)
    requires
        b@.len() == old(a)@.len(),
        c@.len() == old(a)@.len(),
    ensures
        final(a)@.len() == old(a)@.len(),
        forall|i: int|
            0 <= i < old(a)@.len() ==> final(a)@[i] == T::add_spec(
                T::mul_spec(old(a)@[i], b@[i]),
                c@[i],
            ),
{
    let n = a.len();
    let mut i: usize = 0;
    while i < n
        invariant
            n == old(a)@.len(),
            a@.len() == n,
            b@.len() == n,
            c@.len() == n,
            i <= n,
            forall|j: int|
                0 <= j < i ==> a@[j] == T::add_spec(T::mul_spec(old(a)@[j], b@[j]), c@[j]),
            forall|j: int| i <= j < n ==> a@[j] == old(a)@[j],
        decreases n - i,
    {
        a[i] = T::add(T::mul(a[i], b[i]), c[i]);
        i = i + 1;
    }
}

/// Fused multiply-add overwriting the buffer of `b`.
fn fma_map_inplace_b<T: DType>(a: &Vec<T>, b: &mut Vec<T>, c: &Vec<T>)
    requires
        old(b)@.len() == a@.len(),
        c@.len() == a@.len(),
    ensures
        final(b)@.len() == a@.len(),
        forall|i: int|
            0 <= i < a@.len() ==> final(b)@[i] == T::add_spec(
                T::mul_spec(a@[i], old(b)@[i]),
                c@[i],
            ),
{
    let n = a.len();
    let mut i: usize = 0;
    while i < n
        invariant
            n == a@.len(),
            b@.len() == n,
            c@.len() == n,
            i <= n,
            forall|j: int|
                0 <= j < i ==> b@[j] == T::add_spec(T::mul_spec(a@[j], old(b)@[j]), c@[j]),
            forall|j: int| i <= j < n ==> b@[j] == old(b)@[j],
        decreases n - i,
    {
        b[i] = T::add(T::mul(a[i], b[i]), c[i]);
        i = i + 1;
    }
}

/// Fused multiply-add overwriting the buffer of `c`.
fn fma_map_inplace_c<T: DType>(a: &Vec<T>, b: &Vec<T>, c: &mut Vec<T>)
    requires
        b@.len() == a@.len(),
        old(c)@.len() == a@.len(),
    ensures
        final(c)@.len() == a@.len(),
        forall|i: int|
            0 <= i < a@.len() ==> final(c)@[i] == T::add_spec(
                T::mul_spec(a@[i], b@[i]),
                old(c)@[i],
            ),
{
    let n = a.len();
    let mut i: usize = 0;
    while i < n
        invariant
            n == a@.len(),
            b@.len() == n,
            c@.len() == n,
            i <= n,
            forall|j: int|
                0 <= j < i ==> c@[j] == T::add_spec(T::mul_spec(a@[j], b@[j]), old(c)@[j]),
            forall|j: int| i <= j < n ==> c@[j] == old(c)@[j],
        decreases n - i,
    {
        c[i] = T::add(T::mul(a[i], b[i]), c[i]);
        i = i + 1;
    }
}

/// Overwrite every element of a buffer with one constant.
fn fill_into<T: DType>(out: &mut Vec<T>, v: T)
    ensures
        final(out)@.len() == old(out)@.len(),
        forall|i: int| 0 <= i < old(out)@.len() ==> final(out)@[i] == v,
{
    let n = out.len();
    let mut i: usize = 0;
    while i < n
        invariant
            n == old(out)@.len(),
            out@.len() == n,
            i <= n,
            forall|j: int| 0 <= j < i ==> out@[j] == v,
        decreases n - i,
    {
        out[i] = v;
        i = i + 1;
    }
}

/// An in-place operation overwrites an earlier node's buffer.
proof fn lemma_inplace_target_before<T: DType>(nodes: Seq<GraphNode<T>>, w: int)
    requires
        0 <= w < nodes.len(),
        node_shape_ok(nodes, w),
        deps_before(nodes),
    ensures
        match inplace_target(nodes[w].op) {
            Some(out) => (out.0 as int) < w,
            None => true,
        },
{
    match nodes[w].op {
        Op::InplaceBinaryOp { out_id, l_id, r_id, .. } => {
            assert(op_deps(nodes[w].op)[0] == l_id.0 && (op_deps(nodes[w].op)[0] as int) < w);
            assert(op_deps(nodes[w].op)[1] == r_id.0 && (op_deps(nodes[w].op)[1] as int) < w);
        },
        Op::InplaceFusedMulAdd { a_id, b_id, c_id, out_id } => {
            assert(op_deps(nodes[w].op)[0] == a_id.0 && (op_deps(nodes[w].op)[0] as int) < w);
            assert(op_deps(nodes[w].op)[1] == b_id.0 && (op_deps(nodes[w].op)[1] as int) < w);
            assert(op_deps(nodes[w].op)[2] == c_id.0 && (op_deps(nodes[w].op)[2] as int) < w);
        },
        _ => {},
    }
}

/// Generate an arithmetic sequence into a buffer of the declared element
/// count; reports whether the loop condition `x < stop` produces exactly
/// that count.
fn arange_fill<T: DType>(out: &mut Vec<T>, start: T, step: T, stop: T) -> (ok: bool)
    ensures
        final(out)@.len() == old(out)@.len(),
        ok == crate::eval::arange_exact::<T>(start, step, stop, old(out)@.len() as int),
        ok ==> forall|i: int|
            0 <= i < old(out)@.len() ==> final(out)@[i] == crate::eval::arange_val(
                start,
                step,
                i,
            ),
{
    let n = out.len();
    let mut x = start;
    let mut i: usize = 0;
    while i < n
        invariant
            n == old(out)@.len(),
            out@.len() == n,
            i <= n,
            x == crate::eval::arange_val(start, step, i as int),
            forall|j: int| 0 <= j < i ==> out@[j] == crate::eval::arange_val(start, step, j),
            forall|j: int|
                0 <= j < i ==> T::lt_spec(
                    #[trigger] crate::eval::arange_val(start, step, j),
                    stop,
                ),
        decreases n - i,
    {
        if !T::lt(x, stop) {
            return false;
        }
        out[i] = x;
        x = T::add(x, step);
        i = i + 1;
    }
    if T::lt(x, stop) {
        return false;
    }
    true
}

/// After a node with no in-place target finishes, every earlier finished
/// buffer still matches, and so does the new one.
proof fn lemma_step_plain<T: DType>(
    nodes: Seq<GraphNode<T>>,
    pre: Seq<Option<Vec<T>>>,
    cur: Seq<Option<Vec<T>>>,
    v: int,
)
    requires
        0 <= v < nodes.len(),
        pre.len() == nodes.len(),
        cur.len() == nodes.len(),
        cur =~= pre.update(v, cur[v]),
        inplace_target(nodes[v].op) is None,
        forall|u: int|
            0 <= u < v && !(nodes[u].op is NoOp) && !consumed(nodes, u, v)
                ==> #[trigger] buffer_matches(nodes, u, pre[u]),
        buffer_matches(nodes, v, cur[v]) || nodes[v].op is NoOp,
    ensures
        forall|u: int|
            0 <= u < v + 1 && !(nodes[u].op is NoOp) && !consumed(nodes, u, v + 1)
                ==> #[trigger] buffer_matches(nodes, u, cur[u]),
{
    assert forall|u: int|
        0 <= u < v + 1 && !(nodes[u].op is NoOp) && !consumed(nodes, u, v + 1)
            implies #[trigger] buffer_matches(nodes, u, cur[u]) by {
        if u < v {
            assert(cur[u] == pre[u]);
            if consumed(nodes, u, v) {
                let w = choose|w: int|
                    0 <= w < v && match #[trigger] inplace_target(nodes[w].op) {
                        Some(out) => out.0 as int == u,
                        None => false,
                    };
                assert(consumed(nodes, u, v + 1));
            }
            assert(buffer_matches(nodes, u, pre[u]));
        }
    }
}

/// After an in-place node finishes, the buffer it consumed is accounted
/// consumed; everything else still matches.
proof fn lemma_step_inplace<T: DType>(
    nodes: Seq<GraphNode<T>>,
    pre: Seq<Option<Vec<T>>>,
    cur: Seq<Option<Vec<T>>>,
    v: int,
    out: int,
)
    requires
        0 <= v < nodes.len(),
        pre.len() == nodes.len(),
        cur.len() == nodes.len(),
        0 <= out < v,
        match inplace_target(nodes[v].op) {
            Some(o) => o.0 as int == out,
            None => false,
        },
        cur =~= pre.update(out, None).update(v, cur[v]),
        forall|u: int|
            0 <= u < v && !(nodes[u].op is NoOp) && !consumed(nodes, u, v)
                ==> #[trigger] buffer_matches(nodes, u, pre[u]),
        buffer_matches(nodes, v, cur[v]),
    ensures
        forall|u: int|
            0 <= u < v + 1 && !(nodes[u].op is NoOp) && !consumed(nodes, u, v + 1)
                ==> #[trigger] buffer_matches(nodes, u, cur[u]),
{
    assert(consumed(nodes, out, v + 1)) by {
        assert(0 <= v < v + 1 && match inplace_target(nodes[v].op) {
            Some(o) => o.0 as int == out,
            None => false,
        });
    }
    assert forall|u: int|
        0 <= u < v + 1 && !(nodes[u].op is NoOp) && !consumed(nodes, u, v + 1)
            implies #[trigger] buffer_matches(nodes, u, cur[u]) by {
        if u < v {
            assert(u != out);
            assert(cur[u] == pre[u]);
            if consumed(nodes, u, v) {
                let w = choose|w: int|
                    0 <= w < v && match #[trigger] inplace_target(nodes[w].op) {
                        Some(o) => o.0 as int == u,
                        None => false,
                    };
                assert(consumed(nodes, u, v + 1));
            }
            assert(buffer_matches(nodes, u, pre[u]));
        }
    }
}

/// Elementwise results are independent of worker-thread count and
/// scheduling order: every buffer the executor can hand back for a graph
/// equals the graph's meaning pointwise, so two runs of the same graph
/// yield identical values, element by element.
pub proof fn lemma_run_deterministic<T: DType>(nodes: Seq<GraphNode<T>>, d1: Seq<T>, d2: Seq<T>)
    requires
        nodes.len() > 0,
        d1.len() == numel(nodes[nodes.len() - 1].shape@),
        d2.len() == numel(nodes[nodes.len() - 1].shape@),
        forall|i: int| 0 <= i < d1.len() ==> d1[i] == eval_node(nodes, nodes.len() - 1, i),
        forall|i: int| 0 <= i < d2.len() ==> d2[i] == eval_node(nodes, nodes.len() - 1, i),
    ensures
        d1 =~= d2,
{
}

/// Fetch a finished operand buffer from the results table.
fn operand_buf<'a, T: DType>(results: &'a Vec<Option<Vec<T>>>, d: usize) -> (r: &'a Vec<T>)
    requires
        (d as int) < results@.len(),
        results@[d as int] is Some,
    ensures
        Some(*r) == results@[d as int],
{
    match &results[d] {
        Some(b) => b,
        None => vstd::pervasive::unreached(),
    }
}

/// Evaluate a validated graph: walk the nodes in schedule order (ascending
/// index, which the construction invariant makes a valid topological
/// order), resolve operand buffers from a results table populated as nodes
/// complete, and dispatch each node to its kernel. The returned buffer is
/// the last node's output, pinned elementwise to the graph's meaning.
pub fn execute_graph<T: DType>(nodes: &Vec<GraphNode<T>>, numels: &Vec<usize>) -> (r: Result<
    Vec<T>,
    Error,
>)
    requires
        graph_ok(nodes@),
        numels@.len() == nodes@.len(),
        forall|u: int|
            0 <= u < nodes@.len() ==> (#[trigger] numels@[u]) as int == numel(nodes@[u].shape@),
    ensures
        match r {
            Ok(data) => {
                &&& aranges_exact(nodes@)
                &&& data@.len() == numel(nodes@[nodes@.len() - 1].shape@)
                &&& forall|i: int|
                    0 <= i < data@.len() ==> data@[i] == eval_node(
                        nodes@,
                        nodes@.len() - 1,
                        i,
                    )
            },
            Err(e) => !aranges_exact(nodes@) && e is ShapeMismatch,
        },
{
    let n = nodes.len();
    let mut pool = BufferPool::<T>::new();
    let mut results: Vec<Option<Vec<T>>> = Vec::new();
    let mut s: usize = 0;
    while s < n
        invariant
            s <= n,
            results@.len() == s,
        decreases n - s,
    {
        results.push(None);
        s = s + 1;
    }
    let mut v: usize = 0;
    while v < n
        invariant
            n == nodes@.len(),
            graph_ok(nodes@),
            numels@.len() == n,
            forall|u: int|
                0 <= u < n ==> (#[trigger] numels@[u]) as int == numel(nodes@[u].shape@),
            results@.len() == n,
            v <= n,
            forall|u: int| 0 <= u < v ==> #[trigger] arange_ok_at(nodes@, u),
            forall|u: int|
                0 <= u < v && !(nodes@[u].op is NoOp) && !consumed(nodes@, u, v as int)
                    ==> #[trigger] buffer_matches(nodes@, u, results@[u]),
        decreases n - v,
    {
        let ghost pre = results@;
        let count = numels[v];
        proof {
            assert(node_shape_ok(nodes@, v as int));
        }
        match &nodes[v].op {
            Op::NoOp => {
                proof {
                    lemma_step_plain(nodes@, pre, results@, v as int);
                    assert(arange_ok_at(nodes@, v as int));
                }
            },
            Op::Fill { v: val } => {
                let mut buf = pool.get_buffer(count);
                fill_into(&mut buf, *val);
                results[v] = Some(buf);
                proof {
                    assert(buffer_matches(nodes@, v as int, results@[v as int]));
                    assert(results@ =~= pre.update(v as int, results@[v as int]));
                    lemma_step_plain(nodes@, pre, results@, v as int);
                    assert(arange_ok_at(nodes@, v as int));
                }
            },
            Op::Arange { start, step, stop } => {
                let mut buf = pool.get_buffer(count);
                if !arange_fill(&mut buf, *start, *step, *stop) {
                    proof {
                        assert(!arange_ok_at(nodes@, v as int));
                        assert(!aranges_exact(nodes@));
                    }
                    return Err(Error::ShapeMismatch { node: v });
                }
                results[v] = Some(buf);
                proof {
                    assert forall|i: int|
                        0 <= i < count as int implies results@[v as int].unwrap()@[i] == eval_node(
                        nodes@,
                        v as int,
                        i,
                    ) by {}
                    assert(buffer_matches(nodes@, v as int, results@[v as int]));
                    assert(results@ =~= pre.update(v as int, results@[v as int]));
                    lemma_step_plain(nodes@, pre, results@, v as int);
                    assert(arange_ok_at(nodes@, v as int));
                }
            },
            Op::UnaryOp { v_id, operator } => {
                let d = v_id.get();
                proof {
                    assert(op_deps(nodes@[v as int].op)[0] == v_id.0);
                    assert((op_deps(nodes@[v as int].op)[0] as int) < v);
                    lemma_operand_available(nodes@, v as int, 0, v as int);
                    assert(buffer_matches(nodes@, d as int, results@[d as int]));
                }
                let mut out = pool.get_buffer(count);
                let src = operand_buf(&results, d);
                par_unary_map(src, &mut out, *operator);
                proof {
                    assert forall|i: int|
                        0 <= i < count as int implies out@[i] == eval_node(
                        nodes@,
                        v as int,
                        i,
                    ) by {
                        assert(src@[i] == eval_node(nodes@, d as int, i));
                    }
                }
                results[v] = Some(out);
                proof {
                    assert(buffer_matches(nodes@, v as int, results@[v as int]));
                    assert(results@ =~= pre.update(v as int, results@[v as int]));
                    lemma_step_plain(nodes@, pre, results@, v as int);
                    assert(arange_ok_at(nodes@, v as int));
                }
            },
            Op::BinaryOp { l_id, r_id, operator } => {
                let l = l_id.get();
                let rr = r_id.get();
                proof {
                    assert(op_deps(nodes@[v as int].op)[0] == l_id.0);
                    assert(op_deps(nodes@[v as int].op)[1] == r_id.0);
                    assert((op_deps(nodes@[v as int].op)[0] as int) < v);
                    assert((op_deps(nodes@[v as int].op)[1] as int) < v);
                    lemma_operand_available(nodes@, v as int, 0, v as int);
                    lemma_operand_available(nodes@, v as int, 1, v as int);
                    assert(buffer_matches(nodes@, l as int, results@[l as int]));
                    assert(buffer_matches(nodes@, rr as int, results@[rr as int]));
                }
                let mut out = pool.get_buffer(count);
                let lb = operand_buf(&results, l);
                let rb = operand_buf(&results, rr);
                binary_map(lb, rb, &mut out, *operator);
                proof {
                    assert forall|i: int|
                        0 <= i < count as int implies out@[i] == eval_node(
                        nodes@,
                        v as int,
                        i,
                    ) by {
                        assert(lb@[i] == eval_node(nodes@, l as int, i));
                        assert(rb@[i] == eval_node(nodes@, rr as int, i));
                    }
                }
                results[v] = Some(out);
                proof {
                    assert(buffer_matches(nodes@, v as int, results@[v as int]));
                    assert(results@ =~= pre.update(v as int, results@[v as int]));
                    lemma_step_plain(nodes@, pre, results@, v as int);
                    assert(arange_ok_at(nodes@, v as int));
                }
            },
            Op::InplaceBinaryOp { out_id, l_id, r_id, operator } => {
                let l = l_id.get();
                let rr = r_id.get();
                proof {
                    assert(op_deps(nodes@[v as int].op)[0] == l_id.0);
                    assert(op_deps(nodes@[v as int].op)[1] == r_id.0);
                    assert((op_deps(nodes@[v as int].op)[0] as int) < v);
                    assert((op_deps(nodes@[v as int].op)[1] as int) < v);
                    lemma_operand_available(nodes@, v as int, 0, v as int);
                    lemma_operand_available(nodes@, v as int, 1, v as int);
                    assert(buffer_matches(nodes@, l as int, results@[l as int]));
                    assert(buffer_matches(nodes@, rr as int, results@[rr as int]));
                }
                if *out_id == *l_id {
                    let taken = results[l].take();
                    let ghost mid = results@;
                    let mut lbuf = match taken {
                        Some(b) => b,
                        None => vstd::pervasive::unreached(),
                    };
                    let ghost lbuf0 = lbuf@;
                    proof {
                        assert(pre[l as int] == Some(lbuf));
                    }
                    let rb = operand_buf(&results, rr);
                    binary_map_inplace_lhs(&mut lbuf, rb, *operator);
                    proof {
                        assert forall|i: int|
                            0 <= i < count as int implies lbuf@[i] == eval_node(
                            nodes@,
                            v as int,
                            i,
                        ) by {
                            assert(lbuf0[i] == eval_node(nodes@, l as int, i));
                            assert(rb@[i] == eval_node(nodes@, rr as int, i));
                        }
                    }
                    results[v] = Some(lbuf);
                    proof {
                        assert(buffer_matches(nodes@, v as int, results@[v as int]));
                        assert(mid =~= pre.update(l as int, None));
                        assert(results@ =~= pre.update(l as int, None).update(
                            v as int,
                            results@[v as int],
                        ));
                        lemma_step_inplace(nodes@, pre, results@, v as int, l as int);
                        assert(arange_ok_at(nodes@, v as int));
                    }
                } else {
                    let taken = results[rr].take();
                    let ghost mid = results@;
                    let mut rbuf = match taken {
                        Some(b) => b,
                        None => vstd::pervasive::unreached(),
                    };
                    let ghost rbuf0 = rbuf@;
                    proof {
                        assert(pre[rr as int] == Some(rbuf));
                    }
                    let lb = operand_buf(&results, l);
                    binary_map_inplace_rhs(lb, &mut rbuf, *operator);
                    proof {
                        assert(*out_id == *r_id);
                        assert forall|i: int|
                            0 <= i < count as int implies rbuf@[i] == eval_node(
                            nodes@,
                            v as int,
                            i,
                        ) by {
                            assert(rbuf0[i] == eval_node(nodes@, rr as int, i));
                            assert(lb@[i] == eval_node(nodes@, l as int, i));
                        }
                    }
                    results[v] = Some(rbuf);
                    proof {
                        assert(buffer_matches(nodes@, v as int, results@[v as int]));
                        assert(mid =~= pre.update(rr as int, None));
                        assert(results@ =~= pre.update(rr as int, None).update(
                            v as int,
                            results@[v as int],
                        ));
                        lemma_step_inplace(nodes@, pre, results@, v as int, rr as int);
                        assert(arange_ok_at(nodes@, v as int));
                    }
                }
            },
            Op::FusedMulAdd { a_id, b_id, c_id } => {
                let a = a_id.get();
                let b = b_id.get();
                let c = c_id.get();
                proof {
                    assert(op_deps(nodes@[v as int].op)[0] == a_id.0);
                    assert(op_deps(nodes@[v as int].op)[1] == b_id.0);
                    assert(op_deps(nodes@[v as int].op)[2] == c_id.0);
                    assert((op_deps(nodes@[v as int].op)[0] as int) < v);
                    assert((op_deps(nodes@[v as int].op)[1] as int) < v);
                    assert((op_deps(nodes@[v as int].op)[2] as int) < v);
                    lemma_operand_available(nodes@, v as int, 0, v as int);
                    lemma_operand_available(nodes@, v as int, 1, v as int);
                    lemma_operand_available(nodes@, v as int, 2, v as int);
                    assert(buffer_matches(nodes@, a as int, results@[a as int]));
                    assert(buffer_matches(nodes@, b as int, results@[b as int]));
                    assert(buffer_matches(nodes@, c as int, results@[c as int]));
                }
                let mut out = pool.get_buffer(count);
                let ab = operand_buf(&results, a);
                let bb = operand_buf(&results, b);
                let cb = operand_buf(&results, c);
                fma_map(ab, bb, cb, &mut out);
                proof {
                    assert forall|i: int|
                        0 <= i < count as int implies out@[i] == eval_node(
                        nodes@,
                        v as int,
                        i,
                    ) by {
                        assert(ab@[i] == eval_node(nodes@, a as int, i));
                        assert(bb@[i] == eval_node(nodes@, b as int, i));
                        assert(cb@[i] == eval_node(nodes@, c as int, i));
                    }
                }
                results[v] = Some(out);
                proof {
                    assert(buffer_matches(nodes@, v as int, results@[v as int]));
                    assert(results@ =~= pre.update(v as int, results@[v as int]));
                    lemma_step_plain(nodes@, pre, results@, v as int);
                    assert(arange_ok_at(nodes@, v as int));
                }
            },
            Op::InplaceFusedMulAdd { a_id, b_id, c_id, out_id } => {
                let a = a_id.get();
                let b = b_id.get();
                let c = c_id.get();
                proof {
                    assert(op_deps(nodes@[v as int].op)[0] == a_id.0);
                    assert(op_deps(nodes@[v as int].op)[1] == b_id.0);
                    assert(op_deps(nodes@[v as int].op)[2] == c_id.0);
                    assert((op_deps(nodes@[v as int].op)[0] as int) < v);
                    assert((op_deps(nodes@[v as int].op)[1] as int) < v);
                    assert((op_deps(nodes@[v as int].op)[2] as int) < v);
                    lemma_operand_available(nodes@, v as int, 0, v as int);
                    lemma_operand_available(nodes@, v as int, 1, v as int);
                    lemma_operand_available(nodes@, v as int, 2, v as int);
                    assert(buffer_matches(nodes@, a as int, results@[a as int]));
                    assert(buffer_matches(nodes@, b as int, results@[b as int]));
                    assert(buffer_matches(nodes@, c as int, results@[c as int]));
                }
                if *out_id == *a_id {
                    let taken = results[a].take();
                    let ghost mid = results@;
                    let mut abuf = match taken {
                        Some(x) => x,
                        None => vstd::pervasive::unreached(),
                    };
                    let ghost abuf0 = abuf@;
                    proof {
                        assert(pre[a as int] == Some(abuf));
                    }
                    let bb = operand_buf(&results, b);
                    let cb = operand_buf(&results, c);
                    fma_map_inplace_a(&mut abuf, bb, cb);
                    proof {
                        assert forall|i: int|
                            0 <= i < count as int implies abuf@[i] == eval_node(
                            nodes@,
                            v as int,
                            i,
                        ) by {
                            assert(abuf0[i] == eval_node(nodes@, a as int, i));
                            assert(bb@[i] == eval_node(nodes@, b as int, i));
                            assert(cb@[i] == eval_node(nodes@, c as int, i));
                        }
                    }
                    results[v] = Some(abuf);
                    proof {
                        assert(buffer_matches(nodes@, v as int, results@[v as int]));
                        assert(mid =~= pre.update(a as int, None));
                        assert(results@ =~= pre.update(a as int, None).update(
                            v as int,
                            results@[v as int],
                        ));
                        lemma_step_inplace(nodes@, pre, results@, v as int, a as int);
                        assert(arange_ok_at(nodes@, v as int));
                    }
                } else if *out_id == *b_id {
                    let taken = results[b].take();
                    let ghost mid = results@;
                    let mut bbuf = match taken {
                        Some(x) => x,
                        None => vstd::pervasive::unreached(),
                    };
                    let ghost bbuf0 = bbuf@;
                    proof {
                        assert(pre[b as int] == Some(bbuf));
                    }
                    let ab = operand_buf(&results, a);
                    let cb = operand_buf(&results, c);
                    fma_map_inplace_b(ab, &mut bbuf, cb);
                    proof {
                        assert forall|i: int|
                            0 <= i < count as int implies bbuf@[i] == eval_node(
                            nodes@,
                            v as int,
                            i,
                        ) by {
                            assert(bbuf0[i] == eval_node(nodes@, b as int, i));
                            assert(ab@[i] == eval_node(nodes@, a as int, i));
                            assert(cb@[i] == eval_node(nodes@, c as int, i));
                        }
                    }
                    results[v] = Some(bbuf);
                    proof {
                        assert(buffer_matches(nodes@, v as int, results@[v as int]));
                        assert(mid =~= pre.update(b as int, None));
                        assert(results@ =~= pre.update(b as int, None).update(
                            v as int,
                            results@[v as int],
                        ));
                        lemma_step_inplace(nodes@, pre, results@, v as int, b as int);
                        assert(arange_ok_at(nodes@, v as int));
                    }
                } else {
                    let taken = results[c].take();
                    let ghost mid = results@;
                    let mut cbuf = match taken {
                        Some(x) => x,
                        None => vstd::pervasive::unreached(),
                    };
                    let ghost cbuf0 = cbuf@;
                    proof {
                        assert(pre[c as int] == Some(cbuf));
                    }
                    let ab = operand_buf(&results, a);
                    let bb = operand_buf(&results, b);
                    fma_map_inplace_c(ab, bb, &mut cbuf);
                    proof {
                        assert(*out_id == *c_id);
                        assert forall|i: int|
                            0 <= i < count as int implies cbuf@[i] == eval_node(
                            nodes@,
                            v as int,
                            i,
                        ) by {
                            assert(cbuf0[i] == eval_node(nodes@, c as int, i));
                            assert(ab@[i] == eval_node(nodes@, a as int, i));
                            assert(bb@[i] == eval_node(nodes@, b as int, i));
                        }
                    }
                    results[v] = Some(cbuf);
                    proof {
                        assert(buffer_matches(nodes@, v as int, results@[v as int]));
                        assert(mid =~= pre.update(c as int, None));
                        assert(results@ =~= pre.update(c as int, None).update(
                            v as int,
                            results@[v as int],
                        ));
                        lemma_step_inplace(nodes@, pre, results@, v as int, c as int);
                        assert(arange_ok_at(nodes@, v as int));
                    }
                }
            },
            Op::MatMul { l_id, r_id, o_id, k, alpha, beta } => {
                let l = l_id.get();
                let rr = r_id.get();
                proof {
                    assert(op_deps(nodes@[v as int].op)[0] == l_id.0);
                    assert(op_deps(nodes@[v as int].op)[1] == r_id.0);
                    assert((op_deps(nodes@[v as int].op)[0] as int) < v);
                    assert((op_deps(nodes@[v as int].op)[1] as int) < v);
                    lemma_operand_available(nodes@, v as int, 0, v as int);
                    lemma_operand_available(nodes@, v as int, 1, v as int);
                    assert(buffer_matches(nodes@, l as int, results@[l as int]));
                    assert(buffer_matches(nodes@, rr as int, results@[rr as int]));
                    lemma_numel3(nodes@[v as int].shape@);
                }
                let shape = &nodes[v].shape;
                let sb = shape[0];
                let sm = shape[1];
                let sn = shape[2];
                let mut out = pool.get_buffer(count);
                match o_id {
                    Some(o) => {
                        let oi = o.get();
                        proof {
                            assert(op_deps(nodes@[v as int].op)[2] == o.0);
                            assert((op_deps(nodes@[v as int].op)[2] as int) < v);
                            lemma_operand_available(nodes@, v as int, 2, v as int);
                            assert(buffer_matches(nodes@, oi as int, results@[oi as int]));
                        }
                        let ob = operand_buf(&results, oi);
                        copy_into(&mut out, ob);
                    },
                    None => {},
                }
                let ghost out_before = out@;
                let lb = operand_buf(&results, l);
                let rb = operand_buf(&results, rr);
                proof {
                    assert(lb@.len() as int == (sb as int) * ((sm as int) * (k as int)))
                        by (nonlinear_arith)
                        requires
                            lb@.len() as int == (sb as int) * (sm as int) * (k as int),
                    ;
                    assert(rb@.len() as int == (sb as int) * ((k as int) * (sn as int)))
                        by (nonlinear_arith)
                        requires
                            rb@.len() as int == (sb as int) * (k as int) * (sn as int),
                    ;
                    assert(out@.len() as int == (sb as int) * ((sm as int) * (sn as int)))
                        by (nonlinear_arith)
                        requires
                            out@.len() as int == (sb as int) * (sm as int) * (sn as int),
                    ;
                }
                launch_gemm(lb, rb, sb, sm, sn, *k, &mut out, *alpha, *beta);
                proof {
                    assert forall|i: int|
                        0 <= i < count as int implies out@[i] == eval_node(
                        nodes@,
                        v as int,
                        i,
                    ) by {
                        let mi = sm as int;
                        let ni = sn as int;
                        let bbn = sb as int;
                        assert(0 < mi && 0 < ni && i < bbn * (mi * ni)) by (nonlinear_arith)
                            requires
                                0 <= i && (i as int) < (bbn) * mi * ni && 0 <= mi && 0 <= ni && 0
                                    <= bbn,
                        ;
                        lemma_flat_index_total(mi, ni, bbn, i);
                        let bi = i / (mi * ni);
                        let row = (i % (mi * ni)) / ni;
                        let col = i % ni;
                        assert(out@[bi * (mi * ni) + row * ni + col] == gemm_cell(
                            lb@,
                            rb@,
                            out_before[bi * (mi * ni) + row * ni + col],
                            *alpha,
                            *beta,
                            bi,
                            row,
                            col,
                            *k as int,
                            mi,
                            ni,
                        ));
                        lemma_gemm_dot_matches(
                            nodes@,
                            l as int,
                            rr as int,
                            lb@,
                            rb@,
                            *beta,
                            bbn,
                            bi,
                            row,
                            col,
                            *k as int,
                            *k as int,
                            mi,
                            ni,
                        );
                        match o_id {
                            Some(o) => {
                                assert(out_before[i] == eval_node(nodes@, o.0 as int, i));
                            },
                            None => {
                                assert(out_before[i] == T::zero_spec());
                            },
                        }
                    }
                }
                results[v] = Some(out);
                proof {
                    assert(buffer_matches(nodes@, v as int, results@[v as int]));
                    assert(results@ =~= pre.update(v as int, results@[v as int]));
                    lemma_step_plain(nodes@, pre, results@, v as int);
                    assert(arange_ok_at(nodes@, v as int));
                }
            },
        }
        v = v + 1;
    }
    // Detach the result buffer, then return the rest to the pool.
    proof {
        assert(!consumed(nodes@, n - 1 as int, n as int)) by {
            if consumed(nodes@, n - 1 as int, n as int) {
                let w = choose|w: int|
                    0 <= w < n && match #[trigger] inplace_target(nodes@[w].op) {
                        Some(out) => out.0 as int == n - 1,
                        None => false,
                    };
                assert(node_shape_ok(nodes@, w));
                lemma_inplace_target_before(nodes@, w);
            }
        }
        assert(buffer_matches(nodes@, n - 1 as int, results@[n - 1 as int]));
    }
    let taken = results[n - 1].take();
    let data = match taken {
        Some(b) => b,
        None => vstd::pervasive::unreached(),
    };
    let mut w: usize = 0;
    while w < n
        invariant
            w <= n,
            n == results@.len(),
        decreases n - w,
    {
        let leftover = results[w].take();
        match leftover {
            Some(b) => {
                pool.give_back(b);
            },
            None => {},
        }
        w = w + 1;
    }
    Ok(data)
}

/// The host CPU as an execution device.
pub struct CpuDevice;

/// Concrete host storage: the flat row-major values of one tensor.
pub struct CpuStorage<T: DType>(pub Vec<T>);

impl<T: DType> CpuStorage<T> {
    /// The stored values, for use in specifications.
    pub open spec fn view_data(&self) -> Seq<T> {
        self.0@
    }

    /// Copy the values into host storage; for CPU storage that is a plain
    /// copy.
    pub fn to_cpu_storage(&self) -> (r: CpuStorage<T>)
        ensures
            r.view_data() =~= self.view_data(),
    {
        let n = self.0.len();
        let mut data: Vec<T> = Vec::new();
        let mut i: usize = 0;
        while i < n
            invariant
                i <= n,
                n == self.0@.len(),
                data@.len() == i,
                forall|j: int| 0 <= j < i ==> data@[j] == self.0@[j],
            decreases n - i,
        {
            data.push(self.0[i]);
            i = i + 1;
        }
        CpuStorage(data)
    }
}

impl CpuDevice {
    /// Validate, schedule and interpret a graph on the host, returning the
    /// final node's buffer. Succeeds exactly when the graph is well formed
    /// and every `Arange` fills its declared element count; the result is
    /// then the graph's meaning, element by element.
    pub fn compile_and_run_graph<T: DType>(&self, graph: &Vec<GraphNode<T>>) -> (r: Result<
        CpuStorage<T>,
        Error,
    >)
        ensures
            r is Ok <==> graph_ok(graph@) && aranges_exact(graph@),
            match r {
                Ok(s) => {
                    &&& s.view_data().len() == numel(graph@[graph@.len() - 1].shape@)
                    &&& forall|i: int|
                        0 <= i < s.view_data().len() ==> s.view_data()[i] == eval_node(
                            graph@,
                            graph@.len() - 1,
                            i,
                        )
                },
                Err(e) => {
                    &&& (e is EmptyGraph ==> graph@.len() == 0)
                    &&& (e is Cycle ==> !deps_before(graph@))
                    &&& (e is ShapeMismatch ==> !crate::eval::shapes_ok(graph@)
                        || !aranges_exact(graph@))
                    &&& (e is AliasViolation ==> !crate::eval::alias_safe(graph@))
                },
            },
    {
        match check_graph(graph) {
            Ok(numels) => match execute_graph(graph, &numels) {
                Ok(data) => Ok(CpuStorage(data)),
                Err(e) => Err(e),
            },
            Err(e) => Err(e),
        }
    }
}

} // verus!
