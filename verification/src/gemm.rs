//! Batched dense matrix multiply: `out[b, i, j] = alpha * out[b, i, j] +
//! sum_p beta * lhs[b, i, p] * rhs[b, p, j]`, over contiguous row-major
//! buffers. The kernel is pinned down elementwise against `gemm_dot`.

use vstd::arithmetic::div_mod::lemma_fundamental_div_mod_converse;
use vstd::prelude::*;

use crate::dtype::DType;

verus! {

/// The first `p` terms of one output cell's contraction sum, accumulated in
/// index order: `sum_{q < p} beta * lhs[batch, row, q] * rhs[batch, q, col]`.
pub open spec fn gemm_dot<T: DType>(
    lhs: Seq<T>,
    rhs: Seq<T>,
    beta: T,
    batch: int,
    row: int,
    col: int,
    p: int,
    k: int,
    m: int,
    n: int,
) -> T
    decreases p,
{
    if p <= 0 {
        T::zero_spec()
    } else {
        T::add_spec(
            gemm_dot(lhs, rhs, beta, batch, row, col, p - 1, k, m, n),
            T::mul_spec(
                T::mul_spec(beta, lhs[batch * (m * k) + row * k + (p - 1)]),
                rhs[batch * (k * n) + (p - 1) * n + col],
            ),
        )
    }
}

/// The finished value of one output cell.
pub open spec fn gemm_cell<T: DType>(
    lhs: Seq<T>,
    rhs: Seq<T>,
    prev: T,
    alpha: T,
    beta: T,
    batch: int,
    row: int,
    col: int,
    k: int,
    m: int,
    n: int,
) -> T {
    T::add_spec(T::mul_spec(alpha, prev), gemm_dot(lhs, rhs, beta, batch, row, col, k, k, m, n))
}

/// Two in-range triples with the same flat row-major index are equal.
pub proof fn lemma_flat_index_unique(
    m: int,
    n: int,
    b1: int,
    i1: int,
    j1: int,
    b2: int,
    i2: int,
    j2: int,
)
    requires
        0 < n,
        0 < m,
        0 <= i1 < m,
        0 <= i2 < m,
        0 <= j1 < n,
        0 <= j2 < n,
        0 <= b1,
        0 <= b2,
        b1 * (m * n) + i1 * n + j1 == b2 * (m * n) + i2 * n + j2,
    ensures
        b1 == b2,
        i1 == i2,
        j1 == j2,
{
    let x = b1 * (m * n) + i1 * n + j1;
    assert((b1 * m + i1) * n + j1 == x) by (nonlinear_arith)
        requires
            x == b1 * (m * n) + i1 * n + j1,
    ;
    assert((b2 * m + i2) * n + j2 == x) by (nonlinear_arith)
        requires
            x == b2 * (m * n) + i2 * n + j2,
    ;
    lemma_fundamental_div_mod_converse(x, n, b1 * m + i1, j1);
    lemma_fundamental_div_mod_converse(x, n, b2 * m + i2, j2);
    let a = x / n;
    assert(b1 * m + i1 == a);
    assert(b2 * m + i2 == a);
    lemma_fundamental_div_mod_converse(a, m, b1, i1);
    lemma_fundamental_div_mod_converse(a, m, b2, i2);
}

/// A flat row-major index decomposes into the triple that formed it.
pub proof fn lemma_flat_index_decompose(m: int, n: int, batch: int, row: int, col: int)
    requires
        0 < n,
        0 < m,
        0 <= row < m,
        0 <= col < n,
        0 <= batch,
    ensures
        (batch * (m * n) + row * n + col) / (m * n) == batch,
        ((batch * (m * n) + row * n + col) % (m * n)) / n == row,
        (batch * (m * n) + row * n + col) % n == col,
{
    let x = batch * (m * n) + row * n + col;
    let rem = row * n + col;
    assert(0 <= rem < m * n && x == batch * (m * n) + rem && x == (batch * m + row) * n + col)
        by (nonlinear_arith)
        requires
            0 <= row < m,
            0 <= col < n,
            0 < n,
            0 < m,
            0 <= batch,
            x == batch * (m * n) + row * n + col,
            rem == row * n + col,
    ;
    lemma_fundamental_div_mod_converse(x, m * n, batch, rem);
    lemma_fundamental_div_mod_converse(rem, n, row, col);
    lemma_fundamental_div_mod_converse(x, n, batch * m + row, col);
}

/// Every flat index below `bb * (m * n)` decomposes into an in-range
/// batch/row/column triple that recomposes to it.
pub proof fn lemma_flat_index_total(m: int, n: int, bb: int, i: int)
    requires
        0 < m,
        0 < n,
        0 <= i < bb * (m * n),
    ensures
        0 <= i / (m * n) < bb,
        0 <= (i % (m * n)) / n < m,
        0 <= i % n < n,
        (i / (m * n)) * (m * n) + ((i % (m * n)) / n) * n + (i % n) == i,
        i % n == (i % (m * n)) % n,
{
    let mn = m * n;
    assert(0 < mn) by (nonlinear_arith)
        requires
            0 < m && 0 < n && mn == m * n,
    ;
    let bi = i / mn;
    let rem = i % mn;
    vstd::arithmetic::div_mod::lemma_fundamental_div_mod(i, mn);
    assert(0 <= rem < mn);
    assert(0 <= bi) by (nonlinear_arith)
        requires
            i >= 0 && mn > 0 && i == mn * bi + rem && 0 <= rem < mn,
    ;
    assert(bi < bb) by (nonlinear_arith)
        requires
            i < bb * mn && i == mn * bi + rem && 0 <= rem < mn && 0 < mn,
    ;
    let row = rem / n;
    let col = rem % n;
    vstd::arithmetic::div_mod::lemma_fundamental_div_mod(rem, n);
    assert(0 <= col < n);
    assert(0 <= row) by (nonlinear_arith)
        requires
            rem >= 0 && n > 0 && rem == n * row + col && 0 <= col < n,
    ;
    assert(row < m) by (nonlinear_arith)
        requires
            rem < m * n && rem == n * row + col && 0 <= col < n && 0 < n,
    ;
    assert(bi * (m * n) + row * n + col == i) by (nonlinear_arith)
        requires
            i == mn * bi + rem && rem == n * row + col && mn == m * n,
    ;
    lemma_flat_index_decompose(m, n, bi, row, col);
}

/// Batched matrix multiplication over row-major buffers:
/// `(B x M x K) * (B x K x N)` accumulated into `(B x M x N)`.
pub fn launch_gemm<T: DType>(
    lhs: &Vec<T>,
    rhs: &Vec<T>,
    b: usize,
    m: usize,
    n: usize,
    k: usize,
    out: &mut Vec<T>,
    alpha: T,
    beta: T,
)
    requires
        lhs@.len() == b * (m * k),
        rhs@.len() == b * (k * n),
        old(out)@.len() == b * (m * n),
    ensures
        final(out)@.len() == old(out)@.len(),
        forall|bi: int, i: int, j: int|
            0 <= bi < b && 0 <= i < m && 0 <= j < n ==> final(out)@[bi * (m * n) + i * n + j]
                == gemm_cell(
                lhs@,
                rhs@,
                old(out)@[#[trigger] (bi * (m * n) + i * n + j)],
                alpha,
                beta,
                bi,
                i,
                j,
                k as int,
                m as int,
                n as int,
            ),
{
    let ghost out0 = out@;
    let total: usize = out.len();
    let lhs_total: usize = lhs.len();
    let rhs_total: usize = rhs.len();
    let mut bi: usize = 0;
    while bi < b
        invariant
            lhs@.len() == b * (m * k),
            rhs@.len() == b * (k * n),
            out@.len() == b * (m * n),
            out0.len() == b * (m * n),
            total == b * (m * n),
            lhs_total == b * (m * k),
            rhs_total == b * (k * n),
            bi <= b,
            forall|b2: int, i2: int, j2: int|
                0 <= b2 < b && 0 <= i2 < m && 0 <= j2 < n && b2 * (m * n) + i2 * n + j2 < bi * (m
                    * n) ==> out@[b2 * (m * n) + i2 * n + j2] == gemm_cell(
                    lhs@,
                    rhs@,
                    out0[#[trigger] (b2 * (m * n) + i2 * n + j2)],
                    alpha,
                    beta,
                    b2,
                    i2,
                    j2,
                    k as int,
                    m as int,
                    n as int,
                ),
            forall|f: int| bi * (m * n) <= f < b * (m * n) ==> out@[f] == out0[f],
        decreases b - bi,
    {
        let mut i: usize = 0;
        proof {
            assert(bi * (m * n) <= b * (m * n)) by (nonlinear_arith)
                requires
                    bi < b && 0 <= m * n,
            ;
        }
        while i < m
            invariant
                lhs@.len() == b * (m * k),
                rhs@.len() == b * (k * n),
                out@.len() == b * (m * n),
                out0.len() == b * (m * n),
                total == b * (m * n),
                lhs_total == b * (m * k),
                rhs_total == b * (k * n),
                bi < b,
                i <= m,
                forall|b2: int, i2: int, j2: int|
                    0 <= b2 < b && 0 <= i2 < m && 0 <= j2 < n && b2 * (m * n) + i2 * n + j2 < bi * (
                    m * n) + i * n ==> out@[b2 * (m * n) + i2 * n + j2] == gemm_cell(
                        lhs@,
                        rhs@,
                        out0[#[trigger] (b2 * (m * n) + i2 * n + j2)],
                        alpha,
                        beta,
                        b2,
                        i2,
                        j2,
                        k as int,
                        m as int,
                        n as int,
                    ),
                forall|f: int| bi * (m * n) + i * n <= f < b * (m * n) ==> out@[f] == out0[f],
            decreases m - i,
        {
            let mut j: usize = 0;
            while j < n
                invariant
                    lhs@.len() == b * (m * k),
                    rhs@.len() == b * (k * n),
                    out@.len() == b * (m * n),
                    out0.len() == b * (m * n),
                    total == b * (m * n),
                    lhs_total == b * (m * k),
                    rhs_total == b * (k * n),
                    bi < b,
                    i < m,
                    j <= n,
                    forall|b2: int, i2: int, j2: int|
                        0 <= b2 < b && 0 <= i2 < m && 0 <= j2 < n && b2 * (m * n) + i2 * n + j2 < bi
                            * (m * n) + i * n + j ==> out@[b2 * (m * n) + i2 * n + j2]
                            == gemm_cell(
                            lhs@,
                            rhs@,
                            out0[#[trigger] (b2 * (m * n) + i2 * n + j2)],
                            alpha,
                            beta,
                            b2,
                            i2,
                            j2,
                            k as int,
                            m as int,
                            n as int,
                        ),
                    forall|f: int|
                        bi * (m * n) + i * n + j <= f < b * (m * n) ==> out@[f] == out0[f],
                decreases n - j,
            {
                proof {
                    assert(m * n <= b * (m * n) && bi * (m * n) <= b * (m * n) && bi * (m * n) + i
                        * n <= b * (m * n) && bi * (m * n) + i * n + j < b * (m * n))
                        by (nonlinear_arith)
                        requires
                            bi < b && i < m && j < n && 0 <= bi && 0 <= i && 0 <= j,
                    ;
                    assert(b * (m * n) == total as int);
                }
                let cur: usize = bi * (m * n) + i * n + j;
                let mut acc = T::zero();
                let mut p: usize = 0;
                while p < k
                    invariant
                        lhs@.len() == b * (m * k),
                        rhs@.len() == b * (k * n),
                        lhs_total == b * (m * k),
                        rhs_total == b * (k * n),
                        bi < b,
                        i < m,
                        j < n,
                        p <= k,
                        acc == gemm_dot(
                            lhs@,
                            rhs@,
                            beta,
                            bi as int,
                            i as int,
                            j as int,
                            p as int,
                            k as int,
                            m as int,
                            n as int,
                        ),
                    decreases k - p,
                {
                    proof {
                        assert(m * k <= b * (m * k) && bi * (m * k) <= b * (m * k) && bi * (m * k)
                            + i * k <= b * (m * k) && bi * (m * k) + i * k + p < b * (m * k))
                            by (nonlinear_arith)
                            requires
                                bi < b && i < m && p < k && 0 <= bi && 0 <= i && 0 <= p,
                        ;
                        assert(k * n <= b * (k * n) && bi * (k * n) <= b * (k * n) && bi * (k * n)
                            + p * n <= b * (k * n) && bi * (k * n) + p * n + j < b * (k * n))
                            by (nonlinear_arith)
                            requires
                                bi < b && p < k && j < n && 0 <= bi && 0 <= p && 0 <= j,
                        ;
                        assert(b * (m * k) == lhs_total as int);
                        assert(b * (k * n) == rhs_total as int);
                    }
                    let lv = lhs[bi * (m * k) + i * k + p];
                    let rv = rhs[bi * (k * n) + p * n + j];
                    acc = T::add(acc, T::mul(T::mul(beta, lv), rv));
                    p = p + 1;
                }
                let prev = out[cur];
                proof {
                    assert(out@[cur as int] == out0[cur as int]);
                }
                let cell = T::add(T::mul(alpha, prev), acc);
                out[cur] = cell;
                proof {
                    assert forall|b2: int, i2: int, j2: int|
                        0 <= b2 < b && 0 <= i2 < m && 0 <= j2 < n && b2 * (m * n) + i2 * n + j2 < bi
                            * (m * n) + i * n + j + 1 implies out@[b2 * (m * n) + i2 * n + j2]
                        == gemm_cell(
                        lhs@,
                        rhs@,
                        out0[#[trigger] (b2 * (m * n) + i2 * n + j2)],
                        alpha,
                        beta,
                        b2,
                        i2,
                        j2,
                        k as int,
                        m as int,
                        n as int,
                    ) by {
                        let f2 = b2 * (m * n) + i2 * n + j2;
                        assert(0 <= b2 * (m * n) + i2 * n + j2) by (nonlinear_arith)
                            requires
                                0 <= b2 && 0 <= i2 && 0 <= j2 && 0 <= m && 0 <= n,
                        ;
                        if f2 == cur as int {
                            lemma_flat_index_unique(
                                m as int,
                                n as int,
                                b2,
                                i2,
                                j2,
                                bi as int,
                                i as int,
                                j as int,
                            );
                        }
                    }
                }
                j = j + 1;
            }
            i = i + 1;
            proof {
                assert(bi * (m * n) + i * n == bi * (m * n) + (i - 1) * n + n) by (nonlinear_arith)
                    requires
                        0 <= i,
                ;
            }
        }
        bi = bi + 1;
        proof {
            assert(bi * (m * n) == (bi - 1) * (m * n) + m * n) by (nonlinear_arith)
                requires
                    0 <= bi,
            ;
        }
    }
    proof {
        assert forall|bi2: int, i2: int, j2: int|
            0 <= bi2 < b && 0 <= i2 < m && 0 <= j2 < n implies out@[bi2 * (m * n) + i2 * n + j2]
            == gemm_cell(
            lhs@,
            rhs@,
            out0[#[trigger] (bi2 * (m * n) + i2 * n + j2)],
            alpha,
            beta,
            bi2,
            i2,
            j2,
            k as int,
            m as int,
            n as int,
        ) by {
            assert(bi2 * (m * n) + i2 * n + j2 < b * (m * n)) by (nonlinear_arith)
                requires
                    bi2 < b && i2 < m && j2 < n && 0 <= bi2 && 0 <= i2 && 0 <= j2,
            ;
        }
    }
}

} // verus!
