//! Algebraic properties of the GEMM model that every engine computes.

use vstd::prelude::*;

use crate::types::{GemmElement, GemmError, required_len};
use crate::matrix::{dot_prefix, gemm_result, in_window, lemma_index_bound, lemma_index_join,
    lemma_index_split};
use crate::cpu::{NaiveGemm, TiledGemm, SimdGemm};
use crate::GemmEngine;

verus! {

proof fn lemma_identity_prefix<T: GemmElement>(a: Seq<T>, id: Seq<T>, m: int, n: int, i: int, j: int, p: nat)
    requires
        0 <= i < m,
        0 <= j < n,
        p <= n,
        a.len() == m * n,
        id.len() == n * n,
        forall|q: int, s: int| 0 <= q < n && 0 <= s < n ==>
            #[trigger] id[q * n + s] == if q == s { T::spec_one() } else { T::spec_zero() },
        forall|x: int| 0 <= x < m * n ==>
            (#[trigger] a[x]).spec_mul_add(T::spec_one(), T::spec_zero()) == a[x],
        forall|x: int, y: int| 0 <= x < m * n && 0 <= y < m * n ==>
            (#[trigger] a[x]).spec_mul_add(T::spec_zero(), #[trigger] a[y]) == a[y],
        forall|x: int| 0 <= x < m * n ==>
            (#[trigger] a[x]).spec_mul_add(T::spec_zero(), T::spec_zero()) == T::spec_zero(),
    ensures
        dot_prefix(a, n, id, n, i, j, p) == if p <= j { T::spec_zero() } else { a[i * n + j] },
    decreases p,
{
    if p > 0 {
        let q = (p - 1) as int;
        lemma_identity_prefix(a, id, m, n, i, j, (p - 1) as nat);
        lemma_index_bound(i, q, m, n, n);
        lemma_index_bound(i, j, m, n, n);
        assert((m - 1) * n + n == m * n) by (nonlinear_arith);
        let x = i * n + q;
        assert(id[q * n + j] == if q == j { T::spec_one() } else { T::spec_zero() });
        if q < j {
            assert(a[x].spec_mul_add(T::spec_zero(), T::spec_zero()) == T::spec_zero());
        } else if q == j {
            assert(a[x].spec_mul_add(T::spec_one(), T::spec_zero()) == a[x]);
        } else {
            assert(a[x].spec_mul_add(T::spec_zero(), a[i * n + j]) == a[i * n + j]);
        }
    }
}

/// Identity law: multiplying an `m x n` matrix `A` on the right by the
/// `n x n` identity matrix gives `A` back (tight strides), for elements on
/// which multiply-add treats zero and one as in arithmetic: `x * 1 + 0 == x`,
/// `x * 0 + y == y` and `x * 0 + 0 == 0` for the entries `x`, `y` of `A`.
pub proof fn identity_law<T: GemmElement>(c0: Seq<T>, a: Seq<T>, id: Seq<T>, m: int, n: int)
    requires
        0 < m,
        0 < n,
        a.len() == m * n,
        c0.len() == m * n,
        id.len() == n * n,
        forall|q: int, s: int| 0 <= q < n && 0 <= s < n ==>
            #[trigger] id[q * n + s] == if q == s { T::spec_one() } else { T::spec_zero() },
        forall|x: int| 0 <= x < m * n ==>
            (#[trigger] a[x]).spec_mul_add(T::spec_one(), T::spec_zero()) == a[x],
        forall|x: int, y: int| 0 <= x < m * n && 0 <= y < m * n ==>
            (#[trigger] a[x]).spec_mul_add(T::spec_zero(), #[trigger] a[y]) == a[y],
        forall|x: int| 0 <= x < m * n ==>
            (#[trigger] a[x]).spec_mul_add(T::spec_zero(), T::spec_zero()) == T::spec_zero(),
    ensures
        gemm_result(c0, m, n, n, a, n, id, n, n) == a,
{
    let r = gemm_result(c0, m, n, n, a, n, id, n, n);
    assert forall|x: int| 0 <= x < m * n implies #[trigger] r[x] == a[x] by {
        lemma_index_join(x, n);
        let i = x / n;
        let j = x % n;
        assert(i < m) by {
            if i >= m {
                assert(i * n >= m * n) by (nonlinear_arith)
                    requires
                        i >= m,
                        n > 0,
                ;
            }
        }
        assert(in_window(x, m, n, n));
        lemma_identity_prefix(a, id, m, n, i, j, n as nat);
    }
    assert(r =~= a);
}

proof fn lemma_transpose_prefix<T: GemmElement>(
    a: Seq<T>, b: Seq<T>, at: Seq<T>, bt: Seq<T>, m: int, k: int, n: int, i: int, j: int, p: nat,
)
    requires
        0 <= i < m,
        0 <= j < n,
        p <= k,
        a.len() == m * k,
        b.len() == k * n,
        forall|r: int, q: int| 0 <= r < m && 0 <= q < k ==> #[trigger] at[q * m + r] == a[r * k + q],
        forall|q: int, s: int| 0 <= q < k && 0 <= s < n ==> #[trigger] bt[s * k + q] == b[q * n + s],
        forall|x: int, y: int, z: T| 0 <= x < m * k && 0 <= y < k * n ==>
            #[trigger] a[x].spec_mul_add(b[y], z) == b[y].spec_mul_add(a[x], z),
    ensures
        dot_prefix(a, k, b, n, i, j, p) == dot_prefix(bt, k, at, m, j, i, p),
    decreases p,
{
    if p > 0 {
        let q = (p - 1) as int;
        lemma_transpose_prefix(a, b, at, bt, m, k, n, i, j, (p - 1) as nat);
        lemma_index_bound(i, q, m, k, k);
        lemma_index_bound(q, j, k, n, n);
        assert((m - 1) * k + k == m * k) by (nonlinear_arith);
        assert((k - 1) * n + n == k * n) by (nonlinear_arith);
        assert(at[q * m + i] == a[i * k + q]);
        assert(bt[j * k + q] == b[q * n + j]);
        let z = dot_prefix(a, k, b, n, i, j, (p - 1) as nat);
        assert(a[i * k + q].spec_mul_add(b[q * n + j], z) == b[q * n + j].spec_mul_add(a[i * k + q], z));
    }
}

/// Transpose law: `(A x B)^T == B^T x A^T`. With `A` (`m x k`), `B`
/// (`k x n`) and their transposes `At` (`k x m`), `Bt` (`n x k`), all with
/// tight strides, element `(i, j)` of `A x B` equals element `(j, i)` of
/// `Bt x At`, for elements on which multiply-add is commutative in its two
/// factors (`x * y + z == y * x + z`).
pub proof fn transpose_law<T: GemmElement>(
    c0: Seq<T>, d0: Seq<T>, a: Seq<T>, b: Seq<T>, at: Seq<T>, bt: Seq<T>, m: int, k: int, n: int,
)
    requires
        0 < m && 0 < k && 0 < n,
        a.len() == m * k,
        b.len() == k * n,
        c0.len() == m * n,
        d0.len() == n * m,
        forall|r: int, q: int| 0 <= r < m && 0 <= q < k ==> #[trigger] at[q * m + r] == a[r * k + q],
        forall|q: int, s: int| 0 <= q < k && 0 <= s < n ==> #[trigger] bt[s * k + q] == b[q * n + s],
        forall|x: int, y: int, z: T| 0 <= x < m * k && 0 <= y < k * n ==>
            #[trigger] a[x].spec_mul_add(b[y], z) == b[y].spec_mul_add(a[x], z),
    ensures
        forall|i: int, j: int| 0 <= i < m && 0 <= j < n ==>
            #[trigger] gemm_result(c0, m, k, n, a, k, b, n, n)[i * n + j]
                == gemm_result(d0, n, k, m, bt, k, at, m, m)[j * m + i],
{
    assert forall|i: int, j: int| 0 <= i < m && 0 <= j < n implies
        #[trigger] gemm_result(c0, m, k, n, a, k, b, n, n)[i * n + j]
            == gemm_result(d0, n, k, m, bt, k, at, m, m)[j * m + i] by {
        lemma_index_split(i, j, n);
        lemma_index_split(j, i, m);
        lemma_index_bound(i, j, m, n, n);
        lemma_index_bound(j, i, n, m, m);
        assert((m - 1) * n + n == m * n) by (nonlinear_arith);
        assert((n - 1) * m + m == n * m) by (nonlinear_arith);
        lemma_transpose_prefix(a, b, at, bt, m, k, n, i, j, k as nat);
    }
}

/// Two outcomes of the CPU model on the same operands and output length
/// report the same result, and on success agree on every element of the
/// output window (whatever the output held before).
proof fn lemma_cpu_outcomes_agree<T: GemmElement>(
    m: usize, k: usize, n: usize, a: Seq<T>, lda: usize, b: Seq<T>, ldb: usize, ldc: usize,
    c1_before: Seq<T>, c1_after: Seq<T>, r1: Result<(), GemmError>,
    c2_before: Seq<T>, c2_after: Seq<T>, r2: Result<(), GemmError>,
)
    requires
        crate::cpu::gemm_outcome_exact(m, k, n, a, lda, b, ldb, c1_before, c1_after, ldc, r1),
        crate::cpu::gemm_outcome_exact(m, k, n, a, lda, b, ldb, c2_before, c2_after, ldc, r2),
        c1_before.len() == c2_before.len(),
    ensures
        r1 == r2,
        r1 is Ok ==> forall|i: int, j: int| 0 <= i < m && 0 <= j < n ==>
            #[trigger] c1_after[i * ldc + j] == c2_after[i * ldc + j],
{
    if r1 is Ok {
        assert forall|i: int, j: int| 0 <= i < m && 0 <= j < n implies
            #[trigger] c1_after[i * ldc + j] == c2_after[i * ldc + j] by {
            lemma_index_split(i, j, ldc as int);
            lemma_index_bound(i, j, m as int, n as int, ldc as int);
            assert(c1_before.len() >= required_len(m as int, n as int, ldc as int));
        }
    }
}

/// Engine agreement: the tiled engine, whatever its tile size, reports
/// what the naive engine reports on the same operands, and on success its
/// output window holds exactly the naive engine's values.
pub proof fn tiled_agrees_with_naive<T: GemmElement, const TILE: usize>(
    naive: NaiveGemm, tiled: TiledGemm<TILE>,
    m: usize, k: usize, n: usize, a: Seq<T>, lda: usize, b: Seq<T>, ldb: usize, ldc: usize,
    c1_before: Seq<T>, c1_after: Seq<T>, r1: Result<(), GemmError>,
    c2_before: Seq<T>, c2_after: Seq<T>, r2: Result<(), GemmError>,
)
    requires
        <NaiveGemm as GemmEngine<T>>::gemm_outcome(&naive, m, k, n, a, lda, b, ldb, c1_before, c1_after, ldc, r1),
        <TiledGemm<TILE> as GemmEngine<T>>::gemm_outcome(&tiled, m, k, n, a, lda, b, ldb, c2_before, c2_after, ldc, r2),
        c1_before.len() == c2_before.len(),
    ensures
        r1 == r2,
        r1 is Ok ==> forall|i: int, j: int| 0 <= i < m && 0 <= j < n ==>
            #[trigger] c1_after[i * ldc + j] == c2_after[i * ldc + j],
{
    lemma_cpu_outcomes_agree(m, k, n, a, lda, b, ldb, ldc, c1_before, c1_after, r1, c2_before, c2_after, r2);
}

/// Engine agreement: the lane-grouped engine, whatever its tile size,
/// reports what the naive engine reports on the same operands, and on
/// success its output window holds exactly the naive engine's values.
pub proof fn simd_agrees_with_naive<T: GemmElement, const TILE: usize>(
    naive: NaiveGemm, simd: SimdGemm<TILE>,
    m: usize, k: usize, n: usize, a: Seq<T>, lda: usize, b: Seq<T>, ldb: usize, ldc: usize,
    c1_before: Seq<T>, c1_after: Seq<T>, r1: Result<(), GemmError>,
    c2_before: Seq<T>, c2_after: Seq<T>, r2: Result<(), GemmError>,
)
    requires
        <NaiveGemm as GemmEngine<T>>::gemm_outcome(&naive, m, k, n, a, lda, b, ldb, c1_before, c1_after, ldc, r1),
        <SimdGemm<TILE> as GemmEngine<T>>::gemm_outcome(&simd, m, k, n, a, lda, b, ldb, c2_before, c2_after, ldc, r2),
        c1_before.len() == c2_before.len(),
    ensures
        r1 == r2,
        r1 is Ok ==> forall|i: int, j: int| 0 <= i < m && 0 <= j < n ==>
            #[trigger] c1_after[i * ldc + j] == c2_after[i * ldc + j],
{
    lemma_cpu_outcomes_agree(m, k, n, a, lda, b, ldb, ldc, c1_before, c1_after, r1, c2_before, c2_after, r2);
}

} // verus!
