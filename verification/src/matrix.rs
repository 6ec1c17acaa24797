//! The mathematical model of a strided GEMM and the index arithmetic that
//! all engines share.
//!
//! Element `(i, j)` of a matrix with leading dimension `ld` lives at index
//! `i * ld + j` of its slice. An index `x` of the output slice lies inside
//! the `rows x cols` window when `x / ld < rows` and `x % ld < cols`.

use vstd::prelude::*;
use vstd::arithmetic::div_mod::{lemma_fundamental_div_mod, lemma_fundamental_div_mod_converse};

use crate::types::{GemmElement, required_len};

verus! {

/// The accumulation of the first `p` products of row `i` of `A` with
/// column `j` of `B`, starting from zero and adding in increasing order of
/// the inner index: `acc_{q+1} = A[i, q] * B[q, j] + acc_q`.
pub open spec fn dot_prefix<T: GemmElement>(
    a: Seq<T>, lda: int, b: Seq<T>, ldb: int, i: int, j: int, p: nat,
) -> T
    decreases p,
{
    if p == 0 {
        T::spec_zero()
    } else {
        let q = (p - 1) as nat;
        a[i * lda + q].spec_mul_add(b[q * ldb + j], dot_prefix(a, lda, b, ldb, i, j, q))
    }
}

/// Index `x` of a slice with leading dimension `ld` belongs to the
/// `rows x cols` window.
pub open spec fn in_window(x: int, rows: int, cols: int, ld: int) -> bool {
    0 <= x && x / ld < rows && x % ld < cols
}

/// The slice `c0` with every element `(r, s)` of the `rows x cols` window
/// replaced by `value(r, s)`; elements outside the window keep their value.
pub open spec fn fill_window<T>(
    c0: Seq<T>, rows: int, cols: int, ld: int, value: spec_fn(int, int) -> T,
) -> Seq<T> {
    Seq::new(c0.len(), |x: int| if in_window(x, rows, cols, ld) { value(x / ld, x % ld) } else { c0[x] })
}

/// The result of `C = A * B` written into the slice `c0`: every element of
/// the `m x n` window of `C` is the full accumulation over `k` terms, every
/// other element of `c0` is left as it was.
pub open spec fn gemm_result<T: GemmElement>(
    c0: Seq<T>, m: int, k: int, n: int, a: Seq<T>, lda: int, b: Seq<T>, ldb: int, ldc: int,
) -> Seq<T> {
    fill_window(c0, m, n, ldc, |r: int, s: int| dot_prefix(a, lda, b, ldb, r, s, k as nat))
}

/// `i * ld + j` decomposes back into row `i` and column `j`.
pub proof fn lemma_index_split(i: int, j: int, ld: int)
    requires
        0 <= i,
        0 <= j < ld,
    ensures
        (i * ld + j) / ld == i,
        (i * ld + j) % ld == j,
        0 <= i * ld + j,
{
    assert(0 <= i * ld) by (nonlinear_arith)
        requires
            0 <= i,
            0 < ld,
    ;
    lemma_fundamental_div_mod_converse(i * ld + j, ld, i, j);
}

/// Every non-negative index is `row * ld + col` for its row and column.
pub proof fn lemma_index_join(x: int, ld: int)
    requires
        0 <= x,
        0 < ld,
    ensures
        x == (x / ld) * ld + x % ld,
        0 <= x % ld < ld,
        0 <= x / ld,
{
    lemma_fundamental_div_mod(x, ld);
    assert((x / ld) * ld == ld * (x / ld)) by (nonlinear_arith);
    assert(0 <= x / ld) by (nonlinear_arith)
        requires
            0 <= x,
            0 < ld,
    ;
}

/// Element `(i, j)` of a `rows x cols` matrix lies below the matrix's
/// required length.
pub proof fn lemma_index_bound(i: int, j: int, rows: int, cols: int, ld: int)
    requires
        0 <= i < rows,
        0 <= j < cols <= ld,
    ensures
        0 <= i * ld + j < required_len(rows, cols, ld),
        i * ld <= (rows - 1) * ld,
{
    assert(i * ld <= (rows - 1) * ld) by (nonlinear_arith)
        requires
            i <= rows - 1,
            0 <= ld,
    ;
    assert(0 <= i * ld) by (nonlinear_arith)
        requires
            0 <= i,
            0 <= ld,
    ;
}

/// Two window functions that agree on the window give the same slice.
pub proof fn lemma_fill_window_ext<T>(
    c0: Seq<T>, rows: int, cols: int, ld: int, f: spec_fn(int, int) -> T, g: spec_fn(int, int) -> T,
)
    requires
        0 < ld,
        forall|r: int, s: int| 0 <= r < rows && 0 <= s < cols ==> #[trigger] f(r, s) == g(r, s),
    ensures
        fill_window(c0, rows, cols, ld, f) == fill_window(c0, rows, cols, ld, g),
{
    assert forall|x: int| 0 <= x < c0.len() implies #[trigger] fill_window(c0, rows, cols, ld, f)[x]
        == fill_window(c0, rows, cols, ld, g)[x] by {
        if in_window(x, rows, cols, ld) {
            lemma_index_join(x, ld);
            assert(f(x / ld, x % ld) == g(x / ld, x % ld));
        }
    }
    assert(fill_window(c0, rows, cols, ld, f) =~= fill_window(c0, rows, cols, ld, g));
}

/// Writing element `(i, j)` moves from one window function to another that
/// differs from it only at `(i, j)`.
pub proof fn lemma_fill_window_update<T>(
    c0: Seq<T>, rows: int, cols: int, ld: int,
    f: spec_fn(int, int) -> T, g: spec_fn(int, int) -> T, i: int, j: int,
)
    requires
        0 <= i < rows,
        0 <= j < cols <= ld,
        c0.len() >= required_len(rows, cols, ld),
        forall|r: int, s: int|
            0 <= r < rows && 0 <= s < cols && !(r == i && s == j) ==> #[trigger] f(r, s) == g(r, s),
    ensures
        0 <= i * ld + j < c0.len(),
        fill_window(c0, rows, cols, ld, g)
            == fill_window(c0, rows, cols, ld, f).update(i * ld + j, g(i, j)),
{
    lemma_index_bound(i, j, rows, cols, ld);
    lemma_index_split(i, j, ld);
    let idx = i * ld + j;
    let lhs = fill_window(c0, rows, cols, ld, g);
    let rhs = fill_window(c0, rows, cols, ld, f).update(idx, g(i, j));
    assert forall|x: int| 0 <= x < c0.len() implies #[trigger] lhs[x] == rhs[x] by {
        if x != idx {
            if in_window(x, rows, cols, ld) {
                lemma_index_join(x, ld);
                if x / ld == i && x % ld == j {
                    assert(x == idx);
                }
            }
        }
    }
    assert(lhs =~= rhs);
}

/// Filling the window with the values already there leaves the slice as it is.
pub proof fn lemma_fill_window_same<T>(c0: Seq<T>, rows: int, cols: int, ld: int)
    requires
        0 < ld,
    ensures
        fill_window(c0, rows, cols, ld, |r: int, s: int| c0[r * ld + s]) == c0,
{
    let w = fill_window(c0, rows, cols, ld, |r: int, s: int| c0[r * ld + s]);
    assert forall|x: int| 0 <= x < c0.len() implies #[trigger] w[x] == c0[x] by {
        lemma_index_join(x, ld);
    }
    assert(w =~= c0);
}

} // verus!
