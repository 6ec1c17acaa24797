//! CPU GEMM engines, at increasing optimisation levels:
//! - [`NaiveGemm`]: the textbook `i -> j -> p` triple loop
//! - [`TiledGemm`]: cache-blocked with a compile-time tile size
//! - [`SimdGemm`]: cache-blocked with the innermost loop in lane groups

pub mod naive;
pub mod tiled;
pub mod simd;


pub use naive::NaiveGemm;
pub use tiled::TiledGemm;
pub use simd::SimdGemm;


use vstd::prelude::*;

use crate::types::{GemmElement, GemmError, gemm_dims_check, required_len};
use crate::matrix::{dot_prefix, fill_window, gemm_result, lemma_fill_window_ext, lemma_fill_window_same,
    lemma_fill_window_update, lemma_index_split};

verus! {

/// The outcome of a CPU engine's `gemm`: it reports exactly what validation
/// reports; on success the output is the product written into the window,
/// on failure the output is untouched.
pub open spec fn gemm_outcome_exact<T: GemmElement>(
    m: usize, k: usize, n: usize, a: Seq<T>, lda: usize, b: Seq<T>, ldb: usize,
    c_before: Seq<T>, c_after: Seq<T>, ldc: usize, r: Result<(), GemmError>,
) -> bool {
    &&& r == gemm_dims_check(m, k, n, lda, ldb, ldc, a.len() as usize, b.len() as usize, c_before.len() as usize)
    &&& r is Ok ==> c_after == gemm_result(c_before, m as int, k as int, n as int, a, lda as int, b, ldb as int, ldc as int)
    &&& r is Err ==> c_after == c_before
}

/// Sets every element of the `m x n` window of `c` to zero; the rest of `c`
/// is left as it was.
pub(crate) fn zero_window<T: GemmElement>(c: &mut [T], m: usize, n: usize, ldc: usize)
    requires
        m > 0,
        0 < n <= ldc,
        old(c)@.len() >= required_len(m as int, n as int, ldc as int),
    ensures
        final(c)@ == fill_window(old(c)@, m as int, n as int, ldc as int, |r: int, s: int| T::spec_zero()),
{
    let ghost c0 = c@;
    let c_len = c.len();
    proof {
        lemma_fill_window_same(c0, m as int, n as int, ldc as int);
    }
    let mut i: usize = 0;
    while i < m
        invariant
            m > 0,
            0 < n <= ldc,
            c0.len() >= required_len(m as int, n as int, ldc as int),
            c0.len() == c_len,
            i <= m,
            c@ == fill_window(c0, m as int, n as int, ldc as int,
                |r: int, s: int| if r < i { T::spec_zero() } else { c0[r * ldc + s] }),
        decreases m - i,
    {
        let mut j: usize = 0;
        while j < n
            invariant
                m > 0,
                0 < n <= ldc,
                c0.len() >= required_len(m as int, n as int, ldc as int),
            c0.len() == c_len,
                i < m,
                j <= n,
                c@ == fill_window(c0, m as int, n as int, ldc as int,
                    |r: int, s: int| if r < i || (r == i && s < j) { T::spec_zero() } else { c0[r * ldc + s] }),
            decreases n - j,
        {
            proof {
                lemma_fill_window_update(c0, m as int, n as int, ldc as int,
                    |r: int, s: int| if r < i || (r == i && s < j) { T::spec_zero() } else { c0[r * ldc + s] },
                    |r: int, s: int| if r < i || (r == i && s < j + 1) { T::spec_zero() } else { c0[r * ldc + s] },
                    i as int, j as int);
            }
            c[i * ldc + j] = T::zero();
            j += 1;
        }
        proof {
            lemma_fill_window_ext(c0, m as int, n as int, ldc as int,
                |r: int, s: int| if r < i || (r == i && s < j) { T::spec_zero() } else { c0[r * ldc + s] },
                |r: int, s: int| if r < i + 1 { T::spec_zero() } else { c0[r * ldc + s] });
        }
        i += 1;
    }
    proof {
        lemma_fill_window_ext(c0, m as int, n as int, ldc as int,
            |r: int, s: int| if r < i { T::spec_zero() } else { c0[r * ldc + s] },
            |r: int, s: int| T::spec_zero());
    }
}

/// Where the blocked engines stand in their six nested loops
/// (`ii -> kk -> jj -> i -> p -> j`): the current row block `[ii, i_end)`,
/// inner-index block `[kk, k_end)`, column block `[jj, j_end)`, and the
/// current row `i`, inner index `p` and column `j` inside those blocks.
pub struct TileCursor {
    pub ii: int,
    pub i_end: int,
    pub kk: int,
    pub k_end: int,
    pub jj: int,
    pub j_end: int,
    pub i: int,
    pub p: int,
    pub j: int,
}

/// The cursor with the given block bounds and position.
pub open spec fn cursor(ii: int, i_end: int, kk: int, k_end: int, jj: int, j_end: int, i: int, p: int, j: int) -> TileCursor {
    TileCursor { ii, i_end, kk, k_end, jj, j_end, i, p, j }
}

/// How many terms of the accumulation of output element `(r, s)` the
/// blocked loops have added at position `cur`: whole earlier row blocks are
/// complete, later ones untouched; inside the current row block, columns of
/// earlier column blocks have reached `k_end`, and inside the current tile
/// rows before `i` have too, while row `i` has one more term left of `j`.
pub open spec fn tile_progress(r: int, s: int, k: int, cur: TileCursor) -> int {
    if r < cur.ii {
        k
    } else if r >= cur.i_end {
        0
    } else if s < cur.jj {
        cur.k_end
    } else if s >= cur.j_end {
        cur.kk
    } else if r < cur.i {
        cur.k_end
    } else if r > cur.i {
        cur.kk
    } else if s < cur.j {
        cur.p + 1
    } else {
        cur.p
    }
}

/// The output slice at position `cur` of the blocked loops.
pub open spec fn tile_state<T: GemmElement>(
    c0: Seq<T>, m: int, k: int, n: int, a: Seq<T>, lda: int, b: Seq<T>, ldb: int, ldc: int,
    cur: TileCursor,
) -> Seq<T> {
    fill_window(c0, m, n, ldc,
        |r: int, s: int| dot_prefix(a, lda, b, ldb, r, s, tile_progress(r, s, k, cur) as nat))
}

/// Two cursors at which every output element has the same progress give
/// the same output slice.
pub proof fn lemma_tile_state_same<T: GemmElement>(
    c0: Seq<T>, m: int, k: int, n: int, a: Seq<T>, lda: int, b: Seq<T>, ldb: int, ldc: int,
    c1: TileCursor, c2: TileCursor,
)
    requires
        0 < ldc,
        forall|r: int, s: int| 0 <= r < m && 0 <= s < n ==>
            #[trigger] tile_progress(r, s, k, c1) == tile_progress(r, s, k, c2),
    ensures
        tile_state(c0, m, k, n, a, lda, b, ldb, ldc, c1) == tile_state(c0, m, k, n, a, lda, b, ldb, ldc, c2),
{
    lemma_fill_window_ext(c0, m, n, ldc,
        |r: int, s: int| dot_prefix(a, lda, b, ldb, r, s, tile_progress(r, s, k, c1) as nat),
        |r: int, s: int| dot_prefix(a, lda, b, ldb, r, s, tile_progress(r, s, k, c2) as nat));
}

/// One multiply-add into element `(i, j)` advances the cursor by one column.
pub proof fn lemma_tile_step<T: GemmElement>(
    c0: Seq<T>, m: int, k: int, n: int, a: Seq<T>, lda: int, b: Seq<T>, ldb: int, ldc: int,
    cur: TileCursor,
)
    requires
        0 < n <= ldc,
        c0.len() >= required_len(m, n, ldc),
        0 <= cur.ii <= cur.i < cur.i_end <= m,
        0 <= cur.jj <= cur.j < cur.j_end <= n,
        0 <= cur.kk <= cur.p,
    ensures
        0 <= cur.i * ldc + cur.j < c0.len(),
        tile_state(c0, m, k, n, a, lda, b, ldb, ldc, cur)[cur.i * ldc + cur.j]
            == dot_prefix(a, lda, b, ldb, cur.i, cur.j, cur.p as nat),
        tile_state(c0, m, k, n, a, lda, b, ldb, ldc, TileCursor { j: cur.j + 1, ..cur })
            == tile_state(c0, m, k, n, a, lda, b, ldb, ldc, cur).update(cur.i * ldc + cur.j,
                a[cur.i * lda + cur.p].spec_mul_add(b[cur.p * ldb + cur.j],
                    dot_prefix(a, lda, b, ldb, cur.i, cur.j, cur.p as nat))),
{
    let next = TileCursor { j: cur.j + 1, ..cur };
    lemma_index_split(cur.i, cur.j, ldc);
    lemma_fill_window_update(c0, m, n, ldc,
        |r: int, s: int| dot_prefix(a, lda, b, ldb, r, s, tile_progress(r, s, k, cur) as nat),
        |r: int, s: int| dot_prefix(a, lda, b, ldb, r, s, tile_progress(r, s, k, next) as nat),
        cur.i, cur.j);
    assert(tile_progress(cur.i, cur.j, k, next) == cur.p + 1);
}

/// Before the blocked loops start (after zeroing), every output element
/// stands at zero terms; once every row block is done, the slice is the
/// full product.
pub proof fn lemma_tile_state_ends<T: GemmElement>(
    c0: Seq<T>, m: int, k: int, n: int, a: Seq<T>, lda: int, b: Seq<T>, ldb: int, ldc: int,
)
    requires
        0 < ldc,
        0 <= k,
    ensures
        fill_window(c0, m, n, ldc, |r: int, s: int| T::spec_zero())
            == tile_state(c0, m, k, n, a, lda, b, ldb, ldc, cursor(0, 0, 0, 0, 0, 0, 0, 0, 0)),
        tile_state(c0, m, k, n, a, lda, b, ldb, ldc, cursor(m, m, 0, 0, 0, 0, m, 0, 0))
            == crate::matrix::gemm_result(c0, m, k, n, a, lda, b, ldb, ldc),
{
    lemma_fill_window_ext(c0, m, n, ldc,
        |r: int, s: int| T::spec_zero(),
        |r: int, s: int| dot_prefix(a, lda, b, ldb, r, s, tile_progress(r, s, k, cursor(0, 0, 0, 0, 0, 0, 0, 0, 0)) as nat));
    lemma_fill_window_ext(c0, m, n, ldc,
        |r: int, s: int| dot_prefix(a, lda, b, ldb, r, s, tile_progress(r, s, k, cursor(m, m, 0, 0, 0, 0, m, 0, 0)) as nat),
        |r: int, s: int| dot_prefix(a, lda, b, ldb, r, s, k as nat));
}

} // verus!
