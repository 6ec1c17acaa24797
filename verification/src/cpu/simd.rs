//! Cache-tiled GEMM whose innermost loop works on groups of
//! `SIMD_LANES` consecutive columns at once.
//!
//! Inside each `TILE x TILE` block, one element `A[i, p]` is broadcast to
//! every lane, multiplied lane-wise with `SIMD_LANES` consecutive elements
//! of row `p` of `B` and added to the matching elements of row `i` of `C`;
//! the columns of a tile that do not fill a whole group are handled one at
//! a time. Every output element still accumulates its terms in increasing
//! order of the inner index, so the result is the same as the naive
//! engine's.

use vstd::prelude::*;

use crate::types::{GemmElement, GemmError, validate_gemm_dims, gemm_dims_check, gemm_dims_valid};
use crate::matrix::{gemm_result, lemma_index_bound};
use crate::cpu::{gemm_outcome_exact, zero_window, tile_state, cursor, lemma_tile_state_same, lemma_tile_step,
    lemma_tile_state_ends};
use crate::cpu::tiled::block_end;
use crate::GemmEngine;

verus! {

/// Number of elements processed together in the innermost loop.
pub const SIMD_LANES: usize = 4;

/// Tiled GEMM engine whose innermost loop runs in lane groups; tile side
/// `TILE`, which must be positive (a zero tile size is taken as one).
pub struct SimdGemm<const TILE: usize>;

impl<const TILE: usize, T: GemmElement> GemmEngine<T> for SimdGemm<TILE> {
    type Error = GemmError;

    open spec fn gemm_outcome(
        &self, m: usize, k: usize, n: usize, a: Seq<T>, lda: usize, b: Seq<T>, ldb: usize,
        c_before: Seq<T>, c_after: Seq<T>, ldc: usize, r: Result<(), GemmError>,
    ) -> bool {
        gemm_outcome_exact(m, k, n, a, lda, b, ldb, c_before, c_after, ldc, r)
    }

    fn gemm(
        &self,
        m: usize,
        k: usize,
        n: usize,
        a: &[T],
        lda: usize,
        b: &[T],
        ldb: usize,
        c: &mut [T],
        ldc: usize,
    ) -> (r: Result<(), GemmError>)
        ensures
            r == gemm_dims_check(m, k, n, lda, ldb, ldc, a@.len() as usize, b@.len() as usize, old(c)@.len() as usize),
            r is Ok ==> final(c)@ == gemm_result(old(c)@, m as int, k as int, n as int, a@, lda as int, b@, ldb as int, ldc as int),
    {
        let a_len = a.len();
        let b_len = b.len();
        let c_len = c.len();
        match validate_gemm_dims(m, k, n, lda, ldb, ldc, a_len, b_len, c_len) {
            Err(e) => return Err(e),
            Ok(_) => {},
        }
        let ghost c0 = c@;
        let ghost a0 = a@;
        let ghost b0 = b@;
        zero_window(c, m, n, ldc);
        proof {
            lemma_tile_state_ends(c0, m as int, k as int, n as int, a0, lda as int, b0, ldb as int, ldc as int);
        }
        let tile: usize = if TILE == 0 { 1 } else { TILE };

        let mut ii: usize = 0;
        while ii < m
            invariant
                gemm_dims_valid(m, k, n, lda, ldb, ldc, a_len, b_len, c_len),
                a@ == a0, b@ == b0, a0.len() == a_len, b0.len() == b_len, c0.len() == c_len,
                tile > 0,
                ii <= m,
                c@ == tile_state(c0, m as int, k as int, n as int, a0, lda as int, b0, ldb as int, ldc as int,
                    cursor(ii as int, ii as int, 0, 0, 0, 0, ii as int, 0, 0)),
            decreases m - ii,
        {
            let i_end = block_end(ii, tile, m);
            proof {
                lemma_tile_state_same(c0, m as int, k as int, n as int, a0, lda as int, b0, ldb as int, ldc as int,
                    cursor(ii as int, ii as int, 0, 0, 0, 0, ii as int, 0, 0),
                    cursor(ii as int, i_end as int, 0, 0, 0, 0, ii as int, 0, 0));
            }
            let mut kk: usize = 0;
            while kk < k
                invariant
                    gemm_dims_valid(m, k, n, lda, ldb, ldc, a_len, b_len, c_len),
                    a@ == a0, b@ == b0, a0.len() == a_len, b0.len() == b_len, c0.len() == c_len,
                    tile > 0,
                    ii < i_end <= m,
                    kk <= k,
                    c@ == tile_state(c0, m as int, k as int, n as int, a0, lda as int, b0, ldb as int, ldc as int,
                        cursor(ii as int, i_end as int, kk as int, kk as int, 0, 0, ii as int, kk as int, 0)),
                decreases k - kk,
            {
                let k_end = block_end(kk, tile, k);
                proof {
                    lemma_tile_state_same(c0, m as int, k as int, n as int, a0, lda as int, b0, ldb as int, ldc as int,
                        cursor(ii as int, i_end as int, kk as int, kk as int, 0, 0, ii as int, kk as int, 0),
                        cursor(ii as int, i_end as int, kk as int, k_end as int, 0, 0, ii as int, kk as int, 0));
                }
                let mut jj: usize = 0;
                while jj < n
                    invariant
                        gemm_dims_valid(m, k, n, lda, ldb, ldc, a_len, b_len, c_len),
                        a@ == a0, b@ == b0, a0.len() == a_len, b0.len() == b_len, c0.len() == c_len,
                        tile > 0,
                        ii < i_end <= m,
                        kk < k_end <= k,
                        jj <= n,
                        c@ == tile_state(c0, m as int, k as int, n as int, a0, lda as int, b0, ldb as int, ldc as int,
                            cursor(ii as int, i_end as int, kk as int, k_end as int, jj as int, jj as int, ii as int, kk as int, jj as int)),
                    decreases n - jj,
                {
                    let j_end = block_end(jj, tile, n);
                    proof {
                        lemma_tile_state_same(c0, m as int, k as int, n as int, a0, lda as int, b0, ldb as int, ldc as int,
                            cursor(ii as int, i_end as int, kk as int, k_end as int, jj as int, jj as int, ii as int, kk as int, jj as int),
                            cursor(ii as int, i_end as int, kk as int, k_end as int, jj as int, j_end as int, ii as int, kk as int, jj as int));
                    }
                    // How many columns of this tile fill whole lane groups.
                    let j_len = j_end - jj;
                    let j_simd_end = jj + (j_len / SIMD_LANES) * SIMD_LANES;
                    // Micro-kernel on the tile: i -> p -> j.
                    let mut i: usize = ii;
                    while i < i_end
                        invariant
                            gemm_dims_valid(m, k, n, lda, ldb, ldc, a_len, b_len, c_len),
                            a@ == a0, b@ == b0, a0.len() == a_len, b0.len() == b_len, c0.len() == c_len,
                            ii <= i <= i_end <= m,
                            kk < k_end <= k,
                            jj < j_end <= n,
                            jj <= j_simd_end <= j_end,
                            (j_simd_end - jj) % 4 == 0,
                            c@ == tile_state(c0, m as int, k as int, n as int, a0, lda as int, b0, ldb as int, ldc as int,
                                cursor(ii as int, i_end as int, kk as int, k_end as int, jj as int, j_end as int, i as int, kk as int, jj as int)),
                        decreases i_end - i,
                    {
                        let mut p: usize = kk;
                        while p < k_end
                            invariant
                                gemm_dims_valid(m, k, n, lda, ldb, ldc, a_len, b_len, c_len),
                                a@ == a0, b@ == b0, a0.len() == a_len, b0.len() == b_len, c0.len() == c_len,
                                ii <= i < i_end <= m,
                                kk <= p <= k_end <= k,
                                jj < j_end <= n,
                                jj <= j_simd_end <= j_end,
                                (j_simd_end - jj) % 4 == 0,
                                c@ == tile_state(c0, m as int, k as int, n as int, a0, lda as int, b0, ldb as int, ldc as int,
                                    cursor(ii as int, i_end as int, kk as int, k_end as int, jj as int, j_end as int, i as int, p as int, jj as int)),
                            decreases k_end - p,
                        {
                            proof {
                                lemma_index_bound(i as int, p as int, m as int, k as int, lda as int);
                            }
                            let a_val = a[i * lda + p];
                            // Full lane groups: A[i, p] broadcast against SIMD_LANES
                            // consecutive elements of row p of B and row i of C.
                            let mut j: usize = jj;
                            while j < j_simd_end
                                invariant
                                    gemm_dims_valid(m, k, n, lda, ldb, ldc, a_len, b_len, c_len),
                                    a@ == a0, b@ == b0, a0.len() == a_len, b0.len() == b_len, c0.len() == c_len,
                                    ii <= i < i_end <= m,
                                    kk <= p < k_end <= k,
                                    a_val == a0[i * lda + p],
                                    c@ == tile_state(c0, m as int, k as int, n as int, a0, lda as int, b0, ldb as int, ldc as int,
                                        cursor(ii as int, i_end as int, kk as int, k_end as int, jj as int, j_end as int, i as int, p as int, j as int)),
                                    jj <= j <= j_simd_end <= j_end <= n,
                                    (j_simd_end - j) % 4 == 0,
                                decreases j_simd_end - j,
                            {
                                proof {
                                    lemma_index_bound(p as int, j + 3, k as int, n as int, ldb as int);
                                    lemma_index_bound(i as int, j + 3, m as int, n as int, ldc as int);
                                    lemma_tile_step(c0, m as int, k as int, n as int, a0, lda as int, b0, ldb as int, ldc as int,
                                        cursor(ii as int, i_end as int, kk as int, k_end as int, jj as int, j_end as int, i as int, p as int, j as int));
                                    lemma_tile_step(c0, m as int, k as int, n as int, a0, lda as int, b0, ldb as int, ldc as int,
                                        cursor(ii as int, i_end as int, kk as int, k_end as int, jj as int, j_end as int, i as int, p as int, j + 1));
                                    lemma_tile_step(c0, m as int, k as int, n as int, a0, lda as int, b0, ldb as int, ldc as int,
                                        cursor(ii as int, i_end as int, kk as int, k_end as int, jj as int, j_end as int, i as int, p as int, j + 2));
                                    lemma_tile_step(c0, m as int, k as int, n as int, a0, lda as int, b0, ldb as int, ldc as int,
                                        cursor(ii as int, i_end as int, kk as int, k_end as int, jj as int, j_end as int, i as int, p as int, j + 3));
                                }
                                let bi = p * ldb + j;
                                let ci = i * ldc + j;
                                // Load the lanes of B[p, j..j+4] and C[i, j..j+4].
                                let b_0 = b[bi];
                                let b_1 = b[bi + 1];
                                let b_2 = b[bi + 2];
                                let b_3 = b[bi + 3];
                                let c_0 = c[ci];
                                let c_1 = c[ci + 1];
                                let c_2 = c[ci + 2];
                                let c_3 = c[ci + 3];
                                // Lane-wise multiply-add, then store back.
                                let r_0 = a_val.mul_add(b_0, c_0);
                                let r_1 = a_val.mul_add(b_1, c_1);
                                let r_2 = a_val.mul_add(b_2, c_2);
                                let r_3 = a_val.mul_add(b_3, c_3);
                                c[ci] = r_0;
                                c[ci + 1] = r_1;
                                c[ci + 2] = r_2;
                                c[ci + 3] = r_3;
                                j += SIMD_LANES;
                            }
                            // Scalar remainder for the columns that do not fill a lane group.
                            while j < j_end
                                invariant
                                    gemm_dims_valid(m, k, n, lda, ldb, ldc, a_len, b_len, c_len),
                                    a@ == a0, b@ == b0, a0.len() == a_len, b0.len() == b_len, c0.len() == c_len,
                                    ii <= i < i_end <= m,
                                    kk <= p < k_end <= k,
                                    a_val == a0[i * lda + p],
                                    c@ == tile_state(c0, m as int, k as int, n as int, a0, lda as int, b0, ldb as int, ldc as int,
                                        cursor(ii as int, i_end as int, kk as int, k_end as int, jj as int, j_end as int, i as int, p as int, j as int)),
                                    jj <= j_simd_end <= j <= j_end <= n,
                                decreases j_end - j,
                            {
                                proof {
                                    lemma_index_bound(p as int, j as int, k as int, n as int, ldb as int);
                                    lemma_tile_step(c0, m as int, k as int, n as int, a0, lda as int, b0, ldb as int, ldc as int,
                                        cursor(ii as int, i_end as int, kk as int, k_end as int, jj as int, j_end as int, i as int, p as int, j as int));
                                }
                                let idx = i * ldc + j;
                                c[idx] = a_val.mul_add(b[p * ldb + j], c[idx]);
                                j += 1;
                            }
                            proof {
                                lemma_tile_state_same(c0, m as int, k as int, n as int, a0, lda as int, b0, ldb as int, ldc as int,
                                    cursor(ii as int, i_end as int, kk as int, k_end as int, jj as int, j_end as int, i as int, p as int, j as int),
                                    cursor(ii as int, i_end as int, kk as int, k_end as int, jj as int, j_end as int, i as int, p + 1, jj as int));
                            }
                            p += 1;
                        }
                        proof {
                            lemma_tile_state_same(c0, m as int, k as int, n as int, a0, lda as int, b0, ldb as int, ldc as int,
                                cursor(ii as int, i_end as int, kk as int, k_end as int, jj as int, j_end as int, i as int, p as int, jj as int),
                                cursor(ii as int, i_end as int, kk as int, k_end as int, jj as int, j_end as int, i + 1, kk as int, jj as int));
                        }
                        i += 1;
                    }
                    proof {
                        lemma_tile_state_same(c0, m as int, k as int, n as int, a0, lda as int, b0, ldb as int, ldc as int,
                            cursor(ii as int, i_end as int, kk as int, k_end as int, jj as int, j_end as int, i as int, kk as int, jj as int),
                            cursor(ii as int, i_end as int, kk as int, k_end as int, j_end as int, j_end as int, ii as int, kk as int, j_end as int));
                    }
                    jj = j_end;
                }
                proof {
                    lemma_tile_state_same(c0, m as int, k as int, n as int, a0, lda as int, b0, ldb as int, ldc as int,
                        cursor(ii as int, i_end as int, kk as int, k_end as int, jj as int, jj as int, ii as int, kk as int, jj as int),
                        cursor(ii as int, i_end as int, k_end as int, k_end as int, 0, 0, ii as int, k_end as int, 0));
                }
                kk = k_end;
            }
            proof {
                lemma_tile_state_same(c0, m as int, k as int, n as int, a0, lda as int, b0, ldb as int, ldc as int,
                    cursor(ii as int, i_end as int, kk as int, kk as int, 0, 0, ii as int, kk as int, 0),
                    cursor(i_end as int, i_end as int, 0, 0, 0, 0, i_end as int, 0, 0));
            }
            ii = i_end;
        }
        proof {
            lemma_tile_state_same(c0, m as int, k as int, n as int, a0, lda as int, b0, ldb as int, ldc as int,
                cursor(ii as int, ii as int, 0, 0, 0, 0, ii as int, 0, 0),
                cursor(m as int, m as int, 0, 0, 0, 0, m as int, 0, 0));
        }
        Ok(())
    }
}

/// SIMD engine with 64 x 64 tiles.
pub type SimdGemm64 = SimdGemm<64>;

} // verus!
