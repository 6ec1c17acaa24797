//! Cache-tiled GEMM with a compile-time tile size.
//!
//! The matrices are processed in `TILE x TILE` blocks in the order
//! `block_i -> block_k -> block_j -> i -> p -> j`: the innermost loop walks
//! rows of `B` and `C` sequentially while one element of `A` is reused.
//! For each output element the inner index still runs from `0` to `k` in
//! increasing order, so the result is the same as the naive engine's.

use vstd::prelude::*;

use crate::types::{GemmElement, GemmError, validate_gemm_dims, gemm_dims_check, gemm_dims_valid};
use crate::matrix::{gemm_result, lemma_index_bound};
use crate::cpu::{gemm_outcome_exact, zero_window, tile_state, cursor, lemma_tile_state_same, lemma_tile_step,
    lemma_tile_state_ends};
use crate::GemmEngine;

verus! {

/// Cache-tiled GEMM engine with tile side `TILE`, which must be positive
/// (a zero tile size is taken as one).
pub struct TiledGemm<const TILE: usize>;

/// The end of the block that starts at `start`: `min(start + tile, limit)`.
pub(crate) fn block_end(start: usize, tile: usize, limit: usize) -> (r: usize)
    requires
        start < limit,
        tile > 0,
    ensures
        r == if start + tile < limit { start + tile } else { limit as int },
        start < r <= limit,
{
    if limit - start <= tile { limit } else { start + tile }
}

impl<const TILE: usize, T: GemmElement> GemmEngine<T> for TiledGemm<TILE> {
    type Error = GemmError;

    open spec fn gemm_outcome(
        &self, m: usize, k: usize, n: usize, a: Seq<T>, lda: usize, b: Seq<T>, ldb: usize,
        c_before: Seq<T>, c_after: Seq<T>, ldc: usize, r: Result<(), GemmError>,
    ) -> bool {
        gemm_outcome_exact(m, k, n, a, lda, b, ldb, c_before, c_after, ldc, r)
    }

    fn gemm(
        &self,
        m: usize,
        k: usize,
        n: usize,
        a: &[T],
        lda: usize,
        b: &[T],
        ldb: usize,
        c: &mut [T],
        ldc: usize,
    ) -> (r: Result<(), GemmError>)
        ensures
            r == gemm_dims_check(m, k, n, lda, ldb, ldc, a@.len() as usize, b@.len() as usize, old(c)@.len() as usize),
            r is Ok ==> final(c)@ == gemm_result(old(c)@, m as int, k as int, n as int, a@, lda as int, b@, ldb as int, ldc as int),
    {
        let a_len = a.len();
        let b_len = b.len();
        let c_len = c.len();
        match validate_gemm_dims(m, k, n, lda, ldb, ldc, a_len, b_len, c_len) {
            Err(e) => return Err(e),
            Ok(_) => {},
        }
        let ghost c0 = c@;
        let ghost a0 = a@;
        let ghost b0 = b@;
        zero_window(c, m, n, ldc);
        proof {
            lemma_tile_state_ends(c0, m as int, k as int, n as int, a0, lda as int, b0, ldb as int, ldc as int);
        }
        let tile: usize = if TILE == 0 { 1 } else { TILE };

        let mut ii: usize = 0;
        while ii < m
            invariant
                gemm_dims_valid(m, k, n, lda, ldb, ldc, a_len, b_len, c_len),
                a@ == a0, b@ == b0, a0.len() == a_len, b0.len() == b_len, c0.len() == c_len,
                tile > 0,
                ii <= m,
                c@ == tile_state(c0, m as int, k as int, n as int, a0, lda as int, b0, ldb as int, ldc as int,
                    cursor(ii as int, ii as int, 0, 0, 0, 0, ii as int, 0, 0)),
            decreases m - ii,
        {
            let i_end = block_end(ii, tile, m);
            proof {
                lemma_tile_state_same(c0, m as int, k as int, n as int, a0, lda as int, b0, ldb as int, ldc as int,
                    cursor(ii as int, ii as int, 0, 0, 0, 0, ii as int, 0, 0),
                    cursor(ii as int, i_end as int, 0, 0, 0, 0, ii as int, 0, 0));
            }
            let mut kk: usize = 0;
            while kk < k
                invariant
                    gemm_dims_valid(m, k, n, lda, ldb, ldc, a_len, b_len, c_len),
                    a@ == a0, b@ == b0, a0.len() == a_len, b0.len() == b_len, c0.len() == c_len,
                    tile > 0,
                    ii < i_end <= m,
                    kk <= k,
                    c@ == tile_state(c0, m as int, k as int, n as int, a0, lda as int, b0, ldb as int, ldc as int,
                        cursor(ii as int, i_end as int, kk as int, kk as int, 0, 0, ii as int, kk as int, 0)),
                decreases k - kk,
            {
                let k_end = block_end(kk, tile, k);
                proof {
                    lemma_tile_state_same(c0, m as int, k as int, n as int, a0, lda as int, b0, ldb as int, ldc as int,
                        cursor(ii as int, i_end as int, kk as int, kk as int, 0, 0, ii as int, kk as int, 0),
                        cursor(ii as int, i_end as int, kk as int, k_end as int, 0, 0, ii as int, kk as int, 0));
                }
                let mut jj: usize = 0;
                while jj < n
                    invariant
                        gemm_dims_valid(m, k, n, lda, ldb, ldc, a_len, b_len, c_len),
                        a@ == a0, b@ == b0, a0.len() == a_len, b0.len() == b_len, c0.len() == c_len,
                        tile > 0,
                        ii < i_end <= m,
                        kk < k_end <= k,
                        jj <= n,
                        c@ == tile_state(c0, m as int, k as int, n as int, a0, lda as int, b0, ldb as int, ldc as int,
                            cursor(ii as int, i_end as int, kk as int, k_end as int, jj as int, jj as int, ii as int, kk as int, jj as int)),
                    decreases n - jj,
                {
                    let j_end = block_end(jj, tile, n);
                    proof {
                        lemma_tile_state_same(c0, m as int, k as int, n as int, a0, lda as int, b0, ldb as int, ldc as int,
                            cursor(ii as int, i_end as int, kk as int, k_end as int, jj as int, jj as int, ii as int, kk as int, jj as int),
                            cursor(ii as int, i_end as int, kk as int, k_end as int, jj as int, j_end as int, ii as int, kk as int, jj as int));
                    }
                    // Micro-kernel on the tile: i -> p -> j.
                    let mut i: usize = ii;
                    while i < i_end
                        invariant
                            gemm_dims_valid(m, k, n, lda, ldb, ldc, a_len, b_len, c_len),
                            a@ == a0, b@ == b0, a0.len() == a_len, b0.len() == b_len, c0.len() == c_len,
                            ii <= i <= i_end <= m,
                            kk < k_end <= k,
                            jj < j_end <= n,
                            c@ == tile_state(c0, m as int, k as int, n as int, a0, lda as int, b0, ldb as int, ldc as int,
                                cursor(ii as int, i_end as int, kk as int, k_end as int, jj as int, j_end as int, i as int, kk as int, jj as int)),
                        decreases i_end - i,
                    {
                        let mut p: usize = kk;
                        while p < k_end
                            invariant
                                gemm_dims_valid(m, k, n, lda, ldb, ldc, a_len, b_len, c_len),
                                a@ == a0, b@ == b0, a0.len() == a_len, b0.len() == b_len, c0.len() == c_len,
                                ii <= i < i_end <= m,
                                kk <= p <= k_end <= k,
                                jj < j_end <= n,
                                c@ == tile_state(c0, m as int, k as int, n as int, a0, lda as int, b0, ldb as int, ldc as int,
                                    cursor(ii as int, i_end as int, kk as int, k_end as int, jj as int, j_end as int, i as int, p as int, jj as int)),
                            decreases k_end - p,
                        {
                            proof {
                                lemma_index_bound(i as int, p as int, m as int, k as int, lda as int);
                            }
                            let a_ip = a[i * lda + p];
                            let mut j: usize = jj;
                            while j < j_end
                                invariant
                                    gemm_dims_valid(m, k, n, lda, ldb, ldc, a_len, b_len, c_len),
                                    a@ == a0, b@ == b0, a0.len() == a_len, b0.len() == b_len, c0.len() == c_len,
                                    ii <= i < i_end <= m,
                                    kk <= p < k_end <= k,
                                    jj <= j <= j_end <= n,
                                    a_ip == a0[i * lda + p],
                                    c@ == tile_state(c0, m as int, k as int, n as int, a0, lda as int, b0, ldb as int, ldc as int,
                                        cursor(ii as int, i_end as int, kk as int, k_end as int, jj as int, j_end as int, i as int, p as int, j as int)),
                                decreases j_end - j,
                            {
                                proof {
                                    lemma_index_bound(p as int, j as int, k as int, n as int, ldb as int);
                                    lemma_tile_step(c0, m as int, k as int, n as int, a0, lda as int, b0, ldb as int, ldc as int,
                                        cursor(ii as int, i_end as int, kk as int, k_end as int, jj as int, j_end as int, i as int, p as int, j as int));
                                }
                                let idx = i * ldc + j;
                                c[idx] = a_ip.mul_add(b[p * ldb + j], c[idx]);
                                j += 1;
                            }
                            proof {
                                lemma_tile_state_same(c0, m as int, k as int, n as int, a0, lda as int, b0, ldb as int, ldc as int,
                                    cursor(ii as int, i_end as int, kk as int, k_end as int, jj as int, j_end as int, i as int, p as int, j as int),
                                    cursor(ii as int, i_end as int, kk as int, k_end as int, jj as int, j_end as int, i as int, p + 1, jj as int));
                            }
                            p += 1;
                        }
                        proof {
                            lemma_tile_state_same(c0, m as int, k as int, n as int, a0, lda as int, b0, ldb as int, ldc as int,
                                cursor(ii as int, i_end as int, kk as int, k_end as int, jj as int, j_end as int, i as int, p as int, jj as int),
                                cursor(ii as int, i_end as int, kk as int, k_end as int, jj as int, j_end as int, i + 1, kk as int, jj as int));
                        }
                        i += 1;
                    }
                    proof {
                        lemma_tile_state_same(c0, m as int, k as int, n as int, a0, lda as int, b0, ldb as int, ldc as int,
                            cursor(ii as int, i_end as int, kk as int, k_end as int, jj as int, j_end as int, i as int, kk as int, jj as int),
                            cursor(ii as int, i_end as int, kk as int, k_end as int, j_end as int, j_end as int, ii as int, kk as int, j_end as int));
                    }
                    jj = j_end;
                }
                proof {
                    lemma_tile_state_same(c0, m as int, k as int, n as int, a0, lda as int, b0, ldb as int, ldc as int,
                        cursor(ii as int, i_end as int, kk as int, k_end as int, jj as int, jj as int, ii as int, kk as int, jj as int),
                        cursor(ii as int, i_end as int, k_end as int, k_end as int, 0, 0, ii as int, k_end as int, 0));
                }
                kk = k_end;
            }
            proof {
                lemma_tile_state_same(c0, m as int, k as int, n as int, a0, lda as int, b0, ldb as int, ldc as int,
                    cursor(ii as int, i_end as int, kk as int, kk as int, 0, 0, ii as int, kk as int, 0),
                    cursor(i_end as int, i_end as int, 0, 0, 0, 0, i_end as int, 0, 0));
            }
            ii = i_end;
        }
        proof {
            lemma_tile_state_same(c0, m as int, k as int, n as int, a0, lda as int, b0, ldb as int, ldc as int,
                cursor(ii as int, ii as int, 0, 0, 0, 0, ii as int, 0, 0),
                cursor(m as int, m as int, 0, 0, 0, 0, m as int, 0, 0));
        }
        Ok(())
    }
}

/// Tiled engine with 64 x 64 tiles.
pub type TiledGemm64 = TiledGemm<64>;

/// Tiled engine with 128 x 128 tiles, for CPUs with larger caches.
pub type TiledGemm128 = TiledGemm<128>;

/// Tiled engine with 32 x 32 tiles.
pub type TiledGemm32 = TiledGemm<32>;

} // verus!
