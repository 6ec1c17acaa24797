//! Naive `O(m * n * k)` GEMM: the textbook triple loop with stride-aware
//! indexing, and the reference the other engines are held to.

use vstd::prelude::*;

use crate::types::{GemmElement, GemmError, validate_gemm_dims, gemm_dims_check, gemm_dims_valid};
use crate::matrix::{dot_prefix, fill_window, gemm_result, lemma_fill_window_ext,
    lemma_fill_window_update, lemma_index_bound};
use crate::GemmEngine;
use crate::cpu::{gemm_outcome_exact, zero_window};

verus! {

/// Naive GEMM engine: loop order `i -> j -> p`, one accumulator per output
/// element.
pub struct NaiveGemm;

impl<T: GemmElement> GemmEngine<T> for NaiveGemm {
    type Error = GemmError;

    open spec fn gemm_outcome(
        &self, m: usize, k: usize, n: usize, a: Seq<T>, lda: usize, b: Seq<T>, ldb: usize,
        c_before: Seq<T>, c_after: Seq<T>, ldc: usize, r: Result<(), GemmError>,
    ) -> bool {
        gemm_outcome_exact(m, k, n, a, lda, b, ldb, c_before, c_after, ldc, r)
    }

    fn gemm(
        &self,
        m: usize,
        k: usize,
        n: usize,
        a: &[T],
        lda: usize,
        b: &[T],
        ldb: usize,
        c: &mut [T],
        ldc: usize,
    ) -> (r: Result<(), GemmError>)
        ensures
            r == gemm_dims_check(m, k, n, lda, ldb, ldc, a@.len() as usize, b@.len() as usize, old(c)@.len() as usize),
            r is Ok ==> final(c)@ == gemm_result(old(c)@, m as int, k as int, n as int, a@, lda as int, b@, ldb as int, ldc as int),
    {
        let a_len = a.len();
        let b_len = b.len();
        let c_len = c.len();
        match validate_gemm_dims(m, k, n, lda, ldb, ldc, a_len, b_len, c_len) {
            Err(e) => return Err(e),
            Ok(_) => {},
        }
        let ghost c0 = c@;
        // Zero the output window.
        zero_window(c, m, n, ldc);

        // C[i][j] = sum over p of A[i][p] * B[p][j], accumulated in order.
        proof {
            lemma_fill_window_ext(c0, m as int, n as int, ldc as int,
                |r: int, s: int| T::spec_zero(),
                |r: int, s: int| if r < 0 { dot_prefix(a@, lda as int, b@, ldb as int, r, s, k as nat) } else { T::spec_zero() });
        }
        let mut i: usize = 0;
        while i < m
            invariant
                gemm_dims_valid(m, k, n, lda, ldb, ldc, a_len, b_len, c_len),
                a@.len() == a_len, b@.len() == b_len, c0.len() == c_len,
                i <= m,
                c@ == fill_window(c0, m as int, n as int, ldc as int,
                    |r: int, s: int| if r < i { dot_prefix(a@, lda as int, b@, ldb as int, r, s, k as nat) } else { T::spec_zero() }),
            decreases m - i,
        {
            let mut j: usize = 0;
            while j < n
                invariant
                    gemm_dims_valid(m, k, n, lda, ldb, ldc, a_len, b_len, c_len),
                    a@.len() == a_len, b@.len() == b_len, c0.len() == c_len,
                    i < m,
                    j <= n,
                    c@ == fill_window(c0, m as int, n as int, ldc as int,
                        |r: int, s: int| if r < i || (r == i && s < j) { dot_prefix(a@, lda as int, b@, ldb as int, r, s, k as nat) } else { T::spec_zero() }),
                decreases n - j,
            {
                let mut sum = T::zero();
                let mut p: usize = 0;
                while p < k
                    invariant
                        gemm_dims_valid(m, k, n, lda, ldb, ldc, a_len, b_len, c_len),
                        a@.len() == a_len, b@.len() == b_len, c0.len() == c_len,
                        i < m,
                        j < n,
                        p <= k,
                        sum == dot_prefix(a@, lda as int, b@, ldb as int, i as int, j as int, p as nat),
                    decreases k - p,
                {
                    proof {
                        lemma_index_bound(i as int, p as int, m as int, k as int, lda as int);
                        lemma_index_bound(p as int, j as int, k as int, n as int, ldb as int);
                    }
                    sum = a[i * lda + p].mul_add(b[p * ldb + j], sum);
                    p += 1;
                }
                proof {
                    lemma_fill_window_update(c0, m as int, n as int, ldc as int,
                        |r: int, s: int| if r < i || (r == i && s < j) { dot_prefix(a@, lda as int, b@, ldb as int, r, s, k as nat) } else { T::spec_zero() },
                        |r: int, s: int| if r < i || (r == i && s < j + 1) { dot_prefix(a@, lda as int, b@, ldb as int, r, s, k as nat) } else { T::spec_zero() },
                        i as int, j as int);
                }
                c[i * ldc + j] = sum;
                j += 1;
            }
            proof {
                lemma_fill_window_ext(c0, m as int, n as int, ldc as int,
                    |r: int, s: int| if r < i || (r == i && s < j) { dot_prefix(a@, lda as int, b@, ldb as int, r, s, k as nat) } else { T::spec_zero() },
                    |r: int, s: int| if r < i + 1 { dot_prefix(a@, lda as int, b@, ldb as int, r, s, k as nat) } else { T::spec_zero() });
            }
            i += 1;
        }
        proof {
            lemma_fill_window_ext(c0, m as int, n as int, ldc as int,
                |r: int, s: int| if r < i { dot_prefix(a@, lda as int, b@, ldb as int, r, s, k as nat) } else { T::spec_zero() },
                |r: int, s: int| dot_prefix(a@, lda as int, b@, ldb as int, r, s, k as nat));
        }
        Ok(())
    }
}

} // verus!
