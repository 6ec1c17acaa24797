//! Quasar-BLAS: dense matrix multiplication (GEMM) engines with strided
//! (leading-dimension) matrix layouts, verified against a mathematical model.
//!
//! All engines implement [`GemmEngine`], which takes the matrix dimensions,
//! the slices and the leading dimension (stride) of each matrix. Element
//! `(i, j)` of a matrix with leading dimension `ld` is `data[i * ld + j]`.

pub mod types;
pub mod matrix;
pub mod cpu;
pub mod embedded;
pub mod gpu;
pub mod laws;

use vstd::prelude::*;

use crate::types::{GemmElement, gemm_dims_valid, gemm_lengths_fit};
use crate::matrix::in_window;

verus! {

/// Universal GEMM engine trait: `C = A x B` where `A` is `m x k`, `B` is
/// `k x n` and `C` is `m x n`, each given by a slice and a leading
/// dimension (the number of elements between consecutive rows).
///
/// Every engine checks the dimensions first: it only succeeds on valid
/// dimensions, and when it fails it leaves `c` as it was. Elements of `c`
/// outside the `m x n` window are never written.
pub trait GemmEngine<T: GemmElement> {
    /// Error type of this engine.
    type Error: core::fmt::Debug;

    /// What a call of `gemm` may do: the engine returns `r` and turns the
    /// output slice `c_before` into `c_after`. An engine that does not
    /// describe its outcome leaves this as `true`.
    open spec fn gemm_outcome(
        &self, m: usize, k: usize, n: usize, a: Seq<T>, lda: usize, b: Seq<T>, ldb: usize,
        c_before: Seq<T>, c_after: Seq<T>, ldc: usize, r: Result<(), Self::Error>,
    ) -> bool {
        true
    }

    /// Perform General Matrix Multiply: `C = A x B`.
    fn gemm(
        &self,
        m: usize,
        k: usize,
        n: usize,
        a: &[T],
        lda: usize,
        b: &[T],
        ldb: usize,
        c: &mut [T],
        ldc: usize,
    ) -> (r: Result<(), Self::Error>)
        requires
            gemm_lengths_fit(m, k, n, lda, ldb, ldc),
        ensures
            r is Ok ==> gemm_dims_valid(m, k, n, lda, ldb, ldc, a@.len() as usize, b@.len() as usize, old(c)@.len() as usize),
            r is Err ==> final(c)@ == old(c)@,
            final(c)@.len() == old(c)@.len(),
            r is Ok ==> forall|x: int| 0 <= x < old(c)@.len() && !in_window(x, m as int, n as int, ldc as int)
                ==> #[trigger] final(c)@[x] == old(c)@[x],
            self.gemm_outcome(m, k, n, a@, lda, b@, ldb, old(c)@, final(c)@, ldc, r),
    ;
}

/// GEMM on contiguous row-major matrices: one call of `engine.gemm` with
/// the tight leading dimensions (`lda = k`, `ldb = n`, `ldc = n`), whose
/// result and effect on `c` are passed on as they are.
pub fn gemm_simple<T: GemmElement, E: GemmEngine<T>>(
    engine: &E,
    m: usize,
    k: usize,
    n: usize,
    a: &[T],
    b: &[T],
    c: &mut [T],
) -> (r: Result<(), E::Error>)
    requires
        gemm_lengths_fit(m, k, n, k, n, n),
    ensures
        r is Ok ==> gemm_dims_valid(m, k, n, k, n, n, a@.len() as usize, b@.len() as usize, old(c)@.len() as usize),
        r is Err ==> final(c)@ == old(c)@,
        final(c)@.len() == old(c)@.len(),
        r is Ok ==> forall|x: int| 0 <= x < old(c)@.len() && !in_window(x, m as int, n as int, n as int)
            ==> #[trigger] final(c)@[x] == old(c)@[x],
        engine.gemm_outcome(m, k, n, a@, k, b@, n, old(c)@, final(c)@, n, r),
{
    engine.gemm(m, k, n, a, k, b, n, c, n)
}

} // verus!
