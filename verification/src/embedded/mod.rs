//! Embedded tier: a fixed-capacity arena and the integer core of the
//! quantized INT8 GEMM.
//!
//! The quantized GEMM quantizes `A` and `B` to `i8`, multiplies them with
//! `i32` accumulation, and scales the accumulators back. The middle step is
//! exact integer arithmetic and is done here:
//! `acc[i][j] = sum over p of (A_q[i][p] - za) * (B_q[p][j] - zb)`.

pub mod arena;

use vstd::prelude::*;

use crate::matrix::lemma_index_bound;
use crate::types::GemmError;
use crate::embedded::arena::StaticArena;

verus! {

/// The exact integer accumulation of the first `p` products of row `i` of
/// the quantized `A` (`m x k`, packed) with column `j` of the quantized `B`
/// (`k x n`, packed), each taken relative to its zero point.
pub open spec fn int8_dot(
    a_q: Seq<i8>, a_zero: i8, b_q: Seq<i8>, b_zero: i8, k: int, n: int, i: int, j: int, p: nat,
) -> int
    decreases p,
{
    if p == 0 {
        0
    } else {
        let q = (p - 1) as nat;
        int8_dot(a_q, a_zero, b_q, b_zero, k, n, i, j, q)
            + (a_q[i * k + q] - a_zero) * (b_q[q * n + j] - b_zero)
    }
}

/// Every partial accumulation fits in an `i32`.
pub open spec fn int8_sums_fit(
    a_q: Seq<i8>, a_zero: i8, b_q: Seq<i8>, b_zero: i8, m: int, k: int, n: int,
) -> bool {
    forall|i: int, j: int, p: nat|
        0 <= i < m && 0 <= j < n && p <= k ==>
            i32::MIN <= #[trigger] int8_dot(a_q, a_zero, b_q, b_zero, k, n, i, j, p) <= i32::MAX
}

proof fn lemma_int8_shift(
    a_q: Seq<i8>, a_zero: i8, b_q: Seq<i8>, b_zero: i8,
    a_q2: Seq<i8>, a_zero2: i8, b_q2: Seq<i8>, b_zero2: i8,
    m: int, k: int, n: int, i: int, j: int, p: nat,
)
    requires
        0 <= i < m,
        0 <= j < n,
        p <= k,
        a_q.len() >= m * k,
        b_q.len() >= k * n,
        forall|x: int| 0 <= x < m * k ==> #[trigger] a_q2[x] - a_zero2 == a_q[x] - a_zero,
        forall|x: int| 0 <= x < k * n ==> #[trigger] b_q2[x] - b_zero2 == b_q[x] - b_zero,
    ensures
        int8_dot(a_q2, a_zero2, b_q2, b_zero2, k, n, i, j, p) == int8_dot(a_q, a_zero, b_q, b_zero, k, n, i, j, p),
    decreases p,
{
    if p > 0 {
        let q = (p - 1) as int;
        lemma_int8_shift(a_q, a_zero, b_q, b_zero, a_q2, a_zero2, b_q2, b_zero2, m, k, n, i, j, (p - 1) as nat);
        lemma_index_bound(i, q, m, k, k);
        lemma_index_bound(q, j, k, n, n);
        assert((m - 1) * k + k == m * k) by (nonlinear_arith);
        assert((k - 1) * n + n == k * n) by (nonlinear_arith);
        assert(a_q2[i * k + q] - a_zero2 == a_q[i * k + q] - a_zero);
        assert(b_q2[q * n + j] - b_zero2 == b_q[q * n + j] - b_zero);
    }
}

/// Zero-point invariance: the INT8 accumulation only depends on each
/// quantized value relative to its matrix's zero point. Two inputs whose
/// entries of `A` differ from their zero point by the same amounts, and
/// likewise for `B` (for instance the same constant added to every entry of
/// `B` and to `B`'s zero point), give the same accumulator in every output
/// element.
pub proof fn int8_zero_point_invariance(
    a_q: Seq<i8>, a_zero: i8, b_q: Seq<i8>, b_zero: i8,
    a_q2: Seq<i8>, a_zero2: i8, b_q2: Seq<i8>, b_zero2: i8,
    m: int, k: int, n: int,
)
    requires
        0 <= k,
        a_q.len() >= m * k,
        b_q.len() >= k * n,
        forall|x: int| 0 <= x < m * k ==> #[trigger] a_q2[x] - a_zero2 == a_q[x] - a_zero,
        forall|x: int| 0 <= x < k * n ==> #[trigger] b_q2[x] - b_zero2 == b_q[x] - b_zero,
    ensures
        forall|i: int, j: int| 0 <= i < m && 0 <= j < n ==>
            #[trigger] int8_dot(a_q2, a_zero2, b_q2, b_zero2, k, n, i, j, k as nat)
                == int8_dot(a_q, a_zero, b_q, b_zero, k, n, i, j, k as nat),
{
    assert forall|i: int, j: int| 0 <= i < m && 0 <= j < n implies
        #[trigger] int8_dot(a_q2, a_zero2, b_q2, b_zero2, k, n, i, j, k as nat)
            == int8_dot(a_q, a_zero, b_q, b_zero, k, n, i, j, k as nat) by {
        lemma_int8_shift(a_q, a_zero, b_q, b_zero, a_q2, a_zero2, b_q2, b_zero2, m, k, n, i, j, k as nat);
    }
}

proof fn lemma_int8_transpose(
    a_q: Seq<i8>, a_zero: i8, b_q: Seq<i8>, b_zero: i8, at: Seq<i8>, bt: Seq<i8>,
    m: int, k: int, n: int, i: int, j: int, p: nat,
)
    requires
        0 <= i < m,
        0 <= j < n,
        p <= k,
        forall|r: int, q: int| 0 <= r < m && 0 <= q < k ==> #[trigger] at[q * m + r] == a_q[r * k + q],
        forall|q: int, s: int| 0 <= q < k && 0 <= s < n ==> #[trigger] bt[s * k + q] == b_q[q * n + s],
    ensures
        int8_dot(a_q, a_zero, b_q, b_zero, k, n, i, j, p) == int8_dot(bt, b_zero, at, a_zero, k, m, j, i, p),
    decreases p,
{
    if p > 0 {
        let q = (p - 1) as int;
        lemma_int8_transpose(a_q, a_zero, b_q, b_zero, at, bt, m, k, n, i, j, (p - 1) as nat);
        assert(at[q * m + i] == a_q[i * k + q]);
        assert(bt[j * k + q] == b_q[q * n + j]);
        let x = a_q[i * k + q] - a_zero;
        let y = b_q[q * n + j] - b_zero;
        assert(x * y == y * x) by (nonlinear_arith);
    }
}

/// Transpose law of the INT8 accumulation: with `At` (`k x m`) and `Bt`
/// (`n x k`) the transposes of `A` and `B`, element `(i, j)` of the
/// accumulation of `A x B` equals element `(j, i)` of the accumulation of
/// `Bt x At`, each matrix keeping its own zero point.
pub proof fn int8_transpose_law(
    a_q: Seq<i8>, a_zero: i8, b_q: Seq<i8>, b_zero: i8, at: Seq<i8>, bt: Seq<i8>,
    m: int, k: int, n: int,
)
    requires
        0 <= k,
        forall|r: int, q: int| 0 <= r < m && 0 <= q < k ==> #[trigger] at[q * m + r] == a_q[r * k + q],
        forall|q: int, s: int| 0 <= q < k && 0 <= s < n ==> #[trigger] bt[s * k + q] == b_q[q * n + s],
    ensures
        forall|i: int, j: int| 0 <= i < m && 0 <= j < n ==>
            #[trigger] int8_dot(a_q, a_zero, b_q, b_zero, k, n, i, j, k as nat)
                == int8_dot(bt, b_zero, at, a_zero, k, m, j, i, k as nat),
{
    assert forall|i: int, j: int| 0 <= i < m && 0 <= j < n implies
        #[trigger] int8_dot(a_q, a_zero, b_q, b_zero, k, n, i, j, k as nat)
            == int8_dot(bt, b_zero, at, a_zero, k, m, j, i, k as nat) by {
        lemma_int8_transpose(a_q, a_zero, b_q, b_zero, at, bt, m, k, n, i, j, k as nat);
    }
}

proof fn lemma_int8_zero_row(
    a_q: Seq<i8>, a_zero: i8, b_q: Seq<i8>, b_zero: i8, k: int, n: int, i: int, j: int, p: nat,
)
    requires
        p <= k,
        forall|q: int| 0 <= q < k ==> #[trigger] a_q[i * k + q] == a_zero,
    ensures
        int8_dot(a_q, a_zero, b_q, b_zero, k, n, i, j, p) == 0,
    decreases p,
{
    if p > 0 {
        lemma_int8_zero_row(a_q, a_zero, b_q, b_zero, k, n, i, j, (p - 1) as nat);
        assert(a_q[i * k + (p - 1)] == a_zero);
    }
}

/// Zero law: a row of `A` whose entries all equal `A`'s zero point (that
/// is, a row of real zeros) gives a zero accumulator in every column.
pub proof fn int8_zero_row_law(
    a_q: Seq<i8>, a_zero: i8, b_q: Seq<i8>, b_zero: i8, k: int, n: int, i: int,
)
    requires
        0 <= k,
        forall|q: int| 0 <= q < k ==> #[trigger] a_q[i * k + q] == a_zero,
    ensures
        forall|j: int| 0 <= j < n ==> #[trigger] int8_dot(a_q, a_zero, b_q, b_zero, k, n, i, j, k as nat) == 0,
{
    assert forall|j: int| 0 <= j < n implies #[trigger] int8_dot(a_q, a_zero, b_q, b_zero, k, n, i, j, k as nat) == 0 by {
        lemma_int8_zero_row(a_q, a_zero, b_q, b_zero, k, n, i, j, k as nat);
    }
}

proof fn lemma_int8_additive_b(
    a_q: Seq<i8>, a_zero: i8,
    b1: Seq<i8>, z1: i8, b2: Seq<i8>, z2: i8, b3: Seq<i8>, z3: i8,
    k: int, n: int, i: int, j: int, p: nat,
)
    requires
        0 <= j < n,
        p <= k,
        forall|q: int| 0 <= q < k ==> #[trigger] b3[q * n + j] - z3 == (b1[q * n + j] - z1) + (b2[q * n + j] - z2),
    ensures
        int8_dot(a_q, a_zero, b3, z3, k, n, i, j, p)
            == int8_dot(a_q, a_zero, b1, z1, k, n, i, j, p) + int8_dot(a_q, a_zero, b2, z2, k, n, i, j, p),
    decreases p,
{
    if p > 0 {
        let q = (p - 1) as int;
        lemma_int8_additive_b(a_q, a_zero, b1, z1, b2, z2, b3, z3, k, n, i, j, (p - 1) as nat);
        let x = a_q[i * k + q] - a_zero;
        let y1 = b1[q * n + j] - z1;
        let y2 = b2[q * n + j] - z2;
        assert(b3[q * n + j] - z3 == y1 + y2);
        assert(x * (y1 + y2) == x * y1 + x * y2) by (nonlinear_arith);
    }
}

/// Additivity in `B`: when every entry of `B3`, relative to its zero point,
/// is the sum of the matching entries of `B1` and `B2` relative to theirs,
/// the accumulators of `A x B3` are the sums of those of `A x B1` and
/// `A x B2`, in every output element.
pub proof fn int8_additive_in_b(
    a_q: Seq<i8>, a_zero: i8,
    b1: Seq<i8>, z1: i8, b2: Seq<i8>, z2: i8, b3: Seq<i8>, z3: i8,
    m: int, k: int, n: int,
)
    requires
        0 <= k,
        forall|q: int, s: int| 0 <= q < k && 0 <= s < n ==>
            #[trigger] b3[q * n + s] - z3 == (b1[q * n + s] - z1) + (b2[q * n + s] - z2),
    ensures
        forall|i: int, j: int| 0 <= i < m && 0 <= j < n ==>
            #[trigger] int8_dot(a_q, a_zero, b3, z3, k, n, i, j, k as nat)
                == int8_dot(a_q, a_zero, b1, z1, k, n, i, j, k as nat) + int8_dot(a_q, a_zero, b2, z2, k, n, i, j, k as nat),
{
    assert forall|i: int, j: int| 0 <= i < m && 0 <= j < n implies
        #[trigger] int8_dot(a_q, a_zero, b3, z3, k, n, i, j, k as nat)
            == int8_dot(a_q, a_zero, b1, z1, k, n, i, j, k as nat) + int8_dot(a_q, a_zero, b2, z2, k, n, i, j, k as nat) by {
        assert forall|q: int| 0 <= q < k implies #[trigger] b3[q * n + j] - z3 == (b1[q * n + j] - z1) + (b2[q * n + j] - z2) by {
            assert(b3[q * n + j] - z3 == (b1[q * n + j] - z1) + (b2[q * n + j] - z2));
        }
        lemma_int8_additive_b(a_q, a_zero, b1, z1, b2, z2, b3, z3, k, n, i, j, k as nat);
    }
}

/// One-term law: with inner dimension 1, each accumulator is the product of
/// the two quantized values, each taken relative to its zero point.
pub proof fn int8_single_term_law(a_q: Seq<i8>, a_zero: i8, b_q: Seq<i8>, b_zero: i8, m: int, n: int)
    ensures
        forall|i: int, j: int| 0 <= i < m && 0 <= j < n ==>
            #[trigger] int8_dot(a_q, a_zero, b_q, b_zero, 1, n, i, j, 1)
                == (a_q[i] - a_zero) * (b_q[j] - b_zero),
{
    assert forall|i: int, j: int| 0 <= i < m && 0 <= j < n implies
        #[trigger] int8_dot(a_q, a_zero, b_q, b_zero, 1, n, i, j, 1)
            == (a_q[i] - a_zero) * (b_q[j] - b_zero) by {
        assert(int8_dot(a_q, a_zero, b_q, b_zero, 1, n, i, j, 0) == 0);
        assert(i * 1 + 0 == i);
        assert(0 * n + j == j);
    }
}

/// Reset the arena and take from it the scratch buffers of the quantized
/// GEMM: `m * k` zeroed values for the quantized `A`, then `k * n` for the
/// quantized `B`. When a buffer does not fit, the error names the matrix
/// and the number of elements asked for.
pub fn reserve_quantized_scratch<const N: usize>(
    arena: &mut StaticArena<N>,
    m: usize,
    k: usize,
    n: usize,
) -> (r: Result<(Vec<i8>, Vec<i8>), GemmError>)
    requires
        m * k <= usize::MAX,
        k * n <= usize::MAX,
        m * k <= N && k * n > 0 ==> m * k + k * n <= usize::MAX,
    ensures
        r is Ok <==> m * k + k * n <= N,
        m * k > N ==> r == Err::<(Vec<i8>, Vec<i8>), GemmError>(
            GemmError::InsufficientA { required: (m * k) as usize, actual: 0 }),
        m * k <= N < m * k + k * n ==> r == Err::<(Vec<i8>, Vec<i8>), GemmError>(
            GemmError::InsufficientB { required: (k * n) as usize, actual: 0 }),
        r matches Ok(bufs) ==> {
            &&& bufs.0@.len() == m * k
            &&& bufs.1@.len() == k * n
            &&& forall|i: int| 0 <= i < bufs.0@.len() ==> bufs.0@[i] == 0i8
            &&& forall|i: int| 0 <= i < bufs.1@.len() ==> bufs.1@[i] == 0i8
        },
        final(arena).spec_used() == if m * k > N { 0 } else if r is Err { m * k } else { m * k + k * n },
{
    proof {
        broadcast use vstd::layout::layout_of_primitives, vstd::layout::align_properties,
            vstd::layout::align_nonzero;
        let al = vstd::layout::align_of::<i8>();
        assert(vstd::layout::size_of::<i8>() == 1);
        assert(vstd::layout::size_of::<i8>() % al == 0);
        assert(al > 0);
        if al > 1 {
            vstd::arithmetic::div_mod::lemma_small_mod(1, al);
        }
        assert(al == 1);
    }
    arena.reset();
    let a_q = match arena.allocate::<i8>(m * k) {
        Some(v) => v,
        None => return Err(GemmError::InsufficientA { required: m * k, actual: 0 }),
    };
    let b_q = match arena.allocate::<i8>(k * n) {
        Some(v) => v,
        None => return Err(GemmError::InsufficientB { required: k * n, actual: 0 }),
    };
    Ok((a_q, b_q))
}

/// Accumulator bound: after `p` terms the accumulation is at most
/// `p * 255 * 255` in absolute value, since each quantized value taken
/// relative to a zero point lies in `[-255, 255]`. So the accumulation
/// always fits in an `i32` when `k * 65025 <= i32::MAX` (`k <= 33025`).
pub proof fn int8_dot_bound(
    a_q: Seq<i8>, a_zero: i8, b_q: Seq<i8>, b_zero: i8, k: int, n: int, i: int, j: int, p: nat,
)
    ensures
        -(p * 65025) <= int8_dot(a_q, a_zero, b_q, b_zero, k, n, i, j, p) <= p * 65025,
    decreases p,
{
    if p > 0 {
        let q = (p - 1) as nat;
        int8_dot_bound(a_q, a_zero, b_q, b_zero, k, n, i, j, q);
        let x = a_q[i * k + q] - a_zero;
        let y = b_q[q * n + j] - b_zero;
        assert(-65025 <= x * y <= 65025) by (nonlinear_arith)
            requires
                -255 <= x <= 255,
                -255 <= y <= 255,
        ;
    }
}

/// Small inner dimensions never overflow: with `k * 65025 <= i32::MAX`
/// every partial accumulation fits in an `i32`, whatever the values.
pub proof fn int8_small_k_fits(
    a_q: Seq<i8>, a_zero: i8, b_q: Seq<i8>, b_zero: i8, m: int, k: int, n: int,
)
    requires
        0 <= k,
        k * 65025 <= i32::MAX,
    ensures
        int8_sums_fit(a_q, a_zero, b_q, b_zero, m, k, n),
{
    assert forall|i: int, j: int, p: nat| 0 <= i < m && 0 <= j < n && p <= k implies
        i32::MIN <= #[trigger] int8_dot(a_q, a_zero, b_q, b_zero, k, n, i, j, p) <= i32::MAX by {
        int8_dot_bound(a_q, a_zero, b_q, b_zero, k, n, i, j, p);
    }
}

/// With both zero points at 0 every term is a product of two `i8` values,
/// at most `128 * 128 = 16384` in absolute value, so the accumulation fits
/// in an `i32` whenever `k * 16384 <= i32::MAX` (`k <= 131071`).
pub proof fn int8_symmetric_small_k_fits(a_q: Seq<i8>, b_q: Seq<i8>, m: int, k: int, n: int)
    requires
        0 <= k,
        k * 16384 <= i32::MAX,
    ensures
        int8_sums_fit(a_q, 0, b_q, 0, m, k, n),
{
    assert forall|i: int, j: int, p: nat| 0 <= i < m && 0 <= j < n && p <= k implies
        i32::MIN <= #[trigger] int8_dot(a_q, 0, b_q, 0, k, n, i, j, p) <= i32::MAX by {
        lemma_int8_symmetric_bound(a_q, b_q, k, n, i, j, p);
        assert(p * 16384 <= k * 16384) by (nonlinear_arith)
            requires
                p <= k,
        ;
    }
}

proof fn lemma_int8_symmetric_bound(a_q: Seq<i8>, b_q: Seq<i8>, k: int, n: int, i: int, j: int, p: nat)
    ensures
        -(p * 16384) <= int8_dot(a_q, 0, b_q, 0, k, n, i, j, p) <= p * 16384,
    decreases p,
{
    if p > 0 {
        let q = (p - 1) as nat;
        lemma_int8_symmetric_bound(a_q, b_q, k, n, i, j, q);
        let x = a_q[i * k + q] - 0i8;
        let y = b_q[q * n + j] - 0i8;
        assert(-16384 <= x * y <= 16384) by (nonlinear_arith)
            requires
                -128 <= x <= 127,
                -128 <= y <= 127,
        ;
    }
}

/// Whether every partial accumulation of the INT8 GEMM fits in an `i32`,
/// that is, whether [`gemm_i8_accumulate`] may be called on these inputs.
pub fn int8_accumulation_fits(
    m: usize,
    k: usize,
    n: usize,
    a_q: &[i8],
    a_zero: i8,
    b_q: &[i8],
    b_zero: i8,
) -> (r: bool)
    requires
        a_q@.len() >= m * k,
        b_q@.len() >= k * n,
    ensures
        r == int8_sums_fit(a_q@, a_zero, b_q@, b_zero, m as int, k as int, n as int),
{
    let a_len = a_q.len();
    let b_len = b_q.len();
    let mut i: usize = 0;
    while i < m
        invariant
            a_q@.len() >= m * k,
            b_q@.len() >= k * n,
            a_q@.len() == a_len,
            b_q@.len() == b_len,
            i <= m,
            forall|r: int, s: int, p: nat| 0 <= r < i && 0 <= s < n && p <= k ==>
                i32::MIN <= #[trigger] int8_dot(a_q@, a_zero, b_q@, b_zero, k as int, n as int, r, s, p) <= i32::MAX,
        decreases m - i,
    {
        let mut j: usize = 0;
        while j < n
            invariant
                a_q@.len() >= m * k,
                b_q@.len() >= k * n,
                a_q@.len() == a_len,
                b_q@.len() == b_len,
                i < m,
                j <= n,
                forall|r: int, s: int, p: nat| 0 <= r < i && 0 <= s < n && p <= k ==>
                    i32::MIN <= #[trigger] int8_dot(a_q@, a_zero, b_q@, b_zero, k as int, n as int, r, s, p) <= i32::MAX,
                forall|s: int, p: nat| 0 <= s < j && p <= k ==>
                    i32::MIN <= #[trigger] int8_dot(a_q@, a_zero, b_q@, b_zero, k as int, n as int, i as int, s, p) <= i32::MAX,
            decreases n - j,
        {
            // Each partial sum is checked against the i32 range before the
            // next term is added, so the i64 accumulator never overflows.
            let mut acc: i64 = 0;
            let mut p: usize = 0;
            while p < k
                invariant
                    a_q@.len() >= m * k,
                    b_q@.len() >= k * n,
                    a_q@.len() == a_len,
                    b_q@.len() == b_len,
                    i < m,
                    j < n,
                    p <= k,
                    acc == int8_dot(a_q@, a_zero, b_q@, b_zero, k as int, n as int, i as int, j as int, p as nat),
                    forall|q: nat| q <= p ==>
                        i32::MIN <= #[trigger] int8_dot(a_q@, a_zero, b_q@, b_zero, k as int, n as int, i as int, j as int, q) <= i32::MAX,
                decreases k - p,
            {
                proof {
                    lemma_index_bound(i as int, p as int, m as int, k as int, k as int);
                    lemma_index_bound(p as int, j as int, k as int, n as int, n as int);
                    assert((m - 1) * k + k == m * k) by (nonlinear_arith);
                    assert((k - 1) * n + n == k * n) by (nonlinear_arith);
                }
                let a_val = (a_q[i * k + p] as i64) - (a_zero as i64);
                let b_val = (b_q[p * n + j] as i64) - (b_zero as i64);
                proof {
                    assert(-65025 <= a_val * b_val <= 65025) by (nonlinear_arith)
                        requires
                            -255 <= a_val <= 255,
                            -255 <= b_val <= 255,
                    ;
                }
                acc = acc + a_val * b_val;
                if acc < i32::MIN as i64 || acc > i32::MAX as i64 {
                    proof {
                        assert(int8_dot(a_q@, a_zero, b_q@, b_zero, k as int, n as int, i as int, j as int, (p + 1) as nat) == acc);
                    }
                    return false;
                }
                p += 1;
            }
            j += 1;
        }
        i += 1;
    }
    true
}

/// INT8 GEMM with `i32` accumulation on packed matrices: `a_q` is `m x k`
/// (leading dimension `k`), `b_q` is `k x n` (leading dimension `n`).
/// Returns the `m x n` accumulators, packed with leading dimension `n`.
pub fn gemm_i8_accumulate(
    m: usize,
    k: usize,
    n: usize,
    a_q: &[i8],
    a_zero: i8,
    b_q: &[i8],
    b_zero: i8,
) -> (acc: Vec<i32>)
    requires
        a_q@.len() >= m * k,
        b_q@.len() >= k * n,
        m * n <= usize::MAX,
        int8_sums_fit(a_q@, a_zero, b_q@, b_zero, m as int, k as int, n as int),
    ensures
        acc@.len() == m * n,
        forall|i: int, j: int| 0 <= i < m && 0 <= j < n ==>
            #[trigger] acc@[i * n + j] == int8_dot(a_q@, a_zero, b_q@, b_zero, k as int, n as int, i, j, k as nat),
{
    let a_len = a_q.len();
    let b_len = b_q.len();
    let mut out: Vec<i32> = Vec::new();
    let mut i: usize = 0;
    while i < m
        invariant
            a_q@.len() >= m * k,
            b_q@.len() >= k * n,
            a_q@.len() == a_len,
            b_q@.len() == b_len,
            m * n <= usize::MAX,
            int8_sums_fit(a_q@, a_zero, b_q@, b_zero, m as int, k as int, n as int),
            i <= m,
            out@.len() == i * n,
            forall|r: int, s: int| 0 <= r < i && 0 <= s < n ==>
                #[trigger] out@[r * n + s] == int8_dot(a_q@, a_zero, b_q@, b_zero, k as int, n as int, r, s, k as nat),
        decreases m - i,
    {
        let mut j: usize = 0;
        while j < n
            invariant
                a_q@.len() >= m * k,
                b_q@.len() >= k * n,
                a_q@.len() == a_len,
                b_q@.len() == b_len,
                m * n <= usize::MAX,
                int8_sums_fit(a_q@, a_zero, b_q@, b_zero, m as int, k as int, n as int),
                i < m,
                j <= n,
                out@.len() == i * n + j,
                forall|r: int, s: int| 0 <= r < i && 0 <= s < n ==>
                    #[trigger] out@[r * n + s] == int8_dot(a_q@, a_zero, b_q@, b_zero, k as int, n as int, r, s, k as nat),
                forall|s: int| 0 <= s < j ==>
                    #[trigger] out@[i * n + s] == int8_dot(a_q@, a_zero, b_q@, b_zero, k as int, n as int, i as int, s, k as nat),
            decreases n - j,
        {
            let mut acc: i32 = 0;
            let mut p: usize = 0;
            while p < k
                invariant
                    a_q@.len() >= m * k,
                    b_q@.len() >= k * n,
                    a_q@.len() == a_len,
                    b_q@.len() == b_len,
                    int8_sums_fit(a_q@, a_zero, b_q@, b_zero, m as int, k as int, n as int),
                    i < m,
                    j < n,
                    p <= k,
                    acc == int8_dot(a_q@, a_zero, b_q@, b_zero, k as int, n as int, i as int, j as int, p as nat),
                decreases k - p,
            {
                proof {
                    lemma_index_bound(i as int, p as int, m as int, k as int, k as int);
                    lemma_index_bound(p as int, j as int, k as int, n as int, n as int);
                    assert((m - 1) * k + k == m * k) by (nonlinear_arith);
                    assert((k - 1) * n + n == k * n) by (nonlinear_arith);
                }
                let a_val = (a_q[i * k + p] as i32) - (a_zero as i32);
                let b_val = (b_q[p * n + j] as i32) - (b_zero as i32);
                proof {
                    assert(-65025 <= a_val * b_val <= 65025) by (nonlinear_arith)
                        requires
                            -255 <= a_val <= 255,
                            -255 <= b_val <= 255,
                    ;
                    assert(int8_dot(a_q@, a_zero, b_q@, b_zero, k as int, n as int, i as int, j as int, (p + 1) as nat)
                        == acc + a_val * b_val);
                }
                acc = acc + a_val * b_val;
                p += 1;
            }
            proof {
                lemma_index_bound(i as int, j as int, m as int, n as int, n as int);
                assert((m - 1) * n + n == m * n) by (nonlinear_arith);
                assert(i * n + j == out@.len());
            }
            let ghost prev = out@;
            out.push(acc);
            proof {
                assert forall|r: int, s: int| 0 <= r < i && 0 <= s < n implies
                    #[trigger] out@[r * n + s] == int8_dot(a_q@, a_zero, b_q@, b_zero, k as int, n as int, r, s, k as nat) by {
                    lemma_index_bound(r, s, i as int, n as int, n as int);
                    assert((i - 1) * n + n == i * n) by (nonlinear_arith);
                    assert(prev[r * n + s] == out@[r * n + s]);
                }
                assert forall|s: int| 0 <= s < j + 1 implies
                    #[trigger] out@[i * n + s] == int8_dot(a_q@, a_zero, b_q@, b_zero, k as int, n as int, i as int, s, k as nat) by {
                    if s < j {
                        assert(prev[i * n + s] == out@[i * n + s]);
                    }
                }
            }
            j += 1;
        }
        proof {
            assert(i * n + n == (i + 1) * n) by (nonlinear_arith);
            assert forall|r: int, s: int| 0 <= r < i + 1 && 0 <= s < n implies
                #[trigger] out@[r * n + s] == int8_dot(a_q@, a_zero, b_q@, b_zero, k as int, n as int, r, s, k as nat) by {
                if r == i {
                    assert(out@[i * n + s] == int8_dot(a_q@, a_zero, b_q@, b_zero, k as int, n as int, i as int, s, k as nat));
                }
            }
        }
        i += 1;
    }
    proof {
        assert(i * n == m * n);
    }
    out
}

} // verus!
