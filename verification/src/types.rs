//! Core types of the library: the element trait, the error type, dimension
//! validation and the model of a strided GEMM that every engine is proved
//! against.

use vstd::prelude::*;
use vstd::string::StringExecFns;

verus! {

// ---------------------------------------------------------------------------
// GemmElement
// ---------------------------------------------------------------------------

/// Element types that can take part in a GEMM.
///
/// The engines only ever combine elements through `zero` and `mul_add`, so
/// each implementation names what those operations compute
/// (`spec_zero`, `spec_one`, `spec_mul_add`) and the engines' contracts are
/// stated over those names. What an implementation promises is only that
/// each operation returns the value it names: `mul_add` is a function of
/// its three operands, and `zero` and `one` are constants. For a fused
/// multiply-add on IEEE floats, `spec_mul_add` is the correctly rounded
/// `self * a + b`; the `f32` element type lives outside this crate, since
/// floating point is not expressible here.
pub trait GemmElement: Copy + Sized {
    /// The additive identity.
    spec fn spec_zero() -> Self;

    /// The multiplicative identity.
    spec fn spec_one() -> Self;

    /// What `self.mul_add(a, b)` computes: `self * a + b`.
    spec fn spec_mul_add(self, a: Self, b: Self) -> Self;

    /// The additive identity (0).
    fn zero() -> (r: Self)
        ensures
            r == Self::spec_zero(),
    ;

    /// The multiplicative identity (1).
    fn one() -> (r: Self)
        ensures
            r == Self::spec_one(),
    ;

    /// Multiply-add: `self * a + b`.
    fn mul_add(self, a: Self, b: Self) -> (r: Self)
        ensures
            r == self.spec_mul_add(a, b),
    ;
}

// ---------------------------------------------------------------------------
// GemmError
// ---------------------------------------------------------------------------

/// Errors that can occur during GEMM operations.
#[derive(Debug, Clone, PartialEq, Eq)]
pub enum GemmError {
    /// Input slice `a` is too small for the given dimensions and leading dimension.
    InsufficientA { required: usize, actual: usize },
    /// Input slice `b` is too small for the given dimensions and leading dimension.
    InsufficientB { required: usize, actual: usize },
    /// Output slice `c` is too small for the given dimensions and leading dimension.
    InsufficientC { required: usize, actual: usize },
    /// A leading dimension is smaller than the matching matrix dimension.
    InvalidLeadingDimension { matrix: &'static str, ld: usize, min_required: usize },
    /// A matrix dimension is zero.
    ZeroDimension { which: &'static str },
}

/// The decimal text of a digit `d < 10`.
pub open spec fn digit_text(d: nat) -> Seq<char> {
    if d == 0 { "0"@ }
    else if d == 1 { "1"@ }
    else if d == 2 { "2"@ }
    else if d == 3 { "3"@ }
    else if d == 4 { "4"@ }
    else if d == 5 { "5"@ }
    else if d == 6 { "6"@ }
    else if d == 7 { "7"@ }
    else if d == 8 { "8"@ }
    else { "9"@ }
}

/// The decimal text of `n`, most significant digit first, without leading zeros.
pub open spec fn decimal_text(n: nat) -> Seq<char>
    decreases n,
{
    if n < 10 {
        digit_text(n)
    } else {
        decimal_text(n / 10) + digit_text(n % 10)
    }
}

/// The message that describes an error.
pub open spec fn gemm_error_text(e: GemmError) -> Seq<char> {
    match e {
        GemmError::InsufficientA { required, actual } =>
            "Matrix A: need "@ + decimal_text(required as nat) + " elements, got "@ + decimal_text(actual as nat),
        GemmError::InsufficientB { required, actual } =>
            "Matrix B: need "@ + decimal_text(required as nat) + " elements, got "@ + decimal_text(actual as nat),
        GemmError::InsufficientC { required, actual } =>
            "Matrix C: need "@ + decimal_text(required as nat) + " elements, got "@ + decimal_text(actual as nat),
        GemmError::InvalidLeadingDimension { matrix, ld, min_required } =>
            "Matrix "@ + matrix@ + ": leading dimension "@ + decimal_text(ld as nat) + " < minimum "@
                + decimal_text(min_required as nat),
        GemmError::ZeroDimension { which } => "Dimension '"@ + which@ + "' is zero"@,
    }
}

/// The text of the digit `d < 10`.
fn digit_str(d: usize) -> (r: &'static str)
    requires
        d < 10,
    ensures
        r@ == digit_text(d as nat),
{
    if d == 0 { "0" }
    else if d == 1 { "1" }
    else if d == 2 { "2" }
    else if d == 3 { "3" }
    else if d == 4 { "4" }
    else if d == 5 { "5" }
    else if d == 6 { "6" }
    else if d == 7 { "7" }
    else if d == 8 { "8" }
    else { "9" }
}

/// Append the decimal text of `n` to `s`.
fn push_decimal(s: &mut String, n: usize)
    ensures
        final(s)@ == old(s)@ + decimal_text(n as nat),
    decreases n,
{
    if n >= 10 {
        push_decimal(s, n / 10);
    }
    s.append(digit_str(n % 10));
}

impl GemmError {
    /// A human-readable description of the error.
    pub fn message(&self) -> (s: String)
        ensures
            s@ == gemm_error_text(*self),
    {
        let mut s = String::new();
        match self {
            GemmError::InsufficientA { required, actual } => {
                s.append("Matrix A: need ");
                push_decimal(&mut s, *required);
                s.append(" elements, got ");
                push_decimal(&mut s, *actual);
            },
            GemmError::InsufficientB { required, actual } => {
                s.append("Matrix B: need ");
                push_decimal(&mut s, *required);
                s.append(" elements, got ");
                push_decimal(&mut s, *actual);
            },
            GemmError::InsufficientC { required, actual } => {
                s.append("Matrix C: need ");
                push_decimal(&mut s, *required);
                s.append(" elements, got ");
                push_decimal(&mut s, *actual);
            },
            GemmError::InvalidLeadingDimension { matrix, ld, min_required } => {
                s.append("Matrix ");
                s.append(matrix);
                s.append(": leading dimension ");
                push_decimal(&mut s, *ld);
                s.append(" < minimum ");
                push_decimal(&mut s, *min_required);
            },
            GemmError::ZeroDimension { which } => {
                s.append("Dimension '");
                s.append(which);
                s.append("' is zero");
            },
        }
        s
    }
}

// ---------------------------------------------------------------------------
// Dimension validation
// ---------------------------------------------------------------------------

/// Number of elements a `rows x cols` matrix with leading dimension `ld`
/// occupies: every row but the last takes a full stride.
pub open spec fn required_len(rows: int, cols: int, ld: int) -> int {
    (rows - 1) * ld + cols
}

/// The length computations of validation do not overflow a `usize`.
/// They are only carried out once the dimensions are non-zero and the
/// leading dimensions are large enough.
pub open spec fn gemm_lengths_fit(m: usize, k: usize, n: usize, lda: usize, ldb: usize, ldc: usize) -> bool {
    (m > 0 && k > 0 && n > 0 && lda >= k && ldb >= n && ldc >= n) ==> {
        &&& required_len(m as int, k as int, lda as int) <= usize::MAX
        &&& required_len(k as int, n as int, ldb as int) <= usize::MAX
        &&& required_len(m as int, n as int, ldc as int) <= usize::MAX
    }
}

/// All the conditions for a valid strided GEMM `C (m x n) = A (m x k) * B (k x n)`.
pub open spec fn gemm_dims_valid(
    m: usize, k: usize, n: usize,
    lda: usize, ldb: usize, ldc: usize,
    a_len: usize, b_len: usize, c_len: usize,
) -> bool {
    &&& m > 0 && k > 0 && n > 0
    &&& lda >= k && ldb >= n && ldc >= n
    &&& a_len >= required_len(m as int, k as int, lda as int)
    &&& b_len >= required_len(k as int, n as int, ldb as int)
    &&& c_len >= required_len(m as int, n as int, ldc as int)
}

/// The outcome of validation: the first violated rule, in the order
/// zero dimensions (m, k, n), leading dimensions (A, B, C), then slice
/// lengths (A, B, C).
pub open spec fn gemm_dims_check(
    m: usize, k: usize, n: usize,
    lda: usize, ldb: usize, ldc: usize,
    a_len: usize, b_len: usize, c_len: usize,
) -> Result<(), GemmError> {
    if m == 0 {
        Err(GemmError::ZeroDimension { which: "m" })
    } else if k == 0 {
        Err(GemmError::ZeroDimension { which: "k" })
    } else if n == 0 {
        Err(GemmError::ZeroDimension { which: "n" })
    } else if lda < k {
        Err(GemmError::InvalidLeadingDimension { matrix: "A", ld: lda, min_required: k })
    } else if ldb < n {
        Err(GemmError::InvalidLeadingDimension { matrix: "B", ld: ldb, min_required: n })
    } else if ldc < n {
        Err(GemmError::InvalidLeadingDimension { matrix: "C", ld: ldc, min_required: n })
    } else if a_len < required_len(m as int, k as int, lda as int) {
        Err(GemmError::InsufficientA {
            required: required_len(m as int, k as int, lda as int) as usize,
            actual: a_len,
        })
    } else if b_len < required_len(k as int, n as int, ldb as int) {
        Err(GemmError::InsufficientB {
            required: required_len(k as int, n as int, ldb as int) as usize,
            actual: b_len,
        })
    } else if c_len < required_len(m as int, n as int, ldc as int) {
        Err(GemmError::InsufficientC {
            required: required_len(m as int, n as int, ldc as int) as usize,
            actual: c_len,
        })
    } else {
        Ok(())
    }
}

/// Validate GEMM dimensions and leading dimensions against slice lengths.
///
/// Returns the minimum required lengths of the slices A, B and C,
/// `(rows - 1) * ld + cols` each, or the first rule that fails.
///
/// Rules: all dimensions are non-zero, `lda >= k`, `ldb >= n`, `ldc >= n`,
/// and each slice holds at least `(rows - 1) * ld + cols` elements.
pub fn validate_gemm_dims(
    m: usize,
    k: usize,
    n: usize,
    lda: usize,
    ldb: usize,
    ldc: usize,
    a_len: usize,
    b_len: usize,
    c_len: usize,
) -> (r: Result<(usize, usize, usize), GemmError>)
    requires
        gemm_lengths_fit(m, k, n, lda, ldb, ldc),
    ensures
        r is Ok <==> gemm_dims_valid(m, k, n, lda, ldb, ldc, a_len, b_len, c_len),
        r matches Err(e) ==> gemm_dims_check(m, k, n, lda, ldb, ldc, a_len, b_len, c_len) == Err::<(), GemmError>(e),
        r matches Ok(lens) ==> lens == (
            required_len(m as int, k as int, lda as int) as usize,
            required_len(k as int, n as int, ldb as int) as usize,
            required_len(m as int, n as int, ldc as int) as usize,
        ),
{
    if m == 0 {
        return Err(GemmError::ZeroDimension { which: "m" });
    }
    if k == 0 {
        return Err(GemmError::ZeroDimension { which: "k" });
    }
    if n == 0 {
        return Err(GemmError::ZeroDimension { which: "n" });
    }
    if lda < k {
        return Err(GemmError::InvalidLeadingDimension { matrix: "A", ld: lda, min_required: k });
    }
    if ldb < n {
        return Err(GemmError::InvalidLeadingDimension { matrix: "B", ld: ldb, min_required: n });
    }
    if ldc < n {
        return Err(GemmError::InvalidLeadingDimension { matrix: "C", ld: ldc, min_required: n });
    }
    let required_a = (m - 1) * lda + k;
    let required_b = (k - 1) * ldb + n;
    let required_c = (m - 1) * ldc + n;
    if a_len < required_a {
        return Err(GemmError::InsufficientA { required: required_a, actual: a_len });
    }
    if b_len < required_b {
        return Err(GemmError::InsufficientB { required: required_b, actual: b_len });
    }
    if c_len < required_c {
        return Err(GemmError::InsufficientC { required: required_c, actual: c_len });
    }
    Ok((required_a, required_b, required_c))
}

// ---------------------------------------------------------------------------
// Cache-line layout
// ---------------------------------------------------------------------------

/// Bytes in one cache line (the L1 line size on common ARM and x86 cores).
pub const CACHE_LINE_BYTES: usize = 64;

/// `x` rounded up to a multiple of `q`.
pub open spec fn round_up_to(x: int, q: int) -> int {
    if x % q == 0 { x } else { x + (q - x % q) }
}

/// The layout of a cache-line-aligned `rows x cols` matrix of elements of
/// `elem_size` bytes: the leading dimension is `cols` rounded up to whole
/// cache lines, so that every row starts on a line boundary, and the
/// second value is the number of cache lines that hold `rows` such rows.
pub fn aligned_layout(rows: usize, cols: usize, elem_size: usize) -> (r: (usize, usize))
    requires
        0 < elem_size <= CACHE_LINE_BYTES,
        round_up_to(cols as int, (CACHE_LINE_BYTES / elem_size) as int) <= usize::MAX,
        rows * round_up_to(cols as int, (CACHE_LINE_BYTES / elem_size) as int)
            + CACHE_LINE_BYTES / elem_size <= usize::MAX,
    ensures
        ({
            let per_line = (CACHE_LINE_BYTES / elem_size) as int;
            &&& r.0 == round_up_to(cols as int, per_line)
            &&& (r.0 as int) % per_line == 0
            &&& cols <= r.0 < cols + per_line
            &&& r.1 == (rows * r.0 + per_line - 1) / per_line
        }),
{
    let elements_per_block = CACHE_LINE_BYTES / elem_size;
    let ld = if cols % elements_per_block == 0 {
        cols
    } else {
        cols + (elements_per_block - cols % elements_per_block)
    };
    assert(ld % elements_per_block == 0) by {
        if cols % elements_per_block != 0 {
            let e = elements_per_block as int;
            let q = cols as int / e;
            vstd::arithmetic::div_mod::lemma_fundamental_div_mod(cols as int, e);
            assert(ld as int == (q + 1) * e) by (nonlinear_arith)
                requires
                    cols as int == e * q + cols as int % e,
                    ld as int == cols as int + (e - cols as int % e),
            ;
            vstd::arithmetic::div_mod::lemma_fundamental_div_mod_converse(
                ld as int, elements_per_block as int, cols / elements_per_block + 1, 0);
        }
    }
    let total_elements = rows * ld;
    let num_blocks = (total_elements + elements_per_block - 1) / elements_per_block;
    (ld, num_blocks)
}

} // verus!
