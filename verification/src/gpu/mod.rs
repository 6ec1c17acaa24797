//! The decisions of the GPU GEMM tier that do not touch the device:
//! shader selection, workgroup counts, the uniform block of dimensions, and
//! the packing of strided matrices into the contiguous buffers the compute
//! shaders read and write.

use vstd::prelude::*;

use crate::types::required_len;
use crate::matrix::{fill_window, lemma_fill_window_same, lemma_fill_window_update,
    lemma_fill_window_ext, lemma_index_bound};

verus! {

/// Which compute shader the GPU engine runs.
#[derive(Debug, Clone, Copy, PartialEq, Eq, Structural)]
pub enum ShaderVariant {
    /// One thread per output element, no shared memory.
    Naive,
    /// Workgroup-cooperative tiling with shared memory.
    Tiled,
}

impl ShaderVariant {
    /// The `(x, y)` workgroup size the shader is written for.
    pub fn workgroup_size(&self) -> (r: (u32, u32))
        ensures
            r == self.workgroup_size_spec(),
    {
        match self {
            ShaderVariant::Naive => (8, 8),
            ShaderVariant::Tiled => (16, 16),
        }
    }
}

/// Number of workgroups along one axis: `ceil(extent / group)`.
pub open spec fn workgroups_for(extent: int, group: int) -> int {
    (extent + group - 1) / group
}

/// Workgroups to dispatch for an `m x n` output: `(x, y)` covers the `n`
/// columns and the `m` rows, each rounded up to whole workgroups. The
/// dimensions are taken as `u32` (truncating), as the shader sees them.
pub fn dispatch_size(variant: ShaderVariant, m: usize, n: usize) -> (r: (u32, u32))
    requires
        (n as u32) + variant.workgroup_size_spec().0 <= u32::MAX,
        (m as u32) + variant.workgroup_size_spec().1 <= u32::MAX,
    ensures
        r.0 == workgroups_for((n as u32) as int, variant.workgroup_size_spec().0 as int),
        r.1 == workgroups_for((m as u32) as int, variant.workgroup_size_spec().1 as int),
{
    let (wg_x, wg_y) = variant.workgroup_size();
    let num_x = (n as u32 + wg_x - 1) / wg_x;
    let num_y = (m as u32 + wg_y - 1) / wg_y;
    (num_x, num_y)
}

impl ShaderVariant {
    /// The workgroup size as a value, for contracts.
    pub open spec fn workgroup_size_spec(self) -> (u32, u32) {
        match self {
            ShaderVariant::Naive => (8u32, 8u32),
            ShaderVariant::Tiled => (16u32, 16u32),
        }
    }
}

/// Dispatch coverage: `workgroups_for(extent, group)` whole groups cover
/// every one of the `extent` indices, and one group fewer would not.
pub proof fn dispatch_covers(extent: int, group: int)
    requires
        0 <= extent,
        0 < group,
    ensures
        workgroups_for(extent, group) * group >= extent,
        (workgroups_for(extent, group) - 1) * group < extent,
{
    let y = extent + group - 1;
    let q = y / group;
    vstd::arithmetic::div_mod::lemma_fundamental_div_mod(y, group);
    assert(q * group == group * q) by (nonlinear_arith);
    assert((q - 1) * group == q * group - group) by (nonlinear_arith);
}

/// Matrix dimensions passed to the compute shader as a uniform block,
/// padded to 16 bytes.
#[derive(Debug, Clone, Copy)]
pub struct GpuDimensions {
    pub m: u32,
    pub k: u32,
    pub n: u32,
    pub _padding: u32,
}

impl GpuDimensions {
    /// The uniform block for an `m x k` by `k x n` product; each dimension is
    /// converted to `u32` by truncation.
    pub fn from_dims(m: usize, k: usize, n: usize) -> (r: Self)
        ensures
            r.m == m as u32,
            r.k == k as u32,
            r.n == n as u32,
            r._padding == 0,
    {
        GpuDimensions { m: m as u32, k: k as u32, n: n as u32, _padding: 0 }
    }
}

/// Copy the `rows x cols` matrix stored in `src` with leading dimension `ld`
/// into a contiguous buffer (leading dimension `cols`).
pub fn pack_rows<T: Copy>(src: &[T], rows: usize, cols: usize, ld: usize) -> (r: Vec<T>)
    requires
        rows > 0,
        0 < cols <= ld,
        src@.len() >= required_len(rows as int, cols as int, ld as int),
        rows * cols <= usize::MAX,
    ensures
        r@.len() == rows * cols,
        forall|i: int, j: int| 0 <= i < rows && 0 <= j < cols ==>
            #[trigger] r@[i * cols + j] == src@[i * ld + j],
{
    let src_len = src.len();
    let mut out: Vec<T> = Vec::new();
    let mut i: usize = 0;
    while i < rows
        invariant
            rows > 0,
            0 < cols <= ld,
            src@.len() == src_len,
            src_len >= required_len(rows as int, cols as int, ld as int),
            rows * cols <= usize::MAX,
            i <= rows,
            out@.len() == i * cols,
            forall|r: int, s: int| 0 <= r < i && 0 <= s < cols ==>
                #[trigger] out@[r * cols + s] == src@[r * ld + s],
        decreases rows - i,
    {
        let mut j: usize = 0;
        while j < cols
            invariant
                rows > 0,
                0 < cols <= ld,
                src@.len() == src_len,
                src_len >= required_len(rows as int, cols as int, ld as int),
                rows * cols <= usize::MAX,
                i < rows,
                j <= cols,
                out@.len() == i * cols + j,
                forall|r: int, s: int| 0 <= r < i && 0 <= s < cols ==>
                    #[trigger] out@[r * cols + s] == src@[r * ld + s],
                forall|s: int| 0 <= s < j ==> #[trigger] out@[i * cols + s] == src@[i * ld + s],
            decreases cols - j,
        {
            proof {
                lemma_index_bound(i as int, j as int, rows as int, cols as int, ld as int);
                lemma_index_bound(i as int, j as int, rows as int, cols as int, cols as int);
                assert((rows - 1) * cols + cols == rows * cols) by (nonlinear_arith);
            }
            let ghost prev = out@;
            out.push(src[i * ld + j]);
            proof {
                assert forall|r: int, s: int| 0 <= r < i && 0 <= s < cols implies
                    #[trigger] out@[r * cols + s] == src@[r * ld + s] by {
                    lemma_index_bound(r, s, i as int, cols as int, cols as int);
                    assert((i - 1) * cols + cols == i * cols) by (nonlinear_arith);
                    assert(prev[r * cols + s] == out@[r * cols + s]);
                }
                assert forall|s: int| 0 <= s < j + 1 implies #[trigger] out@[i * cols + s] == src@[i * ld + s] by {
                    if s < j {
                        assert(prev[i * cols + s] == out@[i * cols + s]);
                    }
                }
            }
            j += 1;
        }
        proof {
            assert(i * cols + cols == (i + 1) * cols) by (nonlinear_arith);
            assert forall|r: int, s: int| 0 <= r < i + 1 && 0 <= s < cols implies
                #[trigger] out@[r * cols + s] == src@[r * ld + s] by {
                if r == i {
                    assert(out@[i * cols + s] == src@[i * ld + s]);
                }
            }
        }
        i += 1;
    }
    proof {
        assert(i * cols == rows * cols);
    }
    out
}

/// The operands as the GPU reads them, contiguous row-major: when both
/// matrices already have tight strides (`lda == k`, `ldb == n`) the slices
/// are copied whole, otherwise the `m x k` and `k x n` windows are packed.
pub fn pack_operands<T: Copy>(
    m: usize, k: usize, n: usize, a: &[T], lda: usize, b: &[T], ldb: usize,
) -> (r: (Vec<T>, Vec<T>))
    requires
        m > 0 && k > 0 && n > 0,
        lda >= k && ldb >= n,
        a@.len() >= required_len(m as int, k as int, lda as int),
        b@.len() >= required_len(k as int, n as int, ldb as int),
        m * k <= usize::MAX,
        k * n <= usize::MAX,
    ensures
        lda == k && ldb == n ==> r.0@ == a@ && r.1@ == b@,
        !(lda == k && ldb == n) ==> {
            &&& r.0@.len() == m * k
            &&& r.1@.len() == k * n
            &&& forall|i: int, j: int| 0 <= i < m && 0 <= j < k ==> #[trigger] r.0@[i * k + j] == a@[i * lda + j]
            &&& forall|i: int, j: int| 0 <= i < k && 0 <= j < n ==> #[trigger] r.1@[i * n + j] == b@[i * ldb + j]
        },
{
    if lda == k && ldb == n {
        (vstd::slice::slice_to_vec(a), vstd::slice::slice_to_vec(b))
    } else {
        (pack_rows(a, m, k, lda), pack_rows(b, k, n, ldb))
    }
}

/// Write the contiguous `rows x cols` matrix `src` (leading dimension
/// `cols`) into the window of `dst` with leading dimension `ld`; elements
/// of `dst` outside the window keep their value.
pub fn unpack_rows<T: Copy>(dst: &mut [T], ld: usize, src: &[T], rows: usize, cols: usize)
    requires
        rows > 0,
        0 < cols <= ld,
        old(dst)@.len() >= required_len(rows as int, cols as int, ld as int),
        src@.len() >= rows * cols,
    ensures
        final(dst)@ == fill_window(old(dst)@, rows as int, cols as int, ld as int,
            |r: int, s: int| src@[r * cols + s]),
{
    let ghost d0 = dst@;
    let dst_len = dst.len();
    let src_len = src.len();
    proof {
        lemma_fill_window_same(d0, rows as int, cols as int, ld as int);
    }
    let mut i: usize = 0;
    while i < rows
        invariant
            rows > 0,
            0 < cols <= ld,
            d0.len() == dst_len,
            dst_len >= required_len(rows as int, cols as int, ld as int),
            src@.len() == src_len,
            src_len >= rows * cols,
            i <= rows,
            dst@ == fill_window(d0, rows as int, cols as int, ld as int,
                |r: int, s: int| if r < i { src@[r * cols + s] } else { d0[r * ld + s] }),
        decreases rows - i,
    {
        let mut j: usize = 0;
        while j < cols
            invariant
                rows > 0,
                0 < cols <= ld,
                d0.len() == dst_len,
                dst_len >= required_len(rows as int, cols as int, ld as int),
                src@.len() == src_len,
                src_len >= rows * cols,
                i < rows,
                j <= cols,
                dst@ == fill_window(d0, rows as int, cols as int, ld as int,
                    |r: int, s: int| if r < i || (r == i && s < j) { src@[r * cols + s] } else { d0[r * ld + s] }),
            decreases cols - j,
        {
            proof {
                lemma_index_bound(i as int, j as int, rows as int, cols as int, cols as int);
                assert((rows - 1) * cols + cols == rows * cols) by (nonlinear_arith);
                lemma_fill_window_update(d0, rows as int, cols as int, ld as int,
                    |r: int, s: int| if r < i || (r == i && s < j) { src@[r * cols + s] } else { d0[r * ld + s] },
                    |r: int, s: int| if r < i || (r == i && s < j + 1) { src@[r * cols + s] } else { d0[r * ld + s] },
                    i as int, j as int);
            }
            dst[i * ld + j] = src[i * cols + j];
            j += 1;
        }
        proof {
            lemma_fill_window_ext(d0, rows as int, cols as int, ld as int,
                |r: int, s: int| if r < i || (r == i && s < j) { src@[r * cols + s] } else { d0[r * ld + s] },
                |r: int, s: int| if r < i + 1 { src@[r * cols + s] } else { d0[r * ld + s] });
        }
        i += 1;
    }
    proof {
        lemma_fill_window_ext(d0, rows as int, cols as int, ld as int,
            |r: int, s: int| if r < i { src@[r * cols + s] } else { d0[r * ld + s] },
            |r: int, s: int| src@[r * cols + s]);
    }
}

/// Round trip: packing the `rows x cols` window of a strided matrix and
/// writing the packed buffer back into a slice with the same leading
/// dimension puts exactly the original window there.
pub proof fn pack_unpack_roundtrip<T>(
    src: Seq<T>, packed: Seq<T>, dst0: Seq<T>, rows: int, cols: int, ld: int,
)
    requires
        0 < cols <= ld,
        packed.len() == rows * cols,
        forall|i: int, j: int| 0 <= i < rows && 0 <= j < cols ==>
            #[trigger] packed[i * cols + j] == src[i * ld + j],
    ensures
        fill_window(dst0, rows, cols, ld, |r: int, s: int| packed[r * cols + s])
            == fill_window(dst0, rows, cols, ld, |r: int, s: int| src[r * ld + s]),
{
    lemma_fill_window_ext(dst0, rows, cols, ld,
        |r: int, s: int| packed[r * cols + s],
        |r: int, s: int| src[r * ld + s]);
}

} // verus!
