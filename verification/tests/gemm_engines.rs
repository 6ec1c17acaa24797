use quasar_blas::cpu::{NaiveGemm, SimdGemm, TiledGemm};
use quasar_blas::types::{GemmElement, GemmError};
use quasar_blas::{gemm_simple, GemmEngine};

/// `f32` elements with a fused multiply-add.
#[derive(Clone, Copy, Debug, PartialEq, Default)]
struct F(f32);

impl GemmElement for F {
    // What the operations below compute, as the trait names it.
    fn spec_zero() -> Self {
        Self::zero()
    }
    fn spec_one() -> Self {
        Self::one()
    }
    fn spec_mul_add(self, a: Self, b: Self) -> Self {
        self.mul_add(a, b)
    }
    fn zero() -> Self {
        F(0.0)
    }
    fn one() -> Self {
        F(1.0)
    }
    fn mul_add(self, a: Self, b: Self) -> Self {
        F(self.0.mul_add(a.0, b.0))
    }
}

fn fv(xs: &[f32]) -> Vec<F> {
    xs.iter().map(|&x| F(x)).collect()
}

fn unf(xs: &[F]) -> Vec<f32> {
    xs.iter().map(|x| x.0).collect()
}

#[test]
fn test_identity_2x2() {
    let engine = NaiveGemm;
    // A = [[1, 2], [3, 4]]
    let a = fv(&[1.0f32, 2.0, 3.0, 4.0]);
    // I = [[1, 0], [0, 1]]
    let b = fv(&[1.0f32, 0.0, 0.0, 1.0]);
    let mut c = fv(&[0.0f32; 4]);

    engine.gemm(2, 2, 2, &a, 2, &b, 2, &mut c, 2).unwrap();

    assert_eq!(unf(&c), [1.0, 2.0, 3.0, 4.0]);
}

#[test]
fn test_simple_3x3() {
    let engine = NaiveGemm;
    // A = [[1,2,3],[4,5,6],[7,8,9]]
    let a_f: Vec<f32> = (1..=9).map(|x| x as f32).collect();
    let a = fv(&a_f);
    // B = identity
    let b = fv(&[1.0f32, 0.0, 0.0, 0.0, 1.0, 0.0, 0.0, 0.0, 1.0]);
    let mut c = fv(&vec![0.0f32; 9]);

    engine.gemm(3, 3, 3, &a, 3, &b, 3, &mut c, 3).unwrap();

    assert_eq!(unf(&c), a_f);
}

#[test]
fn test_non_square() {
    let engine = NaiveGemm;
    // A (2x3) = [[1,2,3],[4,5,6]]
    let a = fv(&[1.0f32, 2.0, 3.0, 4.0, 5.0, 6.0]);
    // B (3x2) = [[1,2],[3,4],[5,6]]
    let b = fv(&[1.0f32, 2.0, 3.0, 4.0, 5.0, 6.0]);
    let mut c = fv(&[0.0f32; 4]);

    engine.gemm(2, 3, 2, &a, 3, &b, 2, &mut c, 2).unwrap();

    // C = [[22, 28], [49, 64]]
    assert_eq!(unf(&c), [22.0, 28.0, 49.0, 64.0]);
}

#[test]
fn test_dimension_mismatch() {
    let engine = NaiveGemm;
    let a = fv(&[1.0f32; 4]); // too small for 3x3
    let b = fv(&[1.0f32; 9]);
    let mut c = fv(&[0.0f32; 9]);

    let result = engine.gemm(3, 3, 3, &a, 3, &b, 3, &mut c, 3);
    assert!(result.is_err());
}

#[test]
fn test_naive_1x1() {
    let engine = NaiveGemm;
    let a = fv(&[3.0f32]);
    let b = fv(&[7.0f32]);
    let mut c = fv(&[0.0f32]);
    engine.gemm(1, 1, 1, &a, 1, &b, 1, &mut c, 1).unwrap();
    assert_eq!(c[0].0, 21.0);
}

#[test]
fn test_naive_with_stride() {
    let engine = NaiveGemm;
    // A (2x2) embedded in a buffer with lda=4:
    // Row 0: [1, 2, _, _]
    // Row 1: [3, 4, _, _]
    let a = fv(&[1.0f32, 2.0, 0.0, 0.0, 3.0, 4.0, 0.0, 0.0]);
    // B (2x2) with ldb=2 (tight)
    let b = fv(&[5.0f32, 6.0, 7.0, 8.0]);
    // C with ldc=3 (extra padding)
    let mut c = fv(&[0.0f32; 5]); // (2-1)*3 + 2 = 5

    engine.gemm(2, 2, 2, &a, 4, &b, 2, &mut c, 3).unwrap();

    assert_eq!(c[0].0, 19.0); // [0*3 + 0]
    assert_eq!(c[1].0, 22.0); // [0*3 + 1]
    assert_eq!(c[3].0, 43.0); // [1*3 + 0]
    assert_eq!(c[4].0, 50.0); // [1*3 + 1]
}

#[test]
fn test_tiled_matches_naive() {
    let m = 17; // Non-power-of-2 to test remainder handling
    let k = 13;
    let n = 11;

    let a = fv(&(0..m * k).map(|i| (i as f32) * 0.1).collect::<Vec<f32>>());
    let b = fv(&(0..k * n).map(|i| (i as f32) * 0.05).collect::<Vec<f32>>());
    let mut c_naive = fv(&vec![0.0f32; m * n]);
    let mut c_tiled = fv(&vec![0.0f32; m * n]);

    NaiveGemm.gemm(m, k, n, &a, k, &b, n, &mut c_naive, n).unwrap();
    TiledGemm::<4>.gemm(m, k, n, &a, k, &b, n, &mut c_tiled, n).unwrap();

    for idx in 0..m * n {
        assert!(
            (c_naive[idx].0 - c_tiled[idx].0).abs() < 1e-4,
            "Mismatch at index {idx}: naive={}, tiled={}",
            c_naive[idx].0,
            c_tiled[idx].0
        );
    }
}

#[test]
fn test_tiled_64_identity() {
    let engine = TiledGemm::<64>;
    let n = 5;
    let a_f: Vec<f32> = (1..=25).map(|x| x as f32).collect();
    let a = fv(&a_f);
    let mut identity = vec![0.0f32; n * n];
    for i in 0..n {
        identity[i * n + i] = 1.0;
    }
    let identity = fv(&identity);
    let mut c = fv(&vec![0.0f32; n * n]);
    engine.gemm(n, n, n, &a, n, &identity, n, &mut c, n).unwrap();
    assert_eq!(unf(&c), a_f);
}

#[test]
fn test_tiled_with_strides() {
    let engine = TiledGemm::<4>;
    // A (2x2) with lda=5
    let a = fv(&[1.0f32, 2.0, 0.0, 0.0, 0.0, 3.0, 4.0, 0.0, 0.0, 0.0]);
    let b = fv(&[5.0f32, 6.0, 7.0, 8.0]);
    let mut c = fv(&[0.0f32; 5]); // ldc=3

    engine.gemm(2, 2, 2, &a, 5, &b, 2, &mut c, 3).unwrap();

    assert_eq!(c[0].0, 19.0);
    assert_eq!(c[1].0, 22.0);
    assert_eq!(c[3].0, 43.0);
    assert_eq!(c[4].0, 50.0);
}

#[test]
fn test_simd_matches_naive_small() {
    let m = 7;
    let k = 5;
    let n = 9; // Non-multiple of 4 to test scalar remainder path

    let a = fv(&(0..m * k).map(|i| ((i % 7) as f32) * 0.3 - 1.0).collect::<Vec<f32>>());
    let b = fv(&(0..k * n).map(|i| ((i % 11) as f32) * 0.2 - 0.5).collect::<Vec<f32>>());
    let mut c_naive = fv(&vec![0.0f32; m * n]);
    let mut c_simd = fv(&vec![0.0f32; m * n]);

    NaiveGemm.gemm(m, k, n, &a, k, &b, n, &mut c_naive, n).unwrap();
    SimdGemm::<4>.gemm(m, k, n, &a, k, &b, n, &mut c_simd, n).unwrap();

    for idx in 0..m * n {
        assert!(
            (c_naive[idx].0 - c_simd[idx].0).abs() < 1e-4,
            "Mismatch at [{}, {}]: naive={}, simd={}",
            idx / n,
            idx % n,
            c_naive[idx].0,
            c_simd[idx].0
        );
    }
}

#[test]
fn test_simd_matches_naive_large() {
    let m = 65; // One past a tile boundary
    let k = 33;
    let n = 66;

    let a = fv(&(0..m * k).map(|i| ((i * 7 + 3) % 100) as f32 * 0.01).collect::<Vec<f32>>());
    let b = fv(&(0..k * n).map(|i| ((i * 13 + 5) % 100) as f32 * 0.01).collect::<Vec<f32>>());
    let mut c_naive = fv(&vec![0.0f32; m * n]);
    let mut c_simd = fv(&vec![0.0f32; m * n]);

    NaiveGemm.gemm(m, k, n, &a, k, &b, n, &mut c_naive, n).unwrap();
    SimdGemm::<64>.gemm(m, k, n, &a, k, &b, n, &mut c_simd, n).unwrap();

    for idx in 0..m * n {
        assert!(
            (c_naive[idx].0 - c_simd[idx].0).abs() < 1e-3,
            "Mismatch at [{}, {}]: naive={}, simd={}",
            idx / n,
            idx % n,
            c_naive[idx].0,
            c_simd[idx].0
        );
    }
}

#[test]
fn test_simd_with_strides() {
    let engine = SimdGemm::<8>;
    // A (2x2) with lda=4
    let a = fv(&[1.0f32, 2.0, 0.0, 0.0, 3.0, 4.0, 0.0, 0.0]);
    let b = fv(&[5.0f32, 6.0, 7.0, 8.0]);
    let mut c = fv(&[0.0f32; 5]); // ldc=3

    engine.gemm(2, 2, 2, &a, 4, &b, 2, &mut c, 3).unwrap();

    assert_eq!(c[0].0, 19.0);
    assert_eq!(c[1].0, 22.0);
    assert_eq!(c[3].0, 43.0);
    assert_eq!(c[4].0, 50.0);
}

/// Exact integer-valued elements, for checking results bit for bit.
#[derive(Clone, Copy, Debug, PartialEq, Default)]
struct Z(i64);

impl GemmElement for Z {
    fn spec_zero() -> Self {
        Self::zero()
    }
    fn spec_one() -> Self {
        Self::one()
    }
    fn spec_mul_add(self, a: Self, b: Self) -> Self {
        self.mul_add(a, b)
    }
    fn zero() -> Self {
        Z(0)
    }
    fn one() -> Self {
        Z(1)
    }
    fn mul_add(self, a: Self, b: Self) -> Self {
        Z(self.0 * a.0 + b.0)
    }
}

fn zv(xs: &[i64]) -> Vec<Z> {
    xs.iter().map(|&x| Z(x)).collect()
}

#[test]
fn engines_agree_exactly_on_floats() {
    let m = 19;
    let k = 23;
    let n = 13;
    let a = fv(&(0..m * k).map(|i| ((i * 37 + 11) % 97) as f32 * 0.013 - 0.6).collect::<Vec<f32>>());
    let b = fv(&(0..k * n).map(|i| ((i * 53 + 7) % 89) as f32 * 0.021 - 0.9).collect::<Vec<f32>>());
    let mut c_naive = fv(&vec![9.0f32; m * n]);
    let mut c_tiled = fv(&vec![-3.0f32; m * n]);
    let mut c_simd = fv(&vec![5.0f32; m * n]);
    NaiveGemm.gemm(m, k, n, &a, k, &b, n, &mut c_naive, n).unwrap();
    TiledGemm::<5>.gemm(m, k, n, &a, k, &b, n, &mut c_tiled, n).unwrap();
    SimdGemm::<6>.gemm(m, k, n, &a, k, &b, n, &mut c_simd, n).unwrap();
    // Same terms, same order, same fused operation: bit-identical results.
    for idx in 0..m * n {
        assert_eq!(c_naive[idx].0.to_bits(), c_tiled[idx].0.to_bits());
        assert_eq!(c_naive[idx].0.to_bits(), c_simd[idx].0.to_bits());
    }
}

#[test]
fn engines_leave_padding_untouched() {
    // C is 2x3 inside a buffer with ldc = 5; the padding holds 100s.
    let a = zv(&[1, 2, 3, 4]);
    let b = zv(&[1, 0, 2, 0, 1, 3]);
    let expected = [1, 2, 8, 100, 100, 3, 4, 18];
    for engine in 0..3 {
        let mut c = zv(&[100; 8]);
        let r = match engine {
            0 => NaiveGemm.gemm(2, 2, 3, &a, 2, &b, 3, &mut c, 5),
            1 => TiledGemm::<1>.gemm(2, 2, 3, &a, 2, &b, 3, &mut c, 5),
            _ => SimdGemm::<2>.gemm(2, 2, 3, &a, 2, &b, 3, &mut c, 5),
        };
        assert!(r.is_ok());
        assert_eq!(c, zv(&expected));
    }
}

#[test]
fn engines_report_errors_and_keep_output() {
    let a = zv(&[1; 6]);
    let b = zv(&[1; 6]);
    let mut c = zv(&[7; 4]);
    assert_eq!(
        NaiveGemm.gemm(2, 3, 2, &a, 3, &b, 2, &mut c, 1),
        Err(GemmError::InvalidLeadingDimension { matrix: "C", ld: 1, min_required: 2 })
    );
    assert_eq!(
        TiledGemm::<8>.gemm(2, 3, 2, &a, 3, &b[..5], 2, &mut c, 2),
        Err(GemmError::InsufficientB { required: 6, actual: 5 })
    );
    assert_eq!(
        SimdGemm::<8>.gemm(2, 3, 2, &a, 3, &b, 2, &mut c[..3], 2),
        Err(GemmError::InsufficientC { required: 4, actual: 3 })
    );
    assert_eq!(c, zv(&[7; 4]));
}

#[test]
fn transpose_property_exact() {
    let (m, k, n) = (3usize, 4usize, 5usize);
    let a: Vec<i64> = (0..m * k).map(|i| (i as i64 * 7) % 11 - 5).collect();
    let b: Vec<i64> = (0..k * n).map(|i| (i as i64 * 5) % 13 - 6).collect();
    let mut at = vec![0i64; k * m];
    for i in 0..m {
        for j in 0..k {
            at[j * m + i] = a[i * k + j];
        }
    }
    let mut bt = vec![0i64; n * k];
    for i in 0..k {
        for j in 0..n {
            bt[j * k + i] = b[i * n + j];
        }
    }
    let mut c = zv(&vec![0; m * n]);
    let mut d = zv(&vec![0; n * m]);
    TiledGemm::<2>.gemm(m, k, n, &zv(&a), k, &zv(&b), n, &mut c, n).unwrap();
    SimdGemm::<3>.gemm(n, k, m, &zv(&bt), k, &zv(&at), m, &mut d, m).unwrap();
    for i in 0..m {
        for j in 0..n {
            assert_eq!(c[i * n + j], d[j * m + i]);
        }
    }
}

#[test]
fn gemm_simple_uses_tight_strides() {
    let a = zv(&[1, 2, 3, 4, 5, 6]);
    let b = zv(&[1, 2, 3, 4, 5, 6]);
    let mut c = zv(&[0; 4]);
    gemm_simple(&NaiveGemm, 2, 3, 2, &a, &b, &mut c).unwrap();
    assert_eq!(c, zv(&[22, 28, 49, 64]));
    let mut short = zv(&[0; 3]);
    assert!(gemm_simple(&TiledGemm::<2>, 2, 3, 2, &a, &b, &mut short).is_err());
}

#[test]
fn zero_tile_size_runs_as_one() {
    let a = zv(&[1, 2, 3, 4]);
    let b = zv(&[5, 6, 7, 8]);
    let mut c1 = zv(&[0; 4]);
    let mut c2 = zv(&[0; 4]);
    TiledGemm::<0>.gemm(2, 2, 2, &a, 2, &b, 2, &mut c1, 2).unwrap();
    SimdGemm::<0>.gemm(2, 2, 2, &a, 2, &b, 2, &mut c2, 2).unwrap();
    assert_eq!(c1, zv(&[19, 22, 43, 50]));
    assert_eq!(c2, zv(&[19, 22, 43, 50]));
}

#[test]
fn identity_property_exact() {
    // A (4x3) times the 3x3 identity, through every engine.
    let a = zv(&[3, -1, 4, 1, -5, 9, 2, 6, -5, 3, 5, -8]);
    let id = zv(&[1, 0, 0, 0, 1, 0, 0, 0, 1]);
    let mut c = zv(&[0; 12]);
    NaiveGemm.gemm(4, 3, 3, &a, 3, &id, 3, &mut c, 3).unwrap();
    assert_eq!(c, a);
    let mut c = zv(&[0; 12]);
    TiledGemm::<2>.gemm(4, 3, 3, &a, 3, &id, 3, &mut c, 3).unwrap();
    assert_eq!(c, a);
    let mut c = zv(&[0; 12]);
    SimdGemm::<4>.gemm(4, 3, 3, &a, 3, &id, 3, &mut c, 3).unwrap();
    assert_eq!(c, a);
}
