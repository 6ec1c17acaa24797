use quasar_blas::embedded::{gemm_i8_accumulate, int8_accumulation_fits, reserve_quantized_scratch};
use quasar_blas::embedded::arena::StaticArena;
use quasar_blas::types::GemmError;
use quasar_blas::gpu::{dispatch_size, pack_operands, pack_rows, unpack_rows, GpuDimensions, ShaderVariant};

#[test]
fn int8_accumulate_matches_integer_product() {
    // A = [[1, 2], [3, 4]], B = [[5, 6], [7, 8]], zero points 0.
    let a = [1i8, 2, 3, 4];
    let b = [5i8, 6, 7, 8];
    assert_eq!(gemm_i8_accumulate(2, 2, 2, &a, 0, &b, 0), vec![19, 22, 43, 50]);
}

#[test]
fn int8_accumulate_subtracts_zero_points() {
    // (a - 1) * (b + 2) summed: row [3, -1], column [0, 5] relative values.
    let a = [4i8, 0];
    let b = [-2i8, 3];
    // (4-1)*(-2+2) + (0-1)*(3+2) = 0 - 5
    assert_eq!(gemm_i8_accumulate(1, 2, 1, &a, 1, &b, -2), vec![-5]);
    // Extremes: (-128 - 127) * (127 - (-128)) = -65025
    assert_eq!(gemm_i8_accumulate(1, 1, 1, &[-128i8], 127, &[127i8], -128), vec![-65025]);
}

#[test]
fn int8_identity_and_layout() {
    // 3x2 times the 2x2 identity (scaled by 10) keeps the layout row-major.
    let a = [1i8, -2, 3, -4, 5, -6];
    let id = [10i8, 0, 0, 10];
    assert_eq!(gemm_i8_accumulate(3, 2, 2, &a, 0, &id, 0), vec![10, -20, 30, -40, 50, -60]);
}

#[test]
fn shader_workgroups() {
    assert_eq!(ShaderVariant::Naive.workgroup_size(), (8, 8));
    assert_eq!(ShaderVariant::Tiled.workgroup_size(), (16, 16));
    assert_eq!(dispatch_size(ShaderVariant::Naive, 33, 25), (4, 5));
    assert_eq!(dispatch_size(ShaderVariant::Tiled, 33, 25), (2, 3));
    assert_eq!(dispatch_size(ShaderVariant::Tiled, 16, 16), (1, 1));
}

#[test]
fn gpu_dimensions_block() {
    let d = GpuDimensions::from_dims(2, 3, 4);
    assert_eq!((d.m, d.k, d.n, d._padding), (2, 3, 4, 0));
}

#[test]
fn pack_and_unpack_strided() {
    // 2x2 matrix in a buffer with ld = 4.
    let src = [1, 2, 0, 0, 3, 4, 0, 0];
    assert_eq!(pack_rows(&src, 2, 2, 4), vec![1, 2, 3, 4]);
    let mut dst = [9; 5];
    unpack_rows(&mut dst, 3, &[1, 2, 3, 4], 2, 2);
    assert_eq!(dst, [1, 2, 9, 3, 4]);
}

#[test]
fn pack_operands_tight_and_strided() {
    let a = [1, 2, 3, 4, 5, 6];
    let b = [7, 8, 9, 10, 11, 12];
    // Tight strides: copied whole.
    assert_eq!(pack_operands(2, 3, 2, &a, 3, &b, 2), (a.to_vec(), b.to_vec()));
    // A (2x2) with lda = 3: packed.
    assert_eq!(pack_operands(2, 2, 3, &a, 3, &b, 3), (vec![1, 2, 4, 5], vec![7, 8, 9, 10, 11, 12]));
}

#[test]
fn int8_accumulation_fits_detects_overflow() {
    let a = [1i8, 2, 3, 4];
    let b = [5i8, 6, 7, 8];
    assert!(int8_accumulation_fits(2, 2, 2, &a, 0, &b, 0));
    // Every term is (-128 - 127) * (127 + 128) = -65025; 33026 of them
    // reach -2_147_515_650, below i32::MIN.
    let k = 33026;
    let a = vec![-128i8; k];
    let b = vec![127i8; k];
    assert!(!int8_accumulation_fits(1, k, 1, &a, 127, &b, -128));
    // One term fewer still fits.
    assert!(int8_accumulation_fits(1, k - 1, 1, &a, 127, &b, -128));
    assert_eq!(
        gemm_i8_accumulate(1, k - 1, 1, &a, 127, &b, -128),
        vec![-65025 * (k as i32 - 1)]
    );
}

#[test]
fn pack_then_unpack_restores_window() {
    // 3x2 window in a buffer with ld = 4; padding holds -1.
    let src = [1, 2, -1, -1, 3, 4, -1, -1, 5, 6];
    let packed = pack_rows(&src, 3, 2, 4);
    assert_eq!(packed, vec![1, 2, 3, 4, 5, 6]);
    let mut dst = [0; 10];
    unpack_rows(&mut dst, 4, &packed, 3, 2);
    assert_eq!(dst, [1, 2, 0, 0, 3, 4, 0, 0, 5, 6]);
}

#[test]
fn dispatch_covers_every_element() {
    for extent in [1usize, 7, 8, 9, 15, 16, 17, 100] {
        let (x, y) = dispatch_size(ShaderVariant::Naive, extent, extent);
        assert!(x as usize * 8 >= extent && (x as usize - 1) * 8 < extent);
        assert_eq!(x, y);
        let (x, _) = dispatch_size(ShaderVariant::Tiled, 1, extent);
        assert!(x as usize * 16 >= extent && (x as usize - 1) * 16 < extent);
    }
}

#[test]
fn int8_symmetric_bound_is_tight() {
    // Zero points 0: terms are at most 128 * 128 = 16384 in absolute value.
    let k = 131071;
    let a = vec![-128i8; k + 1];
    let b = vec![-128i8; k + 1];
    assert!(int8_accumulation_fits(1, k, 1, &a, 0, &b, 0));
    assert_eq!(gemm_i8_accumulate(1, k, 1, &a, 0, &b, 0), vec![i32::MAX - 16383]);
    // One more term reaches 2^31, which no longer fits.
    assert!(!int8_accumulation_fits(1, k + 1, 1, &a, 0, &b, 0));
}

#[test]
fn quantized_scratch_fits_or_names_the_matrix() {
    let mut arena = StaticArena::<64>::new();
    let (a_q, b_q) = reserve_quantized_scratch(&mut arena, 4, 5, 6).unwrap();
    assert_eq!((a_q.len(), b_q.len()), (20, 30));
    assert!(a_q.iter().chain(b_q.iter()).all(|&x| x == 0));
    assert_eq!(arena.used(), 50);
    // The arena is reset first: the same request succeeds again.
    assert!(reserve_quantized_scratch(&mut arena, 4, 5, 6).is_ok());
    assert_eq!(arena.used(), 50);
    // A does not fit.
    assert_eq!(
        reserve_quantized_scratch(&mut arena, 9, 8, 1),
        Err(GemmError::InsufficientA { required: 72, actual: 0 })
    );
    assert_eq!(arena.used(), 0);
    // A fits, B does not.
    assert_eq!(
        reserve_quantized_scratch(&mut arena, 4, 10, 3),
        Err(GemmError::InsufficientB { required: 30, actual: 0 })
    );
    assert_eq!(arena.used(), 40);
}
