use quasar_blas::types::{validate_gemm_dims, aligned_layout, GemmError};

#[test]
fn test_validate_dims_valid() {
    let result = validate_gemm_dims(2, 3, 4, 3, 4, 4, 6, 12, 8);
    assert!(result.is_ok());
}

#[test]
fn test_validate_dims_zero_m() {
    let result = validate_gemm_dims(0, 3, 4, 3, 4, 4, 0, 12, 0);
    assert!(matches!(result, Err(GemmError::ZeroDimension { which: "m" })));
}

#[test]
fn test_validate_dims_insufficient_a() {
    let result = validate_gemm_dims(2, 3, 4, 3, 4, 4, 5, 12, 8);
    assert!(matches!(result, Err(GemmError::InsufficientA { .. })));
}

#[test]
fn test_validate_dims_bad_ld() {
    let result = validate_gemm_dims(2, 3, 4, 2, 4, 4, 6, 12, 8);
    assert!(matches!(
        result,
        Err(GemmError::InvalidLeadingDimension { matrix: "A", .. })
    ));
}

#[test]
fn validate_reports_each_error_in_order() {
    assert_eq!(validate_gemm_dims(2, 0, 4, 3, 4, 4, 6, 12, 8), Err(GemmError::ZeroDimension { which: "k" }));
    assert_eq!(validate_gemm_dims(2, 3, 0, 3, 4, 4, 6, 12, 8), Err(GemmError::ZeroDimension { which: "n" }));
    assert_eq!(
        validate_gemm_dims(2, 3, 4, 3, 3, 4, 6, 12, 8),
        Err(GemmError::InvalidLeadingDimension { matrix: "B", ld: 3, min_required: 4 })
    );
    assert_eq!(
        validate_gemm_dims(2, 3, 4, 3, 4, 2, 6, 12, 8),
        Err(GemmError::InvalidLeadingDimension { matrix: "C", ld: 2, min_required: 4 })
    );
    assert_eq!(
        validate_gemm_dims(2, 3, 4, 3, 4, 4, 5, 12, 8),
        Err(GemmError::InsufficientA { required: 6, actual: 5 })
    );
    assert_eq!(
        validate_gemm_dims(2, 3, 4, 3, 4, 4, 6, 11, 8),
        Err(GemmError::InsufficientB { required: 12, actual: 11 })
    );
    assert_eq!(
        validate_gemm_dims(2, 3, 4, 3, 4, 4, 6, 12, 7),
        Err(GemmError::InsufficientC { required: 8, actual: 7 })
    );
    // A zero dimension is reported before a bad leading dimension.
    assert_eq!(validate_gemm_dims(0, 3, 4, 1, 1, 1, 0, 0, 0), Err(GemmError::ZeroDimension { which: "m" }));
}

#[test]
fn validate_returns_required_lengths() {
    // A 2x3 (lda 3): 1*3 + 3 = 6; B 3x4 (ldb 4): 2*4 + 4 = 12; C 2x4 (ldc 4): 8.
    assert_eq!(validate_gemm_dims(2, 3, 4, 3, 4, 4, 6, 12, 8), Ok((6, 12, 8)));
    // Longer slices and wider strides: the minimums, not the slice lengths.
    assert_eq!(validate_gemm_dims(2, 3, 4, 5, 6, 7, 100, 100, 100), Ok((8, 16, 11)));
}

#[test]
fn validate_strided_lengths() {
    // A is 3x2 with lda = 5: needs 2*5 + 2 = 12 elements.
    assert_eq!(validate_gemm_dims(3, 2, 1, 5, 1, 1, 12, 2, 3), Ok((12, 2, 3)));
    assert_eq!(
        validate_gemm_dims(3, 2, 1, 5, 1, 1, 11, 2, 3),
        Err(GemmError::InsufficientA { required: 12, actual: 11 })
    );
}

#[test]
fn aligned_layout_rounds_rows_to_cache_lines() {
    // f32: 16 elements per 64-byte line.
    assert_eq!(aligned_layout(4, 4, 4), (16, 4));
    assert_eq!(aligned_layout(3, 16, 4), (16, 3));
    assert_eq!(aligned_layout(2, 17, 4), (32, 4));
    // 8-byte elements: 8 per line; 3 rows of 8 take 3 lines.
    assert_eq!(aligned_layout(3, 5, 8), (8, 3));
    assert_eq!(aligned_layout(0, 5, 8), (8, 0));
}

#[test]
fn error_messages() {
    assert_eq!(
        GemmError::InsufficientA { required: 6, actual: 5 }.message(),
        "Matrix A: need 6 elements, got 5"
    );
    assert_eq!(
        GemmError::InsufficientB { required: 1200, actual: 0 }.message(),
        "Matrix B: need 1200 elements, got 0"
    );
    assert_eq!(
        GemmError::InsufficientC { required: usize::MAX, actual: 10 }.message(),
        format!("Matrix C: need {} elements, got 10", usize::MAX)
    );
    assert_eq!(
        GemmError::InvalidLeadingDimension { matrix: "B", ld: 3, min_required: 4 }.message(),
        "Matrix B: leading dimension 3 < minimum 4"
    );
    assert_eq!(GemmError::ZeroDimension { which: "k" }.message(), "Dimension 'k' is zero");
}
