# quasar_blas

Dense matrix multiplication (GEMM, `C = A x B`) over strided matrices, with
the engines proved correct in Verus against a mathematical model.

## Layout

- `src/` — the verified library.
  - `types.rs`: the element trait, the error type, dimension validation and
    the cache-line layout of aligned matrices.
  - `matrix.rs`: the model of a strided GEMM (`gemm_result`) and the index
    arithmetic shared by the engines.
  - `cpu/`: the naive, tiled and lane-grouped engines; each is proved to
    produce exactly `gemm_result`.
  - `embedded/`: the bump arena and the exact INT8 product with `i32`
    accumulation.
  - `gpu/`: shader choice, dispatch sizes, the uniform block and the packing
    of strided operands for the GPU engine.
  - `laws.rs`: the identity and transpose laws of the model.
- `app/` — ordinary Rust around the library: `f32` elements, quantization,
  the quantized embedded engine, the wgpu engine and its shaders, and
  cache-line-aligned storage.
- `tests/` — the test suite.
