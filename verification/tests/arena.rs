use quasar_blas::embedded::arena::StaticArena;

#[test]
fn test_basic_alloc() {
    let mut arena = StaticArena::<1024>::new();

    let buf = arena.allocate::<u8>(100).unwrap();
    assert_eq!(buf.len(), 100);
    assert!(arena.used() >= 100);
}

#[test]
fn test_alignment() {
    let mut arena = StaticArena::<1024>::new();

    // Allocate 1 byte to offset the pointer
    let _ = arena.allocate::<u8>(1).unwrap();

    // Next allocation should be aligned to 4 bytes (f32 alignment)
    let buf = arena.allocate::<f32>(4).unwrap();
    let ptr = buf.as_ptr() as usize;
    assert_eq!(ptr % 4, 0, "f32 allocation not aligned to 4 bytes");
}

#[test]
fn test_out_of_space() {
    let mut arena = StaticArena::<32>::new();

    let _ = arena.allocate::<u8>(30).unwrap();
    let result = arena.allocate::<u8>(10); // Would exceed capacity
    assert!(result.is_none());
}

#[test]
fn test_reset() {
    let mut arena = StaticArena::<256>::new();

    let _ = arena.allocate::<u8>(200).unwrap();
    assert!(arena.used() >= 200);

    arena.reset();
    assert_eq!(arena.used(), 0);

    // Can allocate again after reset
    let _ = arena.allocate::<u8>(200).unwrap();
    assert!(arena.used() >= 200);
}

#[test]
fn test_zero_initialization() {
    let mut arena = StaticArena::<256>::new();

    let buf = arena.allocate::<i32>(10).unwrap();
    for &val in buf.iter() {
        assert_eq!(val, 0, "Arena allocation not zero-initialized");
    }
}

#[test]
fn test_multiple_allocs() {
    let mut arena = StaticArena::<1024>::new();

    let mut a = arena.allocate::<f32>(10).unwrap();
    let mut b = arena.allocate::<i8>(50).unwrap();
    let mut c = arena.allocate::<i32>(5).unwrap();

    assert_eq!(a.len(), 10);
    assert_eq!(b.len(), 50);
    assert_eq!(c.len(), 5);

    // Write to each without overlap
    a[0] = 42.0;
    b[0] = 127;
    c[0] = -1;

    assert_eq!(a[0], 42.0);
    assert_eq!(b[0], 127);
    assert_eq!(c[0], -1);
}

#[test]
fn arena_offsets_are_aligned_and_bumped() {
    let mut arena = StaticArena::<64>::new();
    let _ = arena.allocate::<u8>(3).unwrap();
    assert_eq!(arena.used(), 3);
    // i32 block starts at 4 (3 rounded up to 4) and takes 8 bytes.
    let _ = arena.allocate::<i32>(2).unwrap();
    assert_eq!(arena.used(), 12);
    // u64 block starts at 16 and takes 16 bytes.
    let _ = arena.allocate::<u64>(2).unwrap();
    assert_eq!(arena.used(), 32);
    assert_eq!(arena.remaining(), 32);
    assert_eq!(arena.capacity(), 64);
}

#[test]
fn arena_failed_allocation_leaves_offset() {
    let mut arena = StaticArena::<16>::new();
    let _ = arena.allocate::<u8>(5).unwrap();
    // 8 bytes aligned to 8 would need [8, 16): fits exactly.
    let ok = arena.allocate::<u64>(1);
    assert!(ok.is_some());
    assert_eq!(arena.used(), 16);
    let none = arena.allocate::<u8>(1);
    assert!(none.is_none());
    assert_eq!(arena.used(), 16);
    assert_eq!(arena.remaining(), 0);
}

#[test]
fn arena_zero_sized_request() {
    let mut arena = StaticArena::<8>::new();
    let v = arena.allocate::<u32>(0).unwrap();
    assert!(v.is_empty());
    assert_eq!(arena.used(), 0);
    let w = arena.allocate::<()>(5).unwrap();
    assert!(w.is_empty());
    assert_eq!(arena.used(), 0);
}
