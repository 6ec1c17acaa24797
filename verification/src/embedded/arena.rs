//! Fixed-capacity bump arena for embedded targets.
//!
//! The arena keeps a bump offset into an `N`-byte budget:
//! - `allocate::<T>(count)` rounds the offset up to `align_of::<T>()`, reserves
//!   `size_of::<T>() * count` bytes and hands out `count` zero-initialised
//!   (`Default`) elements;
//! - `reset()` sets the offset back to zero, releasing every allocation at once.

use vstd::prelude::*;
use vstd::layout::{align_of, size_of, layout_for_type_is_valid};
use vstd::arithmetic::power2::is_pow2;

verus! {

/// `x` rounded up to the next multiple of `align`.
pub open spec fn align_up(x: int, align: int) -> int {
    ((x + align - 1) / align) * align
}

/// Alignment law: rounding up to `align` gives a multiple of `align` that is
/// at or after `x` and less than one alignment beyond it. An allocation
/// therefore starts aligned, at or after the end of the previous one.
pub proof fn align_up_law(x: int, align: int)
    requires
        0 <= x,
        0 < align,
    ensures
        align_up(x, align) % align == 0,
        x <= align_up(x, align) < x + align,
{
    let y = x + align - 1;
    let q = y / align;
    vstd::arithmetic::div_mod::lemma_fundamental_div_mod(y, align);
    vstd::arithmetic::div_mod::lemma_mod_multiples_basic(q, align);
    assert(q * align == align * q) by (nonlinear_arith);
}

/// For a power of two `a`, masking with `a - 1` keeps the remainder modulo `a`.
proof fn lemma_pow2_mask_is_mod(x: usize, a: usize)
    requires
        is_pow2(a as int),
    ensures
        a > 0,
        x & ((a - 1) as usize) == x % a,
    decreases a,
{
    reveal(is_pow2);
    if a == 1 {
        assert(x & 0usize == 0) by (bit_vector);
    } else {
        let h = (a / 2) as usize;
        lemma_pow2_mask_is_mod(x / 2, h);
        assert(x & ((a - 1) as usize) == 2 * ((x / 2) & ((h - 1) as usize)) + x % 2) by (bit_vector)
            requires
                a == 2 * h,
                h >= 1,
        ;
        assert(x % a == 2 * ((x / 2) % h) + x % 2) by {
            vstd::arithmetic::div_mod::lemma_mod_breakdown(x as int, 2, h as int);
        }
    }
}

/// For a power of two `a`, clearing the low bits with `!(a - 1)` rounds down
/// to a multiple of `a`.
proof fn lemma_mask_round_down(x: usize, a: usize)
    requires
        is_pow2(a as int),
    ensures
        a > 0,
        x & !((a - 1) as usize) == x - x % a,
{
    lemma_pow2_mask_is_mod(x, a);
    let m = (a - 1) as usize;
    assert(x & !m == x - (x & m)) by (bit_vector);
}

/// A fixed-capacity bump arena over `N` bytes.
pub struct StaticArena<const N: usize> {
    /// Current allocation offset (bump pointer), in bytes.
    offset: usize,
}

impl<const N: usize> StaticArena<N> {
    #[verifier::type_invariant]
    spec fn offset_in_bounds(self) -> bool {
        self.offset <= N
    }

    /// Number of bytes allocated so far.
    pub closed spec fn spec_used(self) -> nat {
        self.offset as nat
    }

    /// Create a new, empty arena.
    pub fn new() -> (r: Self)
        ensures
            r.spec_used() == 0,
    {
        StaticArena { offset: 0 }
    }

    /// Allocate `count` elements of type `T`, aligned to `align_of::<T>()`.
    ///
    /// Returns `None`, and leaves the arena unchanged, when the aligned
    /// block does not fit in the remaining capacity. A request of zero bytes
    /// always succeeds with no elements and reserves nothing.
    pub fn allocate<T: Copy + Default>(&mut self, count: usize) -> (r: Option<Vec<T>>)
        requires
            size_of::<T>() * count <= usize::MAX,
            size_of::<T>() * count > 0 ==> {
                &&& old(self).spec_used() + align_of::<T>() <= usize::MAX
                &&& align_up(old(self).spec_used() as int, align_of::<T>() as int) + size_of::<T>() * count <= usize::MAX
            },
        ensures
            size_of::<T>() * count == 0 ==> (r matches Some(v) && v@.len() == 0 && final(self).spec_used() == old(self).spec_used()),
            size_of::<T>() * count > 0 ==> {
                let start = align_up(old(self).spec_used() as int, align_of::<T>() as int);
                let end = start + size_of::<T>() * count;
                &&& (r is Some <==> end <= N)
                &&& r matches Some(v) ==> v@.len() == count && final(self).spec_used() == end
                &&& r is None ==> final(self).spec_used() == old(self).spec_used()
            },
            final(self).spec_used() >= old(self).spec_used(),
            r matches Some(v) ==> forall|i: int| 0 <= i < v@.len() ==> call_ensures(T::default, (), #[trigger] v@[i]),
    {
        proof {
            use_type_invariant(&*self);
        }
        layout_for_type_is_valid::<T>();
        let align = core::mem::align_of::<T>();
        let size = core::mem::size_of::<T>() * count;

        if size == 0 {
            return Some(Vec::new());
        }

        let current = self.offset;
        proof {
            lemma_mask_round_down((current + align - 1) as usize, align);
        }
        // Align up.
        let aligned = (current + align - 1) & !(align - 1);
        assert(aligned == align_up(current as int, align as int)) by {
            let y = current + align - 1;
            vstd::arithmetic::div_mod::lemma_fundamental_div_mod(y, align as int);
            vstd::arithmetic::mul::lemma_mul_is_commutative(align as int, y / (align as int));
        }
        let new_offset = aligned + size;

        if new_offset > N {
            return None;
        }
        self.offset = new_offset;

        // Zero-initialise the block.
        let mut v: Vec<T> = Vec::new();
        let mut i: usize = 0;
        while i < count
            invariant
                i <= count,
                v@.len() == i,
                forall|q: int| 0 <= q < v@.len() ==> call_ensures(T::default, (), #[trigger] v@[q]),
            decreases count - i,
        {
            v.push(T::default());
            i += 1;
        }
        Some(v)
    }

    /// Reset the arena, releasing every allocation.
    pub fn reset(&mut self)
        ensures
            final(self).spec_used() == 0,
    {
        self.offset = 0;
    }

    /// Current number of bytes allocated.
    pub fn used(&self) -> (r: usize)
        ensures
            r == self.spec_used(),
            r <= N,
    {
        proof {
            use_type_invariant(self);
        }
        self.offset
    }

    /// Total capacity in bytes.
    pub fn capacity(&self) -> (r: usize)
        ensures
            r == N,
    {
        N
    }

    /// Remaining bytes available.
    pub fn remaining(&self) -> (r: usize)
        ensures
            r == N - self.spec_used(),
    {
        proof {
            use_type_invariant(self);
        }
        N - self.offset
    }
}

} // verus!
