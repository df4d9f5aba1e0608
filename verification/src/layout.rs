//! Size and alignment of a block of memory.

use vstd::prelude::*;
use vstd::arithmetic::power2::is_pow2;

verus! {

/// Halving an even number above one keeps it a power of two or not.
pub proof fn lemma_pow2_halve(n: int)
    requires
        n > 1,
        n % 2 == 0,
    ensures
        is_pow2(n) == is_pow2(n / 2),
{
    reveal(is_pow2);
}

/// One is a power of two; no other odd number and nothing below one is.
pub proof fn lemma_pow2_odd(n: int)
    requires
        n % 2 != 0 || n <= 0,
    ensures
        is_pow2(n) == (n == 1),
{
    reveal(is_pow2);
}

/// The powers of two up to sixteen.
pub proof fn lemma_pow2_small(n: int)
    requires
        n <= 16,
    ensures
        is_pow2(n) == (n == 1 || n == 2 || n == 4 || n == 8 || n == 16),
{
    reveal_with_fuel(is_pow2, 6);
}

/// Whether `n` is a power of two.
pub fn is_power_of_two(n: usize) -> (b: bool)
    ensures
        b == is_pow2(n as int),
{
    if n == 0 {
        proof {
            lemma_pow2_odd(0);
        }
        return false;
    }
    let mut m: usize = n;
    while m % 2 == 0
        invariant
            m > 0,
            is_pow2(m as int) == is_pow2(n as int),
        decreases m,
    {
        proof {
            lemma_pow2_halve(m as int);
        }
        m = m / 2;
    }
    proof {
        lemma_pow2_odd(m as int);
    }
    m == 1
}

/// Size and alignment of a block of memory, as an allocator is asked for it.
///
/// A well-formed layout has a power of two as its alignment, and a size that
/// stays within `isize::MAX` when it is rounded up to that alignment.
#[derive(Clone, Copy, Debug, PartialEq, Eq, Structural)]
pub struct Layout {
    size: usize,
    align: usize,
}

impl Layout {
    /// Whether `size` and `align` make a layout.
    pub open spec fn valid(size: usize, align: usize) -> bool {
        &&& is_pow2(align as int)
        &&& size + align - 1 <= isize::MAX
    }

    /// The layout's size in bytes.
    pub closed spec fn spec_size(&self) -> usize {
        self.size
    }

    /// The layout's alignment in bytes.
    pub closed spec fn spec_align(&self) -> usize {
        self.align
    }

    /// Every layout that the constructors give is well formed.
    pub open spec fn wf(&self) -> bool {
        Self::valid(self.spec_size(), self.spec_align())
    }

    /// Two layouts with the same size and alignment are the same layout.
    pub proof fn lemma_extensional(a: Layout, b: Layout)
        requires
            a.spec_size() == b.spec_size(),
            a.spec_align() == b.spec_align(),
        ensures
            a == b,
    {
    }

    /// The layout of `size` bytes aligned on `align`, where they make one.
    pub fn from_size_align(size: usize, align: usize) -> (r: Option<Layout>)
        ensures
            r.is_some() == Self::valid(size, align),
            r matches Some(l) ==> l.spec_size() == size && l.spec_align() == align,
    {
        if !is_power_of_two(align) {
            return None;
        }
        proof {
            lemma_pow2_odd(0);
        }
        let limit: usize = isize::MAX as usize;
        if align - 1 > limit || size > limit - (align - 1) {
            return None;
        }
        Some(Layout { size, align })
    }

    /// The layout of `size` bytes aligned on `align`, which the caller knows
    /// to make one.
    pub fn from_size_align_unchecked(size: usize, align: usize) -> (l: Layout)
        requires
            Self::valid(size, align),
        ensures
            l.wf(),
            l.spec_size() == size,
            l.spec_align() == align,
    {
        Layout { size, align }
    }

    /// The size in bytes.
    pub fn size(&self) -> (n: usize)
        ensures
            n == self.spec_size(),
    {
        self.size
    }

    /// The alignment in bytes.
    pub fn align(&self) -> (n: usize)
        ensures
            n == self.spec_align(),
    {
        self.align
    }
}

} // verus!
