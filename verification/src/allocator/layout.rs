//! The size and alignment of a memory request.
use vstd::prelude::*;
use vstd::arithmetic::power2::is_pow2;
use vstd::layout::valid_layout;

verus! {

/// Whether `x` is a power of two.
pub fn is_power_of_two(x: usize) -> (r: bool)
    ensures
        r == is_pow2(x as int),
{
    let mut n = x;
    while n > 1 && n % 2 == 0
        invariant
            is_pow2(x as int) == is_pow2(n as int),
        decreases n,
    {
        proof {
            reveal_with_fuel(is_pow2, 2);
        }
        assert(is_pow2(n as int) == is_pow2((n / 2) as int));
        n = n / 2;
    }
    proof {
        reveal_with_fuel(is_pow2, 2);
    }
    n == 1
}

/// The reason a `Layout` could not be built.
#[derive(Clone, Copy, Debug, PartialEq, Eq, Structural)]
pub struct LayoutErr;

/// A request for `size` bytes aligned to `align`, a power of two; `size`
/// rounded up to a multiple of `align` fits in an `isize`.
#[derive(Clone, Copy, Debug)]
pub struct Layout {
    size: usize,
    align: usize,
}

impl Layout {
    #[verifier::type_invariant]
    spec fn inv(self) -> bool {
        valid_layout(self.size, self.align)
    }

    /// The requested size.
    pub closed spec fn size_spec(&self) -> usize {
        self.size
    }

    /// The requested alignment.
    pub closed spec fn align_spec(&self) -> usize {
        self.align
    }

    /// A layout of `size` bytes aligned to `align`; an error unless `align` is
    /// a power of two and `size` rounded up to it fits in an `isize`.
    pub fn from_size_align(size: usize, align: usize) -> (r: Result<Layout, LayoutErr>)
        ensures
            r is Ok <==> valid_layout(size, align),
            r matches Ok(l) ==> l.size_spec() == size && l.align_spec() == align,
    {
        if !is_power_of_two(align) {
            return Err(LayoutErr);
        }
        proof {
            reveal_with_fuel(is_pow2, 1);
        }
        assert(align > 0);
        let max = isize::MAX as usize;
        assert(max % align <= max) by (nonlinear_arith)
            requires
                align > 0,
        ;
        if size > max - max % align {
            return Err(LayoutErr);
        }
        Ok(Layout { size, align })
    }

    /// The requested size.
    #[verifier::when_used_as_spec(size_spec)]
    pub fn size(&self) -> (r: usize)
        ensures
            r == self.size_spec(),
    {
        self.size
    }

    /// The requested alignment.
    #[verifier::when_used_as_spec(align_spec)]
    pub fn align(&self) -> (r: usize)
        ensures
            r == self.align_spec(),
            valid_layout(self.size_spec(), r),
            r >= 1,
    {
        proof {
            use_type_invariant(self);
            reveal_with_fuel(is_pow2, 1);
        }
        self.align
    }
}

} // verus!
