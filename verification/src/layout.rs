use vstd::prelude::*;
use vstd::arithmetic::power2::is_pow2;

verus! {

/// `a` is a power of two exactly when it is nonzero and clearing its lowest set
/// bit leaves nothing.
pub proof fn lemma_pow2_bit_test(a: usize)
    ensures
        (a != 0 && a & ((a - 1) as usize) == 0) <==> is_pow2(a as int),
    decreases a,
{
    reveal(is_pow2);
    if a == 0 {
    } else if a == 1 {
        assert(1usize & 0usize == 0) by (bit_vector);
    } else if a % 2 == 1 {
        assert(a & ((a - 1) as usize) != 0) by (bit_vector)
            requires
                a % 2 == 1,
                a > 1,
        ;
    } else {
        let h: usize = a / 2;
        lemma_pow2_bit_test(h);
        assert((a & ((a - 1) as usize) == 0) <==> (h & ((h - 1) as usize) == 0)) by (bit_vector)
            requires
                a % 2 == 0,
                a > 1,
                h == a / 2,
        ;
    }
}

/// Whether `align` is a nonzero power of two, tested with the usual bit trick.
pub fn is_power_of_two(align: usize) -> (r: bool)
    ensures
        r == is_pow2(align as int),
{
    proof {
        lemma_pow2_bit_test(align);
    }
    align != 0 && align & (align - 1) == 0
}

/// Bytes of padding needed after `x` so that the next position is a multiple of `a`.
pub open spec fn padding_for(x: int, a: int) -> int {
    if x % a == 0 {
        0
    } else {
        a - x % a
    }
}

/// The least multiple of `a` that is not below `x`.
pub open spec fn align_up(x: int, a: int) -> int {
    x + padding_for(x, a)
}

/// `align_up(x, a)` is a multiple of `a`, lies in `[x, x + a)`, and no smaller
/// multiple of `a` lies at or above `x`.
pub proof fn lemma_align_up(x: int, a: int)
    requires
        x >= 0,
        a > 0,
    ensures
        align_up(x, a) % a == 0,
        x <= align_up(x, a) < x + a,
        forall|y: int| #![trigger y % a] x <= y && y % a == 0 ==> align_up(x, a) <= y,
{
    let q = x / a;
    let r = x % a;
    assert(x == q * a + r && 0 <= r < a) by (nonlinear_arith)
        requires
            a > 0,
            q == x / a,
            r == x % a,
    ;
    if r != 0 {
        assert((q * a + a) % a == 0) by (nonlinear_arith)
            requires
                a > 0,
        ;
        assert((q + 1) * a == q * a + a) by (nonlinear_arith);
        assert forall|y: int| #![trigger y % a] x <= y && y % a == 0 implies align_up(x, a) <= y by {
            let k = y / a;
            assert(y == k * a) by (nonlinear_arith)
                requires
                    a > 0,
                    y % a == 0,
                    k == y / a,
            ;
            assert(k > q) by (nonlinear_arith)
                requires
                    y == k * a,
                    x == q * a + r,
                    0 < r < a,
                    x <= y,
                    a > 0,
            ;
            assert(k * a >= (q + 1) * a) by (nonlinear_arith)
                requires
                    k >= q + 1,
                    a > 0,
            ;
        }
    }
}

/// The layout conditions of std: `align` a power of two, and `size` rounded up
/// to a multiple of `align` no greater than `isize::MAX`.
pub open spec fn layout_ok(size: int, align: int) -> bool {
    &&& is_pow2(align)
    &&& 0 <= size <= isize::MAX as int - (isize::MAX as int % align)
}

/// The error returned when a size and an alignment do not make a layout.
#[derive(Debug, Clone, Copy, PartialEq, Eq)]
pub struct LayoutError;

/// The size and alignment of a block of memory.
#[derive(Debug, Clone, Copy, PartialEq, Eq)]
pub struct Layout {
    size: usize,
    align: usize,
}

impl Layout {
    pub closed spec fn spec_size(&self) -> usize {
        self.size
    }

    pub closed spec fn spec_align(&self) -> usize {
        self.align
    }

    /// A layout always satisfies the layout conditions.
    pub open spec fn wf(&self) -> bool {
        layout_ok(self.spec_size() as int, self.spec_align() as int)
    }

    #[verifier::when_used_as_spec(spec_size)]
    pub fn size(&self) -> (r: usize)
        ensures
            r == self.spec_size(),
    {
        self.size
    }

    #[verifier::when_used_as_spec(spec_align)]
    pub fn align(&self) -> (r: usize)
        ensures
            r == self.spec_align(),
    {
        self.align
    }

    /// A layout of `size` bytes aligned to `align`, when these satisfy the layout
    /// conditions; an error otherwise.
    pub fn from_size_align(size: usize, align: usize) -> (r: Result<Layout, LayoutError>)
        ensures
            r is Ok <==> layout_ok(size as int, align as int),
            r matches Ok(l) ==> l.wf() && l.size() == size && l.align() == align,
    {
        if !is_power_of_two(align) {
            return Err(LayoutError);
        }
        proof {
            reveal(is_pow2);
        }
        let max: usize = isize::MAX as usize;
        assert(max % align <= max) by (nonlinear_arith)
            requires
                align > 0,
        ;
        if size > max - max % align {
            return Err(LayoutError);
        }
        Ok(Layout { size, align })
    }

    /// The layout of a value of type `T`.
    pub fn new<T>() -> (r: Layout)
        ensures
            r.wf(),
            r.size() as nat == vstd::layout::size_of::<T>(),
            r.align() as nat == vstd::layout::align_of::<T>(),
    {
        vstd::layout::layout_for_type_is_valid::<T>();
        Layout { size: core::mem::size_of::<T>(), align: core::mem::align_of::<T>() }
    }

    /// The layout of `self` followed by `next`, with `next` starting at the first
    /// offset after `self` that is aligned for `next`; returns that layout and
    /// that offset, or an error when the combined layout breaks the layout
    /// conditions.
    pub fn extend(&self, next: Layout) -> (r: Result<(Layout, usize), LayoutError>)
        requires
            self.wf(),
            next.wf(),
        ensures
            r is Ok <==> layout_ok(
                align_up(self.size() as int, next.align() as int) + next.size(),
                max_align(self.align() as int, next.align() as int),
            ),
            r matches Ok((l, off)) ==> {
                &&& l.wf()
                &&& off == align_up(self.size() as int, next.align() as int)
                &&& l.size() == off + next.size()
                &&& l.align() == max_align(self.align() as int, next.align() as int)
            },
    {
        proof {
            reveal(is_pow2);
        }
        let new_align = if self.align >= next.align {
            self.align
        } else {
            next.align
        };
        let rem = self.size % next.align;
        let pad = if rem == 0 {
            0
        } else {
            next.align - rem
        };
        let offset = match self.size.checked_add(pad) {
            Some(o) => o,
            None => return Err(LayoutError),
        };
        let new_size = match offset.checked_add(next.size) {
            Some(s) => s,
            None => return Err(LayoutError),
        };
        match Layout::from_size_align(new_size, new_align) {
            Ok(l) => Ok((l, offset)),
            Err(e) => Err(e),
        }
    }
}

/// The larger of two alignments.
pub open spec fn max_align(a: int, b: int) -> int {
    if a >= b {
        a
    } else {
        b
    }
}

} // verus!
