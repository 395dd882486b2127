//! Memory layouts and the two heap allocators built on them.

use vstd::prelude::*;

pub mod bump;
pub mod fixed_size_block;
pub mod heap_model;

verus! {

/// Why an allocation request was not served.
#[derive(Clone, Copy, Debug, PartialEq, Eq, Structural)]
pub enum AllocError {
    /// The heap region has no room left for the request.
    OutOfMemory,
}

/// `n` is 1, 2, 4, 8, ...
pub open spec fn is_power_of_two(n: nat) -> bool
    decreases n,
{
    n == 1 || (n >= 2 && n % 2 == 0 && is_power_of_two(n / 2))
}

/// A size and an alignment as numbers.
pub struct LayoutSpec {
    /// The number of bytes.
    pub size: int,
    /// The alignment in bytes.
    pub align: int,
}

impl LayoutSpec {
    /// What makes a size and an alignment a layout: the alignment is a power
    /// of two, and the size rounded up to it does not exceed `isize::MAX`.
    pub open spec fn valid(self) -> bool {
        &&& 0 < self.align <= usize::MAX
        &&& is_power_of_two(self.align as nat)
        &&& 0 <= self.size <= isize::MAX - (self.align - 1)
    }
}

/// The size and alignment that a block of memory must have.
#[derive(Clone, Copy, Debug, PartialEq, Eq)]
pub struct Layout {
    size: usize,
    align: usize,
}

impl View for Layout {
    type V = LayoutSpec;

    closed spec fn view(&self) -> LayoutSpec {
        LayoutSpec { size: self.size as int, align: self.align as int }
    }
}

impl Layout {
    #[verifier::type_invariant]
    spec fn well_formed(self) -> bool {
        self@.valid()
    }

    /// The layout with the given size and alignment, if they form one.
    pub fn from_size_align(size: usize, align: usize) -> (r: Option<Layout>)
        ensures
            r is Some <==> (LayoutSpec { size: size as int, align: align as int }).valid(),
            r matches Some(l) ==> l@ == (LayoutSpec { size: size as int, align: align as int }),
    {
        if !power_of_two(align) {
            return None;
        }
        let slack = align - 1;
        if slack > isize::MAX as usize || size > isize::MAX as usize - slack {
            return None;
        }
        Some(Layout { size, align })
    }

    /// The number of bytes asked for.
    pub fn size(&self) -> (r: usize)
        ensures
            r == self@.size,
            self@.valid(),
    {
        proof {
            use_type_invariant(self);
        }
        self.size
    }

    /// The alignment asked for.
    pub fn align(&self) -> (r: usize)
        ensures
            r == self@.align,
            self@.valid(),
    {
        proof {
            use_type_invariant(self);
        }
        self.align
    }
}

/// Whether `n` is a power of two.
pub fn power_of_two(n: usize) -> (r: bool)
    ensures
        r == is_power_of_two(n as nat),
{
    if n == 0 {
        return false;
    }
    let mut m: usize = n;
    while m % 2 == 0
        invariant
            m >= 1,
            is_power_of_two(m as nat) == is_power_of_two(n as nat),
        decreases m,
    {
        m = m / 2;
    }
    m == 1
}

/// The least multiple of `align` that is not below `addr`.
pub open spec fn align_up_spec(addr: int, align: int) -> int {
    if addr % align == 0 {
        addr
    } else {
        addr - addr % align + align
    }
}

/// `addr` is a multiple of `align`.
pub open spec fn is_aligned(addr: int, align: int) -> bool {
    addr % align == 0
}

/// `align_up_spec` gives a multiple of `align`, the least one from `addr` on.
pub proof fn lemma_align_up(addr: int, align: int)
    requires
        0 <= addr,
        0 < align,
    ensures
        addr <= align_up_spec(addr, align) < addr + align,
        is_aligned(align_up_spec(addr, align), align),
        forall|m: int| addr <= m && #[trigger] is_aligned(m, align) ==> align_up_spec(addr, align) <= m,
{
    let up = align_up_spec(addr, align);
    let q = addr / align;
    assert(addr == q * align + addr % align && 0 <= addr % align < align) by (nonlinear_arith)
        requires
            0 <= addr,
            0 < align,
            q == addr / align,
    ;
    if addr % align != 0 {
        assert(up == (q + 1) * align) by (nonlinear_arith)
            requires
                up == addr - addr % align + align,
                addr == q * align + addr % align,
        ;
        assert(((q + 1) * align) % align == 0) by (nonlinear_arith)
            requires
                0 < align,
        ;
    }
    assert forall|m: int| addr <= m && #[trigger] is_aligned(m, align) implies up <= m by {
        if m < up {
            let k = m / align;
            assert(m == k * align) by (nonlinear_arith)
                requires
                    0 < align,
                    m % align == 0,
                    k == m / align,
            ;
            assert(false) by (nonlinear_arith)
                requires
                    0 < align,
                    m == k * align,
                    addr == q * align + addr % align,
                    0 < addr % align < align,
                    addr <= m,
                    m < (q + 1) * align,
            ;
        }
    }
}

/// Rounds `addr` up to a multiple of `align`, or gives `None` where that
/// multiple does not fit in `usize`.
pub fn align_up(addr: usize, align: usize) -> (r: Option<usize>)
    requires
        align > 0,
    ensures
        r is Some <==> align_up_spec(addr as int, align as int) <= usize::MAX,
        r matches Some(a) ==> a == align_up_spec(addr as int, align as int),
{
    let remainder = addr % align;
    if remainder == 0 {
        Some(addr)
    } else {
        assert(addr % align <= addr) by (nonlinear_arith)
            requires
                align > 0,
        ;
        (addr - remainder).checked_add(align)
    }
}

} // verus!
