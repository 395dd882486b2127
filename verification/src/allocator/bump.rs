//! A bump allocator: hands out a region front to back and takes it back whole.

use super::{
    align_up, align_up_spec, is_aligned, lemma_align_up, AllocError, Layout, LayoutSpec,
};
use vstd::prelude::*;

verus! {

/// The state of a bump allocator as numbers.
pub struct BumpState {
    /// First address of the heap region.
    pub heap_start: int,
    /// First address past the heap region.
    pub heap_end: int,
    /// Where the next allocation starts, before alignment.
    pub next: int,
    /// How many allocations are live.
    pub allocations: int,
}

impl BumpState {
    /// The cursor lies inside the region and the count is not negative.
    pub open spec fn wf(self) -> bool {
        &&& 0 <= self.heap_start <= self.next <= self.heap_end <= usize::MAX
        &&& 0 <= self.allocations <= usize::MAX
    }

    /// The state that `init` leaves: the region is set and wholly unused.
    pub open spec fn init(self, heap_start: int, heap_size: int) -> BumpState {
        BumpState {
            heap_start,
            heap_end: heap_start + heap_size,
            next: heap_start,
            allocations: self.allocations,
        }
    }

    /// Where an allocation of `layout` would start.
    pub open spec fn alloc_start(self, layout: LayoutSpec) -> int {
        align_up_spec(self.next, layout.align)
    }

    /// Whether an allocation of `layout` fits in what is left of the region.
    pub open spec fn fits(self, layout: LayoutSpec) -> bool {
        self.alloc_start(layout) + layout.size <= self.heap_end
    }

    /// The state after an allocation of `layout`: on success the cursor is
    /// at the allocation's end and the count is one higher.
    pub open spec fn allocate(self, layout: LayoutSpec) -> BumpState {
        if self.fits(layout) {
            BumpState {
                next: self.alloc_start(layout) + layout.size,
                allocations: self.allocations + 1,
                ..self
            }
        } else {
            self
        }
    }

    /// What an allocation of `layout` returns.
    pub open spec fn allocate_result(self, layout: LayoutSpec) -> Result<usize, AllocError> {
        if self.fits(layout) {
            Ok(self.alloc_start(layout) as usize)
        } else {
            Err(AllocError::OutOfMemory)
        }
    }

    /// The state after one deallocation: the count is one lower, and when it
    /// reaches zero the whole region is free again.
    pub open spec fn deallocate(self) -> BumpState {
        BumpState {
            allocations: self.allocations - 1,
            next: if self.allocations == 1 {
                self.heap_start
            } else {
                self.next
            },
            ..self
        }
    }
}

/// A bump allocator over one region of addresses.
pub struct BumpAllcator {
    heap_start: usize,
    heap_end: usize,
    next: usize,
    allocations: usize,
}

impl View for BumpAllcator {
    type V = BumpState;

    closed spec fn view(&self) -> BumpState {
        BumpState {
            heap_start: self.heap_start as int,
            heap_end: self.heap_end as int,
            next: self.next as int,
            allocations: self.allocations as int,
        }
    }
}

impl BumpAllcator {
    #[verifier::type_invariant]
    spec fn well_formed(self) -> bool {
        self@.wf()
    }

    /// An allocator over the empty region at address 0.
    pub fn new() -> (r: Self)
        ensures
            r@ == (BumpState { heap_start: 0, heap_end: 0, next: 0, allocations: 0 }),
    {
        Self { heap_start: 0, heap_end: 0, next: 0, allocations: 0 }
    }

    /// Gives the allocator the region of `heap_size` bytes at `heap_start`.
    ///
    /// The caller sees to it that nothing else uses the region, and calls
    /// this once, before the first allocation.
    pub fn init(&mut self, heap_start: usize, heap_size: usize)
        requires
            heap_start + heap_size <= usize::MAX,
        ensures
            final(self)@ == old(self)@.init(heap_start as int, heap_size as int),
    {
        proof {
            use_type_invariant(&*self);
        }
        *self = BumpAllcator {
            heap_start,
            heap_end: heap_start + heap_size,
            // the whole region is unused at first
            next: heap_start,
            allocations: self.allocations,
        };
    }

    /// The number of live allocations.
    pub fn allocations(&self) -> (r: usize)
        ensures
            r == self@.allocations,
            self@.wf(),
    {
        proof {
            use_type_invariant(self);
        }
        self.allocations
    }

    /// Allocates a block of `layout` at the next aligned address, or fails
    /// with `OutOfMemory` where the block would end past the region.
    pub fn allocate(&mut self, layout: Layout) -> (r: Result<usize, AllocError>)
        requires
            old(self)@.allocations < usize::MAX,
        ensures
            final(self)@ == old(self)@.allocate(layout@),
            r == old(self)@.allocate_result(layout@),
    {
        proof {
            use_type_invariant(&*self);
        }
        let align = layout.align();
        proof {
            lemma_align_up(self.next as int, align as int);
        }
        let alloc_start = match align_up(self.next, align) {
            Some(start) => start,
            None => {
                return Err(AllocError::OutOfMemory);
            },
        };
        let alloc_end = match alloc_start.checked_add(layout.size()) {
            Some(end) => end,
            None => {
                return Err(AllocError::OutOfMemory);
            },
        };
        if alloc_end > self.heap_end {
            Err(AllocError::OutOfMemory)
        } else {
            self.next = alloc_end;
            self.allocations += 1;
            Ok(alloc_start)
        }
    }

    /// Takes one allocation back. The last one to come back frees the whole
    /// region at once.
    pub fn deallocate(&mut self, ptr: usize, layout: Layout)
        requires
            old(self)@.allocations > 0,
        ensures
            final(self)@ == old(self)@.deallocate(),
    {
        proof {
            use_type_invariant(&*self);
        }
        self.allocations -= 1;
        if self.allocations == 0 {
            self.next = self.heap_start;
        }
    }
}

/// When the last live allocation comes back, the count is at zero and the
/// cursor at the region's start, so that the next allocation starts at the
/// first aligned address of the region: at its very start, where that is
/// aligned and the block fits.
pub proof fn lemma_region_reused_from_start(s: BumpState, layout: LayoutSpec)
    requires
        s.wf(),
        s.allocations == 1,
        layout.valid(),
    ensures
        s.deallocate().wf(),
        s.deallocate().allocations == 0,
        s.deallocate().next == s.heap_start,
        s.deallocate().allocate_result(layout) matches Ok(a) ==> {
            &&& a == align_up_spec(s.heap_start, layout.align)
            &&& s.heap_start <= a < s.heap_start + layout.align
        },
        is_aligned(s.heap_start, layout.align) && s.heap_start + layout.size
            <= s.heap_end ==> s.deallocate().allocate_result(layout) == Ok::<usize, AllocError>(
            s.heap_start as usize,
        ),
{
    lemma_align_up(s.heap_start, layout.align);
}

/// Allocation and deallocation keep the cursor inside the region.
pub proof fn lemma_steps_keep_wf(s: BumpState, layout: LayoutSpec)
    requires
        s.wf(),
        layout.valid(),
    ensures
        s.allocations < usize::MAX ==> s.allocate(layout).wf(),
        s.allocations > 0 ==> s.deallocate().wf(),
        s.allocate_result(layout) matches Ok(a) ==> {
            &&& s.next <= a
            &&& is_aligned(a as int, layout.align)
            &&& a + layout.size == s.allocate(layout).next
        },
{
    lemma_align_up(s.next, layout.align);
}

} // verus!
