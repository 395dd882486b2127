//! Physical memory by frames: which frame is handed out next.
//!
//! The boot loader's memory map comes in as plain regions, and a frame goes
//! out as its start address. Page tables are the caller's business.

use vstd::prelude::*;

verus! {

/// The size of a frame in bytes.
pub const FRAME_SIZE: u64 = 4096;

/// A frame allocator that has no frame to give.
pub struct EmptyFrameAllocator;

impl EmptyFrameAllocator {
    /// Gives no frame.
    pub fn allocate_frame(&mut self) -> (r: Option<u64>)
        ensures
            r is None,
    {
        None
    }
}

/// A region of the memory map: the addresses from `start_addr` up to, but
/// without, `end_addr`.
#[derive(Debug, Clone, Copy, PartialEq, Eq, Structural)]
pub struct MemoryRegion {
    /// The first address of the region.
    pub start_addr: u64,
    /// The first address past the region.
    pub end_addr: u64,
    /// Whether the region is free for use.
    pub usable: bool,
}

impl MemoryRegion {
    /// The number of frame addresses that the region gives: one every
    /// `FRAME_SIZE` bytes from its start on, as long as that is inside a
    /// usable region.
    pub open spec fn frame_count(self) -> int {
        if self.usable && self.start_addr < self.end_addr {
            (self.end_addr - self.start_addr + FRAME_SIZE - 1) / (FRAME_SIZE as int)
        } else {
            0
        }
    }
}

/// The address that the usable regions of `regions` give at place `n`, the
/// regions taken in their order, or `None` where they give no more than `n`.
pub open spec fn frame_address(regions: Seq<MemoryRegion>, n: int) -> Option<int>
    decreases regions.len(),
{
    if regions.len() == 0 || n < 0 {
        None
    } else if n < regions[0].frame_count() {
        Some(regions[0].start_addr + n * FRAME_SIZE)
    } else {
        frame_address(regions.drop_first(), n - regions[0].frame_count())
    }
}

/// The start of the frame that holds `addr`.
pub open spec fn frame_start(addr: int) -> int {
    addr - addr % (FRAME_SIZE as int)
}

/// A frame allocator that hands out the usable frames of the boot loader's
/// memory map, one after the other.
pub struct BootInfoFrameAllocator {
    memory_map: Vec<MemoryRegion>,
    next: usize,
}

/// A `BootInfoFrameAllocator` as plain values.
pub struct FrameAllocatorState {
    /// The regions of the memory map.
    pub regions: Seq<MemoryRegion>,
    /// The number of frames that have been asked for.
    pub next: int,
}

impl View for BootInfoFrameAllocator {
    type V = FrameAllocatorState;

    closed spec fn view(&self) -> FrameAllocatorState {
        FrameAllocatorState { regions: self.memory_map@, next: self.next as int }
    }
}

impl BootInfoFrameAllocator {
    /// A frame allocator over `memory_map`, which has handed out nothing.
    ///
    /// The caller sees to it that the map is right: a region that it calls
    /// usable is in use by nothing else.
    pub fn init(memory_map: Vec<MemoryRegion>) -> (r: Self)
        ensures
            r@ == (FrameAllocatorState { regions: memory_map@, next: 0 }),
    {
        BootInfoFrameAllocator { memory_map, next: 0 }
    }

    /// The number of frames that have been asked for.
    pub fn frames_requested(&self) -> (r: usize)
        ensures
            r == self@.next,
    {
        self.next
    }

    /// The start address of the frame at place `n` among the usable frames.
    fn usable_frame(&self, n: usize) -> (r: Option<u64>)
        ensures
            r is Some <==> frame_address(self@.regions, n as int) is Some,
            r matches Some(addr) ==> addr == frame_start(
                frame_address(self@.regions, n as int).unwrap(),
            ),
    {
        let mut skipped: u64 = 0;
        let mut index: usize = 0;
        let wanted = n as u64;
        assert(self.memory_map@.skip(0) =~= self.memory_map@);
        while index < self.memory_map.len()
            invariant
                index <= self.memory_map@.len(),
                skipped <= wanted,
                wanted == n,
                frame_address(self.memory_map@, n as int) == frame_address(
                    self.memory_map@.skip(index as int),
                    wanted - skipped,
                ),
            decreases self.memory_map@.len() - index,
        {
            let region = self.memory_map[index];
            let ghost rest = self.memory_map@.skip(index as int);
            assert(rest[0] == region);
            assert(rest.drop_first() =~= self.memory_map@.skip(index + 1));
            if region.usable && region.start_addr < region.end_addr {
                let count = (region.end_addr - region.start_addr - 1) / FRAME_SIZE + 1;
                assert(count == region.frame_count()) by {
                    lemma_count(region.end_addr - region.start_addr);
                }
                if wanted - skipped < count {
                    let offset = (wanted - skipped) * FRAME_SIZE;
                    let addr = region.start_addr + offset;
                    assert(frame_address(rest, wanted - skipped) == Some(addr as int));
                    return Some(addr - addr % FRAME_SIZE);
                }
                skipped = skipped + count;
            } else {
                assert(region.frame_count() == 0);
            }
            index += 1;
        }
        assert(self.memory_map@.skip(index as int) =~= Seq::<MemoryRegion>::empty());
        None
    }

    /// Hands out the next usable frame, by its start address, or `None`
    /// where the memory map has no more.
    pub fn allocate_frame(&mut self) -> (r: Option<u64>)
        requires
            old(self)@.next < usize::MAX,
        ensures
            final(self)@ == (FrameAllocatorState { next: old(self)@.next + 1, ..old(self)@ }),
            r is Some <==> frame_address(old(self)@.regions, old(self)@.next) is Some,
            r matches Some(addr) ==> addr == frame_start(
                frame_address(old(self)@.regions, old(self)@.next).unwrap(),
            ),
    {
        let frame = self.usable_frame(self.next);
        self.next += 1;
        frame
    }
}

/// Counting the frame addresses of a region by rounding its length up.
proof fn lemma_count(length: int)
    requires
        length > 0,
    ensures
        (length - 1) / 4096 + 1 == (length + 4095) / 4096,
{
}

} // verus!
