//! The blocks that a fixed-size block allocator has out and on its lists.
//!
//! A heap is followed through a run of allocations and deallocations. As
//! long as the fallback allocator hands out memory that is not in use, and
//! every block comes back with the layout it was allocated with, no two live
//! allocations share a byte.

use super::fixed_size_block::{
    block_sizes, lemma_block_layouts, lemma_list_index_smallest, list_index_spec, AllocationSpec,
    FreeLists,
};
use super::LayoutSpec;
use vstd::prelude::*;

verus! {

/// A run of bytes: `size` bytes from `addr` on.
pub struct Block {
    /// The first address.
    pub addr: int,
    /// The number of bytes.
    pub size: int,
}

impl Block {
    /// The two blocks have a byte in common.
    pub open spec fn overlaps(self, other: Block) -> bool {
        &&& self.size > 0
        &&& other.size > 0
        &&& self.addr < other.addr + other.size
        &&& other.addr < self.addr + self.size
    }

    /// Every byte of `other` is a byte of this block.
    pub open spec fn covers(self, other: Block) -> bool {
        other.size > 0 ==> self.addr <= other.addr && other.addr + other.size <= self.addr
            + self.size
    }
}

/// An allocation that has not come back yet.
pub struct LiveAllocation {
    /// The address that the allocation returned.
    pub addr: usize,
    /// The layout that was asked for.
    pub layout: LayoutSpec,
}

impl LiveAllocation {
    /// The bytes that were asked for.
    pub open spec fn requested(self) -> Block {
        Block { addr: self.addr as int, size: self.layout.size }
    }

    /// The block that holds the allocation: one of its size class, or, where
    /// no class serves the layout, just the bytes asked for.
    pub open spec fn block(self) -> Block {
        match list_index_spec(self.layout) {
            Some(index) => Block { addr: self.addr as int, size: block_sizes()[index as int] as int },
            None => self.requested(),
        }
    }
}

/// What happens to a heap.
pub enum Event {
    /// An allocation of `layout`. Where the allocator turns to the fallback
    /// allocator, `fallback` is the address that this one returns, or `None`
    /// where it has no room.
    Allocate { layout: LayoutSpec, fallback: Option<usize> },
    /// The live allocation at place `index` comes back, with its layout.
    Deallocate { index: int },
}

/// The free lists of an allocator together with the live allocations.
pub struct Heap {
    /// The allocator's free lists.
    pub lists: FreeLists,
    /// The allocations that have not come back yet, oldest first.
    pub live: Seq<LiveAllocation>,
}

impl Heap {
    /// The heap of a new allocator: nothing is out and nothing is listed.
    pub open spec fn empty() -> Heap {
        Heap { lists: FreeLists::empty(), live: seq![] }
    }

    /// `place` is a place in the free list of size class `class`.
    pub open spec fn listed(self, class: int, place: int) -> bool {
        0 <= class < 9 && 0 <= place < self.lists.lists[class].len()
    }

    /// The free block at `place` in the list of size class `class`.
    pub open spec fn free_block(self, class: int, place: int) -> Block {
        Block {
            addr: self.lists.lists[class][place] as int,
            size: block_sizes()[class] as int,
        }
    }

    /// The block of the live allocation at place `index`.
    pub open spec fn live_block(self, index: int) -> Block {
        self.live[index].block()
    }

    /// `block` overlaps none of the blocks that are out or listed.
    pub open spec fn unused(self, block: Block) -> bool {
        &&& forall|i: int| 0 <= i < self.live.len() ==> !block.overlaps(#[trigger] self.live_block(i))
        &&& forall|c: int, k: int| #[trigger]
            self.listed(c, k) ==> !block.overlaps(self.free_block(c, k))
    }

    /// No two of the blocks that are out or listed overlap, and every live
    /// allocation has a valid layout.
    pub open spec fn blocks_apart(self) -> bool {
        &&& self.lists.wf()
        &&& forall|i: int| 0 <= i < self.live.len() ==> (#[trigger] self.live[i]).layout.valid()
        &&& forall|i: int, j: int|
            0 <= i < j < self.live.len() ==> !(#[trigger] self.live_block(i)).overlaps(
                #[trigger] self.live_block(j),
            )
        &&& forall|i: int, c: int, k: int|
            0 <= i < self.live.len() && #[trigger] self.listed(c, k) ==> !(#[trigger] self.live_block(
                i,
            )).overlaps(self.free_block(c, k))
        &&& forall|c: int, k: int, d: int, l: int|
            #[trigger] self.listed(c, k) && #[trigger] self.listed(d, l) && (c != d || k != l)
                ==> !self.free_block(c, k).overlaps(self.free_block(d, l))
    }

    /// Whether `event` may happen to this heap: a layout is valid, memory
    /// from the fallback allocator is not in use, and what comes back is a
    /// live allocation, which is not at address 0 where it goes back to the
    /// fallback allocator.
    pub open spec fn admits(self, event: Event) -> bool {
        match event {
            Event::Allocate { layout, fallback } => {
                &&& layout.valid()
                &&& match (self.lists.allocation(layout), fallback) {
                    (AllocationSpec::Fallback(asked), Some(addr)) => self.unused(
                        Block { addr: addr as int, size: asked.size },
                    ),
                    _ => true,
                }
            },
            Event::Deallocate { index } => {
                &&& 0 <= index < self.live.len()
                &&& list_index_spec(self.live[index].layout) is None ==> self.live[index].addr != 0
            },
        }
    }

    /// The heap after `event`.
    pub open spec fn step(self, event: Event) -> Heap {
        match event {
            Event::Allocate { layout, fallback } => match self.lists.allocation(layout) {
                AllocationSpec::Reused(addr) => Heap {
                    lists: self.lists.allocate(layout),
                    live: self.live.push(LiveAllocation { addr: addr as usize, layout }),
                },
                AllocationSpec::Fallback(asked) => match fallback {
                    Some(addr) => Heap {
                        lists: self.lists.allocate(layout),
                        live: self.live.push(LiveAllocation { addr, layout }),
                    },
                    None => Heap { lists: self.lists.allocate(layout), live: self.live },
                },
            },
            Event::Deallocate { index } => Heap {
                lists: self.lists.deallocate(self.live[index].addr, self.live[index].layout),
                live: self.live.remove(index),
            },
        }
    }

    /// The heap after the events of `events`, in their order.
    pub open spec fn run(self, events: Seq<Event>) -> Heap
        decreases events.len(),
    {
        if events.len() == 0 {
            self
        } else {
            self.run(events.drop_last()).step(events.last())
        }
    }

    /// Each event of `events` may happen to the heap that the events before
    /// it have left.
    pub open spec fn admits_all(self, events: Seq<Event>) -> bool {
        forall|n: int| 0 <= n < events.len() ==> #[trigger] self.run(events.take(n)).admits(events[n])
    }
}

/// The block of a live allocation covers the bytes that were asked for.
pub proof fn lemma_block_covers_request(allocation: LiveAllocation)
    requires
        allocation.layout.valid(),
    ensures
        allocation.block().covers(allocation.requested()),
{
    lemma_list_index_smallest(allocation.layout);
}

/// An event that a heap admits keeps its blocks apart.
pub proof fn lemma_step_keeps_blocks_apart(heap: Heap, event: Event)
    requires
        heap.blocks_apart(),
        heap.admits(event),
    ensures
        heap.step(event).blocks_apart(),
{
    let after = heap.step(event);
    match event {
        Event::Allocate { layout, fallback } => {
            lemma_list_index_smallest(layout);
            match list_index_spec(layout) {
                Some(index) => {
                    let class = index as int;
                    lemma_block_layouts(class);
                    if heap.lists.lists[class].len() > 0 {
                        let top = heap.lists.lists[class].len() - 1;
                        assert(heap.listed(class, top));
                        assert(after.live_block(heap.live.len() as int) == heap.free_block(
                            class,
                            top,
                        ));
                        assert forall|c: int, k: int| #[trigger] after.listed(c, k) implies heap.listed(
                            c,
                            k,
                        ) && after.free_block(c, k) == heap.free_block(c, k) && (c != class || k
                            != top) by {}
                        assert forall|i: int| 0 <= i < heap.live.len() implies #[trigger] after.live_block(
                            i,
                        ) == heap.live_block(i) by {}
                        assert(after.blocks_apart());
                    } else {
                        lemma_fallback_block_keeps_apart(heap, layout, fallback);
                    }
                },
                None => {
                    lemma_fallback_block_keeps_apart(heap, layout, fallback);
                },
            }
        },
        Event::Deallocate { index } => {
            let gone = heap.live[index];
            assert forall|i: int| 0 <= i < after.live.len() implies #[trigger] after.live_block(i)
                == heap.live_block(if i < index {
                i
            } else {
                i + 1
            }) by {}
            match list_index_spec(gone.layout) {
                Some(class) => {
                    let class = class as int;
                    lemma_list_index_smallest(gone.layout);
                    let top = heap.lists.lists[class].len() as int;
                    assert(after.free_block(class, top) == heap.live_block(index));
                    assert forall|c: int, k: int| #[trigger] after.listed(c, k) implies (c == class
                        && k == top) || (heap.listed(c, k) && after.free_block(c, k)
                        == heap.free_block(c, k)) by {}
                    assert(after.blocks_apart());
                },
                None => {
                    assert forall|c: int, k: int| #[trigger] after.listed(c, k) implies heap.listed(
                        c,
                        k,
                    ) && after.free_block(c, k) == heap.free_block(c, k) by {}
                    assert(after.blocks_apart());
                },
            }
        },
    }
}

/// Where the allocator turns to the fallback allocator, the block that this
/// one gives is apart from the others.
proof fn lemma_fallback_block_keeps_apart(heap: Heap, layout: LayoutSpec, fallback: Option<usize>)
    requires
        heap.blocks_apart(),
        heap.admits(Event::Allocate { layout, fallback }),
        heap.lists.allocation(layout) is Fallback,
    ensures
        heap.step(Event::Allocate { layout, fallback }).blocks_apart(),
{
    let after = heap.step(Event::Allocate { layout, fallback });
    lemma_list_index_smallest(layout);
    assert(after.lists == heap.lists);
    assert forall|c: int, k: int| #[trigger] after.listed(c, k) implies heap.listed(c, k)
        && after.free_block(c, k) == heap.free_block(c, k) by {}
    assert forall|i: int| 0 <= i < heap.live.len() implies #[trigger] after.live_block(i)
        == heap.live_block(i) by {}
    if let Some(addr) = fallback {
        let asked = heap.lists.allocation(layout)->Fallback_0;
        assert(after.live_block(heap.live.len() as int) == (Block {
            addr: addr as int,
            size: asked.size,
        }));
    }
    assert(after.blocks_apart());
}

/// Through a run of events, each of which the heap admits, the blocks stay
/// apart.
pub proof fn lemma_run_keeps_blocks_apart(start: Heap, events: Seq<Event>)
    requires
        start.blocks_apart(),
        start.admits_all(events),
    ensures
        start.run(events).blocks_apart(),
    decreases events.len(),
{
    if events.len() > 0 {
        let before = events.drop_last();
        assert forall|n: int| 0 <= n < before.len() implies #[trigger] start.run(
            before.take(n),
        ).admits(before[n]) by {
            assert(before.take(n) =~= events.take(n));
        }
        lemma_run_keeps_blocks_apart(start, before);
        assert(events.take(events.len() - 1) =~= before);
        lemma_step_keeps_blocks_apart(start.run(before), events.last());
    }
}

/// The heap of a new allocator has its blocks apart: it has none.
pub proof fn lemma_empty_heap_blocks_apart()
    ensures
        Heap::empty().blocks_apart(),
{
}

/// At every point of a run of events, each of which the heap admits, no two
/// live allocations have a byte in common.
pub proof fn lemma_live_allocations_disjoint(
    start: Heap,
    events: Seq<Event>,
    n: int,
    i: int,
    j: int,
)
    requires
        start.blocks_apart(),
        start.admits_all(events),
        0 <= n <= events.len(),
        0 <= i < j < start.run(events.take(n)).live.len(),
    ensures
        !start.run(events.take(n)).live[i].requested().overlaps(
            start.run(events.take(n)).live[j].requested(),
        ),
{
    let prefix = events.take(n);
    assert forall|m: int| 0 <= m < prefix.len() implies #[trigger] start.run(
        prefix.take(m),
    ).admits(prefix[m]) by {
        assert(prefix.take(m) =~= events.take(m));
    }
    lemma_run_keeps_blocks_apart(start, prefix);
    let heap = start.run(prefix);
    lemma_block_covers_request(heap.live[i]);
    lemma_block_covers_request(heap.live[j]);
    assert(!heap.live_block(i).overlaps(heap.live_block(j)));
}

} // verus!
