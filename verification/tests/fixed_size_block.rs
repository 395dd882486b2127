use wos_os_n71::allocator::fixed_size_block::{
    list_index, Allocation, FixedSizeBlockAllcator, Release, BLOCK_SIZES, NODE_ALIGN, NODE_SIZE,
};
use wos_os_n71::allocator::Layout;

fn layout(size: usize, align: usize) -> Layout {
    Layout::from_size_align(size, align).unwrap()
}

/// A fallback allocator for the tests: it hands out its region front to
/// back and takes nothing back.
struct Region {
    next: usize,
    end: usize,
    returned: Vec<(usize, Layout)>,
}

impl Region {
    fn new(start: usize, size: usize) -> Region {
        Region { next: start, end: start + size, returned: Vec::new() }
    }

    fn allocate_first_fit(&mut self, layout: Layout) -> Option<usize> {
        let start = (self.next + layout.align() - 1) / layout.align() * layout.align();
        if start + layout.size() > self.end {
            return None;
        }
        self.next = start + layout.size();
        Some(start)
    }

    fn deallocate(&mut self, addr: usize, layout: Layout) {
        self.returned.push((addr, layout));
    }
}

fn allocate(heap: &mut FixedSizeBlockAllcator, fallback: &mut Region, layout: Layout) -> Option<usize> {
    match heap.allocate(layout) {
        Allocation::Reused(addr) => Some(addr),
        Allocation::Fallback(asked) => fallback.allocate_first_fit(asked),
    }
}

fn deallocate(heap: &mut FixedSizeBlockAllcator, fallback: &mut Region, addr: usize, layout: Layout) {
    match heap.deallocate(addr, layout) {
        Release::Listed => {}
        Release::Fallback(addr, layout) => fallback.deallocate(addr, layout),
    }
}

#[test]
fn block_sizes_are_the_nine_classes() {
    assert_eq!(BLOCK_SIZES, [8, 16, 32, 64, 128, 256, 512, 1024, 2048]);
    assert!(NODE_SIZE <= BLOCK_SIZES[0]);
    assert!(NODE_ALIGN <= BLOCK_SIZES[0]);
}

#[test]
fn list_index_picks_the_smallest_class() {
    assert_eq!(list_index(&layout(0, 1)), Some(0));
    assert_eq!(list_index(&layout(1, 1)), Some(0));
    assert_eq!(list_index(&layout(8, 1)), Some(0));
    assert_eq!(list_index(&layout(9, 1)), Some(1));
    assert_eq!(list_index(&layout(10, 1)), Some(1));
    assert_eq!(list_index(&layout(16, 16)), Some(1));
    assert_eq!(list_index(&layout(17, 1)), Some(2));
    assert_eq!(list_index(&layout(64, 8)), Some(3));
    assert_eq!(list_index(&layout(65, 8)), Some(4));
    assert_eq!(list_index(&layout(1000, 8)), Some(7));
    assert_eq!(list_index(&layout(1025, 8)), Some(8));
    assert_eq!(list_index(&layout(2048, 8)), Some(8));
}

#[test]
fn list_index_goes_by_the_alignment_too() {
    assert_eq!(list_index(&layout(1, 64)), Some(3));
    assert_eq!(list_index(&layout(8, 2048)), Some(8));
    assert_eq!(list_index(&layout(100, 16)), Some(4));
}

#[test]
fn list_index_has_no_class_for_large_layouts() {
    assert_eq!(list_index(&layout(2049, 1)), None);
    assert_eq!(list_index(&layout(0, 4096)), None);
    assert_eq!(list_index(&layout(1 << 20, 8)), None);
}

#[test]
fn list_index_is_monotonic() {
    let mut last = Some(0);
    for size in 0..3000usize {
        let index = list_index(&layout(size, 1));
        match (last, index) {
            (Some(a), Some(b)) => assert!(a <= b),
            (None, Some(_)) => panic!("a class after none"),
            _ => {}
        }
        assert_eq!(index.is_none(), size > 2048);
        last = index;
    }
}

#[test]
fn new_block_comes_from_the_fallback_with_the_class_layout() {
    let mut heap = FixedSizeBlockAllcator::new();
    assert_eq!(heap.allocate(layout(10, 1)), Allocation::Fallback(layout(16, 16)));
    assert_eq!(heap.allocate(layout(3, 2)), Allocation::Fallback(layout(8, 8)));
    assert_eq!(heap.allocate(layout(2048, 4)), Allocation::Fallback(layout(2048, 2048)));
    assert_eq!(heap.allocate(layout(1, 128)), Allocation::Fallback(layout(128, 128)));
}

#[test]
fn freed_block_is_reused_by_its_class() {
    let mut heap = FixedSizeBlockAllcator::new();
    assert_eq!(heap.deallocate(0x1000, layout(10, 1)), Release::Listed);
    // another class does not see the block
    assert_eq!(heap.allocate(layout(8, 8)), Allocation::Fallback(layout(8, 8)));
    assert_eq!(heap.allocate(layout(32, 8)), Allocation::Fallback(layout(32, 32)));
    // its own class does, whatever the layout within the class
    assert_eq!(heap.allocate(layout(16, 4)), Allocation::Reused(0x1000));
    assert_eq!(heap.allocate(layout(16, 4)), Allocation::Fallback(layout(16, 16)));
}

#[test]
fn free_list_hands_out_the_last_freed_block_first() {
    let mut heap = FixedSizeBlockAllcator::new();
    let l = layout(64, 64);
    for addr in [0x100, 0x200, 0x300] {
        assert_eq!(heap.deallocate(addr, l), Release::Listed);
    }
    assert_eq!(heap.allocate(l), Allocation::Reused(0x300));
    assert_eq!(heap.allocate(l), Allocation::Reused(0x200));
    assert_eq!(heap.deallocate(0x400, l), Release::Listed);
    assert_eq!(heap.allocate(l), Allocation::Reused(0x400));
    assert_eq!(heap.allocate(l), Allocation::Reused(0x100));
    assert_eq!(heap.allocate(l), Allocation::Fallback(l));
}

#[test]
fn round_trip_reuses_exactly_the_freed_blocks() {
    let mut heap = FixedSizeBlockAllcator::new();
    let mut fallback = Region::new(0x10000, 0x10000);
    let l = layout(100, 8);
    let n = 20;
    let first: Vec<usize> = (0..n).map(|_| allocate(&mut heap, &mut fallback, l).unwrap()).collect();
    for addr in &first {
        deallocate(&mut heap, &mut fallback, *addr, l);
    }
    let cursor = fallback.next;
    let mut second = Vec::new();
    for _ in 0..n {
        match heap.allocate(l) {
            Allocation::Reused(addr) => second.push(addr),
            Allocation::Fallback(_) => panic!("the fallback allocator was asked"),
        }
    }
    assert_eq!(fallback.next, cursor);
    let mut a = first.clone();
    let mut b = second.clone();
    a.sort();
    b.sort();
    assert_eq!(a, b);
    // last freed, first out
    let reversed: Vec<usize> = first.iter().rev().cloned().collect();
    assert_eq!(second, reversed);
    // the list is empty again
    assert_eq!(heap.allocate(l), Allocation::Fallback(layout(128, 128)));
}

#[test]
fn oversized_request_goes_to_the_fallback_both_ways() {
    let mut heap = FixedSizeBlockAllcator::new();
    let mut fallback = Region::new(0x10000, 0x10000);
    let big = layout(5000, 16);
    assert_eq!(heap.allocate(big), Allocation::Fallback(big));
    let addr = fallback.allocate_first_fit(big).unwrap();
    assert_eq!(heap.deallocate(addr, big), Release::Fallback(addr, big));
    deallocate(&mut heap, &mut fallback, addr, big);
    assert_eq!(fallback.returned, vec![(addr, big)]);
    // no free list took the block
    for size in BLOCK_SIZES {
        assert_eq!(heap.allocate(layout(size, size)), Allocation::Fallback(layout(size, size)));
    }
    // a small size with a large alignment is oversized as well
    let aligned = layout(8, 4096);
    assert_eq!(heap.allocate(aligned), Allocation::Fallback(aligned));
    assert_eq!(heap.deallocate(0x3000, aligned), Release::Fallback(0x3000, aligned));
}

#[test]
fn live_allocations_do_not_overlap() {
    let mut heap = FixedSizeBlockAllcator::new();
    let mut fallback = Region::new(0x10000, 0x40000);
    let layouts = [layout(8, 8), layout(24, 8), layout(100, 4), layout(3000, 8), layout(16, 16)];
    let mut live: Vec<(usize, Layout)> = Vec::new();
    let mut seed: usize = 12345;
    for step in 0..2000 {
        seed = seed.wrapping_mul(6364136223846793005).wrapping_add(1442695040888963407);
        let pick = (seed >> 33) % 7;
        if pick < 4 || live.is_empty() {
            let l = layouts[(seed >> 40) % layouts.len()];
            if let Some(addr) = allocate(&mut heap, &mut fallback, l) {
                for (other, other_layout) in &live {
                    let apart = addr + l.size() <= *other || *other + other_layout.size() <= addr;
                    assert!(apart, "step {}: {:#x} overlaps {:#x}", step, addr, other);
                }
                assert_eq!(addr % l.align(), 0);
                live.push((addr, l));
            }
        } else {
            let (addr, l) = live.swap_remove((seed >> 40) % live.len());
            deallocate(&mut heap, &mut fallback, addr, l);
        }
    }
    // only the oversized blocks went back to the fallback allocator
    assert!(fallback.returned.iter().all(|(_, l)| l.size() == 3000));
}

#[test]
fn failed_fallback_leaves_the_lists_alone() {
    let mut heap = FixedSizeBlockAllcator::new();
    let mut fallback = Region::new(0x1000, 16);
    let l = layout(16, 16);
    assert_eq!(allocate(&mut heap, &mut fallback, l), Some(0x1000));
    assert_eq!(allocate(&mut heap, &mut fallback, l), None);
    deallocate(&mut heap, &mut fallback, 0x1000, l);
    assert_eq!(allocate(&mut heap, &mut fallback, l), Some(0x1000));
    assert_eq!(allocate(&mut heap, &mut fallback, l), None);
}

#[test]
fn free_blocks_counts_each_list() {
    let mut heap = FixedSizeBlockAllcator::new();
    for index in 0..BLOCK_SIZES.len() {
        assert_eq!(heap.free_blocks(index), 0);
    }
    let l = layout(30, 2);
    heap.deallocate(0x1000, l);
    heap.deallocate(0x2000, l);
    heap.deallocate(0x3000, layout(8, 8));
    assert_eq!(heap.free_blocks(2), 2);
    assert_eq!(heap.free_blocks(0), 1);
    assert_eq!(heap.free_blocks(1), 0);
    assert_eq!(heap.allocate(l), Allocation::Reused(0x2000));
    assert_eq!(heap.free_blocks(2), 1);
    // a block of a size class may lie at address 0: it goes to its list
    assert_eq!(heap.deallocate(0, layout(8, 8)), Release::Listed);
    assert_eq!(heap.free_blocks(0), 2);
    // an oversized block goes nowhere near the lists
    let big = layout(4096, 8);
    assert_eq!(heap.deallocate(0x8000, big), Release::Fallback(0x8000, big));
    for (index, count) in [2usize, 0, 1, 0, 0, 0, 0, 0, 0].iter().enumerate() {
        assert_eq!(heap.free_blocks(index), *count);
    }
}
