//! A fixed-size block allocator: one list of free blocks for each size
//! class, and a fallback allocator for whatever the lists cannot serve.
//!
//! The allocator decides where a request is served. The fallback allocator
//! itself belongs to the caller, who carries out the requests that are
//! passed on to it.

use super::{is_power_of_two, Layout, LayoutSpec};
use vstd::prelude::*;

verus! {

/// The number of size classes.
pub const BLOCK_CLASSES: usize = 9;

/// The block sizes in use, in ascending order.
///
/// Each is a power of two, because a block's size is its alignment too.
pub const BLOCK_SIZES: [usize; 9] = [8, 16, 32, 64, 128, 256, 512, 1024, 2048];

/// The block sizes as a sequence.
pub open spec fn block_sizes() -> Seq<usize> {
    BLOCK_SIZES@
}

/// The size that a block for `layout` needs: its size or its alignment,
/// whichever is larger.
pub open spec fn required_block_size(layout: LayoutSpec) -> int {
    if layout.size >= layout.align {
        layout.size
    } else {
        layout.align
    }
}

/// The first size class from `from` on whose blocks hold `required` bytes.
pub open spec fn smallest_fit(required: int, from: int) -> Option<usize>
    decreases 9 - from,
{
    if from < 0 || from >= 9 {
        None
    } else if block_sizes()[from] >= required {
        Some(from as usize)
    } else {
        smallest_fit(required, from + 1)
    }
}

/// The size class that serves `layout`: the smallest whose blocks are large
/// enough, or `None` where the largest is too small.
pub open spec fn list_index_spec(layout: LayoutSpec) -> Option<usize> {
    smallest_fit(required_block_size(layout), 0)
}

/// Picks the size class for `layout`.
pub fn list_index(layout: &Layout) -> (r: Option<usize>)
    ensures
        r == list_index_spec(layout@),
        r matches Some(i) ==> {
            &&& i < 9
            &&& block_sizes()[i as int] >= required_block_size(layout@)
            &&& forall|j: int| 0 <= j < i ==> block_sizes()[j] < required_block_size(layout@)
        },
        r is None ==> forall|j: int| 0 <= j < 9 ==> block_sizes()[j] < required_block_size(layout@),
{
    let required = if layout.size() >= layout.align() {
        layout.size()
    } else {
        layout.align()
    };
    let mut index: usize = 0;
    while index < BLOCK_CLASSES
        invariant
            index <= 9,
            required == required_block_size(layout@),
            forall|j: int| 0 <= j < index ==> block_sizes()[j] < required,
            smallest_fit(required as int, 0) == smallest_fit(required as int, index as int),
        decreases 9 - index,
    {
        if BLOCK_SIZES[index] >= required {
            return Some(index);
        }
        index += 1;
    }
    None
}

/// The layout of a block of size class `index`: its size is its alignment.
pub open spec fn block_layout(index: int) -> LayoutSpec {
    LayoutSpec { size: block_sizes()[index] as int, align: block_sizes()[index] as int }
}

/// The bytes that a list node takes at the start of a free block.
pub const NODE_SIZE: usize = 8;

/// The alignment that a list node needs.
pub const NODE_ALIGN: usize = 8;

/// Where the memory for an allocation comes from.
#[derive(Clone, Copy, Debug, PartialEq, Eq)]
pub enum Allocation {
    /// The block at this address was taken from its size class's free list.
    Reused(usize),
    /// The fallback allocator is to serve a request of this layout.
    Fallback(Layout),
}

/// `Allocation` as numbers.
pub enum AllocationSpec {
    /// The block at this address was taken from its size class's free list.
    Reused(int),
    /// The fallback allocator is to serve a request of this layout.
    Fallback(LayoutSpec),
}

impl View for Allocation {
    type V = AllocationSpec;

    open spec fn view(&self) -> AllocationSpec {
        match *self {
            Allocation::Reused(addr) => AllocationSpec::Reused(addr as int),
            Allocation::Fallback(layout) => AllocationSpec::Fallback(layout@),
        }
    }
}

/// Where a block that comes back goes.
#[derive(Clone, Copy, Debug, PartialEq, Eq)]
pub enum Release {
    /// The block was put on its size class's free list.
    Listed,
    /// The fallback allocator is to take back the block at this address,
    /// which has this layout.
    Fallback(usize, Layout),
}

/// `Release` as numbers.
pub enum ReleaseSpec {
    /// The block was put on its size class's free list.
    Listed,
    /// The fallback allocator is to take back the block at this address,
    /// which has this layout.
    Fallback(int, LayoutSpec),
}

impl View for Release {
    type V = ReleaseSpec;

    open spec fn view(&self) -> ReleaseSpec {
        match *self {
            Release::Listed => ReleaseSpec::Listed,
            Release::Fallback(addr, layout) => ReleaseSpec::Fallback(addr as int, layout@),
        }
    }
}

/// The free lists as sequences of block addresses, one for each size class.
/// The last address of a list is its head: the block that goes out next.
pub struct FreeLists {
    /// The list of each size class.
    pub lists: Seq<Seq<usize>>,
}

impl FreeLists {
    /// There is one list for each size class.
    pub open spec fn wf(self) -> bool {
        self.lists.len() == 9
    }

    /// The lists of a new allocator: each is empty.
    pub open spec fn empty() -> FreeLists {
        FreeLists { lists: Seq::new(9, |i: int| Seq::<usize>::empty()) }
    }

    /// Where an allocation of `layout` is served from.
    pub open spec fn allocation(self, layout: LayoutSpec) -> AllocationSpec {
        match list_index_spec(layout) {
            Some(index) => if self.lists[index as int].len() > 0 {
                AllocationSpec::Reused(self.lists[index as int].last() as int)
            } else {
                AllocationSpec::Fallback(block_layout(index as int))
            },
            None => AllocationSpec::Fallback(layout),
        }
    }

    /// The lists after an allocation of `layout`: a block that was reused
    /// has left its list.
    pub open spec fn allocate(self, layout: LayoutSpec) -> FreeLists {
        match list_index_spec(layout) {
            Some(index) => if self.lists[index as int].len() > 0 {
                FreeLists {
                    lists: self.lists.update(index as int, self.lists[index as int].drop_last()),
                }
            } else {
                self
            },
            None => self,
        }
    }

    /// Where the block at `addr`, which was allocated with `layout`, goes.
    pub open spec fn release(self, addr: int, layout: LayoutSpec) -> ReleaseSpec {
        match list_index_spec(layout) {
            Some(index) => ReleaseSpec::Listed,
            None => ReleaseSpec::Fallback(addr, layout),
        }
    }

    /// The lists after the block at `addr`, which was allocated with
    /// `layout`, has come back: a block of a size class heads its list.
    pub open spec fn deallocate(self, addr: usize, layout: LayoutSpec) -> FreeLists {
        match list_index_spec(layout) {
            Some(index) => FreeLists {
                lists: self.lists.update(index as int, self.lists[index as int].push(addr)),
            },
            None => self,
        }
    }
}

/// Every size class is a layout of its own, with room for a list node.
pub proof fn lemma_block_layouts(index: int)
    requires
        0 <= index < 9,
    ensures
        block_layout(index).valid(),
        NODE_SIZE <= block_sizes()[index],
        NODE_ALIGN <= block_sizes()[index],
        list_index_spec(block_layout(index)) == Some(index as usize),
{
    reveal_with_fuel(is_power_of_two, 13);
    reveal_with_fuel(smallest_fit, 10);
}

/// A fixed-size block allocator.
pub struct FixedSizeBlockAllcator {
    list_heads: Vec<Vec<usize>>,
}

impl View for FixedSizeBlockAllcator {
    type V = FreeLists;

    closed spec fn view(&self) -> FreeLists {
        FreeLists { lists: Seq::new(self.list_heads@.len(), |i: int| self.list_heads@[i]@) }
    }
}

impl FixedSizeBlockAllcator {
    #[verifier::type_invariant]
    spec fn well_formed(self) -> bool {
        self.list_heads@.len() == 9
    }

    /// An allocator whose free lists are all empty.
    pub fn new() -> (r: Self)
        ensures
            r@ == FreeLists::empty(),
    {
        let mut list_heads: Vec<Vec<usize>> = Vec::new();
        let mut index: usize = 0;
        while index < BLOCK_CLASSES
            invariant
                index <= 9,
                list_heads@.len() == index,
                forall|i: int| 0 <= i < index ==> list_heads@[i]@ == Seq::<usize>::empty(),
            decreases 9 - index,
        {
            list_heads.push(Vec::new());
            index += 1;
        }
        let allocator = Self { list_heads };
        assert(allocator@.lists =~= FreeLists::empty().lists);
        allocator
    }

    /// The number of free blocks in the list of size class `index`.
    pub fn free_blocks(&self, index: usize) -> (r: usize)
        requires
            index < BLOCK_CLASSES,
        ensures
            self@.wf(),
            r == self@.lists[index as int].len(),
    {
        proof {
            use_type_invariant(self);
        }
        self.list_heads[index].len()
    }

    /// Decides where an allocation of `layout` is served from.
    ///
    /// A request that fits a size class takes the head of that class's free
    /// list; where the list is empty, the fallback allocator is asked for a
    /// new block of the class's size and alignment. Any other request goes
    /// to the fallback allocator as it is.
    pub fn allocate(&mut self, layout: Layout) -> (r: Allocation)
        ensures
            final(self)@ == old(self)@.allocate(layout@),
            r@ == old(self)@.allocation(layout@),
            final(self)@.wf(),
    {
        proof {
            use_type_invariant(&*self);
        }
        match list_index(&layout) {
            Some(index) => {
                match self.list_heads[index].pop() {
                    Some(node) => {
                        assert(final(self)@.lists =~= old(self)@.allocate(layout@).lists);
                        Allocation::Reused(node)
                    },
                    None => {
                        // no block in the list: a new one is allocated
                        let block_size = BLOCK_SIZES[index];
                        // only right where every block size is a power of two
                        let block_align = block_size;
                        proof {
                            lemma_block_layouts(index as int);
                        }
                        let layout = Layout::from_size_align(block_size, block_align).unwrap();
                        assert(final(self)@.lists =~= old(self)@.lists);
                        Allocation::Fallback(layout)
                    },
                }
            },
            None => Allocation::Fallback(layout),
        }
    }

    /// Decides where the block at `ptr`, which was allocated with `layout`,
    /// goes.
    ///
    /// A block of a size class becomes the head of that class's free list,
    /// and stays there until it is allocated again. Any other block goes
    /// back to the fallback allocator, which takes no block at address 0.
    pub fn deallocate(&mut self, ptr: usize, layout: Layout) -> (r: Release)
        requires
            list_index_spec(layout@) is None ==> ptr != 0,
        ensures
            final(self)@ == old(self)@.deallocate(ptr, layout@),
            r@ == old(self)@.release(ptr as int, layout@),
            final(self)@.wf(),
    {
        proof {
            use_type_invariant(&*self);
        }
        match list_index(&layout) {
            Some(index) => {
                // a block is large enough, and aligned, for the node that
                // links it into its list
                assert(NODE_SIZE <= BLOCK_SIZES[index as int] && NODE_ALIGN
                    <= BLOCK_SIZES[index as int]);
                self.list_heads[index].push(ptr);
                assert(final(self)@.lists =~= old(self)@.deallocate(ptr, layout@).lists);
                Release::Listed
            },
            None => Release::Fallback(ptr, layout),
        }
    }
}

/// A layout that needs more room is served by no smaller a size class, and
/// one that needs more than the largest block is served by none.
pub proof fn lemma_list_index_monotonic(small: LayoutSpec, large: LayoutSpec)
    requires
        required_block_size(small) <= required_block_size(large),
    ensures
        list_index_spec(large) matches Some(j) ==> (list_index_spec(small) matches Some(i) && i
            <= j),
        list_index_spec(small) is None ==> list_index_spec(large) is None,
        required_block_size(large) > 2048 <==> list_index_spec(large) is None,
{
    reveal_with_fuel(smallest_fit, 10);
}

/// The size class of a layout is the smallest one whose blocks are large
/// enough for it.
pub proof fn lemma_list_index_smallest(layout: LayoutSpec)
    ensures
        list_index_spec(layout) matches Some(i) ==> {
            &&& i < 9
            &&& block_sizes()[i as int] >= required_block_size(layout)
            &&& forall|j: int| 0 <= j < i ==> block_sizes()[j] < required_block_size(layout)
        },
        list_index_spec(layout) is None ==> forall|j: int|
            0 <= j < 9 ==> block_sizes()[j] < required_block_size(layout),
{
    reveal_with_fuel(smallest_fit, 10);
}

/// A request that no size class serves goes to the fallback allocator as it
/// is, and so does the block when it comes back: the free lists stay as they
/// were.
pub proof fn lemma_oversized_goes_to_fallback(lists: FreeLists, addr: usize, layout: LayoutSpec)
    requires
        required_block_size(layout) > 2048,
    ensures
        lists.allocation(layout) == AllocationSpec::Fallback(layout),
        lists.allocate(layout) == lists,
        lists.release(addr as int, layout) == ReleaseSpec::Fallback(addr as int, layout),
        lists.deallocate(addr, layout) == lists,
{
    reveal_with_fuel(smallest_fit, 10);
}

impl FreeLists {
    /// The lists after the blocks of `blocks` have come back one by one, each
    /// allocated with `layout`.
    pub open spec fn deallocate_all(self, blocks: Seq<usize>, layout: LayoutSpec) -> FreeLists
        decreases blocks.len(),
    {
        if blocks.len() == 0 {
            self
        } else {
            self.deallocate_all(blocks.drop_last(), layout).deallocate(blocks.last(), layout)
        }
    }

    /// The lists after `n` allocations of `layout`.
    pub open spec fn allocate_times(self, n: nat, layout: LayoutSpec) -> FreeLists
        decreases n,
    {
        if n == 0 {
            self
        } else {
            self.allocate_times((n - 1) as nat, layout).allocate(layout)
        }
    }
}

/// Blocks of a size class that have come back are the ones that go out
/// next: after `blocks` have been freed, the next allocations of that class
/// return them, last freed first, without the fallback allocator.
pub proof fn lemma_freed_blocks_are_reused(
    lists: FreeLists,
    blocks: Seq<usize>,
    layout: LayoutSpec,
    k: nat,
)
    requires
        lists.wf(),
        list_index_spec(layout) is Some,
        k <= blocks.len(),
    ensures
        lists.deallocate_all(blocks, layout).allocate_times(k, layout) == lists.deallocate_all(
            blocks.take(blocks.len() - k),
            layout,
        ),
        k < blocks.len() ==> lists.deallocate_all(blocks, layout).allocate_times(
            k,
            layout,
        ).allocation(layout) == AllocationSpec::Reused(blocks[blocks.len() - 1 - k] as int),
    decreases k,
{
    let index = list_index_spec(layout).unwrap() as int;
    lemma_list_index_smallest(layout);
    lemma_deallocate_all(lists, blocks, layout);
    if k > 0 {
        lemma_freed_blocks_are_reused(lists, blocks, layout, (k - 1) as nat);
        let rest = blocks.take(blocks.len() - (k - 1));
        lemma_deallocate_all(lists, rest, layout);
        let before = lists.deallocate_all(rest, layout);
        assert(rest.drop_last() =~= blocks.take(blocks.len() - k));
        assert(before.lists[index].drop_last() =~= lists.lists[index] + rest.drop_last());
        lemma_deallocate_all(lists, rest.drop_last(), layout);
        assert(before.allocate(layout).lists =~= lists.deallocate_all(
            rest.drop_last(),
            layout,
        ).lists);
    } else {
        assert(blocks.take(blocks.len() - k) =~= blocks);
    }
    let at_k = blocks.take(blocks.len() - k);
    lemma_deallocate_all(lists, at_k, layout);
}

/// After `blocks` of one size class have come back, they stand at the end
/// of that class's list, and the other lists are as they were.
proof fn lemma_deallocate_all(lists: FreeLists, blocks: Seq<usize>, layout: LayoutSpec)
    requires
        lists.wf(),
        list_index_spec(layout) is Some,
    ensures
        lists.deallocate_all(blocks, layout).wf(),
        lists.deallocate_all(blocks, layout).lists == lists.lists.update(
            list_index_spec(layout).unwrap() as int,
            lists.lists[list_index_spec(layout).unwrap() as int] + blocks,
        ),
    decreases blocks.len(),
{
    let index = list_index_spec(layout).unwrap() as int;
    lemma_list_index_smallest(layout);
    if blocks.len() == 0 {
        assert(lists.lists[index] + blocks =~= lists.lists[index]);
        assert(lists.lists =~= lists.lists.update(index, lists.lists[index]));
    } else {
        lemma_deallocate_all(lists, blocks.drop_last(), layout);
        let before = lists.deallocate_all(blocks.drop_last(), layout);
        assert(before.lists[index].push(blocks.last()) =~= lists.lists[index] + blocks);
        assert(before.deallocate(blocks.last(), layout).lists =~= lists.lists.update(
            index,
            lists.lists[index] + blocks,
        ));
    }
}

/// Once as many blocks have gone out as came back, the lists are as they
/// were before.
pub proof fn lemma_freed_blocks_all_out(lists: FreeLists, blocks: Seq<usize>, layout: LayoutSpec)
    requires
        lists.wf(),
        list_index_spec(layout) is Some,
    ensures
        lists.deallocate_all(blocks, layout).allocate_times(blocks.len(), layout) == lists,
{
    lemma_freed_blocks_are_reused(lists, blocks, layout, blocks.len());
    assert(blocks.take(0) =~= Seq::<usize>::empty());
}

} // verus!
