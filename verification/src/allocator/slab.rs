//! A slab: a stack of equally sized free blocks.
use vstd::prelude::*;
use crate::allocator::hole::AllocErr;
use crate::allocator::layout::Layout;

verus! {

/// The blocks `start_addr + k * block_size` for `k < num_of_blocks`, the
/// lowest address last (it is handed out first).
pub open spec fn region_blocks(start_addr: int, block_size: int, num_of_blocks: int) -> Seq<usize> {
    Seq::new(num_of_blocks as nat, |k: int| (start_addr + (num_of_blocks - 1 - k) * block_size) as usize)
}

/// A stack of free blocks of one size; the top of the stack is handed out
/// first.
pub struct Slab {
    block_size: usize,
    free_block_list: Vec<usize>,
}

impl View for Slab {
    type V = Seq<usize>;

    /// The free blocks, bottom of the stack first.
    closed spec fn view(&self) -> Seq<usize> {
        self.free_block_list@
    }
}

/// Pushes the blocks of `[start_addr, start_addr + slab_size)` onto `list`,
/// the highest address first.
fn push_region(list: &mut Vec<usize>, start_addr: usize, slab_size: usize, block_size: usize)
    requires
        block_size > 0,
        start_addr + slab_size <= usize::MAX,
    ensures
        final(list)@ == old(list)@ + region_blocks(
            start_addr as int,
            block_size as int,
            (slab_size / block_size) as int,
        ),
{
    let num_of_blocks = slab_size / block_size;
    assert(num_of_blocks * block_size <= slab_size) by (nonlinear_arith)
        requires
            num_of_blocks == slab_size / block_size,
            block_size > 0,
    ;
    let ghost blocks = region_blocks(start_addr as int, block_size as int, num_of_blocks as int);
    let mut i: usize = num_of_blocks;
    while i > 0
        invariant
            i <= num_of_blocks,
            num_of_blocks * block_size <= slab_size,
            start_addr + slab_size <= usize::MAX,
            blocks == region_blocks(start_addr as int, block_size as int, num_of_blocks as int),
            list@ == old(list)@ + blocks.subrange(0, (num_of_blocks - i) as int),
        decreases i,
    {
        assert((i - 1) * block_size <= num_of_blocks * block_size) by (nonlinear_arith)
            requires
                i <= num_of_blocks,
                i >= 1,
        ;
        let addr = start_addr + (i - 1) * block_size;
        list.push(addr);
        i = i - 1;
        assert(list@ =~= old(list)@ + blocks.subrange(0, (num_of_blocks - i) as int));
    }
    assert(blocks.subrange(0, num_of_blocks as int) =~= blocks);
}

impl Slab {
    /// The size of this slab's blocks.
    pub closed spec fn block_size_spec(&self) -> usize {
        self.block_size
    }

    /// A slab of the `slab_size / block_size` blocks of
    /// `[start_addr, start_addr + slab_size)`.
    pub fn new(start_addr: usize, slab_size: usize, block_size: usize) -> (r: Slab)
        requires
            block_size > 0,
            start_addr + slab_size <= usize::MAX,
        ensures
            r@ == region_blocks(start_addr as int, block_size as int, (slab_size / block_size) as int),
            r.block_size_spec() == block_size,
    {
        let mut free_block_list = Vec::new();
        push_region(&mut free_block_list, start_addr, slab_size, block_size);
        assert(free_block_list@ =~= region_blocks(start_addr as int, block_size as int, (slab_size / block_size) as int));
        Slab { block_size, free_block_list }
    }

    /// Adds the blocks of `[start_addr, start_addr + slab_size)`; they are
    /// handed out before the blocks already free, lowest address first.
    pub fn grow(&mut self, start_addr: usize, slab_size: usize)
        requires
            old(self).block_size_spec() > 0,
            start_addr + slab_size <= usize::MAX,
        ensures
            final(self).block_size_spec() == old(self).block_size_spec(),
            final(self)@ == old(self)@ + region_blocks(
                start_addr as int,
                old(self).block_size_spec() as int,
                (slab_size / old(self).block_size_spec()) as int,
            ),
    {
        push_region(&mut self.free_block_list, start_addr, slab_size, self.block_size);
    }

    /// Hands out the block on top of the stack.
    pub fn allocate(&mut self, _layout: Layout) -> (r: Result<usize, AllocErr>)
        ensures
            final(self).block_size_spec() == old(self).block_size_spec(),
            old(self)@.len() == 0 ==> r is Err && final(self)@ == old(self)@,
            old(self)@.len() > 0 ==> r == Ok::<usize, AllocErr>(old(self)@.last()) && final(self)@
                == old(self)@.drop_last(),
    {
        match self.free_block_list.pop() {
            Some(block) => Ok(block),
            None => Err(AllocErr),
        }
    }

    /// Puts the block at `ptr` back on top of the stack.
    pub fn deallocate(&mut self, ptr: usize)
        ensures
            final(self).block_size_spec() == old(self).block_size_spec(),
            final(self)@ == old(self)@.push(ptr),
    {
        self.free_block_list.push(ptr);
    }
}

} // verus!
