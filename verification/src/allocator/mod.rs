//! The kernel heap: seven slabs for requests of up to 4096 bytes and a
//! first-fit hole list for larger ones.
pub mod layout;
pub mod hole;
pub mod slab;
pub mod frame_allocator;

use vstd::prelude::*;
use crate::allocator::hole::{
    AllocErr, Hole, HoleList, any_fit, covered, disjoint, first_fit, first_fit_at, min_hole_size,
    split_addr, split_end, fit_hole, lemma_allocate_then_deallocate,
};
use crate::allocator::layout::Layout;
use crate::allocator::slab::{Slab, region_blocks};

verus! {

/// Number of regions a heap is divided into.
pub const NUM_OF_SLABS: usize = 8;

/// Smallest size of each region.
pub const MIN_SLAB_SIZE: usize = 4096;

/// Smallest heap.
pub const MIN_HEAP_SIZE: usize = NUM_OF_SLABS * MIN_SLAB_SIZE;

/// The part of the heap that serves a request.
#[derive(Clone, Copy, Debug, PartialEq, Eq, Structural)]
pub enum HeapAllocator {
    Slab64Bytes,
    Slab128Bytes,
    Slab256Bytes,
    Slab512Bytes,
    Slab1024Bytes,
    Slab2048Bytes,
    Slab4096Bytes,
    LinkedListAllocator,
}

/// The part of the heap that serves a request of `size` bytes aligned to
/// `align`. Requests of up to 256 bytes and alignment that do not fit the
/// 128-byte class also go to the 128-byte slab.
pub open spec fn allocator_for(size: int, align: int) -> HeapAllocator {
    if size > 4096 {
        HeapAllocator::LinkedListAllocator
    } else if size <= 64 && align <= 64 {
        HeapAllocator::Slab64Bytes
    } else if size <= 128 && align <= 128 {
        HeapAllocator::Slab128Bytes
    } else if size <= 256 && align <= 256 {
        HeapAllocator::Slab128Bytes
    } else if size <= 512 && align <= 512 {
        HeapAllocator::Slab512Bytes
    } else if size <= 1024 && align <= 1024 {
        HeapAllocator::Slab1024Bytes
    } else if size <= 2048 && align <= 2048 {
        HeapAllocator::Slab2048Bytes
    } else {
        HeapAllocator::Slab4096Bytes
    }
}

/// The block size of a slab; the size of the request for the hole list.
pub open spec fn class_size(a: HeapAllocator, size: int) -> int {
    match a {
        HeapAllocator::Slab64Bytes => 64,
        HeapAllocator::Slab128Bytes => 128,
        HeapAllocator::Slab256Bytes => 256,
        HeapAllocator::Slab512Bytes => 512,
        HeapAllocator::Slab1024Bytes => 1024,
        HeapAllocator::Slab2048Bytes => 2048,
        HeapAllocator::Slab4096Bytes => 4096,
        HeapAllocator::LinkedListAllocator => size,
    }
}

/// A heap of seven slabs and a hole list.
pub struct Heap {
    slab_64_bytes: Slab,
    slab_128_bytes: Slab,
    slab_256_bytes: Slab,
    slab_512_bytes: Slab,
    slab_1024_bytes: Slab,
    slab_2048_bytes: Slab,
    slab_4096_bytes: Slab,
    linked_list_allocator: HoleList,
    linked_list_top: usize,
}

impl Heap {
    /// The slab of a size class.
    pub closed spec fn slab(&self, a: HeapAllocator) -> Slab {
        match a {
            HeapAllocator::Slab64Bytes => self.slab_64_bytes,
            HeapAllocator::Slab128Bytes => self.slab_128_bytes,
            HeapAllocator::Slab256Bytes => self.slab_256_bytes,
            HeapAllocator::Slab512Bytes => self.slab_512_bytes,
            HeapAllocator::Slab1024Bytes => self.slab_1024_bytes,
            HeapAllocator::Slab2048Bytes => self.slab_2048_bytes,
            HeapAllocator::Slab4096Bytes => self.slab_4096_bytes,
            HeapAllocator::LinkedListAllocator => self.slab_4096_bytes,
        }
    }

    /// The free blocks of a slab, bottom of its stack first.
    pub open spec fn blocks(&self, a: HeapAllocator) -> Seq<usize> {
        self.slab(a)@
    }

    /// The holes of the region for large requests.
    pub closed spec fn holes(&self) -> Seq<Hole> {
        self.linked_list_allocator@
    }

    /// The end of the region for large requests.
    pub closed spec fn top(&self) -> usize {
        self.linked_list_top
    }

    /// Well-formedness: each slab has its class's block size, the hole list is
    /// well-formed and lies below the end of its region.
    pub closed spec fn wf(&self) -> bool {
        &&& self.slab_64_bytes.block_size_spec() == 64
        &&& self.slab_128_bytes.block_size_spec() == 128
        &&& self.slab_256_bytes.block_size_spec() == 256
        &&& self.slab_512_bytes.block_size_spec() == 512
        &&& self.slab_1024_bytes.block_size_spec() == 1024
        &&& self.slab_2048_bytes.block_size_spec() == 2048
        &&& self.slab_4096_bytes.block_size_spec() == 4096
        &&& self.linked_list_allocator.wf()
        &&& self.linked_list_top > 0
        &&& holes_below(self.holes(), self.linked_list_top as int)
    }

    /// Only the part of class `a` changed from `old` to `new`.
    pub open spec fn others_unchanged(old: &Heap, new: &Heap, a: HeapAllocator) -> bool {
        &&& forall|b: HeapAllocator|
            b != a && b != HeapAllocator::LinkedListAllocator ==> #[trigger] new.blocks(b) == old.blocks(b)
        &&& a != HeapAllocator::LinkedListAllocator ==> new.holes() == old.holes()
        &&& new.top() == old.top()
    }

    /// What `allocate` does: the part of the heap that serves `layout` hands
    /// out memory and the other parts are unchanged.
    pub open spec fn allocate_post(old: &Heap, new: &Heap, layout: Layout, r: Result<usize, AllocErr>) -> bool {
        let a = allocator_for(layout.size() as int, layout.align() as int);
        &&& Heap::others_unchanged(old, new, a)
        &&& a != HeapAllocator::LinkedListAllocator ==> {
            &&& old.blocks(a).len() == 0 ==> r is Err && new.blocks(a) == old.blocks(a)
            &&& old.blocks(a).len() > 0 ==> r == Ok::<usize, AllocErr>(old.blocks(a).last())
                && new.blocks(a) == old.blocks(a).drop_last()
        }
        &&& a == HeapAllocator::LinkedListAllocator ==> {
            &&& forall|b: HeapAllocator| #[trigger] new.blocks(b) == old.blocks(b)
            &&& !any_fit(old.holes(), layout) ==> r is Err && new.holes() == old.holes()
            &&& any_fit(old.holes(), layout) ==> {
                let hole = old.holes()[first_fit(old.holes(), layout)].info_spec();
                &&& first_fit_at(old.holes(), layout, first_fit(old.holes(), layout))
                &&& r == Ok::<usize, AllocErr>(split_addr(hole, layout) as usize)
                &&& forall|x: int| #[trigger] covered(new.holes(), x) <==> covered(old.holes(), x)
                    && !(split_addr(hole, layout) <= x < split_end(hole, layout))
            }
        }
    }

    /// A block returned to the hole list lies above the null address, within
    /// the list's region, and apart from every hole.
    pub open spec fn deallocate_pre(&self, ptr: usize, layout: Layout) -> bool {
        allocator_for(layout.size() as int, layout.align() as int) == HeapAllocator::LinkedListAllocator ==> {
            &&& ptr > 0
            &&& ptr + layout.size() <= self.top()
            &&& disjoint(self.holes(), ptr as int, layout.size() as int)
        }
    }

    /// What `deallocate` does: the part of the heap that served `layout`
    /// takes `ptr` back and the other parts are unchanged.
    pub open spec fn deallocate_post(old: &Heap, new: &Heap, ptr: usize, layout: Layout) -> bool {
        let a = allocator_for(layout.size() as int, layout.align() as int);
        &&& Heap::others_unchanged(old, new, a)
        &&& a != HeapAllocator::LinkedListAllocator ==> new.blocks(a) == old.blocks(a).push(ptr)
        &&& a == HeapAllocator::LinkedListAllocator ==> {
            &&& forall|b: HeapAllocator| #[trigger] new.blocks(b) == old.blocks(b)
            &&& forall|x: int| #[trigger] covered(new.holes(), x) <==> covered(old.holes(), x)
                || (ptr <= x < ptr + layout.size())
        }
    }

    /// `h` is the heap `new` builds over `[heap_start_addr, heap_start_addr +
    /// heap_size)`.
    pub open spec fn fresh(h: &Heap, heap_start_addr: usize, heap_size: usize) -> bool {
        let slab_size = heap_size / NUM_OF_SLABS;
        &&& h.blocks(HeapAllocator::Slab64Bytes) == region_blocks(heap_start_addr as int, 64, (slab_size / 64) as int)
        &&& h.blocks(HeapAllocator::Slab128Bytes) == region_blocks(heap_start_addr + slab_size, 128, (slab_size / 128) as int)
        &&& h.blocks(HeapAllocator::Slab256Bytes) == region_blocks(heap_start_addr + 2 * slab_size, 256, (slab_size / 256) as int)
        &&& h.blocks(HeapAllocator::Slab512Bytes) == region_blocks(heap_start_addr + 3 * slab_size, 512, (slab_size / 512) as int)
        &&& h.blocks(HeapAllocator::Slab1024Bytes) == region_blocks(heap_start_addr + 4 * slab_size, 1024, (slab_size / 1024) as int)
        &&& h.blocks(HeapAllocator::Slab2048Bytes) == region_blocks(heap_start_addr + 5 * slab_size, 2048, (slab_size / 2048) as int)
        &&& h.blocks(HeapAllocator::Slab4096Bytes) == region_blocks(heap_start_addr + 6 * slab_size, 4096, (slab_size / 4096) as int)
        &&& h.holes() == seq![Hole { addr: (heap_start_addr + 7 * slab_size) as usize, size: slab_size as usize }]
        &&& h.top() == heap_start_addr + heap_size
    }

    /// A heap over `[heap_start_addr, heap_start_addr + heap_size)`: eight
    /// equal regions, the first seven for the slabs of 64 to 4096 bytes, the
    /// last one a single hole.
    pub fn new(heap_start_addr: usize, heap_size: usize) -> (r: Heap)
        requires
            heap_start_addr % 4096 == 0,
            heap_size >= MIN_HEAP_SIZE,
            heap_size % MIN_HEAP_SIZE == 0,
            heap_start_addr + heap_size <= usize::MAX,
        ensures
            r.wf(),
            Heap::fresh(&r, heap_start_addr, heap_size),
    {
        let slab_size: usize = heap_size / NUM_OF_SLABS;
        assert(slab_size * 8 == heap_size && slab_size >= 4096) by (nonlinear_arith)
            requires
                slab_size == heap_size / 8,
                heap_size % 32768 == 0,
                heap_size >= 32768,
        ;
        let r = Heap {
            slab_64_bytes: Slab::new(heap_start_addr, slab_size, 64),
            slab_128_bytes: Slab::new(heap_start_addr + slab_size, slab_size, 128),
            slab_256_bytes: Slab::new(heap_start_addr + 2 * slab_size, slab_size, 256),
            slab_512_bytes: Slab::new(heap_start_addr + 3 * slab_size, slab_size, 512),
            slab_1024_bytes: Slab::new(heap_start_addr + 4 * slab_size, slab_size, 1024),
            slab_2048_bytes: Slab::new(heap_start_addr + 5 * slab_size, slab_size, 2048),
            slab_4096_bytes: Slab::new(heap_start_addr + 6 * slab_size, slab_size, 4096),
            linked_list_allocator: HoleList::new(heap_start_addr + 7 * slab_size, slab_size),
            linked_list_top: heap_start_addr + heap_size,
        };
        r
    }

    /// Adds `[mem_start_addr, mem_start_addr + mem_size)` to the slab of class
    /// `slab`; for the hole list, `mem_size` bytes at the end of its region
    /// are added instead and the region grows by them.
    pub fn grow(&mut self, mem_start_addr: usize, mem_size: usize, slab: HeapAllocator)
        requires
            old(self).wf(),
            mem_start_addr + mem_size <= usize::MAX,
            slab == HeapAllocator::LinkedListAllocator ==> mem_size >= min_hole_size() && mem_size
                <= isize::MAX && old(self).top() + mem_size <= usize::MAX,
        ensures
            final(self).wf(),
            slab != HeapAllocator::LinkedListAllocator ==> {
                &&& final(self).blocks(slab) == old(self).blocks(slab) + region_blocks(
                    mem_start_addr as int,
                    class_size(slab, 0),
                    mem_size as int / class_size(slab, 0),
                )
                &&& Heap::others_unchanged(old(self), final(self), slab)
            },
            slab == HeapAllocator::LinkedListAllocator ==> {
                &&& forall|b: HeapAllocator| #[trigger] final(self).blocks(b) == old(self).blocks(b)
                &&& final(self).top() == old(self).top() + mem_size
                &&& forall|x: int| #[trigger] covered(final(self).holes(), x) <==> covered(old(self).holes(), x) || (
                old(self).top() <= x < old(self).top() + mem_size)
            },
    {
        match slab {
            HeapAllocator::Slab64Bytes => {
                self.slab_64_bytes.grow(mem_start_addr, mem_size);
            },
            HeapAllocator::Slab128Bytes => {
                self.slab_128_bytes.grow(mem_start_addr, mem_size);
            },
            HeapAllocator::Slab256Bytes => {
                self.slab_256_bytes.grow(mem_start_addr, mem_size);
            },
            HeapAllocator::Slab512Bytes => {
                self.slab_512_bytes.grow(mem_start_addr, mem_size);
            },
            HeapAllocator::Slab1024Bytes => {
                self.slab_1024_bytes.grow(mem_start_addr, mem_size);
            },
            HeapAllocator::Slab2048Bytes => {
                self.slab_2048_bytes.grow(mem_start_addr, mem_size);
            },
            HeapAllocator::Slab4096Bytes => {
                self.slab_4096_bytes.grow(mem_start_addr, mem_size);
            },
            HeapAllocator::LinkedListAllocator => {
                self.grow_holes(mem_size);
            },
        }
    }

    /// Adds the `mem_size` bytes at the end of the hole list's region to its
    /// holes and moves the end of the region behind them.
    fn grow_holes(&mut self, mem_size: usize)
        requires
            old(self).wf(),
            mem_size >= min_hole_size(),
            mem_size <= isize::MAX,
            old(self).top() + mem_size <= usize::MAX,
        ensures
            final(self).wf(),
            forall|b: HeapAllocator| #[trigger] final(self).blocks(b) == old(self).blocks(b),
            final(self).top() == old(self).top() + mem_size,
            forall|x: int| #[trigger] covered(final(self).holes(), x) <==> covered(old(self).holes(), x) || (
            old(self).top() <= x < old(self).top() + mem_size),
    {
        let top = self.linked_list_top;
        let layout = Layout::from_size_align(mem_size, 1);
        proof {
            vstd::arithmetic::power2::lemma_pow2(0);
            assert(vstd::arithmetic::power2::is_pow2(1)) by {
                reveal_with_fuel(vstd::arithmetic::power2::is_pow2, 2);
            }
            assert(isize::MAX as int % 1 == 0);
            assert(disjoint(self.holes(), top as int, mem_size as int));
            assert(vstd::layout::valid_layout(mem_size, 1));
        }
        assert(layout is Ok);
        match layout {
            Ok(layout) => {
                let ghost old_holes = self.holes();
                self.linked_list_allocator.deallocate(top, layout);
                self.linked_list_top = top + mem_size;
                proof {
                    assert forall|i: int| 0 <= i < self.holes().len() implies (#[trigger] self.holes()[i]).addr
                        + self.holes()[i].size <= self.linked_list_top as int by {
                        let y = self.holes()[i].addr + self.holes()[i].size - 1;
                        assert(vstd::layout::size_of::<usize>() > 0) by {
                            broadcast use vstd::layout::layout_of_primitives;
                        }
                        assert(in_hole_end(self.holes()[i], y));
                        assert(covered(self.holes(), y));
                        if covered(old_holes, y) {
                            let j = choose|j: int| 0 <= j < old_holes.len() && crate::allocator::hole::in_hole(#[trigger] old_holes[j], y);
                            assert(old_holes[j].addr + old_holes[j].size <= top);
                        }
                    }
                }
            },
            Err(_) => {},
        }
    }

    /// Which part of the heap serves `layout`.
    pub fn layout_to_allocator(layout: &Layout) -> (r: HeapAllocator)
        ensures
            r == allocator_for(layout.size() as int, layout.align() as int),
    {
        if layout.size() > 4096 {
            HeapAllocator::LinkedListAllocator
        } else if layout.size() <= 64 && layout.align() <= 64 {
            HeapAllocator::Slab64Bytes
        } else if layout.size() <= 128 && layout.align() <= 128 {
            HeapAllocator::Slab128Bytes
        } else if layout.size() <= 256 && layout.align() <= 256 {
            HeapAllocator::Slab128Bytes
        } else if layout.size() <= 512 && layout.align() <= 512 {
            HeapAllocator::Slab512Bytes
        } else if layout.size() <= 1024 && layout.align() <= 1024 {
            HeapAllocator::Slab1024Bytes
        } else if layout.size() <= 2048 && layout.align() <= 2048 {
            HeapAllocator::Slab2048Bytes
        } else if layout.size() <= 4096 && layout.align() <= 4096 {
            HeapAllocator::Slab4096Bytes
        } else {
            HeapAllocator::Slab4096Bytes
        }
    }

    /// The requested size and the size of what serves it: the block size of
    /// the slab, or the requested size itself for the hole list.
    pub fn usable_size(&self, layout: &Layout) -> (r: (usize, usize))
        ensures
            r.0 == layout.size(),
            r.1 == class_size(allocator_for(layout.size() as int, layout.align() as int), layout.size() as int),
    {
        match Heap::layout_to_allocator(&layout) {
            HeapAllocator::Slab64Bytes => (layout.size(), 64),
            HeapAllocator::Slab128Bytes => (layout.size(), 128),
            HeapAllocator::Slab256Bytes => (layout.size(), 256),
            HeapAllocator::Slab512Bytes => (layout.size(), 512),
            HeapAllocator::Slab1024Bytes => (layout.size(), 1024),
            HeapAllocator::Slab2048Bytes => (layout.size(), 2048),
            HeapAllocator::Slab4096Bytes => (layout.size(), 4096),
            HeapAllocator::LinkedListAllocator => (layout.size(), layout.size()),
        }
    }

    /// Allocates `layout`: a slab hands out the block on top of its stack, the
    /// hole list allocates first-fit.
    pub fn allocate(&mut self, layout: Layout) -> (r: Result<usize, AllocErr>)
        requires
            old(self).wf(),
        ensures
            final(self).wf(),
            Heap::allocate_post(old(self), final(self), layout, r),
    {
        let ghost old_holes = self.holes();
        match Heap::layout_to_allocator(&layout) {
            HeapAllocator::Slab64Bytes => self.slab_64_bytes.allocate(layout),
            HeapAllocator::Slab128Bytes => self.slab_128_bytes.allocate(layout),
            HeapAllocator::Slab256Bytes => self.slab_256_bytes.allocate(layout),
            HeapAllocator::Slab512Bytes => self.slab_512_bytes.allocate(layout),
            HeapAllocator::Slab1024Bytes => self.slab_1024_bytes.allocate(layout),
            HeapAllocator::Slab2048Bytes => self.slab_2048_bytes.allocate(layout),
            HeapAllocator::Slab4096Bytes => self.slab_4096_bytes.allocate(layout),
            HeapAllocator::LinkedListAllocator => {
                assert(layout.size() >= min_hole_size()) by {
                    broadcast use vstd::layout::layout_of_primitives;
                }
                let r = self.linked_list_allocator.allocate_first_fit(layout);
                proof {
                    assert forall|i: int| 0 <= i < self.holes().len() implies (#[trigger] self.holes()[i]).addr
                        + self.holes()[i].size <= self.linked_list_top by {
                        let x = self.holes()[i].addr as int;
                        let y = self.holes()[i].addr + self.holes()[i].size - 1;
                        assert(vstd::layout::size_of::<usize>() > 0) by {
                            broadcast use vstd::layout::layout_of_primitives;
                        }
                        assert(in_hole_end(self.holes()[i], y));
                        assert(covered(self.holes(), y));
                        assert(covered(old_holes, y));
                        let j = choose|j: int| 0 <= j < old_holes.len() && crate::allocator::hole::in_hole(#[trigger] old_holes[j], y);
                        assert(old_holes[j].addr + old_holes[j].size <= self.linked_list_top);
                    }
                }
                r
            },
        }
    }

    /// Whether `ptr` may be given back with `layout`: always for a slab; for
    /// the hole list, when the block lies above the null address, within the
    /// list's region and apart from every hole.
    pub fn deallocate_allowed(&self, ptr: usize, layout: &Layout) -> (r: bool)
        requires
            self.wf(),
        ensures
            r == self.deallocate_pre(ptr, *layout),
    {
        match Heap::layout_to_allocator(layout) {
            HeapAllocator::LinkedListAllocator => {
                ptr > 0 && ptr as u128 + layout.size() as u128 <= self.linked_list_top as u128
                    && self.linked_list_allocator.is_disjoint(ptr, layout.size())
            },
            _ => true,
        }
    }

    /// Returns `ptr`, allocated with `layout`, to the part of the heap that
    /// served it.
    pub fn deallocate(&mut self, ptr: usize, layout: Layout)
        requires
            old(self).wf(),
            old(self).deallocate_pre(ptr, layout),
        ensures
            final(self).wf(),
            Heap::deallocate_post(old(self), final(self), ptr, layout),
    {
        let ghost old_holes = self.holes();
        match Heap::layout_to_allocator(&layout) {
            HeapAllocator::Slab64Bytes => self.slab_64_bytes.deallocate(ptr),
            HeapAllocator::Slab128Bytes => self.slab_128_bytes.deallocate(ptr),
            HeapAllocator::Slab256Bytes => self.slab_256_bytes.deallocate(ptr),
            HeapAllocator::Slab512Bytes => self.slab_512_bytes.deallocate(ptr),
            HeapAllocator::Slab1024Bytes => self.slab_1024_bytes.deallocate(ptr),
            HeapAllocator::Slab2048Bytes => self.slab_2048_bytes.deallocate(ptr),
            HeapAllocator::Slab4096Bytes => self.slab_4096_bytes.deallocate(ptr),
            HeapAllocator::LinkedListAllocator => {
                assert(layout.size() >= min_hole_size()) by {
                    broadcast use vstd::layout::layout_of_primitives;
                }
                self.linked_list_allocator.deallocate(ptr, layout);
                proof {
                    assert forall|i: int| 0 <= i < self.holes().len() implies (#[trigger] self.holes()[i]).addr
                        + self.holes()[i].size <= self.linked_list_top by {
                        let y = self.holes()[i].addr + self.holes()[i].size - 1;
                        assert(vstd::layout::size_of::<usize>() > 0) by {
                            broadcast use vstd::layout::layout_of_primitives;
                        }
                        assert(in_hole_end(self.holes()[i], y));
                        assert(covered(self.holes(), y));
                        if covered(old_holes, y) {
                            let j = choose|j: int| 0 <= j < old_holes.len() && crate::allocator::hole::in_hole(#[trigger] old_holes[j], y);
                            assert(old_holes[j].addr + old_holes[j].size <= self.linked_list_top);
                        }
                    }
                }
            },
        }
    }
}

/// An allocation of `layout` from `h0` that handed out `ptr` and left `h1`,
/// then the deallocation of `ptr` with the same layout that left `h2`: the
/// block can be given back, and giving it back restores every slab's free
/// blocks and the holes, but for a remainder behind a block from the hole
/// list too small to be a hole of its own, which went with the allocation.
pub proof fn lemma_heap_allocate_then_deallocate(h0: Heap, h1: Heap, h2: Heap, layout: Layout, ptr: usize)
    requires
        layout.align() >= 1,
        h0.wf(),
        h1.wf(),
        Heap::allocate_post(&h0, &h1, layout, Ok(ptr)),
        Heap::deallocate_post(&h1, &h2, ptr, layout),
    ensures
        h1.deallocate_pre(ptr, layout),
        forall|b: HeapAllocator| #[trigger] h2.blocks(b) == h0.blocks(b),
        allocator_for(layout.size() as int, layout.align() as int) != HeapAllocator::LinkedListAllocator
            ==> h2.holes() == h0.holes(),
        allocator_for(layout.size() as int, layout.align() as int) == HeapAllocator::LinkedListAllocator
            ==> forall|x: int|
            #[trigger] covered(h2.holes(), x) <==> covered(h0.holes(), x) && !(ptr + layout.size() <= x < split_end(
                fit_hole(h0.holes(), layout),
                layout,
            )),
{
    let a = allocator_for(layout.size() as int, layout.align() as int);
    if a != HeapAllocator::LinkedListAllocator {
        assert(h2.blocks(a) =~= h0.blocks(a));
        assert forall|b: HeapAllocator| #[trigger] h2.blocks(b) == h0.blocks(b) by {
            if b == HeapAllocator::LinkedListAllocator {
                assert(h2.blocks(b) == h2.blocks(HeapAllocator::Slab4096Bytes));
                assert(h0.blocks(b) == h0.blocks(HeapAllocator::Slab4096Bytes));
            }
        }
    } else {
        assert(layout.size() >= min_hole_size()) by {
            broadcast use vstd::layout::layout_of_primitives;
        }
        lemma_allocate_then_deallocate(h0.holes(), h1.holes(), h2.holes(), layout);
        let hole = fit_hole(h0.holes(), layout);
        let i = first_fit(h0.holes(), layout);
        crate::allocator::hole::lemma_align_up(hole.addr as int, layout.align() as int);
        crate::allocator::hole::lemma_align_up(hole.addr + min_hole_size(), layout.align() as int);
        assert(h0.holes()[i].addr + h0.holes()[i].size <= h0.top());
        assert(ptr >= hole.addr);
    }
}

/// One power of two divides every power of two at least as large.
proof fn lemma_pow2_divides(a: int, c: int)
    requires
        vstd::arithmetic::power2::is_pow2(a),
        vstd::arithmetic::power2::is_pow2(c),
        a <= c,
    ensures
        c % a == 0,
    decreases a,
{
    reveal(vstd::arithmetic::power2::is_pow2);
    if a != 1 {
        lemma_pow2_divides(a / 2, c / 2);
        let k = (c / 2) / (a / 2);
        assert(c == k * a) by (nonlinear_arith)
            requires
                (c / 2) % (a / 2) == 0,
                a % 2 == 0,
                c % 2 == 0,
                a >= 2,
                k == (c / 2) / (a / 2),
        ;
        assert(c % a == 0) by (nonlinear_arith)
            requires
                c == k * a,
                a >= 2,
        ;
    }
}

/// A request served by a slab of a heap just built gets the lowest block of
/// that slab's region, which is a multiple of the slab's block size; so it
/// is aligned to the request whenever the request's alignment is at most
/// that size (not so for an alignment above 4096, which the 4096-byte slab
/// serves as well).
pub proof fn lemma_fresh_slab_allocation_aligned(
    h0: Heap,
    h1: Heap,
    start: usize,
    size: usize,
    layout: Layout,
    ptr: usize,
)
    requires
        vstd::layout::valid_layout(layout.size(), layout.align()),
        start % 4096 == 0,
        size >= MIN_HEAP_SIZE,
        size % MIN_HEAP_SIZE == 0,
        start + size <= usize::MAX,
        Heap::fresh(&h0, start, size),
        Heap::allocate_post(&h0, &h1, layout, Ok(ptr)),
        allocator_for(layout.size() as int, layout.align() as int) != HeapAllocator::LinkedListAllocator,
    ensures
        (ptr as int) % class_size(allocator_for(layout.size() as int, layout.align() as int), 0) == 0,
        layout.align() <= class_size(allocator_for(layout.size() as int, layout.align() as int), 0) ==> (ptr
            as int) % (layout.align() as int) == 0,
{
    let a = allocator_for(layout.size() as int, layout.align() as int);
    let c = class_size(a, 0);
    let slab: int = (size / NUM_OF_SLABS) as int;
    let m: int = match a {
        HeapAllocator::Slab64Bytes => 0,
        HeapAllocator::Slab128Bytes => 1,
        HeapAllocator::Slab256Bytes => 2,
        HeapAllocator::Slab512Bytes => 3,
        HeapAllocator::Slab1024Bytes => 4,
        HeapAllocator::Slab2048Bytes => 5,
        _ => 6,
    };
    assert(slab * 8 == size && slab % 4096 == 0 && slab >= 4096) by (nonlinear_arith)
        requires
            slab == size / 8,
            size % 32768 == 0,
            size >= 32768,
    ;
    let n: int = slab / c;
    assert(n >= 1 && n * c <= slab) by (nonlinear_arith)
        requires
            n == slab / c,
            slab >= 4096,
            64 <= c <= 4096,
    ;
    let base = start + m * slab;
    assert(base + slab <= start + size) by (nonlinear_arith)
        requires
            0 <= m <= 6,
            slab * 8 == size,
            slab >= 0,
            base == start + m * slab,
    ;
    assert(h0.blocks(a) == region_blocks(base, c, n));
    assert(ptr == h0.blocks(a).last());
    assert(ptr == base);
    let d: int = 4096int / c;
    assert(4096 == c * d);
    let s1: int = start as int / 4096;
    let q: int = slab / 4096;
    vstd::arithmetic::div_mod::lemma_fundamental_div_mod(start as int, 4096);
    vstd::arithmetic::div_mod::lemma_fundamental_div_mod(slab, 4096);
    let t: int = d * (s1 + m * q);
    assert(base == t * c) by (nonlinear_arith)
        requires
            start == 4096 * s1,
            slab == 4096 * q,
            base == start + m * slab,
            4096 == c * d,
            t == d * (s1 + m * q),
    ;
    vstd::arithmetic::div_mod::lemma_mod_multiples_basic(t, c);
    if layout.align() <= c {
        let al = layout.align() as int;
        assert(vstd::arithmetic::power2::is_pow2(c)) by {
            reveal_with_fuel(vstd::arithmetic::power2::is_pow2, 13);
        }
        assert(al >= 1) by {
            reveal(vstd::arithmetic::power2::is_pow2);
        }
        lemma_pow2_divides(al, c);
        vstd::arithmetic::div_mod::lemma_fundamental_div_mod(c, al);
        let k2: int = c / al;
        assert(base == (t * k2) * al) by (nonlinear_arith)
            requires
                base == t * c,
                c == al * k2 + 0,
        ;
        vstd::arithmetic::div_mod::lemma_mod_multiples_basic(t * k2, al);
    }
}

/// Every hole ends at or before `top`.
pub open spec fn holes_below(holes: Seq<Hole>, top: int) -> bool {
    forall|i: int| 0 <= i < holes.len() ==> (#[trigger] holes[i]).addr + holes[i].size <= top
}

/// `y` is the last address of `hole`.
spec fn in_hole_end(hole: Hole, y: int) -> bool {
    crate::allocator::hole::in_hole(hole, y)
}

/// The kernel's global heap, set up once at start.
pub struct LockedHeap {
    heap: Option<Heap>,
}

impl LockedHeap {
    /// The heap, once set up.
    pub closed spec fn heap(&self) -> Option<Heap> {
        self.heap
    }

    /// A global heap that is not set up yet.
    pub fn empty() -> (r: LockedHeap)
        ensures
            r.heap() is None,
    {
        LockedHeap { heap: None }
    }

    /// Sets the heap up over `[heap_addr_start, heap_addr_start + size)`.
    pub fn init(&mut self, heap_addr_start: usize, size: usize)
        requires
            heap_addr_start % 4096 == 0,
            size >= MIN_HEAP_SIZE,
            size % MIN_HEAP_SIZE == 0,
            heap_addr_start + size <= usize::MAX,
        ensures
            final(self).heap() matches Some(h) && h.wf() && Heap::fresh(&h, heap_addr_start, size),
    {
        self.heap = Some(Heap::new(heap_addr_start, size));
    }

    /// Allocates `layout` from the heap.
    pub fn allocate(&mut self, layout: Layout) -> (r: Result<usize, AllocErr>)
        requires
            old(self).heap() matches Some(h) && h.wf(),
        ensures
            final(self).heap() matches Some(h) && h.wf() && Heap::allocate_post(
                &old(self).heap()->Some_0,
                &h,
                layout,
                r,
            ),
    {
        let mut heap = self.heap.take().unwrap();
        let r = heap.allocate(layout);
        self.heap = Some(heap);
        r
    }

    /// Whether `ptr` may be given back to the heap with `layout`.
    pub fn deallocate_allowed(&self, ptr: usize, layout: &Layout) -> (r: bool)
        requires
            self.heap() matches Some(h) && h.wf(),
        ensures
            r == self.heap()->Some_0.deallocate_pre(ptr, *layout),
    {
        match &self.heap {
            Some(h) => h.deallocate_allowed(ptr, layout),
            None => false,
        }
    }

    /// Returns `ptr`, allocated with `layout`, to the heap; a null pointer is
    /// ignored.
    pub fn deallocate(&mut self, ptr: usize, layout: Layout)
        requires
            old(self).heap() matches Some(h) && h.wf() && (ptr != 0 ==> h.deallocate_pre(ptr, layout)),
        ensures
            final(self).heap() matches Some(h) && h.wf(),
            ptr == 0 ==> final(self).heap() == old(self).heap(),
            ptr != 0 ==> Heap::deallocate_post(&old(self).heap()->Some_0, &final(self).heap()->Some_0, ptr, layout),
    {
        if ptr == 0 {
            return;
        }
        let mut heap = self.heap.take().unwrap();
        heap.deallocate(ptr, layout);
        self.heap = Some(heap);
    }
}

} // verus!
