//! The heap for page tables, set up after start.
use vstd::prelude::*;
use crate::allocator::{Heap, MIN_HEAP_SIZE};
use crate::allocator::hole::AllocErr;
use crate::allocator::layout::Layout;

verus! {

/// A heap that is set up after it is created.
pub struct LockedFrameHeap(Option<Heap>);

impl LockedFrameHeap {
    /// The heap, once set up.
    pub closed spec fn heap(&self) -> Option<Heap> {
        self.0
    }

    /// A heap that is not set up yet.
    pub fn new() -> (r: Self)
        ensures
            r.heap() is None,
    {
        LockedFrameHeap(None)
    }

    /// Sets the heap up over `[heap_addr_start, heap_addr_start + size)`.
    pub fn init(&mut self, heap_addr_start: usize, size: usize)
        requires
            heap_addr_start % 4096 == 0,
            size >= MIN_HEAP_SIZE,
            size % MIN_HEAP_SIZE == 0,
            heap_addr_start + size <= usize::MAX,
        ensures
            final(self).heap() matches Some(h) && h.wf() && Heap::fresh(&h, heap_addr_start, size),
    {
        self.0 = Some(Heap::new(heap_addr_start, size));
    }

    /// Allocates `layout` from the heap.
    pub fn allocate(&mut self, layout: Layout) -> (r: Result<usize, AllocErr>)
        requires
            old(self).heap() matches Some(h) && h.wf(),
        ensures
            final(self).heap() matches Some(h) && h.wf() && Heap::allocate_post(
                &old(self).heap()->Some_0,
                &h,
                layout,
                r,
            ),
    {
        let mut heap = self.0.take().unwrap();
        let r = heap.allocate(layout);
        self.0 = Some(heap);
        r
    }

    /// Returns `ptr`, allocated with `layout`, to the heap.
    pub fn deallocate(&mut self, ptr: usize, layout: Layout)
        requires
            old(self).heap() matches Some(h) && h.wf() && h.deallocate_pre(ptr, layout),
        ensures
            final(self).heap() matches Some(h) && h.wf() && Heap::deallocate_post(
                &old(self).heap()->Some_0,
                &h,
                ptr,
                layout,
            ),
    {
        let mut heap = self.0.take().unwrap();
        heap.deallocate(ptr, layout);
        self.0 = Some(heap);
    }
}

} // verus!
