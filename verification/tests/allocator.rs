use lib::allocator::frame_allocator::LockedFrameHeap;
use lib::allocator::hole::{align_up, deallocate, AllocErr, Hole, HoleList};
use lib::allocator::layout::{is_power_of_two, Layout, LayoutErr};
use lib::allocator::slab::Slab;
use lib::allocator::{Heap, HeapAllocator, LockedHeap};

fn layout(size: usize, align: usize) -> Layout {
    Layout::from_size_align(size, align).unwrap()
}

#[test]
fn powers_of_two() {
    assert!(is_power_of_two(1));
    assert!(is_power_of_two(4096));
    assert!(!is_power_of_two(0));
    assert!(!is_power_of_two(12));
}

#[test]
fn layout_checks_alignment_and_size() {
    let l = layout(24, 8);
    assert_eq!(l.size(), 24);
    assert_eq!(l.align(), 8);
    assert_eq!(Layout::from_size_align(8, 3).err(), Some(LayoutErr));
    assert_eq!(Layout::from_size_align(8, 0).err(), Some(LayoutErr));
    assert_eq!(Layout::from_size_align(usize::MAX, 8).err(), Some(LayoutErr));
    assert!(Layout::from_size_align(isize::MAX as usize - 7, 8).is_ok());
}

#[test]
fn align_up_rounds_to_multiple() {
    assert_eq!(align_up(5, 4), 8);
    assert_eq!(align_up(8, 4), 8);
    assert_eq!(align_up(0, 16), 0);
    assert_eq!(align_up(0x1041, 0x100), 0x1100);
}

#[test]
fn hole_list_min_size_is_two_words() {
    assert_eq!(HoleList::min_size(), 2 * std::mem::size_of::<usize>());
}

#[test]
fn hole_list_allocates_first_fit() {
    let mut h = HoleList::new(0x1000, 0x1000);
    assert_eq!(h.allocate_first_fit(layout(64, 64)), Ok(0x1000));
    // the hole now starts at 0x1040; 0x100 alignment needs a front padding hole
    assert_eq!(h.allocate_first_fit(layout(32, 0x100)), Ok(0x1100));
    // the front padding [0x1040, 0x1100) serves a small request
    assert_eq!(h.allocate_first_fit(layout(64, 16)), Ok(0x1040));
    assert_eq!(h.allocate_first_fit(layout(0x2000, 8)), Err(AllocErr));
}

#[test]
fn hole_list_empty_fails() {
    let mut h = HoleList::empty();
    assert_eq!(h.allocate_first_fit(layout(16, 8)), Err(AllocErr));
}

#[test]
fn hole_list_allocate_then_deallocate_gives_back() {
    let mut h = HoleList::new(0x1000, 0x100);
    let l = layout(0x80, 8);
    assert_eq!(h.allocate_first_fit(l), Ok(0x1000));
    assert_eq!(h.allocate_first_fit(layout(0x100, 8)), Err(AllocErr));
    h.deallocate(0x1000, l);
    assert_eq!(h.allocate_first_fit(layout(0x100, 8)), Ok(0x1000));
}

#[test]
fn hole_list_small_remainder_goes_with_allocation() {
    let mut h = HoleList::new(0x1000, 0x48);
    let l = layout(0x40, 8);
    assert_eq!(h.allocate_first_fit(l), Ok(0x1000));
    h.deallocate(0x1000, l);
    // the 8 bytes behind the block were handed out with it and stay taken
    assert_eq!(h.allocate_first_fit(layout(0x48, 8)), Err(AllocErr));
    assert_eq!(h.allocate_first_fit(layout(0x40, 8)), Ok(0x1000));
}

#[test]
fn hole_list_merges_neighbours() {
    let mut h = HoleList::new(0x1000, 0x300);
    let l = layout(0x100, 8);
    assert_eq!(h.allocate_first_fit(l), Ok(0x1000));
    assert_eq!(h.allocate_first_fit(l), Ok(0x1100));
    assert_eq!(h.allocate_first_fit(l), Ok(0x1200));
    h.deallocate(0x1000, l);
    h.deallocate(0x1200, l);
    h.deallocate(0x1100, l);
    assert_eq!(h.allocate_first_fit(layout(0x300, 8)), Ok(0x1000));
}

#[test]
fn slab_hands_out_lowest_first() {
    let mut s = Slab::new(0x1000, 256, 64);
    let l = layout(64, 8);
    assert_eq!(s.allocate(l), Ok(0x1000));
    assert_eq!(s.allocate(l), Ok(0x1040));
    assert_eq!(s.allocate(l), Ok(0x1080));
    assert_eq!(s.allocate(l), Ok(0x10c0));
    assert_eq!(s.allocate(l), Err(AllocErr));
    s.deallocate(0x1040);
    assert_eq!(s.allocate(l), Ok(0x1040));
    s.grow(0x3000, 128);
    assert_eq!(s.allocate(l), Ok(0x3000));
}

#[test]
fn layout_to_allocator_classes() {
    assert_eq!(Heap::layout_to_allocator(&layout(8, 8)), HeapAllocator::Slab64Bytes);
    assert_eq!(Heap::layout_to_allocator(&layout(64, 64)), HeapAllocator::Slab64Bytes);
    assert_eq!(Heap::layout_to_allocator(&layout(65, 8)), HeapAllocator::Slab128Bytes);
    assert_eq!(Heap::layout_to_allocator(&layout(8, 128)), HeapAllocator::Slab128Bytes);
    assert_eq!(Heap::layout_to_allocator(&layout(200, 8)), HeapAllocator::Slab128Bytes);
    assert_eq!(Heap::layout_to_allocator(&layout(300, 8)), HeapAllocator::Slab512Bytes);
    assert_eq!(Heap::layout_to_allocator(&layout(1000, 8)), HeapAllocator::Slab1024Bytes);
    assert_eq!(Heap::layout_to_allocator(&layout(2000, 8)), HeapAllocator::Slab2048Bytes);
    assert_eq!(Heap::layout_to_allocator(&layout(4096, 8)), HeapAllocator::Slab4096Bytes);
    assert_eq!(Heap::layout_to_allocator(&layout(8, 8192)), HeapAllocator::Slab4096Bytes);
    assert_eq!(Heap::layout_to_allocator(&layout(4097, 8)), HeapAllocator::LinkedListAllocator);
}

#[test]
fn usable_size_is_block_size() {
    let h = Heap::new(0x10000, 32768);
    assert_eq!(h.usable_size(&layout(10, 8)), (10, 64));
    assert_eq!(h.usable_size(&layout(200, 8)), (200, 128));
    assert_eq!(h.usable_size(&layout(5000, 8)), (5000, 5000));
}

#[test]
fn heap_slabs_serve_small_requests() {
    let mut h = Heap::new(0x10000, 32768);
    assert_eq!(h.allocate(layout(10, 8)), Ok(0x10000));
    assert_eq!(h.allocate(layout(10, 8)), Ok(0x10040));
    assert_eq!(h.allocate(layout(100, 8)), Ok(0x11000));
    assert_eq!(h.allocate(layout(4000, 8)), Ok(0x16000));
    assert_eq!(h.allocate(layout(4000, 8)), Err(AllocErr));
    h.deallocate(0x16000, layout(4000, 8));
    assert_eq!(h.allocate(layout(4000, 8)), Ok(0x16000));
}

#[test]
fn heap_hole_list_serves_large_requests() {
    let mut h = Heap::new(0x10000, 65536);
    let big = layout(5000, 8);
    assert_eq!(h.allocate(big), Ok(0x1e000));
    assert_eq!(h.allocate(big), Err(AllocErr));
    h.deallocate(0x1e000, big);
    assert_eq!(h.allocate(big), Ok(0x1e000));
}

#[test]
fn heap_grow_adds_blocks() {
    let mut h = Heap::new(0x10000, 32768);
    let l = layout(4000, 8);
    assert_eq!(h.allocate(l), Ok(0x16000));
    assert_eq!(h.allocate(l), Err(AllocErr));
    h.grow(0x40000, 4096, HeapAllocator::Slab4096Bytes);
    assert_eq!(h.allocate(l), Ok(0x40000));
}

#[test]
fn locked_heap_serves_after_init() {
    let mut g = LockedHeap::empty();
    g.init(0x20000, 32768);
    assert_eq!(g.allocate(layout(16, 8)), Ok(0x20000));
    g.deallocate(0x20000, layout(16, 8));
    g.deallocate(0, layout(16, 8));
    assert_eq!(g.allocate(layout(16, 8)), Ok(0x20000));
}

#[test]
fn frame_heap_serves_after_init() {
    let mut f = LockedFrameHeap::new();
    f.init(0x40000, 32768);
    assert_eq!(f.allocate(layout(4096, 4096)), Ok(0x46000));
    f.deallocate(0x46000, layout(4096, 4096));
    assert_eq!(f.allocate(layout(4096, 4096)), Ok(0x46000));
}

#[test]
fn hole_list_disjointness_check() {
    let mut h = HoleList::new(0x1000, 0x100);
    assert!(!h.is_disjoint(0x1000, 0x10));
    assert!(h.is_disjoint(0x1100, 0x10));
    assert!(h.is_disjoint(0x0ff0, 0x10));
    assert_eq!(h.allocate_first_fit(layout(0x40, 8)), Ok(0x1000));
    assert!(h.is_disjoint(0x1000, 0x40));
    assert!(!h.is_disjoint(0x1000, 0x41));
}

#[test]
fn heap_checks_blocks_given_back() {
    let mut h = Heap::new(0x10000, 65536);
    let big = layout(5000, 8);
    assert_eq!(h.allocate(big), Ok(0x1e000));
    assert!(h.deallocate_allowed(0x1e000, &big));
    assert!(!h.deallocate_allowed(0x1f400, &big));
    assert!(!h.deallocate_allowed(0, &big));
    assert!(!h.deallocate_allowed(0x1f000, &big));
    assert!(h.deallocate_allowed(0x1234, &layout(16, 8)));
    let mut g = LockedHeap::empty();
    g.init(0x20000, 65536);
    let p = g.allocate(big).unwrap();
    assert!(g.deallocate_allowed(p, &big));
    g.deallocate(p, big);
    assert!(!g.deallocate_allowed(p, &big));
}

#[test]
fn fresh_heap_slab_blocks_are_aligned() {
    for (size, align) in [(8usize, 8usize), (100, 128), (300, 512), (1000, 1024), (2000, 2048), (4000, 4096)] {
        let mut h = Heap::new(0x40000, 32768);
        let p = h.allocate(layout(size, align)).unwrap();
        assert_eq!(p % align, 0);
        assert_eq!(p % h.usable_size(&layout(size, align)).1, 0);
    }
}

#[test]
fn hole_vector_merges_given_back_block() {
    let mut holes = vec![Hole { addr: 0x1000, size: 0x100 }, Hole { addr: 0x1200, size: 0x100 }];
    deallocate(&mut holes, 0x1100, 0x100);
    assert_eq!(holes, vec![Hole { addr: 0x1000, size: 0x300 }]);
    deallocate(&mut holes, 0x2000, 0x20);
    assert_eq!(holes, vec![Hole { addr: 0x1000, size: 0x300 }, Hole { addr: 0x2000, size: 0x20 }]);
}
