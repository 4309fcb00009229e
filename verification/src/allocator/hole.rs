//! A first-fit allocator over a sorted list of free memory regions (holes).
//! Each hole is kept as its start address and size; the list is ordered by
//! address, and neighbouring holes never touch.
use vstd::prelude::*;
use vstd::layout::size_of;
use crate::allocator::layout::Layout;

verus! {

broadcast use vstd::layout::layout_of_primitives;

/// The smallest hole, allocation or deallocation: two machine words.
pub open spec fn min_hole_size() -> int {
    2 * size_of::<usize>() as int
}

/// The smallest multiple of `align` that is at least `addr`.
pub open spec fn align_up_spec(addr: int, align: int) -> int {
    if addr % align == 0 {
        addr
    } else {
        addr - addr % align + align
    }
}

/// `align_up_spec(addr, align)` is a multiple of `align` in
/// `[addr, addr + align)`.
pub proof fn lemma_align_up(addr: int, align: int)
    requires
        addr >= 0,
        align >= 1,
    ensures
        addr <= align_up_spec(addr, align) < addr + align,
        align_up_spec(addr, align) % align == 0,
        addr % align <= addr,
{
    assert(0 <= addr % align < align && addr % align <= addr) by (nonlinear_arith)
        requires
            addr >= 0,
            align >= 1,
    ;
    if addr % align != 0 {
        assert((addr - addr % align + align) % align == 0) by (nonlinear_arith)
            requires
                addr >= 0,
                align >= 1,
        ;
    }
}

/// The smallest multiple of `align` that is at least `addr`.
pub fn align_up(addr: usize, align: usize) -> (r: usize)
    requires
        align >= 1,
        align_up_spec(addr as int, align as int) <= usize::MAX,
    ensures
        r == align_up_spec(addr as int, align as int),
{
    proof {
        lemma_align_up(addr as int, align as int);
    }
    let rem = addr % align;
    if rem == 0 {
        addr
    } else {
        addr - rem + align
    }
}

/// `align_up`, or `None` where the result would not fit in a `usize`.
fn checked_align_up(addr: usize, align: usize) -> (r: Option<usize>)
    requires
        align >= 1,
    ensures
        align_up_spec(addr as int, align as int) <= usize::MAX ==> r == Some(
            align_up_spec(addr as int, align as int) as usize,
        ),
        align_up_spec(addr as int, align as int) > usize::MAX ==> r is None,
{
    proof {
        lemma_align_up(addr as int, align as int);
    }
    let rem = addr % align;
    if rem == 0 {
        Some(addr)
    } else if addr - rem > usize::MAX - align {
        None
    } else {
        Some(addr - rem + align)
    }
}

/// A free region: its start address and size.
#[derive(Debug, Clone, Copy, PartialEq, Eq, Structural)]
pub struct HoleInfo {
    pub addr: usize,
    pub size: usize,
}

/// A hole of the list.
#[derive(Debug, Clone, Copy, PartialEq, Eq, Structural)]
pub struct Hole {
    pub addr: usize,
    pub size: usize,
}

impl Hole {
    /// The hole's address and size.
    fn info(&self) -> (r: HoleInfo)
        ensures
            r == (HoleInfo { addr: self.addr, size: self.size }),
    {
        HoleInfo { addr: self.addr, size: self.size }
    }
}

/// The parts of a hole that an allocation splits it into.
struct Allocation {
    info: HoleInfo,
    front_padding: Option<HoleInfo>,
    back_padding: Option<HoleInfo>,
}

/// Address `x` lies in `hole`.
pub open spec fn in_hole(hole: Hole, x: int) -> bool {
    hole.addr <= x < hole.addr + hole.size
}

/// Address `x` lies in one of the holes.
pub open spec fn covered(holes: Seq<Hole>, x: int) -> bool {
    exists|i: int| 0 <= i < holes.len() && in_hole(#[trigger] holes[i], x)
}

/// The block `[addr, addr + size)` shares no address with any hole.
pub open spec fn disjoint(holes: Seq<Hole>, addr: int, size: int) -> bool {
    forall|i: int|
        0 <= i < holes.len() ==> (#[trigger] holes[i]).addr + holes[i].size <= addr || addr + size
            <= holes[i].addr
}

/// The holes are sorted by address with a gap between any two, start above
/// the null address, hold at least `min_hole_size()` bytes and end within
/// the address space.
pub open spec fn holes_wf(holes: Seq<Hole>) -> bool {
    &&& forall|i: int|
        0 <= i < holes.len() ==> {
            &&& (#[trigger] holes[i]).addr > 0
            &&& holes[i].size >= min_hole_size()
            &&& holes[i].addr + holes[i].size <= usize::MAX
        }
    &&& forall|i: int, j: int|
        0 <= i < j < holes.len() ==> (#[trigger] holes[i]).addr + holes[i].size < (#[trigger] holes[j]).addr
}

/// Where an allocation of `layout` from `hole` starts: the hole's address if
/// it is aligned, else the first aligned address that leaves room for a
/// front padding hole.
pub open spec fn split_addr(hole: HoleInfo, layout: Layout) -> int {
    if align_up_spec(hole.addr as int, layout.align() as int) == hole.addr {
        hole.addr as int
    } else {
        align_up_spec(hole.addr + min_hole_size(), layout.align() as int)
    }
}

/// An allocation of `layout` fits in `hole`.
pub open spec fn split_fits(hole: HoleInfo, layout: Layout) -> bool {
    split_addr(hole, layout) + layout.size() <= hole.addr + hole.size
}

/// What is left of the hole behind the allocation is large enough to be a
/// hole of its own.
pub open spec fn has_back_padding(hole: HoleInfo, layout: Layout) -> bool {
    hole.addr + hole.size - split_addr(hole, layout) - layout.size() >= min_hole_size()
}

/// The end of the memory an allocation of `layout` takes from `hole`: a
/// remainder too small to be a hole goes with the allocation.
pub open spec fn split_end(hole: HoleInfo, layout: Layout) -> int {
    if has_back_padding(hole, layout) {
        split_addr(hole, layout) + layout.size()
    } else {
        hole.addr + hole.size
    }
}

/// The first hole of `holes` that an allocation of `layout` fits in.
pub open spec fn first_fit_at(holes: Seq<Hole>, layout: Layout, i: int) -> bool {
    &&& 0 <= i < holes.len()
    &&& split_fits(holes[i].info_spec(), layout)
    &&& forall|j: int| 0 <= j < i ==> !split_fits((#[trigger] holes[j]).info_spec(), layout)
}

/// Some hole of `holes` fits an allocation of `layout`.
pub open spec fn any_fit(holes: Seq<Hole>, layout: Layout) -> bool {
    exists|i: int| 0 <= i < holes.len() && split_fits((#[trigger] holes[i]).info_spec(), layout)
}

/// The index of the first fitting hole; meaningful when `any_fit` holds.
pub open spec fn first_fit(holes: Seq<Hole>, layout: Layout) -> int {
    choose|i: int| first_fit_at(holes, layout, i)
}

impl Hole {
    /// The hole's address and size.
    pub open spec fn info_spec(self) -> HoleInfo {
        HoleInfo { addr: self.addr, size: self.size }
    }
}

/// Removing hole `i` takes exactly its addresses out of the covered ones.
proof fn lemma_covered_remove(holes: Seq<Hole>, i: int)
    requires
        0 <= i < holes.len(),
    ensures
        forall|x: int| #[trigger] covered(holes, x) <==> covered(holes.remove(i), x) || in_hole(holes[i], x),
{
    let r = holes.remove(i);
    assert forall|x: int| #[trigger] covered(holes, x) <==> covered(r, x) || in_hole(holes[i], x) by {
        if covered(holes, x) {
            let j = choose|j: int| 0 <= j < holes.len() && in_hole(#[trigger] holes[j], x);
            if j < i {
                assert(r[j] == holes[j]);
            } else if j > i {
                assert(r[j - 1] == holes[j]);
            }
        }
        if covered(r, x) {
            let j = choose|j: int| 0 <= j < r.len() && in_hole(#[trigger] r[j], x);
            if j < i {
                assert(r[j] == holes[j]);
            } else {
                assert(r[j] == holes[j + 1]);
            }
        }
    }
}

/// Inserting a hole adds exactly its addresses to the covered ones.
proof fn lemma_covered_insert(holes: Seq<Hole>, i: int, hole: Hole)
    requires
        0 <= i <= holes.len(),
    ensures
        forall|x: int| #[trigger] covered(holes.insert(i, hole), x) <==> covered(holes, x) || in_hole(hole, x),
{
    let n = holes.insert(i, hole);
    assert(n.remove(i) =~= holes);
    lemma_covered_remove(n, i);
}

/// Replacing hole `i` swaps its addresses for those of the new hole.
proof fn lemma_covered_update(holes: Seq<Hole>, i: int, hole: Hole)
    requires
        0 <= i < holes.len(),
    ensures
        forall|x: int| #[trigger] covered(holes.update(i, hole), x) <==> covered(holes.remove(i), x) || in_hole(hole, x),
{
    let n = holes.update(i, hole);
    assert(n.remove(i) =~= holes.remove(i));
    lemma_covered_remove(n, i);
}

/// Removing a hole keeps the list well-formed.
proof fn lemma_wf_remove(holes: Seq<Hole>, i: int)
    requires
        holes_wf(holes),
        0 <= i < holes.len(),
    ensures
        holes_wf(holes.remove(i)),
{
    let r = holes.remove(i);
    assert forall|a: int, b: int| 0 <= a < b < r.len() implies (#[trigger] r[a]).addr + r[a].size < (#[trigger] r[b]).addr by {
        let oa = if a < i { a } else { a + 1 };
        let ob = if b < i { b } else { b + 1 };
        assert(r[a] == holes[oa]);
        assert(r[b] == holes[ob]);
    }
    assert forall|a: int| 0 <= a < r.len() implies {
        &&& (#[trigger] r[a]).addr > 0
        &&& r[a].size >= min_hole_size()
        &&& r[a].addr + r[a].size <= usize::MAX
    } by {
        let oa = if a < i { a } else { a + 1 };
        assert(r[a] == holes[oa]);
    }
}

/// Splits `hole` for an allocation of `required_layout`: the allocation
/// starts at `split_addr`, a misaligned hole leaves a front padding hole
/// before it, and a remainder of at least `min_hole_size()` bytes behind it
/// becomes a back padding hole. `None` when the allocation does not fit.
fn split_hole(hole: HoleInfo, required_layout: Layout) -> (r: Option<Allocation>)
    requires
        hole.addr + hole.size <= usize::MAX,
    ensures
        r is None <==> !split_fits(hole, required_layout),
        r matches Some(a) ==> {
            &&& a.info == (HoleInfo {
                addr: split_addr(hole, required_layout) as usize,
                size: required_layout.size(),
            })
            &&& a.front_padding == if split_addr(hole, required_layout) == hole.addr {
                None
            } else {
                Some(
                    HoleInfo {
                        addr: hole.addr,
                        size: (split_addr(hole, required_layout) - hole.addr) as usize,
                    },
                )
            }
            &&& a.back_padding == if has_back_padding(hole, required_layout) {
                Some(
                    HoleInfo {
                        addr: (split_addr(hole, required_layout) + required_layout.size()) as usize,
                        size: (hole.addr + hole.size - split_addr(hole, required_layout)
                            - required_layout.size()) as usize,
                    },
                )
            } else {
                None
            }
        },
{
    let required_size = required_layout.size();
    let required_align = required_layout.align();
    let min = HoleList::min_size();
    proof {
        lemma_align_up(hole.addr as int, required_align as int);
        lemma_align_up(hole.addr + min, required_align as int);
    }
    let aligned_here = match checked_align_up(hole.addr, required_align) {
        Some(a) => a == hole.addr,
        None => false,
    };
    let (align_addr, front_padding) = if aligned_here {
        (hole.addr, None)
    } else {
        if hole.addr > usize::MAX - min {
            return None;
        }
        let align_addr = match checked_align_up(hole.addr + min, required_align) {
            Some(a) => a,
            None => {
                return None;
            },
        };
        (align_addr, Some(HoleInfo { addr: hole.addr, size: align_addr - hole.addr }))
    };
    let hole_end = hole.addr + hole.size;
    if align_addr > hole_end || required_size > hole_end - align_addr {
        return None;
    }
    let aligned_hole = HoleInfo { addr: align_addr, size: hole.size - (align_addr - hole.addr) };
    let back_padding = if aligned_hole.size == required_size {
        None
    } else if aligned_hole.size - required_size < min {
        None
    } else {
        Some(HoleInfo { addr: aligned_hole.addr + required_size, size: aligned_hole.size - required_size })
    };
    Some(
        Allocation {
            info: HoleInfo { addr: aligned_hole.addr, size: required_size },
            front_padding,
            back_padding,
        },
    )
}

/// Takes the first hole that an allocation of `layout` fits in out of the
/// list and returns how it splits.
fn allocate_first_fit(holes: &mut Vec<Hole>, layout: Layout) -> (r: Result<Allocation, AllocErr>)
    requires
        holes_wf(old(holes)@),
    ensures
        !any_fit(old(holes)@, layout) ==> r is Err && final(holes)@ == old(holes)@,
        any_fit(old(holes)@, layout) ==> {
            let i = first_fit(old(holes)@, layout);
            &&& first_fit_at(old(holes)@, layout, i)
            &&& final(holes)@ == old(holes)@.remove(i)
            &&& r matches Ok(a) && split_hole_result(old(holes)@[i].info_spec(), layout, a)
        },
{
    let mut i: usize = 0;
    while i < holes.len()
        invariant
            holes_wf(holes@),
            holes@ == old(holes)@,
            0 <= i <= holes@.len(),
            forall|j: int| 0 <= j < i ==> !split_fits((#[trigger] holes@[j]).info_spec(), layout),
        decreases holes@.len() - i,
    {
        let current = holes[i];
        assert(current.addr + current.size <= usize::MAX);
        match split_hole(current.info(), layout) {
            Some(allocation) => {
                proof {
                    assert(first_fit_at(holes@, layout, i as int));
                    lemma_first_fit_unique(holes@, layout, i as int);
                }
                holes.remove(i);
                return Ok(allocation);
            },
            None => {},
        }
        i = i + 1;
    }
    Err(AllocErr)
}

/// `a` is what `split_hole(hole, layout)` returns when the allocation fits.
spec fn split_hole_result(hole: HoleInfo, layout: Layout, a: Allocation) -> bool {
    &&& a.info == (HoleInfo { addr: split_addr(hole, layout) as usize, size: layout.size() })
    &&& a.front_padding == if split_addr(hole, layout) == hole.addr {
        None
    } else {
        Some(HoleInfo { addr: hole.addr, size: (split_addr(hole, layout) - hole.addr) as usize })
    }
    &&& a.back_padding == if has_back_padding(hole, layout) {
        Some(
            HoleInfo {
                addr: (split_addr(hole, layout) + layout.size()) as usize,
                size: (hole.addr + hole.size - split_addr(hole, layout) - layout.size()) as usize,
            },
        )
    } else {
        None
    }
}

/// The first fitting hole is unique, so `first_fit` picks it.
proof fn lemma_first_fit_unique(holes: Seq<Hole>, layout: Layout, i: int)
    requires
        first_fit_at(holes, layout, i),
    ensures
        first_fit(holes, layout) == i,
        any_fit(holes, layout),
{
    let q = first_fit(holes, layout);
    assert(first_fit_at(holes, layout, q));
    if q < i {
        assert(!split_fits(holes[q].info_spec(), layout));
    } else if i < q {
        assert(!split_fits(holes[i].info_spec(), layout));
    }
}

/// Returns the block `[addr, addr + size)` to the holes, merging it with a
/// hole that ends where it starts and with one that starts where it ends.
/// The holes stay sorted by address with a gap between any two; each hole
/// and the block hold at least `min_hole_size()` bytes, the room a hole
/// needs to record itself.
pub fn deallocate(holes: &mut Vec<Hole>, addr: usize, size: usize)
    requires
        holes_wf(old(holes)@),
        addr > 0,
        size >= min_hole_size(),
        addr + size <= usize::MAX,
        disjoint(old(holes)@, addr as int, size as int),
    ensures
        holes_wf(final(holes)@),
        forall|x: int| #[trigger] covered(final(holes)@, x) <==> covered(old(holes)@, x) || (addr <= x < addr + size),
{
    let ghost size0 = size;
    let mut size = size;
    let mut i: usize = 0;
    loop
        invariant_except_break
            holes_wf(holes@),
            addr > 0,
            0 <= i <= holes@.len(),
            size >= min_hole_size(),
            addr + size <= usize::MAX,
            disjoint(holes@, addr as int, size as int),
            i > 0 ==> holes@[i - 1].addr + holes@[i - 1].size <= addr,
            forall|j: int| 0 <= j < i ==> (#[trigger] holes@[j]).addr + holes@[j].size <= addr,
            forall|x: int|
                #![trigger covered(holes@, x)]
                #![trigger covered(old(holes)@, x)]
                covered(holes@, x) || (addr <= x < addr + size) <==> covered(old(holes)@, x) || (addr <= x
                    < addr + size0),
        ensures
            holes_wf(holes@),
            forall|x: int| #[trigger] covered(holes@, x) <==> covered(old(holes)@, x) || (addr <= x < addr + size0),
        decreases holes@.len() - i,
    {
        let ghost h = holes@;
        let (hole_addr, hole_size) = if i == 0 {
            (0usize, 0usize)
        } else {
            (holes[i - 1].addr, holes[i - 1].size)
        };
        let hole_end = hole_addr + hole_size;
        if i < holes.len() {
            let next = holes[i];
            if hole_end == addr && addr + size == next.addr {
                // the block fills the gap between this hole and the next one
                let merged = Hole { addr: hole_addr, size: hole_size + size + next.size };
                holes.set(i - 1, merged);
                holes.remove(i);
                proof {
                    let u = h.update(i - 1, merged);
                    lemma_covered_update(h, i - 1, merged);
                    lemma_covered_remove(h, i - 1);
                    lemma_covered_remove(h, i as int);
                    lemma_covered_remove(u, i as int);
                    assert(u.remove(i as int) == holes@);
                    assert(h.remove(i - 1).remove(i - 1) =~= h.remove(i as int).remove(i - 1));
                    lemma_covered_remove(h.remove(i as int), i - 1);
                    assert(h.remove(i as int)[i - 1] == h[i - 1]);
                    assert(u.remove(i as int) =~= h.remove(i as int).update(i - 1, merged));
                    lemma_covered_update(h.remove(i as int), i - 1, merged);
                    assert forall|x: int| #[trigger] covered(holes@, x) <==> covered(h, x) || (addr <= x < addr + size) by {
                        assert(h.remove(i as int).remove(i - 1) =~= h.remove(i - 1).remove(i - 1));
                        lemma_covered_remove(h.remove(i - 1), i - 1);
                        assert(h.remove(i - 1)[i - 1] == h[i as int]);
                    }
                    lemma_wf_merge(h, i - 1, merged);
                }
                break;
            }
        }
        if hole_end == addr {
            // the block lies right behind this hole
            let merged = Hole { addr: hole_addr, size: hole_size + size };
            holes.set(i - 1, merged);
            proof {
                lemma_covered_update(h, i - 1, merged);
                lemma_covered_remove(h, i - 1);
                lemma_wf_grow(h, i - 1, merged);
                assert(holes@ == h.update(i - 1, merged));
                assert forall|x: int| #[trigger] covered(holes@, x) <==> covered(old(holes)@, x) || (addr <= x
                    < addr + size0) by {
                    assert(covered(h.update(i - 1, merged), x) <==> covered(h.remove(i - 1), x) || in_hole(merged, x));
                    assert(covered(h, x) <==> covered(h.remove(i - 1), x) || in_hole(h[i - 1], x));
                }
            }
            break;
        }
        if i < holes.len() {
            let next = holes[i];
            if addr + size == next.addr {
                // the block lies right before the next hole: take that hole into
                // the block and go on
                holes.remove(i);
                size = size + next.size;
                proof {
                    lemma_covered_remove(h, i as int);
                    lemma_wf_remove(h, i as int);
                    assert forall|j: int| 0 <= j < holes@.len() implies (#[trigger] holes@[j]).addr + holes@[j].size
                        <= addr || addr + size <= holes@[j].addr by {
                        if j < i {
                            assert(holes@[j] == h[j]);
                        } else {
                            assert(holes@[j] == h[j + 1]);
                        }
                    }
                    assert forall|j: int| 0 <= j < i implies (#[trigger] holes@[j]).addr + holes@[j].size <= addr by {
                        assert(holes@[j] == h[j]);
                    }
                }
                continue;
            }
            if next.addr <= addr {
                // the block lies behind the next hole
                i = i + 1;
                continue;
            }
        }
        // the block lies between this hole and the next one
        let new_hole = Hole { addr, size };
        holes.insert(i, new_hole);
        proof {
            lemma_covered_insert(h, i as int, new_hole);
            lemma_wf_insert(h, i as int, new_hole);
        }
        break;
    }
}

/// Growing hole `i` up to the start of the next hole's successor, or into a
/// gap, keeps the list well-formed when the result still ends before the
/// following hole.
proof fn lemma_wf_grow(holes: Seq<Hole>, i: int, hole: Hole)
    requires
        holes_wf(holes),
        0 <= i < holes.len(),
        hole.addr == holes[i].addr,
        hole.size >= holes[i].size,
        hole.addr + hole.size <= usize::MAX,
        i + 1 < holes.len() ==> hole.addr + hole.size < holes[i + 1].addr,
    ensures
        holes_wf(holes.update(i, hole)),
{
    let u = holes.update(i, hole);
    assert forall|a: int, b: int| 0 <= a < b < u.len() implies (#[trigger] u[a]).addr + u[a].size < (#[trigger] u[b]).addr by {
        if a == i {
            if b > i + 1 {
                assert(holes[i + 1].addr < holes[i + 1].addr + holes[i + 1].size);
                assert(holes[i + 1].addr + holes[i + 1].size < holes[b].addr);
            }
        } else if b == i {
            assert(holes[a].addr + holes[a].size < holes[i].addr);
        }
    }
}

/// Merging hole `i` with the block behind it and with hole `i + 1` keeps the
/// list well-formed.
proof fn lemma_wf_merge(holes: Seq<Hole>, i: int, hole: Hole)
    requires
        holes_wf(holes),
        0 <= i < holes.len() - 1,
        hole.addr == holes[i].addr,
        hole.addr + hole.size == holes[i + 1].addr + holes[i + 1].size,
    ensures
        holes_wf(holes.update(i, hole).remove(i + 1)),
{
    let u = holes.update(i, hole);
    let r = u.remove(i + 1);
    assert forall|a: int, b: int| 0 <= a < b < r.len() implies (#[trigger] r[a]).addr + r[a].size < (#[trigger] r[b]).addr by {
        let oa = if a <= i { a } else { a + 1 };
        let ob = if b <= i { b } else { b + 1 };
        if b == i {
            assert(r[a] == holes[a]);
            assert(holes[a].addr + holes[a].size < holes[i].addr);
        } else {
            assert(r[b] == holes[ob]);
            if a == i {
                assert(holes[i + 1].addr + holes[i + 1].size < holes[ob].addr);
            } else {
                assert(r[a] == holes[oa]);
            }
        }
    }
    assert forall|a: int| 0 <= a < r.len() implies {
        &&& (#[trigger] r[a]).addr > 0
        &&& r[a].size >= min_hole_size()
        &&& r[a].addr + r[a].size <= usize::MAX
    } by {
        if a != i {
            let oa = if a < i { a } else { a + 1 };
            assert(r[a] == holes[oa]);
        } else {
            assert(holes[i + 1].addr > holes[i].addr + holes[i].size);
        }
    }
}

/// Inserting a hole into the gap between holes `i - 1` and `i` keeps the
/// list well-formed.
proof fn lemma_wf_insert(holes: Seq<Hole>, i: int, hole: Hole)
    requires
        holes_wf(holes),
        0 <= i <= holes.len(),
        hole.addr > 0,
        hole.size >= min_hole_size(),
        hole.addr + hole.size <= usize::MAX,
        i > 0 ==> holes[i - 1].addr + holes[i - 1].size < hole.addr,
        i < holes.len() ==> hole.addr + hole.size < holes[i].addr,
    ensures
        holes_wf(holes.insert(i, hole)),
{
    let n = holes.insert(i, hole);
    assert forall|a: int, b: int| 0 <= a < b < n.len() implies (#[trigger] n[a]).addr + n[a].size < (#[trigger] n[b]).addr by {
        if a < i && b < i {
            assert(n[a] == holes[a] && n[b] == holes[b]);
        } else if a < i && b == i {
            assert(n[a] == holes[a]);
            if a < i - 1 {
                assert(holes[i - 1].addr < holes[i - 1].addr + holes[i - 1].size);
            }
        } else if a < i {
            assert(n[a] == holes[a] && n[b] == holes[b - 1]);
        } else if a == i {
            assert(n[b] == holes[b - 1]);
            if b - 1 > i {
                assert(holes[i].addr < holes[i].addr + holes[i].size);
            }
        } else {
            assert(n[a] == holes[a - 1] && n[b] == holes[b - 1]);
        }
    }
    assert forall|a: int| 0 <= a < n.len() implies {
        &&& (#[trigger] n[a]).addr > 0
        &&& n[a].size >= min_hole_size()
        &&& n[a].addr + n[a].size <= usize::MAX
    } by {
        if a < i {
            assert(n[a] == holes[a]);
        } else if a > i {
            assert(n[a] == holes[a - 1]);
        }
    }
}

/// An allocation request that no hole can serve.
#[derive(Debug, Clone, Copy, PartialEq, Eq, Structural)]
pub struct AllocErr;

/// A sorted list of holes.
pub struct HoleList {
    holes: Vec<Hole>,
}

/// The hole an allocation of `layout` is taken from: the first that fits.
pub open spec fn fit_hole(holes: Seq<Hole>, layout: Layout) -> HoleInfo {
    holes[first_fit(holes, layout)].info_spec()
}

/// When some hole fits, the first fitting hole exists.
proof fn lemma_first_fit_exists(holes: Seq<Hole>, layout: Layout, i: int)
    requires
        0 <= i < holes.len(),
        split_fits(holes[i].info_spec(), layout),
    ensures
        first_fit_at(holes, layout, first_fit(holes, layout)),
    decreases i,
{
    if exists|j: int| 0 <= j < i && split_fits((#[trigger] holes[j]).info_spec(), layout) {
        let j = choose|j: int| 0 <= j < i && split_fits((#[trigger] holes[j]).info_spec(), layout);
        lemma_first_fit_exists(holes, layout, j);
    } else {
        assert(first_fit_at(holes, layout, i));
    }
}

/// How an allocation of `layout` splits the first hole it fits in, as seen
/// in the free addresses it leaves (`after`): the block handed out starts at
/// an address aligned to the request, lies within that hole and is taken;
/// the part of the hole before it stays free; the part behind it stays free
/// when it holds at least `min_hole_size()` bytes, whether or not the hole
/// needed front padding, and is taken with the block otherwise.
pub proof fn lemma_allocation_split(before: Seq<Hole>, after: Seq<Hole>, layout: Layout)
    requires
        layout.align() >= 1,
        any_fit(before, layout),
        forall|x: int|
            #[trigger] covered(after, x) <==> covered(before, x) && !(split_addr(fit_hole(before, layout), layout) <= x
                < split_end(fit_hole(before, layout), layout)),
    ensures
        ({
            let h = fit_hole(before, layout);
            let a = split_addr(h, layout);
            let e = a + layout.size();
            &&& h.addr <= a
            &&& e <= h.addr + h.size
            &&& a % (layout.align() as int) == 0
            &&& forall|x: int| a <= x < e ==> !#[trigger] covered(after, x)
            &&& forall|x: int| h.addr <= x < a ==> #[trigger] covered(after, x)
            &&& h.addr + h.size - e >= min_hole_size() ==> forall|x: int|
                e <= x < h.addr + h.size ==> #[trigger] covered(after, x)
            &&& h.addr + h.size - e < min_hole_size() ==> forall|x: int|
                e <= x < h.addr + h.size ==> !#[trigger] covered(after, x)
        }),
{
    let i0 = choose|i: int| 0 <= i < before.len() && split_fits((#[trigger] before[i]).info_spec(), layout);
    lemma_first_fit_exists(before, layout, i0);
    let i = first_fit(before, layout);
    let h = fit_hole(before, layout);
    let a = split_addr(h, layout);
    let e = a + layout.size();
    lemma_align_up(h.addr as int, layout.align() as int);
    lemma_align_up(h.addr + min_hole_size(), layout.align() as int);
    assert forall|x: int| h.addr <= x < h.addr + h.size implies covered(before, x) by {
        assert(in_hole(before[i], x));
    }
}

/// An allocation of `layout` from `before` that leaves the holes `mid`, then
/// its deallocation with the same layout that leaves `after`: the block
/// handed out shares no address with the holes left, and deallocating it
/// gives every address back but a remainder behind the block too small to
/// be a hole of its own, which went with the allocation and stays taken.
pub proof fn lemma_allocate_then_deallocate(before: Seq<Hole>, mid: Seq<Hole>, after: Seq<Hole>, layout: Layout)
    requires
        layout.align() >= 1,
        layout.size() >= min_hole_size(),
        holes_wf(mid),
        any_fit(before, layout),
        forall|x: int|
            #[trigger] covered(mid, x) <==> covered(before, x) && !(split_addr(fit_hole(before, layout), layout) <= x
                < split_end(fit_hole(before, layout), layout)),
        forall|x: int|
            #[trigger] covered(after, x) <==> covered(mid, x) || (split_addr(fit_hole(before, layout), layout) <= x
                < split_addr(fit_hole(before, layout), layout) + layout.size()),
    ensures
        disjoint(mid, split_addr(fit_hole(before, layout), layout), layout.size() as int),
        forall|x: int|
            #[trigger] covered(after, x) <==> covered(before, x) && !(split_addr(fit_hole(before, layout), layout)
                + layout.size() <= x < split_end(fit_hole(before, layout), layout)),
{
    let i0 = choose|i: int| 0 <= i < before.len() && split_fits((#[trigger] before[i]).info_spec(), layout);
    lemma_first_fit_exists(before, layout, i0);
    let i = first_fit(before, layout);
    let hole = fit_hole(before, layout);
    let a = split_addr(hole, layout);
    let e = split_end(hole, layout);
    let sz = layout.size() as int;
    lemma_align_up(hole.addr as int, layout.align() as int);
    lemma_align_up(hole.addr + min_hole_size(), layout.align() as int);
    assert(hole.addr <= a);
    assert(a + sz <= e <= hole.addr + hole.size);
    assert forall|j: int| 0 <= j < mid.len() implies (#[trigger] mid[j]).addr + mid[j].size <= a || a + sz
        <= mid[j].addr by {
        if !(mid[j].addr + mid[j].size <= a || a + sz <= mid[j].addr) {
            let x = if mid[j].addr <= a { a } else { mid[j].addr as int };
            assert(mid[j].size >= min_hole_size());
            assert(in_hole(mid[j], x));
            assert(covered(mid, x));
        }
    }
    assert forall|x: int| #[trigger] covered(after, x) <==> covered(before, x) && !(a + sz <= x < e) by {
        if a <= x < a + sz {
            assert(in_hole(before[i], x));
            assert(covered(before, x));
        }
    }
}

impl View for HoleList {
    type V = Seq<Hole>;

    /// The holes, by address.
    closed spec fn view(&self) -> Seq<Hole> {
        self.holes@
    }
}

impl HoleList {
    /// Well-formedness of the hole list.
    pub open spec fn wf(&self) -> bool {
        holes_wf(self@)
    }

    /// A list without holes.
    pub fn empty() -> (r: HoleList)
        ensures
            r.wf(),
            r@ == Seq::<Hole>::empty(),
    {
        HoleList { holes: Vec::new() }
    }

    /// A list of the one hole `[hole_addr, hole_addr + hole_size)`.
    pub fn new(hole_addr: usize, hole_size: usize) -> (r: HoleList)
        requires
            hole_addr > 0,
            hole_size >= min_hole_size(),
            hole_addr + hole_size <= usize::MAX,
        ensures
            r.wf(),
            r@ == seq![Hole { addr: hole_addr, size: hole_size }],
    {
        let mut holes = Vec::new();
        holes.push(Hole { addr: hole_addr, size: hole_size });
        HoleList { holes }
    }

    /// The smallest allocation or deallocation: two machine words.
    pub fn min_size() -> (r: usize)
        ensures
            r == min_hole_size(),
    {
        core::mem::size_of::<usize>() * 2
    }

    /// Allocates `layout` from the first hole it fits in and returns its
    /// address. The part of that hole before the aligned address, and a
    /// remainder behind the allocation of at least `min_hole_size()` bytes,
    /// stay free; a smaller remainder goes with the allocation.
    pub fn allocate_first_fit(&mut self, layout: Layout) -> (r: Result<usize, AllocErr>)
        requires
            old(self).wf(),
            layout.size() >= min_hole_size(),
        ensures
            final(self).wf(),
            !any_fit(old(self)@, layout) ==> r is Err && final(self)@ == old(self)@,
            any_fit(old(self)@, layout) ==> {
                let hole = old(self)@[first_fit(old(self)@, layout)].info_spec();
                &&& first_fit_at(old(self)@, layout, first_fit(old(self)@, layout))
                &&& r == Ok::<usize, AllocErr>(split_addr(hole, layout) as usize)
                &&& forall|x: int| #[trigger] covered(final(self)@, x) <==> covered(old(self)@, x) && !(
                split_addr(hole, layout) <= x < split_end(hole, layout))
            },
    {
        let ghost h = self.holes@;
        let align = layout.align();
        match allocate_first_fit(&mut self.holes, layout) {
            Ok(allocation) => {
                let ghost i = first_fit(h, layout);
                let ghost hole = h[i];
                proof {
                    lemma_align_up(hole.addr as int, layout.align() as int);
                    lemma_align_up(hole.addr + min_hole_size(), layout.align() as int);
                    lemma_covered_remove(h, i);
                    lemma_wf_remove(h, i);
                    assert forall|j: int| 0 <= j < self.holes@.len() implies (#[trigger] self.holes@[j]).addr
                        + self.holes@[j].size < hole.addr || hole.addr + hole.size < self.holes@[j].addr by {
                        if j < i {
                            assert(self.holes@[j] == h[j]);
                        } else {
                            assert(self.holes@[j] == h[j + 1]);
                        }
                    }
                }
                let ghost after_take = self.holes@;
                if let Some(padding) = allocation.front_padding {
                    deallocate(&mut self.holes, padding.addr, padding.size);
                }
                let ghost after_front = self.holes@;
                if let Some(padding) = allocation.back_padding {
                    proof {
                        assert forall|j: int| 0 <= j < self.holes@.len() implies (#[trigger] self.holes@[j]).addr
                            + self.holes@[j].size <= padding.addr || padding.addr + padding.size <= self.holes@[j].addr by {
                            let x = self.holes@[j].addr as int;
                            assert(in_hole(self.holes@[j], x));
                            assert(covered(self.holes@, x));
                            if !(self.holes@[j].addr + self.holes@[j].size <= padding.addr || padding.addr
                                + padding.size <= self.holes@[j].addr) {
                                let y = if self.holes@[j].addr <= padding.addr {
                                    padding.addr as int
                                } else {
                                    x
                                };
                                assert(in_hole(self.holes@[j], y));
                                assert(covered(self.holes@, y));
                            }
                        }
                    }
                    deallocate(&mut self.holes, padding.addr, padding.size);
                }
                Ok(allocation.info.addr)
            },
            Err(e) => Err(e),
        }
    }

    /// Whether the block `[addr, addr + size)` shares no address with any
    /// hole.
    pub fn is_disjoint(&self, addr: usize, size: usize) -> (r: bool)
        ensures
            r == disjoint(self@, addr as int, size as int),
    {
        let mut i: usize = 0;
        while i < self.holes.len()
            invariant
                i <= self.holes@.len(),
                forall|j: int|
                    0 <= j < i ==> (#[trigger] self.holes@[j]).addr + self.holes@[j].size <= addr || addr + size
                        <= self.holes@[j].addr,
            decreases self.holes@.len() - i,
        {
            let h = self.holes[i];
            if !(h.addr as u128 + h.size as u128 <= addr as u128 || addr as u128 + size as u128 <= h.addr as u128) {
                return false;
            }
            i = i + 1;
        }
        true
    }

    /// Returns the block `[ptr, ptr + layout.size())` to the holes.
    pub fn deallocate(&mut self, ptr: usize, layout: Layout)
        requires
            old(self).wf(),
            ptr > 0,
            layout.size() >= min_hole_size(),
            ptr + layout.size() <= usize::MAX,
            disjoint(old(self)@, ptr as int, layout.size() as int),
        ensures
            final(self).wf(),
            forall|x: int| #[trigger] covered(final(self)@, x) <==> covered(old(self)@, x) || (ptr <= x < ptr
                + layout.size()),
    {
        deallocate(&mut self.holes, ptr, layout.size())
    }
}

} // verus!
