//! The segment descriptor table (GDT) and the interrupt descriptor table
//! (IDT): the encoding of their entries and the entries the kernel installs.
use vstd::prelude::*;

verus! {

/// Where the GDT lives.
pub const ADR_GDT: u32 = 0x00270000;
/// Bytes of the GDT, less one.
pub const LIMIT_GDT: usize = 0x0000ffff;
/// Where the kernel's code lies.
pub const ADR_OSPAK: u32 = 0x00280000;
/// Bytes of the kernel's code, less one.
pub const LIMIT_OSPAK: u32 = 0x0007ffff;
/// Access rights of a 32-bit read-write data segment.
pub const AR_DATA32_RW: u32 = 0x4092;
/// Access rights of a 32-bit execute-read code segment.
pub const AR_CODE32_ER: u32 = 0x409a;
/// Where the IDT lives.
pub const ADR_IDT: u32 = 0x0026f800;
/// Bytes of the IDT, less one.
pub const LIMIT_IDT: usize = 0x000007ff;
/// Access rights of a 32-bit interrupt gate.
pub const AR_INTGATE32: u32 = 0x008e;
/// Number of GDT entries.
pub const GDT_ENTRIES: usize = LIMIT_GDT / 8;
/// Number of IDT entries.
pub const IDT_ENTRIES: usize = LIMIT_IDT / 8;

/// A segment descriptor as the processor reads it.
#[derive(Clone, Copy, Debug, PartialEq, Eq, Structural)]
pub struct SegmentDescriptorEntry {
    pub limit_low: u16,
    pub base_low: u16,
    pub base_mid: u8,
    pub access_right: u8,
    pub limit_high: u8,
    pub base_high: u8,
}

/// A gate descriptor as the processor reads it.
#[derive(Clone, Copy, Debug, PartialEq, Eq, Structural)]
pub struct GateDescriptorEntry {
    pub offset_low: u16,
    pub selector: u16,
    pub dw_count: u8,
    pub access_right: u8,
    pub offset_high: u16,
}

/// The limit a segment descriptor holds: a limit above 20 bits is counted
/// in 4 KiB pages.
pub open spec fn stored_limit(limit: u32) -> u32 {
    if limit > 0xfffff {
        limit / 0x1000
    } else {
        limit
    }
}

/// The access rights a segment descriptor holds: a limit above 20 bits sets
/// the granularity bit.
pub open spec fn stored_ar(limit: u32, ar: u32) -> u32 {
    if limit > 0xfffff {
        ar | 0x8000
    } else {
        ar
    }
}

/// The segment descriptor of `limit`, `base` and `ar`, field by field.
pub open spec fn segment_entry(limit: u32, base: u32, ar: u32) -> SegmentDescriptorEntry {
    let l = stored_limit(limit);
    let a = stored_ar(limit, ar);
    SegmentDescriptorEntry {
        limit_low: (l & 0xffff) as u16,
        base_low: (base & 0xffff) as u16,
        base_mid: ((base >> 16) & 0xff) as u8,
        access_right: (a & 0xff) as u8,
        limit_high: (((l >> 16) & 0xff) | ((a >> 8) & 0xf0)) as u8,
        base_high: ((base >> 24) & 0xff) as u8,
    }
}

/// An IDT entry built from `offset`, `selector` and `ar`, field by field.
pub open spec fn gate_entry(offset: u32, selector: u16, ar: u32) -> GateDescriptorEntry {
    GateDescriptorEntry {
        offset_low: (offset & 0xffff) as u16,
        selector: selector,
        dw_count: ((ar >> 8) & 0xff) as u8,
        access_right: (ar & 0xff) as u8,
        offset_high: ((offset >> 16) & 0xffff) as u16,
    }
}

/// The GDT entries the kernel installs: entry 1 a flat 4 GiB data segment,
/// entry 2 the kernel's code; no other entry is written.
pub open spec fn gdt_entries() -> Seq<Option<SegmentDescriptorEntry>> {
    Seq::new(
        GDT_ENTRIES as nat,
        |i: int|
            if i == 1 {
                Some(segment_entry(0xffffffff, 0x00000000, AR_DATA32_RW))
            } else if i == 2 {
                Some(segment_entry(LIMIT_OSPAK, ADR_OSPAK, AR_CODE32_ER))
            } else {
                None
            },
    )
}

/// The IDT entries the kernel installs: empty gates, but for the keyboard
/// (0x21), the spurious interrupt of the first PIC (0x27) and the mouse
/// (0x2c), whose handlers are at `h21`, `h27` and `h2c`.
pub open spec fn idt_entries(h21: u32, h27: u32, h2c: u32) -> Seq<GateDescriptorEntry> {
    Seq::new(
        IDT_ENTRIES as nat,
        |i: int|
            if i == 0x21 {
                gate_entry(h21, 16u16, AR_INTGATE32)
            } else if i == 0x27 {
                gate_entry(h27, 16u16, AR_INTGATE32)
            } else if i == 0x2c {
                gate_entry(h2c, 16u16, AR_INTGATE32)
            } else {
                gate_entry(0, 0, 0)
            },
    )
}

/// The eight bytes of a segment descriptor as it lies in memory, each
/// field little endian in field order.
pub open spec fn segment_bytes(e: SegmentDescriptorEntry) -> Seq<u8> {
    seq![
        e.limit_low as u8,
        (e.limit_low >> 8u16) as u8,
        e.base_low as u8,
        (e.base_low >> 8u16) as u8,
        e.base_mid,
        e.access_right,
        e.limit_high,
        e.base_high,
    ]
}

/// The eight bytes of a gate descriptor as it lies in memory, each field
/// little endian in field order.
pub open spec fn gate_bytes(e: GateDescriptorEntry) -> Seq<u8> {
    seq![
        e.offset_low as u8,
        (e.offset_low >> 8u16) as u8,
        e.selector as u8,
        (e.selector >> 8u16) as u8,
        e.dw_count,
        e.access_right,
        e.offset_high as u8,
        (e.offset_high >> 8u16) as u8,
    ]
}

impl SegmentDescriptorEntry {
    /// The descriptor's bytes as they lie in memory.
    pub fn to_bytes(&self) -> (r: [u8; 8])
        ensures
            r@ == segment_bytes(*self),
    {
        let r = [
            self.limit_low as u8,
            (self.limit_low >> 8) as u8,
            self.base_low as u8,
            (self.base_low >> 8) as u8,
            self.base_mid,
            self.access_right,
            self.limit_high,
            self.base_high,
        ];
        assert(r@ =~= segment_bytes(*self));
        r
    }
}

impl GateDescriptorEntry {
    /// The descriptor's bytes as they lie in memory.
    pub fn to_bytes(&self) -> (r: [u8; 8])
        ensures
            r@ == gate_bytes(*self),
    {
        let r = [
            self.offset_low as u8,
            (self.offset_low >> 8) as u8,
            self.selector as u8,
            (self.selector >> 8) as u8,
            self.dw_count,
            self.access_right,
            self.offset_high as u8,
            (self.offset_high >> 8) as u8,
        ];
        assert(r@ =~= gate_bytes(*self));
        r
    }
}

/// Eight bytes to write at `addr`.
#[derive(Clone, Copy, Debug)]
pub struct DescriptorWrite {
    pub addr: u32,
    pub bytes: [u8; 8],
}

/// The descriptor tables.
pub struct DscTbl {
    pub segment_descriptor_table: Vec<Option<SegmentDescriptorEntry>>,
    pub gate_descriptor_table: Vec<GateDescriptorEntry>,
}

impl DscTbl {
    /// The tables the kernel installs, with the handlers at `h21`, `h27` and
    /// `h2c`.
    fn new(h21: u32, h27: u32, h2c: u32) -> (r: Self)
        ensures
            r.segment_descriptor_table@ == gdt_entries(),
            r.gate_descriptor_table@ == idt_entries(h21, h27, h2c),
    {
        DscTbl { segment_descriptor_table: DscTbl::init_gdt(), gate_descriptor_table: DscTbl::init_idt(h21, h27, h2c) }
    }

    /// The tables the kernel installs, with the handlers at `h21`, `h27` and
    /// `h2c`.
    pub fn init_gdt_idt(h21: u32, h27: u32, h2c: u32) -> (r: Self)
        ensures
            r.segment_descriptor_table@ == gdt_entries(),
            r.gate_descriptor_table@ == idt_entries(h21, h27, h2c),
    {
        DscTbl::new(h21, h27, h2c)
    }

    /// The GDT entries the kernel installs.
    pub fn init_gdt() -> (r: Vec<Option<SegmentDescriptorEntry>>)
        ensures
            r@ == gdt_entries(),
    {
        let mut table: Vec<Option<SegmentDescriptorEntry>> = Vec::new();
        let mut i: usize = 0;
        while i < GDT_ENTRIES
            invariant
                i <= GDT_ENTRIES,
                table@ == Seq::new(i as nat, |k: int| None::<SegmentDescriptorEntry>),
            decreases GDT_ENTRIES - i,
        {
            table.push(None);
            i = i + 1;
            assert(table@ =~= Seq::new(i as nat, |k: int| None::<SegmentDescriptorEntry>));
        }
        table.set(1, Some(DscTbl::set_segmdesc(1, 0xffffffff, 0x00000000, AR_DATA32_RW)));
        table.set(2, Some(DscTbl::set_segmdesc(2, LIMIT_OSPAK, ADR_OSPAK, AR_CODE32_ER)));
        assert(table@ =~= gdt_entries());
        table
    }

    /// The address of GDT entry `idx`.
    pub fn segment_address(idx: u32) -> (r: u32)
        requires
            idx < GDT_ENTRIES,
        ensures
            r == ADR_GDT + idx * 8,
    {
        ADR_GDT + (idx * 8)
    }

    /// The segment descriptor of `limit`, `base` and `ar`; a limit above 20
    /// bits is stored in pages and sets the granularity bit.
    pub fn set_segmdesc(idx: u32, limit: u32, base: u32, ar: u32) -> (r: SegmentDescriptorEntry)
        ensures
            r == segment_entry(limit, base, ar),
    {
        let mut limit = limit;
        let mut ar = ar;
        if limit > 0xfffff {
            ar = ar | 0x8000;
            limit = limit / 0x1000;
        }
        SegmentDescriptorEntry {
            limit_low: (limit & 0xffff) as u16,
            base_low: (base & 0xffff) as u16,
            base_mid: ((base >> 16) & 0xff) as u8,
            access_right: (ar & 0xff) as u8,
            limit_high: (((limit >> 16) & 0xff) | ((ar >> 8) & 0xf0)) as u8,
            base_high: ((base >> 24) & 0xff) as u8,
        }
    }

    /// The IDT entries the kernel installs.
    pub fn init_idt(h21: u32, h27: u32, h2c: u32) -> (r: Vec<GateDescriptorEntry>)
        ensures
            r@ == idt_entries(h21, h27, h2c),
    {
        let mut table: Vec<GateDescriptorEntry> = Vec::new();
        let mut i: usize = 0;
        while i < IDT_ENTRIES
            invariant
                i <= IDT_ENTRIES,
                table@ == Seq::new(i as nat, |k: int| gate_entry(0, 0, 0)),
            decreases IDT_ENTRIES - i,
        {
            table.push(DscTbl::set_gatedesc(i as u32, 0, 0, 0));
            i = i + 1;
            assert(table@ =~= Seq::new(i as nat, |k: int| gate_entry(0, 0, 0)));
        }
        table.set(0x21, DscTbl::set_fn_gatedesc(0x21, h21, 2 * 8, AR_INTGATE32));
        table.set(0x27, DscTbl::set_fn_gatedesc(0x27, h27, 2 * 8, AR_INTGATE32));
        table.set(0x2c, DscTbl::set_fn_gatedesc(0x2c, h2c, 2 * 8, AR_INTGATE32));
        assert(table@ =~= idt_entries(h21, h27, h2c));
        table
    }

    /// What the GDT puts in memory: for each entry that is set, its bytes at
    /// its address; nothing for the others.
    pub fn gdt_writes(&self) -> (r: Vec<Option<DescriptorWrite>>)
        requires
            self.segment_descriptor_table@.len() <= GDT_ENTRIES,
        ensures
            r@.len() == self.segment_descriptor_table@.len(),
            forall|i: int|
                0 <= i < r@.len() ==> match self.segment_descriptor_table@[i] {
                    Some(e) => #[trigger] r@[i] matches Some(w) && w.addr == ADR_GDT + i * 8 && w.bytes@
                        == segment_bytes(e),
                    None => r@[i] is None,
                },
    {
        let mut v: Vec<Option<DescriptorWrite>> = Vec::new();
        let mut i: usize = 0;
        while i < self.segment_descriptor_table.len()
            invariant
                i <= self.segment_descriptor_table@.len() <= GDT_ENTRIES,
                v@.len() == i,
                forall|k: int|
                    0 <= k < i ==> match self.segment_descriptor_table@[k] {
                        Some(e) => #[trigger] v@[k] matches Some(w) && w.addr == ADR_GDT + k * 8 && w.bytes@
                            == segment_bytes(e),
                        None => v@[k] is None,
                    },
            decreases self.segment_descriptor_table@.len() - i,
        {
            match self.segment_descriptor_table[i] {
                Some(e) => {
                    v.push(Some(DescriptorWrite { addr: DscTbl::segment_address(i as u32), bytes: e.to_bytes() }));
                },
                None => {
                    v.push(None);
                },
            }
            i = i + 1;
        }
        v
    }

    /// What the IDT puts in memory: each entry's bytes at its address.
    pub fn idt_writes(&self) -> (r: Vec<DescriptorWrite>)
        requires
            self.gate_descriptor_table@.len() <= IDT_ENTRIES,
        ensures
            r@.len() == self.gate_descriptor_table@.len(),
            forall|i: int|
                0 <= i < r@.len() ==> #[trigger] r@[i].addr == ADR_IDT + i * 8 && r@[i].bytes@ == gate_bytes(
                    self.gate_descriptor_table@[i],
                ),
    {
        let mut v: Vec<DescriptorWrite> = Vec::new();
        let mut i: usize = 0;
        while i < self.gate_descriptor_table.len()
            invariant
                i <= self.gate_descriptor_table@.len() <= IDT_ENTRIES,
                v@.len() == i,
                forall|k: int|
                    0 <= k < i ==> #[trigger] v@[k].addr == ADR_IDT + k * 8 && v@[k].bytes@ == gate_bytes(
                        self.gate_descriptor_table@[k],
                    ),
            decreases self.gate_descriptor_table@.len() - i,
        {
            let e = self.gate_descriptor_table[i];
            v.push(DescriptorWrite { addr: DscTbl::gate_address(i as u32), bytes: e.to_bytes() });
            i = i + 1;
        }
        v
    }

    /// The limit and address loaded into GDTR.
    pub fn gdtr() -> (r: (u32, u32))
        ensures
            r == (LIMIT_GDT as u32, ADR_GDT),
    {
        (LIMIT_GDT as u32, ADR_GDT)
    }

    /// The limit and address loaded into IDTR.
    pub fn idtr() -> (r: (u32, u32))
        ensures
            r == (LIMIT_IDT as u32, ADR_IDT),
    {
        (LIMIT_IDT as u32, ADR_IDT)
    }

    /// The address of IDT entry `idx`.
    pub fn gate_address(idx: u32) -> (r: u32)
        requires
            idx < IDT_ENTRIES,
        ensures
            r == ADR_IDT + idx * 8,
    {
        ADR_IDT + (idx * 8)
    }

    /// The IDT entry for `offset`, `selector` and `ar`.
    pub fn set_gatedesc(idx: u32, offset: u32, selector: u16, ar: u32) -> (r: GateDescriptorEntry)
        ensures
            r == gate_entry(offset, selector, ar),
    {
        GateDescriptorEntry {
            offset_low: (offset & 0xffff) as u16,
            selector: selector,
            dw_count: ((ar >> 8) & 0xff) as u8,
            access_right: (ar & 0xff) as u8,
            offset_high: ((offset >> 16) & 0xffff) as u16,
        }
    }

    /// The IDT entry for the handler at address `func`.
    pub fn set_fn_gatedesc(idx: u32, func: u32, selector: u16, ar: u32) -> (r: GateDescriptorEntry)
        ensures
            r == gate_entry(func, selector, ar),
    {
        let offset: u32 = func;
        DscTbl::set_gatedesc(idx, offset, selector, ar)
    }
}

/// A segment descriptor holds its base, its stored limit in 20 bits, and
/// the upper nibble of its stored access rights.
pub proof fn lemma_segment_fields(limit: u32, base: u32, ar: u32)
    ensures
        ({
            let e = segment_entry(limit, base, ar);
            &&& (e.base_low as u32) | ((e.base_mid as u32) << 16) | ((e.base_high as u32) << 24) == base
            &&& (e.limit_low as u32) | (((e.limit_high & 0x0f) as u32) << 16) == stored_limit(limit)
            &&& (e.limit_high >> 4) as u32 == (stored_ar(limit, ar) >> 12) & 0x0f
            &&& e.access_right as u32 == stored_ar(limit, ar) & 0xff
        }),
{
    let l = stored_limit(limit);
    let a = stored_ar(limit, ar);
    assert(l <= 0xfffff) by {
        if limit > 0xfffff {
            assert(limit / 0x1000 <= 0xfffff);
        }
    }
    let bl = (base & 0xffff) as u16;
    let bm = ((base >> 16) & 0xff) as u8;
    let bh = ((base >> 24) & 0xff) as u8;
    assert((bl as u32) | ((bm as u32) << 16) | ((bh as u32) << 24) == base) by (bit_vector)
        requires
            bl == (base & 0xffff) as u16,
            bm == ((base >> 16) & 0xff) as u8,
            bh == ((base >> 24) & 0xff) as u8,
    ;
    let ll = (l & 0xffff) as u16;
    let lh = (((l >> 16) & 0xff) | ((a >> 8) & 0xf0)) as u8;
    assert((ll as u32) | (((lh & 0x0f) as u32) << 16) == l && (lh >> 4) as u32 == (a >> 12) & 0x0f) by (bit_vector)
        requires
            l <= 0xfffff,
            ll == (l & 0xffff) as u16,
            lh == (((l >> 16) & 0xff) | ((a >> 8) & 0xf0)) as u8,
    ;
    let ac = (a & 0xff) as u8;
    assert(ac as u32 == a & 0xff) by (bit_vector)
        requires
            ac == (a & 0xff) as u8,
    ;
}

} // verus!
