//! The two cascaded 8259 interrupt controllers: their ports and the writes
//! that program them.
use vstd::prelude::*;
use crate::arch::port::{PortWrite, port_write};

verus! {

pub const PIC0_ICW1: i32 = 0x0020;
pub const PIC0_OCW2: i32 = 0x0020;
pub const PIC0_IMR: i32 = 0x0021;
pub const PIC0_ICW2: i32 = 0x0021;
pub const PIC0_ICW3: i32 = 0x0021;
pub const PIC0_ICW4: i32 = 0x0021;
pub const PIC1_ICW1: i32 = 0x00a0;
pub const PIC1_OCW2: i32 = 0x00a0;
pub const PIC1_IMR: i32 = 0x00a1;
pub const PIC1_ICW2: i32 = 0x00a1;
pub const PIC1_ICW3: i32 = 0x00a1;
pub const PIC1_ICW4: i32 = 0x00a1;

pub const PORT_KEYDAT: i32 = 0x0060;

/// The initialisation of both controllers: all interrupts masked, edge
/// triggered, IRQ 0-7 on INT 0x20-0x27 and IRQ 8-15 on INT 0x28-0x2f, the
/// second controller cascaded on IRQ 2, x86 mode; then only the cascade
/// line is let through.
pub open spec fn init_pic_writes() -> Seq<PortWrite> {
    seq![
        port_write(PIC0_IMR, 0xff),
        port_write(PIC1_IMR, 0xff),
        port_write(PIC0_ICW1, 0x11),
        port_write(PIC0_ICW2, 0x20),
        port_write(PIC0_ICW3, 4),
        port_write(PIC0_ICW4, 0x01),
        port_write(PIC1_ICW1, 0x11),
        port_write(PIC1_ICW2, 0x28),
        port_write(PIC1_ICW3, 2),
        port_write(PIC1_ICW4, 0x01),
        port_write(PIC0_IMR, 0xfb),
        port_write(PIC1_IMR, 0xff),
    ]
}

/// The writes that initialise the controllers, in order.
pub fn init_pic() -> (r: Vec<PortWrite>)
    ensures
        r@ == init_pic_writes(),
{
    let mut v: Vec<PortWrite> = Vec::new();
    v.push(PortWrite::new(PIC0_IMR, 0xff));
    v.push(PortWrite::new(PIC1_IMR, 0xff));
    v.push(PortWrite::new(PIC0_ICW1, 0x11));
    v.push(PortWrite::new(PIC0_ICW2, 0x20));
    let cascade: i32 = 1 << 2;
    assert(cascade == 4) by (bit_vector)
        requires
            cascade == 1i32 << 2i32;
    v.push(PortWrite::new(PIC0_ICW3, cascade));
    v.push(PortWrite::new(PIC0_ICW4, 0x01));
    v.push(PortWrite::new(PIC1_ICW1, 0x11));
    v.push(PortWrite::new(PIC1_ICW2, 0x28));
    v.push(PortWrite::new(PIC1_ICW3, 2));
    v.push(PortWrite::new(PIC1_ICW4, 0x01));
    v.push(PortWrite::new(PIC0_IMR, 0xfb));
    v.push(PortWrite::new(PIC1_IMR, 0xff));
    assert(v@ =~= init_pic_writes());
    v
}

/// The write that lets the mouse (IRQ 12) through the second controller
/// (mask 11101111).
pub fn allow_mouse_int() -> (r: PortWrite)
    ensures
        r == port_write(PIC1_IMR, 0xef),
{
    PortWrite::new(PIC1_IMR, 0xef)
}

/// The write that answers the spurious IRQ 7 the first controller may raise
/// once while it is programmed: a specific end of interrupt for IRQ 7, and
/// nothing else.
pub fn acknowledge_irq7() -> (r: PortWrite)
    ensures
        r == port_write(PIC0_OCW2, 0x67),
{
    PortWrite::new(PIC0_OCW2, 0x67)
}

} // verus!
