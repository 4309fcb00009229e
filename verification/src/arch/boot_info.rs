//! What the boot loader leaves for the kernel about the machine.
use vstd::prelude::*;

verus! {

/// Where the boot loader leaves its information.
pub const ADR_BOOTINFO: u32 = 0x00000ff0;

/// The boot loader's information.
#[derive(Clone, Copy, Debug)]
pub struct BootInfo {
    /// How far the boot sector read the disk.
    pub cyls: u32,
    /// The keyboard LEDs at boot.
    pub leds: u32,
    /// Bits per pixel of the video mode.
    pub vmode: u32,
    /// Screen width in pixels.
    pub scrnx: u16,
    /// Screen height in pixels.
    pub scrny: u16,
    /// Address of the frame buffer.
    pub vram: u32,
}

impl BootInfo {
    /// The information as read from memory.
    pub fn new(cyls: u32, leds: u32, vmode: u32, scrnx: u16, scrny: u16, vram: u32) -> (r: Self)
        ensures
            r.cyls == cyls,
            r.leds == leds,
            r.vmode == vmode,
            r.scrnx == scrnx,
            r.scrny == scrny,
            r.vram == vram,
    {
        BootInfo { cyls, leds, vmode, scrnx, scrny, vram }
    }
}

} // verus!
