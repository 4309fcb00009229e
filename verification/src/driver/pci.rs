//! PCI configuration addresses, base address registers, the command and
//! status register, and the descriptors of the network card's rings.
use vstd::prelude::*;

verus! {

/// Enable bit of a configuration address.
pub const PCI_CONF_ENABLE: u32 = 0x80000000;

pub const PCI_COM_IO_EN: u32 = 0x01;
pub const PCI_COM_MEM_EN: u32 = 0x02;
pub const PCI_COM_BUS_MASTER_EN: u32 = 0x04;
pub const PCI_COM_SPECIAL_CYCLE: u32 = 0x08;
pub const PCI_COM_MEMV_INV_EN: u32 = 0x10;
pub const PCI_COM_VGA_PAL_SNP: u32 = 0x20;
pub const PCI_COM_PARITY_ERR_RES: u32 = 0x40;
pub const PCI_COM_SERR_EN: u32 = 0x100;
pub const PCI_COM_FAST_BACK2BACK_EN: u32 = 0x200;
pub const PCI_COM_INTR_DIS: u32 = 0x400;

pub const PCI_STAT_INTR: u32 = 0x08;
pub const PCI_STAT_MULT_FUNC: u32 = 0x10;
pub const PCI_STAT_66MHZ: u32 = 0x20;
pub const PCI_STAT_FAST_BACK2BACK: u32 = 0x80;
pub const PCI_STAT_DATA_PARITY_ERR: u32 = 0x100;
pub const PCI_STAT_DEVSEL_MASK: u32 = 0x600;
pub const PCI_STAT_DEVSEL_FAST: u32 = 0x000;
pub const PCI_STAT_DEVSEL_MID: u32 = 0x200;
pub const PCI_STAT_DEVSEL_LOW: u32 = 0x400;
pub const PCI_STAT_SND_TARGET_ABORT: u32 = 0x800;
pub const PCI_STAT_RCV_TARGET_ABORT: u32 = 0x1000;
pub const PCI_STAT_RCV_MASTER_ABORT: u32 = 0x2000;
pub const PCI_STAT_SYS_ERR: u32 = 0x4000;
pub const PCI_STAT_PARITY_ERR: u32 = 0x8000;

/// The configuration address port.
pub const CONFIG_ADDR: i32 = 0x0cf8;
/// The configuration data port.
pub const CONFIG_DATA: i32 = 0x0cfc;

/// Configuration register of the vendor and device ids.
pub const PCI_CONF_DID_VID: u8 = 0x00;
/// Configuration register of the command and status.
pub const PCI_CONF_STATUS_COMMAND: u8 = 0x04;
/// Configuration register of the first base address.
pub const PCI_CONF_BAR: u8 = 0x10;

/// Where the network card sits.
pub const NIC_BUS_NUM: u8 = 0x00;
pub const NIC_DEV_NUM: u8 = 0x03;
pub const NIC_FN_NUM: u8 = 0x0;

/// Registers of the network card, as offsets from its register base.
pub const NIC_REG_IMS: u16 = 0x00d0;
pub const NIC_REG_IMC: u16 = 0x00d8;
pub const NIC_REG_RCTL: u16 = 0x0100;
pub const NIC_REG_RDBAL: u16 = 0x2800;
pub const NIC_REG_RDBAH: u16 = 0x2804;
pub const NIC_REG_RDLEN: u16 = 0x2808;
pub const NIC_REG_RDH: u16 = 0x2810;
pub const NIC_REG_RDT: u16 = 0x2818;
pub const NIC_REG_TCTL: u16 = 0x0400;
pub const NIC_REG_TDBAL: u16 = 0x3800;
pub const NIC_REG_TDBAH: u16 = 0x3804;
pub const NIC_REG_TDLEN: u16 = 0x3808;
pub const NIC_REG_TDH: u16 = 0x3810;
pub const NIC_REG_TDT: u16 = 0x3818;

/// Receive control: enable, store bad packets, unicast and multicast
/// promiscuous, accept broadcast, 1024-byte buffers.
pub const NIC_RCTL_EN: u32 = 0x02;
pub const NIC_RCTL_SBP: u32 = 0x04;
pub const NIC_RCTL_UPE: u32 = 0x08;
pub const NIC_RCTL_MPE: u32 = 0x10;
pub const NIC_RCTL_BAM: u32 = 0x8000;
pub const PACKET_RBSIZE_BIT: u32 = 0x10000;

/// Transmit control: enable, pad short packets, and the shifts of the
/// collision threshold and distance.
pub const NIC_TCTL_EN: u32 = 0x02;
pub const NIC_TCTL_PSP: u32 = 0x08;
pub const NIC_TCTL_CT_SHIFT: u32 = 4;
pub const NIC_TCTL_COLD_SHIFT: u32 = 12;

/// Descriptor done: the card has filled the receive descriptor.
pub const NIC_RDESC_STAT_DD: u8 = 0x01;

pub const NIC_TDESC_CMD_EOP: u8 = 0x01;
pub const NIC_TDESC_CMD_RS: u8 = 0x08;

/// Number of receive descriptors.
pub const RXDESC_NUM: usize = 80;
/// Number of transmit descriptors.
pub const TXDESC_NUM: usize = 80;
/// Bytes a receive descriptor takes in the ring.
pub const RXDESC_SIZE: usize = 16;
/// Bytes a transmit descriptor takes in the ring.
pub const TXDESC_SIZE: usize = 32;

/// The bus number field of a configuration address.
pub open spec fn bus_of(x: u32) -> u8 {
    ((x & 0x00ff0000) >> 16) as u8
}

/// The device number field of a configuration address.
pub open spec fn device_of(x: u32) -> u8 {
    (((x & 0x0000f800) >> 11) & 0x1f) as u8
}

/// The function number field of a configuration address.
pub open spec fn function_of(x: u32) -> u8 {
    ((x & 0x00000700) >> 8) as u8
}

/// The register field of a configuration address.
pub open spec fn register_of(x: u32) -> u8 {
    (x & 0x000000ff) as u8
}

/// A configuration address: enable bit, bus, device, function and register.
pub struct PciConfiguration(pub u32);

impl PciConfiguration {
    /// The address of register `reg_addr` of function `fn_num` of device
    /// `device_num` on bus `bus_num`; the enable bit set when `enable`.
    pub fn new(enable: bool, bus_num: u8, device_num: u8, fn_num: u8, reg_addr: u8) -> (r: Self)
        ensures
            r.0 == (if enable { PCI_CONF_ENABLE } else { 0u32 }) | ((bus_num as u32) << 16) | ((device_num as u32)
                << 11) | ((fn_num as u32) << 8) | (reg_addr as u32),
    {
        let enable_bit: u32 = if enable {
            0x80000000
        } else {
            0x00000000
        };
        PciConfiguration(
            enable_bit | ((bus_num as u32) << 16) | ((device_num as u32) << 11) | ((fn_num as u32) << 8) | (
            reg_addr as u32),
        )
    }

    /// Whether the enable bit is set.
    pub fn enabled(&self) -> (r: bool)
        ensures
            r == (self.0 & PCI_CONF_ENABLE != 0),
    {
        self.0 & 0x80000000 > 0
    }

    /// Leaves the address as it is: the mask it applies keeps every bit.
    pub fn set_enable(&mut self)
        ensures
            final(self).0 == old(self).0,
    {
        let x = self.0;
        assert(x & 0xffffffffu32 == x) by (bit_vector);
        self.0 = self.0 & 0xffffffff;
    }

    /// Clears the enable bit.
    pub fn set_disable(&mut self)
        ensures
            final(self).0 == old(self).0 & 0x7fffffff,
    {
        self.0 = self.0 & 0x7fffffff;
    }

    /// Replaces the bus number field.
    pub fn set_bus_num(&mut self, bus_num: u8)
        ensures
            final(self).0 == (old(self).0 & 0xff00ffff) | ((bus_num as u32) << 16),
    {
        self.0 = self.0 & 0xff00ffff;
        self.0 = self.0 | ((bus_num as u32) << 16);
    }

    /// The bus number field.
    pub fn get_bus_num(&self) -> (r: u8)
        ensures
            r == bus_of(self.0),
    {
        ((self.0 & 0x00ff0000) >> 16) as u8
    }

    /// Clears bits 11 to 15 and ors in `device_num` shifted to bit 11.
    pub fn set_device_num(&mut self, device_num: u8)
        ensures
            final(self).0 == (old(self).0 & 0xffff07ff) | ((device_num as u32) << 11),
    {
        self.0 = self.0 & 0xffff07ff;
        self.0 = self.0 | ((device_num as u32) << 11);
    }

    /// The device number field.
    pub fn get_device_num(&self) -> (r: u8)
        ensures
            r == device_of(self.0),
    {
        (((self.0 & 0x0000f800) >> 11) & 0x1f) as u8
    }

    /// Clears bits 8 to 10 and ors in `fn_num` shifted to bit 8.
    pub fn set_fn_num(&mut self, fn_num: u8)
        ensures
            final(self).0 == (old(self).0 & 0xfffff8ff) | ((fn_num as u32) << 8),
    {
        self.0 = self.0 & 0xfffff8ff;
        self.0 = self.0 | ((fn_num as u32) << 8);
    }

    /// Always 0: the three-bit function field is masked with bit 3.
    pub fn get_fn_num(&self) -> (r: u8)
        ensures
            r == 0,
    {
        let x = self.0;
        assert((((x & 0x00000700u32) >> 8u32) & 0x08u32) == 0) by (bit_vector);
        (((self.0 & 0x00000700) >> 8) & 0x08) as u8
    }

    /// Replaces the register field.
    pub fn set_reg_addr(&mut self, reg_addr: u8)
        ensures
            final(self).0 == (old(self).0 & 0xffffff00) | (reg_addr as u32),
    {
        self.0 = self.0 & 0xffffff00;
        self.0 = self.0 | (reg_addr as u32);
    }

    /// The register field.
    pub fn get_reg_addr(&self) -> (r: u8)
        ensures
            r == register_of(self.0),
    {
        (self.0 & 0x000000ff) as u8
    }
}

/// A configuration address holds its fields: the enable flag and the
/// register always, the bus when the device fits its five bits, and the
/// device and function when they fit their five and three bits.
pub proof fn lemma_configuration_fields(enable: bool, bus: u8, device: u8, function: u8, reg: u8)
    ensures
        ({
            let x = (if enable { PCI_CONF_ENABLE } else { 0u32 }) | ((bus as u32) << 16) | ((device as u32) << 11)
                | ((function as u32) << 8) | (reg as u32);
            &&& (x & PCI_CONF_ENABLE != 0) == enable
            &&& register_of(x) == reg
            &&& device < 32 ==> bus_of(x) == bus
            &&& device < 32 && function < 8 ==> device_of(x) == device && function_of(x) == function
        }),
{
    let e: u32 = if enable { 0x80000000u32 } else { 0u32 };
    let b = bus as u32;
    let d = device as u32;
    let f = function as u32;
    let g = reg as u32;
    assert(b < 256 && d < 256 && f < 256 && g < 256);
    let x = e | (b << 16) | (d << 11) | (f << 8) | g;
    assert((x & 0x80000000 != 0) == (e == 0x80000000u32)) by (bit_vector)
        requires
            x == e | (b << 16) | (d << 11) | (f << 8) | g,
            e == 0u32 || e == 0x80000000u32,
            b < 256 && d < 256 && f < 256 && g < 256,
    ;
    assert(d < 32 ==> ((x & 0x00ff0000) >> 16) == b) by (bit_vector)
        requires
            x == e | (b << 16) | (d << 11) | (f << 8) | g,
            e == 0u32 || e == 0x80000000u32,
            b < 256 && d < 256 && f < 256 && g < 256,
    ;
    assert((x & 0xff) == g) by (bit_vector)
        requires
            x == e | (b << 16) | (d << 11) | (f << 8) | g,
            e == 0u32 || e == 0x80000000u32,
            b < 256 && d < 256 && f < 256 && g < 256,
    ;
    assert(d < 32 && f < 8 ==> (((x & 0xf800) >> 11) & 0x1f) == d && ((x & 0x700) >> 8) == f) by (bit_vector)
        requires
            x == e | (b << 16) | (d << 11) | (f << 8) | g,
            e == 0u32 || e == 0x80000000u32,
            b < 256 && d < 256 && f < 256 && g < 256,
    ;
}

/// Setting a field of a configuration address changes that field only.
pub proof fn lemma_set_fields(x: u32, v: u8)
    ensures
        ({
            let y = (x & 0xff00ffff) | ((v as u32) << 16);
            &&& bus_of(y) == v
            &&& device_of(y) == device_of(x) && function_of(y) == function_of(x) && register_of(y) == register_of(x)
            &&& (y & PCI_CONF_ENABLE) == (x & PCI_CONF_ENABLE)
        }),
        ({
            let y = (x & 0xffffff00) | (v as u32);
            &&& register_of(y) == v
            &&& bus_of(y) == bus_of(x) && device_of(y) == device_of(x) && function_of(y) == function_of(x)
            &&& (y & PCI_CONF_ENABLE) == (x & PCI_CONF_ENABLE)
        }),
        v < 32 ==> ({
            let y = (x & 0xffff07ff) | ((v as u32) << 11);
            &&& device_of(y) == v
            &&& bus_of(y) == bus_of(x) && function_of(y) == function_of(x) && register_of(y) == register_of(x)
            &&& (y & PCI_CONF_ENABLE) == (x & PCI_CONF_ENABLE)
        }),
        v < 8 ==> ({
            let y = (x & 0xfffff8ff) | ((v as u32) << 8);
            &&& function_of(y) == v
            &&& bus_of(y) == bus_of(x) && device_of(y) == device_of(x) && register_of(y) == register_of(x)
            &&& (y & PCI_CONF_ENABLE) == (x & PCI_CONF_ENABLE)
        }),
{
    let w = v as u32;
    assert(w < 256);
    assert({
        let y = (x & 0xff00ffff) | (w << 16);
        &&& ((y & 0x00ff0000) >> 16) == w
        &&& (((y & 0xf800) >> 11) & 0x1f) == (((x & 0xf800) >> 11) & 0x1f)
        &&& ((y & 0x700) >> 8) == ((x & 0x700) >> 8)
        &&& (y & 0xff) == (x & 0xff)
        &&& (y & 0x80000000) == (x & 0x80000000)
    }) by (bit_vector)
        requires
            w < 256,
    ;
    assert({
        let y = (x & 0xffffff00) | w;
        &&& (y & 0xff) == w
        &&& ((y & 0x00ff0000) >> 16) == ((x & 0x00ff0000) >> 16)
        &&& (((y & 0xf800) >> 11) & 0x1f) == (((x & 0xf800) >> 11) & 0x1f)
        &&& ((y & 0x700) >> 8) == ((x & 0x700) >> 8)
        &&& (y & 0x80000000) == (x & 0x80000000)
    }) by (bit_vector)
        requires
            w < 256,
    ;
    assert(w < 32 ==> {
        let y = (x & 0xffff07ff) | (w << 11);
        &&& (((y & 0xf800) >> 11) & 0x1f) == w
        &&& ((y & 0x00ff0000) >> 16) == ((x & 0x00ff0000) >> 16)
        &&& ((y & 0x700) >> 8) == ((x & 0x700) >> 8)
        &&& (y & 0xff) == (x & 0xff)
        &&& (y & 0x80000000) == (x & 0x80000000)
    }) by (bit_vector);
    assert(w < 8 ==> {
        let y = (x & 0xfffff8ff) | (w << 8);
        &&& ((y & 0x700) >> 8) == w
        &&& ((y & 0x00ff0000) >> 16) == ((x & 0x00ff0000) >> 16)
        &&& (((y & 0xf800) >> 11) & 0x1f) == (((x & 0xf800) >> 11) & 0x1f)
        &&& (y & 0xff) == (x & 0xff)
        &&& (y & 0x80000000) == (x & 0x80000000)
    }) by (bit_vector);
}

/// A base address register as read from configuration space.
pub struct BaseAddressRegister(pub u32);

impl BaseAddressRegister {
    /// The register holding the bits of `addr`.
    pub fn new(addr: i32) -> (r: Self)
        ensures
            r.0 == addr as u32,
    {
        BaseAddressRegister(addr as u32)
    }

    /// Bit 3: the memory is prefetchable.
    pub fn prefetchable(&self) -> (r: bool)
        ensures
            r == (self.0 & 0x08 != 0),
    {
        self.0 & 0x08 > 0
    }

    /// A memory register whose type bits 1 and 2 are both clear.
    pub fn memory_32bit_type(&self) -> (r: bool)
        ensures
            r == (self.0 & 0x01 == 0 && self.0 & 0x02 == 0 && self.0 & 0x04 == 0),
    {
        if self.io_address() {
            return false;
        }
        !self.memory_1m_type() && !self.memory_64bit_type()
    }

    /// A memory register with type bit 1 set.
    pub fn memory_1m_type(&self) -> (r: bool)
        ensures
            r == (self.0 & 0x01 == 0 && self.0 & 0x02 != 0),
    {
        if self.io_address() {
            return false;
        }
        self.0 & 0x02 > 0
    }

    /// A memory register with type bit 2 set.
    pub fn memory_64bit_type(&self) -> (r: bool)
        ensures
            r == (self.0 & 0x01 == 0 && self.0 & 0x04 != 0),
    {
        if self.io_address() {
            return false;
        }
        self.0 & 0x04 > 0
    }

    /// Bit 0: the register maps I/O space.
    pub fn io_address(&self) -> (r: bool)
        ensures
            r == (self.0 & 0x01 != 0),
    {
        self.0 & 0x01 > 0
    }

    /// The base address: the register without its two low bits for I/O
    /// space, without its three low bits for memory.
    pub fn base_addr(&self) -> (r: u32)
        ensures
            self.0 & 0x01 != 0 ==> r == self.0 & 0xfffffffc,
            self.0 & 0x01 == 0 ==> r == self.0 & 0xfffffff8,
    {
        if self.io_address() {
            return self.0 & 0xfffffffc;
        }
        self.0 & 0xfffffff8
    }
}

/// The base address of the network card's registers, from the value of its
/// first base address register.
pub fn get_nic_reg_base(bar_value: i32) -> (r: u32)
    ensures
        (bar_value as u32) & 0x01 != 0 ==> r == (bar_value as u32) & 0xfffffffc,
        (bar_value as u32) & 0x01 == 0 ==> r == (bar_value as u32) & 0xfffffff8,
{
    BaseAddressRegister::new(bar_value).base_addr()
}

/// The vendor id (low half) and device id (high half) of the first
/// configuration register.
pub fn vendor_device_ids(conf_data: i32) -> (r: (u16, u16))
    ensures
        r.0 == (conf_data & 0xffff) as u16,
        r.1 == (conf_data >> 16) as u16,
{
    ((conf_data & 0x0000ffff) as u16, (conf_data >> 16) as u16)
}

/// The command half of the command and status register with `flag` set, as
/// written back to the register.
pub fn command_with(conf_data: i32, flag: u32) -> (r: u32)
    ensures
        r == ((conf_data as u32) & 0xffff) | flag,
{
    let mut command = conf_data as u32;
    command = command & 0x0000ffff;
    command | flag
}

/// A bit of the PCI command register.
#[derive(Clone, Copy, Debug, PartialEq, Eq, Structural)]
pub enum PciCommand {
    IoEn,
    MemEn,
    BusMasterEn,
    SpecialCycle,
    MemwInvEn,
    VgaPalSnp,
    ParityErrRes,
    SerrEn,
    FastBack2backEn,
    IntrDis,
}

/// The bit of a command flag.
pub open spec fn command_bit(f: PciCommand) -> u32 {
    match f {
        PciCommand::IoEn => PCI_COM_IO_EN,
        PciCommand::MemEn => PCI_COM_MEM_EN,
        PciCommand::BusMasterEn => PCI_COM_BUS_MASTER_EN,
        PciCommand::SpecialCycle => PCI_COM_SPECIAL_CYCLE,
        PciCommand::MemwInvEn => PCI_COM_MEMV_INV_EN,
        PciCommand::VgaPalSnp => PCI_COM_VGA_PAL_SNP,
        PciCommand::ParityErrRes => PCI_COM_PARITY_ERR_RES,
        PciCommand::SerrEn => PCI_COM_SERR_EN,
        PciCommand::FastBack2backEn => PCI_COM_FAST_BACK2BACK_EN,
        PciCommand::IntrDis => PCI_COM_INTR_DIS,
    }
}

/// The command flags in the order they are reported.
pub open spec fn all_commands() -> Seq<PciCommand> {
    seq![
        PciCommand::IoEn,
        PciCommand::MemEn,
        PciCommand::BusMasterEn,
        PciCommand::SpecialCycle,
        PciCommand::MemwInvEn,
        PciCommand::VgaPalSnp,
        PciCommand::ParityErrRes,
        PciCommand::SerrEn,
        PciCommand::FastBack2backEn,
        PciCommand::IntrDis,
    ]
}

/// Each command flag is reported for its own bit of the command register,
/// one bit per flag: I/O space 0, memory space 1, bus master 2, special
/// cycles 3, memory write and invalidate 4, VGA palette snoop 5, parity
/// error response 6, SERR# 8, fast back-to-back 9, interrupt disable 10. In
/// report order the bits strictly increase, so no two flags share a bit.
pub proof fn lemma_command_bits()
    ensures
        forall|i: int| 0 <= i < 10 ==> #[trigger] command_bit(all_commands()[i]) == seq![
            1u32,
            2u32,
            4u32,
            8u32,
            16u32,
            32u32,
            64u32,
            256u32,
            512u32,
            1024u32,
        ][i],
        forall|i: int, j: int|
            0 <= i < j < 10 ==> #[trigger] command_bit(all_commands()[i]) < #[trigger] command_bit(all_commands()[j]),
        forall|f: PciCommand, g: PciCommand| f != g ==> #[trigger] command_bit(f) != #[trigger] command_bit(g),
        command_bit(PciCommand::MemwInvEn) == 0x10,
        command_bit(PciCommand::SpecialCycle) == 0x08,
{
}

impl PciCommand {
    /// The flag's bit.
    pub fn bit(&self) -> (r: u32)
        ensures
            r == command_bit(*self),
    {
        match self {
            PciCommand::IoEn => PCI_COM_IO_EN,
            PciCommand::MemEn => PCI_COM_MEM_EN,
            PciCommand::BusMasterEn => PCI_COM_BUS_MASTER_EN,
            PciCommand::SpecialCycle => PCI_COM_SPECIAL_CYCLE,
            PciCommand::MemwInvEn => PCI_COM_MEMV_INV_EN,
            PciCommand::VgaPalSnp => PCI_COM_VGA_PAL_SNP,
            PciCommand::ParityErrRes => PCI_COM_PARITY_ERR_RES,
            PciCommand::SerrEn => PCI_COM_SERR_EN,
            PciCommand::FastBack2backEn => PCI_COM_FAST_BACK2BACK_EN,
            PciCommand::IntrDis => PCI_COM_INTR_DIS,
        }
    }

    /// The flag's name as reported on screen.
    pub fn label(&self) -> (r: &'static str)
        ensures
            *self == PciCommand::IoEn ==> r@ == "IO_EN"@,
            *self == PciCommand::MemEn ==> r@ == "MEM_EN"@,
            *self == PciCommand::BusMasterEn ==> r@ == "BUS_MASTER_EN"@,
            *self == PciCommand::SpecialCycle ==> r@ == "SPECIAL_CYCLE"@,
            *self == PciCommand::MemwInvEn ==> r@ == "MEMW_INV_EN"@,
            *self == PciCommand::VgaPalSnp ==> r@ == "VGA_PAL_SNP"@,
            *self == PciCommand::ParityErrRes ==> r@ == "PARITY_ERR_RES"@,
            *self == PciCommand::SerrEn ==> r@ == "SERR_EN"@,
            *self == PciCommand::FastBack2backEn ==> r@ == "FAST_BACK2BACK_EN"@,
            *self == PciCommand::IntrDis ==> r@ == "INTR_DIS"@,
    {
        match self {
            PciCommand::IoEn => "IO_EN",
            PciCommand::MemEn => "MEM_EN",
            PciCommand::BusMasterEn => "BUS_MASTER_EN",
            PciCommand::SpecialCycle => "SPECIAL_CYCLE",
            PciCommand::MemwInvEn => "MEMW_INV_EN",
            PciCommand::VgaPalSnp => "VGA_PAL_SNP",
            PciCommand::ParityErrRes => "PARITY_ERR_RES",
            PciCommand::SerrEn => "SERR_EN",
            PciCommand::FastBack2backEn => "FAST_BACK2BACK_EN",
            PciCommand::IntrDis => "INTR_DIS",
        }
    }
}

/// A report of the PCI status register.
#[derive(Clone, Copy, Debug, PartialEq, Eq, Structural)]
pub enum PciStatus {
    Intr,
    MultFunc,
    Mhz66,
    FastBack2back,
    DataParityErr,
    DevselFast,
    DevselMid,
    DevselLow,
    SndTargetAbort,
    RcvTargetAbort,
    RcvMasterAbort,
    SysErr,
    ParityErr,
}

/// Whether the status register `status` reports `f`: a set bit, or for the
/// device select timing, the value of its two-bit field.
pub open spec fn status_holds(status: u32, f: PciStatus) -> bool {
    match f {
        PciStatus::Intr => status & PCI_STAT_INTR != 0,
        PciStatus::MultFunc => status & PCI_STAT_MULT_FUNC != 0,
        PciStatus::Mhz66 => status & PCI_STAT_66MHZ != 0,
        PciStatus::FastBack2back => status & PCI_STAT_FAST_BACK2BACK != 0,
        PciStatus::DataParityErr => status & PCI_STAT_DATA_PARITY_ERR != 0,
        PciStatus::DevselFast => status & PCI_STAT_DEVSEL_MASK == PCI_STAT_DEVSEL_FAST,
        PciStatus::DevselMid => status & PCI_STAT_DEVSEL_MASK == PCI_STAT_DEVSEL_MID,
        PciStatus::DevselLow => status & PCI_STAT_DEVSEL_MASK == PCI_STAT_DEVSEL_LOW,
        PciStatus::SndTargetAbort => status & PCI_STAT_SND_TARGET_ABORT != 0,
        PciStatus::RcvTargetAbort => status & PCI_STAT_RCV_TARGET_ABORT != 0,
        PciStatus::RcvMasterAbort => status & PCI_STAT_RCV_MASTER_ABORT != 0,
        PciStatus::SysErr => status & PCI_STAT_SYS_ERR != 0,
        PciStatus::ParityErr => status & PCI_STAT_PARITY_ERR != 0,
    }
}

/// The status reports in the order they are shown.
pub open spec fn all_statuses() -> Seq<PciStatus> {
    seq![
        PciStatus::Intr,
        PciStatus::MultFunc,
        PciStatus::Mhz66,
        PciStatus::FastBack2back,
        PciStatus::DataParityErr,
        PciStatus::DevselFast,
        PciStatus::DevselMid,
        PciStatus::DevselLow,
        PciStatus::SndTargetAbort,
        PciStatus::RcvTargetAbort,
        PciStatus::RcvMasterAbort,
        PciStatus::SysErr,
        PciStatus::ParityErr,
    ]
}

impl PciStatus {
    /// Whether the status register `status` reports this.
    pub fn holds(&self, status: u32) -> (r: bool)
        ensures
            r == status_holds(status, *self),
    {
        match self {
            PciStatus::Intr => status & PCI_STAT_INTR > 0,
            PciStatus::MultFunc => status & PCI_STAT_MULT_FUNC > 0,
            PciStatus::Mhz66 => status & PCI_STAT_66MHZ > 0,
            PciStatus::FastBack2back => status & PCI_STAT_FAST_BACK2BACK > 0,
            PciStatus::DataParityErr => status & PCI_STAT_DATA_PARITY_ERR > 0,
            PciStatus::DevselFast => status & PCI_STAT_DEVSEL_MASK == PCI_STAT_DEVSEL_FAST,
            PciStatus::DevselMid => status & PCI_STAT_DEVSEL_MASK == PCI_STAT_DEVSEL_MID,
            PciStatus::DevselLow => status & PCI_STAT_DEVSEL_MASK == PCI_STAT_DEVSEL_LOW,
            PciStatus::SndTargetAbort => status & PCI_STAT_SND_TARGET_ABORT > 0,
            PciStatus::RcvTargetAbort => status & PCI_STAT_RCV_TARGET_ABORT > 0,
            PciStatus::RcvMasterAbort => status & PCI_STAT_RCV_MASTER_ABORT > 0,
            PciStatus::SysErr => status & PCI_STAT_SYS_ERR > 0,
            PciStatus::ParityErr => status & PCI_STAT_PARITY_ERR > 0,
        }
    }

    /// The report's name as shown on screen.
    pub fn label(&self) -> (r: &'static str)
        ensures
            *self == PciStatus::Intr ==> r@ == "INTR"@,
            *self == PciStatus::MultFunc ==> r@ == "MULT_FUNC"@,
            *self == PciStatus::Mhz66 ==> r@ == "66MHZ"@,
            *self == PciStatus::FastBack2back ==> r@ == "FAST_BACK2BACK"@,
            *self == PciStatus::DataParityErr ==> r@ == "DATA_PARITY_ERR"@,
            *self == PciStatus::DevselFast ==> r@ == "DEVSEL_FAST"@,
            *self == PciStatus::DevselMid ==> r@ == "DEVSEL_MID"@,
            *self == PciStatus::DevselLow ==> r@ == "DEVSEL_LOW"@,
            *self == PciStatus::SndTargetAbort ==> r@ == "SND_TARGET_ABORT"@,
            *self == PciStatus::RcvTargetAbort ==> r@ == "RCV_TARGET_ABORT"@,
            *self == PciStatus::RcvMasterAbort ==> r@ == "RCV_MASTER_ABORT"@,
            *self == PciStatus::SysErr ==> r@ == "SYS_ERR"@,
            *self == PciStatus::ParityErr ==> r@ == "PARITY_ERR"@,
    {
        match self {
            PciStatus::Intr => "INTR",
            PciStatus::MultFunc => "MULT_FUNC",
            PciStatus::Mhz66 => "66MHZ",
            PciStatus::FastBack2back => "FAST_BACK2BACK",
            PciStatus::DataParityErr => "DATA_PARITY_ERR",
            PciStatus::DevselFast => "DEVSEL_FAST",
            PciStatus::DevselMid => "DEVSEL_MID",
            PciStatus::DevselLow => "DEVSEL_LOW",
            PciStatus::SndTargetAbort => "SND_TARGET_ABORT",
            PciStatus::RcvTargetAbort => "RCV_TARGET_ABORT",
            PciStatus::RcvMasterAbort => "RCV_MASTER_ABORT",
            PciStatus::SysErr => "SYS_ERR",
            PciStatus::ParityErr => "PARITY_ERR",
        }
    }
}

/// The set command bits of the low half of the command and status
/// register `conf_data`, in the order they are shown.
pub open spec fn shown_commands(conf_data: i32) -> Seq<PciCommand> {
    all_commands().filter(|f: PciCommand| ((conf_data & 0xffff) as u32) & command_bit(f) != 0)
}

/// The status reports of the high half of `conf_data`, in the order they
/// are shown.
pub open spec fn shown_statuses(conf_data: i32) -> Seq<PciStatus> {
    all_statuses().filter(|f: PciStatus| status_holds((conf_data >> 16) as u32, f))
}

/// What the command and status register `conf_data` reports, in the order it
/// is shown: the set command bits of its low half, then the status reports
/// of its high half.
pub fn command_status_items(conf_data: i32) -> (r: (Vec<PciCommand>, Vec<PciStatus>))
    ensures
        r.0@ == shown_commands(conf_data),
        r.1@ == shown_statuses(conf_data),
{
    let command: u32 = (conf_data & 0x0000ffff) as u32;
    let status: u32 = (conf_data >> 16) as u32;
    let commands = [
        PciCommand::IoEn,
        PciCommand::MemEn,
        PciCommand::BusMasterEn,
        PciCommand::SpecialCycle,
        PciCommand::MemwInvEn,
        PciCommand::VgaPalSnp,
        PciCommand::ParityErrRes,
        PciCommand::SerrEn,
        PciCommand::FastBack2backEn,
        PciCommand::IntrDis,
    ];
    assert(commands@ =~= all_commands());
    let ghost cp = |f: PciCommand| command & command_bit(f) != 0;
    let mut shown_commands: Vec<PciCommand> = Vec::new();
    let mut i: usize = 0;
    while i < 10
        invariant
            0 <= i <= 10,
            commands@ == all_commands(),
            cp == (|f: PciCommand| command & command_bit(f) != 0),
            shown_commands@ == all_commands().take(i as int).filter(cp),
        decreases 10 - i,
    {
        let f = commands[i];
        proof {
            reveal(Seq::filter);
            assert(all_commands().take(i + 1).drop_last() =~= all_commands().take(i as int));
        }
        if command & f.bit() > 0 {
            shown_commands.push(f);
        }
        i = i + 1;
    }
    assert(all_commands().take(10) =~= all_commands());
    let statuses = [
        PciStatus::Intr,
        PciStatus::MultFunc,
        PciStatus::Mhz66,
        PciStatus::FastBack2back,
        PciStatus::DataParityErr,
        PciStatus::DevselFast,
        PciStatus::DevselMid,
        PciStatus::DevselLow,
        PciStatus::SndTargetAbort,
        PciStatus::RcvTargetAbort,
        PciStatus::RcvMasterAbort,
        PciStatus::SysErr,
        PciStatus::ParityErr,
    ];
    assert(statuses@ =~= all_statuses());
    let ghost sp = |f: PciStatus| status_holds(status, f);
    let mut shown_statuses: Vec<PciStatus> = Vec::new();
    let mut j: usize = 0;
    while j < 13
        invariant
            0 <= j <= 13,
            statuses@ == all_statuses(),
            sp == (|f: PciStatus| status_holds(status, f)),
            shown_statuses@ == all_statuses().take(j as int).filter(sp),
        decreases 13 - j,
    {
        let f = statuses[j];
        proof {
            reveal(Seq::filter);
            assert(all_statuses().take(j + 1).drop_last() =~= all_statuses().take(j as int));
        }
        if f.holds(status) {
            shown_statuses.push(f);
        }
        j = j + 1;
    }
    assert(all_statuses().take(13) =~= all_statuses());
    (shown_commands, shown_statuses)
}

/// A line of the report of a base address register.
#[derive(Clone, Copy, Debug, PartialEq, Eq, Structural)]
pub enum BarLabel {
    IoBase,
    MemBase32,
    MemBase1M,
    MemBase64Upper,
    MemBase64,
    Prefetchable,
    NonPrefetchable,
}

impl BarLabel {
    /// The text shown for the label.
    pub fn label(&self) -> (r: &'static str)
        ensures
            *self == BarLabel::IoBase ==> r@ == "IO BASE"@,
            *self == BarLabel::MemBase32 ==> r@ == "MEM BASE 32BIT"@,
            *self == BarLabel::MemBase1M ==> r@ == "MEM BASE 1M"@,
            *self == BarLabel::MemBase64Upper ==> r@ == "MEM BASE 64BIT UPPER"@,
            *self == BarLabel::MemBase64 ==> r@ == "MEM BASE 64BIT"@,
            *self == BarLabel::Prefetchable ==> r@ == "PREFETCHABLE"@,
            *self == BarLabel::NonPrefetchable ==> r@ == "NON PREFETCHABLE"@,
    {
        match self {
            BarLabel::IoBase => "IO BASE",
            BarLabel::MemBase32 => "MEM BASE 32BIT",
            BarLabel::MemBase1M => "MEM BASE 1M",
            BarLabel::MemBase64Upper => "MEM BASE 64BIT UPPER",
            BarLabel::MemBase64 => "MEM BASE 64BIT",
            BarLabel::Prefetchable => "PREFETCHABLE",
            BarLabel::NonPrefetchable => "NON PREFETCHABLE",
        }
    }
}

/// The labels of the report of `bar`: an I/O register reports its base; a
/// memory register reports each of its types (a 64-bit one also the upper
/// register) and whether it is prefetchable.
pub fn bar_labels(bar: &BaseAddressRegister) -> (r: Vec<BarLabel>)
    ensures
        bar.0 & 0x01 != 0 ==> r@ == seq![BarLabel::IoBase],
        bar.0 & 0x01 == 0 ==> r@ == (if bar.0 & 0x02 == 0 && bar.0 & 0x04 == 0 {
            seq![BarLabel::MemBase32]
        } else {
            Seq::empty()
        }) + (if bar.0 & 0x02 != 0 {
            seq![BarLabel::MemBase1M]
        } else {
            Seq::empty()
        }) + (if bar.0 & 0x04 != 0 {
            seq![BarLabel::MemBase64Upper, BarLabel::MemBase64]
        } else {
            Seq::empty()
        }) + (if bar.0 & 0x08 != 0 {
            seq![BarLabel::Prefetchable]
        } else {
            seq![BarLabel::NonPrefetchable]
        }),
{
    let mut labels: Vec<BarLabel> = Vec::new();
    if bar.io_address() {
        labels.push(BarLabel::IoBase);
        assert(labels@ =~= seq![BarLabel::IoBase]);
        return labels;
    }
    if bar.memory_32bit_type() {
        labels.push(BarLabel::MemBase32);
    }
    let ghost l1 = labels@;
    if bar.memory_1m_type() {
        labels.push(BarLabel::MemBase1M);
    }
    let ghost l2 = labels@;
    if bar.memory_64bit_type() {
        labels.push(BarLabel::MemBase64Upper);
        labels.push(BarLabel::MemBase64);
    }
    let ghost l3 = labels@;
    if bar.prefetchable() {
        labels.push(BarLabel::Prefetchable);
    } else {
        labels.push(BarLabel::NonPrefetchable);
    }
    assert(labels@ =~= l1 + (l2.skip(l1.len() as int)) + (l3.skip(l2.len() as int)) + labels@.skip(l3.len() as int));
    labels
}

/// What a line of a report shows.
#[derive(Clone, Copy, Debug, PartialEq, Eq, Structural)]
pub enum ReportText {
    Command(PciCommand),
    Status(PciStatus),
    Bar(BarLabel),
    /// A value, shown in hexadecimal.
    Hex(u32),
}

/// A line of a report and where on the screen it is shown.
#[derive(Clone, Copy, Debug, PartialEq, Eq, Structural)]
pub struct ReportLine {
    pub x: u32,
    pub y: u32,
    pub text: ReportText,
}

/// The line showing `text` at (`x`, `y`).
pub open spec fn report_line(x: int, y: int, text: ReportText) -> ReportLine {
    ReportLine { x: x as u32, y: y as u32, text }
}

/// The report of the command and status register `conf_data`: the set
/// command bits at x 400, the status reports at x 500, each column from y
/// 215 down in steps of 15.
pub open spec fn command_status_lines(conf_data: i32) -> Seq<ReportLine> {
    let cs = shown_commands(conf_data);
    let ss = shown_statuses(conf_data);
    Seq::new(cs.len(), |k: int| report_line(400, 215 + 15 * k, ReportText::Command(cs[k]))) + Seq::new(
        ss.len(),
        |k: int| report_line(500, 215 + 15 * k, ReportText::Status(ss[k])),
    )
}

/// The lines that report the command and status register `conf_data`, in
/// the order they are shown.
pub fn dump_command_status(conf_data: i32) -> (r: Vec<ReportLine>)
    ensures
        r@ == command_status_lines(conf_data),
{
    let (commands, statuses) = command_status_items(conf_data);
    proof {
        broadcast use vstd::seq_lib::group_filter_ensures;

        assert(commands@.len() <= 10);
        assert(statuses@.len() <= 13);
    }
    let ghost cs = shown_commands(conf_data);
    let ghost ss = shown_statuses(conf_data);
    let mut lines: Vec<ReportLine> = Vec::new();
    let mut height: u32 = 215;
    let mut i: usize = 0;
    while i < commands.len()
        invariant
            commands@ == cs,
            cs.len() <= 10,
            i <= cs.len(),
            height == 215 + 15 * i,
            lines@ == Seq::new(i as nat, |k: int| report_line(400, 215 + 15 * k, ReportText::Command(cs[k]))),
        decreases cs.len() - i,
    {
        lines.push(ReportLine { x: 400, y: height, text: ReportText::Command(commands[i]) });
        height = height + 15;
        i = i + 1;
        assert(lines@ =~= Seq::new(i as nat, |k: int| report_line(400, 215 + 15 * k, ReportText::Command(cs[k]))));
    }
    let ghost first = lines@;
    let mut height: u32 = 215;
    let mut j: usize = 0;
    while j < statuses.len()
        invariant
            statuses@ == ss,
            ss.len() <= 13,
            j <= ss.len(),
            height == 215 + 15 * j,
            lines@ == first + Seq::new(j as nat, |k: int| report_line(500, 215 + 15 * k, ReportText::Status(ss[k]))),
        decreases ss.len() - j,
    {
        lines.push(ReportLine { x: 500, y: height, text: ReportText::Status(statuses[j]) });
        height = height + 15;
        j = j + 1;
        assert(lines@ =~= first + Seq::new(j as nat, |k: int| report_line(500, 215 + 15 * k, ReportText::Status(ss[k]))));
    }
    lines
}

/// The report of `bar`, line by line from y 50 at x 800, with `bar_upper` the
/// value of the next register. An I/O register shows its label and then
/// its base. A memory register shows, for each of its types, its label and
/// below it a value (its base, or first `bar_upper` for a 64-bit one), where
/// the next label goes on the value's line; then, one line further down,
/// whether it is prefetchable.
pub open spec fn bar_report_lines(bar: u32, bar_upper: u32) -> Seq<ReportLine> {
    let base = if bar & 0x01 != 0 { bar & 0xfffffffc } else { bar & 0xfffffff8 };
    if bar & 0x01 != 0 {
        seq![report_line(800, 50, ReportText::Bar(BarLabel::IoBase)), report_line(800, 65, ReportText::Hex(base))]
    } else {
        let m32 = bar & 0x02 == 0 && bar & 0x04 == 0;
        let m1 = bar & 0x02 != 0;
        let m64 = bar & 0x04 != 0;
        let h1: int = if m32 { 65 } else { 50 };
        let h2: int = if m1 { h1 + 15 } else { h1 };
        let h3: int = if m64 { h2 + 30 } else { h2 };
        (if m32 {
            seq![report_line(800, 50, ReportText::Bar(BarLabel::MemBase32)), report_line(800, 65, ReportText::Hex(base))]
        } else {
            Seq::empty()
        }) + (if m1 {
            seq![report_line(800, h1, ReportText::Bar(BarLabel::MemBase1M)), report_line(800, h1 + 15, ReportText::Hex(base))]
        } else {
            Seq::empty()
        }) + (if m64 {
            seq![
                report_line(800, h2, ReportText::Bar(BarLabel::MemBase64Upper)),
                report_line(800, h2 + 15, ReportText::Hex(bar_upper)),
                report_line(800, h2 + 15, ReportText::Bar(BarLabel::MemBase64)),
                report_line(800, h2 + 30, ReportText::Hex(base)),
            ]
        } else {
            Seq::empty()
        }) + seq![
            report_line(
                800,
                h3 + 15,
                ReportText::Bar(if bar & 0x08 != 0 { BarLabel::Prefetchable } else { BarLabel::NonPrefetchable }),
            ),
        ]
    }
}

/// The lines that report `bar`, in the order they are shown; `bar_upper`,
/// the value of the next register, is shown for a 64-bit memory register
/// only.
pub fn dump_bar(bar: &BaseAddressRegister, bar_upper: u32) -> (r: Vec<ReportLine>)
    ensures
        r@ == bar_report_lines(bar.0, bar_upper),
{
    let mut lines: Vec<ReportLine> = Vec::new();
    let mut height: u32 = 50;
    if bar.io_address() {
        lines.push(ReportLine { x: 800, y: height, text: ReportText::Bar(BarLabel::IoBase) });
        height = height + 15;
        lines.push(ReportLine { x: 800, y: height, text: ReportText::Hex(bar.base_addr()) });
        assert(lines@ =~= bar_report_lines(bar.0, bar_upper));
        return lines;
    }
    let ghost base = bar.0 & 0xfffffff8;
    if bar.memory_32bit_type() {
        lines.push(ReportLine { x: 800, y: height, text: ReportText::Bar(BarLabel::MemBase32) });
        height = height + 15;
        lines.push(ReportLine { x: 800, y: height, text: ReportText::Hex(bar.base_addr()) });
    }
    let ghost l1 = lines@;
    if bar.memory_1m_type() {
        lines.push(ReportLine { x: 800, y: height, text: ReportText::Bar(BarLabel::MemBase1M) });
        height = height + 15;
        lines.push(ReportLine { x: 800, y: height, text: ReportText::Hex(bar.base_addr()) });
    }
    let ghost l2 = lines@;
    if bar.memory_64bit_type() {
        lines.push(ReportLine { x: 800, y: height, text: ReportText::Bar(BarLabel::MemBase64Upper) });
        height = height + 15;
        lines.push(ReportLine { x: 800, y: height, text: ReportText::Hex(bar_upper) });
        lines.push(ReportLine { x: 800, y: height, text: ReportText::Bar(BarLabel::MemBase64) });
        height = height + 15;
        lines.push(ReportLine { x: 800, y: height, text: ReportText::Hex(bar.base_addr()) });
    }
    let ghost l3 = lines@;
    if bar.prefetchable() {
        height = height + 15;
        lines.push(ReportLine { x: 800, y: height, text: ReportText::Bar(BarLabel::Prefetchable) });
    } else {
        height = height + 15;
        lines.push(ReportLine { x: 800, y: height, text: ReportText::Bar(BarLabel::NonPrefetchable) });
    }
    assert(lines@ =~= l1 + (l2.skip(l1.len() as int)) + (l3.skip(l2.len() as int)) + lines@.skip(l3.len() as int));
    assert(lines@ =~= bar_report_lines(bar.0, bar_upper));
    lines
}

/// An address of a packet buffer, split in two 32-bit halves.
#[derive(Clone, Copy)]
pub struct BufferAddr {
    pub desc_base_low: u32,
    pub desc_base_high: u32,
}

impl BufferAddr {
    /// The null address.
    pub fn new() -> (r: Self)
        ensures
            r.desc_base_low == 0 && r.desc_base_high == 0,
    {
        BufferAddr { desc_base_low: 0, desc_base_high: 0 }
    }

    /// The null address.
    pub fn new_const() -> (r: Self)
        ensures
            r.desc_base_low == 0 && r.desc_base_high == 0,
    {
        BufferAddr { desc_base_low: 0, desc_base_high: 0 }
    }

    /// The low half.
    pub fn low(&self) -> (r: u32)
        ensures
            r == self.desc_base_low,
    {
        self.desc_base_low
    }

    /// The high half.
    pub fn high(&self) -> (r: u32)
        ensures
            r == self.desc_base_high,
    {
        self.desc_base_high
    }
}

/// A receive descriptor.
#[derive(Clone, Copy)]
pub struct RxDesc {
    pub recv_buf_addr: BufferAddr,
    pub length: u16,
    pub packet_checksum: u16,
    pub status: u8,
    pub errors: u8,
    pub special: u16,
}

/// Every field of the receive descriptor is zero.
pub open spec fn rx_desc_zero(d: RxDesc) -> bool {
    &&& d.recv_buf_addr.desc_base_low == 0 && d.recv_buf_addr.desc_base_high == 0
    &&& d.length == 0 && d.packet_checksum == 0 && d.status == 0 && d.errors == 0 && d.special == 0
}

impl RxDesc {
    /// A descriptor with every field zero.
    pub fn new() -> (r: Self)
        ensures
            rx_desc_zero(r),
    {
        RxDesc {
            recv_buf_addr: BufferAddr::new(),
            length: 0,
            packet_checksum: 0,
            status: 0,
            errors: 0,
            special: 0,
        }
    }

    /// A descriptor with every field zero.
    pub fn new_const() -> (r: Self)
        ensures
            rx_desc_zero(r),
    {
        RxDesc {
            recv_buf_addr: BufferAddr::new_const(),
            length: 0,
            packet_checksum: 0,
            status: 0,
            errors: 0,
            special: 0,
        }
    }
}

/// A transmit descriptor.
#[derive(Clone, Copy)]
pub struct TxDesc {
    pub tx_buf_address: BufferAddr,
    pub length: u16,
    pub cso: u8,
    pub cmd: u8,
    pub sta: u8,
    pub rsv: u8,
    pub css: u8,
    pub special: u16,
}

/// A transmit descriptor whose command asks for a status report of an
/// end-of-packet descriptor, every other field zero.
pub open spec fn tx_desc_initial(d: TxDesc) -> bool {
    &&& d.tx_buf_address.desc_base_low == 0 && d.tx_buf_address.desc_base_high == 0
    &&& d.cmd == NIC_TDESC_CMD_RS | NIC_TDESC_CMD_EOP
    &&& d.length == 0 && d.cso == 0 && d.sta == 0 && d.rsv == 0 && d.css == 0 && d.special == 0
}

impl TxDesc {
    /// A descriptor set to report the status of an end-of-packet frame.
    pub fn new() -> (r: Self)
        ensures
            tx_desc_initial(r),
    {
        TxDesc {
            tx_buf_address: BufferAddr::new(),
            length: 0,
            cso: 0,
            cmd: NIC_TDESC_CMD_RS | NIC_TDESC_CMD_EOP,
            sta: 0,
            rsv: 0,
            css: 0,
            special: 0,
        }
    }

    /// A descriptor set to report the status of an end-of-packet frame.
    pub fn new_const() -> (r: Self)
        ensures
            tx_desc_initial(r),
    {
        TxDesc {
            tx_buf_address: BufferAddr::new_const(),
            length: 0,
            cso: 0,
            cmd: NIC_TDESC_CMD_RS | NIC_TDESC_CMD_EOP,
            sta: 0,
            rsv: 0,
            css: 0,
            special: 0,
        }
    }
}

/// Bytes of the receive descriptor ring.
pub fn rx_desc_data_size() -> (r: usize)
    ensures
        r == RXDESC_SIZE * RXDESC_NUM,
{
    RXDESC_SIZE * RXDESC_NUM
}

/// Bytes of the transmit descriptor ring.
pub fn tx_desc_data_size() -> (r: usize)
    ensures
        r == TXDESC_SIZE * TXDESC_NUM,
{
    TXDESC_SIZE * TXDESC_NUM
}

/// The ring index after `idx` in a ring of `num` descriptors.
pub fn next_desc_index(idx: usize, num: usize) -> (r: usize)
    requires
        idx < num,
    ensures
        r == (idx + 1) % (num as int),
{
    (idx + 1) % num
}

/// A value written to a register of the network card.
#[derive(Clone, Copy, Debug, PartialEq, Eq, Structural)]
pub struct NicRegWrite {
    pub reg: u16,
    pub value: u32,
}

/// The write of `value` to register `reg`.
pub open spec fn nic_write(reg: u16, value: u32) -> NicRegWrite {
    NicRegWrite { reg, value }
}

impl NicRegWrite {
    pub fn new(reg: u16, value: u32) -> (r: Self)
        ensures
            r == nic_write(reg, value),
    {
        NicRegWrite { reg, value }
    }
}

/// The receive control value: enabled, accepting all unicast, multicast,
/// broadcast and bad packets, into 1024-byte buffers.
pub open spec fn rx_control() -> u32 {
    PACKET_RBSIZE_BIT | NIC_RCTL_BAM | NIC_RCTL_MPE | NIC_RCTL_UPE | NIC_RCTL_SBP | NIC_RCTL_EN
}

/// The receive ring set up at `ring_addr`: its address (high half zero), its
/// size, its head at `current_idx`, its tail at the last descriptor, then
/// reception switched on.
pub open spec fn rx_init_writes(ring_addr: u32, current_idx: u32) -> Seq<NicRegWrite> {
    seq![
        nic_write(NIC_REG_RDBAH, 0),
        nic_write(NIC_REG_RDBAL, ring_addr),
        nic_write(NIC_REG_RDLEN, (RXDESC_SIZE * RXDESC_NUM) as u32),
        nic_write(NIC_REG_RDH, current_idx),
        nic_write(NIC_REG_RDT, (RXDESC_NUM - 1) as u32),
        nic_write(NIC_REG_RCTL, rx_control()),
    ]
}

/// The register writes that set up reception on the ring at `ring_addr`
/// whose next descriptor is `current_idx`, in order.
pub fn rx_init_writes_for(ring_addr: u32, current_idx: u32) -> (r: Vec<NicRegWrite>)
    ensures
        r@ == rx_init_writes(ring_addr, current_idx),
{
    let mut v: Vec<NicRegWrite> = Vec::new();
    v.push(NicRegWrite::new(NIC_REG_RDBAH, 0x00));
    v.push(NicRegWrite::new(NIC_REG_RDBAL, ring_addr));
    v.push(NicRegWrite::new(NIC_REG_RDLEN, rx_desc_data_size() as u32));
    v.push(NicRegWrite::new(NIC_REG_RDH, current_idx));
    v.push(NicRegWrite::new(NIC_REG_RDT, (RXDESC_NUM - 1) as u32));
    v.push(
        NicRegWrite::new(
            NIC_REG_RCTL,
            PACKET_RBSIZE_BIT | NIC_RCTL_BAM | NIC_RCTL_MPE | NIC_RCTL_UPE | NIC_RCTL_SBP | NIC_RCTL_EN,
        ),
    );
    assert(v@ =~= rx_init_writes(ring_addr, current_idx));
    v
}

/// The receive ring: descriptor `i` points at the buffer at
/// `buffer_addrs[i]` (low half), every other field zero.
pub fn rx_descriptors(buffer_addrs: &Vec<u32>) -> (r: Vec<RxDesc>)
    ensures
        r@.len() == buffer_addrs@.len(),
        forall|i: int|
            0 <= i < r@.len() ==> {
                &&& #[trigger] r@[i].recv_buf_addr.desc_base_low == buffer_addrs@[i]
                &&& r@[i].recv_buf_addr.desc_base_high == 0
                &&& r@[i].length == 0 && r@[i].packet_checksum == 0
                &&& r@[i].status == 0 && r@[i].errors == 0 && r@[i].special == 0
            },
{
    let mut ring: Vec<RxDesc> = Vec::new();
    let mut i: usize = 0;
    while i < buffer_addrs.len()
        invariant
            i <= buffer_addrs@.len(),
            ring@.len() == i,
            forall|k: int|
                0 <= k < i ==> {
                    &&& #[trigger] ring@[k].recv_buf_addr.desc_base_low == buffer_addrs@[k]
                    &&& ring@[k].recv_buf_addr.desc_base_high == 0
                    &&& ring@[k].length == 0 && ring@[k].packet_checksum == 0
                    &&& ring@[k].status == 0 && ring@[k].errors == 0 && ring@[k].special == 0
                },
        decreases buffer_addrs@.len() - i,
    {
        let mut desc = RxDesc::new();
        desc.recv_buf_addr.desc_base_low = buffer_addrs[i];
        ring.push(desc);
        i = i + 1;
    }
    ring
}

/// The transmit control value: enabled, short packets padded, collision
/// threshold 15 and collision distance 64.
pub open spec fn tx_control() -> u32 {
    (0x40u32 << NIC_TCTL_COLD_SHIFT) | (0x0fu32 << NIC_TCTL_CT_SHIFT) | NIC_TCTL_PSP | NIC_TCTL_EN
}

/// The transmit ring set up: its address halves, its size, head and tail at
/// `current_idx`, then transmission switched on.
pub open spec fn tx_init_writes(high: u32, low: u32, current_idx: u32) -> Seq<NicRegWrite> {
    seq![
        nic_write(NIC_REG_TDBAH, high),
        nic_write(NIC_REG_TDBAL, low),
        nic_write(NIC_REG_TDLEN, (TXDESC_SIZE * TXDESC_NUM) as u32),
        nic_write(NIC_REG_TDH, current_idx),
        nic_write(NIC_REG_TDT, current_idx),
        nic_write(NIC_REG_TCTL, tx_control()),
    ]
}

/// The register writes that set up transmission with the ring address
/// halves `high` and `low` and `current_idx` as next descriptor, in order.
pub fn tx_init_writes_for(high: u32, low: u32, current_idx: u32) -> (r: Vec<NicRegWrite>)
    ensures
        r@ == tx_init_writes(high, low, current_idx),
{
    let mut v: Vec<NicRegWrite> = Vec::new();
    v.push(NicRegWrite::new(NIC_REG_TDBAH, high));
    v.push(NicRegWrite::new(NIC_REG_TDBAL, low));
    v.push(NicRegWrite::new(NIC_REG_TDLEN, tx_desc_data_size() as u32));
    v.push(NicRegWrite::new(NIC_REG_TDH, current_idx));
    v.push(NicRegWrite::new(NIC_REG_TDT, current_idx));
    v.push(
        NicRegWrite::new(
            NIC_REG_TCTL,
            (0x40 << NIC_TCTL_COLD_SHIFT) | (0x0f << NIC_TCTL_CT_SHIFT) | NIC_TCTL_PSP | NIC_TCTL_EN,
        ),
    );
    assert(v@ =~= tx_init_writes(high, low, current_idx));
    v
}

/// What reading the receive descriptor `desc` at ring index `current_idx`
/// does: the frame read, the tail write that hands the descriptor back to
/// the card, and the next ring index.
pub struct RxStep {
    pub frame: Vec<u8>,
    pub tail_write: Option<NicRegWrite>,
    pub next_idx: usize,
}

/// The card has filled `desc`.
pub open spec fn rx_done(desc: RxDesc) -> bool {
    desc.status & NIC_RDESC_STAT_DD == NIC_RDESC_STAT_DD
}

/// Reads the descriptor `desc` at ring index `current_idx`, where
/// `first_byte` is the byte at the start of its buffer. A filled descriptor
/// gives a frame of `length` bytes, each read again from the start of the
/// buffer, gives the descriptor back to the card by moving the ring tail to
/// it, and moves on to the next index; an unfilled one gives nothing.
pub fn receive_step(desc: &RxDesc, current_idx: usize, first_byte: u8) -> (r: RxStep)
    requires
        current_idx < RXDESC_NUM,
    ensures
        rx_done(*desc) ==> {
            &&& r.frame@ == Seq::new(desc.length as nat, |i: int| first_byte)
            &&& r.tail_write == Some(nic_write(NIC_REG_RDT, current_idx as u32))
            &&& r.next_idx == (current_idx + 1) % (RXDESC_NUM as int)
        },
        !rx_done(*desc) ==> r.frame@ == Seq::<u8>::empty() && r.tail_write is None && r.next_idx == current_idx,
{
    let mut frame: Vec<u8> = Vec::new();
    if desc.status & NIC_RDESC_STAT_DD == NIC_RDESC_STAT_DD {
        let mut k: u16 = 0;
        while k < desc.length
            invariant
                k <= desc.length,
                frame@ == Seq::new(k as nat, |i: int| first_byte),
            decreases desc.length - k,
        {
            frame.push(first_byte);
            assert(frame@ =~= Seq::new((k + 1) as nat, |i: int| first_byte));
            k = k + 1;
        }
        let write = NicRegWrite::new(NIC_REG_RDT, current_idx as u32);
        let next = next_desc_index(current_idx, RXDESC_NUM);
        RxStep { frame, tail_write: Some(write), next_idx: next }
    } else {
        assert(frame@ =~= Seq::<u8>::empty());
        RxStep { frame, tail_write: None, next_idx: current_idx }
    }
}

} // verus!
