use lib::driver::pci::{
    bar_labels, command_status_items, command_with, dump_bar, dump_command_status, get_nic_reg_base, next_desc_index, receive_step,
    rx_desc_data_size, rx_descriptors, rx_init_writes_for, tx_desc_data_size, tx_init_writes_for,
    vendor_device_ids, BarLabel, BaseAddressRegister, ReportLine, ReportText, BufferAddr, NicRegWrite, PciCommand,
    PciConfiguration, PciStatus, RxDesc, TxDesc, PCI_COM_BUS_MASTER_EN, PCI_COM_INTR_DIS,
};

#[test]
fn configuration_address_fields() {
    let mut c = PciConfiguration::new(true, 0, 3, 0, 0x10);
    assert_eq!(c.0, 0x8000_1810);
    assert!(c.enabled());
    assert_eq!(c.get_bus_num(), 0);
    assert_eq!(c.get_device_num(), 3);
    assert_eq!(c.get_reg_addr(), 0x10);
    c.set_bus_num(5);
    assert_eq!(c.get_bus_num(), 5);
    c.set_device_num(31);
    assert_eq!(c.get_device_num(), 31);
    c.set_reg_addr(0x04);
    assert_eq!(c.get_reg_addr(), 0x04);
    c.set_fn_num(7);
    assert_eq!(c.0 & 0x700, 0x700);
    // the function field is read through the wrong mask
    assert_eq!(c.get_fn_num(), 0);
    c.set_disable();
    assert!(!c.enabled());
    c.set_enable();
    assert!(!c.enabled());
    let d = PciConfiguration::new(false, 1, 2, 3, 4);
    assert_eq!(d.0, 0x0001_1304);
}

#[test]
fn base_address_register_kinds() {
    let io = BaseAddressRegister::new(0xc001u32 as i32);
    assert!(io.io_address());
    assert!(!io.memory_32bit_type());
    assert!(!io.memory_1m_type());
    assert!(!io.memory_64bit_type());
    assert_eq!(io.base_addr(), 0xc000);
    let mem = BaseAddressRegister::new(0xfebc_0008u32 as i32);
    assert!(!mem.io_address());
    assert!(mem.memory_32bit_type());
    assert!(mem.prefetchable());
    assert_eq!(mem.base_addr(), 0xfebc_0008);
    assert_eq!(get_nic_reg_base(0xfebc_000cu32 as i32), 0xfebc_0008);
    assert_eq!(get_nic_reg_base(0x0000_c003), 0xc000);
}

#[test]
fn bar_reports() {
    assert_eq!(bar_labels(&BaseAddressRegister::new(0xc001)), vec![BarLabel::IoBase]);
    assert_eq!(
        bar_labels(&BaseAddressRegister::new(0xfebc_0000u32 as i32)),
        vec![BarLabel::MemBase32, BarLabel::NonPrefetchable]
    );
    assert_eq!(
        bar_labels(&BaseAddressRegister::new(0x0000_000c)),
        vec![BarLabel::MemBase64Upper, BarLabel::MemBase64, BarLabel::Prefetchable]
    );
    assert_eq!(
        bar_labels(&BaseAddressRegister::new(0x0000_0006)),
        vec![BarLabel::MemBase1M, BarLabel::MemBase64Upper, BarLabel::MemBase64, BarLabel::NonPrefetchable]
    );
}

#[test]
fn ids_and_command_updates() {
    assert_eq!(vendor_device_ids(0x100e_8086), (0x8086, 0x100e));
    assert_eq!(command_with(0x0290_0007, PCI_COM_INTR_DIS), 0x0407);
    assert_eq!(command_with(0x0290_0003, PCI_COM_BUS_MASTER_EN), 0x0007);
}

#[test]
fn command_and_status_report() {
    let (commands, statuses) = command_status_items(0x0290_0107);
    assert_eq!(commands, vec![PciCommand::IoEn, PciCommand::MemEn, PciCommand::BusMasterEn, PciCommand::SerrEn]);
    assert_eq!(statuses, vec![PciStatus::MultFunc, PciStatus::FastBack2back, PciStatus::DevselMid]);
    assert_eq!(PciCommand::IntrDis.label(), "INTR_DIS");
    assert_eq!(PciCommand::IntrDis.bit(), 0x400);
    assert_eq!(PciStatus::DevselMid.label(), "DEVSEL_MID");
    assert!(PciStatus::DevselFast.holds(0));
    let (c, s) = command_status_items(0);
    assert!(c.is_empty());
    assert_eq!(s, vec![PciStatus::DevselFast]);
}

#[test]
fn descriptors() {
    let b = BufferAddr::new();
    assert_eq!((b.low(), b.high()), (0, 0));
    let b = BufferAddr::new_const();
    assert_eq!((b.low(), b.high()), (0, 0));
    let r = RxDesc::new();
    assert_eq!((r.length, r.status), (0, 0));
    let r = RxDesc::new_const();
    assert_eq!(r.recv_buf_addr.low(), 0);
    let t = TxDesc::new();
    assert_eq!(t.cmd, 0x09);
    assert_eq!(TxDesc::new_const().cmd, 0x09);
    assert_eq!(rx_desc_data_size(), 1280);
    assert_eq!(tx_desc_data_size(), 2560);
    assert_eq!(next_desc_index(3, 80), 4);
    assert_eq!(next_desc_index(79, 80), 0);
}

#[test]
fn receive_ring_setup() {
    let w = rx_init_writes_for(0x0010_0000, 0);
    assert_eq!(
        w,
        vec![
            NicRegWrite::new(0x2804, 0),
            NicRegWrite::new(0x2800, 0x0010_0000),
            NicRegWrite::new(0x2808, 1280),
            NicRegWrite::new(0x2810, 0),
            NicRegWrite::new(0x2818, 79),
            NicRegWrite::new(0x0100, 0x1801e),
        ]
    );
    let ring = rx_descriptors(&vec![0x1000, 0x1400, 0x1800]);
    assert_eq!(ring.len(), 3);
    assert_eq!(ring[1].recv_buf_addr.low(), 0x1400);
    assert_eq!(ring[2].recv_buf_addr.high(), 0);
    assert_eq!(ring[0].status, 0);
}

#[test]
fn transmit_ring_setup() {
    let w = tx_init_writes_for(0, 0x0020_0000, 5);
    assert_eq!(
        w,
        vec![
            NicRegWrite::new(0x3804, 0),
            NicRegWrite::new(0x3800, 0x0020_0000),
            NicRegWrite::new(0x3808, 2560),
            NicRegWrite::new(0x3810, 5),
            NicRegWrite::new(0x3818, 5),
            NicRegWrite::new(0x0400, 0x4_00fa),
        ]
    );
}

#[test]
fn receive_filled_and_empty_descriptors() {
    let mut d = RxDesc::new();
    let r = receive_step(&d, 79, 0xab);
    assert!(r.frame.is_empty());
    assert_eq!(r.tail_write, None);
    assert_eq!(r.next_idx, 79);
    d.status = 0x03;
    d.length = 4;
    let r = receive_step(&d, 79, 0xab);
    assert_eq!(r.frame, vec![0xab; 4]);
    assert_eq!(r.tail_write, Some(NicRegWrite::new(0x2818, 79)));
    assert_eq!(r.next_idx, 0);
}

fn line(x: u32, y: u32, text: ReportText) -> ReportLine {
    ReportLine { x, y, text }
}

#[test]
fn command_status_report_lines() {
    assert_eq!(
        dump_command_status(0x0010_0007),
        vec![
            line(400, 215, ReportText::Command(PciCommand::IoEn)),
            line(400, 230, ReportText::Command(PciCommand::MemEn)),
            line(400, 245, ReportText::Command(PciCommand::BusMasterEn)),
            line(500, 215, ReportText::Status(PciStatus::MultFunc)),
            line(500, 230, ReportText::Status(PciStatus::DevselFast)),
        ]
    );
}

#[test]
fn bar_report_lines() {
    assert_eq!(
        dump_bar(&BaseAddressRegister::new(0xfebc_0000u32 as i32), 0),
        vec![
            line(800, 50, ReportText::Bar(BarLabel::MemBase32)),
            line(800, 65, ReportText::Hex(0xfebc_0000)),
            line(800, 80, ReportText::Bar(BarLabel::NonPrefetchable)),
        ]
    );
    assert_eq!(
        dump_bar(&BaseAddressRegister::new(0xc001), 0),
        vec![line(800, 50, ReportText::Bar(BarLabel::IoBase)), line(800, 65, ReportText::Hex(0xc000))]
    );
    assert_eq!(
        dump_bar(&BaseAddressRegister::new(0xfe00_000c_u32 as i32), 0x12),
        vec![
            line(800, 50, ReportText::Bar(BarLabel::MemBase64Upper)),
            line(800, 65, ReportText::Hex(0x12)),
            line(800, 65, ReportText::Bar(BarLabel::MemBase64)),
            line(800, 80, ReportText::Hex(0xfe00_0008)),
            line(800, 95, ReportText::Bar(BarLabel::Prefetchable)),
        ]
    );
}

#[test]
fn bar_label_texts() {
    assert_eq!(BarLabel::MemBase64Upper.label(), "MEM BASE 64BIT UPPER");
    assert_eq!(BarLabel::NonPrefetchable.label(), "NON PREFETCHABLE");
    assert_eq!(BarLabel::IoBase.label(), "IO BASE");
}
