use lib::arch::boot_info::BootInfo;
use lib::arch::dsctbl::{DscTbl, GDT_ENTRIES, IDT_ENTRIES};
use lib::arch::graphic::{Graphic, RGBElement, RGB};
use lib::arch::keyboard;
use lib::arch::mouse::{self, MouseBuf};
use lib::arch::pic::{acknowledge_irq7, allow_mouse_int, init_pic, PIC0_IMR, PIC0_OCW2, PIC1_IMR};
use lib::arch::port::PortWrite;
use lib::arch::timer::{get_uptime, timer_init, Timer, TimerCtrl, TimerFlag, UptimeCounter};
use lib::queue::SimpleQueue;

fn w(port: i32, data: i32) -> PortWrite {
    PortWrite::new(port, data)
}

#[test]
fn pic_initialisation_sequence() {
    let v = init_pic();
    assert_eq!(
        v,
        vec![
            w(0x21, 0xff),
            w(0xa1, 0xff),
            w(0x20, 0x11),
            w(0x21, 0x20),
            w(0x21, 0x04),
            w(0x21, 0x01),
            w(0xa0, 0x11),
            w(0xa1, 0x28),
            w(0xa1, 0x02),
            w(0xa1, 0x01),
            w(0x21, 0xfb),
            w(0xa1, 0xff),
        ]
    );
    assert_eq!(allow_mouse_int(), w(PIC1_IMR, 0xef));
    assert_eq!(acknowledge_irq7(), w(PIC0_OCW2, 0x67));
    assert_eq!(PIC0_IMR, 0x21);
}

#[test]
fn timer_programming_and_uptime() {
    assert_eq!(timer_init(), vec![w(0x43, 0x34), w(0x40, 0x9c), w(0x40, 0x2e)]);
    let mut c = UptimeCounter::new();
    assert_eq!(get_uptime(&c), 0);
    assert_eq!(c.tick(), w(0x20, 0x60));
    c.tick();
    c.tick();
    assert_eq!(get_uptime(&c), 3);
}

#[test]
fn timer_list() {
    let mut ctrl = TimerCtrl::init();
    assert_eq!(ctrl.get_count(), 0);
    let t = Timer::new(100, TimerFlag::USING, 7);
    assert_eq!(t.timeout, 100);
    assert_eq!(t.data, 7);
    assert!(t.queue.is_empty());
    ctrl.init_add(t);
    ctrl.add(Timer::new(5, TimerFlag::ALLOC, 1));
    assert_eq!(ctrl.get_count(), 0);
    let c2 = TimerCtrl::new(10);
    assert_eq!(c2.get_count(), 0);
}

#[test]
fn any_two_timers_compare_equal() {
    let a = Timer::new(1, TimerFlag::USING, 1);
    let b = Timer::new(2, TimerFlag::ALLOC, 2);
    assert!(a == b);
    assert!(TimerFlag::USING != TimerFlag::ALLOC);
}

#[test]
fn boot_info_fields() {
    let bi = BootInfo::new(10, 0, 8, 320, 200, 0xa0000);
    assert_eq!(bi.scrnx, 320);
    assert_eq!(bi.scrny, 200);
    assert_eq!(bi.vram, 0xa0000);
    assert_eq!(bi.vmode, 8);
}

#[test]
fn colours_and_palette_numbers() {
    let all = RGB::iterator();
    assert_eq!(all.len(), 16);
    for (k, c) in all.iter().enumerate() {
        assert_eq!(c.palette_no() as usize, k);
    }
    assert_eq!(RGB::Gray.value(), RGBElement::new(0xc6, 0xc6, 0xc6));
    assert_eq!(RGB::DarkLightBlue.palette_no(), 14);
    assert_eq!(RGB::Purple.r(), 0xff);
    assert_eq!(RGB::Purple.g(), 0x00);
    assert_eq!(RGB::Purple.b(), 0xff);
}

#[test]
fn palette_programming() {
    let v = Graphic::init();
    assert_eq!(v.len(), 49);
    assert_eq!(v[0], w(0x3c8, 0));
    // black
    assert_eq!(&v[1..4], &[w(0x3c9, 0), w(0x3c9, 0), w(0x3c9, 0)]);
    // red: its red, then its blue twice
    assert_eq!(&v[4..7], &[w(0x3c9, 0x3f), w(0x3c9, 0), w(0x3c9, 0)]);
    // gray
    assert_eq!(&v[25..28], &[w(0x3c9, 0x31), w(0x3c9, 0x31), w(0x3c9, 0x31)]);
    // dark light blue: no red, blue 0x84 >> 2
    assert_eq!(&v[43..46], &[w(0x3c9, 0), w(0x3c9, 0x21), w(0x3c9, 0x21)]);
}

fn px(vram: &[u8], w: usize, x: usize, y: usize) -> u8 {
    vram[y * w + x]
}

#[test]
fn desktop_paints_background_and_task_bar() {
    let g = Graphic::new(BootInfo::new(0, 0, 8, 60, 40, 0xa0000), [0u8; 4096]);
    let mut s = vec![99u8; 60 * 40];
    g.init_screen(&mut s);
    assert_eq!(px(&s, 60, 0, 0), 14);
    assert_eq!(px(&s, 60, 58, 10), 14);
    assert_eq!(px(&s, 60, 59, 10), 99);
    assert_eq!(px(&s, 60, 0, 11), 99);
    assert_eq!(px(&s, 60, 0, 13), 99);
    assert_eq!(px(&s, 60, 0, 14), 8);
    assert_eq!(px(&s, 60, 58, 38), 8);
    assert_eq!(px(&s, 60, 0, 39), 99);
    assert_eq!(px(&s, 60, 59, 38), 99);
    assert_eq!(s.iter().filter(|&&c| c == 14).count(), 59 * 11);
    assert_eq!(s.iter().filter(|&&c| c == 8).count(), 59 * 25);
}

#[test]
fn boxfill_leaves_ends_out() {
    let g = Graphic::new(BootInfo::new(0, 0, 8, 8, 8, 0), [0u8; 4096]);
    let mut s = vec![0u8; 64];
    g.boxfill(&mut s, 3, 1, 2, 4, 5);
    for y in 0..8 {
        for x in 0..8 {
            let inside = (1..4).contains(&x) && (2..5).contains(&y);
            assert_eq!(px(&s, 8, x, y), if inside { 3 } else { 0 });
        }
    }
    g.boxfill(&mut s, 7, 2, 2, 2, 6);
    g.boxfill(&mut s, 7, 2, 6, 5, 6);
    assert_eq!(px(&s, 8, 2, 3), 3);
    assert_eq!(s.iter().filter(|&&c| c == 7).count(), 0);
}

#[test]
fn putfont_draws_character_z() {
    let mut fonts = [0u8; 4096];
    fonts[0x5a * 16] = 0x81;
    fonts[0x5a * 16 + 15] = 0x3c;
    let g = Graphic::new(BootInfo::new(0, 0, 8, 20, 20, 0), fonts);
    let mut s = vec![1u8; 400];
    g.putfont_asc(&mut s, 2, 3, 9);
    assert_eq!(px(&s, 20, 2, 3), 9);
    assert_eq!(px(&s, 20, 9, 3), 9);
    assert_eq!(px(&s, 20, 3, 3), 1);
    assert_eq!(px(&s, 20, 4, 18), 9);
    assert_eq!(px(&s, 20, 7, 18), 9);
    assert_eq!(px(&s, 20, 3, 18), 1);
    assert_eq!(px(&s, 20, 8, 18), 1);
    assert_eq!(px(&s, 20, 5, 10), 1);
    assert_eq!(px(&s, 20, 4, 19), 1);
    assert_eq!(s.iter().filter(|&&c| c == 9).count(), 6);
}

#[test]
fn putfont_past_right_edge_continues_on_next_line() {
    let mut fonts = [0u8; 4096];
    fonts[0x5a * 16] = 0x01;
    let g = Graphic::new(BootInfo::new(0, 0, 8, 20, 20, 0), fonts);
    let mut s = vec![0u8; 400];
    g.putfont_asc(&mut s, 15, 0, 5);
    assert_eq!(px(&s, 20, 2, 1), 5);
    assert_eq!(s.iter().filter(|&&c| c == 5).count(), 1);
}

#[test]
fn descriptor_tables() {
    let t = DscTbl::init_gdt_idt(0x1111_2222, 0x3333_4444, 0x5555_6666);
    assert_eq!(t.segment_descriptor_table.len(), GDT_ENTRIES);
    assert_eq!(t.gate_descriptor_table.len(), IDT_ENTRIES);
    assert!(t.segment_descriptor_table[0].is_none());
    let data = t.segment_descriptor_table[1].unwrap();
    assert_eq!(data.limit_low, 0xffff);
    assert_eq!(data.base_low, 0);
    assert_eq!(data.access_right, 0x92);
    assert_eq!(data.limit_high, 0xcf);
    let code = t.segment_descriptor_table[2].unwrap();
    assert_eq!(code.limit_low, 0xffff);
    assert_eq!(code.base_mid, 0x28);
    assert_eq!(code.access_right, 0x9a);
    assert_eq!(code.limit_high, 0x47);
    let kb = t.gate_descriptor_table[0x21];
    assert_eq!(kb.offset_low, 0x2222);
    assert_eq!(kb.offset_high, 0x1111);
    assert_eq!(kb.selector, 16);
    assert_eq!(kb.access_right, 0x8e);
    assert_eq!(kb.dw_count, 0);
    assert_eq!(t.gate_descriptor_table[0x2c].offset_low, 0x6666);
    assert_eq!(t.gate_descriptor_table[0x27].offset_high, 0x3333);
    assert_eq!(t.gate_descriptor_table[0x20].selector, 0);
    assert_eq!(DscTbl::segment_address(2), 0x00270010);
    assert_eq!(DscTbl::gate_address(0x21), 0x0026f908);
}

#[test]
fn segment_descriptor_of_small_limit() {
    let e = DscTbl::set_segmdesc(3, 0x12345, 0xaabbccdd, 0x409a);
    assert_eq!(e.limit_low, 0x2345);
    assert_eq!(e.limit_high, 0x41);
    assert_eq!(e.base_low, 0xccdd);
    assert_eq!(e.base_mid, 0xbb);
    assert_eq!(e.base_high, 0xaa);
    assert_eq!(e.access_right, 0x9a);
}

#[test]
fn keyboard_queue_drops_releases() {
    let mut q: SimpleQueue<i32> = SimpleQueue::new();
    keyboard::store_data(&mut q, 0x1e);
    keyboard::store_data(&mut q, 0x9e);
    assert_eq!(q.len(), 1);
    assert_eq!(keyboard::get_data(&mut q), Ok(0x1e));
    assert_eq!(keyboard::get_data(&mut q), Err(()));
}

#[test]
fn mouse_decodes_packets() {
    let mut m = MouseBuf::new();
    assert_eq!(m.get_status(), (0, 0, 0));
    assert_eq!(m.get_from_mouse_dev(0x12), Err(()));
    assert_eq!(m.get_from_mouse_dev(0xfa), Ok(0));
    // a first byte without bit 3 is skipped
    assert_eq!(m.get_from_mouse_dev(0x00), Ok(0));
    assert_eq!(m.phase, 1);
    assert_eq!(m.get_from_mouse_dev(0x09), Ok(0));
    assert_eq!(m.get_from_mouse_dev(5), Ok(0));
    assert_eq!(m.get_from_mouse_dev(3), Ok(1));
    assert_eq!(m.get_status(), (1, 5, -3));
    assert_eq!(m.phase, 1);
}

#[test]
fn mouse_negative_movement() {
    let mut m = MouseBuf::new();
    m.get_from_mouse_dev(0xfa).unwrap();
    m.get_from_mouse_dev(0x38).unwrap();
    m.get_from_mouse_dev(0xfe).unwrap();
    assert_eq!(m.get_from_mouse_dev(0xfd), Ok(1));
    assert_eq!(m.get_status(), (0, 0x7ffffffe, -0x7ffffffd));
}

#[test]
fn mouse_get_data_from_queue() {
    let mut q: SimpleQueue<i32> = SimpleQueue::new();
    let mut m = MouseBuf::new();
    assert_eq!(mouse::get_data(&mut q, &mut m), Err("dequeue is error at mouse.".to_string()));
    mouse::store_data(&mut q, 0x33);
    assert_eq!(mouse::get_data(&mut q, &mut m), Err("get_from_mouse_dev is Error.".to_string()));
    for b in [0xfa, 0x08, 2, 4] {
        mouse::store_data(&mut q, b);
    }
    assert_eq!(mouse::get_data(&mut q, &mut m), Ok(None));
    assert_eq!(mouse::get_data(&mut q, &mut m), Ok(None));
    assert_eq!(mouse::get_data(&mut q, &mut m), Ok(None));
    assert_eq!(mouse::get_data(&mut q, &mut m), Ok(Some((0, 2, -4))));
}

#[test]
fn mouse_get_data_advances_decoder() {
    let mut q: SimpleQueue<i32> = SimpleQueue::new();
    let mut m = MouseBuf::new();
    for b in [0xfa, 0x40, 0x18, 7] {
        mouse::store_data(&mut q, b);
    }
    assert_eq!(mouse::get_data(&mut q, &mut m), Ok(None));
    assert_eq!(m.phase, 1);
    assert_eq!(mouse::get_data(&mut q, &mut m), Ok(None));
    assert_eq!(m.phase, 1);
    assert_eq!(mouse::get_data(&mut q, &mut m), Ok(None));
    assert_eq!((m.phase, m.buf[0]), (2, 0x18));
    assert_eq!(mouse::get_data(&mut q, &mut m), Ok(None));
    assert_eq!((m.phase, m.buf[1]), (3, 7));
    assert_eq!(m.get_status(), (0, 0, 0));
}

#[test]
fn descriptor_table_memory_image() {
    let t = DscTbl::init_gdt_idt(0x1111_2222, 0x3333_4444, 0x5555_6666);
    let g = t.gdt_writes();
    assert_eq!(g.len(), GDT_ENTRIES);
    assert!(g[0].is_none());
    let w1 = g[1].unwrap();
    assert_eq!(w1.addr, 0x0027_0008);
    assert_eq!(w1.bytes, [0xff, 0xff, 0x00, 0x00, 0x00, 0x92, 0xcf, 0x00]);
    assert_eq!(g.iter().filter(|w| w.is_some()).count(), 2);
    let i = t.idt_writes();
    assert_eq!(i.len(), IDT_ENTRIES);
    assert_eq!(i[0x21].addr, 0x0026_f908);
    assert_eq!(i[0x21].bytes, [0x22, 0x22, 0x10, 0x00, 0x00, 0x8e, 0x11, 0x11]);
    assert_eq!(i[0].bytes, [0; 8]);
    assert_eq!(DscTbl::gdtr(), (0xffff, 0x0027_0000));
    assert_eq!(DscTbl::idtr(), (0x7ff, 0x0026_f800));
}
