use lib::window::{PixelCopy, Window, WindowsManager};

#[test]
fn window_accessors() {
    let mut w = Window::new(3, 10, 20, 16, 8, 0x5000);
    assert_eq!(w.get_base_x(), 10);
    assert_eq!(w.get_base_y(), 20);
    w.set_base_x(-4);
    w.set_base_y(7);
    assert_eq!((w.get_base_x(), w.get_base_y()), (-4, 7));
    let other = Window::new(3, 0, 0, 1, 1, 0);
    assert!(w.equal(&other));
    assert!(w == other);
    assert!(!w.equal(&Window::new(4, 10, 20, 16, 8, 0x5000)));
}

#[test]
fn create_then_remove_window() {
    let mut m = WindowsManager::new(8, 6, 0xa0000, 0x1000);
    let w = m.create_window(1, 2, 2, 3, 3, 0x2000).unwrap();
    assert_eq!(w, Window::new(1, 2, 2, 3, 3, 0x2000));
    assert_eq!(m.remove(w), Ok(()));
    assert_eq!(m.remove(w), Err("Data is not existing.".to_string()));
}

#[test]
fn move_window_keeps_corner_on_screen() {
    let mut m = WindowsManager::new(8, 6, 0xa0000, 0x1000);
    let w = m.create_window(1, 2, 2, 3, 3, 0x2000).unwrap();
    let mut out: Vec<PixelCopy> = Vec::new();
    let moved = m.move_window(w, 1, -1, &mut out).unwrap();
    assert_eq!((moved.get_base_x(), moved.get_base_y()), (3, 1));
    let moved = m.move_window(moved, 100, 100, &mut out).unwrap();
    assert_eq!((moved.get_base_x(), moved.get_base_y()), (7, 5));
    let moved = m.move_window(moved, -100, -100, &mut out).unwrap();
    assert_eq!((moved.get_base_x(), moved.get_base_y()), (0, 0));
    // only the low 16 bits count, read as signed
    let moved = m.move_window(moved, 0x10002, 0x1ffff, &mut out).unwrap();
    assert_eq!((moved.get_base_x(), moved.get_base_y()), (2, 0));
    assert!(!out.is_empty());
    let missing = Window::new(9, 0, 0, 1, 1, 0);
    assert_eq!(
        m.move_window(missing, 1, 1, &mut out),
        Err("In move_window, window is not existing.".to_string())
    );
}

#[test]
fn move_window_redraws_both_places() {
    let mut m = WindowsManager::new(4, 4, 0, 0x100);
    let w = m.create_window(1, 0, 0, 2, 2, 0x200).unwrap();
    let mut out: Vec<PixelCopy> = Vec::new();
    m.move_window(w, 2, 2, &mut out).unwrap();
    // the old place shows the background again, the new place the window
    assert!(out.contains(&PixelCopy { vram_offset: 0, buf: 0x100, buf_offset: 0 }));
    assert!(out.contains(&PixelCopy { vram_offset: 2 * 4 + 2, buf: 0x200, buf_offset: 0 }));
    assert!(out.contains(&PixelCopy { vram_offset: 3 * 4 + 3, buf: 0x200, buf_offset: 3 }));
}

#[test]
fn refresh_windows_reports_top_overrun() {
    let m = WindowsManager::new(4, 4, 0, 0x100);
    let w = Window::new(0, 0, 0, 4, 4, 0x100);
    let mut out: Vec<PixelCopy> = Vec::new();
    assert_eq!(
        m.refresh_windows(0, 0, w, 0, 5, &mut out),
        Err("get_data_from_position is error in refresh_windows".to_string())
    );
    assert_eq!(out.len(), 16);
    let mut out2: Vec<PixelCopy> = Vec::new();
    assert_eq!(m.refresh_windows(0, 0, w, 1, 0, &mut out2), Ok(()));
    assert!(out2.is_empty());
}

#[test]
fn move_by_nothing_keeps_place() {
    let mut m = WindowsManager::new(8, 6, 0, 0x1000);
    let w = m.create_window(1, 2, 3, 2, 2, 0x2000).unwrap();
    let mut out: Vec<PixelCopy> = Vec::new();
    let moved = m.move_window(w, 0, 0, &mut out).unwrap();
    assert_eq!((moved.get_base_x(), moved.get_base_y()), (2, 3));
}

#[test]
fn top_window_is_shown_where_windows_overlap() {
    let mut m = WindowsManager::new(4, 4, 0, 0x100);
    m.create_window(1, 0, 0, 3, 3, 0x200).unwrap();
    m.create_window(2, 1, 1, 3, 3, 0x300).unwrap();
    let screen = Window::new(0, 0, 0, 4, 4, 0x100);
    let mut out: Vec<PixelCopy> = Vec::new();
    assert_eq!(m.refresh_windows(0, 0, screen, 0, 2, &mut out), Ok(()));
    assert!(out.contains(&PixelCopy { vram_offset: 5, buf: 0x300, buf_offset: 0 }));
    assert!(!out.iter().any(|c| c.vram_offset == 5 && c.buf != 0x300));
    assert!(out.contains(&PixelCopy { vram_offset: 0, buf: 0x200, buf_offset: 0 }));
    assert!(out.contains(&PixelCopy { vram_offset: 3, buf: 0x100, buf_offset: 3 }));
    assert_eq!(out.len(), 16);
}
