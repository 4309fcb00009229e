//! Stacked windows: a list from bottom to top, a map of which window shows
//! at each pixel of the screen, and the pixel copies that redraw them.
use vstd::prelude::*;
use vstd::arithmetic::div_mod::{
    lemma_fundamental_div_mod, lemma_fundamental_div_mod_converse_div,
    lemma_fundamental_div_mod_converse_mod,
};
use crate::linked_list::LinkedList;
use crate::search::{has_match, first_match, first_match_at, lemma_first_match_exists, lemma_first_match_unique};

verus! {

/// A window: its position on the screen, its size, and the address of its
/// pixels, row by row.
#[derive(Clone, Copy, Debug)]
pub struct Window {
    pub id: usize,
    pub base_x: i32,
    pub base_y: i32,
    pub xsize: u16,
    pub ysize: u16,
    pub buf: usize,
}

impl PartialEq for Window {
    fn eq(&self, other: &Window) -> (r: bool) {
        self.id == other.id
    }
}

impl vstd::std_specs::cmp::PartialEqSpecImpl for Window {
    open spec fn obeys_eq_spec() -> bool {
        true
    }

    /// Windows are the same window when their ids are equal.
    open spec fn eq_spec(&self, other: &Window) -> bool {
        self.id == other.id
    }
}

impl Window {
    /// A window with id `id`.
    pub fn new(id: usize, base_x: i32, base_y: i32, xsize: u16, ysize: u16, buf: usize) -> (r: Window)
        ensures
            r == (Window { id, base_x, base_y, xsize, ysize, buf }),
    {
        Window { id, base_x, base_y, xsize, ysize, buf }
    }

    /// Moves the window's left edge to `x`.
    pub fn set_base_x(&mut self, x: i32)
        ensures
            *final(self) == (Window { base_x: x, ..*old(self) }),
    {
        self.base_x = x;
    }

    /// The window's left edge.
    pub fn get_base_x(&self) -> (r: i32)
        ensures
            r == self.base_x,
    {
        self.base_x
    }

    /// Moves the window's top edge to `y`.
    pub fn set_base_y(&mut self, y: i32)
        ensures
            *final(self) == (Window { base_y: y, ..*old(self) }),
    {
        self.base_y = y;
    }

    /// The window's top edge.
    pub fn get_base_y(&self) -> (r: i32)
        ensures
            r == self.base_y,
    {
        self.base_y
    }

    /// Whether `other` is the same window.
    pub fn equal(&self, other: &Window) -> (r: bool)
        ensures
            r == (self.id == other.id),
    {
        self.id == other.id
    }
}

/// The window covers pixel `(px, py)`.
pub open spec fn covers(w: Window, px: int, py: int) -> bool {
    w.base_x <= px < w.base_x + w.xsize && w.base_y <= py < w.base_y + w.ysize
}

/// The id of the highest window among `ws[from..to]` that covers `(px, py)`.
pub open spec fn topmost(ws: Seq<Window>, from: int, to: int, px: int, py: int) -> Option<usize>
    decreases to - from,
{
    if to <= from {
        None
    } else if covers(ws[to - 1], px, py) {
        Some(ws[to - 1].id)
    } else {
        topmost(ws, from, to - 1, px, py)
    }
}

/// Pixel `(px, py)` lies in the rectangle `[r.0, r.2) x [r.1, r.3)`.
pub open spec fn in_rect(r: (int, int, int, int), px: int, py: int) -> bool {
    r.0 <= px < r.2 && r.1 <= py < r.3
}

/// The part of the screen a window of `xsize` by `ysize` at `(base_x,
/// base_y)` takes, as `(from_x, from_y, to_x, to_y)`: a negative base counts
/// as 0, a base is taken modulo 2^16, and the far edges stop at the screen's.
pub open spec fn adjusted(base_x: i32, base_y: i32, xsize: u16, ysize: u16, scrnx: u16, scrny: u16) -> (
    int,
    int,
    int,
    int,
) {
    let fx: int = if base_x < 0 { 0 } else { base_x as u16 as int };
    let fy: int = if base_y < 0 { 0 } else { base_y as u16 as int };
    (
        fx,
        fy,
        if fx + xsize > scrnx { scrnx as int } else { fx + xsize },
        if fy + ysize > scrny { scrny as int } else { fy + ysize },
    )
}

/// The window map after the windows `ws[from..to]` were drawn into it over
/// the rectangle `rect`: a pixel of `rect` shows the highest of them that
/// covers it, other pixels keep their window.
pub open spec fn refreshed(
    map: Seq<usize>,
    ws: Seq<Window>,
    from: int,
    to: int,
    rect: (int, int, int, int),
    scrnx: int,
) -> Seq<usize> {
    Seq::new(
        map.len(),
        |i: int|
            {
                let px = i % scrnx;
                let py = i / scrnx;
                if in_rect(rect, px, py) && topmost(ws, from, to, px, py) is Some {
                    topmost(ws, from, to, px, py)->Some_0
                } else {
                    map[i]
                }
            },
    )
}

/// A pixel to copy from a window's buffer to the screen.
#[derive(Clone, Copy, Debug, PartialEq, Eq, Structural)]
pub struct PixelCopy {
    /// The pixel's offset in video memory.
    pub vram_offset: usize,
    /// The address of the window's pixels.
    pub buf: usize,
    /// The pixel's offset in the window's pixels.
    pub buf_offset: usize,
}

/// The copies for the pixels `px0 <= px < px1` of row `py` that window `w`
/// shows according to `map`, left to right.
pub open spec fn row_copies(w: Window, map: Seq<usize>, scrnx: int, py: int, px0: int, px1: int) -> Seq<PixelCopy>
    decreases px1 - px0,
{
    if px1 <= px0 {
        Seq::empty()
    } else {
        let prev = row_copies(w, map, scrnx, py, px0, px1 - 1);
        let px = px1 - 1;
        let idx = py * scrnx + px;
        if map[idx] == w.id {
            prev.push(
                PixelCopy {
                    vram_offset: idx as usize,
                    buf: w.buf,
                    buf_offset: ((py - w.base_y) * w.xsize + (px - w.base_x)) as usize,
                },
            )
        } else {
            prev
        }
    }
}

/// The copies for the rows `py0 <= py < py1` of `[px0, px1)`, top to bottom.
pub open spec fn rect_copies(
    w: Window,
    map: Seq<usize>,
    scrnx: int,
    px0: int,
    px1: int,
    py0: int,
    py1: int,
) -> Seq<PixelCopy>
    decreases py1 - py0,
{
    if py1 <= py0 {
        Seq::empty()
    } else {
        rect_copies(w, map, scrnx, px0, px1, py0, py1 - 1) + row_copies(w, map, scrnx, py1 - 1, px0, px1)
    }
}

/// The part of `rect` that window `w` covers, as `(px0, px1, py0, py1)`.
pub open spec fn clip(w: Window, rect: (int, int, int, int)) -> (int, int, int, int) {
    (
        if rect.0 > w.base_x { rect.0 } else { w.base_x as int },
        if rect.2 - w.base_x > w.xsize { w.base_x + w.xsize } else { rect.2 },
        if rect.1 > w.base_y { rect.1 } else { w.base_y as int },
        if rect.3 - w.base_y > w.ysize { w.base_y + w.ysize } else { rect.3 },
    )
}

/// The copies that redraw `rect` with the windows `ws[h0..h1]`, bottom
/// window first: each window copies the pixels of `rect` that it covers and
/// that the map says it shows.
pub open spec fn windows_copies(
    ws: Seq<Window>,
    map: Seq<usize>,
    scrnx: int,
    rect: (int, int, int, int),
    h0: int,
    h1: int,
) -> Seq<PixelCopy>
    decreases h1 - h0,
{
    if h1 <= h0 {
        Seq::empty()
    } else {
        let c = clip(ws[h1 - 1], rect);
        windows_copies(ws, map, scrnx, rect, h0, h1 - 1) + rect_copies(ws[h1 - 1], map, scrnx, c.0, c.1, c.2, c.3)
    }
}

/// Pixel `(px, py)` of a screen `scrnx` wide sits at `py * scrnx + px`.
proof fn lemma_pixel_index(scrnx: int, px: int, py: int)
    requires
        scrnx > 0,
        0 <= px < scrnx,
        py >= 0,
    ensures
        (py * scrnx + px) % scrnx == px,
        (py * scrnx + px) / scrnx == py,
        py * scrnx + px >= 0,
{
    lemma_fundamental_div_mod_converse_mod(py * scrnx + px, scrnx, py, px);
    lemma_fundamental_div_mod_converse_div(py * scrnx + px, scrnx, py, px);
    assert(py * scrnx >= 0) by (nonlinear_arith)
        requires
            scrnx > 0,
            py >= 0,
    ;
}

/// An index is the pixel of its remainder and quotient.
proof fn lemma_index_pixel(scrnx: int, i: int)
    requires
        scrnx > 0,
        i >= 0,
    ensures
        i == (i / scrnx) * scrnx + i % scrnx,
        0 <= i % scrnx < scrnx,
        i / scrnx >= 0,
{
    lemma_fundamental_div_mod(i, scrnx);
    assert(0 <= i % scrnx < scrnx && i / scrnx >= 0) by (nonlinear_arith)
        requires
            scrnx > 0,
            i >= 0,
    ;
    assert((i / scrnx) * scrnx == scrnx * (i / scrnx)) by (nonlinear_arith);
}

/// A row index stays inside a map of `scrny + 1` rows.
proof fn lemma_index_bound(scrnx: int, scrny: int, px: int, py: int)
    requires
        0 <= px < scrnx,
        0 <= py < scrny,
    ensures
        0 <= py * scrnx + px < scrnx * scrny + scrnx,
{
    assert(0 <= py * scrnx + px < scrnx * scrny + scrnx) by (nonlinear_arith)
        requires
            0 <= px < scrnx,
            0 <= py < scrny,
    ;
}

/// Sets the pixels `px0 <= px < px1` of row `py` of `map` to `id`.
fn fill_row(map: &mut Vec<usize>, scrnx: u16, scrny: u16, py: i64, px0: i64, px1: i64, id: usize)
    requires
        old(map)@.len() == scrnx * scrny + scrnx,
        0 <= py < scrny,
        0 <= px0,
        px1 <= scrnx,
    ensures
        final(map)@ == Seq::new(
            old(map)@.len(),
            |i: int|
                if i / (scrnx as int) == py && px0 <= i % (scrnx as int) < px1 {
                    id
                } else {
                    old(map)@[i]
                },
        ),
{
    let n = map.len();
    let mut px = px0;
    while px < px1
        invariant
            map@.len() == scrnx * scrny + scrnx,
            n == map@.len(),
            0 <= py < scrny,
            0 <= px0 <= px,
            px <= px1 || px == px0,
            px1 <= scrnx,
            forall|i: int|
                0 <= i < map@.len() ==> #[trigger] map@[i] == if i / (scrnx as int) == py && px0 <= i % (
                scrnx as int) < px {
                    id
                } else {
                    old(map)@[i]
                },
        decreases px1 - px,
    {
        proof {
            lemma_index_bound(scrnx as int, scrny as int, px as int, py as int);
            lemma_pixel_index(scrnx as int, px as int, py as int);
        }
        let idx = (py as usize) * (scrnx as usize) + (px as usize);
        let ghost before = map@;
        map.set(idx, id);
        proof {
            assert forall|i: int| 0 <= i < map@.len() implies #[trigger] map@[i] == if i / (scrnx as int) == py
                && px0 <= i % (scrnx as int) < px + 1 {
                id
            } else {
                old(map)@[i]
            } by {
                lemma_index_pixel(scrnx as int, i);
                if i != idx {
                    assert(before[i] == map@[i]);
                    if i / (scrnx as int) == py && i % (scrnx as int) == px {
                        assert(i == py * scrnx + px);
                    }
                }
            }
        }
        px = px + 1;
    }
    assert(map@ =~= Seq::new(
        old(map)@.len(),
        |i: int|
            if i / (scrnx as int) == py && px0 <= i % (scrnx as int) < px1 {
                id
            } else {
                old(map)@[i]
            },
    ));
}

/// Sets the pixels of `[px0, px1) x [py0, py1)` of `map` to `id`.
fn fill_rect(map: &mut Vec<usize>, scrnx: u16, scrny: u16, px0: i64, px1: i64, py0: i64, py1: i64, id: usize)
    requires
        old(map)@.len() == scrnx * scrny + scrnx,
        0 <= px0,
        px1 <= scrnx,
        0 <= py0,
        py1 <= scrny,
    ensures
        final(map)@ == Seq::new(
            old(map)@.len(),
            |i: int|
                if py0 <= i / (scrnx as int) < py1 && px0 <= i % (scrnx as int) < px1 {
                    id
                } else {
                    old(map)@[i]
                },
        ),
{
    let mut py = py0;
    while py < py1
        invariant
            map@.len() == scrnx * scrny + scrnx,
            0 <= px0,
            px1 <= scrnx,
            0 <= py0,
            py1 <= scrny,
            0 <= py0 <= py,
            py <= py1 || py == py0,
            forall|i: int|
                0 <= i < map@.len() ==> #[trigger] map@[i] == if py0 <= i / (scrnx as int) < py
                    && px0 <= i % (scrnx as int) < px1 {
                    id
                } else {
                    old(map)@[i]
                },
        decreases py1 - py,
    {
        let ghost before = map@;
        fill_row(map, scrnx, scrny, py, px0, px1, id);
        py = py + 1;
        assert forall|i: int| 0 <= i < map@.len() implies #[trigger] map@[i] == if py0 <= i / (scrnx as int) < py
            && px0 <= i % (scrnx as int) < px1 {
            id
        } else {
            old(map)@[i]
        } by {
            assert(before[i] == if py0 <= i / (scrnx as int) < py - 1 && px0 <= i % (
            scrnx as int) < px1 {
                id
            } else {
                old(map)@[i]
            });
        }
    }
    assert(map@ =~= Seq::new(
        old(map)@.len(),
        |i: int|
            if py0 <= i / (scrnx as int) < py1 && px0 <= i % (scrnx as int) < px1 {
                id
            } else {
                old(map)@[i]
            },
    ));
}

/// The windows from bottom to top and the map of which window shows at each
/// pixel of the screen.
pub struct WindowsManager {
    linked_list: LinkedList<Window>,
    windows_map: Vec<usize>,
    scrnx: u16,
    scrny: u16,
    vram: u32,
}

impl WindowsManager {
    /// The windows, bottom first.
    pub closed spec fn windows(&self) -> Seq<Window> {
        self.linked_list@
    }

    /// The id of the window shown at each pixel, row by row, with one spare
    /// row.
    pub closed spec fn map(&self) -> Seq<usize> {
        self.windows_map@
    }

    /// The screen's width.
    pub closed spec fn width(&self) -> u16 {
        self.scrnx
    }

    /// The screen's height.
    pub closed spec fn height(&self) -> u16 {
        self.scrny
    }

    /// The address of video memory.
    pub closed spec fn vram_addr(&self) -> u32 {
        self.vram
    }

    /// Well-formedness: a well-formed list and a map of the screen's size.
    pub closed spec fn wf(&self) -> bool {
        &&& self.linked_list.wf()
        &&& self.windows_map@.len() == self.scrnx * self.scrny + self.scrnx
    }

    /// A well-formed manager's map has one entry per pixel of the screen
    /// and one spare row.
    pub proof fn lemma_map_len(&self)
        requires
            self.wf(),
        ensures
            self.map().len() == self.width() * self.height() + self.width(),
    {
    }

    /// A manager for a `scrnx` by `scrny` screen at `vram` whose one window,
    /// with id 0, covers the screen and keeps its pixels at `buf`.
    pub fn new(scrnx: u16, scrny: u16, vram: u32, buf: usize) -> (r: Self)
        ensures
            r.wf(),
            r.windows() == seq![Window { id: 0, base_x: 0, base_y: 0, xsize: scrnx, ysize: scrny, buf }],
            r.map() == Seq::new((scrnx * scrny + scrnx) as nat, |i: int| 0usize),
            r.width() == scrnx && r.height() == scrny && r.vram_addr() == vram,
    {
        assert(scrnx * scrny + scrnx <= 65535 * 65535 + 65535) by (nonlinear_arith)
            requires
                scrnx <= 65535,
                scrny <= 65535,
        ;
        let window_size: usize = (scrnx as usize) * (scrny as usize) + (scrnx as usize);
        let base_window = Window::new(0, 0, 0, scrnx, scrny, buf);
        let mut linked_list: LinkedList<Window> = LinkedList::new();
        let _ = linked_list.add(base_window);
        let mut windows_map: Vec<usize> = Vec::new();
        let mut i: usize = 0;
        while i < window_size
            invariant
                i <= window_size,
                base_window.id == 0,
                windows_map@ == Seq::new(i as nat, |k: int| 0usize),
            decreases window_size - i,
        {
            windows_map.push(base_window.id);
            i = i + 1;
            assert(windows_map@ =~= Seq::new(i as nat, |k: int| 0usize));
        }
        assert(linked_list@ =~= seq![base_window]);
        WindowsManager { linked_list, windows_map, scrnx, scrny, vram }
    }

    /// The part of the screen a window of `xsize` by `ysize` at `(base_x,
    /// base_y)` takes.
    fn get_adjusted_position(&self, base_x: i32, base_y: i32, xsize: u16, ysize: u16) -> (r: (u16, u16, u16, u16))
        ensures
            (r.0 as int, r.1 as int, r.2 as int, r.3 as int) == adjusted(base_x, base_y, xsize, ysize, self.scrnx, self.scrny),
    {
        let from_x: u16 = if base_x < 0 {
            0
        } else {
            base_x as u16
        };
        let from_y: u16 = if base_y < 0 {
            0
        } else {
            base_y as u16
        };
        let to_x: u16 = if from_x as u32 + xsize as u32 > self.scrnx as u32 {
            self.scrnx
        } else {
            from_x + xsize
        };
        let to_y: u16 = if from_y as u32 + ysize as u32 > self.scrny as u32 {
            self.scrny
        } else {
            from_y + ysize
        };
        (from_x, from_y, to_x, to_y)
    }

    /// Puts `n_w` on top of the windows.
    fn add(&mut self, n_w: Window) -> (r: Result<(), String>)
        requires
            old(self).wf(),
        ensures
            final(self).wf(),
            r is Ok,
            final(self).windows() == old(self).windows().push(n_w),
            final(self).map() == old(self).map(),
            final(self).width() == old(self).width() && final(self).height() == old(self).height(),
            final(self).vram_addr() == old(self).vram_addr(),
    {
        self.linked_list.add(n_w)
    }

    /// Takes the window `t_w` out of the list; the map is left as it is.
    pub fn remove(&mut self, t_w: Window) -> (r: Result<(), String>)
        requires
            old(self).wf(),
        ensures
            final(self).wf(),
            final(self).map() == old(self).map(),
            old(self).windows().len() == 0 ==> (r matches Err(e) && e@ == "LinkedList length is 0."@
                && final(self).windows() == old(self).windows()),
            old(self).windows().len() > 0 && !has_match(old(self).windows(), t_w) ==> (r matches Err(e) && e@
                == "Data is not existing."@ && final(self).windows() == old(self).windows()),
            has_match(old(self).windows(), t_w) ==> r is Ok && final(self).windows() == old(
                self,
            ).windows().remove(first_match(old(self).windows(), t_w)),
    {
        self.linked_list.remove(t_w)
    }

    /// Redraws the map over the part of the screen that `w` takes at
    /// `(base_x, base_y)` with the windows from position `height` up; `num`
    /// is not used.
    pub fn refresh_map(&mut self, base_x: i32, base_y: i32, w: Window, height: usize, num: usize) -> (r: Result<
        (),
        String,
    >)
        requires
            old(self).wf(),
        ensures
            final(self).wf(),
            r is Ok,
            final(self).windows() == old(self).windows(),
            final(self).width() == old(self).width() && final(self).height() == old(self).height(),
            final(self).vram_addr() == old(self).vram_addr(),
            final(self).map() == refreshed(
                old(self).map(),
                old(self).windows(),
                height as int,
                old(self).windows().len() as int,
                adjusted(base_x, base_y, w.xsize, w.ysize, old(self).width(), old(self).height()),
                old(self).width() as int,
            ),
    {
        let (from_x, from_y, to_x, to_y) = self.get_adjusted_position(base_x, base_y, w.xsize, w.ysize);
        let ghost rect = (from_x as int, from_y as int, to_x as int, to_y as int);
        let ghost ws = self.windows();
        let ghost map0 = self.map();
        let ghost sx = self.scrnx as int;
        let len = self.linked_list.len();
        let mut h = height;
        assert(refreshed(map0, ws, height as int, height as int, rect, sx) =~= map0);
        while h < len
            invariant
                self.wf(),
                self.scrnx == old(self).scrnx,
                self.scrny == old(self).scrny,
                self.vram == old(self).vram,
                self.windows() == ws,
                ws.len() == len,
                sx == self.scrnx,
                map0.len() == self.map().len(),
                rect == adjusted(base_x, base_y, w.xsize, w.ysize, self.scrnx, self.scrny),
                rect == (from_x as int, from_y as int, to_x as int, to_y as int),
                to_x <= self.scrnx,
                to_y <= self.scrny,
                height <= h,
                h <= len || h == height,
                self.map() == refreshed(map0, ws, height as int, h as int, rect, sx),
            decreases len - h,
        {
            let wh = self.linked_list.get_data_from_position(h).unwrap();
            let bx = wh.base_x as i64;
            let by = wh.base_y as i64;
            let win_from_x: i64 = if (from_x as i64) - bx < 0 {
                0
            } else {
                (from_x as i64) - bx
            };
            let win_from_y: i64 = if (from_y as i64) - by < 0 {
                0
            } else {
                (from_y as i64) - by
            };
            let win_to_x: i64 = if (to_x as i64) - bx > (wh.xsize as i64) {
                wh.xsize as i64
            } else {
                (to_x as i64) - bx
            };
            let win_to_y: i64 = if (to_y as i64) - by > (wh.ysize as i64) {
                wh.ysize as i64
            } else {
                (to_y as i64) - by
            };
            let ghost before = self.map();
            fill_rect(
                &mut self.windows_map,
                self.scrnx,
                self.scrny,
                bx + win_from_x,
                bx + win_to_x,
                by + win_from_y,
                by + win_to_y,
                wh.id,
            );
            proof {
                let prev = refreshed(map0, ws, height as int, h as int, rect, sx);
                assert forall|i: int| 0 <= i < self.map().len() implies #[trigger] self.map()[i] == refreshed(
                    map0,
                    ws,
                    height as int,
                    h + 1,
                    rect,
                    sx,
                )[i] by {
                    let px = i % sx;
                    let py = i / sx;
                    assert(height <= h);
                    assert(h + 1 > height);
                    assert(topmost(ws, height as int, h + 1, px, py) == if covers(ws[h as int], px, py) {
                        Some(ws[h as int].id)
                    } else {
                        topmost(ws, height as int, h as int, px, py)
                    });
                }
                assert(self.map() =~= refreshed(map0, ws, height as int, h + 1, rect, sx));
            }
            h = h + 1;
        }
        proof {
            if len < height {
                assert(refreshed(map0, ws, height as int, len as int, rect, sx) =~= map0);
                assert(refreshed(map0, ws, height as int, height as int, rect, sx) =~= map0);
            }
        }
        Ok(())
    }

    /// The pixel copies that redraw, over the part of the screen that `w`
    /// takes at `(base_x, base_y)`, the windows at positions `from_height` to
    /// `to_height`: each copies the pixels it covers there that the map says
    /// it shows. They are appended to `out`; an error when `to_height` reaches
    /// past the top window, after the windows below it were done.
    pub fn refresh_windows(
        &self,
        base_x: i32,
        base_y: i32,
        w: Window,
        from_height: usize,
        to_height: usize,
        out: &mut Vec<PixelCopy>,
    ) -> (r: Result<(), String>)
        requires
            self.wf(),
        ensures
            ({
                let len = self.windows().len() as int;
                let height = if to_height > len { len } else { to_height as int };
                &&& (from_height <= height && height == len) ==> (r matches Err(e) && e@
                    == "get_data_from_position is error in refresh_windows"@)
                &&& !(from_height <= height && height == len) ==> r is Ok
                &&& final(out)@ == old(out)@ + windows_copies(
                    self.windows(),
                    self.map(),
                    self.width() as int,
                    adjusted(base_x, base_y, w.xsize, w.ysize, self.width(), self.height()),
                    from_height as int,
                    redraw_end(to_height as int, len),
                )
            }),
    {
        let (from_x, from_y, to_x, to_y) = self.get_adjusted_position(base_x, base_y, w.xsize, w.ysize);
        let ghost rect = (from_x as int, from_y as int, to_x as int, to_y as int);
        let ghost ws = self.windows();
        let ghost map = self.map();
        let ghost sx = self.scrnx as int;
        let linked_list_len: usize = self.linked_list.len();
        let height: usize = if to_height > linked_list_len {
            linked_list_len
        } else {
            to_height
        };
        let mut h = from_height;
        while h <= height
            invariant
                self.wf(),
                ws == self.windows(),
                map == self.map(),
                sx == self.scrnx,
                ws.len() == linked_list_len,
                height <= linked_list_len,
                height == if to_height > linked_list_len { linked_list_len } else { to_height },
                rect == adjusted(base_x, base_y, w.xsize, w.ysize, self.scrnx, self.scrny),
                rect == (from_x as int, from_y as int, to_x as int, to_y as int),
                to_x <= self.scrnx,
                to_y <= self.scrny,
                from_height <= h,
                h <= height + 1 || h == from_height,
                h <= linked_list_len || h == from_height,
                out@ == old(out)@ + windows_copies(ws, map, sx, rect, from_height as int, h as int),
            decreases height + 1 - h,
        {
            if h >= linked_list_len {
                assert(redraw_end(to_height as int, linked_list_len as int) == h);
                assert(rect == adjusted(base_x, base_y, w.xsize, w.ysize, self.width(), self.height()));
                assert(out@ == old(out)@ + windows_copies(
                    self.windows(),
                    self.map(),
                    self.width() as int,
                    adjusted(base_x, base_y, w.xsize, w.ysize, self.width(), self.height()),
                    from_height as int,
                    redraw_end(to_height as int, linked_list_len as int),
                ));
                return Err("get_data_from_position is error in refresh_windows".to_owned());
            }
            let target = self.linked_list.get_data_from_position(h).unwrap();
            let bx = target.base_x as i64;
            let by = target.base_y as i64;
            let win_from_x: i64 = if (from_x as i64) - bx < 0 {
                0
            } else {
                (from_x as i64) - bx
            };
            let win_from_y: i64 = if (from_y as i64) - by < 0 {
                0
            } else {
                (from_y as i64) - by
            };
            let win_to_x: i64 = if (to_x as i64) - bx > (target.xsize as i64) {
                target.xsize as i64
            } else {
                (to_x as i64) - bx
            };
            let win_to_y: i64 = if (to_y as i64) - by > (target.ysize as i64) {
                target.ysize as i64
            } else {
                (to_y as i64) - by
            };
            self.copy_window_part(target, bx + win_from_x, bx + win_to_x, by + win_from_y, by + win_to_y, out);
            assert(out@ =~= old(out)@ + windows_copies(ws, map, sx, rect, from_height as int, h + 1));
            h = h + 1;
        }
        proof {
            let end = redraw_end(to_height as int, linked_list_len as int);
            if from_height > height {
                assert(windows_copies(ws, map, sx, rect, from_height as int, from_height as int) =~= Seq::<
                    PixelCopy,
                >::empty());
                assert(end <= from_height);
                assert(windows_copies(ws, map, sx, rect, from_height as int, end) =~= Seq::<PixelCopy>::empty());
            } else {
                assert(h == height + 1);
                assert(end == h);
            }
        }
        Ok(())
    }

    /// Puts a new window with id `id` on top and draws it into the map.
    pub fn create_window(
        &mut self,
        id: usize,
        base_x: i32,
        base_y: i32,
        xsize: u16,
        ysize: u16,
        buf: usize,
    ) -> (r: Result<Window, String>)
        requires
            old(self).wf(),
        ensures
            final(self).wf(),
            ({
                let n_w = Window { id, base_x, base_y, xsize, ysize, buf };
                let ws = old(self).windows().push(n_w);
                &&& r == Ok::<Window, String>(n_w)
                &&& final(self).windows() == ws
                &&& final(self).map() == refreshed(
                    old(self).map(),
                    ws,
                    first_match(ws, n_w),
                    ws.len() as int,
                    adjusted(base_x, base_y, xsize, ysize, old(self).width(), old(self).height()),
                    old(self).width() as int,
                )
            }),
            final(self).width() == old(self).width() && final(self).height() == old(self).height(),
            final(self).vram_addr() == old(self).vram_addr(),
    {
        let n_w = Window::new(id, base_x, base_y, xsize, ysize, buf);
        let _ = self.add(n_w);
        proof {
            let ws = self.windows();
            assert(ws[ws.len() - 1] == n_w);
            assert(has_match(ws, n_w));
            lemma_first_match_exists(ws, n_w);
        }
        let height = match self.linked_list.get_position_from_data(n_w) {
            Some(h) => h,
            None => {
                return Err("add method is not executed properly in create_window".to_owned());
            },
        };
        let _ = self.refresh_map(base_x, base_y, n_w, height, 66);
        Ok(n_w)
    }

    /// Moves the window `w` by the low 16 bits of `value_x` and `value_y`,
    /// read as signed, keeping its corner on the screen; redraws the map
    /// where it was and where it is, and appends the copies that redraw the
    /// screen there to `out`.
    pub fn move_window(&mut self, w: Window, value_x: i32, value_y: i32, out: &mut Vec<PixelCopy>) -> (r: Result<
        Window,
        String,
    >)
        requires
            old(self).wf(),
            has_match(old(self).windows(), w) ==> {
                let cur = old(self).windows()[first_match(old(self).windows(), w)];
                &&& i32::MIN <= cur.base_x + (value_x as i16) <= i32::MAX
                &&& i32::MIN <= cur.base_y + (value_y as i16) <= i32::MAX
            },
        ensures
            final(self).wf(),
            final(self).width() == old(self).width() && final(self).height() == old(self).height(),
            final(self).vram_addr() == old(self).vram_addr(),
            !has_match(old(self).windows(), w) ==> (r matches Err(e) && e@
                == "In move_window, window is not existing."@ && final(self).windows() == old(self).windows()
                && final(self).map() == old(self).map() && final(out)@ == old(out)@),
            has_match(old(self).windows(), w) ==> ({
                let ws = old(self).windows();
                let p = first_match(ws, w);
                let cur = ws[p];
                let moved = moved_window(cur, value_x, value_y, old(self).width(), old(self).height());
                let ws2 = ws.update(p, moved);
                let sx = old(self).width();
                let sy = old(self).height();
                let old_rect = adjusted(cur.base_x, cur.base_y, cur.xsize, cur.ysize, sx, sy);
                let new_rect = adjusted(moved.base_x, moved.base_y, cur.xsize, cur.ysize, sx, sy);
                let map1 = refreshed(old(self).map(), ws2, 0, ws.len() as int, old_rect, sx as int);
                let map2 = refreshed(map1, ws2, p, ws.len() as int, new_rect, sx as int);
                let to_height = if p == 0 { 0 } else { p - 1 };
                &&& r == Ok::<Window, String>(moved)
                &&& final(self).windows() == ws2
                &&& final(self).map() == map2
                &&& final(out)@ == old(out)@ + windows_copies(ws2, map2, sx as int, old_rect, 0, redraw_end(to_height, ws.len() as int))
                    + windows_copies(ws2, map2, sx as int, new_rect, p, redraw_end(p, ws.len() as int))
            }),
    {
        let height = match self.linked_list.get_position_from_data(w) {
            Some(h) => h,
            None => {
                return Err("In move_window, window is not existing.".to_owned());
            },
        };
        proof {
            lemma_first_match_exists(self.windows(), w);
        }
        let cur = self.linked_list.get_data_from_position(height).unwrap();
        let old_base_x: i32 = cur.base_x;
        let old_base_y: i32 = cur.base_y;
        let x: i32 = (value_x as i16) as i32;
        let y: i32 = (value_y as i16) as i32;
        let sum_x: i32 = cur.base_x + x;
        let mx: i32 = if sum_x < 0 {
            0
        } else if sum_x > self.scrnx as i32 - 1 {
            self.scrnx as i32 - 1
        } else {
            x + cur.base_x
        };
        let sum_y: i32 = cur.base_y + y;
        let my: i32 = if sum_y < 0 {
            0
        } else if sum_y > self.scrny as i32 - 1 {
            self.scrny as i32 - 1
        } else {
            y + cur.base_y
        };
        let mut moved = cur;
        moved.set_base_x(mx);
        moved.set_base_y(my);
        proof {
            let ws = self.windows();
            let p = first_match(ws, w);
            assert(first_match_at(ws, moved, p));
            lemma_first_match_unique(ws, moved, p);
        }
        let _ = self.linked_list.update(moved);
        let _ = self.refresh_map(old_base_x, old_base_y, moved, 0, 15);
        let _ = self.refresh_map(mx, my, moved, height, 30);
        let to_height = if height == 0 {
            0
        } else {
            height - 1
        };
        let _ = self.refresh_windows(old_base_x, old_base_y, moved, 0, to_height, out);
        let _ = self.refresh_windows(mx, my, moved, height, height, out);
        Ok(moved)
    }

    /// Appends the copies for the pixels of `[px0, px1) x [py0, py1)` that
    /// the map says `target` shows.
    fn copy_window_part(
        &self,
        target: Window,
        px0: i64,
        px1: i64,
        py0: i64,
        py1: i64,
        out: &mut Vec<PixelCopy>,
    )
        requires
            self.wf(),
            0 <= px0,
            px1 <= self.scrnx,
            0 <= py0,
            py1 <= self.scrny,
            target.base_x <= px0,
            px1 <= target.base_x + target.xsize,
            target.base_y <= py0,
            py1 <= target.base_y + target.ysize,
        ensures
            final(out)@ == old(out)@ + rect_copies(target, self.map(), self.width() as int, px0 as int, px1 as int, py0 as int, py1 as int),
    {
        let ghost map = self.map();
        let ghost sx = self.scrnx as int;
        let mut py = py0;
        assert(old(out)@ =~= old(out)@ + rect_copies(target, map, sx, px0 as int, px1 as int, py0 as int, py0 as int));
        while py < py1
            invariant
                self.wf(),
                map == self.map(),
                sx == self.scrnx,
                0 <= px0,
                px1 <= self.scrnx,
                0 <= py0 <= py,
                py <= py1 || py == py0,
                py1 <= self.scrny,
                target.base_x <= px0,
                px1 <= target.base_x + target.xsize,
                target.base_y <= py0,
                py1 <= target.base_y + target.ysize,
                out@ == old(out)@ + rect_copies(target, map, sx, px0 as int, px1 as int, py0 as int, py as int),
            decreases py1 - py,
        {
            let mut px = px0;
            let ghost row_start = out@;
            assert(row_copies(target, map, sx, py as int, px0 as int, px0 as int) =~= Seq::<PixelCopy>::empty());
            while px < px1
                invariant
                    self.wf(),
                    map == self.map(),
                    sx == self.scrnx,
                    0 <= px0 <= px,
                    px <= px1 || px == px0,
                    px1 <= self.scrnx,
                    0 <= py0 <= py,
                    py < py1,
                    py1 <= self.scrny,
                    target.base_x <= px0,
                    px1 <= target.base_x + target.xsize,
                    target.base_y <= py0,
                    py1 <= target.base_y + target.ysize,
                    out@ == row_start + row_copies(target, map, sx, py as int, px0 as int, px as int),
                decreases px1 - px,
            {
                proof {
                    lemma_index_bound(sx, self.scrny as int, px as int, py as int);
                    assert(sx * self.scrny + sx <= 65535 * 65535 + 65535) by (nonlinear_arith)
                        requires
                            sx <= 65535,
                            self.scrny <= 65535,
                    ;
                    assert(65535 * 65535 + 65535 <= usize::MAX);
                }
                let idx = (py as usize) * (self.scrnx as usize) + (px as usize);
                let win_id = self.windows_map[idx];
                if target.id == win_id {
                    let y = (py - target.base_y as i64) as usize;
                    let x = (px - target.base_x as i64) as usize;
                    assert(y * target.xsize + x <= 65535 * 65535 + 65535) by (nonlinear_arith)
                        requires
                            y < target.ysize,
                            x < target.xsize,
                            target.xsize <= 65535,
                            target.ysize <= 65535,
                    ;
                    assert(65535 * 65535 + 65535 <= usize::MAX);
                    out.push(PixelCopy { vram_offset: idx, buf: target.buf, buf_offset: y * (target.xsize as usize) + x });
                }
                px = px + 1;
                assert(out@ =~= row_start + row_copies(target, map, sx, py as int, px0 as int, px as int));
            }
            py = py + 1;
            assert(out@ =~= old(out)@ + rect_copies(target, map, sx, px0 as int, px1 as int, py0 as int, py as int));
        }
    }
}

/// Keeps a coordinate on a screen side of `size` pixels: below 0 it is 0,
/// past the last pixel it is the last pixel.
pub open spec fn clamp_coord(v: int, size: u16) -> i32 {
    if v < 0 {
        0
    } else if v > size - 1 {
        (size - 1) as i32
    } else {
        v as i32
    }
}

/// Window `cur` moved by the low 16 bits of `value_x` and `value_y`, read
/// as signed, its corner kept on a `scrnx` by `scrny` screen.
pub open spec fn moved_window(cur: Window, value_x: i32, value_y: i32, scrnx: u16, scrny: u16) -> Window {
    Window {
        base_x: clamp_coord(cur.base_x + (value_x as i16), scrnx),
        base_y: clamp_coord(cur.base_y + (value_y as i16), scrny),
        ..cur
    }
}

/// One past the last position of a redraw up to `to_height` in a list of
/// `len` windows.
pub open spec fn redraw_end(to_height: int, len: int) -> int {
    if to_height < len {
        to_height + 1
    } else {
        len
    }
}

/// A window put on top is shown at every pixel it covers in the redrawn
/// rectangle, whatever was shown there before and wherever the redraw
/// starts below it.
pub proof fn lemma_top_window_shown(
    map: Seq<usize>,
    ws: Seq<Window>,
    n_w: Window,
    from: int,
    rect: (int, int, int, int),
    scrnx: int,
    i: int,
)
    requires
        0 <= from <= ws.len(),
        0 <= i < map.len(),
        scrnx > 0,
        in_rect(rect, i % scrnx, i / scrnx),
        covers(n_w, i % scrnx, i / scrnx),
    ensures
        refreshed(map, ws.push(n_w), from, ws.len() + 1int, rect, scrnx)[i] == n_w.id,
{
    let t = ws.push(n_w);
    assert(t[ws.len() as int] == n_w);
    assert(topmost(t, from, ws.len() + 1int, i % scrnx, i / scrnx) == Some(n_w.id));
}

/// A moved window keeps its id, size and pixels, and its corner lies on the
/// screen, whatever it was moved by.
pub proof fn lemma_moved_window_on_screen(cur: Window, value_x: i32, value_y: i32, scrnx: u16, scrny: u16)
    requires
        scrnx >= 1,
        scrny >= 1,
    ensures
        0 <= moved_window(cur, value_x, value_y, scrnx, scrny).base_x < scrnx,
        0 <= moved_window(cur, value_x, value_y, scrnx, scrny).base_y < scrny,
        moved_window(cur, value_x, value_y, scrnx, scrny).id == cur.id,
        moved_window(cur, value_x, value_y, scrnx, scrny).xsize == cur.xsize,
        moved_window(cur, value_x, value_y, scrnx, scrny).ysize == cur.ysize,
        moved_window(cur, value_x, value_y, scrnx, scrny).buf == cur.buf,
{
}

/// Moving a window whose corner is on the screen by nothing leaves it where
/// it is.
pub proof fn lemma_move_by_zero(cur: Window, scrnx: u16, scrny: u16)
    requires
        0 <= cur.base_x < scrnx,
        0 <= cur.base_y < scrny,
    ensures
        moved_window(cur, 0, 0, scrnx, scrny) == cur,
{
    assert((0i32 as i16) == 0);
}

/// The copy `c` redraws pixel (`px`, `py`) of a screen `scrnx` wide from
/// window `w`, which the map shows there: it goes to that pixel's offset in
/// video memory and reads `w`'s pixels row by row, each row `w.xsize` wide.
pub open spec fn copies_pixel(c: PixelCopy, w: Window, map: Seq<usize>, scrnx: int, px: int, py: int) -> bool {
    &&& c.vram_offset == (py * scrnx + px) as usize
    &&& map[py * scrnx + px] == w.id
    &&& c.buf == w.buf
    &&& c.buf_offset == ((py - w.base_y) * w.xsize + (px - w.base_x)) as usize
}

/// `c` redraws from `w` one pixel of row `py` with `px0 <= px < px1`.
pub open spec fn copies_row_pixel(c: PixelCopy, w: Window, map: Seq<usize>, scrnx: int, py: int, px0: int, px1: int) -> bool {
    exists|px: int| px0 <= px < px1 && #[trigger] copies_pixel(c, w, map, scrnx, px, py)
}

/// `c` redraws from `w` one pixel of `[px0, px1) x [py0, py1)`.
pub open spec fn copies_rect_pixel(
    c: PixelCopy,
    w: Window,
    map: Seq<usize>,
    scrnx: int,
    px0: int,
    px1: int,
    py0: int,
    py1: int,
) -> bool {
    exists|px: int, py: int| px0 <= px < px1 && py0 <= py < py1 && #[trigger] copies_pixel(c, w, map, scrnx, px, py)
}

/// `c` redraws one pixel of `rect` from one of the windows `ws[h0..h1]`
/// that covers that pixel.
pub open spec fn copies_window_pixel(
    c: PixelCopy,
    ws: Seq<Window>,
    map: Seq<usize>,
    scrnx: int,
    rect: (int, int, int, int),
    h0: int,
    h1: int,
) -> bool {
    exists|h: int, px: int, py: int|
        h0 <= h < h1 && in_rect(rect, px, py) && covers(ws[h], px, py) && #[trigger] copies_pixel(
            c,
            ws[h],
            map,
            scrnx,
            px,
            py,
        )
}

/// Each copy for row `py` of `[px0, px1)` redraws a pixel of that part of
/// the row that the map shows `w` at, from `w`'s pixels in row-major order
/// of its width.
pub proof fn lemma_row_copies_pixels(w: Window, map: Seq<usize>, scrnx: int, py: int, px0: int, px1: int)
    ensures
        forall|k: int|
            0 <= k < row_copies(w, map, scrnx, py, px0, px1).len() ==> copies_row_pixel(
                #[trigger] row_copies(w, map, scrnx, py, px0, px1)[k],
                w,
                map,
                scrnx,
                py,
                px0,
                px1,
            ),
    decreases px1 - px0,
{
    if px1 > px0 {
        let prev = row_copies(w, map, scrnx, py, px0, px1 - 1);
        lemma_row_copies_pixels(w, map, scrnx, py, px0, px1 - 1);
        let r = row_copies(w, map, scrnx, py, px0, px1);
        assert forall|k: int| 0 <= k < r.len() implies copies_row_pixel(#[trigger] r[k], w, map, scrnx, py, px0, px1) by {
            if k < prev.len() {
                assert(r[k] == prev[k]);
                assert(copies_row_pixel(prev[k], w, map, scrnx, py, px0, px1 - 1));
                let px = choose|px: int| px0 <= px < px1 - 1 && #[trigger] copies_pixel(prev[k], w, map, scrnx, px, py);
                assert(copies_pixel(r[k], w, map, scrnx, px, py));
            } else {
                assert(copies_pixel(r[k], w, map, scrnx, px1 - 1, py));
            }
        }
    }
}

/// Each copy for `[px0, px1) x [py0, py1)` redraws a pixel of that
/// rectangle that the map shows `w` at, from `w`'s pixels in row-major order
/// of its width.
pub proof fn lemma_rect_copies_pixels(
    w: Window,
    map: Seq<usize>,
    scrnx: int,
    px0: int,
    px1: int,
    py0: int,
    py1: int,
)
    ensures
        forall|k: int|
            0 <= k < rect_copies(w, map, scrnx, px0, px1, py0, py1).len() ==> copies_rect_pixel(
                #[trigger] rect_copies(w, map, scrnx, px0, px1, py0, py1)[k],
                w,
                map,
                scrnx,
                px0,
                px1,
                py0,
                py1,
            ),
    decreases py1 - py0,
{
    if py1 > py0 {
        let prev = rect_copies(w, map, scrnx, px0, px1, py0, py1 - 1);
        let row = row_copies(w, map, scrnx, py1 - 1, px0, px1);
        lemma_rect_copies_pixels(w, map, scrnx, px0, px1, py0, py1 - 1);
        lemma_row_copies_pixels(w, map, scrnx, py1 - 1, px0, px1);
        let r = rect_copies(w, map, scrnx, px0, px1, py0, py1);
        assert(r == prev + row);
        assert forall|k: int| 0 <= k < r.len() implies copies_rect_pixel(
            #[trigger] r[k],
            w,
            map,
            scrnx,
            px0,
            px1,
            py0,
            py1,
        ) by {
            if k < prev.len() {
                assert(r[k] == prev[k]);
                assert(copies_rect_pixel(prev[k], w, map, scrnx, px0, px1, py0, py1 - 1));
                let (px, py) = choose|px: int, py: int|
                    px0 <= px < px1 && py0 <= py < py1 - 1 && #[trigger] copies_pixel(prev[k], w, map, scrnx, px, py);
                assert(copies_pixel(r[k], w, map, scrnx, px, py));
            } else {
                assert(r[k] == row[k - prev.len()]);
                assert(copies_row_pixel(row[k - prev.len()], w, map, scrnx, py1 - 1, px0, px1));
                let px = choose|px: int|
                    px0 <= px < px1 && #[trigger] copies_pixel(row[k - prev.len()], w, map, scrnx, px, py1 - 1);
                assert(copies_pixel(r[k], w, map, scrnx, px, py1 - 1));
            }
        }
    }
}

/// Each copy that redraws `rect` with the windows `ws[h0..h1]` redraws a
/// pixel of `rect` from one of those windows that covers it and that the
/// map shows there, reading the window's pixels in row-major order of its
/// width.
pub proof fn lemma_windows_copies_pixels(
    ws: Seq<Window>,
    map: Seq<usize>,
    scrnx: int,
    rect: (int, int, int, int),
    h0: int,
    h1: int,
)
    ensures
        forall|k: int|
            0 <= k < windows_copies(ws, map, scrnx, rect, h0, h1).len() ==> copies_window_pixel(
                #[trigger] windows_copies(ws, map, scrnx, rect, h0, h1)[k],
                ws,
                map,
                scrnx,
                rect,
                h0,
                h1,
            ),
    decreases h1 - h0,
{
    if h1 > h0 {
        let w = ws[h1 - 1];
        let c = clip(w, rect);
        let prev = windows_copies(ws, map, scrnx, rect, h0, h1 - 1);
        let part = rect_copies(w, map, scrnx, c.0, c.1, c.2, c.3);
        lemma_windows_copies_pixels(ws, map, scrnx, rect, h0, h1 - 1);
        lemma_rect_copies_pixels(w, map, scrnx, c.0, c.1, c.2, c.3);
        let r = windows_copies(ws, map, scrnx, rect, h0, h1);
        assert(r == prev + part);
        assert forall|k: int| 0 <= k < r.len() implies copies_window_pixel(
            #[trigger] r[k],
            ws,
            map,
            scrnx,
            rect,
            h0,
            h1,
        ) by {
            if k < prev.len() {
                assert(r[k] == prev[k]);
                assert(copies_window_pixel(prev[k], ws, map, scrnx, rect, h0, h1 - 1));
                let (h, px, py) = choose|h: int, px: int, py: int|
                    h0 <= h < h1 - 1 && in_rect(rect, px, py) && covers(ws[h], px, py) && #[trigger] copies_pixel(
                        prev[k],
                        ws[h],
                        map,
                        scrnx,
                        px,
                        py,
                    );
                assert(copies_pixel(r[k], ws[h], map, scrnx, px, py));
            } else {
                assert(r[k] == part[k - prev.len()]);
                assert(copies_rect_pixel(part[k - prev.len()], w, map, scrnx, c.0, c.1, c.2, c.3));
                let (px, py) = choose|px: int, py: int|
                    c.0 <= px < c.1 && c.2 <= py < c.3 && #[trigger] copies_pixel(
                        part[k - prev.len()],
                        w,
                        map,
                        scrnx,
                        px,
                        py,
                    );
                assert(copies_pixel(r[k], ws[h1 - 1], map, scrnx, px, py));
                assert(in_rect(rect, px, py) && covers(ws[h1 - 1], px, py));
            }
        }
    }
}

} // verus!
