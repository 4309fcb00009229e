//! The 16-colour palette, the desktop drawn at boot and the drawing of
//! characters from the built-in font.
use vstd::prelude::*;
use crate::arch::boot_info::BootInfo;
use crate::arch::port::{PortWrite, port_write};

verus! {

/// The port that selects the first palette entry to program.
pub const PALETTE_INDEX_PORT: i32 = 0x03c8;
/// The port that takes palette entries, three bytes each.
pub const PALETTE_DATA_PORT: i32 = 0x03c9;
/// Bytes of the built-in font: 256 characters of 16 rows.
pub const FONT_BYTES: usize = 4096;

/// The sixteen colours of the palette.
#[derive(Clone, Copy, Debug, PartialEq, Eq, Structural)]
pub enum RGB {
    Black,
    Red,
    Green,
    Yellow,
    Blue,
    Purple,
    LightBlue,
    White,
    Gray,
    DarkRed,
    DarkGreen,
    DarkYellow,
    DarkBlue,
    DarkPurple,
    DarkLightBlue,
    DarkGray,
}

/// The red, green and blue intensity of a colour.
#[derive(Clone, Copy, Debug, PartialEq, Eq, Structural)]
pub struct RGBElement {
    pub r: u8,
    pub g: u8,
    pub b: u8,
}

impl RGBElement {
    pub fn new(r: u8, g: u8, b: u8) -> (e: Self)
        ensures
            e == (RGBElement { r, g, b }),
    {
        RGBElement { r, g, b }
    }
}

/// The intensities of each colour.
pub open spec fn rgb_value(c: RGB) -> RGBElement {
    match c {
        RGB::Black => RGBElement { r: 0x00, g: 0x00, b: 0x00 },
        RGB::Red => RGBElement { r: 0xff, g: 0x00, b: 0x00 },
        RGB::Green => RGBElement { r: 0x00, g: 0xff, b: 0x00 },
        RGB::Yellow => RGBElement { r: 0xff, g: 0xff, b: 0x00 },
        RGB::Blue => RGBElement { r: 0x00, g: 0x00, b: 0xff },
        RGB::Purple => RGBElement { r: 0xff, g: 0x00, b: 0xff },
        RGB::LightBlue => RGBElement { r: 0x00, g: 0xff, b: 0xff },
        RGB::White => RGBElement { r: 0xff, g: 0xff, b: 0xff },
        RGB::Gray => RGBElement { r: 0xc6, g: 0xc6, b: 0xc6 },
        RGB::DarkRed => RGBElement { r: 0x84, g: 0x00, b: 0x00 },
        RGB::DarkGreen => RGBElement { r: 0x00, g: 0x84, b: 0x00 },
        RGB::DarkYellow => RGBElement { r: 0x84, g: 0x84, b: 0x00 },
        RGB::DarkBlue => RGBElement { r: 0x00, g: 0x00, b: 0x84 },
        RGB::DarkPurple => RGBElement { r: 0x84, g: 0x00, b: 0x84 },
        RGB::DarkLightBlue => RGBElement { r: 0x00, g: 0x84, b: 0x84 },
        RGB::DarkGray => RGBElement { r: 0x84, g: 0x84, b: 0x84 },
    }
}

/// The palette entry of each colour.
pub open spec fn rgb_palette_no(c: RGB) -> u8 {
    match c {
        RGB::Black => 0,
        RGB::Red => 1,
        RGB::Green => 2,
        RGB::Yellow => 3,
        RGB::Blue => 4,
        RGB::Purple => 5,
        RGB::LightBlue => 6,
        RGB::White => 7,
        RGB::Gray => 8,
        RGB::DarkRed => 9,
        RGB::DarkGreen => 10,
        RGB::DarkYellow => 11,
        RGB::DarkBlue => 12,
        RGB::DarkPurple => 13,
        RGB::DarkLightBlue => 14,
        RGB::DarkGray => 15,
    }
}

/// All colours, in the order the palette is programmed.
pub open spec fn all_colors() -> Seq<RGB> {
    seq![
        RGB::Black,
        RGB::Red,
        RGB::Green,
        RGB::Yellow,
        RGB::Blue,
        RGB::Purple,
        RGB::LightBlue,
        RGB::White,
        RGB::Gray,
        RGB::DarkRed,
        RGB::DarkGreen,
        RGB::DarkYellow,
        RGB::DarkBlue,
        RGB::DarkPurple,
        RGB::DarkLightBlue,
        RGB::DarkGray,
    ]
}

impl RGB {
    /// The colour's intensities.
    pub fn value(&self) -> (e: RGBElement)
        ensures
            e == rgb_value(*self),
    {
        match self {
            RGB::Black => RGBElement::new(0x00, 0x00, 0x00),
            RGB::Red => RGBElement::new(0xff, 0x00, 0x00),
            RGB::Green => RGBElement::new(0x00, 0xff, 0x00),
            RGB::Yellow => RGBElement::new(0xff, 0xff, 0x00),
            RGB::Blue => RGBElement::new(0x00, 0x00, 0xff),
            RGB::Purple => RGBElement::new(0xff, 0x00, 0xff),
            RGB::LightBlue => RGBElement::new(0x00, 0xff, 0xff),
            RGB::White => RGBElement::new(0xff, 0xff, 0xff),
            RGB::Gray => RGBElement::new(0xc6, 0xc6, 0xc6),
            RGB::DarkRed => RGBElement::new(0x84, 0x00, 0x00),
            RGB::DarkGreen => RGBElement::new(0x00, 0x84, 0x00),
            RGB::DarkYellow => RGBElement::new(0x84, 0x84, 0x00),
            RGB::DarkBlue => RGBElement::new(0x00, 0x00, 0x84),
            RGB::DarkPurple => RGBElement::new(0x84, 0x00, 0x84),
            RGB::DarkLightBlue => RGBElement::new(0x00, 0x84, 0x84),
            RGB::DarkGray => RGBElement::new(0x84, 0x84, 0x84),
        }
    }

    /// The colour's palette entry.
    pub fn palette_no(&self) -> (n: u8)
        ensures
            n == rgb_palette_no(*self),
    {
        match self {
            RGB::Black => 0,
            RGB::Red => 1,
            RGB::Green => 2,
            RGB::Yellow => 3,
            RGB::Blue => 4,
            RGB::Purple => 5,
            RGB::LightBlue => 6,
            RGB::White => 7,
            RGB::Gray => 8,
            RGB::DarkRed => 9,
            RGB::DarkGreen => 10,
            RGB::DarkYellow => 11,
            RGB::DarkBlue => 12,
            RGB::DarkPurple => 13,
            RGB::DarkLightBlue => 14,
            RGB::DarkGray => 15,
        }
    }

    pub fn r(&self) -> (v: u8)
        ensures
            v == rgb_value(*self).r,
    {
        self.value().r
    }

    pub fn g(&self) -> (v: u8)
        ensures
            v == rgb_value(*self).g,
    {
        self.value().g
    }

    pub fn b(&self) -> (v: u8)
        ensures
            v == rgb_value(*self).b,
    {
        self.value().b
    }

    /// All colours, in palette order.
    pub fn iterator() -> (v: Vec<RGB>)
        ensures
            v@ == all_colors(),
    {
        let v: Vec<RGB> = vec![
            RGB::Black,
            RGB::Red,
            RGB::Green,
            RGB::Yellow,
            RGB::Blue,
            RGB::Purple,
            RGB::LightBlue,
            RGB::White,
            RGB::Gray,
            RGB::DarkRed,
            RGB::DarkGreen,
            RGB::DarkYellow,
            RGB::DarkBlue,
            RGB::DarkPurple,
            RGB::DarkLightBlue,
            RGB::DarkGray,
        ];
        assert(v@ =~= all_colors());
        v
    }
}

/// The `k`-th byte sent to the palette data port: for each colour in turn
/// its red, then its blue twice, each scaled from 8 to 6 bits.
pub open spec fn palette_byte(k: int) -> i32 {
    let c = rgb_value(all_colors()[k / 3]);
    if k % 3 == 0 {
        (c.r >> 2u8) as i32
    } else {
        (c.b >> 2u8) as i32
    }
}

/// The programming of the palette: entry 0 is selected, then three bytes
/// per colour follow.
pub open spec fn palette_writes() -> Seq<PortWrite> {
    seq![port_write(PALETTE_INDEX_PORT, 0)] + Seq::new(48, |k: int| port_write(PALETTE_DATA_PORT, palette_byte(k)))
}

/// The `k`-th colour in palette order is palette entry `k`, so the palette
/// programming above gives each entry its colour.
pub proof fn lemma_palette_order(k: int)
    requires
        0 <= k < 16,
    ensures
        rgb_palette_no(all_colors()[k]) == k,
{
}

/// The offset in video memory of pixel (`x`, `y`) on a screen `w` pixels
/// wide.
pub open spec fn pixel_offset(w: int, x: int, y: int) -> int {
    y * w + x
}

/// Video memory offset `k` belongs to a pixel of the columns `from_x` up to,
/// not including, `to_x` of the rows `from_y` up to, not including, `to_y`.
pub open spec fn box_hits(w: int, from_x: int, from_y: int, to_x: int, to_y: int, k: int) -> bool {
    exists|x: int, y: int| from_x <= x < to_x && from_y <= y < to_y && k == #[trigger] pixel_offset(w, x, y)
}

/// Whether row `row` of a character's font bitmap lights column `col`
/// (0 leftmost) of the character.
pub open spec fn font_bit(row: u8, col: int) -> bool {
    row & (0x80u8 >> (col as u8)) != 0
}

/// Video memory offset `k` belongs to a pixel that the font row `row` lights
/// among the first `cols` columns of a character row drawn at (`x`, `y`).
pub open spec fn row_hits(row: u8, w: int, x: int, y: int, cols: int, k: int) -> bool {
    exists|b: int| 0 <= b < cols && k == #[trigger] pixel_offset(w, x + b, y) && font_bit(row, b)
}

/// Video memory offset `k` belongs to a pixel that one of the first `rows`
/// font rows from `idx` lights for a character drawn at (`x`, `y`).
pub open spec fn glyph_hits(fonts: Seq<u8>, idx: int, w: int, x: int, y: int, rows: int, k: int) -> bool {
    exists|i: int| 0 <= i < rows && #[trigger] row_hits(fonts[idx + i], w, x, y + i, 8, k)
}

/// On a screen `w` pixels wide, a box that ends within a line holds exactly
/// the offsets whose column (`k % w`) and row (`k / w`) lie in it.
pub proof fn lemma_box_hits_coordinates(w: int, from_x: int, from_y: int, to_x: int, to_y: int, k: int)
    requires
        w > 0,
        0 <= from_x,
        to_x <= w,
        0 <= k,
    ensures
        box_hits(w, from_x, from_y, to_x, to_y, k) <==> from_x <= k % w < to_x && from_y <= k / w < to_y,
{
    if box_hits(w, from_x, from_y, to_x, to_y, k) {
        let (x, y) = choose|x: int, y: int|
            from_x <= x < to_x && from_y <= y < to_y && k == #[trigger] pixel_offset(w, x, y);
        vstd::arithmetic::div_mod::lemma_fundamental_div_mod_converse(k, w, y, x);
    }
    if from_x <= k % w < to_x && from_y <= k / w < to_y {
        vstd::arithmetic::div_mod::lemma_fundamental_div_mod(k, w);
        assert(k == (k / w) * w + k % w) by (nonlinear_arith)
            requires
                k == w * (k / w) + (k % w),
        ;
        assert(k == pixel_offset(w, k % w, k / w));
    }
}

/// Painting one more row of a box adds that row's offsets.
proof fn lemma_box_add_row(w: int, from_x: int, from_y: int, to_x: int, y: int, k: int)
    requires
        from_y <= y,
    ensures
        box_hits(w, from_x, from_y, to_x, y + 1, k) <==> box_hits(w, from_x, from_y, to_x, y, k) || box_hits(
            w,
            from_x,
            y,
            to_x,
            y + 1,
            k,
        ),
{
    if box_hits(w, from_x, from_y, to_x, y + 1, k) {
        let (px, py) = choose|px: int, py: int|
            from_x <= px < to_x && from_y <= py < y + 1 && k == #[trigger] pixel_offset(w, px, py);
        if py < y {
            assert(from_x <= px < to_x && from_y <= py < y && k == pixel_offset(w, px, py));
        } else {
            assert(from_x <= px < to_x && y <= py < y + 1 && k == pixel_offset(w, px, py));
        }
    }
    if box_hits(w, from_x, from_y, to_x, y, k) {
        let (px, py) = choose|px: int, py: int|
            from_x <= px < to_x && from_y <= py < y && k == #[trigger] pixel_offset(w, px, py);
        assert(from_x <= px < to_x && from_y <= py < y + 1 && k == pixel_offset(w, px, py));
    }
    if box_hits(w, from_x, y, to_x, y + 1, k) {
        let (px, py) = choose|px: int, py: int|
            from_x <= px < to_x && y <= py < y + 1 && k == #[trigger] pixel_offset(w, px, py);
        assert(from_x <= px < to_x && from_y <= py < y + 1 && k == pixel_offset(w, px, py));
    }
}

/// Painting one more pixel of a row adds that pixel's offset.
proof fn lemma_box_add_column(w: int, from_x: int, x: int, y: int, k: int)
    requires
        from_x <= x,
    ensures
        box_hits(w, from_x, y, x + 1, y + 1, k) <==> box_hits(w, from_x, y, x, y + 1, k) || k == pixel_offset(w, x, y),
{
    if box_hits(w, from_x, y, x + 1, y + 1, k) {
        let (px, py) = choose|px: int, py: int|
            from_x <= px < x + 1 && y <= py < y + 1 && k == #[trigger] pixel_offset(w, px, py);
        if px < x {
            assert(from_x <= px < x && y <= py < y + 1 && k == pixel_offset(w, px, py));
        }
    }
    if box_hits(w, from_x, y, x, y + 1, k) {
        let (px, py) = choose|px: int, py: int|
            from_x <= px < x && y <= py < y + 1 && k == #[trigger] pixel_offset(w, px, py);
        assert(from_x <= px < x + 1 && y <= py < y + 1 && k == pixel_offset(w, px, py));
    }
    if k == pixel_offset(w, x, y) {
        assert(from_x <= x < x + 1 && y <= y < y + 1 && k == pixel_offset(w, x, y));
    }
}

/// A box with no columns or no rows paints nothing.
proof fn lemma_box_empty(w: int, from_x: int, from_y: int, to_x: int, to_y: int, k: int)
    requires
        to_x <= from_x || to_y <= from_y,
    ensures
        !box_hits(w, from_x, from_y, to_x, to_y, k),
{
}

/// Drawing one more font row adds the offsets it lights.
proof fn lemma_glyph_add_row(fonts: Seq<u8>, idx: int, w: int, x: int, y: int, i: int, k: int)
    requires
        0 <= i,
    ensures
        glyph_hits(fonts, idx, w, x, y, i + 1, k) <==> glyph_hits(fonts, idx, w, x, y, i, k) || row_hits(
            fonts[idx + i],
            w,
            x,
            y + i,
            8,
            k,
        ),
{
    if glyph_hits(fonts, idx, w, x, y, i + 1, k) {
        let j = choose|j: int| 0 <= j < i + 1 && #[trigger] row_hits(fonts[idx + j], w, x, y + j, 8, k);
        if j < i {
            assert(0 <= j < i && row_hits(fonts[idx + j], w, x, y + j, 8, k));
        }
    }
    if glyph_hits(fonts, idx, w, x, y, i, k) {
        let j = choose|j: int| 0 <= j < i && #[trigger] row_hits(fonts[idx + j], w, x, y + j, 8, k);
        assert(0 <= j < i + 1 && row_hits(fonts[idx + j], w, x, y + j, 8, k));
    }
    if row_hits(fonts[idx + i], w, x, y + i, 8, k) {
        assert(0 <= i < i + 1 && row_hits(fonts[idx + i], w, x, y + i, 8, k));
    }
}

/// Drawing one more pixel of a font row adds its offset when the row
/// lights it.
proof fn lemma_row_add_column(row: u8, w: int, x: int, y: int, b: int, k: int)
    requires
        0 <= b,
    ensures
        row_hits(row, w, x, y, b + 1, k) <==> row_hits(row, w, x, y, b, k) || (k == pixel_offset(w, x + b, y)
            && font_bit(row, b)),
{
    if row_hits(row, w, x, y, b + 1, k) {
        let c = choose|c: int| 0 <= c < b + 1 && k == #[trigger] pixel_offset(w, x + c, y) && font_bit(row, c);
        if c < b {
            assert(0 <= c < b && k == pixel_offset(w, x + c, y) && font_bit(row, c));
        }
    }
    if row_hits(row, w, x, y, b, k) {
        let c = choose|c: int| 0 <= c < b && k == #[trigger] pixel_offset(w, x + c, y) && font_bit(row, c);
        assert(0 <= c < b + 1 && k == pixel_offset(w, x + c, y) && font_bit(row, c));
    }
    if k == pixel_offset(w, x + b, y) && font_bit(row, b) {
        assert(0 <= b < b + 1 && k == pixel_offset(w, x + b, y) && font_bit(row, b));
    }
}

/// The screen the kernel draws on, and the font it draws characters with.
pub struct Graphic {
    boot_info: BootInfo,
    hankaku: [u8; 4096],
}

impl Graphic {
    /// The boot loader's information about the screen.
    pub closed spec fn boot_info(&self) -> BootInfo {
        self.boot_info
    }

    /// The font: 16 bytes per character, one byte per row, the leftmost
    /// pixel in the top bit.
    pub closed spec fn fonts(&self) -> Seq<u8> {
        self.hankaku@
    }

    /// Draws on the screen `bi` describes, with the font `hankaku`.
    pub fn new(bi: BootInfo, hankaku: [u8; 4096]) -> (r: Self)
        ensures
            r.boot_info() == bi,
            r.fonts() == hankaku@,
    {
        Graphic { boot_info: bi, hankaku }
    }

    /// The writes that program the palette, in order; the caller makes them
    /// with interrupts disabled.
    pub fn init() -> (r: Vec<PortWrite>)
        ensures
            r@ == palette_writes(),
    {
        Graphic::set_palette()
    }

    /// Paints with `color` the pixels of the columns `from_x` up to `to_x`
    /// of the rows `from_y` up to `to_y` (both ends not included), in
    /// `vram`, the video memory from the frame buffer's start. A pixel's
    /// offset is computed in 16 bits and the frame buffer's address plus it
    /// in 32, neither of which may overflow.
    pub fn boxfill(&self, vram: &mut Vec<u8>, color: u8, from_x: u16, from_y: u16, to_x: u16, to_y: u16)
        requires
            from_x < to_x && from_y < to_y ==> ({
                let last = pixel_offset(self.boot_info().scrnx as int, to_x - 1, to_y - 1);
                &&& last <= u16::MAX
                &&& self.boot_info().vram + last <= u32::MAX
                &&& last < old(vram)@.len()
            }),
        ensures
            final(vram)@.len() == old(vram)@.len(),
            forall|k: int|
                0 <= k < final(vram)@.len() ==> #[trigger] final(vram)@[k] == if box_hits(
                    self.boot_info().scrnx as int,
                    from_x as int,
                    from_y as int,
                    to_x as int,
                    to_y as int,
                    k,
                ) {
                    color
                } else {
                    old(vram)@[k]
                },
    {
        let ghost w = self.boot_info.scrnx as int;
        let ghost before = vram@;
        let mut y: u16 = from_y;
        while y < to_y
            invariant
                from_y < to_y ==> from_y <= y <= to_y,
                to_y <= from_y ==> y == from_y,
                w == self.boot_info.scrnx,
                from_x < to_x && from_y < to_y ==> ({
                    let last = pixel_offset(w, to_x - 1, to_y - 1);
                    &&& last <= u16::MAX
                    &&& last < before.len()
                }),
                vram@.len() == before.len(),
                forall|k: int|
                    0 <= k < vram@.len() ==> #[trigger] vram@[k] == if box_hits(
                        w,
                        from_x as int,
                        from_y as int,
                        to_x as int,
                        y as int,
                        k,
                    ) {
                        color
                    } else {
                        before[k]
                    },
            decreases to_y - y,
        {
            let ghost row_start = vram@;
            let mut x: u16 = from_x;
            while x < to_x
                invariant
                    from_y <= y < to_y,
                    from_x < to_x ==> from_x <= x <= to_x,
                    to_x <= from_x ==> x == from_x,
                    w == self.boot_info.scrnx,
                    from_x < to_x ==> ({
                        let last = pixel_offset(w, to_x - 1, to_y - 1);
                        &&& last <= u16::MAX
                        &&& last < before.len()
                    }),
                    vram@.len() == before.len(),
                    forall|k: int|
                        0 <= k < vram@.len() ==> #[trigger] vram@[k] == if box_hits(
                            w,
                            from_x as int,
                            y as int,
                            x as int,
                            y + 1,
                            k,
                        ) {
                            color
                        } else {
                            row_start[k]
                        },
                decreases to_x - x,
            {
                assert(pixel_offset(w, x as int, y as int) <= pixel_offset(w, to_x - 1, to_y - 1)) by (nonlinear_arith)
                    requires
                        x <= to_x - 1,
                        y <= to_y - 1,
                        w >= 0,
                ;
                let address: u16 = y * self.boot_info.scrnx + x;
                let ghost prev = vram@;
                vram.set(address as usize, color);
                proof {
                    assert forall|k: int| 0 <= k < vram@.len() implies #[trigger] vram@[k] == if box_hits(
                        w,
                        from_x as int,
                        y as int,
                        x + 1,
                        y + 1,
                        k,
                    ) {
                        color
                    } else {
                        row_start[k]
                    } by {
                        lemma_box_add_column(w, from_x as int, x as int, y as int, k);
                        assert(prev[k] == if box_hits(w, from_x as int, y as int, x as int, y + 1, k) {
                            color
                        } else {
                            row_start[k]
                        });
                    }
                }
                x = x + 1;
            }
            proof {
                assert forall|k: int| 0 <= k < vram@.len() implies #[trigger] vram@[k] == if box_hits(
                    w,
                    from_x as int,
                    from_y as int,
                    to_x as int,
                    y + 1,
                    k,
                ) {
                    color
                } else {
                    before[k]
                } by {
                    lemma_box_add_row(w, from_x as int, from_y as int, to_x as int, y as int, k);
                    if to_x <= from_x {
                        lemma_box_empty(w, from_x as int, y as int, x as int, y + 1, k);
                        lemma_box_empty(w, from_x as int, y as int, to_x as int, y + 1, k);
                    }
                    assert(row_start[k] == if box_hits(w, from_x as int, from_y as int, to_x as int, y as int, k) {
                        color
                    } else {
                        before[k]
                    });
                }
            }
            y = y + 1;
        }
        proof {
            if to_y <= from_y {
                assert forall|k: int| 0 <= k < vram@.len() implies #[trigger] vram@[k] == before[k] by {
                    lemma_box_empty(w, from_x as int, from_y as int, to_x as int, y as int, k);
                }
                assert forall|k: int| 0 <= k < vram@.len() implies !box_hits(
                    w,
                    from_x as int,
                    from_y as int,
                    to_x as int,
                    to_y as int,
                    k,
                ) by {
                    lemma_box_empty(w, from_x as int, from_y as int, to_x as int, to_y as int, k);
                }
            }
        }
    }

    /// Draws the desktop into `vram`: the background and the task bar with
    /// its start button and clock area. Only two of the boxes are painted:
    /// the background over all rows but the last 29 and the bar's body over
    /// the last 26 rows but one, both without the last column; the bar's
    /// lines and buttons are asked for with an end equal to their start.
    pub fn init_screen(&self, vram: &mut Vec<u8>)
        requires
            self.boot_info().scrnx >= 47,
            self.boot_info().scrny >= 29,
            ({
                let w = self.boot_info().scrnx as int;
                let last = pixel_offset(w, w - 2, self.boot_info().scrny - 2);
                &&& last <= u16::MAX
                &&& self.boot_info().vram + last <= u32::MAX
                &&& last < old(vram)@.len()
            }),
        ensures
            final(vram)@.len() == old(vram)@.len(),
            ({
                let w = self.boot_info().scrnx as int;
                let h = self.boot_info().scrny as int;
                forall|k: int|
                    0 <= k < final(vram)@.len() ==> #[trigger] final(vram)@[k] == if box_hits(w, 0, h - 26, w - 1, h - 1, k) {
                        8
                    } else if box_hits(w, 0, 0, w - 1, h - 29, k) {
                        14
                    } else {
                        old(vram)@[k]
                    }
            }),
    {
        let x: u16 = self.boot_info.scrnx;
        let y: u16 = self.boot_info.scrny;
        assert(pixel_offset(x as int, x - 2, y - 30) <= pixel_offset(x as int, x - 2, y - 2)) by (nonlinear_arith)
            requires
                x >= 47,
        ;

        self.boxfill(vram, RGB::DarkLightBlue.palette_no(), 0, 0, x - 1, y - 29);
        self.boxfill(vram, RGB::Gray.palette_no(), 0, y - 28, x - 1, y - 28);
        self.boxfill(vram, RGB::White.palette_no(), 0, y - 27, x - 1, y - 27);
        self.boxfill(vram, RGB::Gray.palette_no(), 0, y - 26, x - 1, y - 1);

        self.boxfill(vram, RGB::White.palette_no(), 3, y - 24, 59, y - 24);
        self.boxfill(vram, RGB::White.palette_no(), 2, y - 24, 2, y - 4);
        self.boxfill(vram, RGB::DarkGray.palette_no(), 3, y - 4, 59, y - 4);
        self.boxfill(vram, RGB::DarkGray.palette_no(), 59, y - 23, 59, y - 5);
        self.boxfill(vram, RGB::Black.palette_no(), 2, y - 3, 59, y - 3);
        self.boxfill(vram, RGB::Black.palette_no(), 60, y - 24, 60, y - 3);

        self.boxfill(vram, RGB::DarkGray.palette_no(), x - 47, y - 24, x - 4, y - 24);
        self.boxfill(vram, RGB::DarkGray.palette_no(), x - 47, y - 23, x - 47, y - 4);
        self.boxfill(vram, RGB::White.palette_no(), x - 47, y - 3, x - 4, y - 3);
        self.boxfill(vram, RGB::White.palette_no(), x - 3, y - 24, x - 3, y - 3);
    }

    /// Draws character `'Z'` of the font at (`x`, `y`) in colour `c`.
    pub fn putfont_asc(&self, vram: &mut Vec<u8>, x: u16, y: u16, c: u8)
        requires
            ({
                let last = pixel_offset(self.boot_info().scrnx as int, x as int, y + 15);
                &&& y + 15 <= u16::MAX
                &&& last <= u16::MAX
                &&& self.boot_info().vram + last <= u32::MAX
                &&& last + 8 <= old(vram)@.len()
            }),
        ensures
            final(vram)@.len() == old(vram)@.len(),
            forall|k: int|
                0 <= k < final(vram)@.len() ==> #[trigger] final(vram)@[k] == if glyph_hits(
                    self.fonts(),
                    1440,
                    self.boot_info().scrnx as int,
                    x as int,
                    y as int,
                    16,
                    k,
                ) {
                    c
                } else {
                    old(vram)@[k]
                },
    {
        let idx: usize = 0x5a;
        self.putfont(vram, x, y, c, idx * 16);
    }

    /// Draws the character whose font rows start at `font_ptr` at
    /// (`x`, `y`) in colour `c`.
    fn putfont(&self, vram: &mut Vec<u8>, x: u16, y: u16, c: u8, font_ptr: usize)
        requires
            font_ptr + 16 <= FONT_BYTES,
            ({
                let last = pixel_offset(self.boot_info().scrnx as int, x as int, y + 15);
                &&& y + 15 <= u16::MAX
                &&& last <= u16::MAX
                &&& self.boot_info().vram + last <= u32::MAX
                &&& last + 8 <= old(vram)@.len()
            }),
        ensures
            final(vram)@.len() == old(vram)@.len(),
            forall|k: int|
                0 <= k < final(vram)@.len() ==> #[trigger] final(vram)@[k] == if glyph_hits(
                    self.fonts(),
                    font_ptr as int,
                    self.boot_info().scrnx as int,
                    x as int,
                    y as int,
                    16,
                    k,
                ) {
                    c
                } else {
                    old(vram)@[k]
                },
    {
        self.putfont_color(vram, x, y, c, font_ptr);
    }

    /// Paints in colour `c` the pixels that the 16 font rows from `idx`
    /// light for a character at (`x`, `y`); the others stay. A row starts
    /// at an offset computed in 16 bits, the frame buffer's address plus it
    /// in 32; the eight pixels of a row follow it in memory, so a character
    /// past the right edge continues on the next line.
    fn putfont_color(&self, vram: &mut Vec<u8>, x: u16, y: u16, c: u8, idx: usize)
        requires
            idx + 16 <= FONT_BYTES,
            ({
                let last = pixel_offset(self.boot_info().scrnx as int, x as int, y + 15);
                &&& y + 15 <= u16::MAX
                &&& last <= u16::MAX
                &&& self.boot_info().vram + last <= u32::MAX
                &&& last + 8 <= old(vram)@.len()
            }),
        ensures
            final(vram)@.len() == old(vram)@.len(),
            forall|k: int|
                0 <= k < final(vram)@.len() ==> #[trigger] final(vram)@[k] == if glyph_hits(
                    self.fonts(),
                    idx as int,
                    self.boot_info().scrnx as int,
                    x as int,
                    y as int,
                    16,
                    k,
                ) {
                    c
                } else {
                    old(vram)@[k]
                },
    {
        let ghost w = self.boot_info.scrnx as int;
        let ghost fonts = self.hankaku@;
        let ghost before = vram@;
        let ghost last = pixel_offset(w, x as int, y + 15);
        let mut i: u16 = 0;
        while i < 16
            invariant
                0 <= i <= 16,
                idx + 16 <= FONT_BYTES,
                w == self.boot_info.scrnx,
                fonts == self.hankaku@,
                last == pixel_offset(w, x as int, y + 15),
                y + 15 <= u16::MAX,
                last <= u16::MAX,
                last + 8 <= before.len(),
                vram@.len() == before.len(),
                forall|k: int|
                    0 <= k < vram@.len() ==> #[trigger] vram@[k] == if glyph_hits(
                        fonts,
                        idx as int,
                        w,
                        x as int,
                        y as int,
                        i as int,
                        k,
                    ) {
                        c
                    } else {
                        before[k]
                    },
            decreases 16 - i,
        {
            assert(pixel_offset(w, x as int, y + i) <= last) by (nonlinear_arith)
                requires
                    i <= 15,
                    w >= 0,
                    last == pixel_offset(w, x as int, y + 15),
            ;
            let address: u16 = (y + i) * self.boot_info.scrnx + x;
            let d: u8 = self.hankaku[idx + i as usize];
            let ghost row_start = vram@;
            let mut b: u8 = 0;
            while b < 8
                invariant
                    0 <= i < 16,
                    0 <= b <= 8,
                    address == pixel_offset(w, x as int, y + i),
                    address + 8 <= vram@.len(),
                    vram@.len() == before.len(),
                    forall|k: int|
                        0 <= k < vram@.len() ==> #[trigger] vram@[k] == if row_hits(
                            d,
                            w,
                            x as int,
                            y + i,
                            b as int,
                            k,
                        ) {
                            c
                        } else {
                            row_start[k]
                        },
                decreases 8 - b,
            {
                let ghost prev = vram@;
                if d & (0x80u8 >> b) != 0 {
                    vram.set(address as usize + b as usize, c);
                }
                proof {
                    assert(((b as int) as u8) == b);
                    assert forall|k: int| 0 <= k < vram@.len() implies #[trigger] vram@[k] == if row_hits(
                        d,
                        w,
                        x as int,
                        y + i,
                        b + 1,
                        k,
                    ) {
                        c
                    } else {
                        row_start[k]
                    } by {
                        lemma_row_add_column(d, w, x as int, y + i, b as int, k);
                        assert(prev[k] == if row_hits(d, w, x as int, y + i, b as int, k) {
                            c
                        } else {
                            row_start[k]
                        });
                    }
                }
                b = b + 1;
            }
            proof {
                assert forall|k: int| 0 <= k < vram@.len() implies #[trigger] vram@[k] == if glyph_hits(
                    fonts,
                    idx as int,
                    w,
                    x as int,
                    y as int,
                    i + 1,
                    k,
                ) {
                    c
                } else {
                    before[k]
                } by {
                    lemma_glyph_add_row(fonts, idx as int, w, x as int, y as int, i as int, k);
                    assert(fonts[idx + i] == d);
                    assert(row_start[k] == if glyph_hits(fonts, idx as int, w, x as int, y as int, i as int, k) {
                        c
                    } else {
                        before[k]
                    });
                }
            }
            i = i + 1;
        }
    }

    fn set_palette() -> (r: Vec<PortWrite>)
        ensures
            r@ == palette_writes(),
    {
        let mut v: Vec<PortWrite> = Vec::new();
        v.push(PortWrite::new(PALETTE_INDEX_PORT, 0));
        let colors = RGB::iterator();
        let mut i: usize = 0;
        while i < colors.len()
            invariant
                colors@ == all_colors(),
                0 <= i <= 16,
                v@ == palette_writes().take(1 + 3 * i),
            decreases 16 - i,
        {
            let rgb = colors[i];
            proof {
                assert(palette_byte(3 * i) == (rgb_value(rgb).r >> 2u8) as i32);
                assert(palette_byte(3 * i + 1) == (rgb_value(rgb).b >> 2u8) as i32);
                assert(palette_byte(3 * i + 2) == (rgb_value(rgb).b >> 2u8) as i32);
            }
            v.push(PortWrite::new(PALETTE_DATA_PORT, (rgb.r() >> 2) as i32));
            v.push(PortWrite::new(PALETTE_DATA_PORT, (rgb.b() >> 2) as i32));
            v.push(PortWrite::new(PALETTE_DATA_PORT, (rgb.b() >> 2) as i32));
            proof {
                assert(v@ =~= palette_writes().take(1 + 3 * (i + 1)));
            }
            i = i + 1;
        }
        assert(v@ =~= palette_writes());
        v
    }
}

} // verus!
