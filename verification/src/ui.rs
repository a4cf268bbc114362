//! Drawing primitives on a framebuffer image held as one colour per pixel.
use vstd::prelude::*;
use crate::console::{Color, ConsoleOp, FONT_WIDTH};
use crate::text::chars_of;

verus! {

/// The colour of a `0xRRGGBB` value.
pub open spec fn spec_color(rgb: u32) -> Color {
    Color { r: (rgb / 0x10000 % 0x100) as u8, g: (rgb / 0x100 % 0x100) as u8, b: (rgb % 0x100) as u8 }
}

/// The colour of a `0xRRGGBB` value, such as the palette's entries below.
pub fn color_of(rgb: u32) -> (c: Color)
    ensures
        c == spec_color(rgb),
{
    Color { r: (rgb / 0x10000 % 0x100) as u8, g: (rgb / 0x100 % 0x100) as u8, b: (rgb % 0x100) as u8 }
}

/// The desktop's background colour.
pub const BASE: u32 = 0x191724;
/// Surface of cards.
pub const SURFACE: u32 = 0x1F1D2E;
/// Surface of raised elements.
pub const OVERLAY: u32 = 0x26233A;
/// Ordinary text.
pub const TEXT: u32 = 0xE0DEF4;
/// Labels and secondary text.
pub const SUBTLE: u32 = 0x908CAA;
/// Text that is hardly relevant.
pub const MUTED: u32 = 0x6E6A86;
pub const ROSE: u32 = 0xEBBCBA;
pub const PINE: u32 = 0x31748F;
pub const FOAM: u32 = 0x9CCFD8;
pub const IRIS: u32 = 0xC4A7E7;
pub const GOLD: u32 = 0xF6C177;
pub const LOVE: u32 = 0xEB6F92;
pub const SUCCESS: u32 = 0x9CCF9C;
pub const WARNING: u32 = 0xF6C177;
pub const ERROR: u32 = 0xEB6F92;
pub const INFO: u32 = 0x9CCFD8;
/// Background of the status bar.
pub const BAR_BG: u32 = 0x14121E;
/// Text of the status bar.
pub const BAR_TEXT: u32 = 0xC8C5DC;

/// A framebuffer image: `width * height` pixels, row after row, with the geometry of the
/// screen it is shown on (`pitch` bytes per row, `bpp` bytes per pixel).
pub struct UiRenderer {
    pub pixels: Vec<Color>,
    pub width: usize,
    pub height: usize,
    pub pitch: usize,
    pub bpp: usize,
}

/// The index of pixel (x, y).
pub open spec fn idx(width: int, x: int, y: int) -> int {
    y * width + x
}

proof fn lemma_idx(width: int, x: int, y: int, height: int)
    requires
        0 <= x < width,
        0 <= y < height,
    ensures
        0 <= idx(width, x, y) < width * height,
{
    assert(0 <= y * width + x < width * height) by (nonlinear_arith)
        requires 0 <= x < width, 0 <= y < height;
}

proof fn lemma_idx_inj(width: int, x: int, y: int, a: int, b: int)
    requires
        0 <= x < width,
        0 <= a < width,
        0 <= y,
        0 <= b,
        (x, y) != (a, b),
    ensures
        idx(width, x, y) != idx(width, a, b),
{
    if y == b {
    } else if y < b {
        assert(y * width + x < b * width + a) by (nonlinear_arith)
            requires 0 <= x < width, 0 <= a, y < b, 0 <= y;
    } else {
        assert(b * width + a < y * width + x) by (nonlinear_arith)
            requires 0 <= a < width, 0 <= x, b < y, 0 <= b;
    }
}

impl UiRenderer {
    pub open spec fn wf(&self) -> bool {
        self.pixels@.len() == self.width * self.height
    }

    /// The colour of pixel (x, y).
    pub open spec fn pixel(&self, x: int, y: int) -> Color {
        self.pixels@[idx(self.width as int, x, y)]
    }

    /// An image of the given size, every pixel black.
    pub fn new(width: usize, height: usize, pitch: usize, bpp: usize) -> (res: Self)
        requires
            width * height <= usize::MAX,
        ensures
            res.wf(),
            res.width == width && res.height == height && res.pitch == pitch && res.bpp == bpp,
            forall|x: int, y: int| 0 <= x < width && 0 <= y < height ==> res.pixel(x, y) == (Color { r: 0, g: 0, b: 0 }),
    {
        let n = width * height;
        let mut pixels: Vec<Color> = Vec::new();
        let mut i: usize = 0;
        while i < n
            invariant
                i <= n,
                pixels@.len() == i,
                forall|k: int| 0 <= k < i ==> pixels@[k] == (Color { r: 0, g: 0, b: 0 }),
            decreases n - i,
        {
            pixels.push(Color { r: 0, g: 0, b: 0 });
            i = i + 1;
        }
        proof {
            assert forall|x: int, y: int| 0 <= x < width && 0 <= y < height implies
                pixels@[idx(width as int, x, y)] == (Color { r: 0, g: 0, b: 0 }) by {
                lemma_idx(width as int, x, y, height as int);
            }
        }
        UiRenderer { pixels, width, height, pitch, bpp }
    }

    /// Sets one pixel; pixels outside the screen are ignored.
    pub fn put_pixel(&mut self, x: usize, y: usize, color: Color)
        requires
            old(self).wf(),
        ensures
            final(self).wf(),
            final(self).width == old(self).width && final(self).height == old(self).height,
            final(self).pitch == old(self).pitch && final(self).bpp == old(self).bpp,
            forall|px: int, py: int| 0 <= px < old(self).width && 0 <= py < old(self).height ==>
                #[trigger] final(self).pixel(px, py) == (if px == x && py == y { color } else { old(self).pixel(px, py) }),
    {
        if x >= self.width || y >= self.height {
            return;
        }
        let _n = self.pixels.len();
        proof { lemma_idx(self.width as int, x as int, y as int, self.height as int); }
        assert(y * self.width + x < self.width * self.height) by (nonlinear_arith)
            requires x < self.width, y < self.height;
        assert(y * self.width <= y * self.width + x);
        let i = y * self.width + x;
        self.pixels.set(i, color);
        proof {
            assert forall|px: int, py: int| 0 <= px < old(self).width && 0 <= py < old(self).height implies
                #[trigger] self.pixel(px, py) == (if px == x && py == y { color } else { old(self).pixel(px, py) }) by {
                lemma_idx(self.width as int, px, py, self.height as int);
                if !(px == x && py == y) {
                    lemma_idx_inj(self.width as int, px, py, x as int, y as int);
                }
            }
        }
    }
}

impl UiRenderer {
    /// The colour of a pixel of the screen.
    pub fn get_pixel(&self, x: usize, y: usize) -> (res: Color)
        requires
            self.wf(),
            x < self.width,
            y < self.height,
        ensures
            res == self.pixel(x as int, y as int),
    {
        let _n = self.pixels.len();
        proof { lemma_idx(self.width as int, x as int, y as int, self.height as int); }
        assert(y * self.width + x < self.width * self.height) by (nonlinear_arith)
            requires x < self.width, y < self.height;
        assert(y * self.width <= y * self.width + x);
        self.pixels[y * self.width + x]
    }
}

/// Whether (px, py) lies in the rectangle of corner (x, y) and size w x h.
pub open spec fn in_rect(px: int, py: int, x: int, y: int, w: int, h: int) -> bool {
    x <= px < x + w && y <= py < y + h
}

impl UiRenderer {
    /// Fills a rectangle (clipped to the screen).
    pub fn fill_rect(&mut self, x: usize, y: usize, w: usize, h: usize, color: Color)
        requires
            old(self).wf(),
            x + w <= usize::MAX,
            y + h <= usize::MAX,
        ensures
            final(self).wf(),
            final(self).width == old(self).width && final(self).height == old(self).height,
            final(self).pitch == old(self).pitch && final(self).bpp == old(self).bpp,
            forall|px: int, py: int| 0 <= px < old(self).width && 0 <= py < old(self).height ==>
                #[trigger] final(self).pixel(px, py) == (if in_rect(px, py, x as int, y as int, w as int, h as int) {
                    color
                } else {
                    old(self).pixel(px, py)
                }),
    {
        let ghost old_self = *self;
        let mut dy: usize = 0;
        while dy < h
            invariant
                self.wf(),
                self.width == old_self.width && self.height == old_self.height,
                self.pitch == old_self.pitch && self.bpp == old_self.bpp,
                dy <= h,
                x + w <= usize::MAX,
                y + h <= usize::MAX,
                forall|px: int, py: int| 0 <= px < self.width && 0 <= py < self.height ==>
                    #[trigger] self.pixel(px, py) == (if in_rect(px, py, x as int, y as int, w as int, dy as int) {
                        color
                    } else {
                        old_self.pixel(px, py)
                    }),
            decreases h - dy,
        {
            let mut dx: usize = 0;
            while dx < w
                invariant
                    self.wf(),
                    self.width == old_self.width && self.height == old_self.height,
                    self.pitch == old_self.pitch && self.bpp == old_self.bpp,
                    dy < h,
                    dx <= w,
                    x + w <= usize::MAX,
                    y + h <= usize::MAX,
                    forall|px: int, py: int| 0 <= px < self.width && 0 <= py < self.height ==>
                        #[trigger] self.pixel(px, py) == (if in_rect(px, py, x as int, y as int, w as int, dy as int)
                            || (py == y + dy && x <= px < x + dx) {
                            color
                        } else {
                            old_self.pixel(px, py)
                        }),
                decreases w - dx,
            {
                self.put_pixel(x + dx, y + dy, color);
                dx = dx + 1;
            }
            dy = dy + 1;
        }
    }
}

/// Whether (px, py) lies in quarter `q` of the disc of centre (cx, cy) and radius r
/// (0: up-left, 1: up-right, 2: down-left, 3: down-right).
pub open spec fn in_quarter(q: u8, cx: int, cy: int, r: int, px: int, py: int) -> bool {
    let ddx = if q == 0 || q == 2 { cx - px } else { px - cx };
    let ddy = if q == 0 || q == 1 { cy - py } else { py - cy };
    0 <= ddx <= r && 0 <= ddy <= r && ddx * ddx + ddy * ddy <= r * r
}

/// Whether (px, py) is painted by `fill_circle`: within the square of side 2r from
/// `(cx - r, cy - r)` (clamped at 0) and within distance r of its centre.
pub open spec fn in_circle(cx: int, cy: int, r: int, px: int, py: int) -> bool {
    let lx = if cx >= r { cx - r } else { 0 };
    let ly = if cy >= r { cy - r } else { 0 };
    let ax = if px - lx >= r { px - lx - r } else { r - (px - lx) };
    let ay = if py - ly >= r { py - ly - r } else { r - (py - ly) };
    lx <= px <= lx + 2 * r && ly <= py <= ly + 2 * r && ax * ax + ay * ay <= r * r
}

impl UiRenderer {
    fn fill_circle_quarter(&mut self, cx: usize, cy: usize, r: usize, quarter: u8, color: Color)
        requires
            old(self).wf(),
            cx + r <= usize::MAX,
            cy + r <= usize::MAX,
            2 * r * r <= usize::MAX,
        ensures
            final(self).wf(),
            final(self).width == old(self).width && final(self).height == old(self).height,
            final(self).pitch == old(self).pitch && final(self).bpp == old(self).bpp,
            forall|px: int, py: int| 0 <= px < old(self).width && 0 <= py < old(self).height ==>
                #[trigger] final(self).pixel(px, py) == (if in_quarter(quarter, cx as int, cy as int, r as int, px, py) {
                    color
                } else {
                    old(self).pixel(px, py)
                }),
    {
        let ghost old_self = *self;
        assert(r + 1 <= usize::MAX) by (nonlinear_arith)
            requires 2 * r * r <= usize::MAX, usize::MAX >= 0xffff_ffff;
        let mut dy: usize = 0;
        while dy <= r
            invariant
                self.wf(),
                self.width == old_self.width && self.height == old_self.height,
                self.pitch == old_self.pitch && self.bpp == old_self.bpp,
                cx + r <= usize::MAX, cy + r <= usize::MAX, 2 * r * r <= usize::MAX, r < usize::MAX,
                dy <= r + 1,
                forall|px: int, py: int| 0 <= px < self.width && 0 <= py < self.height ==>
                    #[trigger] self.pixel(px, py) == (if in_quarter(quarter, cx as int, cy as int, r as int, px, py)
                        && (if quarter == 0 || quarter == 1 { cy - py } else { py - cy }) < dy {
                        color
                    } else {
                        old_self.pixel(px, py)
                    }),
            decreases r + 1 - dy,
        {
            let mut dx: usize = 0;
            while dx <= r
                invariant
                    self.wf(),
                    self.width == old_self.width && self.height == old_self.height,
                    self.pitch == old_self.pitch && self.bpp == old_self.bpp,
                    cx + r <= usize::MAX, cy + r <= usize::MAX, 2 * r * r <= usize::MAX, r < usize::MAX,
                    dy <= r,
                    dx <= r + 1,
                    forall|px: int, py: int| 0 <= px < self.width && 0 <= py < self.height ==>
                        #[trigger] self.pixel(px, py) == (if in_quarter(quarter, cx as int, cy as int, r as int, px, py)
                            && ((if quarter == 0 || quarter == 1 { cy - py } else { py - cy }) < dy
                                || ((if quarter == 0 || quarter == 1 { cy - py } else { py - cy }) == dy
                                    && (if quarter == 0 || quarter == 2 { cx - px } else { px - cx }) < dx)) {
                            color
                        } else {
                            old_self.pixel(px, py)
                        }),
                decreases r + 1 - dx,
            {
                assert(dx * dx + dy * dy <= 2 * r * r) by (nonlinear_arith)
                    requires dx <= r, dy <= r;
                assert(r * r <= 2 * r * r) by (nonlinear_arith);
                if dx * dx + dy * dy <= r * r {
                    let px = if quarter == 0 || quarter == 2 {
                        if cx >= dx { cx - dx } else { 0 }
                    } else {
                        cx + dx
                    };
                    let py = if quarter == 0 || quarter == 1 {
                        if cy >= dy { cy - dy } else { 0 }
                    } else {
                        cy + dy
                    };
                    proof {
                        let ddx: int = if quarter == 0 || quarter == 2 { cx - px } else { px - cx };
                        let ddy: int = if quarter == 0 || quarter == 1 { cy - py } else { py - cy };
                        assert(ddx * ddx + ddy * ddy <= r * r) by (nonlinear_arith)
                            requires 0 <= ddx <= dx, 0 <= ddy <= dy, dx * dx + dy * dy <= r * r;
                    }
                    self.put_pixel(px, py, color);
                }
                dx = dx + 1;
            }
            dy = dy + 1;
        }
    }

    /// Fills a disc: the points of the square of side 2r around the centre whose distance
    /// to the centre is at most r.
    pub fn fill_circle(&mut self, cx: usize, cy: usize, r: usize, color: Color)
        requires
            old(self).wf(),
            cx + 2 * r <= usize::MAX,
            cy + 2 * r <= usize::MAX,
            2 * r * r <= usize::MAX,
        ensures
            final(self).wf(),
            final(self).width == old(self).width && final(self).height == old(self).height,
            final(self).pitch == old(self).pitch && final(self).bpp == old(self).bpp,
            forall|px: int, py: int| 0 <= px < old(self).width && 0 <= py < old(self).height ==>
                #[trigger] final(self).pixel(px, py) == (if in_circle(cx as int, cy as int, r as int, px, py) {
                    color
                } else {
                    old(self).pixel(px, py)
                }),
    {
        let ghost old_self = *self;
        let lx = if cx >= r { cx - r } else { 0 };
        let ly = if cy >= r { cy - r } else { 0 };
        let mut dy: usize = 0;
        while dy <= 2 * r
            invariant
                self.wf(),
                self.width == old_self.width && self.height == old_self.height,
                self.pitch == old_self.pitch && self.bpp == old_self.bpp,
                cx + 2 * r <= usize::MAX, cy + 2 * r <= usize::MAX, 2 * r * r <= usize::MAX,
                lx == (if cx >= r { cx - r } else { 0 }),
                ly == (if cy >= r { cy - r } else { 0 }),
                dy <= 2 * r + 1,
                forall|px: int, py: int| 0 <= px < self.width && 0 <= py < self.height ==>
                    #[trigger] self.pixel(px, py) == (if in_circle(cx as int, cy as int, r as int, px, py) && py < ly + dy {
                        color
                    } else {
                        old_self.pixel(px, py)
                    }),
            decreases 2 * r + 1 - dy,
        {
            let mut dx: usize = 0;
            while dx <= 2 * r
                invariant
                    self.wf(),
                    self.width == old_self.width && self.height == old_self.height,
                    self.pitch == old_self.pitch && self.bpp == old_self.bpp,
                    cx + 2 * r <= usize::MAX, cy + 2 * r <= usize::MAX, 2 * r * r <= usize::MAX,
                    lx == (if cx >= r { cx - r } else { 0 }),
                    ly == (if cy >= r { cy - r } else { 0 }),
                    dy <= 2 * r,
                    dx <= 2 * r + 1,
                    forall|px: int, py: int| 0 <= px < self.width && 0 <= py < self.height ==>
                        #[trigger] self.pixel(px, py) == (if in_circle(cx as int, cy as int, r as int, px, py)
                            && (py < ly + dy || (py == ly + dy && px < lx + dx)) {
                            color
                        } else {
                            old_self.pixel(px, py)
                        }),
                decreases 2 * r + 1 - dx,
            {
                let dist_x: usize = if dx >= r { dx - r } else { r - dx };
                let dist_y: usize = if dy >= r { dy - r } else { r - dy };
                assert(dist_x * dist_x + dist_y * dist_y <= 2 * r * r) by (nonlinear_arith)
                    requires dist_x <= r, dist_y <= r;
                assert(r * r <= 2 * r * r) by (nonlinear_arith);
                if dist_x * dist_x + dist_y * dist_y <= r * r {
                    self.put_pixel(lx + dx, ly + dy, color);
                }
                dx = dx + 1;
            }
            dy = dy + 1;
        }
    }
}

fn glyph_op(x: usize, y: usize, c: char, color: Color) -> (r: ConsoleOp)
    ensures
        r == (ConsoleOp::Glyph { x, y, c, color }),
{
    ConsoleOp::Glyph { x, y, c, color }
}

/// Whether (px, py) is painted by `fill_rounded_rect`: the whole rectangle when the radius
/// is zero or too large, otherwise the rectangle with its corners cut to quarter discs.
pub open spec fn in_rounded_rect(x: int, y: int, w: int, h: int, r: int, px: int, py: int) -> bool {
    if r == 0 || w < 2 * r || h < 2 * r {
        in_rect(px, py, x, y, w, h)
    } else {
        in_rect(px, py, x + r, y, w - 2 * r, h) || in_rect(px, py, x, y + r, w, h - 2 * r)
            || in_quarter(0, x + r, y + r, r, px, py) || in_quarter(1, x + w - r - 1, y + r, r, px, py)
            || in_quarter(2, x + r, y + h - r - 1, r, px, py) || in_quarter(3, x + w - r - 1, y + h - r - 1, r, px, py)
    }
}

impl UiRenderer {
    /// Fills a rectangle with rounded corners of the given radius.
    pub fn fill_rounded_rect(&mut self, x: usize, y: usize, w: usize, h: usize, radius: usize, color: Color)
        requires
            old(self).wf(),
            x + w + radius <= usize::MAX,
            y + h + radius <= usize::MAX,
            2 * radius * radius <= usize::MAX,
        ensures
            final(self).wf(),
            final(self).width == old(self).width && final(self).height == old(self).height,
            final(self).pitch == old(self).pitch && final(self).bpp == old(self).bpp,
            forall|px: int, py: int| 0 <= px < old(self).width && 0 <= py < old(self).height ==>
                #[trigger] final(self).pixel(px, py) == (if in_rounded_rect(x as int, y as int, w as int, h as int, radius as int, px, py) {
                    color
                } else {
                    old(self).pixel(px, py)
                }),
    {
        if radius > 0 {
            assert(radius * 2 <= 2 * radius * radius) by (nonlinear_arith)
                requires radius >= 1;
        }
        if radius == 0 || w < radius * 2 || h < radius * 2 {
            self.fill_rect(x, y, w, h, color);
            return;
        }
        self.fill_rect(x + radius, y, w - 2 * radius, h, color);
        self.fill_rect(x, y + radius, w, h - 2 * radius, color);
        self.fill_circle_quarter(x + radius, y + radius, radius, 0, color);
        self.fill_circle_quarter(x + w - radius - 1, y + radius, radius, 1, color);
        self.fill_circle_quarter(x + radius, y + h - radius - 1, radius, 2, color);
        self.fill_circle_quarter(x + w - radius - 1, y + h - radius - 1, radius, 3, color);
    }

    /// The glyphs of a line of text starting at (x, y), one cell of `FONT_WIDTH` per
    /// character; the caller rasterises them.
    pub fn draw_text(&self, x: usize, y: usize, text: &str, color: Color) -> (res: Vec<ConsoleOp>)
        requires
            x + text@.len() * FONT_WIDTH <= usize::MAX,
        ensures
            res@.len() == text@.len(),
            forall|i: int| 0 <= i < text@.len() ==> #[trigger] res@[i] == (ConsoleOp::Glyph {
                x: (x + i * FONT_WIDTH) as usize, y, c: text@[i], color }),
    {
        let cs = chars_of(text);
        let mut ops: Vec<ConsoleOp> = Vec::new();
        let mut i: usize = 0;
        let n = cs.len();
        while i < n
            invariant
                cs@ == text@,
                n == cs@.len(),
                i <= cs@.len(),
                x + text@.len() * FONT_WIDTH <= usize::MAX,
                ops@.len() == i,
                forall|k: int| 0 <= k < i ==> #[trigger] ops@[k] == (ConsoleOp::Glyph {
                    x: (x + k * FONT_WIDTH) as usize, y, c: text@[k], color }),
            decreases cs@.len() - i,
        {
            assert(i * FONT_WIDTH <= text@.len() * FONT_WIDTH) by (nonlinear_arith)
                requires i <= text@.len();
            let op = glyph_op(x + i * FONT_WIDTH, y, cs[i], color);
            ops.push(op);
            i = i + 1;
        }
        ops
    }

    /// Draws a card: its drop shadow, the rounded surface and, with a title, the line under
    /// the title; returns the title's glyphs.
    pub fn draw_card(&mut self, x: usize, y: usize, w: usize, h: usize, title: Option<&str>) -> (res: Vec<ConsoleOp>)
        requires
            old(self).wf(),
            x + w + 12 <= usize::MAX,
            y + h + 40 <= usize::MAX,
            title matches Some(t) ==> x + 16 + t@.len() * FONT_WIDTH <= usize::MAX,
        ensures
            final(self).wf(),
            final(self).width == old(self).width && final(self).height == old(self).height,
            forall|px: int, py: int| 0 <= px < old(self).width && 0 <= py < old(self).height ==>
                #[trigger] final(self).pixel(px, py) == card_pixel(old(self).pixel(px, py), x as int, y as int, w as int, h as int,
                    title is Some, px, py),
            title matches Some(t) ==> res@.len() == t@.len(),
            title is None ==> res@.len() == 0,
    {
        let ghost old_self = *self;
        let shadow = Color { r: 10, g: 8, b: 15 };
        let mut offset: usize = 8;
        while offset >= 1
            invariant
                self.wf(),
                self.width == old_self.width && self.height == old_self.height,
                self.pitch == old_self.pitch && self.bpp == old_self.bpp,
                offset <= 8,
                x + w + 12 <= usize::MAX,
                y + h + 40 <= usize::MAX,
                forall|px: int, py: int| 0 <= px < self.width && 0 <= py < self.height ==>
                    #[trigger] self.pixel(px, py) == (if offset < 8 && in_rect(px, py, x + offset + 1, y + offset + 1, w - offset - 1, h - offset - 1) {
                        shadow
                    } else {
                        old_self.pixel(px, py)
                    }),
            decreases offset,
        {
            if offset < w && offset < h {
                self.fill_rect(x + offset, y + offset, w - offset, h - offset, shadow);
            }
            offset = offset - 1;
        }
        let ghost after_shadow = *self;
        self.fill_rounded_rect(x, y, w, h, 12, Color { r: 31, g: 29, b: 46 });
        let ghost after_rect = *self;
        let mut ops: Vec<ConsoleOp> = Vec::new();
        if let Some(t) = title {
            ops = self.draw_text(x + 16, y + 14, t, Color { r: 224, g: 222, b: 244 });
            let end: usize = if w >= 12 { w - 12 } else { 0 };
            let mut dx: usize = 12;
            while dx < end
                invariant
                    self.wf(),
                    self.width == old_self.width && self.height == old_self.height,
                    self.pitch == old_self.pitch && self.bpp == old_self.bpp,
                    12 <= dx,
                    dx <= end || end < 12,
                    end < 12 ==> dx == 12,
                    end == (if w >= 12 { w - 12 } else { 0 }),
                    x + w + 12 <= usize::MAX,
                    y + h + 40 <= usize::MAX,
                    forall|px: int, py: int| 0 <= px < self.width && 0 <= py < self.height ==>
                        #[trigger] self.pixel(px, py) == (if py == y + 36 && x + 12 <= px < x + dx {
                            Color { r: 50, g: 47, b: 75 }
                        } else {
                            after_rect.pixel(px, py)
                        }),
                decreases end - dx,
            {
                self.put_pixel(x + dx, y + 36, Color { r: 50, g: 47, b: 75 });
                dx = dx + 1;
            }
        }
        proof {
            assert forall|px: int, py: int| 0 <= px < old_self.width && 0 <= py < old_self.height implies
                #[trigger] self.pixel(px, py) == card_pixel(old_self.pixel(px, py), x as int, y as int, w as int, h as int,
                    title is Some, px, py) by {
                assert(after_rect.pixel(px, py) == (if in_rounded_rect(x as int, y as int, w as int, h as int, 12, px, py) {
                    Color { r: 31, g: 29, b: 46 }
                } else {
                    after_shadow.pixel(px, py)
                }));
                assert(after_shadow.pixel(px, py) == (if in_shadow(x as int, y as int, w as int, h as int, px, py) {
                    Color { r: 10, g: 8, b: 15 }
                } else {
                    old_self.pixel(px, py)
                }));
            }
        }
        ops
    }
}

/// The shadow of a card: the card's rectangle without its top row and left column (the
/// union of the eight layers drawn, each shifted one pixel further down and right).
pub open spec fn in_shadow(x: int, y: int, w: int, h: int, px: int, py: int) -> bool {
    in_rect(px, py, x + 1, y + 1, w - 1, h - 1)
}

/// The colour of a pixel after `draw_card`, given its colour before.
pub open spec fn card_pixel(before: Color, x: int, y: int, w: int, h: int, titled: bool, px: int, py: int) -> Color {
    if titled && py == y + 36 && x + 12 <= px < x + (if w >= 12 { w - 12 } else { 0 }) {
        Color { r: 50, g: 47, b: 75 }
    } else if in_rounded_rect(x, y, w, h, 12, px, py) {
        Color { r: 31, g: 29, b: 46 }
    } else if in_shadow(x, y, w, h, px, py) {
        Color { r: 10, g: 8, b: 15 }
    } else {
        before
    }
}

/// The title bar's colour at (px, py), over `before`: the three window buttons (red,
/// amber, green from the left, each over the previous), the separator on row 27, the
/// shade of each of rows 0 to 27 across the whole width.
pub open spec fn top_bar_pixel(before: Color, shades: Seq<Color>, px: int, py: int) -> Color {
    if in_circle(52, 14, 6, px, py) {
        Color { r: 39, g: 201, b: 63 }
    } else if in_circle(32, 14, 6, px, py) {
        Color { r: 255, g: 189, b: 46 }
    } else if in_circle(12, 14, 6, px, py) {
        Color { r: 255, g: 95, b: 87 }
    } else if py == 27 {
        Color { r: 45, g: 42, b: 65 }
    } else if 0 <= py < 28 {
        shades[py]
    } else {
        before
    }
}

impl UiRenderer {
    /// Draws the title bar: the 28 rows in the given shades (the vertical gradient from
    /// (35, 32, 52) to (25, 23, 36)), its separator line, the window buttons, and the
    /// title centred on row 8, whose glyphs are returned.
    pub fn draw_top_bar(&mut self, title: &str, shades: &[Color]) -> (res: Vec<ConsoleOp>)
        requires
            old(self).wf(),
            shades@.len() == 28,
            title@.len() * FONT_WIDTH <= old(self).width,
        ensures
            final(self).wf(),
            final(self).width == old(self).width && final(self).height == old(self).height,
            forall|px: int, py: int| 0 <= px < old(self).width && 0 <= py < old(self).height ==>
                #[trigger] final(self).pixel(px, py) == top_bar_pixel(old(self).pixel(px, py), shades@, px, py),
            res@.len() == title@.len(),
            forall|i: int| 0 <= i < title@.len() ==> #[trigger] res@[i] == (ConsoleOp::Glyph {
                x: ((old(self).width - title@.len() * FONT_WIDTH) / 2 + i * FONT_WIDTH) as usize, y: 8, c: title@[i],
                color: spec_color(BAR_TEXT) }),
    {
        let ghost orig = *self;
        let w = self.width;
        let mut dy: usize = 0;
        while dy < 28
            invariant
                self.wf(),
                self.width == orig.width && self.height == orig.height,
                self.pitch == orig.pitch && self.bpp == orig.bpp,
                w == orig.width,
                shades@.len() == 28,
                dy <= 28,
                forall|px: int, py: int| 0 <= px < orig.width && 0 <= py < orig.height ==>
                    #[trigger] self.pixel(px, py) == (if py < dy { shades@[py] } else { orig.pixel(px, py) }),
            decreases 28 - dy,
        {
            self.fill_rect(0, dy, w, 1, shades[dy]);
            dy = dy + 1;
        }
        self.fill_rect(0, 27, w, 1, Color { r: 45, g: 42, b: 65 });
        self.fill_circle(12, 14, 6, Color { r: 255, g: 95, b: 87 });
        self.fill_circle(32, 14, 6, Color { r: 255, g: 189, b: 46 });
        self.fill_circle(52, 14, 6, Color { r: 39, g: 201, b: 63 });
        let n = crate::text::chars_of(title).len();
        let title_x = (w - n * FONT_WIDTH) / 2;
        let color = color_of(BAR_TEXT);
        self.draw_text(title_x, 8, title, color)
    }
}

} // verus!
