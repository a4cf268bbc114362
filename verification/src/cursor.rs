//! The mouse pointer: a 16x16 arrow kept inside the screen.
use vstd::prelude::*;
use crate::console::Color;
use crate::ui::{in_rect, UiRenderer};

verus! {

/// Size of the pointer's image.
pub const CURSOR_W: usize = 16;
pub const CURSOR_H: usize = 16;

/// The pointer: its hotspot and the screen it moves on.
pub struct Cursor {
    pub x: i32,
    pub y: i32,
    pub width: usize,
    pub height: usize,
}

/// `v` limited to `lo..=hi`.
pub open spec fn clamp_i(v: int, lo: int, hi: int) -> int {
    if v < lo { lo } else if v > hi { hi } else { v }
}

/// The arrow's image: row `r`, column `c` of the 16x16 box is painted. Rows 0 to 9
/// widen by one pixel each, rows 10 and 11 keep four pixels, and rows 12 to 15 draw
/// the tail.
pub open spec fn arrow_bit(r: int, c: int) -> bool {
    if r < 0 || r >= 16 || c < 0 || c >= 16 {
        false
    } else if r <= 9 {
        c <= r
    } else if r <= 11 {
        c < 4
    } else if r == 12 {
        c == 0 || c == 2 || c == 3
    } else if r == 13 {
        c == 2 || c == 3
    } else {
        c == 3 || c == 4
    }
}

fn arrow_bit_exec(r: usize, c: usize) -> (res: bool)
    ensures
        res == arrow_bit(r as int, c as int),
{
    if r >= 16 || c >= 16 {
        false
    } else if r <= 9 {
        c <= r
    } else if r <= 11 {
        c < 4
    } else if r == 12 {
        c == 0 || c == 2 || c == 3
    } else if r == 13 {
        c == 2 || c == 3
    } else {
        c == 3 || c == 4
    }
}

pub open spec fn cursor_fg() -> Color { Color { r: 224, g: 222, b: 244 } }
pub open spec fn cursor_outline() -> Color { Color { r: 25, g: 23, b: 36 } }
pub open spec fn hotspot_mark() -> Color { Color { r: 255, g: 0, b: 0 } }

/// The pixel to the left of painted column `c` that the outline test looks at: the
/// previous column, except that the first column of the right half looks at column 0.
pub open spec fn left_probe(c: int) -> int {
    if c == 8 { 0 } else { c - 1 }
}

/// What drawing the pointer at (x, y) on a `w` x `h` screen leaves at offset (dx, dy)
/// of its box, if anything: the arrow's colour where it is painted; the outline to the
/// left of a painted pixel whose probe is clear (right half included) and above a
/// painted pixel of the left half whose upper neighbour is clear; a red 3x3 mark at
/// the hotspot under everything else. Only pixels whose painted source lies on the
/// screen are drawn.
pub open spec fn cursor_color(dx: int, dy: int, x: int, y: int, w: int, h: int) -> Option<Color> {
    if arrow_bit(dy, dx) && x + dx < w && y + dy < h {
        Some(cursor_fg())
    } else if (1 <= dx + 1 < 16 && arrow_bit(dy, dx + 1) && !arrow_bit(dy, left_probe(dx + 1))
        && x + dx + 1 < w && y + dy < h)
        || (dx < 8 && dy + 1 < 16 && arrow_bit(dy + 1, dx) && !arrow_bit(dy, dx) && x + dx < w && y + dy + 1 < h) {
        Some(cursor_outline())
    } else if dx < 3 && dy < 3 && x + dx < w && y + dy < h {
        Some(hotspot_mark())
    } else {
        None
    }
}

fn cursor_color_exec(dx: usize, dy: usize, x: usize, y: usize, w: usize, h: usize) -> (res: Option<Color>)
    requires
        dx < 16,
        dy < 16,
        x + 16 <= usize::MAX,
        y + 16 <= usize::MAX,
    ensures
        res == cursor_color(dx as int, dy as int, x as int, y as int, w as int, h as int),
{
    if arrow_bit_exec(dy, dx) && x + dx < w && y + dy < h {
        return Some(Color { r: 224, g: 222, b: 244 });
    }
    let probe: usize = if dx + 1 == 8 { 0 } else { dx };
    let left = dx + 1 < 16 && arrow_bit_exec(dy, dx + 1) && !arrow_bit_exec(dy, probe) && x + dx + 1 < w && y + dy < h;
    let above = dx < 8 && dy + 1 < 16 && arrow_bit_exec(dy + 1, dx) && !arrow_bit_exec(dy, dx) && x + dx < w && y + dy + 1 < h;
    if left || above {
        return Some(Color { r: 25, g: 23, b: 36 });
    }
    if dx < 3 && dy < 3 && x + dx < w && y + dy < h {
        return Some(Color { r: 255, g: 0, b: 0 });
    }
    None
}

impl Cursor {
    /// A pointer in the middle of a screen of the given size.
    pub fn new(width: usize, height: usize) -> (res: Self)
        ensures
            res.x == (width / 2) as i32,
            res.y == (height / 2) as i32,
            res.width == width && res.height == height,
    {
        Cursor { x: (width / 2) as i32, y: (height / 2) as i32, width, height }
    }

    /// The hotspot's position.
    pub fn pos(&self) -> (res: (i32, i32))
        ensures
            res == (self.x, self.y),
    {
        (self.x, self.y)
    }

    /// Moves the pointer by (dx, dy), keeping it on the screen.
    pub fn move_by(&mut self, dx: i32, dy: i32)
        requires
            1 <= old(self).width <= 0x8000_0000,
            1 <= old(self).height <= 0x8000_0000,
            i32::MIN <= old(self).x + dx <= i32::MAX,
            i32::MIN <= old(self).y + dy <= i32::MAX,
        ensures
            final(self).x == clamp_i(old(self).x + dx, 0, old(self).width - 1),
            final(self).y == clamp_i(old(self).y + dy, 0, old(self).height - 1),
            final(self).width == old(self).width && final(self).height == old(self).height,
    {
        let nx = self.x + dx;
        let ny = self.y + dy;
        let mx = (self.width - 1) as i32;
        let my = (self.height - 1) as i32;
        self.x = if nx < 0 { 0 } else if nx > mx { mx } else { nx };
        self.y = if ny < 0 { 0 } else if ny > my { my } else { ny };
    }

    /// Draws the pointer: each pixel of its 16x16 box gets `cursor_color`, where that
    /// gives one; everything else is left as it was.
    pub fn draw(&self, ui: &mut UiRenderer)
        requires
            old(ui).wf(),
            0 <= self.x,
            0 <= self.y,
        ensures
            final(ui).wf(),
            final(ui).width == old(ui).width && final(ui).height == old(ui).height,
            final(ui).pitch == old(ui).pitch && final(ui).bpp == old(ui).bpp,
            forall|px: int, py: int| 0 <= px < old(ui).width && 0 <= py < old(ui).height ==>
                #[trigger] final(ui).pixel(px, py) == (if in_rect(px, py, self.x as int, self.y as int, 16, 16) {
                    match cursor_color(px - self.x, py - self.y, self.x as int, self.y as int, self.width as int, self.height as int) {
                        Some(c) => c,
                        None => old(ui).pixel(px, py),
                    }
                } else {
                    old(ui).pixel(px, py)
                }),
    {
        let x = self.x as usize;
        let y = self.y as usize;
        let ghost orig = *ui;
        let mut dy: usize = 0;
        while dy < 16
            invariant
                ui.wf(),
                ui.width == orig.width && ui.height == orig.height,
                ui.pitch == orig.pitch && ui.bpp == orig.bpp,
                x == self.x && y == self.y,
                0 <= self.x && 0 <= self.y,
                dy <= 16,
                forall|px: int, py: int| 0 <= px < orig.width && 0 <= py < orig.height ==>
                    #[trigger] ui.pixel(px, py) == (if in_rect(px, py, x as int, y as int, 16, dy as int) {
                        match cursor_color(px - x, py - y, x as int, y as int, self.width as int, self.height as int) {
                            Some(c) => c,
                            None => orig.pixel(px, py),
                        }
                    } else {
                        orig.pixel(px, py)
                    }),
            decreases 16 - dy,
        {
            let mut dx: usize = 0;
            while dx < 16
                invariant
                    ui.wf(),
                    ui.width == orig.width && ui.height == orig.height,
                    ui.pitch == orig.pitch && ui.bpp == orig.bpp,
                    x == self.x && y == self.y,
                    0 <= self.x && 0 <= self.y,
                    dy < 16,
                    dx <= 16,
                    forall|px: int, py: int| 0 <= px < orig.width && 0 <= py < orig.height ==>
                        #[trigger] ui.pixel(px, py) == (if in_rect(px, py, x as int, y as int, 16, dy as int)
                            || (py == y + dy && x <= px < x + dx) {
                            match cursor_color(px - x, py - y, x as int, y as int, self.width as int, self.height as int) {
                                Some(c) => c,
                                None => orig.pixel(px, py),
                            }
                        } else {
                            orig.pixel(px, py)
                        }),
                decreases 16 - dx,
            {
                match cursor_color_exec(dx, dy, x, y, self.width, self.height) {
                    Some(c) => {
                        ui.put_pixel(x + dx, y + dy, c);
                    },
                    None => {},
                }
                dx = dx + 1;
            }
            dy = dy + 1;
        }
    }

    /// Paints the pointer's 16x16 square with the background colour (clipped to the
    /// screen it moves on).
    pub fn erase(&self, ui: &mut UiRenderer)
        requires
            old(ui).wf(),
            0 <= self.x,
            0 <= self.y,
        ensures
            final(ui).wf(),
            final(ui).width == old(ui).width && final(ui).height == old(ui).height,
            final(ui).pitch == old(ui).pitch && final(ui).bpp == old(ui).bpp,
            forall|px: int, py: int| 0 <= px < old(ui).width && 0 <= py < old(ui).height ==>
                #[trigger] final(ui).pixel(px, py) == (if in_rect(px, py, self.x as int, self.y as int, 16, 16)
                    && px < self.width && py < self.height {
                    Color { r: 25, g: 23, b: 36 }
                } else {
                    old(ui).pixel(px, py)
                }),
    {
        let x = self.x as usize;
        let y = self.y as usize;
        let w: usize = if x >= self.width { 0 } else if self.width - x < 16 { self.width - x } else { 16 };
        let h: usize = if y >= self.height { 0 } else if self.height - y < 16 { self.height - y } else { 16 };
        ui.fill_rect(x, y, w, h, Color { r: 25, g: 23, b: 36 });
    }
}

} // verus!
