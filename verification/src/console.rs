//! The text console on the framebuffer: layout of the text area, the cursor's movement
//! through it, and what has to be drawn for each character. Glyph drawing and pixel
//! copies are done by the caller, following the operations returned here.
use vstd::prelude::*;
use crate::text::{chars_of, dec, dec_pad, push_dec, push_dec_pad, push_str, string_of};
use crate::ui::{color_of, spec_color, UiRenderer, SURFACE};

verus! {

/// An RGB colour.
#[derive(Debug, Clone, Copy, PartialEq, Eq, Structural)]
pub struct Color {
    pub r: u8,
    pub g: u8,
    pub b: u8,
}

impl Color {
    pub fn new(r: u8, g: u8, b: u8) -> (res: Self)
        ensures
            res == (Color { r, g, b }),
    {
        Color { r, g, b }
    }
}

/// Width of a glyph in pixels.
pub const FONT_WIDTH: usize = 8;
/// Height of a glyph in pixels.
pub const FONT_HEIGHT: usize = 16;
/// Height of the top bar.
pub const TOP_BAR_HEIGHT: usize = 28;
/// Margin around the terminal card.
pub const PADDING: usize = 20;
/// Height of the card's title area.
pub const CARD_HEADER: usize = 44;
/// Extra space between text lines.
pub const LINE_SPACING: usize = 4;

/// The default text colour.
pub open spec fn text_color() -> Color {
    Color { r: 224, g: 222, b: 244 }
}

pub struct Console {
    pub width: usize,
    pub height: usize,
    pub pitch: usize,
    pub bpp: usize,
    pub col: usize,
    pub row: usize,
    pub max_cols: usize,
    pub max_rows: usize,
    pub fg_color: Color,
    pub text_x: usize,
    pub text_y: usize,
    pub text_w: usize,
    pub text_h: usize,
    pub initialized: bool,
    pub locked: bool,
}

/// What the caller has to do on the screen.
#[derive(Debug, Clone, Copy, PartialEq, Eq, Structural)]
pub enum ConsoleOp {
    /// Draw a glyph with its top-left corner at (x, y), in the given colour on the
    /// surface colour.
    Glyph { x: usize, y: usize, c: char, color: Color },
    /// Move every text line up by one and clear the last one.
    Scroll,
}

impl Console {
    /// The cursor stays inside the text grid between characters.
    pub open spec fn wf(&self) -> bool {
        self.initialized ==> (self.max_cols > 0 && self.max_rows > 0 && self.col < self.max_cols
            && self.row < self.max_rows
            && self.text_x + self.text_w <= usize::MAX && self.text_y + self.text_h <= usize::MAX
            && self.max_cols * FONT_WIDTH <= self.text_w
            && self.max_rows * (FONT_HEIGHT + LINE_SPACING) <= self.text_h)
    }

    /// A console that has not been set up.
    pub fn new() -> (res: Self)
        ensures
            res.wf(),
            !res.initialized,
            res.fg_color == text_color(),
            res.bpp == 4,
    {
        Console {
            width: 0,
            height: 0,
            pitch: 0,
            bpp: 4,
            col: 0,
            row: 0,
            max_cols: 0,
            max_rows: 0,
            fg_color: Color { r: 224, g: 222, b: 244 },
            text_x: 0,
            text_y: 0,
            text_w: 0,
            text_h: 0,
            initialized: false,
            locked: false,
        }
    }

    /// Lays the text area out inside the terminal card of a `width` x `height` screen and
    /// puts the cursor at the top left.
    pub fn init(&mut self, width: usize, height: usize, pitch: usize, bpp: usize)
        requires
            width >= 2 * (PADDING + 16),
            height >= TOP_BAR_HEIGHT + 2 * PADDING + CARD_HEADER + 24,
            width - 2 * (PADDING + 16) >= FONT_WIDTH,
            height - (TOP_BAR_HEIGHT + 2 * PADDING + CARD_HEADER + 24) >= FONT_HEIGHT + LINE_SPACING,
            width <= 0x1_0000_0000,
            height <= 0x1_0000_0000,
        ensures
            final(self).wf(),
            final(self).initialized && !final(self).locked,
            final(self).width == width && final(self).height == height,
            final(self).pitch == pitch && final(self).bpp == bpp,
            final(self).text_x == PADDING + 16,
            final(self).text_y == TOP_BAR_HEIGHT + PADDING + CARD_HEADER + 8,
            final(self).text_w == width - 2 * (PADDING + 16),
            final(self).text_h == height - TOP_BAR_HEIGHT - 2 * PADDING - CARD_HEADER - 24,
            final(self).max_cols == final(self).text_w / FONT_WIDTH,
            final(self).max_rows == final(self).text_h / 20,
            final(self).col == 0 && final(self).row == 0,
            final(self).fg_color == text_color(),
    {
        self.width = width;
        self.height = height;
        self.pitch = pitch;
        self.bpp = bpp;
        self.text_x = PADDING + 16;
        self.text_y = TOP_BAR_HEIGHT + PADDING + CARD_HEADER + 8;
        self.text_w = width - 2 * (PADDING + 16);
        self.text_h = height - TOP_BAR_HEIGHT - 2 * PADDING - CARD_HEADER - 24;
        self.max_cols = self.text_w / FONT_WIDTH;
        self.max_rows = self.text_h / (FONT_HEIGHT + LINE_SPACING);
        self.col = 0;
        self.row = 0;
        self.fg_color = Color { r: 224, g: 222, b: 244 };
        self.initialized = true;
        self.locked = false;
    }

    /// The terminal card to draw on a full redraw: `(x, y, w, h)`.
    pub fn redraw_full(&self) -> (res: (usize, usize, usize, usize))
        requires
            self.width >= 2 * PADDING,
            self.height >= TOP_BAR_HEIGHT + 2 * PADDING,
        ensures
            res == (PADDING, (TOP_BAR_HEIGHT + PADDING) as usize, (self.width - 2 * PADDING) as usize,
                (self.height - TOP_BAR_HEIGHT - 2 * PADDING) as usize),
    {
        (PADDING, TOP_BAR_HEIGHT + PADDING, self.width - 2 * PADDING, self.height - TOP_BAR_HEIGHT - 2 * PADDING)
    }

    /// Puts the cursor at the top left; returns the text area `(x, y, w, h)` to clear.
    pub fn clear(&mut self) -> (res: Option<(usize, usize, usize, usize)>)
        requires
            old(self).wf(),
        ensures
            final(self).wf(),
            !old(self).initialized ==> res is None && *final(self) == *old(self),
            old(self).initialized ==> res == Some((old(self).text_x, old(self).text_y, old(self).text_w, old(self).text_h))
                && final(self).col == 0 && final(self).row == 0
                && final(self).fg_color == old(self).fg_color && final(self).max_cols == old(self).max_cols
                && final(self).max_rows == old(self).max_rows && final(self).locked == old(self).locked,
    {
        if !self.initialized {
            return None;
        }
        self.col = 0;
        self.row = 0;
        Some((self.text_x, self.text_y, self.text_w, self.text_h))
    }

    pub fn set_fg_color(&mut self, color: Color)
        ensures
            final(self).fg_color == color,
            final(self).col == old(self).col && final(self).row == old(self).row,
            final(self).initialized == old(self).initialized && final(self).locked == old(self).locked,
            final(self).max_cols == old(self).max_cols && final(self).max_rows == old(self).max_rows,
            final(self).text_x == old(self).text_x && final(self).text_y == old(self).text_y,
            final(self).text_w == old(self).text_w && final(self).text_h == old(self).text_h,
    {
        self.fg_color = color;
    }
}

/// The console after writing one character, and what to draw: newline, carriage return,
/// tab to the next multiple of four, backspace (to the end of the previous line at the
/// start of a line), or a glyph at the cursor; then wrapping past the last column and
/// scrolling past the last row. Nothing happens before set-up or while locked.
pub open spec fn spec_put_char(st: Console, c: char) -> (Console, Seq<ConsoleOp>) {
    if !st.initialized || st.locked {
        (st, Seq::empty())
    } else {
        let (col, row, ops): (int, int, Seq<ConsoleOp>) = if c == '\n' {
            (0, st.row + 1, Seq::empty())
        } else if c == '\r' {
            (0, st.row as int, Seq::empty())
        } else if c == '\t' {
            let target = st.col + (4 - st.col % 4);
            (if target < st.max_cols { target } else { st.max_cols as int }, st.row as int, Seq::empty())
        } else if c == '\u{08}' {
            if st.col > 0 {
                (st.col - 1, st.row as int, Seq::empty())
            } else if st.row > 0 {
                (st.max_cols - 1, st.row - 1, Seq::empty())
            } else {
                (st.col as int, st.row as int, Seq::empty())
            }
        } else {
            let x = st.text_x + st.col * FONT_WIDTH;
            let y = st.text_y + st.row * (FONT_HEIGHT + LINE_SPACING);
            let draw = x + FONT_WIDTH <= st.text_x + st.text_w && y + FONT_HEIGHT <= st.text_y + st.text_h;
            (st.col + 1, st.row as int, if draw {
                seq![ConsoleOp::Glyph { x: x as usize, y: y as usize, c, color: st.fg_color }]
            } else {
                Seq::empty()
            })
        };
        let (col2, row2) = if col >= st.max_cols { (0int, row + 1) } else { (col, row) };
        if row2 >= st.max_rows {
            (Console { col: col2 as usize, row: (st.max_rows - 1) as usize, ..st }, ops.push(ConsoleOp::Scroll))
        } else {
            (Console { col: col2 as usize, row: row2 as usize, ..st }, ops)
        }
    }
}

/// The console after writing a run of characters, and everything to draw, in order.
pub open spec fn spec_write(st: Console, cs: Seq<char>) -> (Console, Seq<ConsoleOp>)
    decreases cs.len(),
{
    if cs.len() == 0 {
        (st, Seq::empty())
    } else {
        let (s1, o1) = spec_write(st, cs.drop_last());
        let (s2, o2) = spec_put_char(s1, cs.last());
        (s2, o1 + o2)
    }
}

proof fn lemma_put_char_wf(st: Console, c: char)
    requires
        st.wf(),
    ensures
        spec_put_char(st, c).0.wf(),
        spec_put_char(st, c).0.fg_color == st.fg_color,
{
}

proof fn lemma_write_wf(st: Console, cs: Seq<char>)
    requires
        st.wf(),
    ensures
        spec_write(st, cs).0.wf(),
    decreases cs.len(),
{
    if cs.len() > 0 {
        lemma_write_wf(st, cs.drop_last());
        lemma_put_char_wf(spec_write(st, cs.drop_last()).0, cs.last());
    }
}

impl Console {
    /// Writes one character; returns what to draw.
    pub fn put_char(&mut self, c: char) -> (res: Vec<ConsoleOp>)
        requires
            old(self).wf(),
        ensures
            final(self).wf(),
            (*final(self), res@) == spec_put_char(*old(self), c),
    {
        let mut ops: Vec<ConsoleOp> = Vec::new();
        if !self.initialized || self.locked {
            return ops;
        }
        proof {
            assert(self.col * FONT_WIDTH + FONT_WIDTH <= self.text_w) by (nonlinear_arith)
                requires self.col < self.max_cols, self.max_cols * FONT_WIDTH <= self.text_w;
            assert(self.row * (FONT_HEIGHT + LINE_SPACING) + FONT_HEIGHT <= self.text_h) by (nonlinear_arith)
                requires self.row < self.max_rows, self.max_rows * (FONT_HEIGHT + LINE_SPACING) <= self.text_h;
        }
        if c == '\n' {
            self.col = 0;
            self.row = self.row + 1;
        } else if c == '\r' {
            self.col = 0;
        } else if c == '\t' {
            let target = self.col + (4 - self.col % 4);
            self.col = if target < self.max_cols { target } else { self.max_cols };
        } else if c == '\u{08}' {
            if self.col > 0 {
                self.col = self.col - 1;
            } else if self.row > 0 {
                self.row = self.row - 1;
                self.col = self.max_cols - 1;
            }
        } else {
            let x = self.text_x + self.col * FONT_WIDTH;
            let y = self.text_y + self.row * (FONT_HEIGHT + LINE_SPACING);
            if x + FONT_WIDTH <= self.text_x + self.text_w && y + FONT_HEIGHT <= self.text_y + self.text_h {
                ops.push(ConsoleOp::Glyph { x, y, c, color: self.fg_color });
            }
            self.col = self.col + 1;
        }
        if self.col >= self.max_cols {
            self.col = 0;
            self.row = self.row + 1;
        }
        if self.row >= self.max_rows {
            ops.push(ConsoleOp::Scroll);
            self.row = self.max_rows - 1;
        }
        ops
    }

    /// Writes a text; returns what to draw, in order.
    pub fn write_str(&mut self, s: &str) -> (res: Vec<ConsoleOp>)
        requires
            old(self).wf(),
        ensures
            final(self).wf(),
            (*final(self), res@) == spec_write(*old(self), s@),
    {
        let cs = chars_of(s);
        let mut ops: Vec<ConsoleOp> = Vec::new();
        let ghost st0 = *self;
        let mut i: usize = 0;
        while i < cs.len()
            invariant
                i <= cs@.len(),
                cs@ == s@,
                self.wf(),
                (*self, ops@) == spec_write(st0, cs@.subrange(0, i as int)),
            decreases cs@.len() - i,
        {
            let more = self.put_char(cs[i]);
            let mut k: usize = 0;
            let ghost before = ops@;
            while k < more.len()
                invariant
                    k <= more@.len(),
                    ops@ == before + more@.subrange(0, k as int),
                decreases more@.len() - k,
            {
                ops.push(more[k]);
                k = k + 1;
                assert(ops@ =~= before + more@.subrange(0, k as int));
            }
            proof {
                assert(more@.subrange(0, more@.len() as int) =~= more@);
                assert(cs@.subrange(0, i + 1).drop_last() =~= cs@.subrange(0, i as int));
            }
            i = i + 1;
        }
        assert(cs@.subrange(0, cs@.len() as int) =~= s@);
        ops
    }
}

/// The status-bar text.
pub open spec fn spec_status_text(used_mb: u64, total_mb: u64, cpu_count: usize, hour: u8, minute: u8, second: u8,
    disk_used: u64, disk_total: u64, bat_percent: u8, bat_charging: bool) -> Seq<char> {
    "BAT: "@ + dec(bat_percent as nat) + (if bat_charging { "+"@ } else { ""@ }) + "% | RAM: "@ + dec(used_mb as nat)
        + "/"@ + dec(total_mb as nat) + " MB | DISK: "@ + dec(disk_used as nat) + "/"@ + dec(disk_total as nat)
        + " MB | CPUs: "@ + dec(cpu_count as nat) + " | "@ + dec_pad(hour as nat, 2) + ":"@ + dec_pad(minute as nat, 2)
        + ":"@ + dec_pad(second as nat, 2)
}

/// The status bar to draw: its text and the top-left corner of the text.
pub struct StatusBar {
    pub text: String,
    pub x: usize,
    pub y: usize,
}

impl Console {
    /// The status-bar text, right-aligned in the terminal card's title area; nothing before
    /// set-up or when the screen is too narrow for it.
    pub fn update_status_bar(&self, used_mb: u64, total_mb: u64, cpu_count: usize, hour: u8, minute: u8, second: u8,
        disk_used: u64, disk_total: u64, bat_percent: u8, bat_charging: bool) -> (res: Option<StatusBar>)
        ensures
            !self.initialized ==> res is None,
            self.initialized ==> ({
                let t = spec_status_text(used_mb, total_mb, cpu_count, hour, minute, second, disk_used, disk_total, bat_percent, bat_charging);
                if self.width >= PADDING + 16 + t.len() * FONT_WIDTH {
                    res matches Some(b) && b.text@ == t && b.x == self.width - PADDING - 16 - t.len() * FONT_WIDTH
                        && b.y == TOP_BAR_HEIGHT + PADDING + 14
                } else {
                    res is None
                }
            }),
    {
        if !self.initialized {
            return None;
        }
        let mut s = String::new();
        push_str(&mut s, "BAT: ");
        push_dec(&mut s, bat_percent as u64);
        push_str(&mut s, if bat_charging { "+" } else { "" });
        push_str(&mut s, "% | RAM: ");
        push_dec(&mut s, used_mb);
        push_str(&mut s, "/");
        push_dec(&mut s, total_mb);
        push_str(&mut s, " MB | DISK: ");
        push_dec(&mut s, disk_used);
        push_str(&mut s, "/");
        push_dec(&mut s, disk_total);
        push_str(&mut s, " MB | CPUs: ");
        push_dec(&mut s, cpu_count as u64);
        push_str(&mut s, " | ");
        push_dec_pad(&mut s, hour as u64, 2);
        push_str(&mut s, ":");
        push_dec_pad(&mut s, minute as u64, 2);
        push_str(&mut s, ":");
        push_dec_pad(&mut s, second as u64, 2);
        assert(s@ =~= spec_status_text(used_mb, total_mb, cpu_count, hour, minute, second, disk_used, disk_total, bat_percent, bat_charging));
        let len = crate::text::chars_of(s.as_str()).len();
        if len > (usize::MAX - PADDING - 16) / FONT_WIDTH || self.width < PADDING + 16 + len * FONT_WIDTH {
            return None;
        }
        let x = self.width - PADDING - 16 - len * FONT_WIDTH;
        Some(StatusBar { text: s, x, y: TOP_BAR_HEIGHT + PADDING + 14 })
    }
}

/// The status bar of the console (see `Console::update_status_bar`).
pub fn update_status_bar(con: &Console, used_mb: u64, total_mb: u64, cpu_count: usize, hour: u8, minute: u8, second: u8,
    disk_used: u64, disk_total: u64, bat_percent: u8, bat_charging: bool) -> (res: Option<StatusBar>)
    ensures
        !con.initialized ==> res is None,
        con.initialized ==> ({
            let t = spec_status_text(used_mb, total_mb, cpu_count, hour, minute, second, disk_used, disk_total, bat_percent, bat_charging);
            if con.width >= PADDING + 16 + t.len() * FONT_WIDTH {
                res matches Some(b) && b.text@ == t && b.x == con.width - PADDING - 16 - t.len() * FONT_WIDTH
                    && b.y == TOP_BAR_HEIGHT + PADDING + 14
            } else {
                res is None
            }
        }),
{
    con.update_status_bar(used_mb, total_mb, cpu_count, hour, minute, second, disk_used, disk_total, bat_percent, bat_charging)
}

/// Sets the console up for a framebuffer of the given geometry.
pub fn init(con: &mut Console, width: usize, height: usize, pitch: usize, bpp: usize)
    requires
        width >= 2 * (PADDING + 16),
        height >= TOP_BAR_HEIGHT + 2 * PADDING + CARD_HEADER + 24,
        width - 2 * (PADDING + 16) >= FONT_WIDTH,
        height - (TOP_BAR_HEIGHT + 2 * PADDING + CARD_HEADER + 24) >= FONT_HEIGHT + LINE_SPACING,
        width <= 0x1_0000_0000,
        height <= 0x1_0000_0000,
    ensures
        final(con).wf(),
        final(con).initialized && final(con).col == 0 && final(con).row == 0,
        final(con).width == width && final(con).height == height,
        final(con).pitch == pitch && final(con).bpp == bpp,
{
    con.init(width, height, pitch, bpp);
}

/// Clears the text area (see `Console::clear`).
pub fn clear(con: &mut Console) -> (res: Option<(usize, usize, usize, usize)>)
    requires
        old(con).wf(),
    ensures
        final(con).wf(),
        !old(con).initialized ==> res is None,
        old(con).initialized ==> res == Some((old(con).text_x, old(con).text_y, old(con).text_w, old(con).text_h))
            && final(con).col == 0 && final(con).row == 0,
{
    con.clear()
}

/// Sets the colour of the text written from now on.
pub fn set_color(con: &mut Console, color: Color)
    ensures
        final(con).fg_color == color,
        final(con).col == old(con).col && final(con).row == old(con).row,
{
    con.set_fg_color(color);
}

/// The framebuffer geometry: width, height, pitch and bytes per pixel.
pub fn get_info(con: &Console) -> (res: (usize, usize, usize, usize))
    ensures
        res == (con.width, con.height, con.pitch, con.bpp),
{
    (con.width, con.height, con.pitch, con.bpp)
}

/// Stops the console from drawing (a program owns the screen).
pub fn lock(con: &mut Console)
    requires
        old(con).wf(),
    ensures
        final(con).wf(),
        final(con).locked,
        final(con).col == old(con).col && final(con).row == old(con).row && final(con).initialized == old(con).initialized,
{
    con.locked = true;
}

/// Lets the console draw again.
pub fn unlock(con: &mut Console)
    requires
        old(con).wf(),
    ensures
        final(con).wf(),
        !final(con).locked,
        final(con).col == old(con).col && final(con).row == old(con).row && final(con).initialized == old(con).initialized,
{
    con.locked = false;
}

/// The terminal card of a full redraw.
pub fn redraw_full(con: &Console) -> (res: (usize, usize, usize, usize))
    requires
        con.width >= 2 * PADDING,
        con.height >= TOP_BAR_HEIGHT + 2 * PADDING,
    ensures
        res == (PADDING, (TOP_BAR_HEIGHT + PADDING) as usize, (con.width - 2 * PADDING) as usize,
            (con.height - TOP_BAR_HEIGHT - 2 * PADDING) as usize),
{
    con.redraw_full()
}

/// Writes a text to the console; returns what to draw.
pub fn write_str_direct(con: &mut Console, s: &str) -> (res: Vec<ConsoleOp>)
    requires
        old(con).wf(),
    ensures
        final(con).wf(),
        (*final(con), res@) == spec_write(*old(con), s@),
{
    con.write_str(s)
}

/// Writing never moves the cursor out of the text grid.
pub proof fn law_cursor_in_grid(st: Console, cs: Seq<char>)
    requires
        st.wf(),
        st.initialized,
    ensures
        spec_write(st, cs).0.col < st.max_cols,
        spec_write(st, cs).0.row < st.max_rows,
    decreases cs.len(),
{
    lemma_write_wf(st, cs);
    lemma_write_keeps(st, cs);
}

proof fn lemma_write_keeps(st: Console, cs: Seq<char>)
    ensures
        spec_write(st, cs).0.max_cols == st.max_cols,
        spec_write(st, cs).0.max_rows == st.max_rows,
        spec_write(st, cs).0.initialized == st.initialized,
        spec_write(st, cs).0.text_x == st.text_x && spec_write(st, cs).0.text_y == st.text_y,
        spec_write(st, cs).0.text_w == st.text_w && spec_write(st, cs).0.text_h == st.text_h,
    decreases cs.len(),
{
    if cs.len() > 0 {
        lemma_write_keeps(st, cs.drop_last());
    }
}

/// A glyph drawn by `op` lies wholly inside the text area of `st`.
pub open spec fn glyph_inside(st: Console, op: ConsoleOp) -> bool {
    op matches ConsoleOp::Glyph { x, y, .. } ==> st.text_x <= x && x + FONT_WIDTH <= st.text_x + st.text_w
        && st.text_y <= y && y + FONT_HEIGHT <= st.text_y + st.text_h
}

proof fn lemma_put_char_inside(st: Console, c: char)
    requires
        st.wf(),
    ensures
        forall|i: int| 0 <= i < spec_put_char(st, c).1.len() ==> glyph_inside(st, #[trigger] spec_put_char(st, c).1[i]),
{
    let ops = spec_put_char(st, c).1;
    assert forall|i: int| 0 <= i < ops.len() implies glyph_inside(st, #[trigger] ops[i]) by {
        if st.initialized && !st.locked && c != '\n' && c != '\r' && c != '\t' && c != '\u{08}' {
            let x = st.text_x + st.col * FONT_WIDTH;
            let y = st.text_y + st.row * (FONT_HEIGHT + LINE_SPACING);
            assert(x >= st.text_x && y >= st.text_y) by (nonlinear_arith)
                requires x == st.text_x + st.col * FONT_WIDTH, y == st.text_y + st.row * (FONT_HEIGHT + LINE_SPACING);
        }
    }
}

/// Every glyph that writing draws lies inside the text area.
pub proof fn law_glyphs_in_text_area(st: Console, cs: Seq<char>)
    requires
        st.wf(),
    ensures
        forall|i: int| 0 <= i < spec_write(st, cs).1.len() ==> glyph_inside(st, #[trigger] spec_write(st, cs).1[i]),
    decreases cs.len(),
{
    if cs.len() > 0 {
        law_glyphs_in_text_area(st, cs.drop_last());
        lemma_write_keeps(st, cs.drop_last());
        lemma_write_wf(st, cs.drop_last());
        let (s1, o1) = spec_write(st, cs.drop_last());
        let o2 = spec_put_char(s1, cs.last()).1;
        lemma_put_char_inside(s1, cs.last());
        assert forall|i: int| 0 <= i < (o1 + o2).len() implies glyph_inside(st, #[trigger] (o1 + o2)[i]) by {
            if i >= o1.len() {
                assert(glyph_inside(s1, o2[i - o1.len()]));
            }
        }
    }
}

/// Scrolling leaves every pixel outside the text area as it was.
pub proof fn law_scroll_stays_in_text_area(con: Console, fb: UiRenderer, px: int, py: int)
    requires
        con.wf(),
        con.initialized,
        !(con.text_x <= px < con.text_x + con.text_w && con.text_y <= py < con.text_y + con.text_h),
    ensures
        scrolled_pixel(con, fb, px, py) == fb.pixel(px, py),
{
    assert((con.max_rows - 1) * 20 + 20 == con.max_rows * 20) by (nonlinear_arith);
}

/// A newline always returns the cursor to the first column.
pub proof fn law_newline_to_first_column(st: Console)
    requires
        st.wf(),
        st.initialized,
        !st.locked,
    ensures
        spec_put_char(st, '\n').0.col == 0,
        spec_put_char(st, '\n').0.row == (if st.row + 1 < st.max_rows { st.row + 1 } else { st.max_rows - 1 }),
{
}


/// A piece of text printed in a colour.
pub struct Styled {
    pub color: Color,
    pub text: String,
}

/// The colours and characters of a run of styled text.
pub open spec fn styled_view(v: Seq<Styled>) -> Seq<(Color, Seq<char>)> {
    Seq::new(v.len(), |i: int| (v[i].color, v[i].text@))
}

/// Appends a piece of text in the given colour.
pub fn emit(out: &mut Vec<Styled>, color: Color, text: String)
    ensures
        styled_view(final(out)@) == styled_view(old(out)@).push((color, text@)),
{
    let ghost t = text@;
    out.push(Styled { color, text });
    assert(styled_view(out@) =~= styled_view(old(out)@).push((color, t)));
}

/// Appends a fixed piece of text in the given colour.
pub fn emit_str(out: &mut Vec<Styled>, color: Color, text: &str)
    ensures
        styled_view(final(out)@) == styled_view(old(out)@).push((color, text@)),
{
    emit(out, color, string_of(text));
}

/// The colour of pixel (px, py) of `fb` after the console's text area scrolled by one
/// line: inside the text columns, each text row takes the colour of the row one line
/// below it, the last line of the grid takes the surface colour; the rest is unchanged.
pub open spec fn scrolled_pixel(con: Console, fb: UiRenderer, px: int, py: int) -> Color {
    let lh = (FONT_HEIGHT + LINE_SPACING) as int;
    let last = con.text_y + (con.max_rows - 1) * lh;
    if con.text_x <= px < con.text_x + con.text_w && con.text_y <= py < last {
        fb.pixel(px, py + lh)
    } else if con.text_x <= px < con.text_x + con.text_w && last <= py < last + lh {
        spec_color(SURFACE)
    } else {
        fb.pixel(px, py)
    }
}

impl Console {
    /// Moves the text lines up by one on the framebuffer image and clears the last one
    /// (what a `ConsoleOp::Scroll` asks for). Nothing happens before set-up.
    pub fn scroll(&self, fb: &mut UiRenderer)
        requires
            self.wf(),
            old(fb).wf(),
            self.initialized ==> self.text_x + self.text_w <= old(fb).width
                && self.text_y + self.max_rows * (FONT_HEIGHT + LINE_SPACING) <= old(fb).height,
        ensures
            final(fb).wf(),
            final(fb).width == old(fb).width && final(fb).height == old(fb).height,
            !self.initialized ==> *final(fb) == *old(fb),
            self.initialized ==> forall|px: int, py: int| 0 <= px < old(fb).width && 0 <= py < old(fb).height ==>
                #[trigger] final(fb).pixel(px, py) == scrolled_pixel(*self, *old(fb), px, py),
    {
        if !self.initialized {
            return;
        }
        let ghost orig = *fb;
        let lh: usize = FONT_HEIGHT + LINE_SPACING;
        let last_y = self.text_y + (self.max_rows - 1) * lh;
        let x0 = self.text_x;
        let x1 = self.text_x + self.text_w;
        let mut y = self.text_y;
        while y < last_y
            invariant
                fb.wf(),
                fb.width == orig.width && fb.height == orig.height,
                fb.pitch == orig.pitch && fb.bpp == orig.bpp,
                lh == 20,
                x0 <= x1 <= orig.width,
                last_y + lh <= orig.height,
                self.text_y <= y <= last_y,
                forall|px: int, py: int| 0 <= px < orig.width && 0 <= py < orig.height ==>
                    #[trigger] fb.pixel(px, py) == (if x0 <= px < x1 && self.text_y <= py < y {
                        orig.pixel(px, py + lh)
                    } else {
                        orig.pixel(px, py)
                    }),
            decreases last_y - y,
        {
            let mut x = x0;
            while x < x1
                invariant
                    fb.wf(),
                    fb.width == orig.width && fb.height == orig.height,
                    fb.pitch == orig.pitch && fb.bpp == orig.bpp,
                    lh == 20,
                    x1 <= orig.width,
                    last_y + lh <= orig.height,
                    self.text_y <= y < last_y,
                    x0 <= x <= x1,
                    forall|px: int, py: int| 0 <= px < orig.width && 0 <= py < orig.height ==>
                        #[trigger] fb.pixel(px, py) == (if x0 <= px < x1 && (self.text_y <= py < y
                            || (py == y && px < x)) {
                            orig.pixel(px, py + lh)
                        } else {
                            orig.pixel(px, py)
                        }),
                decreases x1 - x,
            {
                let c = fb.get_pixel(x, y + lh);
                fb.put_pixel(x, y, c);
                x = x + 1;
            }
            y = y + 1;
        }
        fb.fill_rect(x0, last_y, self.text_w, lh, color_of(SURFACE));
    }
}

} // verus!
