//! A minimal HTML viewer: tags select colours and line breaks, and every other character
//! is laid out in fixed 8-pixel cells, wrapping before the right margin.
use vstd::prelude::*;
use crate::console::Color;
use crate::text::{chars_of, push_char, push_str, spec_lowercase, str_eq, string_of, to_lowercase};
use crate::ui::{color_of, spec_color, GOLD, IRIS, SUBTLE, TEXT};

verus! {

/// Height of a text line.
pub const LINE_HEIGHT: usize = 20;
/// Left margin of the page.
pub const LEFT: usize = 20;
/// Top of the page, under the title bar.
pub const TOP: usize = 50;

/// What the page asks to be drawn.
#[derive(Debug, Clone, Copy, PartialEq, Eq, Structural)]
pub enum HtmlOp {
    /// A character with its top-left corner at (x, y).
    Glyph { x: usize, y: usize, c: char, color: Color },
    /// A filled rectangle (the rule of `<hr>`).
    Rule { x: usize, y: usize, w: usize, h: usize, color: Color },
}

/// Where the layout stands after a prefix of the page.
pub struct HtmlState {
    pub x: usize,
    pub y: usize,
    pub in_tag: bool,
    pub tag: Seq<char>,
    pub color: Color,
}

pub open spec fn html_start() -> HtmlState {
    HtmlState { x: LEFT, y: TOP, in_tag: false, tag: Seq::empty(), color: spec_color(TEXT) }
}

/// What a tag does when it closes, given the layout before it.
pub open spec fn tag_effect(st: HtmlState, tag: Seq<char>, width: usize) -> (HtmlState, Seq<HtmlOp>) {
    let t = spec_lowercase(tag);
    let st = HtmlState { in_tag: false, ..st };
    if t == "h1"@ {
        (HtmlState { color: spec_color(IRIS), y: (st.y + 10) as usize, ..st }, Seq::empty())
    } else if t == "/h1"@ {
        (HtmlState { color: spec_color(TEXT), y: (st.y + LINE_HEIGHT + 10) as usize, x: LEFT, ..st }, Seq::empty())
    } else if t == "p"@ || t == "br"@ {
        (HtmlState { y: (st.y + LINE_HEIGHT) as usize, x: LEFT, ..st }, Seq::empty())
    } else if t == "b"@ || t == "strong"@ {
        (HtmlState { color: spec_color(GOLD), ..st }, Seq::empty())
    } else if t == "/b"@ || t == "/strong"@ {
        (HtmlState { color: spec_color(TEXT), ..st }, Seq::empty())
    } else if t == "hr"@ {
        let y1 = (st.y + LINE_HEIGHT / 2) as usize;
        (HtmlState { y: (y1 + LINE_HEIGHT) as usize, x: LEFT, ..st },
            seq![HtmlOp::Rule { x: 20, y: y1, w: (width - 40) as usize, h: 2, color: spec_color(SUBTLE) }])
    } else {
        (st, Seq::empty())
    }
}

/// One character of the page: `<` opens a tag (forgetting the previous one), `>` closes
/// it and applies it, characters inside a tag are collected, a line feed starts a new
/// line, and anything else is drawn and advances the pen, wrapping past `width - 40`.
pub open spec fn html_step(st: HtmlState, c: char, width: usize) -> (HtmlState, Seq<HtmlOp>) {
    if c == '<' {
        (HtmlState { in_tag: true, tag: Seq::empty(), ..st }, Seq::empty())
    } else if c == '>' {
        tag_effect(st, st.tag, width)
    } else if st.in_tag {
        (HtmlState { tag: st.tag.push(c), ..st }, Seq::empty())
    } else if c == '\n' {
        (HtmlState { y: (st.y + LINE_HEIGHT) as usize, x: LEFT, ..st }, Seq::empty())
    } else {
        let op = HtmlOp::Glyph { x: st.x, y: st.y, c, color: st.color };
        let x1 = st.x + 8;
        if x1 > width - 40 {
            (HtmlState { x: LEFT, y: (st.y + LINE_HEIGHT) as usize, ..st }, seq![op])
        } else {
            (HtmlState { x: x1 as usize, ..st }, seq![op])
        }
    }
}

/// The layout after the first `n` characters, and everything drawn so far.
pub open spec fn html_run(cs: Seq<char>, n: nat, width: usize) -> (HtmlState, Seq<HtmlOp>)
    decreases n,
{
    if n == 0 || n > cs.len() {
        (html_start(), Seq::empty())
    } else {
        let prev = html_run(cs, (n - 1) as nat, width);
        let next = html_step(prev.0, cs[n - 1], width);
        (next.0, prev.1 + next.1)
    }
}

/// The bounds that keep the layout's arithmetic in range after `n` characters.
pub open spec fn layout_bounds(st: HtmlState, n: nat, width: usize) -> bool {
    &&& LEFT <= st.x
    &&& st.x <= LEFT || st.x <= width - 40
    &&& st.y <= TOP + 30 * n
}

proof fn lemma_run_bounds(cs: Seq<char>, n: nat, width: usize)
    requires
        n <= cs.len(),
        width >= 40,
    ensures
        layout_bounds(html_run(cs, n, width).0, n, width),
    decreases n,
{
    if n > 0 {
        lemma_run_bounds(cs, (n - 1) as nat, width);
    }
}

/// The title shown in the browser's bar.
pub fn browser_title(path: &str) -> (res: String)
    ensures
        res@ == "Mesa Browser - "@ + path@,
{
    let mut s = string_of("Mesa Browser - ");
    push_str(&mut s, path);
    s
}

/// Lays out a page on a screen `width` pixels wide, from (20, 50): what is drawn, in
/// order.
pub fn render_html(content: &str, width: usize) -> (res: Vec<HtmlOp>)
    requires
        width >= 40,
        TOP + 30 * content@.len() + 30 <= usize::MAX,
    ensures
        res@ == html_run(content@, content@.len(), width).1,
{
    let chars = chars_of(content);
    let mut ops: Vec<HtmlOp> = Vec::new();
    let mut x: usize = LEFT;
    let mut y: usize = TOP;
    let mut in_tag = false;
    let mut current_tag = String::new();
    let mut text_color = color_of(TEXT);
    let mut i: usize = 0;
    while i < chars.len()
        invariant
            chars@ == content@,
            width >= 40,
            TOP + 30 * content@.len() + 30 <= usize::MAX,
            i <= chars@.len(),
            ({
                let r = html_run(content@, i as nat, width);
                &&& r.0.x == x && r.0.y == y && r.0.in_tag == in_tag && r.0.tag == current_tag@ && r.0.color == text_color
                &&& r.1 == ops@
            }),
            layout_bounds(html_run(content@, i as nat, width).0, i as nat, width),
        decreases chars@.len() - i,
    {
        proof { lemma_run_bounds(content@, (i + 1) as nat, width); }
        let c = chars[i];
        let ghost before = ops@;
        if c == '<' {
            in_tag = true;
            current_tag = String::new();
        } else if c == '>' {
            in_tag = false;
            let tag = to_lowercase(current_tag.as_str());
            let t = tag.as_str();
            if str_eq(t, "h1") {
                text_color = color_of(IRIS);
                y = y + 10;
            } else if str_eq(t, "/h1") {
                text_color = color_of(TEXT);
                y = y + LINE_HEIGHT + 10;
                x = LEFT;
            } else if str_eq(t, "p") || str_eq(t, "br") {
                y = y + LINE_HEIGHT;
                x = LEFT;
            } else if str_eq(t, "b") || str_eq(t, "strong") {
                text_color = color_of(GOLD);
            } else if str_eq(t, "/b") || str_eq(t, "/strong") {
                text_color = color_of(TEXT);
            } else if str_eq(t, "hr") {
                y = y + LINE_HEIGHT / 2;
                ops.push(HtmlOp::Rule { x: 20, y, w: width - 40, h: 2, color: color_of(SUBTLE) });
                y = y + LINE_HEIGHT;
                x = LEFT;
            }
        } else if in_tag {
            push_char(&mut current_tag, c);
        } else if c == '\n' {
            y = y + LINE_HEIGHT;
            x = LEFT;
        } else {
            ops.push(glyph(x, y, c, text_color));
            x = x + 8;
            if x > width - 40 {
                x = LEFT;
                y = y + LINE_HEIGHT;
            }
        }
        proof {
            let prev = html_run(content@, i as nat, width);
            let step = html_step(prev.0, content@[i as int], width);
            assert(html_run(content@, (i + 1) as nat, width) == (step.0, prev.1 + step.1));
            assert(ops@ =~= before + step.1);
        }
        i = i + 1;
    }
    ops
}

fn glyph(x: usize, y: usize, c: char, color: Color) -> (res: HtmlOp)
    ensures
        res == (HtmlOp::Glyph { x, y, c, color }),
{
    HtmlOp::Glyph { x, y, c, color }
}


/// Text stays within the page's margins: every character is drawn at or right of the left
/// margin and, unless it starts a line, no further right than 40 pixels before the edge.
pub proof fn law_glyphs_within_margins(cs: Seq<char>, width: usize)
    requires
        width >= 40,
    ensures
        forall|k: int| 0 <= k < html_run(cs, cs.len(), width).1.len() ==> (#[trigger] html_run(cs, cs.len(), width).1[k] matches
            HtmlOp::Glyph { x, .. } ==> LEFT <= x && (x == LEFT || x <= width - 40)),
{
    lemma_glyph_margins(cs, cs.len(), width);
}

proof fn lemma_singleton<T>(a: T)
    ensures
        seq![a].len() == 1,
        seq![a][0] == a,
{
}

proof fn lemma_glyph_margins(cs: Seq<char>, n: nat, width: usize)
    requires
        width >= 40,
        n <= cs.len(),
    ensures
        forall|k: int| 0 <= k < html_run(cs, n, width).1.len() ==> (#[trigger] html_run(cs, n, width).1[k] matches
            HtmlOp::Glyph { x, .. } ==> LEFT <= x && (x == LEFT || x <= width - 40)),
    decreases n,
{
    if n > 0 {
        lemma_glyph_margins(cs, (n - 1) as nat, width);
        lemma_run_bounds(cs, (n - 1) as nat, width);
        let prev = html_run(cs, (n - 1) as nat, width);
        let step = html_step(prev.0, cs[n - 1], width);
        let all = html_run(cs, n, width).1;
        assert(all == prev.1 + step.1);
        assert forall|k: int| 0 <= k < all.len() implies (#[trigger] all[k] matches HtmlOp::Glyph { x, .. } ==> LEFT <= x
            && (x == LEFT || x <= width - 40)) by {
            if k < prev.1.len() {
                assert(all[k] == prev.1[k]);
            } else {
                assert(all[k] == step.1[k - prev.1.len()]);
                let c = cs[n - 1];
                if c != '<' && c != '>' && !prev.0.in_tag && c != '\n' {
                    let op = HtmlOp::Glyph { x: prev.0.x, y: prev.0.y, c, color: prev.0.color };
                    assert(step.1 == seq![op]);
                    lemma_singleton(op);
                } else if c == '>' {
                    let t = spec_lowercase(prev.0.tag);
                    if t == "hr"@ {
                        assert(step.1[k - prev.1.len()] is Rule);
                    } else {
                        assert(step.1.len() == 0);
                    }
                } else {
                    assert(step.1.len() == 0);
                }
            }
        }
    }
}

} // verus!
