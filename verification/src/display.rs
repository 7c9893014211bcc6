//! Display model: colors, fonts with fixed-width metrics, and drawing.
//!
//! A paint pass does not touch a device. Every drawing routine appends a
//! `DrawCall` to a frame (a `Vec<DrawCall>`), and the call it appends is
//! stated exactly over the frame's view, so "what ends up on the screen" is a
//! value contracts can speak about. Glyph metrics use a fixed-width model:
//! every glyph of a font has the same advance, bold glyphs being one pixel
//! wider than regular ones.

use vstd::prelude::*;

use crate::geometry::{Offset, Point, Rect};

verus! {

/// Width of the screen in pixels.
pub const SCREEN_WIDTH: i32 = 240;

/// Height of the screen in pixels.
pub const SCREEN_HEIGHT: i32 = 240;

/// Height of a glyph box in pixels.
pub const TEXT_HEIGHT: i32 = 16;

/// Vertical advance of a full line break in pixels.
pub const LINE_HEIGHT: i32 = 26;

/// Glyph advance of the bold font in pixels.
pub const BOLD_GLYPH_WIDTH: i32 = 8;

/// Glyph advance of every other font in pixels.
pub const GLYPH_WIDTH: i32 = 7;

/// Longest byte string the text routines accept in one call; keeps every
/// width sum comfortably inside `i32`.
pub const MAX_TEXT: usize = 0x0010_0000;

/// A color in the device's 16-bit format.
#[derive(Clone, Copy, PartialEq, Eq, Structural, Debug)]
pub struct Color {
    pub value: u16,
}

impl Color {
    pub fn new(value: u16) -> (c: Color)
        ensures
            c == (Color { value }),
    {
        Color { value }
    }
}

/// A font identifier. Metrics depend only on the identifier.
#[derive(Clone, Copy, PartialEq, Eq, Structural, Debug)]
pub struct Font {
    pub id: i32,
}

/// Identifier of the bold font, the one font with wider glyphs.
pub const FONT_BOLD_ID: i32 = 2;

/// Advance of one glyph of `font`: the fixed-width font model.
pub open spec fn glyph_advance(font: Font) -> int {
    if font.id == FONT_BOLD_ID {
        BOLD_GLYPH_WIDTH as int
    } else {
        GLYPH_WIDTH as int
    }
}

/// Width in pixels of `text` drawn in `font`.
pub open spec fn text_width_spec(font: Font, text: Seq<u8>) -> int {
    text.len() * glyph_advance(font)
}

/// Vertical advance of a line break in `font`.
pub open spec fn line_height_spec(font: Font) -> int {
    LINE_HEIGHT as int
}

impl Font {
    pub fn new(id: i32) -> (f: Font)
        ensures
            f == (Font { id }),
    {
        Font { id }
    }

    /// Advance of the single glyph `ch` in this font.
    pub fn glyph_width(&self, ch: u8) -> (w: i32)
        ensures
            w == glyph_advance(*self),
            1 <= w <= 8,
    {
        if self.id == FONT_BOLD_ID {
            BOLD_GLYPH_WIDTH
        } else {
            GLYPH_WIDTH
        }
    }

    pub fn text_width(&self, text: &[u8]) -> (w: i32)
        requires
            text@.len() <= MAX_TEXT,
        ensures
            w == text_width_spec(*self, text@),
    {
        text_width(text, *self)
    }

    pub fn line_height(&self) -> (h: i32)
        ensures
            h == line_height_spec(*self),
    {
        line_height()
    }
}

/// One drawing request handed to the renderer.
#[derive(Clone, PartialEq, Eq, Debug)]
pub enum DrawCall {
    /// Fill a `w x h` bar whose top-left corner is `(x, y)`.
    Bar { x: i32, y: i32, w: i32, h: i32, color: Color },
    /// Fill a bar with rounded corners of the given radius.
    BarRadius { x: i32, y: i32, w: i32, h: i32, fg: Color, bg: Color, radius: u8 },
    /// Draw `text` with the first baseline point at `(x, y)`.
    Glyphs { x: i32, y: i32, text: Vec<u8>, font: Font, fg: Color, bg: Color },
    /// Set the backlight level.
    Backlight { val: i32 },
}

/// The mathematical value of one drawing request.
pub enum DrawCallV {
    Bar { x: int, y: int, w: int, h: int, color: Color },
    BarRadius { x: int, y: int, w: int, h: int, fg: Color, bg: Color, radius: u8 },
    Glyphs { x: int, y: int, text: Seq<u8>, font: Font, fg: Color, bg: Color },
    Backlight { val: int },
}

impl View for DrawCall {
    type V = DrawCallV;

    open spec fn view(&self) -> DrawCallV {
        match self {
            DrawCall::Bar { x, y, w, h, color } => DrawCallV::Bar {
                x: *x as int,
                y: *y as int,
                w: *w as int,
                h: *h as int,
                color: *color,
            },
            DrawCall::BarRadius { x, y, w, h, fg, bg, radius } => DrawCallV::BarRadius {
                x: *x as int,
                y: *y as int,
                w: *w as int,
                h: *h as int,
                fg: *fg,
                bg: *bg,
                radius: *radius,
            },
            DrawCall::Glyphs { x, y, text, font, fg, bg } => DrawCallV::Glyphs {
                x: *x as int,
                y: *y as int,
                text: text@,
                font: *font,
                fg: *fg,
                bg: *bg,
            },
            DrawCall::Backlight { val } => DrawCallV::Backlight { val: *val as int },
        }
    }
}

/// The view of a whole frame: the sequence of drawing requests it holds.
pub open spec fn frame_view(frame: Seq<DrawCall>) -> Seq<DrawCallV> {
    frame.map_values(|c: DrawCall| c@)
}

pub broadcast proof fn lemma_frame_view_push(frame: Seq<DrawCall>, c: DrawCall)
    ensures
        #[trigger] frame_view(frame.push(c)) == frame_view(frame).push(c@),
{
    assert(frame_view(frame.push(c)) =~= frame_view(frame).push(c@));
}

/// Bounds on the fixed-width metrics: a text is at least seven and at most
/// eight pixels per byte wide, in every font.
pub proof fn lemma_text_width_bound(font: Font, text: Seq<u8>)
    ensures
        text.len() * 7 <= text_width_spec(font, text) <= text.len() * 8,
        0 <= text_width_spec(font, text),
{
}

/// Whether one drawing request stays inside `r`: bars by their full
/// rectangle, glyph runs by their baseline point and modelled width (the
/// vertical glyph shape belongs to the rasterizer), and a backlight request
/// by having no geometry at all.
pub open spec fn call_in_rect(c: DrawCallV, r: Rect) -> bool {
    match c {
        DrawCallV::Bar { x, y, w, h, .. } => r.x0 <= x && x + w <= r.x1 && r.y0 <= y && y + h
            <= r.y1,
        DrawCallV::BarRadius { x, y, w, h, .. } => r.x0 <= x && x + w <= r.x1 && r.y0 <= y && y
            + h <= r.y1,
        DrawCallV::Glyphs { x, y, text, font, .. } => r.x0 <= x && x + text_width_spec(font, text)
            <= r.x1 && r.y0 <= y < r.y1,
        DrawCallV::Backlight { .. } => true,
    }
}

/// Whether every drawing request of a sequence stays inside `r`.
pub open spec fn calls_in_rect(calls: Seq<DrawCallV>, r: Rect) -> bool {
    forall|i: int| 0 <= i < calls.len() ==> call_in_rect(#[trigger] calls[i], r)
}

pub fn width() -> (w: i32)
    ensures
        w == SCREEN_WIDTH,
{
    SCREEN_WIDTH
}

pub fn height() -> (h: i32)
    ensures
        h == SCREEN_HEIGHT,
{
    SCREEN_HEIGHT
}

pub fn size() -> (s: Offset)
    ensures
        s == (Offset { x: SCREEN_WIDTH, y: SCREEN_HEIGHT }),
{
    Offset { x: SCREEN_WIDTH, y: SCREEN_HEIGHT }
}

pub fn screen() -> (r: Rect)
    ensures
        r == (Rect { x0: 0, y0: 0, x1: SCREEN_WIDTH, y1: SCREEN_HEIGHT }),
        r.wf(),
{
    Rect { x0: 0, y0: 0, x1: SCREEN_WIDTH, y1: SCREEN_HEIGHT }
}

/// Request a backlight change and echo the level back.
pub fn backlight(frame: &mut Vec<DrawCall>, val: i32) -> (r: i32)
    ensures
        frame_view(final(frame)@) == frame_view(old(frame)@).push(DrawCallV::Backlight { val: val as int }),
        r == val,
{
    frame.push(DrawCall::Backlight { val });
    proof {
        lemma_frame_view_push(old(frame)@, DrawCall::Backlight { val });
    }
    val
}

/// Fill rectangle `r` with `fg_color`.
pub fn rect(frame: &mut Vec<DrawCall>, r: Rect, fg_color: Color)
    requires
        r.wf(),
    ensures
        frame_view(final(frame)@) == frame_view(old(frame)@).push(
            DrawCallV::Bar {
                x: r.x0 as int,
                y: r.y0 as int,
                w: r.spec_width(),
                h: r.spec_height(),
                color: fg_color,
            },
        ),
{
    let call = DrawCall::Bar { x: r.x0, y: r.y0, w: r.x1 - r.x0, h: r.y1 - r.y0, color: fg_color };
    frame.push(call);
    proof {
        lemma_frame_view_push(old(frame)@, call);
    }
}

/// Fill rectangle `r` with `fg_color`, rounding the corners with `radius`.
pub fn rounded_rect(frame: &mut Vec<DrawCall>, r: Rect, fg_color: Color, bg_color: Color, radius: u8)
    requires
        r.wf(),
    ensures
        frame_view(final(frame)@) == frame_view(old(frame)@).push(
            DrawCallV::BarRadius {
                x: r.x0 as int,
                y: r.y0 as int,
                w: r.spec_width(),
                h: r.spec_height(),
                fg: fg_color,
                bg: bg_color,
                radius,
            },
        ),
{
    let call = DrawCall::BarRadius {
        x: r.x0,
        y: r.y0,
        w: r.x1 - r.x0,
        h: r.y1 - r.y0,
        fg: fg_color,
        bg: bg_color,
        radius,
    };
    frame.push(call);
    proof {
        lemma_frame_view_push(old(frame)@, call);
    }
}

/// Draw `text` in `font` with the baseline starting at `baseline`.
pub fn text(frame: &mut Vec<DrawCall>, baseline: Point, text: &[u8], font: Font, fg_color: Color, bg_color: Color)
    ensures
        frame_view(final(frame)@) == frame_view(old(frame)@).push(
            DrawCallV::Glyphs {
                x: baseline.x as int,
                y: baseline.y as int,
                text: text@,
                font,
                fg: fg_color,
                bg: bg_color,
            },
        ),
{
    let bytes = vstd::slice::slice_to_vec(text);
    let call = DrawCall::Glyphs {
        x: baseline.x,
        y: baseline.y,
        text: bytes,
        font,
        fg: fg_color,
        bg: bg_color,
    };
    frame.push(call);
    proof {
        lemma_frame_view_push(old(frame)@, call);
    }
}

/// Width in pixels of `text` drawn in `font`.
pub fn text_width(text: &[u8], font: Font) -> (w: i32)
    requires
        text@.len() <= MAX_TEXT,
    ensures
        w == text_width_spec(font, text@),
{
    let adv = font.glyph_width(0);
    let n = text.len();
    proof {
        assert(n * adv <= n * 8 && 0 <= n * adv) by (nonlinear_arith)
            requires
                1 <= adv <= 8,
                0 <= n,
        ;
    }
    (n as i32) * adv
}

pub fn text_height() -> (h: i32)
    ensures
        h == TEXT_HEIGHT,
{
    TEXT_HEIGHT
}

pub fn line_height() -> (h: i32)
    ensures
        h == LINE_HEIGHT,
{
    LINE_HEIGHT
}

} // verus!
