//! A push button driven by a four-state pointer state machine.
//!
//! States are `Initial`, `Pressed`, `Released` and `Disabled`; transitions
//! are driven only by pointer events tested against the button's rectangle
//! and by explicit enable/disable calls. The full transition table is the
//! spec function [`Button::transition`], and `Button::event` is proved to
//! follow it on every `(state, event)` pair.

use vstd::prelude::*;

use crate::component::{Component, Event, EventCtx};
use crate::display;
use crate::display::{
    call_in_rect, calls_in_rect, frame_view, lemma_text_width_bound, text_width_spec, Color,
    DrawCall, DrawCallV, Font, SCREEN_WIDTH,
};
use crate::geometry::{Point, Rect};
use crate::trace::{Trace, TraceToken, Tracer};

verus! {

/// Longest button label the paint arithmetic accepts.
pub const MAX_LABEL: usize = 4096;

#[derive(Clone, Copy, PartialEq, Eq, Structural, Debug)]
pub enum ButtonMsg {
    Clicked,
}

#[derive(Clone, Copy, PartialEq, Eq, Structural, Debug)]
pub enum State {
    Initial,
    Pressed,
    Released,
    Disabled,
}

pub enum ButtonContent {
    Text(Vec<u8>),
    Image(Vec<u8>),
}

#[derive(Clone, Copy, PartialEq, Eq, Structural, Debug)]
pub struct ButtonStyle {
    pub font: Font,
    pub text_color: Color,
    pub background_color: Color,
    pub border_horiz: bool,
}

#[derive(Clone, Copy, PartialEq, Eq, Structural, Debug)]
pub struct ButtonStyleSheet {
    pub normal: ButtonStyle,
    pub active: ButtonStyle,
    pub disabled: ButtonStyle,
}

pub struct Button {
    pub area: Rect,
    pub content: ButtonContent,
    pub styles: ButtonStyleSheet,
    pub state: State,
}

impl ButtonContent {
    /// A text label is non-empty and short enough for the paint arithmetic.
    pub open spec fn wf(self) -> bool {
        match self {
            ButtonContent::Text(t) => 1 <= t@.len() <= MAX_LABEL,
            ButtonContent::Image(i) => i@.len() <= MAX_LABEL,
        }
    }
}

impl Button {
    pub open spec fn wf_spec(self) -> bool {
        &&& self.area.wf()
        &&& self.content.wf()
    }

    /// The resulting state for every `(state, event)` pair: the button's
    /// complete transition table.
    pub open spec fn transition(self, event: Event) -> State {
        match event {
            Event::TouchStart(pos) => if self.state == State::Disabled {
                State::Disabled
            } else if self.area.spec_contains(pos) {
                State::Pressed
            } else {
                self.state
            },
            Event::TouchMove(pos) => if self.state == State::Released
                && self.area.spec_contains(pos) {
                State::Pressed
            } else if self.state == State::Pressed && !self.area.spec_contains(pos) {
                State::Released
            } else {
                self.state
            },
            Event::TouchEnd(pos) => if self.state == State::Initial || self.state
                == State::Disabled {
                self.state
            } else {
                State::Initial
            },
            Event::Timer(_) => self.state,
        }
    }

    /// The message for every `(state, event)` pair: `Clicked` exactly when a
    /// pressed button sees the pointer lift inside its rectangle.
    pub open spec fn emits(self, event: Event) -> Option<ButtonMsg> {
        match event {
            Event::TouchEnd(pos) => if self.state == State::Pressed && self.area.spec_contains(
                pos,
            ) {
                Some(ButtonMsg::Clicked)
            } else {
                None
            },
            _ => None,
        }
    }

    pub fn new(area: Rect, content: ButtonContent, styles: ButtonStyleSheet) -> (b: Button)
        ensures
            b.area == area,
            b.content == content,
            b.styles == styles,
            b.state == State::Initial,
    {
        Button { area, content, styles, state: State::Initial }
    }

    pub fn with_text(area: Rect, text: Vec<u8>, styles: ButtonStyleSheet) -> (b: Button)
        ensures
            b.area == area,
            b.content == (ButtonContent::Text(text)),
            b.styles == styles,
            b.state == State::Initial,
    {
        Self::new(area, ButtonContent::Text(text), styles)
    }

    pub fn with_image(area: Rect, image: Vec<u8>, styles: ButtonStyleSheet) -> (b: Button)
        ensures
            b.area == area,
            b.content == (ButtonContent::Image(image)),
            b.styles == styles,
            b.state == State::Initial,
    {
        Self::new(area, ButtonContent::Image(image), styles)
    }

    pub fn enable(&mut self, ctx: &mut EventCtx)
        ensures
            *final(self) == (Button { state: State::Initial, ..*old(self) }),
            final(ctx).paint_requested == (old(ctx).paint_requested || old(self).state
                != State::Initial),
            final(ctx).timers == old(ctx).timers,
            final(ctx).next_token == old(ctx).next_token,
    {
        self.set(ctx, State::Initial)
    }

    pub fn disable(&mut self, ctx: &mut EventCtx)
        ensures
            *final(self) == (Button { state: State::Disabled, ..*old(self) }),
            final(ctx).paint_requested == (old(ctx).paint_requested || old(self).state
                != State::Disabled),
            final(ctx).timers == old(ctx).timers,
            final(ctx).next_token == old(ctx).next_token,
    {
        self.set(ctx, State::Disabled)
    }

    pub fn is_enabled(&self) -> (b: bool)
        ensures
            b == (self.state != State::Disabled),
    {
        matches!(self.state, State::Initial | State::Pressed | State::Released)
    }

    pub fn is_disabled(&self) -> (b: bool)
        ensures
            b == (self.state == State::Disabled),
    {
        matches!(self.state, State::Disabled)
    }

    pub fn content(&self) -> (c: &ButtonContent)
        ensures
            c == &self.content,
    {
        &self.content
    }

    /// The style the current state selects.
    pub open spec fn spec_style(self) -> ButtonStyle {
        match self.state {
            State::Initial | State::Released => self.styles.normal,
            State::Pressed => self.styles.active,
            State::Disabled => self.styles.disabled,
        }
    }

    fn style(&self) -> (s: ButtonStyle)
        ensures
            s == self.spec_style(),
    {
        match self.state {
            State::Initial | State::Released => self.styles.normal,
            State::Pressed => self.styles.active,
            State::Disabled => self.styles.disabled,
        }
    }

    /// Move to `state`, requesting a repaint exactly when the state changes.
    fn set(&mut self, ctx: &mut EventCtx, state: State)
        ensures
            *final(self) == (Button { state, ..*old(self) }),
            final(ctx).paint_requested == (old(ctx).paint_requested || old(self).state != state),
            final(ctx).timers == old(ctx).timers,
            final(ctx).next_token == old(ctx).next_token,
    {
        if self.state != state {
            self.state = state;
            ctx.request_paint();
        }
    }
}

impl Component for Button {
    type Msg = ButtonMsg;

    open spec fn wf(self) -> bool {
        self.wf_spec()
    }

    open spec fn next(self, event: Event) -> Button {
        Button { state: self.transition(event), ..self }
    }

    open spec fn message(self, event: Event) -> Option<ButtonMsg> {
        self.emits(event)
    }

    open spec fn requests_paint(self, event: Event) -> bool {
        self.transition(event) != self.state
    }

    open spec fn paint_calls(self) -> Seq<DrawCallV> {
        button_paint_calls(self)
    }

    open spec fn painted(self) -> Button {
        self
    }

    fn event(&mut self, ctx: &mut EventCtx, event: Event) -> (msg: Option<ButtonMsg>) {
        match event {
            Event::TouchStart(pos) => {
                match self.state {
                    State::Disabled => {},
                    _ => {
                        if self.area.contains(pos) {
                            self.set(ctx, State::Pressed);
                        }
                    },
                }
            },
            Event::TouchMove(pos) => {
                let inside = self.area.contains(pos);
                match self.state {
                    State::Released => {
                        if inside {
                            self.set(ctx, State::Pressed);
                        }
                    },
                    State::Pressed => {
                        if !inside {
                            self.set(ctx, State::Released);
                        }
                    },
                    _ => {},
                }
            },
            Event::TouchEnd(pos) => {
                match self.state {
                    State::Initial | State::Disabled => {},
                    State::Pressed => {
                        if self.area.contains(pos) {
                            self.set(ctx, State::Initial);
                            return Some(ButtonMsg::Clicked);
                        } else {
                            self.set(ctx, State::Initial);
                        }
                    },
                    _ => {
                        self.set(ctx, State::Initial);
                    },
                }
            },
            Event::Timer(_) => {},
        }
        None
    }

    /// Draw the button inside its own rectangle: a background bar filling
    /// the rectangle, then the label, hugging the left or right edge
    /// according to which half of the screen the button sits in, with its
    /// baseline on the rectangle's bottom row. An image button draws
    /// nothing, since the modelled renderer has no image support.
    fn paint(&mut self, frame: &mut Vec<DrawCall>) {
        let style = self.style();
        match &self.content {
            ButtonContent::Text(text) => {
                let width = display::text_width(text.as_slice(), style.font);
                proof {
                    lemma_text_width_bound(style.font, text@);
                }

                // The background bar covers the button's rectangle.
                if style.border_horiz {
                    display::rounded_rect(
                        frame,
                        self.area,
                        style.background_color,
                        Color::new(0x0000),
                        1,
                    );
                } else {
                    display::rect(frame, self.area, style.background_color);
                }

                let h_border: i32 = if style.border_horiz {
                    2
                } else {
                    0
                };
                let is_left = self.area.x0 < SCREEN_WIDTH / 2;
                let start_of_baseline = if is_left {
                    Point::new(self.area.x0 + h_border, self.area.y1 - 1)
                } else {
                    Point::new(self.area.x1 - h_border - width, self.area.y1 - 1)
                };
                display::text(
                    frame,
                    start_of_baseline,
                    text.as_slice(),
                    style.font,
                    style.text_color,
                    style.background_color,
                );
                proof {
                    assert(frame_view(frame@) =~= frame_view(old(frame)@) + old(
                        self,
                    ).paint_calls());
                }
            },
            ButtonContent::Image(_image) => {
                proof {
                    assert(frame_view(frame@) =~= frame_view(old(frame)@) + old(
                        self,
                    ).paint_calls());
                }
            },
        }
    }
}

/// The draw calls one paint pass of `b` emits: the background bar over the
/// button's rectangle, then the label glyphs.
pub open spec fn button_paint_calls(b: Button) -> Seq<DrawCallV> {
    match b.content {
        ButtonContent::Text(text) => {
            let style = b.spec_style();
            let w = text_width_spec(style.font, text@);
            let bar = if style.border_horiz {
                DrawCallV::BarRadius {
                    x: b.area.x0 as int,
                    y: b.area.y0 as int,
                    w: b.area.spec_width(),
                    h: b.area.spec_height(),
                    fg: style.background_color,
                    bg: Color { value: 0x0000 },
                    radius: 1u8,
                }
            } else {
                DrawCallV::Bar {
                    x: b.area.x0 as int,
                    y: b.area.y0 as int,
                    w: b.area.spec_width(),
                    h: b.area.spec_height(),
                    color: style.background_color,
                }
            };
            let h_border: int = if style.border_horiz {
                2
            } else {
                0
            };
            let baseline_x: int = if b.area.x0 < SCREEN_WIDTH / 2 {
                b.area.x0 + h_border
            } else {
                b.area.x1 - h_border - w
            };
            let glyphs = DrawCallV::Glyphs {
                x: baseline_x,
                y: b.area.y1 - 1,
                text: text@,
                font: style.font,
                fg: style.text_color,
                bg: style.background_color,
            };
            seq![bar, glyphs]
        },
        ButtonContent::Image(_) => Seq::empty(),
    }
}

/// A paint pass never draws outside the rectangle the button was
/// constructed with: the background bar is the rectangle itself, and the
/// label's baseline point and glyph run lie inside it. The law asks only
/// that the rectangle has a row for the baseline and is wide enough for
/// the label with its padding; a label wider than that overflows the
/// button just as it would overflow any region.
pub proof fn lemma_button_paint_in_area(b: Button)
    requires
        b.wf_spec(),
        b.area.spec_height() >= 1,
        b.content matches ButtonContent::Text(t) ==> 8 * t@.len() + 4 <= b.area.spec_width(),
    ensures
        calls_in_rect(button_paint_calls(b), b.area),
{
    let calls = button_paint_calls(b);
    match b.content {
        ButtonContent::Text(text) => {
            let style = b.spec_style();
            lemma_text_width_bound(style.font, text@);
            assert forall|i: int| 0 <= i < calls.len() implies call_in_rect(
                #[trigger] calls[i],
                b.area,
            ) by {
                if i == 0 {
                    assert(call_in_rect(calls[0], b.area));
                } else {
                    assert(call_in_rect(calls[1], b.area));
                }
            }
        },
        ButtonContent::Image(_) => {},
    }
}

impl Trace for Button {
    open spec fn trace_tokens(self) -> Seq<TraceToken> {
        seq![TraceToken::Open("Button"@)] + (match self.content {
            ButtonContent::Text(t) => seq![TraceToken::Field("text"@), TraceToken::Bytes(t@)],
            ButtonContent::Image(_) => seq![TraceToken::Tag("image"@)],
        }) + seq![TraceToken::Close]
    }

    fn trace(&self, t: &mut crate::trace::TraceRecorder) {
        t.open("Button");
        match &self.content {
            ButtonContent::Text(text) => {
                t.field("text");
                t.bytes(text.as_slice());
            },
            ButtonContent::Image(_) => {
                t.tag("image");
            },
        }
        t.close();
        proof {
            assert(t.log() =~= old(t).log() + self.trace_tokens());
        }
    }
}

} // verus!
