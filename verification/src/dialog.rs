//! A dialog: an optional header line, a content component, and up to two
//! buttons on the bottom strip.
//!
//! Dispatch order is content first, then the left button, then the right
//! button; the first message wins and short-circuits the rest, so two
//! children can never answer the same event. Paint order mirrors dispatch
//! order, and a child is only drawn when it is marked dirty.

use vstd::prelude::*;

use crate::button::{Button, ButtonMsg};
use crate::component::{Child, Component, Event, EventCtx};
use crate::display;
use crate::display::{call_in_rect, calls_in_rect, frame_view, Color, DrawCall, DrawCallV, Font};
use crate::geometry::Rect;
use crate::trace::{Trace, TraceToken, Tracer};

verus! {

/// Height in pixels of the bottom button strip.
pub const DIALOG_BUTTON_HEIGHT: i32 = 11;

/// Height in pixels of the header line.
pub const DIALOG_HEADER_HEIGHT: i32 = 13;

pub enum DialogMsg<T: Component> {
    /// The content component produced a message.
    Content(T::Msg),
    LeftClicked,
    RightClicked,
}

pub struct Dialog<T> {
    /// The rectangle the dialog was constructed with; the header is drawn
    /// into its top rows.
    pub area: Rect,
    pub header: Option<Vec<u8>>,
    pub content: Child<T>,
    pub left_btn: Option<Child<Button>>,
    pub right_btn: Option<Child<Button>>,
}

/// The rectangle the dialog hands to its content: everything above the
/// button strip, minus the header line if there is one.
pub open spec fn dialog_content_area(area: Rect, has_header: bool) -> Rect {
    Rect {
        x0: area.x0,
        y0: if has_header {
            (area.y0 + DIALOG_HEADER_HEIGHT) as i32
        } else {
            area.y0
        },
        x1: area.x1,
        y1: (area.y1 - DIALOG_BUTTON_HEIGHT) as i32,
    }
}

/// The left half of the button strip.
pub open spec fn dialog_left_area(area: Rect) -> Rect {
    Rect {
        x0: area.x0,
        y0: (area.y1 - DIALOG_BUTTON_HEIGHT) as i32,
        x1: (area.x0 + area.spec_width() / 2) as i32,
        y1: area.y1,
    }
}

/// The right half of the button strip.
pub open spec fn dialog_right_area(area: Rect) -> Rect {
    Rect {
        x0: (area.x0 + area.spec_width() / 2) as i32,
        y0: (area.y1 - DIALOG_BUTTON_HEIGHT) as i32,
        x1: area.x1,
        y1: area.y1,
    }
}

/// The draw calls of the header line, inside the top rows of the dialog's
/// own rectangle: the caption in the bold font, its baseline just above a
/// one-pixel separator bar on the header's bottom row.
pub open spec fn header_calls(area: Rect, header: Option<Vec<u8>>) -> Seq<DrawCallV> {
    match header {
        Some(h) => seq![
            DrawCallV::Glyphs {
                x: area.x0 as int,
                y: area.y0 + DIALOG_HEADER_HEIGHT - 2,
                text: h@,
                font: Font { id: 2 },
                fg: Color { value: 0xFFFF },
                bg: Color { value: 0x0000 },
            },
            DrawCallV::Bar {
                x: area.x0 as int,
                y: area.y0 + DIALOG_HEADER_HEIGHT - 1,
                w: area.spec_width(),
                h: 1,
                color: Color { value: 0xFFFF },
            },
        ],
        None => Seq::empty(),
    }
}

/// The header never draws outside the dialog's rectangle: both its calls
/// lie in the top header rows, provided the caption fits the width.
pub proof fn lemma_header_paint_in_area(area: Rect, header: Option<Vec<u8>>)
    requires
        area.wf(),
        area.spec_height() >= DIALOG_HEADER_HEIGHT,
        header matches Some(h) ==> 8 * h@.len() <= area.spec_width(),
    ensures
        calls_in_rect(header_calls(area, header), area),
{
    let calls = header_calls(area, header);
    match header {
        Some(h) => {
            crate::display::lemma_text_width_bound(Font { id: 2 }, h@);
            assert forall|i: int| 0 <= i < calls.len() implies call_in_rect(
                #[trigger] calls[i],
                area,
            ) by {
                if i == 0 {
                    assert(call_in_rect(calls[0], area));
                } else {
                    assert(call_in_rect(calls[1], area));
                }
            }
        },
        None => {},
    }
}

impl<T: Component> Dialog<T> {
    /// Carve `area` into content, header and button regions, and build the
    /// children in place.
    pub fn new<F: FnOnce(Rect) -> T, G: FnOnce(Rect) -> Button, H: FnOnce(Rect) -> Button>(
        area: Rect,
        content: F,
        left: Option<G>,
        right: Option<H>,
        header: Option<Vec<u8>>,
    ) -> (d: Dialog<T>)
        requires
            area.wf(),
            area.spec_height() >= DIALOG_BUTTON_HEIGHT + DIALOG_HEADER_HEIGHT,
            call_requires(content, (dialog_content_area(area, header is Some),)),
            forall|c: T|
                call_ensures(content, (dialog_content_area(area, header is Some),), c)
                    ==> c.wf(),
            left matches Some(f) ==> call_requires(f, (dialog_left_area(area),)),
            forall|f: G, b: Button|
                #[trigger] call_ensures(f, (dialog_left_area(area),), b) ==> b.wf(),
            right matches Some(f) ==> call_requires(f, (dialog_right_area(area),)),
            forall|f: H, b: Button|
                #[trigger] call_ensures(f, (dialog_right_area(area),), b) ==> b.wf(),
        ensures
            d.wf(),
            d.area == area,
            d.header == header,
            d.content.marked_for_paint,
            call_ensures(content, (dialog_content_area(area, header is Some),),
                d.content.component),
            match (left, d.left_btn) {
                (Some(f), Some(b)) => b.marked_for_paint && call_ensures(
                    f,
                    (dialog_left_area(area),),
                    b.component,
                ),
                (None, None) => true,
                _ => false,
            },
            match (right, d.right_btn) {
                (Some(f), Some(b)) => b.marked_for_paint && call_ensures(
                    f,
                    (dialog_right_area(area),),
                    b.component,
                ),
                (None, None) => true,
                _ => false,
            },
    {
        let button_h = DIALOG_BUTTON_HEIGHT;
        let header_h = DIALOG_HEADER_HEIGHT;

        let (content_area, buttons) = area.hsplit(0 - button_h);
        let content_area = if header.is_none() {
            content_area
        } else {
            content_area.hsplit(header_h).1
        };
        let (left_rect, right_rect) = buttons.vsplit(buttons.width() / 2);

        let content = Child::new(content(content_area));
        let left_btn = match left {
            Some(f) => Some(Child::new(f(left_rect))),
            None => None,
        };
        let right_btn = match right {
            Some(f) => Some(Child::new(f(right_rect))),
            None => None,
        };
        Dialog { area, header, content, left_btn, right_btn }
    }

    /// Draw the header caption and its separator line into the top rows of
    /// the dialog's rectangle, if a header is set.
    fn paint_header(&self, frame: &mut Vec<DrawCall>)
        requires
            self.area.wf(),
            self.area.spec_height() >= DIALOG_HEADER_HEIGHT,
        ensures
            frame_view(final(frame)@) == frame_view(old(frame)@) + header_calls(
                self.area,
                self.header,
            ),
    {
        match &self.header {
            Some(h) => {
                display::text(
                    frame,
                    crate::geometry::Point {
                        x: self.area.x0,
                        y: self.area.y0 + DIALOG_HEADER_HEIGHT - 2,
                    },
                    h.as_slice(),
                    crate::theme::font_bold(),
                    crate::theme::fg(),
                    crate::theme::bg(),
                );
                // A separator line under the caption; the modelled renderer
                // draws it as a one-pixel bar on the header's bottom row.
                display::rect(
                    frame,
                    Rect {
                        x0: self.area.x0,
                        y0: self.area.y0 + DIALOG_HEADER_HEIGHT - 1,
                        x1: self.area.x1,
                        y1: self.area.y0 + DIALOG_HEADER_HEIGHT,
                    },
                    crate::theme::fg(),
                );
                proof {
                    assert(frame_view(frame@) =~= frame_view(old(frame)@) + header_calls(
                        self.area,
                        self.header,
                    ));
                }
            },
            None => {
                proof {
                    assert(frame_view(frame@) =~= frame_view(old(frame)@) + header_calls(
                        self.area,
                        self.header,
                    ));
                }
            },
        }
    }
}

impl<T: Component> Component for Dialog<T> {
    type Msg = DialogMsg<T>;

    open spec fn wf(self) -> bool {
        &&& self.area.wf()
        &&& self.area.spec_height() >= DIALOG_BUTTON_HEIGHT + DIALOG_HEADER_HEIGHT
        &&& self.content.wf()
        &&& match self.left_btn {
            Some(b) => b.wf(),
            None => true,
        }
        &&& match self.right_btn {
            Some(b) => b.wf(),
            None => true,
        }
    }

    open spec fn next(self, event: Event) -> Dialog<T> {
        let content = self.content.next(event);
        if self.content.message(event) is Some {
            Dialog { content, ..self }
        } else {
            let left_btn = match self.left_btn {
                Some(b) => Some(b.next(event)),
                None => None,
            };
            let left_clicked = match self.left_btn {
                Some(b) => b.message(event) == Some(ButtonMsg::Clicked),
                None => false,
            };
            if left_clicked {
                Dialog { content, left_btn, ..self }
            } else {
                let right_btn = match self.right_btn {
                    Some(b) => Some(b.next(event)),
                    None => None,
                };
                Dialog { content, left_btn, right_btn, ..self }
            }
        }
    }

    open spec fn message(self, event: Event) -> Option<DialogMsg<T>> {
        match self.content.message(event) {
            Some(m) => Some(DialogMsg::Content(m)),
            None => {
                let left_clicked = match self.left_btn {
                    Some(b) => b.message(event) == Some(ButtonMsg::Clicked),
                    None => false,
                };
                let right_clicked = match self.right_btn {
                    Some(b) => b.message(event) == Some(ButtonMsg::Clicked),
                    None => false,
                };
                if left_clicked {
                    Some(DialogMsg::LeftClicked)
                } else if right_clicked {
                    Some(DialogMsg::RightClicked)
                } else {
                    None
                }
            },
        }
    }

    open spec fn requests_paint(self, event: Event) -> bool {
        let content_rp = self.content.requests_paint(event);
        if self.content.message(event) is Some {
            content_rp
        } else {
            let left_rp = match self.left_btn {
                Some(b) => b.requests_paint(event),
                None => false,
            };
            let left_clicked = match self.left_btn {
                Some(b) => b.message(event) == Some(ButtonMsg::Clicked),
                None => false,
            };
            let right_rp = match self.right_btn {
                Some(b) => b.requests_paint(event),
                None => false,
            };
            content_rp || left_rp || (!left_clicked && right_rp)
        }
    }

    open spec fn paint_calls(self) -> Seq<DrawCallV> {
        header_calls(self.area, self.header) + self.content.paint_calls() + (match self.left_btn {
            Some(b) => b.paint_calls(),
            None => Seq::empty(),
        }) + (match self.right_btn {
            Some(b) => b.paint_calls(),
            None => Seq::empty(),
        })
    }

    open spec fn painted(self) -> Dialog<T> {
        Dialog {
            content: self.content.painted(),
            left_btn: match self.left_btn {
                Some(b) => Some(b.painted()),
                None => None,
            },
            right_btn: match self.right_btn {
                Some(b) => Some(b.painted()),
                None => None,
            },
            ..self
        }
    }

    /// Content first, then left, then right; the first message wins.
    fn event(&mut self, ctx: &mut EventCtx, event: Event) -> (msg: Option<DialogMsg<T>>) {
        if let Some(msg) = self.content.event(ctx, event) {
            return Some(DialogMsg::Content(msg));
        }
        match &mut self.left_btn {
            Some(b) => {
                if let Some(ButtonMsg::Clicked) = b.event(ctx, event) {
                    return Some(DialogMsg::LeftClicked);
                }
            },
            None => {},
        }
        match &mut self.right_btn {
            Some(b) => {
                if let Some(ButtonMsg::Clicked) = b.event(ctx, event) {
                    return Some(DialogMsg::RightClicked);
                }
            },
            None => {},
        }
        None
    }

    fn paint(&mut self, frame: &mut Vec<DrawCall>) {
        let ghost d0 = *self;
        self.paint_header(frame);
        self.content.paint(frame);
        match &mut self.left_btn {
            Some(b) => {
                b.paint(frame);
            },
            None => {},
        }
        match &mut self.right_btn {
            Some(b) => {
                b.paint(frame);
            },
            None => {},
        }
        proof {
            assert(frame_view(frame@) =~= frame_view(old(frame)@) + d0.paint_calls());
        }
    }
}

impl<T: Component + Trace> Trace for Dialog<T> {
    open spec fn trace_tokens(self) -> Seq<TraceToken> {
        seq![TraceToken::Open("Dialog"@), TraceToken::Field("content"@)]
            + self.content.trace_tokens() + seq![TraceToken::Field("left"@)]
            + self.left_btn.trace_tokens() + seq![TraceToken::Field("right"@)]
            + self.right_btn.trace_tokens() + seq![TraceToken::Close]
    }

    fn trace(&self, t: &mut crate::trace::TraceRecorder) {
        t.open("Dialog");
        t.field("content");
        self.content.trace(t);
        t.field("left");
        self.left_btn.trace(t);
        t.field("right");
        self.right_btn.trace(t);
        t.close();
        proof {
            assert(t.log() =~= old(t).log() + self.trace_tokens());
        }
    }
}

} // verus!
