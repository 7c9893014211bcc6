//! A confirmation screen: a content component over two buttons placed on
//! the bottom row of a five-by-two grid.

use vstd::prelude::*;

use crate::button::{Button, ButtonMsg};
use crate::component::{Child, Component, Event, EventCtx};
use crate::display::{frame_view, DrawCall, DrawCallV};
use crate::geometry::{Grid, Rect};

verus! {

pub enum ConfirmMsg<T: Component> {
    /// The content component produced a message.
    Content(T::Msg),
    LeftClicked,
    RightClicked,
}

pub struct Confirm<T> {
    pub content: Child<T>,
    pub left_btn: Option<Child<Button>>,
    pub right_btn: Option<Child<Button>>,
}

/// The grid a confirmation screen carves its area into.
pub open spec fn confirm_grid(area: Rect) -> Grid {
    Grid { area, rows: 5, cols: 2 }
}

/// The content spans the grid from the top-left cell to the cell above the
/// right button.
pub open spec fn confirm_content_area(area: Rect) -> Rect {
    Rect {
        x0: confirm_grid(area).spec_cell(0, 0).x0,
        y0: confirm_grid(area).spec_cell(0, 0).y0,
        x1: confirm_grid(area).spec_cell(4, 1).x1,
        y1: confirm_grid(area).spec_cell(4, 1).y1,
    }
}

pub open spec fn confirm_left_area(area: Rect) -> Rect {
    confirm_grid(area).spec_cell(4, 0)
}

pub open spec fn confirm_right_area(area: Rect) -> Rect {
    confirm_grid(area).spec_cell(4, 1)
}

impl<T: Component> Confirm<T> {
    pub fn new<F: FnOnce(Rect) -> T, G: FnOnce(Rect) -> Button, H: FnOnce(Rect) -> Button>(
        area: Rect,
        content: F,
        left: G,
        right: H,
    ) -> (c: Confirm<T>)
        requires
            area.wf(),
            call_requires(content, (confirm_content_area(area),)),
            forall|v: T| call_ensures(content, (confirm_content_area(area),), v) ==> v.wf(),
            call_requires(left, (confirm_left_area(area),)),
            forall|b: Button| call_ensures(left, (confirm_left_area(area),), b) ==> b.wf(),
            call_requires(right, (confirm_right_area(area),)),
            forall|b: Button| call_ensures(right, (confirm_right_area(area),), b) ==> b.wf(),
        ensures
            c.wf(),
            c.content.marked_for_paint,
            call_ensures(content, (confirm_content_area(area),), c.content.component),
            match c.left_btn {
                Some(b) => b.marked_for_paint && call_ensures(
                    left,
                    (confirm_left_area(area),),
                    b.component,
                ),
                None => false,
            },
            match c.right_btn {
                Some(b) => b.marked_for_paint && call_ensures(
                    right,
                    (confirm_right_area(area),),
                    b.component,
                ),
                None => false,
            },
    {
        let grid = Grid::new(area, 5, 2);
        let content = Child::new(
            content(Rect::new(grid.row_col(0, 0).top_left(), grid.row_col(4, 1).bottom_right())),
        );
        let left_btn = Child::new(left(grid.row_col(4, 0)));
        let right_btn = Child::new(right(grid.row_col(4, 1)));
        Confirm { content, left_btn: Some(left_btn), right_btn: Some(right_btn) }
    }
}

impl<T: Component> Component for Confirm<T> {
    type Msg = ConfirmMsg<T>;

    open spec fn wf(self) -> bool {
        &&& self.content.wf()
        &&& match self.left_btn {
            Some(b) => b.wf(),
            None => true,
        }
        &&& match self.right_btn {
            Some(b) => b.wf(),
            None => true,
        }
    }

    open spec fn next(self, event: Event) -> Confirm<T> {
        let content = self.content.next(event);
        if self.content.message(event) is Some {
            Confirm { content, ..self }
        } else {
            let left_btn = match self.left_btn {
                Some(b) => Some(b.next(event)),
                None => None,
            };
            let left_clicked = match self.left_btn {
                Some(b) => b.message(event) == Some(ButtonMsg::Clicked),
                None => false,
            };
            if left_clicked {
                Confirm { content, left_btn, ..self }
            } else {
                let right_btn = match self.right_btn {
                    Some(b) => Some(b.next(event)),
                    None => None,
                };
                Confirm { content, left_btn, right_btn, ..self }
            }
        }
    }

    open spec fn message(self, event: Event) -> Option<ConfirmMsg<T>> {
        match self.content.message(event) {
            Some(m) => Some(ConfirmMsg::Content(m)),
            None => {
                let left_clicked = match self.left_btn {
                    Some(b) => b.message(event) == Some(ButtonMsg::Clicked),
                    None => false,
                };
                let right_clicked = match self.right_btn {
                    Some(b) => b.message(event) == Some(ButtonMsg::Clicked),
                    None => false,
                };
                if left_clicked {
                    Some(ConfirmMsg::LeftClicked)
                } else if right_clicked {
                    Some(ConfirmMsg::RightClicked)
                } else {
                    None
                }
            },
        }
    }

    open spec fn requests_paint(self, event: Event) -> bool {
        let content_rp = self.content.requests_paint(event);
        if self.content.message(event) is Some {
            content_rp
        } else {
            let left_rp = match self.left_btn {
                Some(b) => b.requests_paint(event),
                None => false,
            };
            let left_clicked = match self.left_btn {
                Some(b) => b.message(event) == Some(ButtonMsg::Clicked),
                None => false,
            };
            let right_rp = match self.right_btn {
                Some(b) => b.requests_paint(event),
                None => false,
            };
            content_rp || left_rp || (!left_clicked && right_rp)
        }
    }

    open spec fn paint_calls(self) -> Seq<DrawCallV> {
        self.content.paint_calls() + (match self.left_btn {
            Some(b) => b.paint_calls(),
            None => Seq::empty(),
        }) + (match self.right_btn {
            Some(b) => b.paint_calls(),
            None => Seq::empty(),
        })
    }

    open spec fn painted(self) -> Confirm<T> {
        Confirm {
            content: self.content.painted(),
            left_btn: match self.left_btn {
                Some(b) => Some(b.painted()),
                None => None,
            },
            right_btn: match self.right_btn {
                Some(b) => Some(b.painted()),
                None => None,
            },
        }
    }

    /// Content first, then left, then right; the first message wins.
    fn event(&mut self, ctx: &mut EventCtx, event: Event) -> (msg: Option<ConfirmMsg<T>>) {
        if let Some(msg) = self.content.event(ctx, event) {
            return Some(ConfirmMsg::Content(msg));
        }
        match &mut self.left_btn {
            Some(b) => {
                if let Some(ButtonMsg::Clicked) = b.event(ctx, event) {
                    return Some(ConfirmMsg::LeftClicked);
                }
            },
            None => {},
        }
        match &mut self.right_btn {
            Some(b) => {
                if let Some(ButtonMsg::Clicked) = b.event(ctx, event) {
                    return Some(ConfirmMsg::RightClicked);
                }
            },
            None => {},
        }
        None
    }

    fn paint(&mut self, frame: &mut Vec<DrawCall>) {
        let ghost c0 = *self;
        self.content.paint(frame);
        match &mut self.left_btn {
            Some(b) => {
                b.paint(frame);
            },
            None => {},
        }
        match &mut self.right_btn {
            Some(b) => {
                b.paint(frame);
            },
            None => {},
        }
        proof {
            assert(frame_view(frame@) =~= frame_view(old(frame)@) + c0.paint_calls());
        }
    }
}

} // verus!
