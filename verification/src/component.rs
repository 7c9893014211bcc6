//! The component protocol: events, the per-dispatch context, and the
//! `Component` trait with its `Child` wrapper.
//!
//! Every component is a deterministic state machine. The trait exposes that
//! machine as spec functions — `next`, `message`, `requests_paint`,
//! `paint_calls`, `painted` — and the executable `event` and `paint` methods
//! promise to follow them exactly. A component produces at most one message
//! per dispatch, and dispatch runs synchronously to completion.

use vstd::prelude::*;

use crate::display::{frame_view, DrawCall, DrawCallV};
use crate::geometry::Point;
use crate::trace::{Trace, TraceToken};

verus! {

/// Opaque identifier of a pending one-shot timer.
#[derive(Clone, Copy, PartialEq, Eq, Structural, Debug)]
pub struct TimerToken {
    pub raw: u64,
}

impl TimerToken {
    pub fn from_raw(raw: u64) -> (t: TimerToken)
        ensures
            t == (TimerToken { raw }),
    {
        TimerToken { raw }
    }

    pub fn into_raw(self) -> (r: u64)
        ensures
            r == self.raw,
    {
        self.raw
    }
}

/// A timer registration: the token handed back to the component and the
/// requested duration in milliseconds.
#[derive(Clone, Copy, PartialEq, Eq, Structural, Debug)]
pub struct TimerRequest {
    pub token: TimerToken,
    pub duration_ms: u32,
}

/// An input event dispatched into the component tree.
#[derive(Clone, Copy, PartialEq, Eq, Structural, Debug)]
pub enum Event {
    TouchStart(Point),
    TouchMove(Point),
    TouchEnd(Point),
    Timer(TimerToken),
}

/// A message type for components that never emit one. It has no public
/// constructor, and every contract that mentions it promises `None`.
pub struct Never {
    unreachable: (),
}

/// Per-dispatch mutable context: a repaint flag that is only ever set during
/// a pass, and a FIFO queue of timer registrations drained by the host
/// adapter after the pass.
pub struct EventCtx {
    pub paint_requested: bool,
    pub timers: Vec<TimerRequest>,
    pub next_token: u64,
}

impl EventCtx {
    pub fn new() -> (ctx: EventCtx)
        ensures
            !ctx.paint_requested,
            ctx.timers@ == Seq::<TimerRequest>::empty(),
            ctx.next_token == 0,
    {
        EventCtx { paint_requested: false, timers: Vec::new(), next_token: 0 }
    }

    /// Mark the pass as needing a repaint; idempotent.
    pub fn request_paint(&mut self)
        ensures
            final(self).paint_requested,
            final(self).timers == old(self).timers,
            final(self).next_token == old(self).next_token,
    {
        self.paint_requested = true;
    }

    /// Reset the repaint flag; called by the host adapter after a pass.
    pub fn clear_paint_requests(&mut self)
        ensures
            !final(self).paint_requested,
            final(self).timers == old(self).timers,
            final(self).next_token == old(self).next_token,
    {
        self.paint_requested = false;
    }

    pub fn paint_requested(&self) -> (b: bool)
        ensures
            b == self.paint_requested,
    {
        self.paint_requested
    }

    /// Allocate a fresh token from the monotone counter and enqueue the
    /// registration.
    pub fn request_timer(&mut self, duration_ms: u32) -> (t: TimerToken)
        requires
            old(self).next_token < u64::MAX,
        ensures
            t == (TimerToken { raw: old(self).next_token }),
            final(self).timers@ == old(self).timers@.push(TimerRequest { token: t, duration_ms }),
            final(self).next_token == old(self).next_token + 1,
            final(self).paint_requested == old(self).paint_requested,
    {
        let token = TimerToken { raw: self.next_token };
        self.next_token = self.next_token + 1;
        self.timers.push(TimerRequest { token, duration_ms });
        token
    }

    /// Remove and return the oldest pending timer registration.
    pub fn pop_timer(&mut self) -> (r: Option<TimerRequest>)
        ensures
            match r {
                Some(req) => old(self).timers@.len() > 0 && req == old(self).timers@[0]
                    && final(self).timers@ == old(self).timers@.subrange(
                    1,
                    old(self).timers@.len() as int,
                ),
                None => old(self).timers@.len() == 0 && final(self).timers == old(self).timers,
            },
            final(self).paint_requested == old(self).paint_requested,
            final(self).next_token == old(self).next_token,
    {
        if self.timers.len() == 0 {
            None
        } else {
            let req = self.timers.remove(0);
            Some(req)
        }
    }
}

/// A widget in the component tree.
///
/// The spec functions are the component's state machine; `event` and `paint`
/// follow them exactly. `event` raises the repaint flag exactly when
/// `requests_paint` says so, and may append timer registrations to the
/// context's FIFO queue but never removes or reorders one; `paint` appends
/// exactly `paint_calls` to the frame.
pub trait Component: Sized {
    type Msg;

    /// Well-formedness of the component's state.
    spec fn wf(self) -> bool;

    /// The state after handling `event`.
    spec fn next(self, event: Event) -> Self;

    /// The message — at most one — emitted while handling `event`.
    spec fn message(self, event: Event) -> Option<Self::Msg>;

    /// Whether handling `event` requests a repaint.
    spec fn requests_paint(self, event: Event) -> bool;

    /// The draw calls one paint pass emits.
    spec fn paint_calls(self) -> Seq<DrawCallV>;

    /// The state after one paint pass.
    spec fn painted(self) -> Self;

    fn event(&mut self, ctx: &mut EventCtx, event: Event) -> (msg: Option<Self::Msg>)
        requires
            old(self).wf(),
        ensures
            final(self).wf(),
            *final(self) == old(self).next(event),
            msg == old(self).message(event),
            final(ctx).paint_requested == (old(ctx).paint_requested || old(self).requests_paint(
                event,
            )),
            old(ctx).timers@.is_prefix_of(final(ctx).timers@),
            old(ctx).next_token <= final(ctx).next_token,
    ;

    fn paint(&mut self, frame: &mut Vec<DrawCall>)
        requires
            old(self).wf(),
        ensures
            final(self).wf(),
            *final(self) == old(self).painted(),
            frame_view(final(frame)@) == frame_view(old(frame)@) + old(self).paint_calls(),
    ;
}

/// Wraps a child component and remembers whether it asked for a repaint, so
/// a paint pass can skip children that are not dirty.
pub struct Child<T> {
    pub component: T,
    pub marked_for_paint: bool,
}

impl<T: Component> Child<T> {
    /// A fresh child is marked, so the first paint pass draws it.
    pub fn new(component: T) -> (c: Child<T>)
        ensures
            c == (Child { component, marked_for_paint: true }),
    {
        Child { component, marked_for_paint: true }
    }

    pub fn inner(&self) -> (r: &T)
        ensures
            r == &self.component,
    {
        &self.component
    }
}

impl<T: Component> Component for Child<T> {
    type Msg = T::Msg;

    open spec fn wf(self) -> bool {
        self.component.wf()
    }

    open spec fn next(self, event: Event) -> Self {
        Child {
            component: self.component.next(event),
            marked_for_paint: self.marked_for_paint || self.component.requests_paint(event),
        }
    }

    open spec fn message(self, event: Event) -> Option<T::Msg> {
        self.component.message(event)
    }

    open spec fn requests_paint(self, event: Event) -> bool {
        self.component.requests_paint(event)
    }

    open spec fn paint_calls(self) -> Seq<DrawCallV> {
        if self.marked_for_paint {
            self.component.paint_calls()
        } else {
            Seq::empty()
        }
    }

    open spec fn painted(self) -> Self {
        if self.marked_for_paint {
            Child { component: self.component.painted(), marked_for_paint: false }
        } else {
            self
        }
    }

    /// Dispatch to the wrapped component with a clean repaint flag, so a
    /// request made by this child marks exactly this child.
    fn event(&mut self, ctx: &mut EventCtx, event: Event) -> (msg: Option<T::Msg>) {
        let had = ctx.paint_requested();
        ctx.clear_paint_requests();
        let msg = self.component.event(ctx, event);
        if ctx.paint_requested() {
            self.marked_for_paint = true;
        }
        if had {
            ctx.request_paint();
        }
        msg
    }

    fn paint(&mut self, frame: &mut Vec<DrawCall>) {
        if self.marked_for_paint {
            self.marked_for_paint = false;
            self.component.paint(frame);
        } else {
            proof {
                assert(frame_view(frame@) =~= frame_view(frame@) + Seq::<DrawCallV>::empty());
            }
        }
    }
}

/// A child traces as its wrapped component.
impl<T: Trace> Trace for Child<T> {
    open spec fn trace_tokens(self) -> Seq<TraceToken> {
        self.component.trace_tokens()
    }

    fn trace(&self, t: &mut crate::trace::TraceRecorder) {
        self.component.trace(t);
    }
}

} // verus!
