//! The verified half of the host adapter: it owns the root of a component
//! tree, runs event and paint passes over it, and hands pending timer
//! registrations back to the caller, who schedules them and re-injects
//! `Event::Timer` when they fire.

use vstd::prelude::*;

use crate::component::{Child, Component, Event, EventCtx, TimerRequest};
use crate::display::{frame_view, DrawCall};
use crate::trace::{Trace, Tracer};

verus! {

/// A root component wrapped for the host: the component tree plus the
/// per-pass event context.
pub struct LayoutObj<T> {
    pub root: Child<T>,
    pub event_ctx: EventCtx,
}

impl<T: Component> LayoutObj<T> {
    pub open spec fn wf(self) -> bool {
        self.root.wf()
    }

    /// Wrap a root component; the fresh child is marked, so the first paint
    /// pass draws the whole tree.
    pub fn new(root: T) -> (obj: LayoutObj<T>)
        ensures
            obj.root == (Child { component: root, marked_for_paint: true }),
            !obj.event_ctx.paint_requested,
            obj.event_ctx.timers@ == Seq::<TimerRequest>::empty(),
            obj.event_ctx.next_token == 0,
    {
        LayoutObj { root: Child::new(root), event_ctx: EventCtx::new() }
    }

    /// Run one event pass over the tree. The returned message is the
    /// root's, converted by nobody; the returned list is every pending
    /// timer registration — those that were already queued followed by
    /// those the pass itself requested — drained in FIFO order for the
    /// host to schedule. The repaint flag is cleared afterwards: the
    /// `Child` wrappers have already marked themselves.
    pub fn obj_event(&mut self, event: Event) -> (r: (Option<T::Msg>, Vec<TimerRequest>))
        requires
            old(self).wf(),
        ensures
            final(self).wf(),
            final(self).root == old(self).root.next(event),
            r.0 == old(self).root.message(event),
            old(self).event_ctx.timers@.is_prefix_of(r.1@),
            final(self).event_ctx.timers@ == Seq::<TimerRequest>::empty(),
            !final(self).event_ctx.paint_requested,
            old(self).event_ctx.next_token <= final(self).event_ctx.next_token,
    {
        let msg = self.root.event(&mut self.event_ctx, event);
        self.event_ctx.clear_paint_requests();

        // Drain every pending timer into the caller's hands.
        let ghost queue0 = self.event_ctx.timers@;
        let mut drained: Vec<TimerRequest> = Vec::new();
        loop
            invariant
                self.root == old(self).root.next(event),
                self.root.wf(),
                old(self).event_ctx.timers@.is_prefix_of(queue0),
                queue0 == drained@ + self.event_ctx.timers@,
                self.event_ctx.paint_requested == false,
                old(self).event_ctx.next_token <= self.event_ctx.next_token,
            ensures
                drained@ == queue0,
                old(self).event_ctx.timers@.is_prefix_of(queue0),
                self.event_ctx.timers@ == Seq::<TimerRequest>::empty(),
                self.event_ctx.paint_requested == false,
                old(self).event_ctx.next_token <= self.event_ctx.next_token,
            decreases self.event_ctx.timers@.len(),
        {
            match self.event_ctx.pop_timer() {
                Some(req) => {
                    drained.push(req);
                    proof {
                        assert(drained@ + self.event_ctx.timers@ =~= queue0);
                    }
                },
                None => {
                    proof {
                        assert(drained@ =~= queue0);
                    }
                    break ;
                },
            }
        }
        (msg, drained)
    }

    /// Run one paint pass: components marked dirty append their draw calls
    /// to `frame` and are unmarked.
    pub fn obj_paint_if_requested(&mut self, frame: &mut Vec<DrawCall>)
        requires
            old(self).wf(),
        ensures
            final(self).wf(),
            final(self).root == old(self).root.painted(),
            final(self).event_ctx == old(self).event_ctx,
            frame_view(final(frame)@) == frame_view(old(frame)@) + old(self).root.paint_calls(),
    {
        self.root.paint(frame);
    }
}

impl<T: Component + Trace> LayoutObj<T> {
    /// Run one tracing pass over the tree, recording each piece of tracing
    /// information.
    pub fn obj_trace(&self, t: &mut crate::trace::TraceRecorder)
        ensures
            final(t).log() == old(t).log() + self.root.trace_tokens(),
    {
        self.root.trace(t);
    }
}

} // verus!
