use embed_ui::button::{Button, State};
use embed_ui::dialog::Dialog;
use embed_ui::display;
use embed_ui::component::{Component, Event, EventCtx, TimerToken};
use embed_ui::display::DrawCall;
use embed_ui::error::Error;
use embed_ui::geometry::{Grid, Offset, Point, Rect};
use embed_ui::layout::LayoutObj;
use embed_ui::text::Text;
use embed_ui::theme;
use embed_ui::trace::{Trace, TraceEntry, TraceRecorder};

#[test]
fn event_ctx_paint_flag_is_monotone_and_idempotent() {
    let mut ctx = EventCtx::new();
    assert!(!ctx.paint_requested());
    ctx.request_paint();
    assert!(ctx.paint_requested());
    ctx.request_paint();
    assert!(ctx.paint_requested());
    ctx.clear_paint_requests();
    assert!(!ctx.paint_requested());
}

#[test]
fn timer_tokens_are_allocated_in_order_and_drained_fifo() {
    let mut ctx = EventCtx::new();
    let t0 = ctx.request_timer(100);
    let t1 = ctx.request_timer(250);
    let t2 = ctx.request_timer(7);
    assert_eq!(t0.into_raw(), 0);
    assert_eq!(t1.into_raw(), 1);
    assert_eq!(t2.into_raw(), 2);

    let r0 = ctx.pop_timer().unwrap();
    assert_eq!((r0.token, r0.duration_ms), (t0, 100));
    let r1 = ctx.pop_timer().unwrap();
    assert_eq!((r1.token, r1.duration_ms), (t1, 250));
    let r2 = ctx.pop_timer().unwrap();
    assert_eq!((r2.token, r2.duration_ms), (t2, 7));
    assert!(ctx.pop_timer().is_none());
}

#[test]
fn timer_token_round_trips_through_raw() {
    let t = TimerToken::from_raw(42);
    assert_eq!(t.into_raw(), 42);
}

fn demo_button() -> Button {
    Button::with_text(
        Rect { x0: 0, y0: 0, x1: 10, y1: 10 },
        b"Ok".to_vec(),
        theme::button_default(),
    )
}

#[test]
fn layout_obj_runs_event_and_paint_passes() {
    let mut obj = LayoutObj::new(demo_button());
    // The fresh tree is marked: the first paint pass draws it.
    let mut frame: Vec<DrawCall> = Vec::new();
    obj.obj_paint_if_requested(&mut frame);
    assert_eq!(frame.len(), 2);

    // A press changes state, marks the child, and drains no timers.
    let (msg, timers) = obj.obj_event(Event::TouchStart(Point { x: 3, y: 3 }));
    assert!(msg.is_none());
    assert!(timers.is_empty());
    assert_eq!(obj.root.component.state, State::Pressed);
    assert!(obj.root.marked_for_paint);

    let mut frame2: Vec<DrawCall> = Vec::new();
    obj.obj_paint_if_requested(&mut frame2);
    assert_eq!(frame2.len(), 2);

    // Once painted, a pass with no dirty child draws nothing.
    let mut frame3: Vec<DrawCall> = Vec::new();
    obj.obj_paint_if_requested(&mut frame3);
    assert!(frame3.is_empty());
}

#[test]
fn trace_records_the_component_tree() {
    let d: Dialog<Text> = Dialog::new(
        Rect { x0: 0, y0: 0, x1: 100, y1: 100 },
        |area| Text::new(area).format(b"hi"),
        Some(|area| Button::with_text(area, b"Left".to_vec(), theme::button_default())),
        Some(|area| Button::with_text(area, b"Right".to_vec(), theme::button_default())),
        None,
    );
    let obj = LayoutObj::new(d);
    let mut rec = TraceRecorder::new();
    obj.obj_trace(&mut rec);

    let expect_str = |e: &TraceEntry, want: &str| match e {
        TraceEntry::Open(s) | TraceEntry::Field(s) | TraceEntry::Tag(s) | TraceEntry::Str(s) => {
            assert_eq!(s, want)
        }
        _ => panic!("expected a named trace entry"),
    };
    // <Dialog content:<Text...> left:<Button Left> right:<Button Right>>
    assert!(matches!(&rec.entries[0], TraceEntry::Open(_)));
    expect_str(&rec.entries[0], "Dialog");
    expect_str(&rec.entries[1], "content");
    assert!(matches!(&rec.entries[2], TraceEntry::Open(s) if s == "Text"));
    assert!(matches!(&rec.entries[4], TraceEntry::Bytes(b) if b == &b"hi".to_vec()));
    assert!(matches!(&rec.entries[5], TraceEntry::Close));
    let left_ix = rec
        .entries
        .iter()
        .position(|e| matches!(e, TraceEntry::Field(s) if s == "left"))
        .unwrap();
    assert!(matches!(&rec.entries[left_ix + 1], TraceEntry::Open(s) if s == "Button"));
    assert!(matches!(&rec.entries[left_ix + 2], TraceEntry::Field(s) if s == "text"));
    assert!(matches!(&rec.entries[left_ix + 3], TraceEntry::Bytes(b) if b == &b"Left".to_vec()));
    assert!(matches!(&rec.entries[left_ix + 4], TraceEntry::Close));
    assert!(matches!(rec.entries.last(), Some(TraceEntry::Close)));
}

#[test]
fn button_trace_tags_images() {
    let b = Button::with_image(
        Rect { x0: 0, y0: 0, x1: 10, y1: 10 },
        vec![1, 2, 3],
        theme::button_default(),
    );
    let mut rec = TraceRecorder::new();
    b.trace(&mut rec);
    assert!(matches!(&rec.entries[0], TraceEntry::Open(s) if s == "Button"));
    assert!(matches!(&rec.entries[1], TraceEntry::Tag(s) if s == "image"));
    assert!(matches!(&rec.entries[2], TraceEntry::Close));
}

#[test]
fn error_messages_name_each_variant() {
    assert_eq!(Error::Missing.message(), "Missing");
    assert_eq!(Error::OutOfRange.message(), "OutOfRange");
    assert_eq!(Error::InvalidType.message(), "InvalidType");
    assert_eq!(Error::NotBuffer.message(), "NotBuffer");
    assert_eq!(Error::NotInt.message(), "NotInt");
    assert_eq!(Error::InvalidOperation.message(), "InvalidOperation");
}

#[test]
fn display_metrics_follow_the_fixed_width_model() {
    assert_eq!(display::width(), 240);
    assert_eq!(display::height(), 240);
    assert_eq!(display::text_height(), 16);
    assert_eq!(display::line_height(), 26);
    assert_eq!(display::text_width(b"abc", theme::font_normal()), 21);
    assert_eq!(display::text_width(b"abc", theme::font_bold()), 24);
    assert_eq!(theme::font_mono().text_width(b"abcd"), 28);
    assert_eq!(display::screen(), Rect { x0: 0, y0: 0, x1: 240, y1: 240 });
}

#[test]
fn geometry_splits_and_grid_cells() {
    let r = Rect { x0: 0, y0: 0, x1: 100, y1: 50 };
    assert_eq!(r.width(), 100);
    assert_eq!(r.height(), 50);
    let (top, bottom) = r.hsplit(-11);
    assert_eq!(top, Rect { x0: 0, y0: 0, x1: 100, y1: 39 });
    assert_eq!(bottom, Rect { x0: 0, y0: 39, x1: 100, y1: 50 });
    let (left, right) = r.vsplit(30);
    assert_eq!(left, Rect { x0: 0, y0: 0, x1: 30, y1: 50 });
    assert_eq!(right, Rect { x0: 30, y0: 0, x1: 100, y1: 50 });

    let g = Grid::new(r, 5, 2);
    assert_eq!(g.row_col(0, 0), Rect { x0: 0, y0: 0, x1: 50, y1: 10 });
    assert_eq!(g.row_col(4, 1), Rect { x0: 50, y0: 40, x1: 100, y1: 50 });

    assert!(r.contains(Point { x: 0, y: 0 }));
    assert!(!r.contains(Point { x: 100, y: 0 }));
    assert_eq!(Rect::from_top_left_and_size(Point::new(5, 6), Offset::new(10, 20)),
        Rect { x0: 5, y0: 6, x1: 15, y1: 26 });
}

#[test]
fn backlight_echoes_the_level_and_is_recorded() {
    let mut frame: Vec<DrawCall> = Vec::new();
    assert_eq!(display::backlight(&mut frame, 128), 128);
    assert!(matches!(frame[0], DrawCall::Backlight { val: 128 }));
}
