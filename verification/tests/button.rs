use embed_ui::button::{Button, ButtonContent, ButtonMsg, State};
use embed_ui::component::{Component, Event, EventCtx, TimerToken};
use embed_ui::display::DrawCall;
use embed_ui::geometry::{Point, Rect};
use embed_ui::theme;

fn button_at(state: State) -> Button {
    let mut b = Button::with_text(
        Rect { x0: 0, y0: 0, x1: 10, y1: 10 },
        b"Ok".to_vec(),
        theme::button_default(),
    );
    b.state = state;
    b
}

fn inside() -> Point {
    Point { x: 5, y: 5 }
}

fn outside() -> Point {
    Point { x: 50, y: 50 }
}

fn step(state: State, event: Event) -> (State, Option<ButtonMsg>, bool) {
    let mut b = button_at(state);
    let mut ctx = EventCtx::new();
    let msg = b.event(&mut ctx, event);
    (b.state, msg, ctx.paint_requested())
}

#[test]
fn fsm_touch_start() {
    // Any state but Disabled becomes Pressed when the pointer goes down
    // inside the rectangle; Disabled never reacts.
    for s in [State::Initial, State::Pressed, State::Released] {
        let (next, msg, repaint) = step(s, Event::TouchStart(inside()));
        assert_eq!(next, State::Pressed);
        assert!(msg.is_none());
        assert_eq!(repaint, s != State::Pressed);

        let (next, msg, _) = step(s, Event::TouchStart(outside()));
        assert_eq!(next, s);
        assert!(msg.is_none());
    }
    let (next, msg, repaint) = step(State::Disabled, Event::TouchStart(inside()));
    assert_eq!(next, State::Disabled);
    assert!(msg.is_none());
    assert!(!repaint);
}

#[test]
fn fsm_touch_move() {
    // Released re-enters Pressed when the pointer comes back inside;
    // Pressed falls back to Released when it leaves; everything else
    // ignores moves.
    let (next, msg, _) = step(State::Released, Event::TouchMove(inside()));
    assert_eq!(next, State::Pressed);
    assert!(msg.is_none());

    let (next, _, repaint) = step(State::Released, Event::TouchMove(outside()));
    assert_eq!(next, State::Released);
    assert!(!repaint);

    let (next, msg, _) = step(State::Pressed, Event::TouchMove(outside()));
    assert_eq!(next, State::Released);
    assert!(msg.is_none());

    let (next, _, repaint) = step(State::Pressed, Event::TouchMove(inside()));
    assert_eq!(next, State::Pressed);
    assert!(!repaint);

    for s in [State::Initial, State::Disabled] {
        let (next, msg, repaint) = step(s, Event::TouchMove(inside()));
        assert_eq!(next, s);
        assert!(msg.is_none());
        assert!(!repaint);
    }
}

#[test]
fn fsm_touch_end() {
    // Only Pressed-with-pointer-inside clicks; Pressed or Released
    // otherwise reset to Initial without a message; Initial and Disabled
    // stay put.
    let (next, msg, repaint) = step(State::Pressed, Event::TouchEnd(inside()));
    assert_eq!(next, State::Initial);
    assert_eq!(msg, Some(ButtonMsg::Clicked));
    assert!(repaint);

    let (next, msg, _) = step(State::Pressed, Event::TouchEnd(outside()));
    assert_eq!(next, State::Initial);
    assert!(msg.is_none());

    for p in [inside(), outside()] {
        let (next, msg, _) = step(State::Released, Event::TouchEnd(p));
        assert_eq!(next, State::Initial);
        assert!(msg.is_none());
    }

    for s in [State::Initial, State::Disabled] {
        let (next, msg, repaint) = step(s, Event::TouchEnd(inside()));
        assert_eq!(next, s);
        assert!(msg.is_none());
        assert!(!repaint);
    }
}

#[test]
fn fsm_ignores_timer_events() {
    for s in [State::Initial, State::Pressed, State::Released, State::Disabled] {
        let (next, msg, repaint) = step(s, Event::Timer(TimerToken::from_raw(3)));
        assert_eq!(next, s);
        assert!(msg.is_none());
        assert!(!repaint);
    }
}

#[test]
fn press_then_release_inside_clicks() {
    // A button over (0,0)..(10,10): down at (5,5) presses without a
    // message, up at (5,5) clicks and resets.
    let mut b = button_at(State::Initial);
    let mut ctx = EventCtx::new();
    let msg = b.event(&mut ctx, Event::TouchStart(Point { x: 5, y: 5 }));
    assert_eq!(b.state, State::Pressed);
    assert!(msg.is_none());
    let msg = b.event(&mut ctx, Event::TouchEnd(Point { x: 5, y: 5 }));
    assert_eq!(b.state, State::Initial);
    assert_eq!(msg, Some(ButtonMsg::Clicked));

    // And lifting far outside from Pressed resets silently.
    let mut b = button_at(State::Pressed);
    let msg = b.event(&mut ctx, Event::TouchEnd(Point { x: 50, y: 50 }));
    assert_eq!(b.state, State::Initial);
    assert!(msg.is_none());
}

#[test]
fn enable_disable_round_trip() {
    let mut b = button_at(State::Initial);
    let mut ctx = EventCtx::new();
    assert!(b.is_enabled());
    assert!(!b.is_disabled());
    b.disable(&mut ctx);
    assert!(b.is_disabled());
    assert!(ctx.paint_requested());
    ctx.clear_paint_requests();
    b.disable(&mut ctx);
    // Re-disabling an already disabled button requests no repaint.
    assert!(!ctx.paint_requested());
    b.enable(&mut ctx);
    assert!(b.is_enabled());
    assert!(ctx.paint_requested());
}

#[test]
fn content_is_kept() {
    let b = button_at(State::Initial);
    match b.content() {
        ButtonContent::Text(t) => assert_eq!(t, &b"Ok".to_vec()),
        ButtonContent::Image(_) => panic!("expected a text label"),
    }
}

#[test]
fn paint_draws_background_bar_and_label() {
    // Default style: horizontal border, so the background is a rounded bar
    // covering the button's own rectangle, and the label hugs the left edge
    // with 2 px padding, baseline on the bottom row.
    let mut b = Button::with_text(
        Rect { x0: 0, y0: 229, x1: 120, y1: 240 },
        b"Ok".to_vec(),
        theme::button_default(),
    );
    let mut frame: Vec<DrawCall> = Vec::new();
    b.paint(&mut frame);
    assert_eq!(frame.len(), 2);
    match &frame[0] {
        DrawCall::BarRadius { x, y, w, h, radius, .. } => {
            assert_eq!((*x, *y, *w, *h, *radius), (0, 229, 120, 11, 1));
        }
        _ => panic!("expected the background bar first"),
    }
    match &frame[1] {
        DrawCall::Glyphs { x, y, text, .. } => {
            assert_eq!((*x, *y), (2, 239));
            assert_eq!(text, &b"Ok".to_vec());
        }
        _ => panic!("expected the label glyphs"),
    }
}

#[test]
fn paint_right_side_button_right_aligns() {
    // A button on the right half of the screen hugs its right edge: the
    // 2-glyph label (14 px) ends 2 px before x1.
    let mut b = Button::with_text(
        Rect { x0: 130, y0: 229, x1: 240, y1: 240 },
        b"No".to_vec(),
        theme::button_default(),
    );
    let mut frame: Vec<DrawCall> = Vec::new();
    b.paint(&mut frame);
    match &frame[0] {
        DrawCall::BarRadius { x, y, w, h, .. } => assert_eq!((*x, *y, *w, *h), (130, 229, 110, 11)),
        _ => panic!("expected the background bar first"),
    }
    match &frame[1] {
        DrawCall::Glyphs { x, y, .. } => assert_eq!((*x, *y), (240 - 2 - 14, 239)),
        _ => panic!("expected the label glyphs"),
    }
}

#[test]
fn paint_without_border_draws_plain_bar() {
    let mut styles = theme::button_default();
    styles.normal.border_horiz = false;
    let mut b = Button::with_text(
        Rect { x0: 0, y0: 229, x1: 120, y1: 240 },
        b"Ok".to_vec(),
        styles,
    );
    let mut frame: Vec<DrawCall> = Vec::new();
    b.paint(&mut frame);
    // Without the horizontal border the background is a plain bar over the
    // rectangle and the label starts flush at the left edge.
    match &frame[0] {
        DrawCall::Bar { x, y, w, h, .. } => assert_eq!((*x, *y, *w, *h), (0, 229, 120, 11)),
        _ => panic!("expected a plain bar first"),
    }
    match &frame[1] {
        DrawCall::Glyphs { x, y, .. } => assert_eq!((*x, *y), (0, 239)),
        _ => panic!("expected the label glyphs"),
    }
}

#[test]
fn paint_never_draws_outside_the_rectangle() {
    // Every draw call of a paint pass stays inside the rectangle the
    // button was constructed with: bars by their rectangle, glyph runs by
    // their baseline and width (7 px per regular glyph).
    for area in [
        Rect { x0: 0, y0: 229, x1: 120, y1: 240 },
        Rect { x0: 130, y0: 229, x1: 240, y1: 240 },
        Rect { x0: 20, y0: 50, x1: 90, y1: 80 },
    ] {
        let mut b = Button::with_text(area, b"Go".to_vec(), theme::button_default());
        let mut frame: Vec<DrawCall> = Vec::new();
        b.paint(&mut frame);
        for call in &frame {
            match call {
                DrawCall::Bar { x, y, w, h, .. }
                | DrawCall::BarRadius { x, y, w, h, .. } => {
                    assert!(area.x0 <= *x && x + w <= area.x1);
                    assert!(area.y0 <= *y && y + h <= area.y1);
                }
                DrawCall::Glyphs { x, y, text, .. } => {
                    let width = 7 * text.len() as i32;
                    assert!(area.x0 <= *x && x + width <= area.x1);
                    assert!(area.y0 <= *y && *y < area.y1);
                }
                DrawCall::Backlight { .. } => panic!("paint never touches the backlight"),
            }
        }
    }
}
