use embed_ui::button::{Button, State};
use embed_ui::display::DrawCall;
use embed_ui::component::{Component, Event, EventCtx};
use embed_ui::confirm::{Confirm, ConfirmMsg};
use embed_ui::dialog::{Dialog, DialogMsg};
use embed_ui::geometry::{Point, Rect};
use embed_ui::text::Text;
use embed_ui::theme;

fn demo_dialog() -> Dialog<Text> {
    // Area 100 x 100: the button strip is the bottom 11 rows, split at
    // x = 50 into the left and right button.
    Dialog::new(
        Rect { x0: 0, y0: 0, x1: 100, y1: 100 },
        |area| Text::new(area).format(b"hi"),
        Some(|area| Button::with_text(area, b"L".to_vec(), theme::button_default())),
        Some(|area| Button::with_text(area, b"R".to_vec(), theme::button_default())),
        None,
    )
}

#[test]
fn dialog_carves_its_area() {
    let d = demo_dialog();
    let left = d.left_btn.as_ref().unwrap();
    let right = d.right_btn.as_ref().unwrap();
    assert_eq!(left.component.area, Rect { x0: 0, y0: 89, x1: 50, y1: 100 });
    assert_eq!(right.component.area, Rect { x0: 50, y0: 89, x1: 100, y1: 100 });
    assert_eq!(d.content.component.layout.bounds, Rect { x0: 0, y0: 0, x1: 100, y1: 89 });
}

#[test]
fn click_inside_right_button_yields_right_clicked() {
    // A click that lands only inside the right button's rectangle: the
    // dialog answers RightClicked and the other children are untouched.
    let mut d = demo_dialog();
    let mut ctx = EventCtx::new();

    let msg = d.event(&mut ctx, Event::TouchStart(Point { x: 60, y: 95 }));
    assert!(msg.is_none());
    assert_eq!(d.right_btn.as_ref().unwrap().component.state, State::Pressed);
    assert_eq!(d.left_btn.as_ref().unwrap().component.state, State::Initial);

    let msg = d.event(&mut ctx, Event::TouchEnd(Point { x: 60, y: 95 }));
    assert!(matches!(msg, Some(DialogMsg::RightClicked)));
    assert_eq!(d.right_btn.as_ref().unwrap().component.state, State::Initial);
    assert_eq!(d.left_btn.as_ref().unwrap().component.state, State::Initial);
}

#[test]
fn click_inside_left_button_yields_left_clicked() {
    let mut d = demo_dialog();
    let mut ctx = EventCtx::new();
    d.event(&mut ctx, Event::TouchStart(Point { x: 10, y: 95 }));
    let msg = d.event(&mut ctx, Event::TouchEnd(Point { x: 10, y: 95 }));
    assert!(matches!(msg, Some(DialogMsg::LeftClicked)));
    assert_eq!(d.right_btn.as_ref().unwrap().component.state, State::Initial);
}

#[test]
fn click_outside_every_button_yields_nothing() {
    let mut d = demo_dialog();
    let mut ctx = EventCtx::new();
    let msg = d.event(&mut ctx, Event::TouchStart(Point { x: 10, y: 10 }));
    assert!(msg.is_none());
    let msg = d.event(&mut ctx, Event::TouchEnd(Point { x: 10, y: 10 }));
    assert!(msg.is_none());
    assert!(!ctx.paint_requested());
}

#[test]
fn pressed_button_marks_its_child_dirty() {
    let mut d = demo_dialog();
    let mut ctx = EventCtx::new();
    // Drain the construction-time marks first.
    let mut frame = Vec::new();
    d.paint(&mut frame);

    d.event(&mut ctx, Event::TouchStart(Point { x: 60, y: 95 }));
    assert!(ctx.paint_requested());
    assert!(d.right_btn.as_ref().unwrap().marked_for_paint);
    assert!(!d.left_btn.as_ref().unwrap().marked_for_paint);
    assert!(!d.content.marked_for_paint);
}

#[test]
fn paint_skips_children_that_are_not_dirty() {
    let mut d = demo_dialog();
    let mut frame = Vec::new();
    d.paint(&mut frame);
    let first_pass = frame.len();
    assert!(first_pass > 0);

    // Nothing is dirty any more: a second pass draws nothing.
    let mut frame2 = Vec::new();
    d.paint(&mut frame2);
    assert!(frame2.is_empty());

    // Press the right button: only that child repaints.
    let mut ctx = EventCtx::new();
    d.event(&mut ctx, Event::TouchStart(Point { x: 60, y: 95 }));
    let mut frame3 = Vec::new();
    d.paint(&mut frame3);
    assert_eq!(frame3.len(), 2);
}

#[test]
fn dialog_with_header_draws_caption_and_separator() {
    let mut d: Dialog<Text> = Dialog::new(
        Rect { x0: 0, y0: 0, x1: 100, y1: 100 },
        |area| Text::new(area).format(b""),
        None::<fn(Rect) -> Button>,
        None::<fn(Rect) -> Button>,
        Some(b"Title".to_vec()),
    );
    assert_eq!(d.content.component.layout.bounds, Rect { x0: 0, y0: 13, x1: 100, y1: 89 });
    let mut frame = Vec::new();
    d.paint(&mut frame);
    // The header occupies the top 13 rows of the dialog's own rectangle:
    // caption baseline just above the one-pixel separator on row 12.
    match &frame[0] {
        DrawCall::Glyphs { x, y, text, .. } => {
            assert_eq!((*x, *y), (0, 11));
            assert_eq!(text, &b"Title".to_vec());
        }
        _ => panic!("expected the header caption first"),
    }
    assert!(matches!(frame[1], DrawCall::Bar { x: 0, y: 12, w: 100, h: 1, .. }));
}

#[test]
fn confirm_dispatches_like_a_dialog() {
    let mut c: Confirm<Text> = Confirm::new(
        Rect { x0: 0, y0: 0, x1: 100, y1: 100 },
        |area| Text::new(area).format(b"body"),
        |area| Button::with_text(area, b"No".to_vec(), theme::button_default()),
        |area| Button::with_text(area, b"Yes".to_vec(), theme::button_default()),
    );
    // The buttons sit on the bottom row of a 5 x 2 grid: cells are
    // 50 x 20, so the right button covers (50,80)..(100,100).
    let right_area = c.right_btn.as_ref().unwrap().component.area;
    assert_eq!(right_area, Rect { x0: 50, y0: 80, x1: 100, y1: 100 });

    let mut ctx = EventCtx::new();
    c.event(&mut ctx, Event::TouchStart(Point { x: 60, y: 90 }));
    let msg = c.event(&mut ctx, Event::TouchEnd(Point { x: 60, y: 90 }));
    assert!(matches!(msg, Some(ConfirmMsg::RightClicked)));
    assert_eq!(c.left_btn.as_ref().unwrap().component.state, State::Initial);
}

#[test]
fn confirm_left_button_answers_left_clicked() {
    let mut c: Confirm<Text> = Confirm::new(
        Rect { x0: 0, y0: 0, x1: 100, y1: 100 },
        |area| Text::new(area).format(b"body"),
        |area| Button::with_text(area, b"No".to_vec(), theme::button_default()),
        |area| Button::with_text(area, b"Yes".to_vec(), theme::button_default()),
    );
    let mut ctx = EventCtx::new();
    c.event(&mut ctx, Event::TouchStart(Point { x: 10, y: 90 }));
    let msg = c.event(&mut ctx, Event::TouchEnd(Point { x: 10, y: 90 }));
    assert!(matches!(msg, Some(ConfirmMsg::LeftClicked)));
}
