use embed_ui::component::{Component, Event, EventCtx};
use embed_ui::display::{Color, DrawCall, Font};
use embed_ui::geometry::{Point, Rect};
use embed_ui::text::Text;
use embed_ui::text::{
    args_insert, args_new, LayoutResult, LayoutSink, LineBreaking, Op, PageBreaking, TextLayout,
    TextNoop, TextRenderer, Tokenizer, TraceEvent,
};

fn layout_over(bounds: Rect) -> TextLayout {
    TextLayout::new(bounds)
}

fn run(
    layout: TextLayout,
    format: &[u8],
    args: &heapless::LinearMap<Vec<u8>, Vec<u8>, 6>,
) -> (Vec<TraceEvent>, LayoutResult, Point) {
    let ops = Tokenizer::new(format).into_ops(args);
    let mut cursor = Point::new(layout.bounds.x0, layout.bounds.y0 + 26);
    let mut renderer = TextRenderer::new();
    let result = layout.layout_op_stream(&ops, &mut cursor, &mut renderer);
    (renderer.events, result, cursor)
}

fn texts_of(events: &[TraceEvent]) -> Vec<u8> {
    let mut out = Vec::new();
    for ev in events {
        if let TraceEvent::Text { bytes, .. } = ev {
            out.extend_from_slice(bytes);
        }
    }
    out
}

fn count_hyphens(events: &[TraceEvent]) -> usize {
    events.iter().filter(|e| matches!(e, TraceEvent::Hyphen { .. })).count()
}

fn count_ellipses(events: &[TraceEvent]) -> usize {
    events.iter().filter(|e| matches!(e, TraceEvent::Ellipsis { .. })).count()
}

#[test]
fn hello_world_renders_unbroken() {
    // Template with one placeholder over unconstrained width: the rendered
    // text is the full substitution, with no hyphen, ellipsis or line break.
    let mut args = args_new();
    assert!(args_insert(&mut args, b"name".to_vec(), b"World".to_vec()));
    let layout = layout_over(Rect { x0: 0, y0: 0, x1: 10000, y1: 10000 });
    let (events, result, cursor) = run(layout, b"Hello {name}!", &args);
    assert!(matches!(result, LayoutResult::Fitting));
    assert_eq!(texts_of(&events), b"Hello World!".to_vec());
    assert_eq!(count_hyphens(&events), 0);
    assert_eq!(count_ellipses(&events), 0);
    assert!(!events.iter().any(|e| matches!(e, TraceEvent::OutOfBounds)));
    // No line break: the cursor stayed on the first baseline.
    assert_eq!(cursor.y, 26);
    assert_eq!(cursor.x, 12 * 7);
}

#[test]
fn breaks_at_whitespace_and_never_splits_last_word() {
    // 28 px per line fit "a bb" exactly; "ccc" moves to the next line whole.
    let args = args_new();
    let layout = layout_over(Rect { x0: 0, y0: 0, x1: 28, y1: 1000 });
    let (events, result, _) = run(layout, b"a bb ccc", &args);
    assert!(matches!(result, LayoutResult::Fitting));
    let texts: Vec<&[u8]> = events
        .iter()
        .filter_map(|e| match e {
            TraceEvent::Text { bytes, .. } => Some(bytes.as_slice()),
            _ => None,
        })
        .collect();
    assert_eq!(texts, vec![b"a bb".as_slice(), b"ccc".as_slice()]);
    assert_eq!(count_hyphens(&events), 0);
}

#[test]
fn ellipsis_then_out_of_bounds_when_page_is_cut() {
    // Bounds allow exactly one line, the text needs two: the sink sees an
    // ellipsis followed by the out-of-bounds report, and the layout driver
    // answers OutOfBounds.
    let args = args_new();
    let layout = layout_over(Rect { x0: 0, y0: 0, x1: 70, y1: 40 });
    assert!(matches!(layout.page_breaking, PageBreaking::CutAndInsertEllipsis));
    let (events, result, _) = run(layout, b"aaaa bbbb cccc", &args);
    assert!(matches!(result, LayoutResult::OutOfBounds));
    assert_eq!(events.len(), 3);
    assert!(matches!(events[0], TraceEvent::Text { .. }));
    assert!(matches!(events[1], TraceEvent::Ellipsis { .. }));
    assert!(matches!(events[2], TraceEvent::OutOfBounds));
}

#[test]
fn cut_policy_omits_the_ellipsis() {
    let args = args_new();
    let mut layout = layout_over(Rect { x0: 0, y0: 0, x1: 70, y1: 40 });
    layout.page_breaking = PageBreaking::Cut;
    let (events, result, _) = run(layout, b"aaaa bbbb cccc", &args);
    assert!(matches!(result, LayoutResult::OutOfBounds));
    assert_eq!(count_ellipses(&events), 0);
    assert!(matches!(events.last(), Some(TraceEvent::OutOfBounds)));
}

#[test]
fn hyphen_and_ellipsis_never_mark_the_same_break() {
    // A word split flags a hyphen for the final, page-cutting break: the
    // ellipsis is suppressed even under CutAndInsertEllipsis.
    let args = args_new();
    let mut layout = layout_over(Rect { x0: 0, y0: 0, x1: 70, y1: 40 });
    layout.line_breaking = LineBreaking::BreakWordsAndInsertHyphen;
    let (events, result, _) = run(layout, b"aaaaaaaaaaaaaaaaaaaa", &args);
    assert!(matches!(result, LayoutResult::OutOfBounds));
    assert_eq!(count_hyphens(&events), 1);
    assert_eq!(count_ellipses(&events), 0);
    // And in general: no ellipsis directly after a hyphen.
    for pair in events.windows(2) {
        assert!(
            !(matches!(pair[0], TraceEvent::Hyphen { .. })
                && matches!(pair[1], TraceEvent::Ellipsis { .. }))
        );
    }
}

#[test]
fn cursor_y_is_monotone_and_increases_once_per_break() {
    // Three lines: the baseline ordinates of the text events never
    // decrease, and each line break raises them exactly once.
    let args = args_new();
    let layout = layout_over(Rect { x0: 0, y0: 0, x1: 28, y1: 1000 });
    let (events, result, cursor) = run(layout, b"aa bb cc", &args);
    assert!(matches!(result, LayoutResult::Fitting));
    let ys: Vec<i32> = events
        .iter()
        .filter_map(|e| match e {
            TraceEvent::Text { y, .. } => Some(*y),
            _ => None,
        })
        .collect();
    assert_eq!(ys, vec![26, 52, 78]);
    for pair in ys.windows(2) {
        assert!(pair[0] <= pair[1]);
    }
    assert_eq!(cursor.y, 78);
}

#[test]
fn color_and_font_ops_change_the_transient_style() {
    let layout = layout_over(Rect { x0: 0, y0: 0, x1: 1000, y1: 1000 });
    let ops = vec![
        Op::Color(Color::new(0x1234)),
        Op::Font(Font::new(3)),
        Op::Text(b"z".to_vec()),
    ];
    let mut cursor = Point::new(0, 26);
    let mut renderer = TextRenderer::new();
    let result = layout.layout_op_stream(&ops, &mut cursor, &mut renderer);
    assert!(matches!(result, LayoutResult::Fitting));
    assert_eq!(renderer.events.len(), 1);
    match &renderer.events[0] {
        TraceEvent::Text { layout: l, bytes, .. } => {
            assert_eq!(l.text_color, Color::new(0x1234));
            assert_eq!(l.text_font, Font::new(3));
            assert_eq!(bytes, &b"z".to_vec());
        }
        other => panic!("unexpected event {:?}", std::mem::discriminant(other)),
    }
}

#[test]
fn noop_sink_measures_without_recording() {
    let layout = layout_over(Rect { x0: 0, y0: 0, x1: 28, y1: 1000 });
    let ops = vec![Op::Text(b"a bb ccc".to_vec())];
    let mut cursor = Point::new(0, 26);
    let mut noop = TextNoop::new();
    let result = layout.layout_op_stream(&ops, &mut cursor, &mut noop);
    assert!(matches!(result, LayoutResult::Fitting));
    // The measurement is still observable through the cursor.
    assert_eq!(cursor.y, 52);
    assert_eq!(cursor.x, 21);
}

#[test]
fn render_formatted_draws_glyphs() {
    let mut args = args_new();
    assert!(args_insert(&mut args, b"name".to_vec(), b"World".to_vec()));
    let layout = layout_over(Rect { x0: 0, y0: 0, x1: 10000, y1: 10000 });
    let mut frame: Vec<DrawCall> = Vec::new();
    let result = layout.render_formatted(b"Hello {name}!", &args, &mut frame);
    assert!(matches!(result, LayoutResult::Fitting));
    let mut flat = Vec::new();
    for call in &frame {
        match call {
            DrawCall::Glyphs { text, .. } => flat.extend_from_slice(text),
            _ => panic!("only glyph draw calls expected"),
        }
    }
    assert_eq!(flat, b"Hello World!".to_vec());
}

#[test]
fn text_component_paints_its_resolved_template() {
    let mut t = Text::new(Rect { x0: 0, y0: 0, x1: 10000, y1: 10000 })
        .format(b"Hello {name}!")
        .with(b"name", b"World");
    let mut ctx = EventCtx::new();
    // A text block ignores events and never requests a repaint.
    assert!(t.event(&mut ctx, Event::TouchStart(Point { x: 1, y: 1 })).is_none());
    assert!(!ctx.paint_requested());

    let mut frame: Vec<DrawCall> = Vec::new();
    t.paint(&mut frame);
    let mut flat = Vec::new();
    for call in &frame {
        if let DrawCall::Glyphs { text, .. } = call {
            flat.extend_from_slice(text);
        }
    }
    assert_eq!(flat, b"Hello World!".to_vec());
}

#[test]
fn text_builder_overrides_font_color_and_breaking() {
    let t = Text::new(Rect { x0: 0, y0: 0, x1: 100, y1: 100 })
        .with_text_font(Font::new(3))
        .with_text_color(Color::new(0x0F0F))
        .with_line_breaking(LineBreaking::BreakWordsAndInsertHyphen);
    assert_eq!(t.layout.text_font, Font::new(3));
    assert_eq!(t.layout.text_color, Color::new(0x0F0F));
    assert!(matches!(t.layout.line_breaking, LineBreaking::BreakWordsAndInsertHyphen));
    let mut t2 = t;
    let mut layout = t2.layout();
    layout.page_breaking = PageBreaking::Cut;
    t2.set_layout(layout);
    assert!(matches!(t2.layout.page_breaking, PageBreaking::Cut));
}
