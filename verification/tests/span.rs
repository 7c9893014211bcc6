use embed_ui::text::{LineBreaking, Span};
use embed_ui::theme;

// In the fixed-width font model a regular glyph is 7 pixels wide and a bold
// glyph (the hyphen font) is 8 pixels wide; a line advances 26 pixels.

#[test]
fn whole_text_fits_without_break() {
    let s = Span::fit_horizontally(
        b"abc",
        100,
        theme::font_normal(),
        theme::font_bold(),
        LineBreaking::BreakAtWhitespace,
    );
    assert_eq!(s.length, 3);
    assert_eq!(s.skip_next_chars, 0);
    assert_eq!(s.advance.x, 21);
    assert_eq!(s.advance.y, 0);
    assert!(!s.insert_hyphen_before_line_break);
}

#[test]
fn breaks_at_last_whitespace_before_overflow() {
    // "a bb" is exactly 4 glyphs = 28 px; the next word no longer fits, so
    // the span ends at the second space, which is discarded.
    let s = Span::fit_horizontally(
        b"a bb ccc",
        28,
        theme::font_normal(),
        theme::font_bold(),
        LineBreaking::BreakAtWhitespace,
    );
    assert_eq!(s.length, 4);
    assert_eq!(s.skip_next_chars, 1);
    assert_eq!(s.advance.x, 28);
    assert_eq!(s.advance.y, 26);
    assert!(!s.insert_hyphen_before_line_break);
}

#[test]
fn narrow_line_breaks_after_first_word() {
    // Only "a" fits: the span covers one glyph and discards the following
    // space.
    let s = Span::fit_horizontally(
        b"a bb ccc",
        7,
        theme::font_normal(),
        theme::font_bold(),
        LineBreaking::BreakAtWhitespace,
    );
    assert_eq!(s.length, 1);
    assert_eq!(s.skip_next_chars, 1);
    assert_eq!(s.advance.x, 7);
    assert_eq!(s.advance.y, 26);
    assert!(!s.insert_hyphen_before_line_break);
}

#[test]
fn line_feed_forces_hard_break() {
    let s = Span::fit_horizontally(
        b"ab\ncd",
        1000,
        theme::font_normal(),
        theme::font_bold(),
        LineBreaking::BreakAtWhitespace,
    );
    assert_eq!(s.length, 2);
    assert_eq!(s.skip_next_chars, 1);
    assert_eq!(s.advance.x, 14);
    assert_eq!(s.advance.y, 26);
    assert!(!s.insert_hyphen_before_line_break);
}

#[test]
fn carriage_return_advances_half_a_line() {
    let s = Span::fit_horizontally(
        b"ab\rcd",
        1000,
        theme::font_normal(),
        theme::font_bold(),
        LineBreaking::BreakAtWhitespace,
    );
    assert_eq!(s.length, 2);
    assert_eq!(s.skip_next_chars, 1);
    assert_eq!(s.advance.y, 13);
}

#[test]
fn word_split_inserts_hyphen() {
    // 28 px hold three glyphs plus the 8 px hyphen (3 * 7 + 8 = 29 > 28, so
    // only two glyphs leave room for the hyphen: 2 * 7 + 8 = 22 <= 28).
    let s = Span::fit_horizontally(
        b"abcdefgh",
        28,
        theme::font_normal(),
        theme::font_bold(),
        LineBreaking::BreakWordsAndInsertHyphen,
    );
    assert_eq!(s.length, 2);
    assert_eq!(s.skip_next_chars, 0);
    assert_eq!(s.advance.x, 14);
    assert_eq!(s.advance.y, 26);
    assert!(s.insert_hyphen_before_line_break);
}

#[test]
fn whitespace_policy_still_splits_word_before_any_whitespace() {
    // No whitespace seen yet on the line, so even BreakAtWhitespace splits
    // the word rather than give up.
    let s = Span::fit_horizontally(
        b"abcdefgh",
        28,
        theme::font_normal(),
        theme::font_bold(),
        LineBreaking::BreakAtWhitespace,
    );
    assert_eq!(s.length, 2);
    assert!(s.insert_hyphen_before_line_break);
}

#[test]
fn whitespace_candidate_overrides_earlier_hyphen_candidate() {
    // Once a space is seen, BreakAtWhitespace never splits the following
    // word: the break falls back to the space.
    let s = Span::fit_horizontally(
        b"ab cdefgh",
        35,
        theme::font_normal(),
        theme::font_bold(),
        LineBreaking::BreakAtWhitespace,
    );
    assert_eq!(s.length, 2);
    assert_eq!(s.skip_next_chars, 1);
    assert!(!s.insert_hyphen_before_line_break);
}

#[test]
fn nothing_fits_yields_empty_forced_break() {
    // A glyph fits but a glyph plus hyphen does not, and there is no
    // whitespace: the engine reports the zero-length forced break that
    // callers must treat as "no progress possible on this line".
    let s = Span::fit_horizontally(
        b"ab",
        7,
        theme::font_normal(),
        theme::font_bold(),
        LineBreaking::BreakAtWhitespace,
    );
    assert_eq!(s.length, 0);
    assert_eq!(s.skip_next_chars, 0);
    assert_eq!(s.advance.x, 0);
    assert_eq!(s.advance.y, 26);
    assert!(!s.insert_hyphen_before_line_break);
}

#[test]
fn progress_when_first_character_fits_with_hyphen() {
    // The span-progress law on concrete values: room for one glyph plus a
    // hyphen guarantees the engine consumes at least one byte.
    let s = Span::fit_horizontally(
        b"abc",
        15,
        theme::font_normal(),
        theme::font_bold(),
        LineBreaking::BreakAtWhitespace,
    );
    assert!(s.length > 0 || s.skip_next_chars > 0);
    assert_eq!(s.length, 1);
    assert_eq!(s.advance.x, 7);
    assert!(s.insert_hyphen_before_line_break);
}

#[test]
fn progress_when_text_starts_with_whitespace() {
    let s = Span::fit_horizontally(
        b" ab",
        7,
        theme::font_normal(),
        theme::font_bold(),
        LineBreaking::BreakAtWhitespace,
    );
    assert!(s.length > 0 || s.skip_next_chars > 0);
    assert_eq!(s.length, 0);
    assert_eq!(s.skip_next_chars, 1);
}
