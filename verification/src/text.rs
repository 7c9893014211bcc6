//! The text subsystem: template tokenizer, placeholder resolution, the
//! line-breaking engine, and the layout driver with its sinks.
//!
//! A format template is a byte string in which `{name}` marks a placeholder;
//! there is no escape for the braces. The tokenizer splits the template into
//! literal runs and placeholder names, zero-copy, as byte ranges into the
//! template. An argument map — a fixed-capacity `heapless::LinearMap` —
//! resolves each name to a substitution, and unresolved placeholders vanish
//! silently. The resolved operation stream is then flowed into a bounding
//! rectangle by the layout driver.

use vstd::prelude::*;

use crate::component::{Component, Event, EventCtx, Never};
use crate::trace::{Trace, TraceRecorder, TraceToken, Tracer};
use crate::display::{
    frame_view, glyph_advance, line_height_spec, Color, DrawCall, DrawCallV, Font, MAX_TEXT,
};
use crate::geometry::{Offset, Point, Rect};

verus! {

/// Byte value of `{`.
pub const OPEN_BRACE: u8 = 123;

/// Byte value of `}`.
pub const CLOSE_BRACE: u8 = 125;

/// Capacity of the argument map of a text component.
pub const MAX_ARGUMENTS: usize = 6;

// ---------------------------------------------------------------------------
// Tokenizer
// ---------------------------------------------------------------------------

/// One token of a format template: a byte range into the template, so the
/// template itself is never copied.
#[derive(Clone, Copy, PartialEq, Eq, Structural, Debug)]
pub enum Token {
    /// Literal text `template[start..end]`.
    Literal { start: usize, end: usize },
    /// A placeholder whose name is `template[start..end]`; the braces lie
    /// just outside the range.
    Argument { start: usize, end: usize },
}

/// The mathematical value of a token.
pub enum TokenV {
    Literal { start: int, end: int },
    Argument { start: int, end: int },
}

impl View for Token {
    type V = TokenV;

    open spec fn view(&self) -> TokenV {
        match self {
            Token::Literal { start, end } => TokenV::Literal {
                start: *start as int,
                end: *end as int,
            },
            Token::Argument { start, end } => TokenV::Argument {
                start: *start as int,
                end: *end as int,
            },
        }
    }
}

/// Index of the first occurrence of `b` at or after `from`, or the length of
/// `input` if there is none.
pub open spec fn find_byte(input: Seq<u8>, from: int, b: u8) -> int
    decreases input.len() - from,
{
    if from < 0 || from >= input.len() {
        input.len() as int
    } else if input[from] == b {
        from
    } else {
        find_byte(input, from + 1, b)
    }
}

pub proof fn lemma_find_byte(input: Seq<u8>, from: int, b: u8)
    requires
        0 <= from <= input.len(),
    ensures
        from <= find_byte(input, from, b) <= input.len(),
        find_byte(input, from, b) < input.len() ==> input[find_byte(input, from, b)] == b,
        forall|i: int| from <= i < find_byte(input, from, b) ==> input[i] != b,
    decreases input.len() - from,
{
    if from < input.len() && input[from] != b {
        lemma_find_byte(input, from + 1, b);
    }
}

/// `find_byte` is the unique index `k` such that `b` does not occur before
/// `k` and occurs at `k` unless `k` is the end.
pub proof fn lemma_find_byte_is(input: Seq<u8>, from: int, b: u8, k: int)
    requires
        0 <= from <= k <= input.len(),
        forall|i: int| from <= i < k ==> input[i] != b,
        k < input.len() ==> input[k] == b,
    ensures
        find_byte(input, from, b) == k,
    decreases k - from,
{
    if from < k {
        lemma_find_byte_is(input, from + 1, b, k);
    }
}

/// The token sequence of `input` from position `pos` on.
///
/// A `{` opens a placeholder that runs to the next `}`; if that `}` never
/// comes, the rest of the template is dropped. Any other byte opens a
/// literal run that ends just before the next `{`.
pub open spec fn tokenize_from(input: Seq<u8>, pos: int) -> Seq<TokenV>
    decreases input.len() - pos,
{
    if pos < 0 || pos >= input.len() {
        Seq::empty()
    } else if input[pos] == OPEN_BRACE {
        let close = find_byte(input, pos + 1, CLOSE_BRACE);
        proof {
            lemma_find_byte(input, pos + 1, CLOSE_BRACE);
        }
        if close >= input.len() {
            Seq::empty()
        } else {
            seq![TokenV::Argument { start: pos + 1, end: close }] + tokenize_from(input, close + 1)
        }
    } else {
        let open = find_byte(input, pos + 1, OPEN_BRACE);
        proof {
            lemma_find_byte(input, pos + 1, OPEN_BRACE);
        }
        seq![TokenV::Literal { start: pos, end: open }] + tokenize_from(input, open)
    }
}

/// Scans a format template into `Token`s, left to right, one `next` call per
/// token.
pub struct Tokenizer {
    pub input: Vec<u8>,
    pub pos: usize,
}

impl Tokenizer {
    pub fn new(format: &[u8]) -> (t: Tokenizer)
        ensures
            t.input@ == format@,
            t.pos == 0,
    {
        Tokenizer { input: vstd::slice::slice_to_vec(format), pos: 0 }
    }

    /// The next token, advancing past it; `None` once the template is
    /// exhausted or an unterminated `{` drops the remainder.
    pub fn next(&mut self) -> (r: Option<Token>)
        ensures
            final(self).input == old(self).input,
            final(self).pos <= final(self).input@.len(),
            match r {
                Some(tok) => {
                    &&& old(self).pos < final(self).pos
                    &&& tokenize_from(old(self).input@, old(self).pos as int) == seq![tok@]
                        + tokenize_from(final(self).input@, final(self).pos as int)
                    &&& (tok matches Token::Literal { start, end } ==> start <= end
                        <= final(self).input@.len())
                    &&& (tok matches Token::Argument { start, end } ==> start <= end
                        <= final(self).input@.len())
                },
                None => {
                    &&& tokenize_from(old(self).input@, old(self).pos as int)
                        == Seq::<TokenV>::empty()
                    &&& final(self).pos == final(self).input@.len()
                },
            },
    {
        let len = self.input.len();
        if self.pos >= len {
            self.pos = len;
            return None;
        }
        let ghost input = self.input@;
        let ghost pos0 = self.pos as int;
        let start = self.pos;
        if self.input[start] == OPEN_BRACE {
            // A placeholder: scan for the closing brace.
            let mut i = start + 1;
            while i < len && self.input[i] != CLOSE_BRACE
                invariant
                    start + 1 <= i <= len,
                    len == self.input@.len(),
                    forall|j: int| start + 1 <= j < i ==> self.input@[j] != CLOSE_BRACE,
                decreases len - i,
            {
                i = i + 1;
            }
            proof {
                lemma_find_byte_is(input, pos0 + 1, CLOSE_BRACE, i as int);
            }
            if i < len {
                self.pos = i + 1;
                Some(Token::Argument { start: start + 1, end: i })
            } else {
                // Unterminated placeholder: the remainder is dropped.
                self.pos = len;
                None
            }
        } else {
            // A literal run: it ends just before the next opening brace.
            let mut i = start + 1;
            while i < len && self.input[i] != OPEN_BRACE
                invariant
                    start + 1 <= i <= len,
                    len == self.input@.len(),
                    forall|j: int| start + 1 <= j < i ==> self.input@[j] != OPEN_BRACE,
                decreases len - i,
            {
                i = i + 1;
            }
            proof {
                lemma_find_byte_is(input, pos0 + 1, OPEN_BRACE, i as int);
            }
            self.pos = i;
            Some(Token::Literal { start, end: i })
        }
    }
}

// ---------------------------------------------------------------------------
// Operations and placeholder resolution
// ---------------------------------------------------------------------------

/// One instruction of the resolved layout stream.
pub enum Op {
    /// Render text with the current color and font.
    Text(Vec<u8>),
    /// Set the current text color.
    Color(Color),
    /// Set the current font.
    Font(Font),
}

/// The mathematical value of an operation.
pub enum OpV {
    Text(Seq<u8>),
    Color(Color),
    Font(Font),
}

impl View for Op {
    type V = OpV;

    open spec fn view(&self) -> OpV {
        match self {
            Op::Text(t) => OpV::Text(t@),
            Op::Color(c) => OpV::Color(*c),
            Op::Font(f) => OpV::Font(*f),
        }
    }
}

/// The view of an operation list.
pub open spec fn ops_view(ops: Seq<Op>) -> Seq<OpV> {
    ops.map_values(|o: Op| o@)
}

/// The operation stream that `tokens` over `input` resolve to under the
/// bindings `args`: literals become text, bound placeholder names become
/// their substitution, unresolved placeholders vanish.
pub open spec fn resolve_ops(input: Seq<u8>, tokens: Seq<TokenV>, args: Map<Seq<u8>, Seq<u8>>) -> Seq<
    OpV,
>
    decreases tokens.len(),
{
    if tokens.len() == 0 {
        Seq::empty()
    } else {
        let rest = resolve_ops(input, tokens.drop_first(), args);
        match tokens[0] {
            TokenV::Literal { start, end } => seq![OpV::Text(input.subrange(start, end))] + rest,
            TokenV::Argument { start, end } => {
                let name = input.subrange(start, end);
                if args.contains_key(name) {
                    seq![OpV::Text(args[name])] + rest
                } else {
                    rest
                }
            },
        }
    }
}

pub proof fn lemma_resolve_ops_add(input: Seq<u8>, a: Seq<TokenV>, b: Seq<TokenV>, args: Map<
    Seq<u8>,
    Seq<u8>,
>)
    ensures
        resolve_ops(input, a + b, args) == resolve_ops(input, a, args) + resolve_ops(
            input,
            b,
            args,
        ),
    decreases a.len(),
{
    if a.len() == 0 {
        assert(a + b =~= b);
        assert(resolve_ops(input, a, args) + resolve_ops(input, b, args) =~= resolve_ops(
            input,
            b,
            args,
        ));
    } else {
        assert((a + b).drop_first() =~= a.drop_first() + b);
        lemma_resolve_ops_add(input, a.drop_first(), b, args);
        assert(resolve_ops(input, a + b, args) =~= resolve_ops(input, a, args) + resolve_ops(
            input,
            b,
            args,
        ));
    }
}

// ---------------------------------------------------------------------------
// The argument map: a heapless::LinearMap behind trusted wrappers
// ---------------------------------------------------------------------------

#[verifier::external_type_specification]
#[verifier::external_body]
#[verifier::reject_recursive_types(K)]
#[verifier::reject_recursive_types(V)]
pub struct ExLinearMap<K, V, const N: usize>(heapless::LinearMap<K, V, N>);

/// The entries an argument map holds, keyed and valued by byte sequences.
pub uninterp spec fn arg_entries(m: heapless::LinearMap<Vec<u8>, Vec<u8>, MAX_ARGUMENTS>) -> Map<
    Seq<u8>,
    Seq<u8>,
>;

/// The number of entries an argument map holds.
pub uninterp spec fn arg_count(m: heapless::LinearMap<Vec<u8>, Vec<u8>, MAX_ARGUMENTS>) -> nat;

/// Relies on `heapless::LinearMap::new`: the fresh map is empty.
#[verifier::external_body]
pub fn args_new() -> (m: heapless::LinearMap<Vec<u8>, Vec<u8>, MAX_ARGUMENTS>)
    ensures
        arg_entries(m) =~= Map::empty(),
        arg_count(m) == 0,
{
    heapless::LinearMap::new()
}

/// Relies on `heapless::LinearMap::insert`: an existing key has its value
/// replaced, a new key is appended while capacity remains, and a full map
/// hands the pair back unchanged.
#[verifier::external_body]
pub fn args_insert(
    m: &mut heapless::LinearMap<Vec<u8>, Vec<u8>, MAX_ARGUMENTS>,
    key: Vec<u8>,
    value: Vec<u8>,
) -> (ok: bool)
    ensures
        arg_entries(*old(m)).contains_key(key@) ==> ok && arg_entries(*final(m)) == arg_entries(
            *old(m),
        ).insert(key@, value@) && arg_count(*final(m)) == arg_count(*old(m)),
        !arg_entries(*old(m)).contains_key(key@) && arg_count(*old(m)) < MAX_ARGUMENTS ==> ok
            && arg_entries(*final(m)) == arg_entries(*old(m)).insert(key@, value@) && arg_count(
            *final(m),
        ) == arg_count(*old(m)) + 1,
        !arg_entries(*old(m)).contains_key(key@) && arg_count(*old(m)) >= MAX_ARGUMENTS ==> !ok
            && arg_entries(*final(m)) == arg_entries(*old(m)) && arg_count(*final(m)) == arg_count(
            *old(m),
        ),
{
    m.insert(key, value).is_ok()
}

/// Relies on `heapless::LinearMap::get`: looks the key up by byte equality.
#[verifier::external_body]
pub fn args_get<'a>(
    m: &'a heapless::LinearMap<Vec<u8>, Vec<u8>, MAX_ARGUMENTS>,
    key: &Vec<u8>,
) -> (r: Option<&'a Vec<u8>>)
    ensures
        match r {
            Some(v) => arg_entries(*m).contains_key(key@) && v@ == arg_entries(*m)[key@],
            None => !arg_entries(*m).contains_key(key@),
        },
{
    m.get(key)
}

impl Tokenizer {
    /// Resolve the remaining tokens into an operation stream: literal tokens
    /// become text operations, bound placeholders their substitution.
    pub fn into_ops(self, args: &heapless::LinearMap<Vec<u8>, Vec<u8>, MAX_ARGUMENTS>) -> (ops: Vec<
        Op,
    >)
        ensures
            ops_view(ops@) == resolve_ops(
                self.input@,
                tokenize_from(self.input@, self.pos as int),
                arg_entries(*args),
            ),
    {
        let mut t = self;
        let ghost input = t.input@;
        let ghost bindings = arg_entries(*args);
        let ghost target = resolve_ops(input, tokenize_from(input, t.pos as int), bindings);
        let mut ops: Vec<Op> = Vec::new();
        loop
            invariant
                t.input@ == input,
                target == ops_view(ops@) + resolve_ops(
                    input,
                    tokenize_from(input, t.pos as int),
                    bindings,
                ),
                bindings == arg_entries(*args),
            ensures
                target == ops_view(ops@),
            decreases input.len() - t.pos,
        {
            let ghost pos0 = t.pos as int;
            let ghost ops0 = ops@;
            match t.next() {
                None => {
                    proof {
                        assert(target =~= ops_view(ops@));
                    }
                    break ;
                },
                Some(tok) => {
                    let ghost single = resolve_ops(input, seq![tok@], bindings);
                    proof {
                        lemma_resolve_ops_add(
                            input,
                            seq![tok@],
                            tokenize_from(input, t.pos as int),
                            bindings,
                        );
                        assert(seq![tok@].drop_first() =~= Seq::<TokenV>::empty());
                        assert(resolve_ops(input, Seq::<TokenV>::empty(), bindings)
                            =~= Seq::<OpV>::empty());
                    }
                    match tok {
                        Token::Literal { start, end } => {
                            let piece = vstd::slice::slice_to_vec(
                                vstd::slice::slice_subrange(t.input.as_slice(), start, end),
                            );
                            proof {
                                assert(single =~= seq![OpV::Text(input.subrange(start as int, end as int))]);
                            }
                            ops.push(Op::Text(piece));
                            proof {
                                assert(ops_view(ops@) =~= ops_view(ops0) + single);
                            }
                        },
                        Token::Argument { start, end } => {
                            let name = vstd::slice::slice_to_vec(
                                vstd::slice::slice_subrange(t.input.as_slice(), start, end),
                            );
                            match args_get(args, &name) {
                                Some(value) => {
                                    let piece = vstd::slice::slice_to_vec(value.as_slice());
                                    proof {
                                        assert(single =~= seq![OpV::Text(bindings[name@])]);
                                    }
                                    ops.push(Op::Text(piece));
                                    proof {
                                        assert(ops_view(ops@) =~= ops_view(ops0) + single);
                                    }
                                },
                                None => {
                                    proof {
                                        assert(single =~= Seq::<OpV>::empty());
                                        assert(ops_view(ops@) =~= ops_view(ops0) + single);
                                    }
                                },
                            }
                        },
                    }
                    proof {
                        assert(ops_view(ops0) + (single + resolve_ops(
                            input,
                            tokenize_from(input, t.pos as int),
                            bindings,
                        )) =~= (ops_view(ops0) + single) + resolve_ops(
                            input,
                            tokenize_from(input, t.pos as int),
                            bindings,
                        ));
                    }
                },
            }
        }
        ops
    }
}

// ---------------------------------------------------------------------------
// Line breaking
// ---------------------------------------------------------------------------

/// Byte value of `-`.
pub const HYPHEN: u8 = 45;

/// Where lines may be broken.
#[derive(Clone, Copy, PartialEq, Eq, Structural, Debug)]
pub enum LineBreaking {
    /// Break the line only at whitespace, if possible. If a line holds no
    /// whitespace at all, words are split anyway.
    BreakAtWhitespace,
    /// Break words anywhere, inserting a hyphen before the line break.
    BreakWordsAndInsertHyphen,
}

/// What to do at the end of the page.
#[derive(Clone, Copy, PartialEq, Eq, Structural, Debug)]
pub enum PageBreaking {
    /// Stop at the bottom edge of the bounds.
    Cut,
    /// Before stopping at the bottom edge, draw an ellipsis to signal more
    /// content, unless a hyphen was already drawn for the same break.
    CutAndInsertEllipsis,
}

/// Whitespace in a template: space, line feed or carriage return.
pub open spec fn is_whitespace(ch: u8) -> bool {
    ch == 32 || ch == 10 || ch == 13
}

fn whitespace(ch: u8) -> (b: bool)
    ensures
        b == is_whitespace(ch),
{
    ch == 32 || ch == 10 || ch == 13
}

/// The output of one fitting step: how many bytes fit on the current line,
/// how many to discard after them, how far the cursor advances, and whether
/// a hyphen marks the break.
pub struct Span {
    /// Bytes of the input this span lays out.
    pub length: usize,
    /// Bytes to discard after the span, e.g. the whitespace that broke it.
    pub skip_next_chars: usize,
    /// Cursor advance; a positive `y` means the line breaks.
    pub advance: Offset,
    /// Whether a hyphen is drawn right after this span.
    pub insert_hyphen_before_line_break: bool,
}

/// The mathematical value of a span.
pub struct SpanV {
    pub length: int,
    pub skip: int,
    pub advance_x: int,
    pub advance_y: int,
    pub hyphen: bool,
}

impl View for Span {
    type V = SpanV;

    open spec fn view(&self) -> SpanV {
        SpanV {
            length: self.length as int,
            skip: self.skip_next_chars as int,
            advance_x: self.advance.x as int,
            advance_y: self.advance.y as int,
            hyphen: self.insert_hyphen_before_line_break,
        }
    }
}

/// One step of the forward scan of the line-breaking engine, from position
/// `i` with accumulated prefix width `span_width`, whether whitespace was
/// seen, and the best breakpoint found so far.
pub open spec fn fit_from(
    text: Seq<u8>,
    max_width: int,
    text_font: Font,
    hyphen_font: Font,
    breaking: LineBreaking,
    i: int,
    span_width: int,
    found_ws: bool,
    best: SpanV,
) -> SpanV
    decreases text.len() - i,
{
    if i < 0 || i >= text.len() {
        // The whole text fits: no line break.
        SpanV {
            length: text.len() as int,
            skip: 0,
            advance_x: span_width,
            advance_y: 0,
            hyphen: false,
        }
    } else {
        let ch = text[i];
        let char_width = glyph_advance(text_font);
        if is_whitespace(ch) {
            // Candidate: break before the whitespace and discard it; a
            // carriage return advances only half a line.
            let candidate = SpanV {
                length: i,
                skip: 1,
                advance_x: span_width,
                advance_y: if ch == 13 {
                    line_height_spec(text_font) / 2
                } else {
                    line_height_spec(text_font)
                },
                hyphen: false,
            };
            if ch == 10 || ch == 13 {
                // Hard break: return at once.
                candidate
            } else {
                fit_from(
                    text,
                    max_width,
                    text_font,
                    hyphen_font,
                    breaking,
                    i + 1,
                    span_width + char_width,
                    true,
                    candidate,
                )
            }
        } else if span_width + char_width > max_width {
            // This character no longer fits: the best breakpoint so far wins.
            best
        } else {
            // Candidate: break after this character with a hyphen, if the
            // hyphen still fits and the policy allows splitting here.
            let have_space = span_width + char_width + glyph_advance(hyphen_font) <= max_width;
            let can_break = breaking == LineBreaking::BreakWordsAndInsertHyphen || !found_ws;
            let best2 = if have_space && can_break {
                SpanV {
                    length: i + 1,
                    skip: 0,
                    advance_x: span_width + char_width,
                    advance_y: line_height_spec(text_font),
                    hyphen: true,
                }
            } else {
                best
            };
            fit_from(
                text,
                max_width,
                text_font,
                hyphen_font,
                breaking,
                i + 1,
                span_width + char_width,
                found_ws,
                best2,
            )
        }
    }
}

/// The span the line-breaking engine produces for `text` against a
/// horizontal budget of `max_width` pixels.
pub open spec fn fit_spec(
    text: Seq<u8>,
    max_width: int,
    text_font: Font,
    hyphen_font: Font,
    breaking: LineBreaking,
) -> SpanV {
    fit_from(
        text,
        max_width,
        text_font,
        hyphen_font,
        breaking,
        0,
        0,
        false,
        SpanV {
            length: 0,
            skip: 0,
            advance_x: 0,
            advance_y: line_height_spec(text_font),
            hyphen: false,
        },
    )
}

/// Shape of every span the engine returns: it covers a prefix plus at most
/// one discarded byte, its horizontal advance is the width of that prefix,
/// and a zero vertical advance means the whole text fit.
pub open spec fn span_shape(s: SpanV, text: Seq<u8>, text_font: Font) -> bool {
    &&& 0 <= s.length
    &&& 0 <= s.skip <= 1
    &&& s.length + s.skip <= text.len()
    &&& s.advance_x == s.length * glyph_advance(text_font)
    &&& (s.advance_y == 0 || s.advance_y == line_height_spec(text_font) || s.advance_y
        == line_height_spec(text_font) / 2)
    &&& (s.advance_y == 0 ==> s.length == text.len() && s.skip == 0)
}

pub proof fn lemma_fit_from_shape(
    text: Seq<u8>,
    max_width: int,
    text_font: Font,
    hyphen_font: Font,
    breaking: LineBreaking,
    i: int,
    span_width: int,
    found_ws: bool,
    best: SpanV,
)
    requires
        0 <= i <= text.len(),
        span_width == i * glyph_advance(text_font),
        best.length + best.skip <= text.len(),
        0 <= best.length <= i,
        0 <= best.skip <= 1,
        best.advance_x == best.length * glyph_advance(text_font),
        best.advance_y == line_height_spec(text_font),
    ensures
        span_shape(
            fit_from(text, max_width, text_font, hyphen_font, breaking, i, span_width, found_ws, best),
            text,
            text_font,
        ),
    decreases text.len() - i,
{
    if i < text.len() {
        let ch = text[i];
        let char_width = glyph_advance(text_font);
        assert(span_width + char_width == (i + 1) * glyph_advance(text_font)) by (nonlinear_arith)
            requires
                span_width == i * glyph_advance(text_font),
                char_width == glyph_advance(text_font),
        ;
        if is_whitespace(ch) {
            let candidate = SpanV {
                length: i,
                skip: 1,
                advance_x: span_width,
                advance_y: if ch == 13 {
                    line_height_spec(text_font) / 2
                } else {
                    line_height_spec(text_font)
                },
                hyphen: false,
            };
            if ch == 10 || ch == 13 {
            } else {
                lemma_fit_from_shape(
                    text,
                    max_width,
                    text_font,
                    hyphen_font,
                    breaking,
                    i + 1,
                    span_width + char_width,
                    true,
                    candidate,
                );
            }
        } else if span_width + char_width > max_width {
        } else {
            let have_space = span_width + char_width + glyph_advance(hyphen_font) <= max_width;
            let can_break = breaking == LineBreaking::BreakWordsAndInsertHyphen || !found_ws;
            let best2 = if have_space && can_break {
                SpanV {
                    length: i + 1,
                    skip: 0,
                    advance_x: span_width + char_width,
                    advance_y: line_height_spec(text_font),
                    hyphen: true,
                }
            } else {
                best
            };
            lemma_fit_from_shape(
                text,
                max_width,
                text_font,
                hyphen_font,
                breaking,
                i + 1,
                span_width + char_width,
                found_ws,
                best2,
            );
        }
    }
}

/// The shape facts for a full fitting run, stated once for callers.
pub proof fn lemma_fit_spec_shape(
    text: Seq<u8>,
    max_width: int,
    text_font: Font,
    hyphen_font: Font,
    breaking: LineBreaking,
)
    ensures
        span_shape(fit_spec(text, max_width, text_font, hyphen_font, breaking), text, text_font),
{
    lemma_fit_from_shape(
        text,
        max_width,
        text_font,
        hyphen_font,
        breaking,
        0,
        0,
        false,
        SpanV {
            length: 0,
            skip: 0,
            advance_x: 0,
            advance_y: line_height_spec(text_font),
            hyphen: false,
        },
    );
}

impl Span {
    /// Find the longest prefix of `text` fitting in `max_width` pixels, in a
    /// single forward scan. The returned span records the best breakpoint:
    /// whitespace wins the moment it is seen, a hyphenated word split is kept
    /// as a fallback, and if nothing fits at all the span is empty with a
    /// full line break, which callers must treat as "no progress possible".
    pub fn fit_horizontally(
        text: &[u8],
        max_width: i32,
        text_font: Font,
        hyphen_font: Font,
        breaking: LineBreaking,
    ) -> (s: Span)
        requires
            text@.len() <= MAX_TEXT,
            -0x1000_0000 <= max_width <= 0x1000_0000,
        ensures
            s@ == fit_spec(text@, max_width as int, text_font, hyphen_font, breaking),
            span_shape(s@, text@, text_font),
    {
        proof {
            lemma_fit_spec_shape(text@, max_width as int, text_font, hyphen_font, breaking);
        }
        let ghost target = fit_spec(text@, max_width as int, text_font, hyphen_font, breaking);
        let lh = text_font.line_height();
        let hyphen_width = hyphen_font.glyph_width(HYPHEN);

        // The span returned if the line has to break; its initial value - no
        // text at all fits - is an empty span with a full line break.
        let mut line = Span {
            length: 0,
            skip_next_chars: 0,
            advance: Offset { x: 0, y: lh },
            insert_hyphen_before_line_break: false,
        };

        let mut span_width: i32 = 0;
        let mut found_any_whitespace = false;
        let mut i: usize = 0;
        while i < text.len()
            invariant
                0 <= i <= text@.len(),
                text@.len() <= MAX_TEXT,
                -0x1000_0000 <= max_width <= 0x1000_0000,
                lh == line_height_spec(text_font),
                hyphen_width == glyph_advance(hyphen_font),
                target == fit_spec(text@, max_width as int, text_font, hyphen_font, breaking),
                span_width == i * glyph_advance(text_font),
                0 <= span_width <= 8 * i,
                line@.length + line@.skip <= text@.len(),
                0 <= line@.length <= i,
                0 <= line@.skip <= 1,
                line@.advance_x == line@.length * glyph_advance(text_font),
                line@.advance_y == line_height_spec(text_font),
                target == fit_from(
                    text@,
                    max_width as int,
                    text_font,
                    hyphen_font,
                    breaking,
                    i as int,
                    span_width as int,
                    found_any_whitespace,
                    line@,
                ),
            decreases text@.len() - i,
        {
            let ch = text[i];
            let char_width = text_font.glyph_width(ch);
            proof {
                assert(span_width + char_width == (i + 1) * glyph_advance(text_font))
                    by (nonlinear_arith)
                    requires
                        span_width == i * glyph_advance(text_font),
                        char_width == glyph_advance(text_font),
                ;
            }

            if whitespace(ch) {
                // Break before the whitespace, without a hyphen, discarding
                // the whitespace itself.
                line.length = i;
                line.advance.x = span_width;
                line.insert_hyphen_before_line_break = false;
                line.skip_next_chars = 1;
                if ch == 13 {
                    // A carriage return breaks the line but advances the
                    // cursor by only half the line height.
                    line.advance.y = lh / 2;
                }
                if ch == 10 || ch == 13 {
                    // End of line: break immediately.
                    return line;
                }
                found_any_whitespace = true;
            } else if span_width + char_width > max_width {
                // Out of horizontal room: the last breakpoint wins.
                return line;
            } else {
                let have_space_for_break = span_width + char_width + hyphen_width <= max_width;
                let can_break_word = matches!(breaking, LineBreaking::BreakWordsAndInsertHyphen)
                    || !found_any_whitespace;
                if have_space_for_break && can_break_word {
                    // Break after this character, appending a hyphen.
                    line.length = i + 1;
                    line.advance.x = span_width + char_width;
                    line.insert_hyphen_before_line_break = true;
                    line.skip_next_chars = 0;
                }
            }

            span_width = span_width + char_width;
            i = i + 1;
        }

        // The whole text fits.
        Span {
            length: text.len(),
            skip_next_chars: 0,
            advance: Offset { x: span_width, y: 0 },
            insert_hyphen_before_line_break: false,
        }
    }
}

// ---------------------------------------------------------------------------
// Layout driver
// ---------------------------------------------------------------------------

/// Largest cursor ordinate the layout driver works with.
pub const CURSOR_LIMIT: i32 = 0x0200_0000;

/// Largest cursor abscissa the layout driver lets a line grow to.
pub const CURSOR_X_LIMIT: i32 = 0x0800_0000;

/// Whether a whole block of text fitted into its bounds.
#[derive(Clone, Copy, PartialEq, Eq, Structural, Debug)]
pub enum LayoutResult {
    Fitting,
    OutOfBounds,
}

/// Visual instructions for laying out a formatted block of text. A cheap
/// copy: color and font operations mutate a transient working copy scoped to
/// one layout pass, never a component's stored configuration.
#[derive(Clone, Copy, PartialEq, Eq, Structural, Debug)]
pub struct TextLayout {
    /// Bounding box restricting the layout dimensions.
    pub bounds: Rect,
    /// Background color.
    pub background_color: Color,
    /// Text color; an `Op::Color` overrides it.
    pub text_color: Color,
    /// Text font; an `Op::Font` overrides it.
    pub text_font: Font,
    /// The line-breaking strategy.
    pub line_breaking: LineBreaking,
    /// Font of the word-breaking hyphen.
    pub hyphen_font: Font,
    /// Color of the word-breaking hyphen.
    pub hyphen_color: Color,
    /// What to do at the end of the page.
    pub page_breaking: PageBreaking,
    /// Font of the ellipsis.
    pub ellipsis_font: Font,
    /// Color of the ellipsis.
    pub ellipsis_color: Color,
}

/// One event the layout driver reports to a sink.
pub enum SinkEvent {
    /// Draw `bytes` at the given cursor with the current style.
    Text { x: int, y: int, layout: TextLayout, bytes: Seq<u8> },
    /// Draw a word-breaking hyphen at the given cursor.
    Hyphen { x: int, y: int, layout: TextLayout },
    /// Draw an ellipsis marking truncated content at the given cursor.
    Ellipsis { x: int, y: int, layout: TextLayout },
    /// The text ran past the bottom of the bounds.
    OutOfBounds,
}

/// Consumer of layout events: a renderer, a no-op for measurement, or a
/// diagnostic recorder. Every sink exposes the events it has received as
/// `trace`, and each call appends exactly one event to it.
pub trait LayoutSink: Sized {
    /// The events this sink has received, in order.
    spec fn trace(self) -> Seq<SinkEvent>;

    fn text(&mut self, cursor: Point, layout: &TextLayout, text: &[u8])
        ensures
            final(self).trace() == old(self).trace().push(
                SinkEvent::Text {
                    x: cursor.x as int,
                    y: cursor.y as int,
                    layout: *layout,
                    bytes: text@,
                },
            ),
    ;

    fn hyphen(&mut self, cursor: Point, layout: &TextLayout)
        ensures
            final(self).trace() == old(self).trace().push(
                SinkEvent::Hyphen { x: cursor.x as int, y: cursor.y as int, layout: *layout },
            ),
    ;

    fn ellipsis(&mut self, cursor: Point, layout: &TextLayout)
        ensures
            final(self).trace() == old(self).trace().push(
                SinkEvent::Ellipsis { x: cursor.x as int, y: cursor.y as int, layout: *layout },
            ),
    ;

    fn out_of_bounds(&mut self)
        ensures
            final(self).trace() == old(self).trace().push(SinkEvent::OutOfBounds),
    ;
}

/// What one layout pass produces: the events reported to the sink, the final
/// cursor, whether the text ran out of bounds, and the vertical advance of
/// every line break the cursor took.
pub struct LayoutOutcome {
    pub events: Seq<SinkEvent>,
    pub x: int,
    pub y: int,
    pub oob: bool,
    pub breaks: Seq<int>,
}

/// The sum of a sequence of integers.
pub open spec fn sum_of(s: Seq<int>) -> int
    decreases s.len(),
{
    if s.len() == 0 {
        0
    } else {
        s[0] + sum_of(s.drop_first())
    }
}

/// One layout pass over a single block of text, starting at cursor
/// `(cx, cy)`: fit a span, report it, advance, and repeat until the text is
/// consumed or the next line would run past the bottom of the bounds.
pub open spec fn layout_text_from(l: TextLayout, text: Seq<u8>, cx: int, cy: int) -> LayoutOutcome
    decreases text.len(), vstd::math::max(l.bounds.y1 - cy, 0),
{
    if text.len() == 0 {
        LayoutOutcome { events: Seq::empty(), x: cx, y: cy, oob: false, breaks: Seq::empty() }
    } else {
        let s = fit_spec(text, l.bounds.x1 - cx, l.text_font, l.hyphen_font, l.line_breaking);
        proof {
            lemma_fit_spec_shape(text, l.bounds.x1 - cx, l.text_font, l.hyphen_font, l.line_breaking);
        }
        let consumed = s.length + s.skip;
        let rest = text.subrange(consumed, text.len() as int);
        let ev_text = SinkEvent::Text { x: cx, y: cy, layout: l, bytes: text.subrange(0, s.length) };
        let x1 = cx + s.advance_x;
        if s.advance_y > 0 {
            let hyph: Seq<SinkEvent> = if s.hyphen {
                seq![SinkEvent::Hyphen { x: x1, y: cy, layout: l }]
            } else {
                Seq::empty()
            };
            if cy + s.advance_y > l.bounds.y1 {
                // The next line would not fit any more: an ellipsis marks the
                // truncation if the policy asks for one and no hyphen was
                // drawn for this same break.
                let ell: Seq<SinkEvent> = if rest.len() > 0 && l.page_breaking
                    == PageBreaking::CutAndInsertEllipsis && !s.hyphen {
                    seq![SinkEvent::Ellipsis { x: x1, y: cy, layout: l }]
                } else {
                    Seq::empty()
                };
                LayoutOutcome {
                    events: seq![ev_text] + hyph + ell + seq![SinkEvent::OutOfBounds],
                    x: x1,
                    y: cy,
                    oob: true,
                    breaks: Seq::empty(),
                }
            } else {
                let rec = layout_text_from(l, rest, l.bounds.x0 as int, cy + s.advance_y);
                LayoutOutcome {
                    events: seq![ev_text] + hyph + rec.events,
                    x: rec.x,
                    y: rec.y,
                    oob: rec.oob,
                    breaks: seq![s.advance_y] + rec.breaks,
                }
            }
        } else {
            // The whole text fits on the current line.
            LayoutOutcome { events: seq![ev_text], x: x1, y: cy, oob: false, breaks: Seq::empty() }
        }
    }
}

impl TextLayout {
    pub open spec fn wf(self) -> bool {
        self.bounds.wf()
    }
}

/// Where the cursor of one layout pass can end up: it moves monotonically
/// down, by exactly the advance of each line break it takes, never below the
/// bottom edge it started above, and it moves right by at most the width of
/// the text.
pub proof fn lemma_layout_text_cursor(l: TextLayout, text: Seq<u8>, cx: int, cy: int)
    requires
        l.wf(),
    ensures
        ({
            let o = layout_text_from(l, text, cx, cy);
            &&& o.y == cy + sum_of(o.breaks)
            &&& forall|i: int| 0 <= i < o.breaks.len() ==> #[trigger] o.breaks[i] > 0
            &&& cy <= o.y <= vstd::math::max(cy, l.bounds.y1 as int)
            &&& vstd::math::min(cx, l.bounds.x0 as int) <= o.x
            &&& o.x <= vstd::math::max(cx, l.bounds.x0 as int) + 8 * text.len()
        }),
    decreases text.len(), vstd::math::max(l.bounds.y1 - cy, 0),
{
    let o = layout_text_from(l, text, cx, cy);
    if text.len() == 0 {
    } else {
        let s = fit_spec(text, l.bounds.x1 - cx, l.text_font, l.hyphen_font, l.line_breaking);
        lemma_fit_spec_shape(text, l.bounds.x1 - cx, l.text_font, l.hyphen_font, l.line_breaking);
        assert(s.advance_x <= 8 * s.length) by (nonlinear_arith)
            requires
                s.advance_x == s.length * glyph_advance(l.text_font),
                0 <= s.length,
                glyph_advance(l.text_font) <= 8,
        ;
        assert(0 <= s.advance_x) by (nonlinear_arith)
            requires
                s.advance_x == s.length * glyph_advance(l.text_font),
                0 <= s.length,
                0 < glyph_advance(l.text_font),
        ;
        let consumed = s.length + s.skip;
        let rest = text.subrange(consumed, text.len() as int);
        if s.advance_y > 0 {
            if cy + s.advance_y > l.bounds.y1 {
            } else {
                lemma_layout_text_cursor(l, rest, l.bounds.x0 as int, cy + s.advance_y);
                let rec = layout_text_from(l, rest, l.bounds.x0 as int, cy + s.advance_y);
                assert((seq![s.advance_y] + rec.breaks).drop_first() =~= rec.breaks);
                assert(o.y == cy + sum_of(o.breaks));
            }
        } else {
        }
    }
}

/// Byte value of `.`.
pub const FULL_STOP: u8 = 46;

// ---------------------------------------------------------------------------
// Sinks
// ---------------------------------------------------------------------------

/// A sink that does nothing: layout against it measures text without
/// drawing.
pub struct TextNoop {
    hist: Ghost<Seq<SinkEvent>>,
}

impl TextNoop {
    pub fn new() -> (s: TextNoop)
        ensures
            s.trace() == Seq::<SinkEvent>::empty(),
    {
        TextNoop { hist: Ghost(Seq::empty()) }
    }
}

impl LayoutSink for TextNoop {
    closed spec fn trace(self) -> Seq<SinkEvent> {
        self.hist@
    }

    fn text(&mut self, cursor: Point, layout: &TextLayout, text: &[u8]) {
        proof {
            self.hist@ = self.hist@.push(
                SinkEvent::Text {
                    x: cursor.x as int,
                    y: cursor.y as int,
                    layout: *layout,
                    bytes: text@,
                },
            );
        }
    }

    fn hyphen(&mut self, cursor: Point, layout: &TextLayout) {
        proof {
            self.hist@ = self.hist@.push(
                SinkEvent::Hyphen { x: cursor.x as int, y: cursor.y as int, layout: *layout },
            );
        }
    }

    fn ellipsis(&mut self, cursor: Point, layout: &TextLayout) {
        proof {
            self.hist@ = self.hist@.push(
                SinkEvent::Ellipsis { x: cursor.x as int, y: cursor.y as int, layout: *layout },
            );
        }
    }

    fn out_of_bounds(&mut self) {
        proof {
            self.hist@ = self.hist@.push(SinkEvent::OutOfBounds);
        }
    }
}

/// One recorded layout event, the executable mirror of `SinkEvent`.
pub enum TraceEvent {
    Text { x: i32, y: i32, layout: TextLayout, bytes: Vec<u8> },
    Hyphen { x: i32, y: i32, layout: TextLayout },
    Ellipsis { x: i32, y: i32, layout: TextLayout },
    OutOfBounds,
}

impl View for TraceEvent {
    type V = SinkEvent;

    open spec fn view(&self) -> SinkEvent {
        match self {
            TraceEvent::Text { x, y, layout, bytes } => SinkEvent::Text {
                x: *x as int,
                y: *y as int,
                layout: *layout,
                bytes: bytes@,
            },
            TraceEvent::Hyphen { x, y, layout } => SinkEvent::Hyphen {
                x: *x as int,
                y: *y as int,
                layout: *layout,
            },
            TraceEvent::Ellipsis { x, y, layout } => SinkEvent::Ellipsis {
                x: *x as int,
                y: *y as int,
                layout: *layout,
            },
            TraceEvent::OutOfBounds => SinkEvent::OutOfBounds,
        }
    }
}

/// The draw calls one layout event asks of the renderer.
pub open spec fn event_calls(ev: SinkEvent) -> Seq<DrawCallV> {
    match ev {
        SinkEvent::Text { x, y, layout, bytes } => seq![
            DrawCallV::Glyphs {
                x,
                y,
                text: bytes,
                font: layout.text_font,
                fg: layout.text_color,
                bg: layout.background_color,
            },
        ],
        SinkEvent::Hyphen { x, y, layout } => seq![
            DrawCallV::Glyphs {
                x,
                y,
                text: seq![HYPHEN],
                font: layout.hyphen_font,
                fg: layout.hyphen_color,
                bg: layout.background_color,
            },
        ],
        SinkEvent::Ellipsis { x, y, layout } => seq![
            DrawCallV::Glyphs {
                x,
                y,
                text: seq![FULL_STOP, FULL_STOP, FULL_STOP],
                font: layout.ellipsis_font,
                fg: layout.ellipsis_color,
                bg: layout.background_color,
            },
        ],
        SinkEvent::OutOfBounds => Seq::empty(),
    }
}

/// The draw calls a whole event sequence asks of the renderer.
pub open spec fn render_calls(events: Seq<SinkEvent>) -> Seq<DrawCallV>
    decreases events.len(),
{
    if events.len() == 0 {
        Seq::empty()
    } else {
        event_calls(events[0]) + render_calls(events.drop_first())
    }
}

pub proof fn lemma_render_calls_snoc(events: Seq<SinkEvent>, ev: SinkEvent)
    ensures
        render_calls(events.push(ev)) == render_calls(events) + event_calls(ev),
    decreases events.len(),
{
    if events.len() == 0 {
        assert(events.push(ev).drop_first() =~= Seq::<SinkEvent>::empty());
        assert(events.push(ev)[0] == ev);
        assert(render_calls(Seq::<SinkEvent>::empty()) == Seq::<DrawCallV>::empty());
        assert(render_calls(events.push(ev)) =~= render_calls(events) + event_calls(ev));
    } else {
        assert(events.push(ev).drop_first() =~= events.drop_first().push(ev));
        lemma_render_calls_snoc(events.drop_first(), ev);
        assert(render_calls(events.push(ev)) == event_calls(events[0]) + (render_calls(
            events.drop_first(),
        ) + event_calls(ev)));
        assert(event_calls(events[0]) + (render_calls(events.drop_first()) + event_calls(ev))
            =~= (event_calls(events[0]) + render_calls(events.drop_first())) + event_calls(ev));
        assert(render_calls(events.push(ev)) =~= render_calls(events) + event_calls(ev));
    }
}

/// The renderer-backed sink: it records every event it receives — which
/// also makes it the diagnostic trace adapter — and `draw_into` turns the
/// recording into draw calls.
pub struct TextRenderer {
    pub events: Vec<TraceEvent>,
}

impl TextRenderer {
    pub fn new() -> (s: TextRenderer)
        ensures
            s.trace() == Seq::<SinkEvent>::empty(),
            s.events@ == Seq::<TraceEvent>::empty(),
    {
        let s = TextRenderer { events: Vec::new() };
        proof {
            assert(s.trace() =~= Seq::<SinkEvent>::empty());
        }
        s
    }

    /// Replay the recorded events as draw calls on `frame`.
    pub fn draw_into(&self, frame: &mut Vec<DrawCall>)
        ensures
            frame_view(final(frame)@) == frame_view(old(frame)@) + render_calls(self.trace()),
    {
        let ghost frame0 = old(frame)@;
        let mut i: usize = 0;
        proof {
            assert(self.trace().subrange(0, 0) =~= Seq::<SinkEvent>::empty());
            assert(frame_view(frame@) =~= frame_view(frame0) + render_calls(
                self.trace().subrange(0, 0),
            ));
        }
        while i < self.events.len()
            invariant
                0 <= i <= self.events@.len(),
                frame_view(frame@) == frame_view(frame0) + render_calls(
                    self.trace().subrange(0, i as int),
                ),
            decreases self.events@.len() - i,
        {
            let ghost done = self.trace().subrange(0, i as int);
            let ghost ev = self.events@[i as int]@;
            proof {
                assert(self.trace().subrange(0, i + 1) =~= done.push(ev));
                lemma_render_calls_snoc(done, ev);
            }
            match &self.events[i] {
                TraceEvent::Text { x, y, layout, bytes } => {
                    crate::display::text(
                        frame,
                        Point { x: *x, y: *y },
                        bytes.as_slice(),
                        layout.text_font,
                        layout.text_color,
                        layout.background_color,
                    );
                },
                TraceEvent::Hyphen { x, y, layout } => {
                    let dash: Vec<u8> = vec![HYPHEN];
                    crate::display::text(
                        frame,
                        Point { x: *x, y: *y },
                        dash.as_slice(),
                        layout.hyphen_font,
                        layout.hyphen_color,
                        layout.background_color,
                    );
                    proof {
                        assert(dash@ =~= seq![HYPHEN]);
                    }
                },
                TraceEvent::Ellipsis { x, y, layout } => {
                    let dots: Vec<u8> = vec![FULL_STOP, FULL_STOP, FULL_STOP];
                    crate::display::text(
                        frame,
                        Point { x: *x, y: *y },
                        dots.as_slice(),
                        layout.ellipsis_font,
                        layout.ellipsis_color,
                        layout.background_color,
                    );
                    proof {
                        assert(dots@ =~= seq![FULL_STOP, FULL_STOP, FULL_STOP]);
                    }
                },
                TraceEvent::OutOfBounds => {},
            }
            proof {
                assert(frame_view(frame@) =~= frame_view(frame0) + render_calls(
                    self.trace().subrange(0, i + 1),
                ));
            }
            i = i + 1;
        }
        proof {
            assert(self.trace().subrange(0, self.trace().len() as int) =~= self.trace());
        }
    }
}

impl LayoutSink for TextRenderer {
    open spec fn trace(self) -> Seq<SinkEvent> {
        self.events@.map_values(|e: TraceEvent| e@)
    }

    fn text(&mut self, cursor: Point, layout: &TextLayout, text: &[u8]) {
        let ghost t0 = self.trace();
        let ev = TraceEvent::Text {
            x: cursor.x,
            y: cursor.y,
            layout: *layout,
            bytes: vstd::slice::slice_to_vec(text),
        };
        self.events.push(ev);
        proof {
            assert(self.trace() =~= t0.push(ev@));
        }
    }

    fn hyphen(&mut self, cursor: Point, layout: &TextLayout) {
        let ghost t0 = self.trace();
        let ev = TraceEvent::Hyphen { x: cursor.x, y: cursor.y, layout: *layout };
        self.events.push(ev);
        proof {
            assert(self.trace() =~= t0.push(ev@));
        }
    }

    fn ellipsis(&mut self, cursor: Point, layout: &TextLayout) {
        let ghost t0 = self.trace();
        let ev = TraceEvent::Ellipsis { x: cursor.x, y: cursor.y, layout: *layout };
        self.events.push(ev);
        proof {
            assert(self.trace() =~= t0.push(ev@));
        }
    }

    fn out_of_bounds(&mut self) {
        let ghost t0 = self.trace();
        self.events.push(TraceEvent::OutOfBounds);
        proof {
            assert(self.trace() =~= t0.push(SinkEvent::OutOfBounds));
        }
    }
}

impl TextLayout {
    /// Flow `text` into the bounds from `cursor` on, reporting each fitted
    /// span to `sink`, until the text is consumed (`Fitting`) or the next
    /// line would run past the bottom edge (`OutOfBounds`). The sink trace
    /// grows by exactly the events of `layout_text_from`, and the cursor
    /// moves to that outcome's final position.
    pub fn layout_text<S: LayoutSink>(
        &self,
        text: &[u8],
        cursor: &mut Point,
        sink: &mut S,
    ) -> (r: LayoutResult)
        requires
            self.wf(),
            text@.len() <= MAX_TEXT,
            -CURSOR_LIMIT <= old(cursor).x,
            old(cursor).x + 8 * text@.len() <= CURSOR_X_LIMIT,
            -CURSOR_LIMIT <= old(cursor).y <= CURSOR_LIMIT,
        ensures
            ({
                let o = layout_text_from(*self, text@, old(cursor).x as int, old(cursor).y as int);
                &&& final(sink).trace() == old(sink).trace() + o.events
                &&& final(cursor).x == o.x
                &&& final(cursor).y == o.y
                &&& (r == LayoutResult::OutOfBounds <==> o.oob)
            }),
    {
        let ghost l = *self;
        let ghost target = layout_text_from(l, text@, old(cursor).x as int, old(cursor).y as int);
        let ghost trace0 = sink.trace();
        let ghost mut emitted: Seq<SinkEvent> = Seq::empty();
        let mut pos: usize = 0;
        proof {
            assert(text@.subrange(0, text@.len() as int) =~= text@);
            assert(trace0 + emitted =~= trace0);
        }
        while pos < text.len()
            invariant
                l == *self,
                l.wf(),
                trace0 == old(sink).trace(),
                target == layout_text_from(l, text@, old(cursor).x as int, old(cursor).y as int),
                pos <= text@.len(),
                text@.len() <= MAX_TEXT,
                -CURSOR_LIMIT <= cursor.x,
                cursor.x + 8 * (text@.len() - pos) <= CURSOR_X_LIMIT,
                -CURSOR_LIMIT <= cursor.y <= CURSOR_LIMIT,
                sink.trace() == trace0 + emitted,
                ({
                    let o = layout_text_from(
                        l,
                        text@.subrange(pos as int, text@.len() as int),
                        cursor.x as int,
                        cursor.y as int,
                    );
                    &&& target.events == emitted + o.events
                    &&& target.x == o.x
                    &&& target.y == o.y
                    &&& target.oob == o.oob
                }),
            decreases text@.len() - pos, vstd::math::max(l.bounds.y1 - cursor.y, 0),
        {
            let ghost rem0 = text@.subrange(pos as int, text@.len() as int);
            let ghost cx = cursor.x as int;
            let ghost cy = cursor.y as int;
            let ghost o0 = layout_text_from(l, rem0, cx, cy);
            let ghost emitted0 = emitted;

            let len = text.len();
            let remaining = vstd::slice::slice_subrange(text, pos, len);
            let max_width = self.bounds.x1 - cursor.x;
            let span = Span::fit_horizontally(
                remaining,
                max_width,
                self.text_font,
                self.hyphen_font,
                self.line_breaking,
            );
            let ghost sv = span@;
            let ghost consumed = sv.length + sv.skip;
            let ghost ev_text = SinkEvent::Text {
                x: cx,
                y: cy,
                layout: l,
                bytes: rem0.subrange(0, sv.length),
            };
            let ghost hyph: Seq<SinkEvent> = if sv.hyphen {
                seq![SinkEvent::Hyphen { x: cx + sv.advance_x, y: cy, layout: l }]
            } else {
                Seq::<SinkEvent>::empty()
            };
            proof {
                assert(0 <= sv.advance_x && sv.advance_x <= 8 * sv.length) by (nonlinear_arith)
                    requires
                        sv.advance_x == sv.length * glyph_advance(l.text_font),
                        0 <= sv.length,
                        0 < glyph_advance(l.text_font) <= 8,
                ;
            }

            // Report the fitted span at the current cursor.
            sink.text(*cursor, self, vstd::slice::slice_subrange(remaining, 0, span.length));
            proof {
                emitted = emitted.push(ev_text);
                assert(remaining@.subrange(0, sv.length) =~= rem0.subrange(0, sv.length));
                assert(sink.trace() =~= trace0 + emitted);
            }

            // Continue after the span and whatever it told us to discard.
            pos = pos + span.length + span.skip_next_chars;
            // Advance the cursor horizontally.
            cursor.x = cursor.x + span.advance.x;

            if span.advance.y > 0 {
                // The line breaks here. A flagged hyphen is drawn at the
                // advanced cursor, before the line is actually changed.
                if span.insert_hyphen_before_line_break {
                    sink.hyphen(*cursor, self);
                    proof {
                        emitted = emitted.push(
                            SinkEvent::Hyphen { x: cursor.x as int, y: cy, layout: l },
                        );
                        assert(sink.trace() =~= trace0 + emitted);
                    }
                }
                if cursor.y + span.advance.y > self.bounds.y1 {
                    // The next line's bottom would leave the bounds.
                    let ghost ell: Seq<SinkEvent> = if consumed < rem0.len() && l.page_breaking
                        == PageBreaking::CutAndInsertEllipsis && !sv.hyphen {
                        seq![SinkEvent::Ellipsis { x: cx + sv.advance_x, y: cy, layout: l }]
                    } else {
                        Seq::<SinkEvent>::empty()
                    };
                    if pos < text.len() {
                        // More content follows: an ellipsis marks the cut,
                        // unless a hyphen already ended this break.
                        let should_append_ellipsis = matches!(
                            self.page_breaking,
                            PageBreaking::CutAndInsertEllipsis
                        ) && !span.insert_hyphen_before_line_break;
                        if should_append_ellipsis {
                            sink.ellipsis(*cursor, self);
                            proof {
                                emitted = emitted.push(
                                    SinkEvent::Ellipsis { x: cursor.x as int, y: cy, layout: l },
                                );
                                assert(sink.trace() =~= trace0 + emitted);
                            }
                        }
                    }
                    sink.out_of_bounds();
                    proof {
                        emitted = emitted.push(SinkEvent::OutOfBounds);
                        assert(sink.trace() =~= trace0 + emitted);
                        assert(o0.events == seq![ev_text] + hyph + ell + seq![
                            SinkEvent::OutOfBounds,
                        ]);
                        assert(emitted =~= emitted0 + o0.events);
                        assert(sink.trace() =~= trace0 + (emitted0 + o0.events));
                        assert(trace0 + (emitted0 + o0.events) =~= (trace0 + emitted0)
                            + o0.events);
                        assert(target.events =~= emitted);
                    }
                    return LayoutResult::OutOfBounds;
                } else {
                    // Move to the start of the next line.
                    cursor.x = self.bounds.x0;
                    cursor.y = cursor.y + span.advance.y;
                }
            }
            proof {
                assert(rem0.subrange(consumed, rem0.len() as int) =~= text@.subrange(
                    pos as int,
                    text@.len() as int,
                ));
                let o1 = layout_text_from(
                    l,
                    text@.subrange(pos as int, text@.len() as int),
                    cursor.x as int,
                    cursor.y as int,
                );
                if sv.advance_y > 0 {
                    assert(o0.events == seq![ev_text] + hyph + o1.events);
                    assert(emitted + o1.events =~= emitted0 + (seq![ev_text] + hyph
                        + o1.events));
                    assert(target.events == emitted0 + o0.events);
                    assert(target.events == emitted + o1.events);
                } else {
                    assert(o0.events == seq![ev_text]);
                    assert(text@.subrange(pos as int, text@.len() as int) =~= Seq::<u8>::empty());
                    assert(emitted + o1.events =~= emitted0 + o0.events);
                    assert(target.events == emitted + o1.events);
                }
            }
        }
        proof {
            assert(text@.subrange(pos as int, text@.len() as int) =~= Seq::<u8>::empty());
            let o1 = layout_text_from(
                l,
                text@.subrange(pos as int, text@.len() as int),
                cursor.x as int,
                cursor.y as int,
            );
            assert(o1.events == Seq::<SinkEvent>::empty());
            assert(target.events =~= emitted);
            assert(sink.trace() =~= old(sink).trace() + target.events);
        }
        LayoutResult::Fitting
    }
}

// ---------------------------------------------------------------------------
// Operation stream layout
// ---------------------------------------------------------------------------

/// Total byte length of the text operations in a stream.
pub open spec fn ops_text_len(ops: Seq<OpV>) -> int
    decreases ops.len(),
{
    if ops.len() == 0 {
        0
    } else {
        (match ops[0] {
            OpV::Text(t) => t.len() as int,
            _ => 0,
        }) + ops_text_len(ops.drop_first())
    }
}

pub proof fn lemma_ops_text_len_nonneg(ops: Seq<OpV>)
    ensures
        ops_text_len(ops) >= 0,
    decreases ops.len(),
{
    if ops.len() > 0 {
        lemma_ops_text_len_nonneg(ops.drop_first());
    }
}

/// One layout pass over a whole operation stream: color and font operations
/// mutate the transient style, text operations flow through the
/// line-breaking engine, and the pass stops early once a text runs out of
/// bounds.
pub open spec fn layout_ops_from(l: TextLayout, ops: Seq<OpV>, cx: int, cy: int) -> LayoutOutcome
    decreases ops.len(),
{
    if ops.len() == 0 {
        LayoutOutcome { events: Seq::empty(), x: cx, y: cy, oob: false, breaks: Seq::empty() }
    } else {
        match ops[0] {
            OpV::Color(c) => layout_ops_from(
                TextLayout { text_color: c, ..l },
                ops.drop_first(),
                cx,
                cy,
            ),
            OpV::Font(f) => layout_ops_from(
                TextLayout { text_font: f, ..l },
                ops.drop_first(),
                cx,
                cy,
            ),
            OpV::Text(t) => {
                let o = layout_text_from(l, t, cx, cy);
                if o.oob {
                    o
                } else {
                    let rec = layout_ops_from(l, ops.drop_first(), o.x, o.y);
                    LayoutOutcome {
                        events: o.events + rec.events,
                        x: rec.x,
                        y: rec.y,
                        oob: rec.oob,
                        breaks: o.breaks + rec.breaks,
                    }
                }
            },
        }
    }
}

/// Cursor bounds for a whole operation stream, lifted from the single-text
/// bounds.
pub proof fn lemma_layout_ops_cursor(l: TextLayout, ops: Seq<OpV>, cx: int, cy: int)
    requires
        l.wf(),
    ensures
        ({
            let o = layout_ops_from(l, ops, cx, cy);
            &&& cy <= o.y <= vstd::math::max(cy, l.bounds.y1 as int)
            &&& vstd::math::min(cx, l.bounds.x0 as int) <= o.x
            &&& o.x <= vstd::math::max(cx, l.bounds.x0 as int) + 8 * ops_text_len(ops)
        }),
    decreases ops.len(),
{
    lemma_ops_text_len_nonneg(ops);
    if ops.len() > 0 {
        lemma_ops_text_len_nonneg(ops.drop_first());
        match ops[0] {
            OpV::Color(c) => {
                lemma_layout_ops_cursor(TextLayout { text_color: c, ..l }, ops.drop_first(), cx, cy);
            },
            OpV::Font(f) => {
                lemma_layout_ops_cursor(TextLayout { text_font: f, ..l }, ops.drop_first(), cx, cy);
            },
            OpV::Text(t) => {
                lemma_layout_text_cursor(l, t, cx, cy);
                let o = layout_text_from(l, t, cx, cy);
                if !o.oob {
                    lemma_layout_ops_cursor(l, ops.drop_first(), o.x, o.y);
                }
            },
        }
    }
}

impl TextLayout {
    /// Drive a whole operation stream through the line-breaking engine,
    /// mutating a transient copy of the style and stopping early once a text
    /// operation runs out of bounds.
    pub fn layout_op_stream<S: LayoutSink>(
        self,
        ops: &Vec<Op>,
        cursor: &mut Point,
        sink: &mut S,
    ) -> (r: LayoutResult)
        requires
            self.wf(),
            ops_text_len(ops_view(ops@)) <= MAX_TEXT,
            -CURSOR_LIMIT <= old(cursor).x,
            old(cursor).x + 8 * ops_text_len(ops_view(ops@)) <= CURSOR_X_LIMIT,
            -CURSOR_LIMIT <= old(cursor).y <= CURSOR_LIMIT,
        ensures
            ({
                let o = layout_ops_from(
                    self,
                    ops_view(ops@),
                    old(cursor).x as int,
                    old(cursor).y as int,
                );
                &&& final(sink).trace() == old(sink).trace() + o.events
                &&& final(cursor).x == o.x
                &&& final(cursor).y == o.y
                &&& (r == LayoutResult::OutOfBounds <==> o.oob)
            }),
    {
        let ghost all = ops_view(ops@);
        let ghost target = layout_ops_from(self, all, old(cursor).x as int, old(cursor).y as int);
        let ghost trace0 = sink.trace();
        let ghost mut emitted: Seq<SinkEvent> = Seq::empty();
        let mut style = self;
        let mut k: usize = 0;
        proof {
            assert(all.skip(0) =~= all);
            assert(trace0 + emitted =~= trace0);
        }
        while k < ops.len()
            invariant
                all == ops_view(ops@),
                target == layout_ops_from(self, all, old(cursor).x as int, old(cursor).y as int),
                trace0 == old(sink).trace(),
                self.wf(),
                style.bounds == self.bounds,
                style.hyphen_font == self.hyphen_font,
                style.hyphen_color == self.hyphen_color,
                style.line_breaking == self.line_breaking,
                style.page_breaking == self.page_breaking,
                style.ellipsis_font == self.ellipsis_font,
                style.ellipsis_color == self.ellipsis_color,
                style.background_color == self.background_color,
                k <= ops@.len(),
                ops@.len() == all.len(),
                ops_text_len(all.skip(k as int)) <= MAX_TEXT,
                -CURSOR_LIMIT <= cursor.x,
                cursor.x + 8 * ops_text_len(all.skip(k as int)) <= CURSOR_X_LIMIT,
                -CURSOR_LIMIT <= cursor.y <= CURSOR_LIMIT,
                sink.trace() == trace0 + emitted,
                ({
                    let o = layout_ops_from(style, all.skip(k as int), cursor.x as int,
                        cursor.y as int);
                    &&& target.events == emitted + o.events
                    &&& target.x == o.x
                    &&& target.y == o.y
                    &&& target.oob == o.oob
                }),
            decreases ops@.len() - k,
        {
            let ghost rest = all.skip(k as int);
            let ghost rest1 = all.skip(k as int + 1);
            let ghost style0 = style;
            let ghost emitted0 = emitted;
            let ghost cx = cursor.x as int;
            let ghost cy = cursor.y as int;
            proof {
                assert(rest[0] == ops@[k as int]@);
                assert(rest.drop_first() =~= rest1);
                lemma_ops_text_len_nonneg(rest1);
            }
            match &ops[k] {
                Op::Color(color) => {
                    style.text_color = *color;
                },
                Op::Font(font) => {
                    style.text_font = *font;
                },
                Op::Text(t) => {
                    proof {
                        lemma_layout_text_cursor(style0, t@, cx, cy);
                    }
                    let res = style.layout_text(t.as_slice(), cursor, sink);
                    let ghost o = layout_text_from(style0, t@, cx, cy);
                    proof {
                        emitted = emitted + o.events;
                        assert(sink.trace() =~= trace0 + emitted);
                    }
                    if matches!(res, LayoutResult::OutOfBounds) {
                        proof {
                            assert(target.events == emitted0 + (o.events + layout_ops_from(
                                style0,
                                rest,
                                cx,
                                cy,
                            ).events).subrange(0, o.events.len() as int)) by {
                                assert(layout_ops_from(style0, rest, cx, cy) == o);
                                assert((o.events + layout_ops_from(style0, rest, cx, cy).events)
                                    .subrange(0, o.events.len() as int) =~= o.events);
                            }
                            assert(target.events =~= emitted);
                        }
                        return LayoutResult::OutOfBounds;
                    }
                    proof {
                        let rec = layout_ops_from(style0, rest1, cursor.x as int, cursor.y as int);
                        assert(layout_ops_from(style0, rest, cx, cy).events == o.events
                            + rec.events);
                        assert(emitted0 + (o.events + rec.events) =~= emitted + rec.events);
                    }
                },
            }
            k = k + 1;
        }
        proof {
            assert(all.skip(k as int) =~= Seq::<OpV>::empty());
            let o = layout_ops_from(style, all.skip(k as int), cursor.x as int, cursor.y as int);
            assert(o.events == Seq::<SinkEvent>::empty());
            assert(target.events =~= emitted);
            assert(sink.trace() =~= old(sink).trace() + target.events);
        }
        LayoutResult::Fitting
    }
}

// ---------------------------------------------------------------------------
// TextLayout construction and formatted rendering
// ---------------------------------------------------------------------------

/// The default style of a fresh layout over `bounds`.
pub open spec fn default_text_layout(bounds: Rect) -> TextLayout {
    TextLayout {
        bounds,
        background_color: Color { value: 0x0000 },
        text_color: Color { value: 0xFFFF },
        text_font: Font { id: 1 },
        line_breaking: LineBreaking::BreakAtWhitespace,
        hyphen_font: Font { id: 2 },
        hyphen_color: Color { value: 0xCE59 },
        page_breaking: PageBreaking::CutAndInsertEllipsis,
        ellipsis_font: Font { id: 2 },
        ellipsis_color: Color { value: 0xCE59 },
    }
}

impl TextLayout {
    pub fn new(bounds: Rect) -> (l: TextLayout)
        ensures
            l == default_text_layout(bounds),
    {
        TextLayout {
            bounds,
            background_color: crate::theme::bg(),
            text_color: crate::theme::fg(),
            text_font: crate::theme::font_normal(),
            line_breaking: LineBreaking::BreakAtWhitespace,
            hyphen_font: crate::theme::font_bold(),
            hyphen_color: crate::theme::grey_light(),
            page_breaking: PageBreaking::CutAndInsertEllipsis,
            ellipsis_font: crate::theme::font_bold(),
            ellipsis_color: crate::theme::grey_light(),
        }
    }

    /// The outcome of flowing `format`, resolved under `args`, into this
    /// layout from its top-left corner.
    pub open spec fn render_outcome(self, format: Seq<u8>, args: Map<Seq<u8>, Seq<u8>>) -> LayoutOutcome {
        layout_ops_from(
            self,
            resolve_ops(format, tokenize_from(format, 0), args),
            self.bounds.x0 as int,
            self.bounds.y0 + line_height_spec(self.text_font),
        )
    }

    /// Tokenize `format`, resolve its placeholders under `args`, flow the
    /// result into the bounds, and append the drawn text to `frame`.
    pub fn render_formatted(
        self,
        format: &[u8],
        args: &heapless::LinearMap<Vec<u8>, Vec<u8>, MAX_ARGUMENTS>,
        frame: &mut Vec<DrawCall>,
    ) -> (r: LayoutResult)
        requires
            self.wf(),
            ops_text_len(resolve_ops(format@, tokenize_from(format@, 0), arg_entries(*args)))
                <= MAX_TEXT,
        ensures
            ({
                let o = self.render_outcome(format@, arg_entries(*args));
                &&& frame_view(final(frame)@) == frame_view(old(frame)@) + render_calls(o.events)
                &&& (r == LayoutResult::OutOfBounds <==> o.oob)
            }),
    {
        proof {
            lemma_ops_text_len_nonneg(
                resolve_ops(format@, tokenize_from(format@, 0), arg_entries(*args)),
            );
        }
        let mut cursor = Point::new(self.bounds.x0, self.bounds.y0 + self.text_font.line_height());
        let tokenizer = Tokenizer::new(format);
        let ops = tokenizer.into_ops(args);
        let mut renderer = TextRenderer::new();
        let res = self.layout_op_stream(&ops, &mut cursor, &mut renderer);
        renderer.draw_into(frame);
        proof {
            let o = self.render_outcome(format@, arg_entries(*args));
            assert(renderer.trace() =~= o.events);
        }
        res
    }
}

// ---------------------------------------------------------------------------
// The Text component
// ---------------------------------------------------------------------------

/// A block of formatted text: a template, the bindings of its placeholders,
/// and the layout style to flow it with.
pub struct Text {
    pub layout: TextLayout,
    pub format: Vec<u8>,
    pub args: heapless::LinearMap<Vec<u8>, Vec<u8>, MAX_ARGUMENTS>,
}

impl Text {
    pub open spec fn wf_spec(self) -> bool {
        &&& self.layout.wf()
        &&& arg_count(self.args) <= MAX_ARGUMENTS
    }

    /// The operation stream this component resolves to.
    pub open spec fn resolved(self) -> Seq<OpV> {
        resolve_ops(
            self.format@,
            tokenize_from(self.format@, 0),
            arg_entries(self.args),
        )
    }

    pub fn new(area: Rect) -> (t: Text)
        ensures
            t.layout == default_text_layout(area),
            t.format@ == Seq::<u8>::empty(),
            arg_entries(t.args) == Map::<Seq<u8>, Seq<u8>>::empty(),
            arg_count(t.args) == 0,
    {
        let t = Text { layout: TextLayout::new(area), format: Vec::new(), args: args_new() };
        t
    }

    /// Set the format template.
    pub fn format(self, format: &[u8]) -> (t: Text)
        ensures
            t.format@ == format@,
            t.layout == self.layout,
            t.args == self.args,
    {
        Text { format: vstd::slice::slice_to_vec(format), ..self }
    }

    /// Bind `key` to `value`; once the argument map is full the binding is
    /// silently ignored.
    pub fn with(self, key: &[u8], value: &[u8]) -> (t: Text)
        ensures
            t.layout == self.layout,
            t.format == self.format,
            arg_entries(self.args).contains_key(key@) ==> arg_entries(t.args) == arg_entries(
                self.args,
            ).insert(key@, value@) && arg_count(t.args) == arg_count(self.args),
            !arg_entries(self.args).contains_key(key@) && arg_count(self.args) < MAX_ARGUMENTS
                ==> arg_entries(t.args) == arg_entries(self.args).insert(key@, value@)
                && arg_count(t.args) == arg_count(self.args) + 1,
            !arg_entries(self.args).contains_key(key@) && arg_count(self.args) >= MAX_ARGUMENTS
                ==> arg_entries(t.args) == arg_entries(self.args) && arg_count(t.args)
                == arg_count(self.args),
    {
        let mut t = self;
        args_insert(&mut t.args, vstd::slice::slice_to_vec(key), vstd::slice::slice_to_vec(value));
        t
    }

    pub fn with_text_font(self, text_font: Font) -> (t: Text)
        ensures
            t == (Text { layout: TextLayout { text_font, ..self.layout }, ..self }),
    {
        let mut t = self;
        t.layout.text_font = text_font;
        t
    }

    pub fn with_text_color(self, text_color: Color) -> (t: Text)
        ensures
            t == (Text { layout: TextLayout { text_color, ..self.layout }, ..self }),
    {
        let mut t = self;
        t.layout.text_color = text_color;
        t
    }

    pub fn with_line_breaking(self, line_breaking: LineBreaking) -> (t: Text)
        ensures
            t == (Text { layout: TextLayout { line_breaking, ..self.layout }, ..self }),
    {
        let mut t = self;
        t.layout.line_breaking = line_breaking;
        t
    }

    /// The current layout style.
    pub fn layout(&self) -> (l: TextLayout)
        ensures
            l == self.layout,
    {
        self.layout
    }

    /// Replace the layout style.
    pub fn set_layout(&mut self, layout: TextLayout)
        ensures
            *final(self) == (Text { layout, ..*old(self) }),
    {
        self.layout = layout;
    }
}

/// Whether the text operations in `ops` stay within the layout budget.
fn ops_budget_ok(ops: &Vec<Op>) -> (ok: bool)
    ensures
        ok <==> ops_text_len(ops_view(ops@)) <= MAX_TEXT,
{
    let ghost all = ops_view(ops@);
    let mut acc: usize = 0;
    let mut k: usize = 0;
    proof {
        assert(all.skip(0) =~= all);
    }
    while k < ops.len()
        invariant
            all == ops_view(ops@),
            k <= ops@.len(),
            ops@.len() == all.len(),
            0 <= acc <= MAX_TEXT,
            ops_text_len(all) == acc + ops_text_len(all.skip(k as int)),
        decreases ops@.len() - k,
    {
        let ghost rest = all.skip(k as int);
        let ghost rest1 = all.skip(k as int + 1);
        proof {
            assert(rest[0] == ops@[k as int]@);
            assert(rest.drop_first() =~= rest1);
            lemma_ops_text_len_nonneg(rest1);
        }
        match &ops[k] {
            Op::Text(t) => {
                if t.len() > MAX_TEXT - acc {
                    return false;
                }
                acc = acc + t.len();
            },
            Op::Color(_) => {},
            Op::Font(_) => {},
        }
        k = k + 1;
    }
    proof {
        assert(all.skip(k as int) =~= Seq::<OpV>::empty());
    }
    true
}

/// The draw calls one paint pass of a text component emits: the rendering
/// of its resolved operation stream, or nothing at all if that stream
/// exceeds the layout budget.
pub open spec fn text_paint_calls(t: Text) -> Seq<DrawCallV> {
    if ops_text_len(t.resolved()) <= MAX_TEXT {
        render_calls(t.layout.render_outcome(t.format@, arg_entries(t.args)).events)
    } else {
        Seq::empty()
    }
}

impl Component for Text {
    type Msg = Never;

    open spec fn wf(self) -> bool {
        self.wf_spec()
    }

    open spec fn next(self, event: Event) -> Text {
        self
    }

    open spec fn message(self, event: Event) -> Option<Never> {
        None
    }

    open spec fn requests_paint(self, event: Event) -> bool {
        false
    }

    open spec fn paint_calls(self) -> Seq<DrawCallV> {
        text_paint_calls(self)
    }

    open spec fn painted(self) -> Text {
        self
    }

    /// A text block ignores events.
    fn event(&mut self, ctx: &mut EventCtx, event: Event) -> (msg: Option<Never>) {
        None
    }

    /// Re-run tokenizer, resolver and layout driver, and draw the result. A
    /// resolved stream larger than the layout budget is not laid out: the
    /// pass draws nothing rather than risk cursor arithmetic overflow.
    fn paint(&mut self, frame: &mut Vec<DrawCall>) {
        let tokenizer = Tokenizer::new(self.format.as_slice());
        let ops = tokenizer.into_ops(&self.args);
        if ops_budget_ok(&ops) {
            let mut cursor = Point::new(
                self.layout.bounds.x0,
                self.layout.bounds.y0 + self.layout.text_font.line_height(),
            );
            let mut renderer = TextRenderer::new();
            self.layout.layout_op_stream(&ops, &mut cursor, &mut renderer);
            renderer.draw_into(frame);
            proof {
                assert(frame_view(frame@) =~= frame_view(old(frame)@) + old(self).paint_calls());
            }
        } else {
            proof {
                assert(frame_view(frame@) =~= frame_view(old(frame)@) + old(self).paint_calls());
            }
        }
    }
}

// ---------------------------------------------------------------------------
// Laws of the tokenizer and the layout driver
// ---------------------------------------------------------------------------

/// Whether every placeholder from `pos` on is closed before the template
/// ends: the inputs on which the tokenizer drops nothing.
pub open spec fn balanced_from(input: Seq<u8>, pos: int) -> bool
    decreases input.len() - pos,
{
    if pos < 0 || pos >= input.len() {
        true
    } else if input[pos] == OPEN_BRACE {
        let close = find_byte(input, pos + 1, CLOSE_BRACE);
        proof {
            lemma_find_byte(input, pos + 1, CLOSE_BRACE);
        }
        close < input.len() && balanced_from(input, close + 1)
    } else {
        let open = find_byte(input, pos + 1, OPEN_BRACE);
        proof {
            lemma_find_byte(input, pos + 1, OPEN_BRACE);
        }
        balanced_from(input, open)
    }
}

/// Reassemble a token sequence: literal ranges verbatim, argument ranges
/// with their braces put back.
pub open spec fn detok(input: Seq<u8>, tokens: Seq<TokenV>) -> Seq<u8>
    decreases tokens.len(),
{
    if tokens.len() == 0 {
        Seq::empty()
    } else {
        (match tokens[0] {
            TokenV::Literal { start, end } => input.subrange(start, end),
            TokenV::Argument { start, end } => seq![OPEN_BRACE] + input.subrange(start, end)
                + seq![CLOSE_BRACE],
        }) + detok(input, tokens.drop_first())
    }
}

/// Whether no literal token holds an opening brace.
pub open spec fn literals_brace_free(input: Seq<u8>, tokens: Seq<TokenV>) -> bool
    decreases tokens.len(),
{
    if tokens.len() == 0 {
        true
    } else {
        (match tokens[0] {
            TokenV::Literal { start, end } => forall|j: int|
                start <= j < end ==> input[j] != OPEN_BRACE,
            TokenV::Argument { start, end } => true,
        }) && literals_brace_free(input, tokens.drop_first())
    }
}

proof fn lemma_round_trip_from(input: Seq<u8>, pos: int)
    requires
        0 <= pos <= input.len(),
        balanced_from(input, pos),
    ensures
        detok(input, tokenize_from(input, pos)) == input.subrange(pos, input.len() as int),
        literals_brace_free(input, tokenize_from(input, pos)),
    decreases input.len() - pos,
{
    let toks = tokenize_from(input, pos);
    if pos >= input.len() {
        assert(detok(input, toks) =~= input.subrange(pos, input.len() as int));
    } else if input[pos] == OPEN_BRACE {
        let close = find_byte(input, pos + 1, CLOSE_BRACE);
        lemma_find_byte(input, pos + 1, CLOSE_BRACE);
        lemma_round_trip_from(input, close + 1);
        let rest = tokenize_from(input, close + 1);
        assert(toks == seq![TokenV::Argument { start: pos + 1, end: close }] + rest);
        assert(toks.drop_first() =~= rest);
        assert(toks[0] == (TokenV::Argument { start: pos + 1, end: close }));
        assert(detok(input, toks) == (seq![OPEN_BRACE] + input.subrange(pos + 1, close) + seq![
            CLOSE_BRACE,
        ]) + detok(input, rest));
        assert(input[close] == CLOSE_BRACE);
        assert(detok(input, toks) =~= input.subrange(pos, input.len() as int));
    } else {
        let open = find_byte(input, pos + 1, OPEN_BRACE);
        lemma_find_byte(input, pos + 1, OPEN_BRACE);
        lemma_round_trip_from(input, open);
        let rest = tokenize_from(input, open);
        assert(toks == seq![TokenV::Literal { start: pos, end: open }] + rest);
        assert(toks.drop_first() =~= rest);
        assert(toks[0] == (TokenV::Literal { start: pos, end: open }));
        assert(detok(input, toks) == input.subrange(pos, open) + detok(input, rest));
        assert(detok(input, toks) =~= input.subrange(pos, input.len() as int));
        assert(forall|j: int| pos <= j < open ==> input[j] != OPEN_BRACE);
    }
}

/// Tokenizer round trip: on a template whose placeholders are all closed,
/// putting the braces back around every argument token and concatenating
/// all tokens in order reconstructs the template exactly, and no literal
/// token holds an opening brace — so once every argument is substituted by
/// brace-free text, no unresolved `{...}` marker can remain.
pub proof fn lemma_tokenizer_round_trip(input: Seq<u8>)
    requires
        balanced_from(input, 0),
    ensures
        detok(input, tokenize_from(input, 0)) == input,
        literals_brace_free(input, tokenize_from(input, 0)),
{
    lemma_round_trip_from(input, 0);
    assert(input.subrange(0, input.len() as int) =~= input);
}

proof fn lemma_fit_from_progress(
    text: Seq<u8>,
    max_width: int,
    text_font: Font,
    hyphen_font: Font,
    breaking: LineBreaking,
    i: int,
    span_width: int,
    found_ws: bool,
    best: SpanV,
)
    requires
        0 <= i <= text.len(),
        text.len() > 0,
        best.length >= 1 || best.skip >= 1,
    ensures
        ({
            let s = fit_from(text, max_width, text_font, hyphen_font, breaking, i, span_width,
                found_ws, best);
            s.length >= 1 || s.skip >= 1
        }),
    decreases text.len() - i,
{
    if i < text.len() {
        let ch = text[i];
        let char_width = glyph_advance(text_font);
        if is_whitespace(ch) {
            if ch == 10 || ch == 13 {
            } else {
                let candidate = SpanV {
                    length: i,
                    skip: 1,
                    advance_x: span_width,
                    advance_y: line_height_spec(text_font),
                    hyphen: false,
                };
                lemma_fit_from_progress(text, max_width, text_font, hyphen_font, breaking, i + 1,
                    span_width + char_width, true, candidate);
            }
        } else if span_width + char_width > max_width {
        } else {
            let have_space = span_width + char_width + glyph_advance(hyphen_font) <= max_width;
            let can_break = breaking == LineBreaking::BreakWordsAndInsertHyphen || !found_ws;
            let best2 = if have_space && can_break {
                SpanV {
                    length: i + 1,
                    skip: 0,
                    advance_x: span_width + char_width,
                    advance_y: line_height_spec(text_font),
                    hyphen: true,
                }
            } else {
                best
            };
            lemma_fit_from_progress(text, max_width, text_font, hyphen_font, breaking, i + 1,
                span_width + char_width, found_ws, best2);
        }
    }
}

/// Span progress: on non-empty text with a positive budget, the engine
/// consumes at least one byte — a fitted character or a discarded break
/// byte — provided the first character is whitespace or fits together with
/// a break hyphen. (With a budget that holds one glyph but not glyph plus
/// hyphen, and no whitespace, the engine returns the empty forced break
/// instead: the zero-progress case its callers must handle.)
pub proof fn lemma_span_progress(
    text: Seq<u8>,
    max_width: int,
    text_font: Font,
    hyphen_font: Font,
    breaking: LineBreaking,
)
    requires
        text.len() > 0,
        max_width > 0,
        is_whitespace(text[0]) || glyph_advance(text_font) + glyph_advance(hyphen_font)
            <= max_width,
    ensures
        ({
            let s = fit_spec(text, max_width, text_font, hyphen_font, breaking);
            s.length >= 1 || s.skip >= 1
        }),
{
    let init = SpanV {
        length: 0,
        skip: 0,
        advance_x: 0,
        advance_y: line_height_spec(text_font),
        hyphen: false,
    };
    let ch = text[0];
    let char_width = glyph_advance(text_font);
    if is_whitespace(ch) {
        if ch == 10 || ch == 13 {
        } else {
            let candidate = SpanV {
                length: 0,
                skip: 1,
                advance_x: 0,
                advance_y: line_height_spec(text_font),
                hyphen: false,
            };
            lemma_fit_from_progress(text, max_width, text_font, hyphen_font, breaking, 1,
                char_width, true, candidate);
        }
    } else {
        let best2 = SpanV {
            length: 1,
            skip: 0,
            advance_x: char_width,
            advance_y: line_height_spec(text_font),
            hyphen: true,
        };
        lemma_fit_from_progress(text, max_width, text_font, hyphen_font, breaking, 1, char_width,
            false, best2);
    }
}

/// Vertical monotonicity: across a single layout pass the cursor ordinate
/// never decreases, and it increases exactly once — by exactly that
/// break's advance, always positive — per line break the cursor takes.
pub proof fn lemma_vertical_monotonicity(l: TextLayout, text: Seq<u8>, cx: int, cy: int)
    requires
        l.wf(),
    ensures
        ({
            let o = layout_text_from(l, text, cx, cy);
            &&& cy <= o.y
            &&& o.y == cy + sum_of(o.breaks)
            &&& forall|i: int| 0 <= i < o.breaks.len() ==> #[trigger] o.breaks[i] > 0
        }),
{
    lemma_layout_text_cursor(l, text, cx, cy);
}

/// At most one terminator per break: in the event stream of a layout pass
/// an ellipsis never follows a hyphen — each line break ends in one or the
/// other, never both. The first event of a pass is always plain text.
pub proof fn lemma_one_terminator_per_break(l: TextLayout, text: Seq<u8>, cx: int, cy: int)
    ensures
        ({
            let o = layout_text_from(l, text, cx, cy);
            &&& forall|i: int|
                1 <= i < o.events.len() ==> !((o.events[i - 1] is Hyphen) && ((#[trigger]
                o.events[i]) is Ellipsis))
            &&& o.events.len() > 0 ==> o.events[0] is Text
        }),
    decreases text.len(), vstd::math::max(l.bounds.y1 - cy, 0),
{
    let o = layout_text_from(l, text, cx, cy);
    if text.len() == 0 {
    } else {
        let s = fit_spec(text, l.bounds.x1 - cx, l.text_font, l.hyphen_font, l.line_breaking);
        lemma_fit_spec_shape(text, l.bounds.x1 - cx, l.text_font, l.hyphen_font, l.line_breaking);
        let consumed = s.length + s.skip;
        let rest = text.subrange(consumed, text.len() as int);
        let ev_text = SinkEvent::Text { x: cx, y: cy, layout: l, bytes: text.subrange(0, s.length) };
        let x1 = cx + s.advance_x;
        if s.advance_y > 0 {
            let hyph: Seq<SinkEvent> = if s.hyphen {
                seq![SinkEvent::Hyphen { x: x1, y: cy, layout: l }]
            } else {
                Seq::empty()
            };
            if cy + s.advance_y > l.bounds.y1 {
                let ell: Seq<SinkEvent> = if rest.len() > 0 && l.page_breaking
                    == PageBreaking::CutAndInsertEllipsis && !s.hyphen {
                    seq![SinkEvent::Ellipsis { x: x1, y: cy, layout: l }]
                } else {
                    Seq::empty()
                };
                assert(o.events == seq![ev_text] + hyph + ell + seq![SinkEvent::OutOfBounds]);
                assert forall|i: int|
                    1 <= i < o.events.len() implies !((o.events[i - 1] is Hyphen) && (
                #[trigger] o.events[i]) is Ellipsis) by {
                    if s.hyphen {
                        assert(ell =~= Seq::<SinkEvent>::empty());
                        assert(o.events[0] == ev_text);
                        assert(o.events[1] == hyph[0]);
                        assert(o.events[2] == SinkEvent::OutOfBounds);
                    } else {
                        assert(hyph =~= Seq::<SinkEvent>::empty());
                        assert(forall|k: int|
                            0 <= k < o.events.len() ==> !((#[trigger] o.events[k]) is Hyphen));
                    }
                }
            } else {
                lemma_one_terminator_per_break(l, rest, l.bounds.x0 as int, cy + s.advance_y);
                let rec = layout_text_from(l, rest, l.bounds.x0 as int, cy + s.advance_y);
                assert(o.events == seq![ev_text] + hyph + rec.events);
                let plen = 1 + hyph.len();
                assert forall|i: int|
                    1 <= i < o.events.len() implies !((o.events[i - 1] is Hyphen) && (
                #[trigger] o.events[i]) is Ellipsis) by {
                    if i < plen {
                        assert(o.events[i - 1] == ev_text);
                    } else if i == plen {
                        if rec.events.len() > 0 {
                            assert(o.events[i] == rec.events[0]);
                            assert(rec.events[0] is Text);
                        }
                    } else {
                        assert(o.events[i - 1] == rec.events[i - 1 - plen]);
                        assert(o.events[i] == rec.events[i - plen]);
                    }
                }
                assert(o.events[0] == ev_text);
            }
        } else {
            assert(o.events == seq![ev_text]);
        }
    }
}

/// A text block traces as its format template.
impl Trace for Text {
    open spec fn trace_tokens(self) -> Seq<TraceToken> {
        seq![
            TraceToken::Open("Text"@),
            TraceToken::Field("text"@),
            TraceToken::Bytes(self.format@),
            TraceToken::Close,
        ]
    }

    fn trace(&self, t: &mut TraceRecorder) {
        t.open("Text");
        t.field("text");
        t.bytes(self.format.as_slice());
        t.close();
        proof {
            assert(t.log() =~= old(t).log() + self.trace_tokens());
        }
    }
}

/// The same law over a whole operation stream: the driver never lets an
/// ellipsis follow a hyphen, within one text block or across two.
pub proof fn lemma_one_terminator_per_break_ops(l: TextLayout, ops: Seq<OpV>, cx: int, cy: int)
    ensures
        ({
            let o = layout_ops_from(l, ops, cx, cy);
            &&& forall|i: int|
                1 <= i < o.events.len() ==> !((o.events[i - 1] is Hyphen) && ((#[trigger]
                o.events[i]) is Ellipsis))
            &&& o.events.len() > 0 ==> o.events[0] is Text
        }),
    decreases ops.len(),
{
    let o = layout_ops_from(l, ops, cx, cy);
    if ops.len() > 0 {
        match ops[0] {
            OpV::Color(c) => {
                lemma_one_terminator_per_break_ops(
                    TextLayout { text_color: c, ..l },
                    ops.drop_first(),
                    cx,
                    cy,
                );
            },
            OpV::Font(f) => {
                lemma_one_terminator_per_break_ops(
                    TextLayout { text_font: f, ..l },
                    ops.drop_first(),
                    cx,
                    cy,
                );
            },
            OpV::Text(t) => {
                lemma_one_terminator_per_break(l, t, cx, cy);
                let ot = layout_text_from(l, t, cx, cy);
                if !ot.oob {
                    let rec = layout_ops_from(l, ops.drop_first(), ot.x, ot.y);
                    lemma_one_terminator_per_break_ops(l, ops.drop_first(), ot.x, ot.y);
                    assert(o.events == ot.events + rec.events);
                    let plen = ot.events.len() as int;
                    assert forall|i: int|
                        1 <= i < o.events.len() implies !((o.events[i - 1] is Hyphen) && ((
                    #[trigger] o.events[i]) is Ellipsis)) by {
                        if i < plen {
                            assert(o.events[i - 1] == ot.events[i - 1]);
                            assert(o.events[i] == ot.events[i]);
                        } else if i == plen {
                            if rec.events.len() > 0 {
                                assert(o.events[i] == rec.events[0]);
                                assert(rec.events[0] is Text);
                            }
                        } else {
                            assert(o.events[i - 1] == rec.events[i - 1 - plen]);
                            assert(o.events[i] == rec.events[i - plen]);
                        }
                    }
                }
            },
        }
    }
}

/// The bytes of the text operations of a stream, concatenated in order.
pub open spec fn ops_flat(ops: Seq<OpV>) -> Seq<u8>
    decreases ops.len(),
{
    if ops.len() == 0 {
        Seq::empty()
    } else {
        (match ops[0] {
            OpV::Text(t) => t,
            _ => Seq::empty(),
        }) + ops_flat(ops.drop_first())
    }
}

/// Whether every token's byte range lies inside the template.
pub open spec fn tokens_in_range(input: Seq<u8>, tokens: Seq<TokenV>) -> bool
    decreases tokens.len(),
{
    if tokens.len() == 0 {
        true
    } else {
        (match tokens[0] {
            TokenV::Literal { start, end } => 0 <= start <= end <= input.len(),
            TokenV::Argument { start, end } => 0 <= start <= end <= input.len(),
        }) && tokens_in_range(input, tokens.drop_first())
    }
}

pub proof fn lemma_tokenize_in_range(input: Seq<u8>, pos: int)
    requires
        0 <= pos <= input.len(),
    ensures
        tokens_in_range(input, tokenize_from(input, pos)),
    decreases input.len() - pos,
{
    let toks = tokenize_from(input, pos);
    if pos >= input.len() {
    } else if input[pos] == OPEN_BRACE {
        let close = find_byte(input, pos + 1, CLOSE_BRACE);
        lemma_find_byte(input, pos + 1, CLOSE_BRACE);
        if close < input.len() {
            lemma_tokenize_in_range(input, close + 1);
            assert(toks.drop_first() =~= tokenize_from(input, close + 1));
        }
    } else {
        let open = find_byte(input, pos + 1, OPEN_BRACE);
        lemma_find_byte(input, pos + 1, OPEN_BRACE);
        lemma_tokenize_in_range(input, open);
        assert(toks.drop_first() =~= tokenize_from(input, open));
    }
}

proof fn lemma_resolved_brace_free_from(input: Seq<u8>, tokens: Seq<TokenV>, args: Map<
    Seq<u8>,
    Seq<u8>,
>)
    requires
        tokens_in_range(input, tokens),
        literals_brace_free(input, tokens),
        forall|k: Seq<u8>, j: int|
            args.contains_key(k) && 0 <= j < args[k].len() ==> (#[trigger] args[k][j])
                != OPEN_BRACE,
    ensures
        ({
            let flat = ops_flat(resolve_ops(input, tokens, args));
            forall|j: int| 0 <= j < flat.len() ==> (#[trigger] flat[j]) != OPEN_BRACE
        }),
    decreases tokens.len(),
{
    if tokens.len() > 0 {
        lemma_resolved_brace_free_from(input, tokens.drop_first(), args);
        let rest_ops = resolve_ops(input, tokens.drop_first(), args);
        let ops = resolve_ops(input, tokens, args);
        let flat = ops_flat(ops);
        match tokens[0] {
            TokenV::Literal { start, end } => {
                let piece = input.subrange(start, end);
                assert(ops == seq![OpV::Text(piece)] + rest_ops);
                assert(ops.drop_first() =~= rest_ops);
                assert(flat == piece + ops_flat(rest_ops));
                assert forall|j: int| 0 <= j < flat.len() implies (#[trigger] flat[j])
                    != OPEN_BRACE by {
                    if j < piece.len() {
                        assert(flat[j] == input[start + j]);
                    } else {
                        assert(flat[j] == ops_flat(rest_ops)[j - piece.len()]);
                    }
                }
            },
            TokenV::Argument { start, end } => {
                let name = input.subrange(start, end);
                if args.contains_key(name) {
                    let piece = args[name];
                    assert(ops == seq![OpV::Text(piece)] + rest_ops);
                    assert(ops.drop_first() =~= rest_ops);
                    assert(flat == piece + ops_flat(rest_ops));
                    assert forall|j: int| 0 <= j < flat.len() implies (#[trigger] flat[j])
                        != OPEN_BRACE by {
                        if j < piece.len() {
                            assert(piece[j] != OPEN_BRACE);
                        } else {
                            assert(flat[j] == ops_flat(rest_ops)[j - piece.len()]);
                        }
                    }
                } else {
                    assert(ops == rest_ops);
                }
            },
        }
    }
}

/// No unresolved markers: resolving a template whose placeholders all close
/// under bindings that hold no opening brace yields text with no opening
/// brace at all — so no `{...}` marker survives substitution.
pub proof fn lemma_no_unresolved_markers(input: Seq<u8>, args: Map<Seq<u8>, Seq<u8>>)
    requires
        balanced_from(input, 0),
        forall|k: Seq<u8>, j: int|
            args.contains_key(k) && 0 <= j < args[k].len() ==> (#[trigger] args[k][j])
                != OPEN_BRACE,
    ensures
        ({
            let flat = ops_flat(resolve_ops(input, tokenize_from(input, 0), args));
            forall|j: int| 0 <= j < flat.len() ==> (#[trigger] flat[j]) != OPEN_BRACE
        }),
{
    lemma_tokenizer_round_trip(input);
    lemma_tokenize_in_range(input, 0);
    lemma_resolved_brace_free_from(input, tokenize_from(input, 0), args);
}

} // verus!
