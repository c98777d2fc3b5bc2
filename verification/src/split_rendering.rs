//! Rendering a split's lines: soft wrapping of view tokens, which view lines
//! get a line number, the base tokens of the lines in view, selection and
//! decoration contexts, the drawn lines, and the split's areas and tabs.

use vstd::prelude::*;
use crate::ansi::{contains_ansi_codes, spec_contains_ansi_codes, spec_visible_char_count, visible_char_count, visible_prefix};
use crate::text_util::{sat_sub, min_int, str_chars, string_from_chars};
use crate::view_pipeline::{LineStart, TokenKindModel, ViewLine, ViewTokenStyle, ViewTokenWire, ViewTokenWireKind, offset_by, token_kind_model, utf8_bytes_len};
use crate::draw::{Color, Rect, Span, Style, ThemeColor, decimal, decimal_chars, align_right, push_align_right, utf8_len_of, lemma_utf8_bytes_len_bounds, lemma_decimal_len_usize};
use crate::syntect_highlighter::HighlightSpan;
use crate::cursor::{Cursor, Cursors, ViewPosition};
use crate::event::CursorId;
use crate::composite_buffer::{BufferId, SplitId};
use crate::overlay::{Overlay, OverlayHandle, OverlayManager, namespace_name};
use crate::lsp_diagnostics::{lsp_diagnostic_namespace, diagnostic_namespace_name};
use crate::text_buffer::count_newlines;
use crate::text_buffer::{Buffer, LineIterator, lines_from_byte, line_start_of, line_end_from, lemma_line_end_bounds};
use crate::text_util::{utf8_len, char_len_utf8};

verus! {

/// Abstract value of a view token.
pub struct TokenModel {
    pub off: Option<usize>,
    pub kind: TokenKindModel,
    pub style: Option<ViewTokenStyle>,
}

pub open spec fn token_model(t: ViewTokenWire) -> TokenModel {
    TokenModel { off: t.source_offset, kind: token_kind_model(t.kind), style: t.style }
}

pub open spec fn tokens_model(ts: Seq<ViewTokenWire>) -> Seq<TokenModel> {
    ts.map_values(|t: ViewTokenWire| token_model(t))
}

/// A soft break token.
pub open spec fn break_token() -> TokenModel {
    TokenModel { off: None, kind: TokenKindModel::Break, style: None }
}

/// Size of the next chunk of a split text: what is left of the text, at most
/// what is left of the line.
pub open spec fn chunk_size(n: int, idx: int, w: int, width: int) -> int {
    min_int(n - idx, sat_sub(w, width))
}

/// The piece of a long text starting at character `idx`.
pub open spec fn chunk_token(chars: Seq<char>, idx: int, size: int, base: Option<usize>, style: Option<ViewTokenStyle>) -> TokenModel {
    TokenModel { off: offset_by(base, idx), kind: TokenKindModel::Text(chars.subrange(idx, idx + size)), style }
}

/// Output and line width after emitting `chars[idx..]` in pieces that fill the
/// line (width `w`), breaking whenever the line is full.
pub open spec fn split_chunks(chars: Seq<char>, idx: int, base: Option<usize>, style: Option<ViewTokenStyle>, w: int,
    out: Seq<TokenModel>, width: int) -> (Seq<TokenModel>, int)
    decreases chars.len() - idx, if width > 0 { 1int } else { 0int },
{
    if w <= 0 || idx < 0 || idx >= chars.len() {
        (out, width)
    } else if chunk_size(chars.len() as int, idx, w, width) <= 0 {
        split_chunks(chars, idx, base, style, w, out.push(break_token()), 0)
    } else if width + chunk_size(chars.len() as int, idx, w, width) >= w {
        split_chunks(chars, idx + chunk_size(chars.len() as int, idx, w, width), base, style, w,
            out.push(chunk_token(chars, idx, chunk_size(chars.len() as int, idx, w, width), base, style)).push(break_token()), 0)
    } else {
        split_chunks(chars, idx + chunk_size(chars.len() as int, idx, w, width), base, style, w,
            out.push(chunk_token(chars, idx, chunk_size(chars.len() as int, idx, w, width), base, style)),
            width + chunk_size(chars.len() as int, idx, w, width))
    }
}

/// State before a text token is placed: a break first when it would overflow a
/// non-empty line.
pub open spec fn before_text(st: (Seq<TokenModel>, int), len: int, w: int) -> (Seq<TokenModel>, int) {
    if st.1 > 0 && st.1 + len > w { (st.0.push(break_token()), 0) } else { st }
}

/// Output and line width after one token is wrapped.
pub open spec fn wrap_step(st: (Seq<TokenModel>, int), t: TokenModel, w: int) -> (Seq<TokenModel>, int) {
    match t.kind {
        TokenKindModel::Newline => (st.0.push(t), 0),
        TokenKindModel::Break => (st.0.push(t), 0),
        TokenKindModel::Space => if st.1 >= w { (st.0.push(break_token()).push(t), 1) } else { (st.0.push(t), st.1 + 1) },
        TokenKindModel::Text(s) => if spec_visible_char_count(s) > w && !spec_contains_ansi_codes(s) {
            split_chunks(s, 0, t.off, t.style, w, before_text(st, spec_visible_char_count(s) as int, w).0,
                before_text(st, spec_visible_char_count(s) as int, w).1)
        } else {
            (before_text(st, spec_visible_char_count(s) as int, w).0.push(t),
                before_text(st, spec_visible_char_count(s) as int, w).1 + spec_visible_char_count(s))
        },
    }
}

/// Output and line width after wrapping the tokens `ts` to width `w`.
pub open spec fn wrap_run(ts: Seq<TokenModel>, w: int) -> (Seq<TokenModel>, int)
    decreases ts.len(),
{
    if ts.len() == 0 {
        (Seq::empty(), 0)
    } else {
        wrap_step(wrap_run(ts.drop_last(), w), ts.last(), w)
    }
}

/// Text lengths and offsets of the tokens stay well inside `usize`.
pub open spec fn wrap_fits(ts: Seq<ViewTokenWire>, content_width: usize) -> bool {
    &&& content_width <= usize::MAX / 2
    &&& forall|i: int| 0 <= i < ts.len() ==> match (#[trigger] ts[i]).kind {
        ViewTokenWireKind::Text(s) => s@.len() <= usize::MAX / 4 && match ts[i].source_offset {
            Some(b) => b + s@.len() <= usize::MAX,
            None => true,
        },
        _ => true,
    }
}

/// A soft break token.
fn make_break() -> (r: ViewTokenWire)
    ensures
        token_model(r) == break_token(),
{
    ViewTokenWire { source_offset: None, kind: ViewTokenWireKind::Break, style: None }
}

/// The characters `chars[from..to]`.
fn chars_between(chars: &Vec<char>, from: usize, to: usize) -> (r: Vec<char>)
    requires
        from <= to <= chars@.len(),
    ensures
        r@ == chars@.subrange(from as int, to as int),
{
    let mut out: Vec<char> = Vec::new();
    let mut i = from;
    while i < to
        invariant
            from <= i <= to,
            to <= chars@.len(),
            out@ == chars@.subrange(from as int, i as int),
        decreases to - i,
    {
        out.push(chars[i]);
        i += 1;
        proof {
            assert(out@ =~= chars@.subrange(from as int, i as int));
        }
    }
    out
}

/// Emit a long text in pieces that fill the line.
fn push_chunks(wrapped: &mut Vec<ViewTokenWire>, chars: &Vec<char>, base: Option<usize>, style: Option<ViewTokenStyle>,
    w: usize, width: usize) -> (r: usize)
    requires
        0 < w <= usize::MAX / 2,
        width <= w,
        base matches Some(b) ==> b + chars@.len() <= usize::MAX,
    ensures
        tokens_model(final(wrapped)@) == split_chunks(chars@, 0, base, style, w as int, tokens_model(old(wrapped)@), width as int).0,
        r == split_chunks(chars@, 0, base, style, w as int, tokens_model(old(wrapped)@), width as int).1,
        r <= w,
{
    let n = chars.len();
    let mut idx: usize = 0;
    let mut cur = width;
    while idx < n
        invariant
            n == chars@.len(),
            0 < w <= usize::MAX / 2,
            idx <= n,
            cur <= w,
            base matches Some(b) ==> b + chars@.len() <= usize::MAX,
            split_chunks(chars@, idx as int, base, style, w as int, tokens_model(wrapped@), cur as int)
                == split_chunks(chars@, 0, base, style, w as int, tokens_model(old(wrapped)@), width as int),
        decreases n - idx, if cur > 0 { 1int } else { 0int },
    {
        let remaining = n - idx;
        let room = w - cur;
        let size = if remaining <= room { remaining } else { room };
        let ghost before = tokens_model(wrapped@);
        if size == 0 {
            wrapped.push(make_break());
            proof {
                assert(tokens_model(wrapped@) =~= before.push(break_token()));
            }
            cur = 0;
            continue;
        }
        let piece = chars_between(chars, idx, idx + size);
        let text = string_from_chars(&piece);
        let off = match base {
            Some(b) => Some(b + idx),
            None => None,
        };
        wrapped.push(ViewTokenWire { source_offset: off, kind: ViewTokenWireKind::Text(text), style });
        proof {
            assert(tokens_model(wrapped@) =~= before.push(chunk_token(chars@, idx as int, size as int, base, style)));
        }
        cur = cur + size;
        idx = idx + size;
        if cur >= w {
            let ghost mid = tokens_model(wrapped@);
            wrapped.push(make_break());
            proof {
                assert(tokens_model(wrapped@) =~= mid.push(break_token()));
            }
            cur = 0;
        }
    }
    cur
}

/// Renders split panes and their content (view-centric).
pub struct SplitRenderer;

impl SplitRenderer {
    /// Apply line wrapping transform to tokens: break lines longer than the
    /// content width (less the gutter) by inserting Break tokens; long plain
    /// texts are split into pieces. With no room at all the tokens are kept.
    pub fn apply_wrapping_transform(tokens: Vec<ViewTokenWire>, content_width: usize, gutter_width: usize) -> (r: Vec<ViewTokenWire>)
        requires
            wrap_fits(tokens@, content_width),
        ensures
            content_width <= gutter_width ==> r@ == tokens@,
            content_width > gutter_width ==> tokens_model(r@)
                == wrap_run(tokens_model(tokens@), content_width - gutter_width).0,
    {
        let available_width = content_width.saturating_sub(gutter_width);
        if available_width == 0 {
            return tokens;
        }
        let ghost w = available_width as int;
        let ghost ts = tokens@;
        // Take the tokens out in order: reverse them onto a stack, then pop.
        let mut rest = tokens;
        let mut stack: Vec<ViewTokenWire> = Vec::new();
        while rest.len() > 0
            invariant
                rest@ + stack@.reverse() == ts,
            decreases rest@.len(),
        {
            let ghost r0 = rest@;
            let ghost s0 = stack@;
            let t = rest.pop().unwrap();
            stack.push(t);
            proof {
                assert(r0 =~= rest@.push(t));
                assert(stack@.reverse() =~= seq![t] + s0.reverse());
                assert(rest@ + stack@.reverse() =~= r0 + s0.reverse());
            }
        }
        proof {
            assert(rest@ =~= Seq::<ViewTokenWire>::empty());
            assert(stack@.reverse() =~= ts);
        }
        let mut wrapped: Vec<ViewTokenWire> = Vec::new();
        let mut current_line_width: usize = 0;
        let n = stack.len();
        let mut done: usize = 0;
        while stack.len() > 0
            invariant
                n == ts.len(),
                done + stack@.len() == n,
                stack@.reverse() == ts.subrange(done as int, n as int),
                wrap_fits(ts, content_width),
                0 < w <= usize::MAX / 2,
                w == available_width,
                (tokens_model(wrapped@), current_line_width as int) == wrap_run(tokens_model(ts.take(done as int)), w),
                current_line_width <= w || (current_line_width <= usize::MAX / 4),
            decreases stack@.len(),
        {
            let ghost s0 = stack@;
            let token = stack.pop().unwrap();
            proof {
                assert(s0 =~= stack@.push(token));
                assert(s0.reverse() =~= seq![token] + stack@.reverse());
                assert(s0.reverse()[0] == token);
                assert(ts.subrange(done as int, n as int)[0] == ts[done as int]);
                assert(ts[done as int] == token);
                assert(stack@.reverse() =~= s0.reverse().subrange(1, s0.len() as int));
                assert(ts.subrange(done as int, n as int).subrange(1, (n - done) as int) =~= ts.subrange(done as int + 1, n as int));
                assert(stack@.reverse() =~= ts.subrange(done as int + 1, n as int));
                assert(ts.take(done as int + 1).drop_last() =~= ts.take(done as int));
                assert(tokens_model(ts.take(done as int + 1)).drop_last() =~= tokens_model(ts.take(done as int)));
                assert(tokens_model(ts.take(done as int + 1)).last() == token_model(token));
            }
            let ghost before = tokens_model(wrapped@);
            let ghost prev_width = current_line_width as int;
            match &token.kind {
                ViewTokenWireKind::Newline => {
                    wrapped.push(token);
                    current_line_width = 0;
                    proof {
                        assert(tokens_model(wrapped@) =~= before.push(token_model(token)));
                    }
                },
                ViewTokenWireKind::Break => {
                    wrapped.push(token);
                    current_line_width = 0;
                    proof {
                        assert(tokens_model(wrapped@) =~= before.push(token_model(token)));
                    }
                },
                ViewTokenWireKind::Space => {
                    if current_line_width >= available_width {
                        wrapped.push(make_break());
                        current_line_width = 0;
                    }
                    let ghost mid = tokens_model(wrapped@);
                    wrapped.push(token);
                    current_line_width += 1;
                    proof {
                        assert(tokens_model(wrapped@) =~= mid.push(token_model(token)));
                        if prev_width >= w {
                            assert(mid =~= before.push(break_token()));
                        }
                    }
                },
                ViewTokenWireKind::Text(text) => {
                    let text_len = visible_char_count(text.as_str());
                    let plain = !contains_ansi_codes(text.as_str());
                    proof {
                        assert(text@.len() <= usize::MAX / 4) by {
                            assert(ts[done as int] == token);
                        }
                    }
                    if current_line_width > 0 && current_line_width + text_len > available_width {
                        wrapped.push(make_break());
                        current_line_width = 0;
                        proof {
                            assert(tokens_model(wrapped@) =~= before.push(break_token()));
                        }
                    }
                    if text_len > available_width && plain {
                        let chars = str_chars(text.as_str());
                        let base = token.source_offset;
                        let style = token.style;
                        proof {
                            assert(ts[done as int] == token);
                        }
                        current_line_width = push_chunks(&mut wrapped, &chars, base, style, available_width, current_line_width);
                    } else {
                        let ghost mid = tokens_model(wrapped@);
                        wrapped.push(token);
                        current_line_width += text_len;
                        proof {
                            assert(tokens_model(wrapped@) =~= mid.push(token_model(token)));
                        }
                    }
                },
            }
            done += 1;
        }
        proof {
            assert(ts.take(n as int) =~= ts);
        }
        wrapped
    }
}

/// Should this line show a line number in the gutter? Lines that start the
/// layout or follow a source newline do; lines after an injected newline do
/// when they show some source character; wrapped continuations do not.
pub fn should_show_line_number(view_line: &ViewLine) -> (r: bool)
    ensures
        r == match view_line.line_start {
            LineStart::Beginning | LineStart::AfterSourceNewline => true,
            LineStart::AfterInjectedNewline => exists|i: int| 0 <= i < view_line.char_mappings@.len()
                && (#[trigger] view_line.char_mappings@[i]) is Some,
            LineStart::AfterBreak => false,
        },
{
    match view_line.line_start {
        LineStart::Beginning | LineStart::AfterSourceNewline => true,
        LineStart::AfterInjectedNewline => {
            let m = &view_line.char_mappings;
            let n = m.len();
            let mut i: usize = 0;
            while i < n
                invariant
                    n == m@.len(),
                    m@ == view_line.char_mappings@,
                    view_line.line_start == LineStart::AfterInjectedNewline,
                    i <= n,
                    forall|j: int| 0 <= j < i ==> m@[j] is None,
                decreases n - i,
            {
                if m[i].is_some() {
                    proof {
                        assert(view_line.char_mappings@[i as int] is Some);
                    }
                    return true;
                }
                i += 1;
            }
            false
        },
        LineStart::AfterBreak => false,
    }
}


/// Whether byte `b` lies in one of the ranges.
pub open spec fn in_ranges(ranges: Seq<std::ops::Range<usize>>, b: usize) -> bool {
    exists|i: int| 0 <= i < ranges.len() && (#[trigger] ranges[i]).start <= b && b < ranges[i].end
}

/// The colour of the first span containing byte `b`.
pub open spec fn first_color(spans: Seq<HighlightSpan>, b: usize) -> Option<Color>
    decreases spans.len(),
{
    if spans.len() == 0 {
        None
    } else if spans[0].range.start <= b && b < spans[0].range.end {
        Some(spans[0].color)
    } else {
        first_color(spans.drop_first(), b)
    }
}

pub open spec fn selection_style() -> Style {
    Style { fg: Some(Color::Theme(ThemeColor::EditorFg)), bg: Some(Color::Theme(ThemeColor::SelectionBg)), bold: false }
}

/// Style of character `i` of a line with source mappings `maps`: selected
/// text in the selection colours; otherwise the syntax colour (or the editor
/// colour) in front and the word-occurrence colour, if any, behind.
pub open spec fn char_style(maps: Seq<Option<usize>>, i: int, ranges: Seq<std::ops::Range<usize>>,
    highlight: Seq<HighlightSpan>, semantic: Seq<HighlightSpan>) -> Style {
    let bp = if 0 <= i < maps.len() { maps[i] } else { None };
    match bp {
        Some(b) => if in_ranges(ranges, b) {
            selection_style()
        } else {
            Style {
                fg: Some(match first_color(highlight, b) { Some(c) => c, None => Color::Theme(ThemeColor::EditorFg) }),
                bg: first_color(semantic, b),
                bold: false,
            }
        },
        None => Style { fg: Some(Color::Theme(ThemeColor::EditorFg)), bg: None, bold: false },
    }
}

/// End of the run of equal styles that starts at `s`, looking from `e`.
pub open spec fn run_end(n: int, sty: spec_fn(int) -> Style, s: int, e: int) -> int
    decreases n - e,
{
    if e >= n || sty(e) != sty(s) { e } else { run_end(n, sty, s, e + 1) }
}

pub proof fn lemma_run_end_bounds(n: int, sty: spec_fn(int) -> Style, s: int, e: int)
    ensures
        run_end(n, sty, s, e) >= e,
        e <= n ==> run_end(n, sty, s, e) <= n,
    decreases n - e,
{
    if !(e >= n || sty(e) != sty(s)) {
        lemma_run_end_bounds(n, sty, s, e + 1);
    }
}

/// A run that has the style of `s` from `e` up to `i` ends at `i` when `i`
/// ends the text or changes style.
pub proof fn lemma_run_end_at(n: int, sty: spec_fn(int) -> Style, s: int, e: int, i: int)
    requires
        e <= i <= n,
        forall|j: int| e <= j < i ==> #[trigger] sty(j) == sty(s),
        i == n || sty(i) != sty(s),
    ensures
        run_end(n, sty, s, e) == i,
    decreases i - e,
{
    if e < i {
        lemma_run_end_at(n, sty, s, e + 1, i);
    }
}

/// The maximal runs of equally styled characters from position `s`.
pub open spec fn runs_from(text: Seq<char>, n: int, sty: spec_fn(int) -> Style, s: int) -> Seq<(Seq<char>, Style)>
    decreases n - s,
{
    if s >= n || s < 0 {
        Seq::empty()
    } else {
        let e = run_end(n, sty, s, s + 1);
        proof {
            lemma_run_end_bounds(n, sty, s, s + 1);
        }
        seq![(text.subrange(s, e), sty(s))] + runs_from(text, n, sty, e)
    }
}

pub open spec fn spans_view(s: Seq<Span>) -> Seq<(Seq<char>, Style)> {
    s.map_values(|x: Span| (x.text@, x.style))
}

/// The gutter of view line `line` shown as line number `global + 1`.
pub open spec fn gutter_chars(show_number: bool, global: nat) -> Seq<char> {
    if show_number {
        align_right(decimal(global + 1), 4) + seq![' ', '│', ' ']
    } else {
        seq![' ', ' ', ' ', ' ', ' ', ' ', '│', ' ']
    }
}

pub open spec fn gutter_style() -> Style {
    Style { fg: Some(Color::Theme(ThemeColor::LineNumberFg)), bg: Some(Color::Theme(ThemeColor::LineNumberBg)), bold: false }
}

/// Whether a view line gets a line number (as `should_show_line_number` decides).
pub open spec fn shows_number(l: ViewLine) -> bool {
    match l.line_start {
        LineStart::Beginning | LineStart::AfterSourceNewline => true,
        LineStart::AfterInjectedNewline => exists|i: int| 0 <= i < l.char_mappings@.len() && (#[trigger] l.char_mappings@[i]) is Some,
        LineStart::AfterBreak => false,
    }
}

/// The spans of a rendered view line: the gutter, then its runs of styles.
pub open spec fn line_spans(l: ViewLine, global: nat, ranges: Seq<std::ops::Range<usize>>,
    highlight: Seq<HighlightSpan>, semantic: Seq<HighlightSpan>) -> Seq<(Seq<char>, Style)> {
    seq![(gutter_chars(shows_number(l), global), gutter_style())]
        + runs_from(l.text@, l.text@.len() as int, |i: int| char_style(l.char_mappings@, i, ranges, highlight, semantic), 0)
}

fn first_color_at(spans: &Vec<HighlightSpan>, b: usize) -> (r: Option<Color>)
    ensures
        r == first_color(spans@, b),
{
    let n = spans.len();
    let mut i: usize = 0;
    proof {
        assert(spans@.skip(0) =~= spans@);
    }
    while i < n
        invariant
            n == spans@.len(),
            i <= n,
            first_color(spans@.skip(i as int), b) == first_color(spans@, b),
        decreases n - i,
    {
        proof {
            assert(spans@.skip(i as int)[0] == spans@[i as int]);
            assert(spans@.skip(i as int).drop_first() =~= spans@.skip(i + 1));
        }
        if spans[i].range.start <= b && b < spans[i].range.end {
            return Some(spans[i].color);
        }
        i += 1;
    }
    proof {
        assert(spans@.skip(n as int) =~= Seq::<HighlightSpan>::empty());
    }
    None
}

fn in_ranges_exec(ranges: &Vec<std::ops::Range<usize>>, b: usize) -> (r: bool)
    ensures
        r == in_ranges(ranges@, b),
{
    let n = ranges.len();
    let mut i: usize = 0;
    while i < n
        invariant
            n == ranges@.len(),
            i <= n,
            forall|j: int| 0 <= j < i ==> !((#[trigger] ranges@[j]).start <= b && b < ranges@[j].end),
        decreases n - i,
    {
        if ranges[i].start <= b && b < ranges[i].end {
            return true;
        }
        i += 1;
    }
    false
}

/// The style of each character of a view line.
fn line_styles(line: &ViewLine, ranges: &Vec<std::ops::Range<usize>>, highlight: &Vec<HighlightSpan>,
    semantic: &Vec<HighlightSpan>) -> (r: Vec<Style>)
    ensures
        r@.len() == line.text@.len(),
        forall|i: int| 0 <= i < r@.len() ==> #[trigger] r@[i] == char_style(line.char_mappings@, i, ranges@, highlight@, semantic@),
{
    let n = line.text.len();
    let mut out: Vec<Style> = Vec::new();
    let mut i: usize = 0;
    while i < n
        invariant
            n == line.text@.len(),
            i <= n,
            out@.len() == i,
            forall|j: int| 0 <= j < i ==> #[trigger] out@[j] == char_style(line.char_mappings@, j, ranges@, highlight@, semantic@),
        decreases n - i,
    {
        let bp = if i < line.char_mappings.len() { line.char_mappings[i] } else { None };
        let st = match bp {
            Some(b) => if in_ranges_exec(ranges, b) {
                Style { fg: Some(Color::Theme(ThemeColor::EditorFg)), bg: Some(Color::Theme(ThemeColor::SelectionBg)), bold: false }
            } else {
                let hc = first_color_at(highlight, b);
                let sc = first_color_at(semantic, b);
                Style { fg: Some(match hc { Some(c) => c, None => Color::Theme(ThemeColor::EditorFg) }), bg: sc, bold: false }
            },
            None => Style { fg: Some(Color::Theme(ThemeColor::EditorFg)), bg: None, bold: false },
        };
        out.push(st);
        i += 1;
    }
    out
}

/// Group the characters into spans of equal style, left to right.
fn group_runs(text: &Vec<char>, styles: &Vec<Style>, out: &mut Vec<Span>)
    requires
        styles@.len() == text@.len(),
    ensures
        spans_view(final(out)@) == spans_view(old(out)@) + runs_from(text@, text@.len() as int, |i: int| styles@[i], 0),
{
    let ghost sty = |i: int| styles@[i];
    let n = text.len();
    if n == 0 {
        proof {
            assert(spans_view(out@) =~= spans_view(out@) + runs_from(text@, 0, sty, 0));
        }
        return;
    }
    let mut start: usize = 0;
    let mut current = styles[0];
    let mut i: usize = 1;
    let ghost base = spans_view(out@);
    while i < n
        invariant
            n == text@.len(),
            n == styles@.len(),
            sty == (|i: int| styles@[i]),
            start < i <= n,
            current == styles@[start as int],
            forall|j: int| start <= j < i ==> styles@[j] == current,
            base + runs_from(text@, n as int, sty, start as int) == spans_view(old(out)@) + runs_from(text@, n as int, sty, 0),
            spans_view(out@) == base,
        decreases n - i,
    {
        let this_style = styles[i];
        if this_style != current {
            proof {
                lemma_run_end_at(n as int, sty, start as int, start + 1, i as int);
                assert(runs_from(text@, n as int, sty, start as int) == seq![(text@.subrange(start as int, i as int), sty(start as int))]
                    + runs_from(text@, n as int, sty, i as int));
            }
            let seg = string_from_chars(&chars_between(text, start, i));
            let ghost before = out@;
            out.push(Span { text: seg, style: current });
            proof {
                assert(spans_view(out@) =~= spans_view(before).push((text@.subrange(start as int, i as int), current)));
                assert(base.push((text@.subrange(start as int, i as int), current)) + runs_from(text@, n as int, sty, i as int)
                    =~= base + runs_from(text@, n as int, sty, start as int));
                base = spans_view(out@);
            }
            start = i;
            current = this_style;
        }
        i += 1;
    }
    proof {
        lemma_run_end_at(n as int, sty, start as int, start + 1, n as int);
        assert(runs_from(text@, n as int, sty, start as int) == seq![(text@.subrange(start as int, n as int), sty(start as int))]
            + runs_from(text@, n as int, sty, n as int));
    }
    let seg = string_from_chars(&chars_between(text, start, n));
    let ghost before = out@;
    out.push(Span { text: seg, style: current });
    proof {
        assert(spans_view(out@) =~= spans_view(before).push((text@.subrange(start as int, n as int), current)));
        assert(spans_view(out@) =~= spans_view(old(out)@) + runs_from(text@, n as int, sty, 0));
    }
}

/// Selections and cursor cells of the rendered buffer.
pub struct SelectionContext {
    /// Selected source byte ranges
    pub ranges: Vec<std::ops::Range<usize>>,
    pub block_rects: Vec<(usize, usize, usize, usize)>,
    pub cursor_positions: Vec<(u16, u16)>,
    pub primary_cursor_position: (u16, u16),
}

/// Colouring of the rendered buffer.
pub struct DecorationContext {
    /// Syntax highlighting spans
    pub highlight_spans: Vec<HighlightSpan>,
    /// Word-occurrence spans
    pub semantic_spans: Vec<HighlightSpan>,
    /// Overlays in the viewport, with their byte ranges
    pub viewport_overlays: Vec<(crate::overlay::OverlayHandle, std::ops::Range<usize>)>,
    /// Line numbers that hold a diagnostic
    pub diagnostic_lines: Vec<usize>,
}

/// What drawing a split's lines needs.
pub struct LineRenderInput<'a> {
    pub view_lines: &'a [ViewLine],
    /// First view line shown
    pub start_line_idx: usize,
    pub render_area: Rect,
    pub gutter_width: usize,
    pub selection: &'a SelectionContext,
    pub decorations: &'a DecorationContext,
    pub visible_line_count: usize,
    pub is_active: bool,
    /// Position of the primary cursor
    pub primary: ViewPosition,
    /// First column shown (horizontal scroll)
    pub left_column: usize,
}

/// Where the last drawn line ends.
#[derive(Clone, Copy, Debug)]
pub struct LastLineEnd {
    pub pos: (u16, u16),
    pub terminated_with_newline: bool,
}

/// The drawn lines, the cursor cell and where the last line ends.
pub struct LineRenderOutput {
    pub lines: Vec<Vec<Span>>,
    pub cursor: Option<(u16, u16)>,
    pub last_line_end: Option<LastLineEnd>,
    pub content_lines_rendered: usize,
}

/// Number of lines drawn: the visible count, at most what is left from `start`.
pub open spec fn drawn_count(len: int, start: int, visible: int) -> int {
    if sat_sub(len, start) <= visible { sat_sub(len, start) } else { visible }
}

/// Gutter width in characters of the `k`-th drawn line.
pub open spec fn gutter_len(lines: Seq<ViewLine>, start: int, k: int) -> int {
    gutter_chars(shows_number(lines[start + k]), (start + k) as nat).len() as int
}

/// The cursor cell: on the primary cursor's line when drawn and active,
/// when its column is within the columns shown.
pub open spec fn cursor_cell(lines: Seq<ViewLine>, start: int, n: int, area: Rect, active: bool, p: ViewPosition, left: int) -> Option<(u16, u16)> {
    if active && start <= p.view_line && p.view_line < start + n {
        let k = p.view_line - start;
        let gl = gutter_len(lines, start, k);
        let cw = sat_sub(area.width as int, gl);
        if left <= p.column && p.column < left + cw {
            Some(((area.x + gl + (p.column - left)) as u16, (k + area.y) as u16))
        } else {
            None
        }
    } else {
        None
    }
}

/// The end of the last drawn line.
pub open spec fn last_end(lines: Seq<ViewLine>, start: int, n: int, area: Rect) -> Option<LastLineEnd> {
    if n <= 0 {
        None
    } else {
        let l = lines[start + n - 1];
        Some(LastLineEnd {
            pos: ((gutter_len(lines, start, n - 1) + utf8_bytes_len(l.text@)) as u16, (n - 1 + area.y) as u16),
            terminated_with_newline: l.ends_with_newline,
        })
    }
}

/// The line's gutter text: its number right-aligned in four columns, or blanks.
fn gutter_for(line: &ViewLine, global: usize) -> (r: Vec<char>)
    requires
        global < usize::MAX,
    ensures
        r@ == gutter_chars(shows_number(*line), global as nat),
        r@.len() <= 23,
{
    proof {
        lemma_decimal_len_usize((global + 1) as usize);
    }
    let mut g: Vec<char> = Vec::new();
    if should_show_line_number(line) {
        let d = decimal_chars(global + 1);
        push_align_right(&mut g, &d, 4);
        g.push(' ');
        g.push('│');
        g.push(' ');
    } else {
        let mut k: usize = 0;
        while k < 6
            invariant
                k <= 6,
                g@ == Seq::new(k as nat, |i: int| ' '),
            decreases 6 - k,
        {
            g.push(' ');
            k += 1;
            proof {
                assert(g@ =~= Seq::new(k as nat, |i: int| ' '));
            }
        }
        g.push('│');
        g.push(' ');
    }
    proof {
        assert(g@ =~= gutter_chars(shows_number(*line), global as nat));
    }
    g
}

impl SplitRenderer {
    /// Draw the visible view lines: a gutter with line numbers, then the
    /// text in runs of equal style; find the cursor cell and where the last
    /// line ends.
    pub fn render_lines(input: LineRenderInput) -> (r: LineRenderOutput)
        requires
            input.start_line_idx + input.visible_line_count <= usize::MAX,
            input.render_area.y + drawn_count(input.view_lines@.len() as int, input.start_line_idx as int,
                input.visible_line_count as int) <= u16::MAX,
            input.render_area.x + input.render_area.width <= u16::MAX,
            input.left_column + input.render_area.width <= usize::MAX,
            forall|i: int| 0 <= i < input.view_lines@.len() ==> (#[trigger] input.view_lines@[i]).text@.len() <= usize::MAX / 8,
        ensures
            ({
                let n = drawn_count(input.view_lines@.len() as int, input.start_line_idx as int, input.visible_line_count as int);
                &&& r.content_lines_rendered == n
                &&& r.lines@.len() == n
                &&& forall|k: int| 0 <= k < n ==> spans_view(#[trigger] r.lines@[k]@) == line_spans(
                    input.view_lines@[input.start_line_idx + k], (input.start_line_idx + k) as nat,
                    input.selection.ranges@, input.decorations.highlight_spans@, input.decorations.semantic_spans@)
                &&& r.cursor == cursor_cell(input.view_lines@, input.start_line_idx as int, n, input.render_area,
                    input.is_active, input.primary, input.left_column as int)
                &&& r.last_line_end == last_end(input.view_lines@, input.start_line_idx as int, n, input.render_area)
            }),
    {
        let ghost lines = input.view_lines@;
        let start = input.start_line_idx;
        let ghost n = drawn_count(lines.len() as int, start as int, input.visible_line_count as int);
        let total = input.view_lines.len();
        let mut lines_out: Vec<Vec<Span>> = Vec::new();
        let mut cursor_pos: Option<(u16, u16)> = None;
        let mut last_line_end: Option<LastLineEnd> = None;
        let mut idx: usize = 0;
        while idx < input.visible_line_count && start < total && idx < total - start
            invariant
                lines == input.view_lines@,
                total == lines.len(),
                start == input.start_line_idx,
                n == drawn_count(lines.len() as int, start as int, input.visible_line_count as int),
                idx <= n,
                input.start_line_idx + input.visible_line_count <= usize::MAX,
                input.render_area.y + n <= u16::MAX,
                input.render_area.x + input.render_area.width <= u16::MAX,
                input.left_column + input.render_area.width <= usize::MAX,
                forall|i: int| 0 <= i < lines.len() ==> (#[trigger] lines[i]).text@.len() <= usize::MAX / 8,
                lines_out@.len() == idx,
                forall|k: int| 0 <= k < idx ==> spans_view(#[trigger] lines_out@[k]@) == line_spans(
                    lines[start + k], (start + k) as nat,
                    input.selection.ranges@, input.decorations.highlight_spans@, input.decorations.semantic_spans@),
                cursor_pos == cursor_cell(lines, start as int, idx as int, input.render_area, input.is_active, input.primary,
                    input.left_column as int),
                last_line_end == last_end(lines, start as int, idx as int, input.render_area),
            decreases total - start - idx,
        {
            let global_line_idx = start + idx;
            let view_line = &input.view_lines[global_line_idx];
            let gutter = gutter_for(view_line, global_line_idx);
            let glen = gutter.len();
            let mut spans: Vec<Span> = Vec::new();
            spans.push(Span {
                text: string_from_chars(&gutter),
                style: Style { fg: Some(Color::Theme(ThemeColor::LineNumberFg)), bg: Some(Color::Theme(ThemeColor::LineNumberBg)), bold: false },
            });
            let styles = line_styles(view_line, &input.selection.ranges, &input.decorations.highlight_spans, &input.decorations.semantic_spans);
            proof {
                let f1 = |i: int| styles@[i];
                let f2 = |i: int| char_style(view_line.char_mappings@, i, input.selection.ranges@,
                    input.decorations.highlight_spans@, input.decorations.semantic_spans@);
                lemma_runs_same_styles(view_line.text@, view_line.text@.len() as int, f1, f2, 0);
            }
            group_runs(&view_line.text, &styles, &mut spans);
            proof {
                assert(spans_view(spans@) =~= line_spans(lines[start + idx as int], (start + idx) as nat,
                    input.selection.ranges@, input.decorations.highlight_spans@, input.decorations.semantic_spans@));
            }
            lines_out.push(spans);
            let ghost old_cursor = cursor_pos;
            proof {
                assert(glen == gutter_len(lines, start as int, idx as int));
            }
            if input.is_active && cursor_pos.is_none() {
                let primary = input.primary;
                if primary.view_line == global_line_idx {
                    let left_col = input.left_column;
                    let content_width = input.render_area.width.saturating_sub(glen as u16);
                    if primary.column >= left_col && primary.column < left_col + content_width as usize {
                        let adjusted_col = primary.column - left_col;
                        cursor_pos = Some((
                            input.render_area.x + glen as u16 + adjusted_col as u16,
                            idx as u16 + input.render_area.y,
                        ));
                    }
                }
            }
            proof {
                lemma_utf8_bytes_len_bounds(view_line.text@);
                assert(cursor_pos == cursor_cell(lines, start as int, idx + 1, input.render_area, input.is_active, input.primary,
                    input.left_column as int));
            }
            let text_bytes = utf8_len_of(&view_line.text);
            last_line_end = Some(LastLineEnd {
                pos: ((glen + text_bytes) as u16, idx as u16 + input.render_area.y),
                terminated_with_newline: view_line.ends_with_newline,
            });
            idx += 1;
        }
        LineRenderOutput { lines: lines_out, cursor: cursor_pos, last_line_end, content_lines_rendered: idx }
    }
}

/// Runs depend only on the styles of the characters.
pub proof fn lemma_runs_same_styles(text: Seq<char>, n: int, f1: spec_fn(int) -> Style, f2: spec_fn(int) -> Style, s: int)
    requires
        forall|i: int| 0 <= i < n ==> #[trigger] f1(i) == f2(i),
    ensures
        runs_from(text, n, f1, s) == runs_from(text, n, f2, s),
    decreases n - s,
{
    if 0 <= s < n {
        lemma_run_end_same(n, f1, f2, s, s + 1);
        let e = run_end(n, f1, s, s + 1);
        lemma_run_end_bounds(n, f1, s, s + 1);
        lemma_runs_same_styles(text, n, f1, f2, e);
    }
}

proof fn lemma_run_end_same(n: int, f1: spec_fn(int) -> Style, f2: spec_fn(int) -> Style, s: int, e: int)
    requires
        forall|i: int| 0 <= i < n ==> #[trigger] f1(i) == f2(i),
        0 <= s < e,
    ensures
        run_end(n, f1, s, e) == run_end(n, f2, s, e),
    decreases n - e,
{
    if !(e >= n || f1(e) != f1(s)) {
        lemma_run_end_same(n, f1, f2, s, e + 1);
    }
}

/// UTF-8 length grows by each appended character's length.
pub proof fn lemma_utf8_bytes_len_push(s: Seq<char>, c: char)
    ensures
        utf8_bytes_len(s.push(c)) == utf8_bytes_len(s) + utf8_len(c),
    decreases s.len(),
{
    if s.len() > 0 {
        assert(s.push(c)[0] == s[0]);
        assert(s.push(c).drop_first() =~= s.drop_first().push(c));
        lemma_utf8_bytes_len_push(s.drop_first(), c);
    } else {
        assert(s.push(c)[0] == c);
        assert(s.push(c).drop_first() =~= Seq::<char>::empty());
        assert(utf8_bytes_len(Seq::<char>::empty()) == 0);
    }
}

/// The characters of a line starting at byte `st`, each with its source byte.
pub open spec fn line_chars(st: int, text: Seq<char>) -> Seq<(char, int)> {
    Seq::new(text.len(), |i: int| (text[i], st + utf8_bytes_len(text.take(i))))
}

/// The characters of several lines, in order, with their source bytes.
pub open spec fn lines_chars(lines: Seq<(int, Seq<char>)>) -> Seq<(char, int)>
    decreases lines.len(),
{
    if lines.len() == 0 {
        Seq::empty()
    } else {
        lines_chars(lines.drop_last()) + line_chars(lines.last().0, lines.last().1)
    }
}

pub open spec fn text_token(at: int, t: Seq<char>) -> TokenModel {
    TokenModel { off: Some(at as usize), kind: TokenKindModel::Text(t), style: None }
}

/// The last token is a text ending just before byte `at`.
pub open spec fn extends_last(ts: Seq<TokenModel>, at: int) -> bool {
    ts.len() > 0 && ts.last().off is Some && ts.last().kind is Text
        && ts.last().off.unwrap() + utf8_bytes_len(ts.last().kind->Text_0) == at
}

/// The tokens after one more character at byte `at`: newlines and spaces
/// are tokens of their own; other characters join the text token just
/// before them, or start a new one.
pub open spec fn token_after(ts: Seq<TokenModel>, ch: char, at: int) -> Seq<TokenModel> {
    if ch == '\n' {
        ts.push(TokenModel { off: Some(at as usize), kind: TokenKindModel::Newline, style: None })
    } else if ch == ' ' {
        ts.push(TokenModel { off: Some(at as usize), kind: TokenKindModel::Space, style: None })
    } else if extends_last(ts, at) {
        ts.update(ts.len() - 1, TokenModel { off: ts.last().off, kind: TokenKindModel::Text(ts.last().kind->Text_0.push(ch)), style: None })
    } else {
        ts.push(text_token(at, seq![ch]))
    }
}

pub open spec fn fold_tokens(cps: Seq<(char, int)>) -> Seq<TokenModel>
    decreases cps.len(),
{
    if cps.len() == 0 {
        Seq::empty()
    } else {
        token_after(fold_tokens(cps.drop_last()), cps.last().0, cps.last().1)
    }
}

/// The lines read for a viewport from `top` showing `visible` lines.
pub open spec fn base_lines(s: Seq<u8>, top: int, visible: int) -> Seq<(int, Seq<char>)> {
    lines_from_byte(s, line_start_of(s, top), (if visible + 4 <= usize::MAX { visible + 4 } else { usize::MAX as int }) as nat)
}

/// The base tokens of a viewport: the tokens of its lines' characters, or
/// a single empty text at `top` when there are none.
pub open spec fn spec_base_tokens(s: Seq<u8>, top: int, visible: int) -> Seq<TokenModel> {
    let ts = fold_tokens(lines_chars(base_lines(s, top, visible)));
    if ts.len() == 0 { seq![text_token(top, Seq::empty())] } else { ts }
}

/// Every read line's bytes, counted from its start, fit in a `usize`.
pub open spec fn base_tokens_fit(s: Seq<u8>, top: int, visible: int) -> bool {
    forall|i: int| 0 <= i < base_lines(s, top, visible).len()
        ==> (#[trigger] base_lines(s, top, visible)[i]).0 + utf8_bytes_len(base_lines(s, top, visible)[i].1) <= usize::MAX
}

pub open spec fn pending_tokens(p: Option<(usize, Vec<char>, usize)>) -> Seq<TokenModel> {
    match p {
        Some((o, cs, nb)) => seq![text_token(o as int, cs@)],
        None => Seq::empty(),
    }
}

fn text_token_exec(at: usize, cs: &Vec<char>) -> (r: ViewTokenWire)
    ensures
        token_model(r) == text_token(at as int, cs@),
{
    ViewTokenWire { source_offset: Some(at), kind: ViewTokenWireKind::Text(string_from_chars(cs)), style: None }
}

proof fn lemma_lines_from_byte_step(s: Seq<u8>, pos: int, m: nat)
    requires
        m > 0,
        0 <= pos < s.len(),
    ensures
        lines_from_byte(s, pos, m) == seq![(pos, lines_from_byte(s, pos, m)[0].1)] + lines_from_byte(s, line_end_from(s, pos), (m - 1) as nat),
{
}

impl SplitRenderer {
    fn build_base_tokens(buffer: &Buffer, top_byte: usize, estimated_line_length: usize, visible_count: usize) -> (r: Vec<ViewTokenWire>)
        requires
            base_tokens_fit(buffer@, top_byte as int, visible_count as int),
        ensures
            tokens_model(r@) == spec_base_tokens(buffer@, top_byte as int, visible_count as int),
    {
        let ghost s = buffer@;
        let ghost all = base_lines(s, top_byte as int, visible_count as int);
        let mut tokens: Vec<ViewTokenWire> = Vec::new();
        let mut pending: Option<(usize, Vec<char>, usize)> = None;
        let mut iter = buffer.line_iterator(top_byte, estimated_line_length);
        let mut lines_seen: usize = 0;
        let max_lines = visible_count.saturating_add(4);
        proof {
            assert(all == lines_from_byte(s, iter.pos as int, max_lines as nat));
            assert(all == all.take(0) + lines_from_byte(s, iter.pos as int, (max_lines - 0) as nat));
            assert(lines_chars(all.take(0)) =~= Seq::<(char, int)>::empty());
        }
        while lines_seen < max_lines
            invariant
                iter.buffer == buffer,
                s == buffer@,
                lines_seen <= max_lines,
                all == base_lines(s, top_byte as int, visible_count as int),
                base_tokens_fit(s, top_byte as int, visible_count as int),
                lines_seen <= all.len(),
                all == all.take(lines_seen as int) + lines_from_byte(s, iter.pos as int, (max_lines - lines_seen) as nat),
                tokens_model(tokens@) + pending_tokens(pending) == fold_tokens(lines_chars(all.take(lines_seen as int))),
                pending matches Some((o, cs, nb)) ==> nb == utf8_bytes_len(cs@) && o + nb <= usize::MAX && cs@.len() > 0,
                pending is None ==> tokens@.len() == 0 || !(tokens_model(tokens@).last().kind is Text),
            ensures
                all.take(lines_seen as int) == all,
                tokens_model(tokens@) + pending_tokens(pending) == fold_tokens(lines_chars(all.take(lines_seen as int))),
            decreases max_lines - lines_seen,
        {
            let ghost pos0 = iter.pos as int;
            match iter.next() {
                Some((line_start, content)) => {
                    proof {
                        lemma_lines_from_byte_step(s, pos0, (max_lines - lines_seen) as nat);
                        assert(all[lines_seen as int] == (line_start as int, content@));
                        assert(all.take(lines_seen + 1) =~= all.take(lines_seen as int).push((line_start as int, content@)));
                        assert(all.take(lines_seen + 1).drop_last() =~= all.take(lines_seen as int));
                        assert(line_start + utf8_bytes_len(content@) <= usize::MAX);
                    }
                    let chars = str_chars(content.as_str());
                    let ghost prev = lines_chars(all.take(lines_seen as int));
                    let ghost lc = line_chars(line_start as int, content@);
                    let n = chars.len();
                    let mut j: usize = 0;
                    let mut byte_offset: usize = 0;
                    proof {
                        assert(chars@.take(0) =~= Seq::<char>::empty());
                        assert(prev + lc.take(0) =~= prev);
                    }
                    while j < n
                        invariant
                            n == chars@.len(),
                            chars@ == content@,
                            j <= n,
                            lc == line_chars(line_start as int, content@),
                            byte_offset == utf8_bytes_len(chars@.take(j as int)),
                            line_start + utf8_bytes_len(content@) <= usize::MAX,
                            tokens_model(tokens@) + pending_tokens(pending) == fold_tokens(prev + lc.take(j as int)),
                            pending matches Some((o, cs, nb)) ==> nb == utf8_bytes_len(cs@) && o + nb <= usize::MAX && cs@.len() > 0,
                            pending is None ==> tokens@.len() == 0 || !(tokens_model(tokens@).last().kind is Text),
                        decreases n - j,
                    {
                        let ch = chars[j];
                        let w = char_len_utf8(ch);
                        proof {
                            assert(chars@.take(j + 1) =~= chars@.take(j as int).push(ch));
                            lemma_utf8_bytes_len_push(chars@.take(j as int), ch);
                            lemma_utf8_bytes_len_prefix(chars@, j + 1);
                            assert((prev + lc.take(j + 1)).drop_last() =~= prev + lc.take(j as int));
                            assert((prev + lc.take(j + 1)).last() == (ch, line_start + byte_offset));
                        }
                        let at = line_start + byte_offset;
                        let ghost ts = tokens_model(tokens@) + pending_tokens(pending);
                        if ch == '\n' || ch == ' ' {
                            match pending {
                                Some((o, cs, nb)) => {
                                    tokens.push(text_token_exec(o, &cs));
                                },
                                None => {},
                            }
                            pending = None;
                            if ch == '\n' {
                                tokens.push(ViewTokenWire { source_offset: Some(at), kind: ViewTokenWireKind::Newline, style: None });
                            } else {
                                tokens.push(ViewTokenWire { source_offset: Some(at), kind: ViewTokenWireKind::Space, style: None });
                            }
                            proof {
                                assert(tokens_model(tokens@) =~= token_after(ts, ch, at as int));
                            }
                        } else {
                            match pending {
                                Some((o, cs, nb)) => {
                                    if o + nb == at {
                                        let ghost csv = cs@;
                                        let mut cs2 = cs;
                                        cs2.push(ch);
                                        let nb2 = nb + w;
                                        proof {
                                            lemma_utf8_bytes_len_push(csv, ch);
                                            assert(ts.last() == text_token(o as int, csv));
                                            assert(tokens_model(tokens@) + pending_tokens(Some((o, cs2, nb2))) =~= token_after(ts, ch, at as int));
                                        }
                                        pending = Some((o, cs2, nb2));
                                    } else {
                                        tokens.push(text_token_exec(o, &cs));
                                        let mut cs2: Vec<char> = Vec::new();
                                        cs2.push(ch);
                                        proof {
                                            assert(cs2@ =~= seq![ch]);
                                            assert(Seq::<char>::empty().push(ch) =~= seq![ch]);
                                            lemma_utf8_bytes_len_push(Seq::<char>::empty(), ch);
                                            assert(ts.last() == text_token(o as int, cs@));
                                            assert(!extends_last(ts, at as int));
                                            assert(tokens_model(tokens@) + pending_tokens(Some((at, cs2, w))) =~= token_after(ts, ch, at as int));
                                        }
                                        pending = Some((at, cs2, w));
                                    }
                                },
                                None => {
                                    let mut cs2: Vec<char> = Vec::new();
                                    cs2.push(ch);
                                    proof {
                                        assert(cs2@ =~= seq![ch]);
                                        assert(Seq::<char>::empty().push(ch) =~= seq![ch]);
                                        lemma_utf8_bytes_len_push(Seq::<char>::empty(), ch);
                                        assert(ts == tokens_model(tokens@));
                                        assert(!extends_last(ts, at as int));
                                        assert(tokens_model(tokens@) + pending_tokens(Some((at, cs2, w))) =~= token_after(ts, ch, at as int));
                                    }
                                    pending = Some((at, cs2, w));
                                },
                            }
                        }
                        byte_offset = byte_offset + w;
                        j += 1;
                    }
                    proof {
                        assert(lc.take(n as int) =~= lc);
                        assert(lines_chars(all.take(lines_seen + 1)) =~= prev + lc);
                    }
                    lines_seen += 1;
                    proof {
                        if lines_seen == max_lines {
                            assert(lines_from_byte(s, iter.pos as int, 0) =~= Seq::<(int, Seq<char>)>::empty());
                            assert(all.take(lines_seen as int) =~= all);
                        }
                    }
                },
                None => {
                    proof {
                        assert(lines_from_byte(s, pos0, (max_lines - lines_seen) as nat) =~= Seq::<(int, Seq<char>)>::empty());
                        assert(all.take(lines_seen as int) =~= all);
                    }
                    break;
                },
            }
        }
        match pending {
            Some((o, cs, nb)) => {
                tokens.push(text_token_exec(o, &cs));
            },
            None => {},
        }
        if tokens.len() == 0 {
            tokens.push(ViewTokenWire { source_offset: Some(top_byte), kind: ViewTokenWireKind::Text(String::new()), style: None });
            proof {
                assert(tokens_model(tokens@) =~= seq![text_token(top_byte as int, Seq::empty())]);
            }
        }
        tokens
    }
}

/// UTF-8 length of a prefix is at most that of the whole.
pub proof fn lemma_utf8_bytes_len_prefix(s: Seq<char>, k: int)
    requires
        0 <= k <= s.len(),
    ensures
        utf8_bytes_len(s.take(k)) <= utf8_bytes_len(s),
    decreases s.len() - k,
{
    if k < s.len() {
        lemma_utf8_bytes_len_prefix(s, k + 1);
        assert(s.take(k + 1) =~= s.take(k).push(s[k]));
        lemma_utf8_bytes_len_push(s.take(k), s[k]);
    } else {
        assert(s.take(k) =~= s);
    }
}

/// Whether a line starting at byte `st` with text `text` ends within `usize`.
fn line_bytes_fit(st: usize, text: &Vec<char>) -> (r: bool)
    ensures
        r == (st + utf8_bytes_len(text@) <= usize::MAX),
{
    let n = text.len();
    let mut acc: usize = st;
    let mut i: usize = 0;
    while i < n
        invariant
            n == text@.len(),
            i <= n,
            acc == st + utf8_bytes_len(text@.take(i as int)),
        decreases n - i,
    {
        let w = char_len_utf8(text[i]);
        proof {
            assert(text@.take(i + 1) =~= text@.take(i as int).push(text@[i as int]));
            lemma_utf8_bytes_len_push(text@.take(i as int), text@[i as int]);
        }
        match acc.checked_add(w) {
            Some(x) => {
                acc = x;
            },
            None => {
                proof {
                    lemma_utf8_bytes_len_prefix(text@, i + 1);
                }
                return false;
            },
        }
        i += 1;
    }
    proof {
        assert(text@.take(n as int) =~= text@);
    }
    true
}

impl SplitRenderer {
    /// The base tokens for the view-transform hook: the tokens of the lines
    /// from the one holding `top_byte`, for `visible_count` lines and four more.
    pub fn build_base_tokens_for_hook(buffer: &Buffer, top_byte: usize, estimated_line_length: usize, visible_count: usize) -> (r: Vec<ViewTokenWire>)
        requires
            base_tokens_fit(buffer@, top_byte as int, visible_count as int),
        ensures
            tokens_model(r@) == spec_base_tokens(buffer@, top_byte as int, visible_count as int),
    {
        Self::build_base_tokens(buffer, top_byte, estimated_line_length, visible_count)
    }

    /// The base tokens when every line read fits in `usize` byte offsets
    /// (as `base_tokens_fit` asks), else `None`.
    pub fn build_base_tokens_checked(buffer: &Buffer, top_byte: usize, estimated_line_length: usize, visible_count: usize) -> (r: Option<Vec<ViewTokenWire>>)
        ensures
            match r {
                Some(ts) => base_tokens_fit(buffer@, top_byte as int, visible_count as int)
                    && tokens_model(ts@) == spec_base_tokens(buffer@, top_byte as int, visible_count as int),
                None => !base_tokens_fit(buffer@, top_byte as int, visible_count as int),
            },
    {
        let ghost s = buffer@;
        let ghost all = base_lines(s, top_byte as int, visible_count as int);
        let mut iter = buffer.line_iterator(top_byte, estimated_line_length);
        let max_lines = visible_count.saturating_add(4);
        let mut k: usize = 0;
        proof {
            assert(all == lines_from_byte(s, iter.pos as int, max_lines as nat));
            assert(all == all.take(0) + lines_from_byte(s, iter.pos as int, (max_lines - 0) as nat));
        }
        while k < max_lines
            invariant
                iter.buffer == buffer,
                s == buffer@,
                k <= max_lines,
                k <= all.len(),
                all == base_lines(s, top_byte as int, visible_count as int),
                all == all.take(k as int) + lines_from_byte(s, iter.pos as int, (max_lines - k) as nat),
                forall|i: int| 0 <= i < k ==> (#[trigger] all[i]).0 + utf8_bytes_len(all[i].1) <= usize::MAX,
            ensures
                all.take(k as int) == all,
                forall|i: int| 0 <= i < k ==> (#[trigger] all[i]).0 + utf8_bytes_len(all[i].1) <= usize::MAX,
            decreases max_lines - k,
        {
            let ghost pos0 = iter.pos as int;
            match iter.next() {
                Some((st, content)) => {
                    proof {
                        lemma_lines_from_byte_step(s, pos0, (max_lines - k) as nat);
                        assert(all[k as int] == (st as int, content@));
                        assert(all.take(k + 1) =~= all.take(k as int).push((st as int, content@)));
                    }
                    let chars = str_chars(content.as_str());
                    if !line_bytes_fit(st, &chars) {
                        return None;
                    }
                    k += 1;
                    proof {
                        if k == max_lines {
                            assert(lines_from_byte(s, iter.pos as int, 0) =~= Seq::<(int, Seq<char>)>::empty());
                            assert(all.take(k as int) =~= all);
                        }
                    }
                },
                None => {
                    proof {
                        assert(lines_from_byte(s, pos0, (max_lines - k) as nat) =~= Seq::<(int, Seq<char>)>::empty());
                        assert(all.take(k as int) =~= all);
                    }
                    break;
                },
            }
        }
        Some(Self::build_base_tokens(buffer, top_byte, estimated_line_length, visible_count))
    }
}

/// The source byte range of a cursor's selection, when both ends have one.
pub open spec fn selection_bytes(c: Cursor) -> Option<(usize, usize)> {
    match c.spec_selection_range() {
        Some(sel) => match (sel.start.source_byte, sel.end.source_byte) {
            (Some(s), Some(e)) => Some((s, e)),
            _ => None,
        },
        None => None,
    }
}

/// The selected byte ranges of the cursors, in order.
pub open spec fn selection_ranges(es: Seq<(CursorId, Cursor)>) -> Seq<(usize, usize)>
    decreases es.len(),
{
    if es.len() == 0 {
        Seq::empty()
    } else {
        selection_ranges(es.drop_last()) + match selection_bytes(es.last().1) {
            Some(r) => seq![r],
            None => Seq::empty(),
        }
    }
}

pub open spec fn ranges_view(rs: Seq<std::ops::Range<usize>>) -> Seq<(usize, usize)> {
    rs.map_values(|r: std::ops::Range<usize>| (r.start, r.end))
}

/// An overlay overlaps the bytes `start..end`.
pub open spec fn overlaps(o: Overlay, start: usize, end: usize) -> bool {
    o.start < end && o.end > start
}

/// The overlays overlapping `start..end`, in order, as handles and ranges.
pub open spec fn viewport_overlays(os: Seq<Overlay>, start: usize, end: usize) -> Seq<(OverlayHandle, usize, usize)>
    decreases os.len(),
{
    if os.len() == 0 {
        Seq::empty()
    } else {
        viewport_overlays(os.drop_last(), start, end) + if overlaps(os.last(), start, end) {
            seq![(os.last().handle, os.last().start, os.last().end)]
        } else {
            Seq::empty()
        }
    }
}

/// The line number of byte `b` of text `s`.
pub open spec fn line_number_of(s: Seq<u8>, b: usize) -> nat {
    count_newlines(s.take(if b <= s.len() { b as int } else { s.len() as int }))
}

/// Whether some diagnostic overlay in `start..end` begins on line `line`.
pub open spec fn is_diagnostic_line(os: Seq<Overlay>, text: Seq<u8>, start: usize, end: usize, line: nat) -> bool {
    exists|i: int| 0 <= i < os.len() && overlaps(#[trigger] os[i], start, end)
        && namespace_name(os[i].namespace) == Some(diagnostic_namespace_name())
        && line_number_of(text, os[i].start) == line
}

impl SplitRenderer {
    /// Selections and decorations of a buffer for drawing: the cursors'
    /// selected byte ranges, the primary cursor cell (the first of
    /// `cursor_positions`), the overlays in the layout's byte range, and the
    /// lines where a diagnostic overlay begins (each once).
    pub fn build_contexts(
        cursors: &Cursors,
        overlays: &OverlayManager,
        buffer: &Buffer,
        layout: &crate::view_pipeline::Layout,
        highlight_spans: Vec<HighlightSpan>,
        semantic_spans: Vec<HighlightSpan>,
        cursor_positions: Vec<(u16, u16)>,
    ) -> (r: (SelectionContext, DecorationContext))
        requires
            cursors.wf(),
        ensures
            ranges_view(r.0.ranges@) == selection_ranges(cursors.entries()),
            r.0.cursor_positions@ == cursor_positions@,
            r.0.primary_cursor_position == (if cursor_positions@.len() > 0 { cursor_positions@[0] } else { (0u16, 0u16) }),
            r.0.block_rects@.len() == 0,
            r.1.highlight_spans@ == highlight_spans@,
            r.1.semantic_spans@ == semantic_spans@,
            r.1.viewport_overlays@.map_values(|e: (OverlayHandle, std::ops::Range<usize>)| (e.0, e.1.start, e.1.end))
                == viewport_overlays(overlays.overlays@, layout.source_start, layout.source_end),
            forall|l: usize| r.1.diagnostic_lines@.contains(l) <==> is_diagnostic_line(overlays.overlays@, buffer@,
                layout.source_start, layout.source_end, l as nat),
            forall|i: int, j: int| 0 <= i < j < r.1.diagnostic_lines@.len() ==> r.1.diagnostic_lines@[i] != r.1.diagnostic_lines@[j],
    {
        let primary_cursor_position = if cursor_positions.len() > 0 { cursor_positions[0] } else { (0, 0) };
        let entries = cursors.iter();
        let n = entries.len();
        let mut ranges: Vec<std::ops::Range<usize>> = Vec::new();
        let mut i: usize = 0;
        while i < n
            invariant
                n == entries@.len(),
                entries@ == cursors.entries(),
                i <= n,
                ranges_view(ranges@) == selection_ranges(entries@.take(i as int)),
            decreases n - i,
        {
            proof {
                assert(entries@.take(i + 1).drop_last() =~= entries@.take(i as int));
            }
            let ghost before = ranges@;
            match entries[i].1.selection_range() {
                Some(sel) => match (sel.start.source_byte, sel.end.source_byte) {
                    (Some(s), Some(e)) => {
                        ranges.push(s..e);
                    },
                    _ => {},
                },
                None => {},
            }
            proof {
                assert(ranges_view(ranges@) =~= selection_ranges(entries@.take(i + 1)));
            }
            i += 1;
        }
        proof {
            assert(entries@.take(n as int) =~= entries@);
        }
        let selection = SelectionContext {
            ranges,
            block_rects: Vec::new(),
            cursor_positions,
            primary_cursor_position,
        };
        let viewport_start = layout.source_start;
        let viewport_end = layout.source_end;
        let diagnostic_ns = lsp_diagnostic_namespace();
        let os = overlays.all();
        let m = os.len();
        let mut viewport: Vec<(OverlayHandle, std::ops::Range<usize>)> = Vec::new();
        let mut diagnostic_lines: Vec<usize> = Vec::new();
        let mut k: usize = 0;
        while k < m
            invariant
                m == os@.len(),
                os@ == overlays.overlays@,
                k <= m,
                viewport_start == layout.source_start,
                viewport_end == layout.source_end,
                diagnostic_ns.name@ == diagnostic_namespace_name(),
                viewport@.map_values(|e: (OverlayHandle, std::ops::Range<usize>)| (e.0, e.1.start, e.1.end))
                    == viewport_overlays(os@.take(k as int), viewport_start, viewport_end),
                forall|l: usize| diagnostic_lines@.contains(l) <==> is_diagnostic_line(os@.take(k as int), buffer@,
                    viewport_start, viewport_end, l as nat),
                forall|a: int, b: int| 0 <= a < b < diagnostic_lines@.len() ==> diagnostic_lines@[a] != diagnostic_lines@[b],
            decreases m - k,
        {
            let o = &os[k];
            proof {
                assert(os@.take(k + 1).drop_last() =~= os@.take(k as int));
                assert(os@.take(k + 1) =~= os@.take(k as int).push(os@[k as int]));
                lemma_is_diagnostic_line_push(os@.take(k as int), os@[k as int], buffer@, viewport_start, viewport_end);
            }
            let in_view = o.start < viewport_end && o.end > viewport_start;
            let is_diag = match &o.namespace {
                Some(ns) => ns.name == diagnostic_ns.name,
                None => false,
            };
            if in_view {
                viewport.push((o.handle, o.start..o.end));
            }
            proof {
                assert(viewport@.map_values(|e: (OverlayHandle, std::ops::Range<usize>)| (e.0, e.1.start, e.1.end))
                    =~= viewport_overlays(os@.take(k + 1), viewport_start, viewport_end));
            }
            let ghost lines_before = diagnostic_lines@;
            proof {
                assert(is_diag == (namespace_name(o.namespace) == Some(diagnostic_namespace_name())));
                assert(in_view == overlaps(*o, viewport_start, viewport_end));
            }
            if in_view && is_diag {
                let line = buffer.get_line_number(o.start);
                proof {
                    assert(line == line_number_of(buffer@, o.start));
                }
                if !contains_usize(&diagnostic_lines, line) {
                    let ghost before = diagnostic_lines@;
                    diagnostic_lines.push(line);
                    proof {
                        assert forall|x: usize| diagnostic_lines@.contains(x) <==> before.contains(x) || x == line by {
                            if diagnostic_lines@.contains(x) {
                                let w = choose|w: int| 0 <= w < diagnostic_lines@.len() && diagnostic_lines@[w] == x;
                                if w < before.len() {
                                    assert(before[w] == x);
                                }
                            }
                            if before.contains(x) {
                                let w = choose|w: int| 0 <= w < before.len() && before[w] == x;
                                assert(diagnostic_lines@[w] == x);
                            }
                            if x == line {
                                assert(diagnostic_lines@[before.len() as int] == x);
                            }
                        }
                    }
                }
            }
            proof {
                let t = os@.take(k + 1);
                assert forall|l: usize| diagnostic_lines@.contains(l) <==> is_diagnostic_line(t, buffer@, viewport_start, viewport_end, l as nat) by {
                    assert(is_diagnostic_line(t, buffer@, viewport_start, viewport_end, l as nat) <==> (is_diagnostic_line(os@.take(k as int), buffer@, viewport_start, viewport_end, l as nat)
                        || (overlaps(*o, viewport_start, viewport_end) && namespace_name(o.namespace) == Some(diagnostic_namespace_name())
                            && line_number_of(buffer@, o.start) == l as nat)));
                    assert(lines_before.contains(l) <==> is_diagnostic_line(os@.take(k as int), buffer@, viewport_start, viewport_end, l as nat));
                }
            }
            k += 1;
        }
        proof {
            assert(os@.take(m as int) =~= os@);
        }
        let decorations = DecorationContext {
            highlight_spans,
            semantic_spans,
            viewport_overlays: viewport,
            diagnostic_lines,
        };
        (selection, decorations)
    }
}

fn contains_usize(v: &Vec<usize>, x: usize) -> (r: bool)
    ensures
        r == v@.contains(x),
{
    let n = v.len();
    let mut i: usize = 0;
    while i < n
        invariant
            n == v@.len(),
            i <= n,
            forall|j: int| 0 <= j < i ==> v@[j] != x,
        decreases n - i,
    {
        if v[i] == x {
            return true;
        }
        i += 1;
    }
    false
}

proof fn lemma_is_diagnostic_line_push(s: Seq<Overlay>, o: Overlay, text: Seq<u8>, start: usize, end: usize)
    ensures
        forall|l: nat| #[trigger] is_diagnostic_line(s.push(o), text, start, end, l) <==> (is_diagnostic_line(s, text, start, end, l)
            || (overlaps(o, start, end) && namespace_name(o.namespace) == Some(diagnostic_namespace_name())
                && line_number_of(text, o.start) == l)),
{
    assert forall|l: nat| #[trigger] is_diagnostic_line(s.push(o), text, start, end, l) <==> (is_diagnostic_line(s, text, start, end, l)
        || (overlaps(o, start, end) && namespace_name(o.namespace) == Some(diagnostic_namespace_name())
            && line_number_of(text, o.start) == l)) by {
        let t = s.push(o);
        if is_diagnostic_line(t, text, start, end, l) {
            let x = choose|x: int| 0 <= x < t.len() && overlaps(#[trigger] t[x], start, end)
                && namespace_name(t[x].namespace) == Some(diagnostic_namespace_name())
                && line_number_of(text, t[x].start) == l;
            if x < s.len() {
                assert(t[x] == s[x]);
            }
        }
        if is_diagnostic_line(s, text, start, end, l) {
            let x = choose|x: int| 0 <= x < s.len() && overlaps(#[trigger] s[x], start, end)
                && namespace_name(s[x].namespace) == Some(diagnostic_namespace_name())
                && line_number_of(text, s[x].start) == l;
            assert(t[x] == s[x]);
        }
        if overlaps(o, start, end) && namespace_name(o.namespace) == Some(diagnostic_namespace_name())
            && line_number_of(text, o.start) == l {
            assert(t[s.len() as int] == o);
        }
    }
}

/// Areas of a split: a tab row, the content, and a one-column scrollbar.
#[derive(Clone, Copy, Debug, PartialEq, Eq, Structural)]
pub struct SplitLayout {
    pub tabs_rect: Rect,
    pub content_rect: Rect,
    pub scrollbar_rect: Rect,
}

/// How a buffer is viewed.
#[derive(Clone, Copy, Debug, PartialEq, Eq, Structural)]
pub enum ViewMode {
    Source,
    Compose,
}

/// A split's own view settings and tabs.
pub struct SplitViewState {
    pub open_buffers: Vec<BufferId>,
    pub tab_scroll_offset: usize,
    pub view_mode: ViewMode,
    pub compose_width: Option<u16>,
    pub compose_column_guides: Option<Vec<u16>>,
}

/// The view settings that apply to a split.
pub struct ViewPreferences {
    pub view_mode: ViewMode,
    pub compose_width: Option<u16>,
    pub compose_column_guides: Option<Vec<u16>>,
}

/// Entry `i` is the first view state of split `id`.
pub open spec fn first_split_at(s: Seq<(SplitId, SplitViewState)>, id: SplitId, i: int) -> bool {
    0 <= i < s.len() && s[i].0 == id && forall|j: int| 0 <= j < i ==> s[j].0 != id
}

fn find_split(states: &Vec<(SplitId, SplitViewState)>, id: SplitId) -> (r: Option<usize>)
    ensures
        match r {
            Some(i) => first_split_at(states@, id, i as int),
            None => forall|j: int| 0 <= j < states@.len() ==> states@[j].0 != id,
        },
{
    let n = states.len();
    let mut i: usize = 0;
    while i < n
        invariant
            n == states@.len(),
            i <= n,
            forall|j: int| 0 <= j < i ==> states@[j].0 != id,
        decreases n - i,
    {
        if states[i].0 == id {
            return Some(i);
        }
        i += 1;
    }
    None
}

fn copy_ids(v: &Vec<BufferId>) -> (r: Vec<BufferId>)
    ensures
        r@ == v@,
{
    let n = v.len();
    let mut out: Vec<BufferId> = Vec::new();
    let mut i: usize = 0;
    while i < n
        invariant
            n == v@.len(),
            i <= n,
            out@ == v@.take(i as int),
        decreases n - i,
    {
        out.push(v[i]);
        i += 1;
        proof {
            assert(out@ =~= v@.take(i as int));
        }
    }
    proof {
        assert(v@.take(n as int) =~= v@);
    }
    out
}

fn copy_guides(v: &Option<Vec<u16>>) -> (r: Option<Vec<u16>>)
    ensures
        match (r, *v) {
            (Some(a), Some(b)) => a@ == b@,
            (None, None) => true,
            _ => false,
        },
{
    match v {
        Some(g) => {
            let n = g.len();
            let mut out: Vec<u16> = Vec::new();
            let mut i: usize = 0;
            while i < n
                invariant
                    n == g@.len(),
                    i <= n,
                    out@ == g@.take(i as int),
                decreases n - i,
            {
                out.push(g[i]);
                i += 1;
                proof {
                    assert(out@ =~= g@.take(i as int));
                }
            }
            proof {
                assert(g@.take(n as int) =~= g@);
            }
            Some(out)
        },
        None => None,
    }
}

/// A one-row tab bar at the top of `area`, the content below it, and a
/// one-column scrollbar at the content's right.
pub open spec fn spec_split_layout(area: Rect) -> SplitLayout {
    SplitLayout {
        tabs_rect: Rect { x: area.x, y: area.y, width: area.width, height: 1 },
        content_rect: Rect { x: area.x, y: (area.y + 1) as u16, width: sat_sub(area.width as int, 1) as u16,
            height: sat_sub(area.height as int, 1) as u16 },
        scrollbar_rect: Rect { x: (area.x + sat_sub(area.width as int, 1)) as u16, y: (area.y + 1) as u16, width: 1,
            height: sat_sub(area.height as int, 1) as u16 },
    }
}

/// The tabs of a split (`tabs`, scrolled by `offset`): its view state's open
/// buffers and tab scroll, or just `buffer_id` when it has no view state.
pub open spec fn tabs_for(split_view_states: Option<&Vec<(SplitId, SplitViewState)>>, split_id: SplitId,
    buffer_id: BufferId, tabs: Seq<BufferId>, offset: usize) -> bool {
    match split_view_states {
        Some(states) => if exists|i: int| #[trigger] first_split_at(states@, split_id, i) {
            exists|i: int| first_split_at(states@, split_id, i) && tabs == states@[i].1.open_buffers@
                && offset == states@[i].1.tab_scroll_offset
        } else {
            tabs == seq![buffer_id] && offset == 0
        },
        None => tabs == seq![buffer_id] && offset == 0,
    }
}

impl SplitRenderer {
    /// Split an area into a one-row tab bar, the content below it, and a
    /// one-column scrollbar at the content's right.
    pub fn split_layout(area: Rect) -> (r: SplitLayout)
        requires
            area.y + 1 <= u16::MAX,
            area.x + area.width <= u16::MAX,
        ensures
            r == spec_split_layout(area),
    {
        let tabs_height: u16 = 1;
        let scrollbar_width: u16 = 1;
        let tabs_rect = Rect { x: area.x, y: area.y, width: area.width, height: tabs_height };
        let content_rect = Rect {
            x: area.x,
            y: area.y + tabs_height,
            width: area.width.saturating_sub(scrollbar_width),
            height: area.height.saturating_sub(tabs_height),
        };
        let scrollbar_rect = Rect {
            x: area.x + area.width.saturating_sub(scrollbar_width),
            y: area.y + tabs_height,
            width: scrollbar_width,
            height: area.height.saturating_sub(tabs_height),
        };
        SplitLayout { tabs_rect, content_rect, scrollbar_rect }
    }

    /// The tabs shown for a split: its own open buffers and tab scroll, or
    /// just the shown buffer when the split has no view state.
    pub fn split_buffers_for_tabs(split_view_states: Option<&Vec<(SplitId, SplitViewState)>>, split_id: SplitId, buffer_id: BufferId)
        -> (r: (Vec<BufferId>, usize))
        ensures
            tabs_for(split_view_states, split_id, buffer_id, r.0@, r.1),
    {
        if let Some(states) = split_view_states {
            if let Some(i) = find_split(states, split_id) {
                return (copy_ids(&states[i].1.open_buffers), states[i].1.tab_scroll_offset);
            }
            proof {
                assert forall|i: int| !first_split_at(states@, split_id, i) by {
                }
            }
        }
        let mut v: Vec<BufferId> = Vec::new();
        v.push(buffer_id);
        proof {
            assert(v@ =~= seq![buffer_id]);
        }
        (v, 0)
    }

    /// The view settings of a split: its own when it has a view state, else
    /// the buffer's.
    pub fn resolve_view_preferences(state_prefs: &ViewPreferences, split_view_states: Option<&Vec<(SplitId, SplitViewState)>>,
        split_id: SplitId) -> (r: ViewPreferences)
        ensures
            ({
                let own = match split_view_states {
                    Some(states) => exists|i: int| #[trigger] first_split_at(states@, split_id, i),
                    None => false,
                };
                &&& own ==> exists|i: int| first_split_at(split_view_states.unwrap()@, split_id, i)
                    && r.view_mode == split_view_states.unwrap()@[i].1.view_mode
                    && r.compose_width == split_view_states.unwrap()@[i].1.compose_width
                    && (match (r.compose_column_guides, split_view_states.unwrap()@[i].1.compose_column_guides) {
                        (Some(a), Some(b)) => a@ == b@,
                        (None, None) => true,
                        _ => false,
                    })
                &&& !own ==> r.view_mode == state_prefs.view_mode && r.compose_width == state_prefs.compose_width
                    && (match (r.compose_column_guides, state_prefs.compose_column_guides) {
                        (Some(a), Some(b)) => a@ == b@,
                        (None, None) => true,
                        _ => false,
                    })
            }),
    {
        if let Some(states) = split_view_states {
            if let Some(i) = find_split(states, split_id) {
                let vs = &states[i].1;
                return ViewPreferences {
                    view_mode: vs.view_mode,
                    compose_width: vs.compose_width,
                    compose_column_guides: copy_guides(&vs.compose_column_guides),
                };
            }
            proof {
                assert forall|i: int| !first_split_at(states@, split_id, i) by {
                }
            }
        }
        ViewPreferences {
            view_mode: state_prefs.view_mode,
            compose_width: state_prefs.compose_width,
            compose_column_guides: copy_guides(&state_prefs.compose_column_guides),
        }
    }

    /// Split state is kept in the split's view state; nothing is set up here.
    pub fn temporary_split_state(
        _state: &mut crate::state::EditorState,
        _split_view_states: Option<&Vec<(SplitId, SplitViewState)>>,
        _split_id: SplitId,
        _is_active: bool,
    )
        ensures
            *final(_state) == *old(_state),
    {
    }
}
// ---------------------------------------------------------------------------
// What wrapping keeps
// ---------------------------------------------------------------------------

/// The characters a token shows: its text, a space, a newline; a soft break
/// shows nothing.
pub open spec fn token_chars(t: TokenModel) -> Seq<char> {
    match t.kind {
        TokenKindModel::Text(s) => s,
        TokenKindModel::Newline => seq!['\n'],
        TokenKindModel::Space => seq![' '],
        TokenKindModel::Break => Seq::empty(),
    }
}

/// The characters a token sequence shows, in order.
pub open spec fn shown_chars(ts: Seq<TokenModel>) -> Seq<char>
    decreases ts.len(),
{
    if ts.len() == 0 {
        Seq::empty()
    } else {
        shown_chars(ts.drop_last()) + token_chars(ts.last())
    }
}

proof fn lemma_shown_push(ts: Seq<TokenModel>, t: TokenModel)
    ensures
        shown_chars(ts.push(t)) == shown_chars(ts) + token_chars(t),
{
    assert(ts.push(t).drop_last() =~= ts);
}

proof fn lemma_split_chunks_shown(chars: Seq<char>, idx: int, base: Option<usize>, style: Option<ViewTokenStyle>, w: int,
    out: Seq<TokenModel>, width: int)
    requires
        w > 0,
        0 <= idx <= chars.len(),
    ensures
        shown_chars(split_chunks(chars, idx, base, style, w, out, width).0)
            == shown_chars(out) + chars.subrange(idx, chars.len() as int),
    decreases chars.len() - idx, if width > 0 { 1int } else { 0int },
{
    let n = chars.len() as int;
    if idx >= n {
        assert(chars.subrange(idx, n) =~= Seq::<char>::empty());
        assert(shown_chars(out) + Seq::<char>::empty() =~= shown_chars(out));
    } else {
        let size = chunk_size(n, idx, w, width);
        if size <= 0 {
            lemma_shown_push(out, break_token());
            assert(shown_chars(out) + Seq::<char>::empty() =~= shown_chars(out));
            lemma_split_chunks_shown(chars, idx, base, style, w, out.push(break_token()), 0);
        } else {
            let c = chunk_token(chars, idx, size, base, style);
            lemma_shown_push(out, c);
            assert(chars.subrange(idx, idx + size) + chars.subrange(idx + size, n) =~= chars.subrange(idx, n));
            if width + size >= w {
                lemma_shown_push(out.push(c), break_token());
                assert(shown_chars(out.push(c)) + Seq::<char>::empty() =~= shown_chars(out.push(c)));
                lemma_split_chunks_shown(chars, idx + size, base, style, w, out.push(c).push(break_token()), 0);
                assert(shown_chars(out) + chars.subrange(idx, idx + size) + chars.subrange(idx + size, n)
                    =~= shown_chars(out) + chars.subrange(idx, n));
            } else {
                lemma_split_chunks_shown(chars, idx + size, base, style, w, out.push(c), width + size);
                assert(shown_chars(out) + chars.subrange(idx, idx + size) + chars.subrange(idx + size, n)
                    =~= shown_chars(out) + chars.subrange(idx, n));
            }
        }
    }
}

proof fn lemma_wrap_step_shown(st: (Seq<TokenModel>, int), t: TokenModel, w: int)
    requires
        w > 0,
    ensures
        shown_chars(wrap_step(st, t, w).0) == shown_chars(st.0) + token_chars(t),
{
    lemma_shown_push(st.0, t);
    lemma_shown_push(st.0, break_token());
    assert(shown_chars(st.0) + Seq::<char>::empty() =~= shown_chars(st.0));
    match t.kind {
        TokenKindModel::Space => {
            lemma_shown_push(st.0.push(break_token()), t);
        },
        TokenKindModel::Text(s) => {
            let b = before_text(st, spec_visible_char_count(s) as int, w);
            assert(shown_chars(b.0) == shown_chars(st.0));
            lemma_shown_push(b.0, t);
            if spec_visible_char_count(s) > w && !spec_contains_ansi_codes(s) {
                lemma_split_chunks_shown(s, 0, t.off, t.style, w, b.0, b.1);
                assert(s.subrange(0, s.len() as int) =~= s);
            }
        },
        _ => {},
    }
}

/// Wrapping only adds soft breaks and splits texts into pieces: the characters
/// shown, read in order with the breaks left out, are the input's.
pub proof fn law_wrap_keeps_shown_chars(ts: Seq<TokenModel>, w: int)
    requires
        w > 0,
    ensures
        shown_chars(wrap_run(ts, w).0) == shown_chars(ts),
    decreases ts.len(),
{
    if ts.len() > 0 {
        law_wrap_keeps_shown_chars(ts.drop_last(), w);
        lemma_wrap_step_shown(wrap_run(ts.drop_last(), w), ts.last(), w);
    }
}

/// The width a token takes on its line: a text's visible characters, one for
/// a space, none for line ends.
pub open spec fn token_width(t: TokenModel) -> int {
    match t.kind {
        TokenKindModel::Text(s) => spec_visible_char_count(s) as int,
        TokenKindModel::Space => 1,
        _ => 0,
    }
}

/// The width of the last visual line of a token sequence.
pub open spec fn last_line_width(ts: Seq<TokenModel>) -> int
    decreases ts.len(),
{
    if ts.len() == 0 {
        0
    } else {
        match ts.last().kind {
            TokenKindModel::Newline => 0,
            TokenKindModel::Break => 0,
            _ => last_line_width(ts.drop_last()) + token_width(ts.last()),
        }
    }
}

/// Every visual line of a token sequence is at most `w` wide.
pub open spec fn lines_fit(ts: Seq<TokenModel>, w: int) -> bool {
    forall|k: int| 0 <= k <= ts.len() ==> #[trigger] last_line_width(ts.take(k)) <= w
}

/// Every text wider than `w` can be split: it holds no escape sequence.
pub open spec fn wide_texts_plain(ts: Seq<TokenModel>, w: int) -> bool {
    forall|i: int| 0 <= i < ts.len() ==> match (#[trigger] ts[i]).kind {
        TokenKindModel::Text(s) => spec_visible_char_count(s) <= w || !spec_contains_ansi_codes(s),
        _ => true,
    }
}

proof fn lemma_fit_push(ts: Seq<TokenModel>, t: TokenModel, w: int)
    requires
        lines_fit(ts, w),
        last_line_width(ts.push(t)) <= w,
    ensures
        lines_fit(ts.push(t), w),
{
    assert(ts.push(t).drop_last() =~= ts);
    assert forall|k: int| 0 <= k <= ts.push(t).len() implies #[trigger] last_line_width(ts.push(t).take(k)) <= w by {
        if k <= ts.len() {
            assert(ts.push(t).take(k) =~= ts.take(k));
        } else {
            assert(ts.push(t).take(k) =~= ts.push(t));
        }
    }
}

proof fn lemma_width_push(ts: Seq<TokenModel>, t: TokenModel)
    ensures
        last_line_width(ts.push(t)) == match t.kind {
            TokenKindModel::Newline => 0,
            TokenKindModel::Break => 0,
            _ => last_line_width(ts) + token_width(t),
        },
{
    assert(ts.push(t).drop_last() =~= ts);
}

/// Without an escape character every character is visible.
proof fn lemma_plain_visible(s: Seq<char>, k: int)
    requires
        !s.contains('\x1b'),
        0 <= k <= s.len(),
    ensures
        visible_prefix(s, k) == (k as nat, false),
    decreases k,
{
    if k > 0 {
        lemma_plain_visible(s, k - 1);
        assert(s[k - 1] != '\x1b');
    }
}

proof fn lemma_plain_piece_width(s: Seq<char>, a: int, b: int)
    requires
        !s.contains('\x1b'),
        0 <= a <= b <= s.len(),
    ensures
        spec_visible_char_count(s.subrange(a, b)) == b - a,
{
    let p = s.subrange(a, b);
    assert(!p.contains('\x1b')) by {
        if p.contains('\x1b') {
            let j = choose|j: int| 0 <= j < p.len() && p[j] == '\x1b';
            assert(s[a + j] == '\x1b');
        }
    }
    lemma_plain_visible(p, p.len() as int);
}

/// The state a wrap keeps: lines fit, and the width is the last line's.
pub open spec fn wrap_state_ok(st: (Seq<TokenModel>, int), w: int) -> bool {
    lines_fit(st.0, w) && st.1 == last_line_width(st.0) && 0 <= st.1 <= w
}

proof fn lemma_split_chunks_fit(chars: Seq<char>, idx: int, base: Option<usize>, style: Option<ViewTokenStyle>, w: int,
    out: Seq<TokenModel>, width: int)
    requires
        w > 0,
        0 <= idx <= chars.len(),
        !chars.contains('\x1b'),
        wrap_state_ok((out, width), w),
    ensures
        wrap_state_ok(split_chunks(chars, idx, base, style, w, out, width), w),
    decreases chars.len() - idx, if width > 0 { 1int } else { 0int },
{
    let n = chars.len() as int;
    if idx < n {
        let size = chunk_size(n, idx, w, width);
        if size <= 0 {
            lemma_width_push(out, break_token());
            lemma_fit_push(out, break_token(), w);
            lemma_split_chunks_fit(chars, idx, base, style, w, out.push(break_token()), 0);
        } else {
            let c = chunk_token(chars, idx, size, base, style);
            lemma_plain_piece_width(chars, idx, idx + size);
            lemma_width_push(out, c);
            lemma_fit_push(out, c, w);
            if width + size >= w {
                lemma_width_push(out.push(c), break_token());
                lemma_fit_push(out.push(c), break_token(), w);
                lemma_split_chunks_fit(chars, idx + size, base, style, w, out.push(c).push(break_token()), 0);
            } else {
                lemma_split_chunks_fit(chars, idx + size, base, style, w, out.push(c), width + size);
            }
        }
    }
}

proof fn lemma_wrap_step_fit(st: (Seq<TokenModel>, int), t: TokenModel, w: int)
    requires
        w > 0,
        wrap_state_ok(st, w),
        match t.kind {
            TokenKindModel::Text(s) => spec_visible_char_count(s) <= w || !spec_contains_ansi_codes(s),
            _ => true,
        },
    ensures
        wrap_state_ok(wrap_step(st, t, w), w),
{
    match t.kind {
        TokenKindModel::Newline => {
            lemma_width_push(st.0, t);
            lemma_fit_push(st.0, t, w);
        },
        TokenKindModel::Break => {
            lemma_width_push(st.0, t);
            lemma_fit_push(st.0, t, w);
        },
        TokenKindModel::Space => {
            if st.1 >= w {
                lemma_width_push(st.0, break_token());
                lemma_fit_push(st.0, break_token(), w);
                lemma_width_push(st.0.push(break_token()), t);
                lemma_fit_push(st.0.push(break_token()), t, w);
            } else {
                lemma_width_push(st.0, t);
                lemma_fit_push(st.0, t, w);
            }
        },
        TokenKindModel::Text(s) => {
            let v = spec_visible_char_count(s) as int;
            let b = before_text(st, v, w);
            if st.1 > 0 && st.1 + v > w {
                lemma_width_push(st.0, break_token());
                lemma_fit_push(st.0, break_token(), w);
            }
            assert(wrap_state_ok(b, w));
            if v > w && !spec_contains_ansi_codes(s) {
                lemma_split_chunks_fit(s, 0, t.off, t.style, w, b.0, b.1);
            } else {
                lemma_width_push(b.0, t);
                lemma_fit_push(b.0, t, w);
            }
        },
    }
}

/// Wrapping to width `w` leaves no visual line wider than `w`, when every text
/// wider than `w` is plain (a text with escape sequences is never split); and
/// the width it carries on is that of its last line.
pub proof fn law_wrapped_lines_fit(ts: Seq<TokenModel>, w: int)
    requires
        w > 0,
        wide_texts_plain(ts, w),
    ensures
        lines_fit(wrap_run(ts, w).0, w),
        wrap_run(ts, w).1 == last_line_width(wrap_run(ts, w).0),
{
    lemma_wrap_run_width_bound(ts, w);
}

proof fn lemma_wrap_run_width_bound(ts: Seq<TokenModel>, w: int)
    requires
        w > 0,
        wide_texts_plain(ts, w),
    ensures
        wrap_state_ok(wrap_run(ts, w), w),
    decreases ts.len(),
{
    if ts.len() == 0 {
        assert forall|k: int| 0 <= k <= 0 implies #[trigger] last_line_width(Seq::<TokenModel>::empty().take(k)) <= w by {
            assert(Seq::<TokenModel>::empty().take(k) =~= Seq::<TokenModel>::empty());
        }
    } else {
        let init = ts.drop_last();
        assert(wide_texts_plain(init, w)) by {
            assert forall|i: int| 0 <= i < init.len() implies match (#[trigger] init[i]).kind {
                TokenKindModel::Text(s) => spec_visible_char_count(s) <= w || !spec_contains_ansi_codes(s),
                _ => true,
            } by {
                assert(init[i] == ts[i]);
            }
        }
        lemma_wrap_run_width_bound(init, w);
        assert(ts.last() == ts[ts.len() - 1]);
        lemma_wrap_step_fit(wrap_run(init, w), ts.last(), w);
    }
}

/// The last visual line of `p` fits in `w`, or holds nothing but one text with
/// escape sequences that is wider than `w`.
pub open spec fn line_ok(p: Seq<TokenModel>, w: int) -> bool {
    ||| last_line_width(p) <= w
    ||| {
        &&& p.len() > 0
        &&& last_line_width(p) == token_width(p.last())
        &&& token_width(p.last()) > w
        &&& p.last().kind matches TokenKindModel::Text(s) && spec_contains_ansi_codes(s)
    }
}

/// Every visual line of `ts` fits in `w`, but for lines that hold nothing but
/// one over-wide text with escape sequences.
pub open spec fn lines_fit_but_escaped(ts: Seq<TokenModel>, w: int) -> bool {
    forall|k: int| 0 <= k <= ts.len() ==> #[trigger] line_ok(ts.take(k), w)
}

/// The state any wrap keeps: lines fit (but for lone escaped texts), and the
/// width is the last line's.
pub open spec fn wrap_state_any(st: (Seq<TokenModel>, int), w: int) -> bool {
    lines_fit_but_escaped(st.0, w) && st.1 == last_line_width(st.0) && 0 <= st.1 && line_ok(st.0, w)
}

proof fn lemma_ok_push(ts: Seq<TokenModel>, t: TokenModel, w: int)
    requires
        lines_fit_but_escaped(ts, w),
        line_ok(ts.push(t), w),
    ensures
        lines_fit_but_escaped(ts.push(t), w),
{
    assert(ts.push(t).drop_last() =~= ts);
    assert forall|k: int| 0 <= k <= ts.push(t).len() implies #[trigger] line_ok(ts.push(t).take(k), w) by {
        if k <= ts.len() {
            assert(ts.push(t).take(k) =~= ts.take(k));
        } else {
            assert(ts.push(t).take(k) =~= ts.push(t));
        }
    }
}

proof fn lemma_split_chunks_any(chars: Seq<char>, idx: int, base: Option<usize>, style: Option<ViewTokenStyle>, w: int,
    out: Seq<TokenModel>, width: int)
    requires
        w > 0,
        0 <= idx <= chars.len(),
        !chars.contains('\x1b'),
        lines_fit_but_escaped(out, w),
        width == last_line_width(out),
        0 <= width <= w,
    ensures
        wrap_state_any(split_chunks(chars, idx, base, style, w, out, width), w),
        split_chunks(chars, idx, base, style, w, out, width).1 <= w,
    decreases chars.len() - idx, if width > 0 { 1int } else { 0int },
{
    let n = chars.len() as int;
    if idx < n {
        let size = chunk_size(n, idx, w, width);
        if size <= 0 {
            lemma_width_push(out, break_token());
            lemma_ok_push(out, break_token(), w);
            lemma_split_chunks_any(chars, idx, base, style, w, out.push(break_token()), 0);
        } else {
            let c = chunk_token(chars, idx, size, base, style);
            lemma_plain_piece_width(chars, idx, idx + size);
            lemma_width_push(out, c);
            lemma_ok_push(out, c, w);
            if width + size >= w {
                lemma_width_push(out.push(c), break_token());
                lemma_ok_push(out.push(c), break_token(), w);
                lemma_split_chunks_any(chars, idx + size, base, style, w, out.push(c).push(break_token()), 0);
            } else {
                lemma_split_chunks_any(chars, idx + size, base, style, w, out.push(c), width + size);
            }
        }
    } else {
        assert(out.take(out.len() as int) =~= out);
    }
}

proof fn lemma_wrap_step_any(st: (Seq<TokenModel>, int), t: TokenModel, w: int)
    requires
        w > 0,
        wrap_state_any(st, w),
    ensures
        wrap_state_any(wrap_step(st, t, w), w),
{
    match t.kind {
        TokenKindModel::Newline => {
            lemma_width_push(st.0, t);
            lemma_ok_push(st.0, t, w);
        },
        TokenKindModel::Break => {
            lemma_width_push(st.0, t);
            lemma_ok_push(st.0, t, w);
        },
        TokenKindModel::Space => {
            if st.1 >= w {
                lemma_width_push(st.0, break_token());
                lemma_ok_push(st.0, break_token(), w);
                lemma_width_push(st.0.push(break_token()), t);
                lemma_ok_push(st.0.push(break_token()), t, w);
            } else {
                lemma_width_push(st.0, t);
                lemma_ok_push(st.0, t, w);
            }
        },
        TokenKindModel::Text(s) => {
            let v = spec_visible_char_count(s) as int;
            let b = before_text(st, v, w);
            if st.1 > 0 && st.1 + v > w {
                lemma_width_push(st.0, break_token());
                lemma_ok_push(st.0, break_token(), w);
            }
            assert(lines_fit_but_escaped(b.0, w) && b.1 == last_line_width(b.0) && 0 <= b.1 <= w);
            if v > w && !spec_contains_ansi_codes(s) {
                lemma_split_chunks_any(s, 0, t.off, t.style, w, b.0, b.1);
            } else {
                lemma_width_push(b.0, t);
                lemma_ok_push(b.0, t, w);
                assert(b.0.push(t).last() == t);
            }
        },
    }
}

/// Wrapping to width `w` leaves every visual line at most `w` wide, except a
/// line that holds nothing but one text with escape sequences wider than `w`
/// (such a text is never split); the width it carries on is that of its last line.
pub proof fn law_wrapped_lines_fit_but_escaped(ts: Seq<TokenModel>, w: int)
    requires
        w > 0,
    ensures
        lines_fit_but_escaped(wrap_run(ts, w).0, w),
        wrap_run(ts, w).1 == last_line_width(wrap_run(ts, w).0),
    decreases ts.len(),
{
    lemma_wrap_run_any(ts, w);
}

proof fn lemma_wrap_run_any(ts: Seq<TokenModel>, w: int)
    requires
        w > 0,
    ensures
        wrap_state_any(wrap_run(ts, w), w),
    decreases ts.len(),
{
    if ts.len() == 0 {
        assert forall|k: int| 0 <= k <= 0 implies #[trigger] line_ok(Seq::<TokenModel>::empty().take(k), w) by {
            assert(Seq::<TokenModel>::empty().take(k) =~= Seq::<TokenModel>::empty());
        }
    } else {
        lemma_wrap_run_any(ts.drop_last(), w);
        lemma_wrap_step_any(wrap_run(ts.drop_last(), w), ts.last(), w);
    }
}

} // verus!
