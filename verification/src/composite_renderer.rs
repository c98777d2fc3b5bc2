//! Rendering composite buffers: line sources, gutters, and the draws of the
//! side-by-side, stacked and unified layouts.

use vstd::prelude::*;
use crate::text_util::{lines_from, str_lines, str_chars, sat_sub, string_from_chars};
use crate::composite_buffer::{
    BufferId, CompositeBuffer, CompositeLayout, CompositeViewState, GutterStyle, PaneStyle, RowType,
};
use crate::draw::{
    Rect, Color, ThemeColor, Style, Span, LineDraw, DrawView, draw_view, draws_view, plain, fg_style, bg_style,
    decimal, repeat_char, align_right, align_left, decimal_chars, push_repeat, push_align_right, push_align_left,
    utf8_len_of, take_chars, lemma_draws_view_push, lemma_draws_view_append,
};
use crate::theme::Theme;
use crate::view_pipeline::utf8_bytes_len;

verus! {

/// A simple buffer interface for the renderer: its lines by number.
pub trait BufferSource {
    /// The lines of the source.
    spec fn source_lines(&self) -> Seq<Seq<char>>;

    /// Get the text content of a specific line
    fn get_line(&self, line: usize) -> (r: Option<String>)
        ensures
            match r {
                Some(s) => line < self.source_lines().len() && s@ == self.source_lines()[line as int],
                None => line >= self.source_lines().len(),
            };

    /// Get the total number of lines
    fn line_count(&self) -> (r: usize)
        ensures
            r == self.source_lines().len();
}

/// Simple buffer: the lines of a text, held in memory.
#[derive(Debug)]
pub struct SimpleBuffer {
    lines: Vec<String>,
}

impl View for SimpleBuffer {
    type V = Seq<Seq<char>>;

    closed spec fn view(&self) -> Seq<Seq<char>> {
        self.lines@.map_values(|x: String| x@)
    }
}

impl SimpleBuffer {
    /// A buffer of the lines of `content` (as `str::lines` splits them).
    pub fn new(content: &str) -> (r: Self)
        ensures
            r@ == lines_from(content@, 0),
    {
        Self { lines: str_lines(content) }
    }
}

impl BufferSource for SimpleBuffer {
    open spec fn source_lines(&self) -> Seq<Seq<char>> {
        self@
    }

    fn get_line(&self, line: usize) -> (r: Option<String>) {
        if line < self.lines.len() {
            Some(self.lines[line].clone())
        } else {
            None
        }
    }

    fn line_count(&self) -> (r: usize) {
        self.lines.len()
    }
}


/// Diff marker of a row type.
pub open spec fn marker(t: RowType) -> Seq<char> {
    match t {
        RowType::Addition => seq!['+'],
        RowType::Deletion => seq!['-'],
        RowType::Modification => seq!['~'],
        RowType::Context => seq![' '],
        RowType::HunkHeader => seq!['@'],
    }
}

/// Marker of a changed row (blank for others).
pub open spec fn change_marker(t: RowType) -> char {
    match t {
        RowType::Addition => '+',
        RowType::Deletion => '-',
        RowType::Modification => '~',
        _ => ' ',
    }
}

/// The gutter text of a row showing line `line_num`.
pub open spec fn gutter_text(gs: GutterStyle, line_num: nat, t: RowType, gutter_width: nat) -> Seq<char> {
    match gs {
        GutterStyle::LineNumbers => align_right(decimal(line_num), (gutter_width - 1) as nat).push(' '),
        GutterStyle::DiffMarkers => align_right(marker(t), (gutter_width - 1) as nat).push(' '),
        GutterStyle::Both => seq![change_marker(t)] + align_right(decimal(line_num), 3).push(' '),
        GutterStyle::Hidden => Seq::empty(),
    }
}

pub open spec fn gutter_color(t: RowType) -> Color {
    match t {
        RowType::Addition => Color::Green,
        RowType::Deletion => Color::Red,
        RowType::Modification => Color::Yellow,
        _ => Color::DarkGray,
    }
}

/// The first characters of `text` that fit in `width` cells.
pub open spec fn fitted(text: Seq<char>, width: int) -> Seq<char> {
    text.take(if width <= text.len() { width } else { text.len() as int })
}

/// A row of `width` cells at `(x, y)`: the gutter, the text cut to the
/// room left, and padding (counted in bytes of the shown text).
pub open spec fn row_line_draw(x: u16, y: u16, width: u16, text: Seq<char>, line_num: nat, row_style: Style,
    gutter_width: nat, gs: GutterStyle, t: RowType) -> DrawView {
    let cw = sat_sub(width as int, gutter_width as int);
    let shown = fitted(text, cw);
    (Rect { x, y, width, height: 1 }, seq![
        (gutter_text(gs, line_num, t, gutter_width), fg_style(gutter_color(t))),
        (shown, row_style),
        (repeat_char(' ', sat_sub(cw, utf8_bytes_len(shown)) as nat), row_style),
    ])
}

/// Background of a changed row in a pane (its own colour or the default).
pub open spec fn row_style(t: RowType, ps: PaneStyle) -> Style {
    match t {
        RowType::Addition => bg_style(match ps.add_bg { Some(c) => Color::Rgb(c.0, c.1, c.2), None => Color::Rgb(0, 60, 0) }),
        RowType::Deletion => bg_style(match ps.remove_bg { Some(c) => Color::Rgb(c.0, c.1, c.2), None => Color::Rgb(60, 0, 0) }),
        RowType::Modification => bg_style(match ps.modify_bg { Some(c) => Color::Rgb(c.0, c.1, c.2), None => Color::Rgb(60, 60, 0) }),
        RowType::Context => plain(),
        RowType::HunkHeader => Style { fg: Some(Color::Cyan), bg: None, bold: true },
    }
}

fn marker_chars(t: RowType) -> (r: Vec<char>)
    ensures
        r@ == marker(t),
{
    let mut v: Vec<char> = Vec::new();
    v.push(match t {
        RowType::Addition => '+',
        RowType::Deletion => '-',
        RowType::Modification => '~',
        RowType::Context => ' ',
        RowType::HunkHeader => '@',
    });
    proof {
        assert(v@ =~= marker(t));
    }
    v
}

fn gutter_color_of(t: RowType) -> (r: Color)
    ensures
        r == gutter_color(t),
{
    match t {
        RowType::Addition => Color::Green,
        RowType::Deletion => Color::Red,
        RowType::Modification => Color::Yellow,
        _ => Color::DarkGray,
    }
}

fn span_of(chars: &Vec<char>, style: Style) -> (r: Span)
    ensures
        r.text@ == chars@,
        r.style == style,
{
    Span { text: string_from_chars(chars), style }
}

/// Renders a composite buffer: what each pane shows, row by row.
pub struct CompositeRenderer<'a> {
    pub composite: &'a CompositeBuffer,
    pub view_state: &'a CompositeViewState,
    pub theme: &'a Theme,
}

impl<'a> CompositeRenderer<'a> {
    /// Create a new composite renderer
    pub fn new(composite: &'a CompositeBuffer, view_state: &'a CompositeViewState, theme: &'a Theme) -> (r: Self)
        ensures
            r.composite == composite,
            r.view_state == view_state,
            r.theme == theme,
    {
        Self { composite, view_state, theme }
    }

    /// One row: gutter, text and padding.
    pub fn render_line_with_gutter(
        &self,
        x: u16,
        y: u16,
        width: u16,
        text: &str,
        line_num: usize,
        row_style: Style,
        gutter_width: usize,
        gutter_style: GutterStyle,
        row_type: RowType,
    ) -> (r: LineDraw)
        requires
            1 <= gutter_width <= u16::MAX,
        ensures
            draw_view(r) == row_line_draw(x, y, width, text@, line_num as nat, row_style, gutter_width as nat, gutter_style, row_type),
    {
        let mut g: Vec<char> = Vec::new();
        match gutter_style {
            GutterStyle::LineNumbers => {
                let d = decimal_chars(line_num);
                push_align_right(&mut g, &d, gutter_width - 1);
                g.push(' ');
            },
            GutterStyle::DiffMarkers => {
                let m = marker_chars(row_type);
                push_align_right(&mut g, &m, gutter_width - 1);
                g.push(' ');
            },
            GutterStyle::Both => {
                g.push(match row_type {
                    RowType::Addition => '+',
                    RowType::Deletion => '-',
                    RowType::Modification => '~',
                    _ => ' ',
                });
                let d = decimal_chars(line_num);
                push_align_right(&mut g, &d, 3);
                g.push(' ');
            },
            GutterStyle::Hidden => {},
        }
        let gutter_fg = gutter_color_of(row_type);
        let content_width: usize = width.saturating_sub(gutter_width as u16) as usize;
        let chars = str_chars(text);
        let shown = take_chars(&chars, content_width);
        let shown_bytes = utf8_len_of(&shown);
        let padding = content_width.saturating_sub(shown_bytes);
        let mut pad: Vec<char> = Vec::new();
        push_repeat(&mut pad, ' ', padding);
        let mut spans: Vec<Span> = Vec::new();
        spans.push(span_of(&g, Style { fg: Some(gutter_fg), bg: None, bold: false }));
        spans.push(span_of(&shown, row_style));
        spans.push(span_of(&pad, row_style));
        proof {
            assert(pad@ =~= repeat_char(' ', padding as nat));
            let d = LineDraw { area: Rect { x, y, width, height: 1 }, spans };
            assert(draw_view(d).1 =~= row_line_draw(x, y, width, text@, line_num as nat, row_style, gutter_width as nat, gutter_style, row_type).1);
        }
        LineDraw { area: Rect { x, y, width, height: 1 }, spans }
    }

    /// Style of the text of a row in pane `pane_index`.
    pub fn style_for_row_type(&self, row_type: RowType, pane_index: usize) -> (r: Style)
        requires
            pane_index < self.composite.sources@.len(),
        ensures
            r == row_style(row_type, self.composite.sources@[pane_index as int].style),
    {
        let pane_style = self.composite.sources[pane_index].style;
        match row_type {
            RowType::Addition => {
                let (r, g, b) = match pane_style.add_bg { Some(c) => c, None => (0, 60, 0) };
                Style { fg: None, bg: Some(Color::Rgb(r, g, b)), bold: false }
            },
            RowType::Deletion => {
                let (r, g, b) = match pane_style.remove_bg { Some(c) => c, None => (60, 0, 0) };
                Style { fg: None, bg: Some(Color::Rgb(r, g, b)), bold: false }
            },
            RowType::Modification => {
                let (r, g, b) = match pane_style.modify_bg { Some(c) => c, None => (60, 60, 0) };
                Style { fg: None, bg: Some(Color::Rgb(r, g, b)), bold: false }
            },
            RowType::Context => Style::plain(),
            RowType::HunkHeader => Style { fg: Some(Color::Cyan), bg: None, bold: true },
        }
    }
}

/// The line that row `row` shows in pane `pane`, if any.
pub open spec fn pane_line(row: crate::composite_buffer::AlignedRow, pane: int) -> Option<usize> {
    if 0 <= pane < row.pane_lines@.len() { row.pane_lines@[pane] } else { None }
}

/// The text of line `l` of a source (empty past its end).
pub open spec fn line_text(lines: Seq<Seq<char>>, l: int) -> Seq<char> {
    if 0 <= l < lines.len() { lines[l] } else { Seq::empty() }
}

/// No row shows the last possible line number (so line numbers shown from 1 fit).
pub open spec fn line_numbers_fit(rows: Seq<crate::composite_buffer::AlignedRow>) -> bool {
    forall|i: int, p: int| 0 <= i < rows.len() ==> ((#[trigger] pane_line(rows[i], p)) matches Some(l) ==> l < usize::MAX)
}

/// Number of rows drawn from row `scroll` in `height` screen rows.
pub open spec fn shown_rows(total: int, scroll: int, height: int) -> int {
    if sat_sub(total, scroll) <= height { sat_sub(total, scroll) } else { height }
}

/// The draw of the `k`-th shown row of pane `pane` in `rect`.
pub open spec fn pane_row_draw(c: CompositeBuffer, scroll: int, lines: Seq<Seq<char>>, rect: Rect, pane: int, k: int) -> DrawView {
    let row = c.alignment.rows@[scroll + k];
    let y = (rect.y + k) as u16;
    let ps = c.sources@[pane].style;
    match pane_line(row, pane) {
        Some(l) => row_line_draw(rect.x, y, rect.width, line_text(lines, l as int), (l + 1) as nat,
            row_style(row.row_type, ps), 5, ps.gutter_style, row.row_type),
        None => (Rect { x: rect.x, y, width: rect.width, height: 1 },
            seq![(repeat_char(' ', rect.width as nat), bg_style(Color::Rgb(30, 30, 30)))]),
    }
}

/// The focus mark on the `k`-th row of `rect`.
pub open spec fn focus_draw(rect: Rect, k: int) -> DrawView {
    (Rect { x: rect.x, y: (rect.y + k) as u16, width: 1, height: 1 },
        seq![(seq!['▌'], Style { fg: Some(Color::Theme(ThemeColor::Cursor)), bg: None, bold: true })])
}

/// The separator cell on the `k`-th row below `(x, y)`.
pub open spec fn separator_draw(x: u16, y: u16, k: int) -> DrawView {
    (Rect { x, y: (y + k) as u16, width: 1, height: 1 }, seq![(seq!['│'], fg_style(Color::DarkGray))])
}

/// What a pane shows: its visible rows, then the focus mark when focused.
pub open spec fn pane_draws(c: CompositeBuffer, scroll: int, lines: Seq<Seq<char>>, rect: Rect, pane: int, focused: bool) -> Seq<DrawView> {
    Seq::new(shown_rows(c.alignment.rows@.len() as int, scroll, rect.height as int) as nat,
        |k: int| pane_row_draw(c, scroll, lines, rect, pane, k))
        + if focused { Seq::new(rect.height as nat, |k: int| focus_draw(rect, k)) } else { Seq::empty() }
}

pub(crate) fn one_char_span(c: char, style: Style) -> (r: Span)
    ensures
        r.text@ == seq![c],
        r.style == style,
{
    let mut v: Vec<char> = Vec::new();
    v.push(c);
    proof {
        assert(v@ =~= seq![c]);
    }
    span_of(&v, style)
}

impl<'a> CompositeRenderer<'a> {
    /// The separator column: one `│` per row.
    pub fn render_separator(&self, out: &mut Vec<LineDraw>, x: u16, y: u16, height: u16)
        requires
            y + height <= u16::MAX,
        ensures
            draws_view(final(out)@) == draws_view(old(out)@) + Seq::new(height as nat, |k: int| separator_draw(x, y, k)),
    {
        let mut row: u16 = 0;
        while row < height
            invariant
                row <= height,
                y + height <= u16::MAX,
                draws_view(out@) == draws_view(old(out)@) + Seq::new(row as nat, |k: int| separator_draw(x, y, k)),
            decreases height - row,
        {
            let mut spans: Vec<Span> = Vec::new();
            spans.push(one_char_span('│', Style { fg: Some(Color::DarkGray), bg: None, bold: false }));
            let d = LineDraw { area: Rect { x, y: y + row, width: 1, height: 1 }, spans };
            proof {
                assert(draw_view(d).1 =~= separator_draw(x, y, row as int).1);
                lemma_draws_view_push(out@, d);
            }
            out.push(d);
            row += 1;
            proof {
                assert(draws_view(out@) =~= draws_view(old(out)@) + Seq::new(row as nat, |k: int| separator_draw(x, y, k)));
            }
        }
    }

    /// The focus mark: a bold `▌` in the theme's cursor colour down the left column.
    pub fn render_focus_indicator(&self, out: &mut Vec<LineDraw>, rect: Rect)
        requires
            rect.y + rect.height <= u16::MAX,
        ensures
            draws_view(final(out)@) == draws_view(old(out)@) + Seq::new(rect.height as nat, |k: int| focus_draw(rect, k)),
    {
        let mut row: u16 = 0;
        while row < rect.height
            invariant
                row <= rect.height,
                rect.y + rect.height <= u16::MAX,
                draws_view(out@) == draws_view(old(out)@) + Seq::new(row as nat, |k: int| focus_draw(rect, k)),
            decreases rect.height - row,
        {
            let mut spans: Vec<Span> = Vec::new();
            spans.push(one_char_span('▌', Style { fg: Some(Color::Theme(ThemeColor::Cursor)), bg: None, bold: true }));
            let d = LineDraw { area: Rect { x: rect.x, y: rect.y + row, width: 1, height: 1 }, spans };
            proof {
                assert(draw_view(d).1 =~= focus_draw(rect, row as int).1);
                lemma_draws_view_push(out@, d);
            }
            out.push(d);
            row += 1;
            proof {
                assert(draws_view(out@) =~= draws_view(old(out)@) + Seq::new(row as nat, |k: int| focus_draw(rect, k)));
            }
        }
    }

    /// What pane `pane_index` shows in `rect`: from the view's scroll row on,
    /// its source line with gutter or blank padding for each row, then the
    /// focus mark when focused.
    pub fn render_pane<S: BufferSource>(&self, source: &S, rect: Rect, pane_index: usize, is_focused: bool) -> (r: Vec<LineDraw>)
        requires
            pane_index < self.composite.sources@.len(),
            self.view_state.scroll_row + rect.height <= usize::MAX,
            rect.y + rect.height <= u16::MAX,
            line_numbers_fit(self.composite.alignment.rows@),
        ensures
            draws_view(r@) == pane_draws(*self.composite, self.view_state.scroll_row as int, source.source_lines(), rect,
                pane_index as int, is_focused),
    {
        let ghost c = *self.composite;
        let ghost lines = source.source_lines();
        let scroll = self.view_state.scroll_row;
        let nrows = self.composite.alignment.rows.len();
        let pane_style = self.composite.sources[pane_index].style;
        let mut out: Vec<LineDraw> = Vec::new();
        let end = scroll + rect.height as usize;
        let mut display_row = scroll;
        while display_row < end
            invariant
                scroll <= display_row <= end,
                end == scroll + rect.height,
                nrows == c.alignment.rows@.len(),
                c == *self.composite,
                lines == source.source_lines(),
                pane_index < c.sources@.len(),
                pane_style == c.sources@[pane_index as int].style,
                rect.y + rect.height <= u16::MAX,
                line_numbers_fit(c.alignment.rows@),
                display_row <= nrows || display_row == scroll,
                draws_view(out@) == Seq::new((if display_row <= nrows { display_row - scroll } else { 0 }) as nat,
                    |k: int| pane_row_draw(c, scroll as int, lines, rect, pane_index as int, k)),
            ensures
                display_row == end || display_row >= nrows,
                scroll <= display_row <= end,
                display_row <= nrows || display_row == scroll,
                draws_view(out@) == Seq::new((if display_row <= nrows { display_row - scroll } else { 0 }) as nat,
                    |k: int| pane_row_draw(c, scroll as int, lines, rect, pane_index as int, k)),
            decreases end - display_row,
        {
            if display_row >= nrows {
                break;
            }
            let k = display_row - scroll;
            let y = rect.y + k as u16;
            let d = match self.composite.alignment.rows[display_row].get_pane_line(pane_index) {
                Some(l) => {
                    proof {
                        assert(pane_line(c.alignment.rows@[display_row as int], pane_index as int) == Some(l));
                    }
                    let text = match source.get_line(l) {
                        Some(t) => t,
                        None => String::new(),
                    };
                    let rt = self.composite.alignment.rows[display_row].row_type;
                    let style = self.style_for_row_type(rt, pane_index);
                    self.render_line_with_gutter(rect.x, y, rect.width, text.as_str(), l + 1, style, 5, pane_style.gutter_style, rt)
                },
                None => {
                    let mut pad: Vec<char> = Vec::new();
                    push_repeat(&mut pad, ' ', rect.width as usize);
                    let mut spans: Vec<Span> = Vec::new();
                    spans.push(span_of(&pad, Style { fg: None, bg: Some(Color::Rgb(30, 30, 30)), bold: false }));
                    let d = LineDraw { area: Rect { x: rect.x, y, width: rect.width, height: 1 }, spans };
                    proof {
                        assert(draw_view(d).1 =~= pane_row_draw(c, scroll as int, lines, rect, pane_index as int, k as int).1);
                    }
                    d
                },
            };
            proof {
                assert(draw_view(d) == pane_row_draw(c, scroll as int, lines, rect, pane_index as int, k as int));
                lemma_draws_view_push(out@, d);
            }
            out.push(d);
            display_row += 1;
            proof {
                assert(draws_view(out@) =~= Seq::new((display_row - scroll) as nat,
                    |k: int| pane_row_draw(c, scroll as int, lines, rect, pane_index as int, k)));
            }
        }
        proof {
            assert(draws_view(out@) =~= Seq::new(shown_rows(c.alignment.rows@.len() as int, scroll as int, rect.height as int) as nat,
                |k: int| pane_row_draw(c, scroll as int, lines, rect, pane_index as int, k)));
        }
        let ghost body = draws_view(out@);
        if is_focused {
            self.render_focus_indicator(&mut out, rect);
        }
        proof {
            assert(draws_view(out@) =~= pane_draws(c, scroll as int, lines, rect, pane_index as int, is_focused));
        }
        out
    }
}

/// Entry `i` is the first source of buffer `id`.
pub open spec fn first_source_at<S>(srcs: Seq<(BufferId, S)>, id: BufferId, i: int) -> bool {
    0 <= i < srcs.len() && srcs[i].0 == id && forall|j: int| 0 <= j < i ==> srcs[j].0 != id
}

/// The lines of the (first) source of buffer `id`, if there is one.
pub open spec fn source_lines_of<S: BufferSource>(srcs: Seq<(BufferId, S)>, id: BufferId) -> Option<Seq<Seq<char>>> {
    if exists|i: int| #[trigger] first_source_at(srcs, id, i) {
        Some(srcs[choose|i: int| #[trigger] first_source_at(srcs, id, i)].1.source_lines())
    } else {
        None
    }
}

/// Index of the first source of buffer `id`.
fn find_source<S: BufferSource>(srcs: &Vec<(BufferId, S)>, id: BufferId) -> (r: Option<usize>)
    ensures
        match r {
            Some(i) => first_source_at(srcs@, id, i as int) && source_lines_of(srcs@, id) == Some(srcs@[i as int].1.source_lines()),
            None => source_lines_of(srcs@, id) is None,
        },
{
    let n = srcs.len();
    let mut i: usize = 0;
    while i < n
        invariant
            n == srcs@.len(),
            i <= n,
            forall|j: int| 0 <= j < i ==> srcs@[j].0 != id,
        decreases n - i,
    {
        if srcs[i].0 == id {
            proof {
                assert(first_source_at(srcs@, id, i as int));
                let k = choose|k: int| #[trigger] first_source_at(srcs@, id, k);
                if k < i {
                    assert(srcs@[k].0 != id);
                } else if k > i {
                    assert(srcs@[i as int].0 != id);
                }
            }
            return Some(i);
        }
        i += 1;
    }
    None
}

/// Pane `i` of a stacked layout, or nothing when its buffer has no source.
pub open spec fn stacked_pane<S: BufferSource>(c: CompositeBuffer, scroll: int, srcs: Seq<(BufferId, S)>, area: Rect,
    step: int, ph: int, focused: int, i: int) -> Seq<DrawView> {
    match source_lines_of(srcs, c.sources@[i].buffer_id) {
        Some(lines) => pane_draws(c, scroll, lines,
            Rect { x: area.x, y: (area.y + i * step) as u16, width: area.width, height: ph as u16 }, i, i == focused),
        None => Seq::empty(),
    }
}

/// The first `k` panes of a stacked layout, each `step` rows below the previous.
pub open spec fn stacked_prefix<S: BufferSource>(c: CompositeBuffer, scroll: int, srcs: Seq<(BufferId, S)>, area: Rect,
    step: int, ph: int, focused: int, k: nat) -> Seq<DrawView>
    decreases k,
{
    if k == 0 {
        Seq::empty()
    } else {
        stacked_prefix(c, scroll, srcs, area, step, ph, focused, (k - 1) as nat)
            + stacked_pane(c, scroll, srcs, area, step, ph, focused, k - 1)
    }
}

/// Height of each pane of a stacked layout: the height left after the
/// spacing, shared equally.
pub open spec fn stacked_pane_height(height: int, spacing: int, n: int) -> int {
    sat_sub(height, spacing * (n - 1)) / n
}

/// Whether the stacked panes' positions fit on the screen's coordinates.
pub open spec fn stacked_fits(c: CompositeBuffer, area: Rect, spacing: int, scroll: int) -> bool {
    let n = c.sources@.len() as int;
    n <= u16::MAX && (n == 0 || (spacing * (n - 1) <= u16::MAX
        && area.y + n * (stacked_pane_height(area.height as int, spacing, n) + spacing) <= u16::MAX
        && scroll + stacked_pane_height(area.height as int, spacing, n) <= usize::MAX))
}

/// Width of a side-by-side pane of `pct` percent of `available` cells (rounded).
pub open spec fn pane_width(available: int, pct: int) -> int {
    if (available * pct + 50) / 100 <= u16::MAX { (available * pct + 50) / 100 } else { u16::MAX as int }
}

/// Left edge of side-by-side pane `i` (and, for `i` = the number of
/// panes, the right edge of the last one).
pub open spec fn pane_left(area_x: int, available: int, ratios: Seq<u32>, sep: int, i: nat) -> int
    decreases i,
{
    if i == 0 {
        area_x
    } else {
        pane_left(area_x, available, ratios, sep, (i - 1) as nat) + pane_width(available, ratios[i - 1] as int)
            + if i < ratios.len() { sep } else { 0 }
    }
}

pub open spec fn separator_total(n_sources: int, show: bool) -> int {
    if show { sat_sub(n_sources, 1) } else { 0 }
}

/// The separators between side-by-side panes.
pub open spec fn side_separators(area: Rect, available: int, ratios: Seq<u32>, show: bool, k: nat) -> Seq<DrawView>
    decreases k,
{
    if k == 0 {
        Seq::empty()
    } else {
        side_separators(area, available, ratios, show, (k - 1) as nat) + if show && k < ratios.len() {
            Seq::new(area.height as nat, |r: int| separator_draw(
                (pane_left(area.x as int, available, ratios, 1, (k - 1) as nat) + pane_width(available, ratios[k - 1] as int)) as u16,
                area.y, r))
        } else {
            Seq::empty()
        }
    }
}

/// Side-by-side pane `i`, or nothing when its buffer has no source.
pub open spec fn side_pane<S: BufferSource>(c: CompositeBuffer, scroll: int, srcs: Seq<(BufferId, S)>, area: Rect,
    available: int, ratios: Seq<u32>, sep: int, focused: int, i: int) -> Seq<DrawView> {
    match source_lines_of(srcs, c.sources@[i].buffer_id) {
        Some(lines) => pane_draws(c, scroll, lines, Rect {
            x: pane_left(area.x as int, available, ratios, sep, i as nat) as u16,
            y: area.y,
            width: pane_width(available, ratios[i] as int) as u16,
            height: area.height,
        }, i, i == focused),
        None => Seq::empty(),
    }
}

pub open spec fn side_panes<S: BufferSource>(c: CompositeBuffer, scroll: int, srcs: Seq<(BufferId, S)>, area: Rect,
    available: int, ratios: Seq<u32>, sep: int, focused: int, k: nat) -> Seq<DrawView>
    decreases k,
{
    if k == 0 {
        Seq::empty()
    } else {
        side_panes(c, scroll, srcs, area, available, ratios, sep, focused, (k - 1) as nat)
            + side_pane(c, scroll, srcs, area, available, ratios, sep, focused, k - 1)
    }
}

/// Cells left for side-by-side panes once separators are taken.
pub open spec fn side_available(width: int, n_sources: int, show: bool) -> int {
    sat_sub(width, separator_total(n_sources, show))
}

/// What a side-by-side layout draws: the separators, then each pane that has a source.
pub open spec fn side_by_side_draws<S: BufferSource>(c: CompositeBuffer, scroll: int, focused: int, srcs: Seq<(BufferId, S)>,
    area: Rect, ratios: Seq<u32>, show: bool) -> Seq<DrawView> {
    let available = side_available(area.width as int, c.sources@.len() as int, show);
    let sep = if show { 1int } else { 0int };
    let m = if c.sources@.len() <= ratios.len() { c.sources@.len() } else { ratios.len() };
    side_separators(area, available, ratios, show, ratios.len()) + side_panes(c, scroll, srcs, area, available, ratios, sep, focused, m)
}

/// Whether the side-by-side panes' positions fit on the screen's coordinates.
pub open spec fn side_by_side_fits(c: CompositeBuffer, area: Rect, ratios: Seq<u32>, show: bool, scroll: int) -> bool {
    let sep = if show { 1int } else { 0int };
    &&& c.sources@.len() <= u16::MAX
    &&& pane_left(area.x as int, side_available(area.width as int, c.sources@.len() as int, show), ratios, sep, ratios.len()) <= u16::MAX
    &&& area.y + area.height <= u16::MAX
    &&& scroll + area.height <= usize::MAX
}

pub proof fn lemma_pane_left_mono(area_x: int, available: int, ratios: Seq<u32>, sep: int, i: nat, j: nat)
    requires
        i <= j <= ratios.len(),
        sep >= 0,
        available >= 0,
    ensures
        pane_left(area_x, available, ratios, sep, i) + (if i < j { pane_width(available, ratios[i as int] as int) } else { 0 })
            <= pane_left(area_x, available, ratios, sep, j),
    decreases j - i,
{
    if i < j {
        lemma_pane_left_mono(area_x, available, ratios, sep, (i + 1) as nat, j);
        assert(pane_width(available, ratios[i as int] as int) >= 0) by (nonlinear_arith)
            requires available >= 0, ratios[i as int] >= 0;
        if i + 1 < j {
            assert(pane_width(available, ratios[(i + 1) as int] as int) >= 0) by (nonlinear_arith)
                requires available >= 0, ratios[(i + 1) as int] >= 0;
        }
    }
}

/// Line `l` of the source of buffer `id` (empty when there is none).
pub open spec fn source_text<S: BufferSource>(srcs: Seq<(BufferId, S)>, id: BufferId, l: int) -> Seq<char> {
    match source_lines_of(srcs, id) {
        Some(lines) => line_text(lines, l),
        None => Seq::empty(),
    }
}

pub open spec fn unified_color(t: RowType) -> Color {
    match t {
        RowType::Addition => Color::Green,
        RowType::Deletion => Color::Red,
        RowType::Modification => Color::Yellow,
        RowType::HunkHeader => Color::Cyan,
        RowType::Context => Color::DarkGray,
    }
}

/// Text, line-number column and pane of a unified row: the old line if
/// there is one, else the new line.
pub open spec fn unified_pick<S: BufferSource>(c: CompositeBuffer, srcs: Seq<(BufferId, S)>, row: crate::composite_buffer::AlignedRow)
    -> (Seq<char>, Seq<char>, int) {
    match pane_line(row, 0) {
        Some(l) => (source_text(srcs, c.sources@[0].buffer_id, l as int), seq!['-'] + align_left(decimal((l + 1) as nat), 4), 0),
        None => match pane_line(row, 1) {
            Some(l) => (source_text(srcs, c.sources@[1].buffer_id, l as int), seq!['+'] + align_left(decimal((l + 1) as nat), 4), 1),
            None => (Seq::empty(), repeat_char(' ', 5), 0),
        },
    }
}

/// The `k`-th shown row of a unified view.
pub open spec fn unified_row_draw<S: BufferSource>(c: CompositeBuffer, scroll: int, srcs: Seq<(BufferId, S)>, area: Rect, k: int) -> DrawView {
    let row = c.alignment.rows@[scroll + k];
    let pick = unified_pick(c, srcs, row);
    let style = row_style(row.row_type, c.sources@[pick.2].style);
    let cw = sat_sub(area.width as int, 10);
    let shown = fitted(pick.0, cw);
    (Rect { x: area.x, y: (area.y + k) as u16, width: area.width, height: 1 }, seq![
        (pick.1.push(' ') + marker(row.row_type).push(' '), fg_style(unified_color(row.row_type))),
        (shown, style),
        (repeat_char(' ', sat_sub(cw, utf8_bytes_len(shown)) as nat), style),
    ])
}

pub open spec fn unified_draws<S: BufferSource>(c: CompositeBuffer, scroll: int, srcs: Seq<(BufferId, S)>, area: Rect) -> Seq<DrawView> {
    Seq::new(shown_rows(c.alignment.rows@.len() as int, scroll, area.height as int) as nat,
        |k: int| unified_row_draw(c, scroll, srcs, area, k))
}

/// The unified view can be drawn: a first pane, a second one where a shown
/// row has only a new line, and coordinates that fit.
pub open spec fn unified_fits(c: CompositeBuffer, area: Rect, scroll: int) -> bool {
    &&& c.sources@.len() >= 1
    &&& forall|k: int| 0 <= k < shown_rows(c.alignment.rows@.len() as int, scroll, area.height as int)
        ==> (pane_line(#[trigger] c.alignment.rows@[scroll + k], 0) is None && pane_line(c.alignment.rows@[scroll + k], 1) is Some
            ==> c.sources@.len() >= 2)
    &&& area.y + area.height <= u16::MAX
    &&& scroll + area.height <= usize::MAX
}

/// What rendering draws for the composite's layout.
pub open spec fn composite_draws<S: BufferSource>(c: CompositeBuffer, v: CompositeViewState, srcs: Seq<(BufferId, S)>, area: Rect) -> Seq<DrawView> {
    match c.layout {
        CompositeLayout::SideBySide { ratios, show_separator } =>
            side_by_side_draws(c, v.scroll_row as int, v.focused_pane as int, srcs, area, ratios@, show_separator),
        CompositeLayout::Stacked { spacing } => if c.sources@.len() == 0 {
            Seq::empty()
        } else {
            stacked_prefix(c, v.scroll_row as int, srcs, area,
                stacked_pane_height(area.height as int, spacing as int, c.sources@.len() as int) + spacing,
                stacked_pane_height(area.height as int, spacing as int, c.sources@.len() as int),
                v.focused_pane as int, c.sources@.len())
        },
        CompositeLayout::Unified => unified_draws(c, v.scroll_row as int, srcs, area),
    }
}

/// The composite can be drawn in `area` for its layout.
pub open spec fn composite_fits(c: CompositeBuffer, v: CompositeViewState, area: Rect) -> bool {
    &&& line_numbers_fit(c.alignment.rows@)
    &&& match c.layout {
        CompositeLayout::SideBySide { ratios, show_separator } => side_by_side_fits(c, area, ratios@, show_separator, v.scroll_row as int),
        CompositeLayout::Stacked { spacing } => stacked_fits(c, area, spacing as int, v.scroll_row as int),
        CompositeLayout::Unified => unified_fits(c, area, v.scroll_row as int),
    }
}

fn append_draws(out: &mut Vec<LineDraw>, more: Vec<LineDraw>)
    ensures
        draws_view(final(out)@) == draws_view(old(out)@) + draws_view(more@),
{
    let mut more = more;
    proof {
        lemma_draws_view_append(out@, more@);
    }
    out.append(&mut more);
}

impl<'a> CompositeRenderer<'a> {
    /// Panes one above the other, sharing the height left after spacing.
    pub fn render_stacked<S: BufferSource>(&self, area: Rect, spacing: u16, sources: &Vec<(BufferId, S)>) -> (r: Vec<LineDraw>)
        requires
            stacked_fits(*self.composite, area, spacing as int, self.view_state.scroll_row as int),
            line_numbers_fit(self.composite.alignment.rows@),
        ensures
            draws_view(r@) == (if self.composite.sources@.len() == 0 {
                Seq::empty()
            } else {
                stacked_prefix(*self.composite, self.view_state.scroll_row as int, sources@, area,
                    stacked_pane_height(area.height as int, spacing as int, self.composite.sources@.len() as int) + spacing,
                    stacked_pane_height(area.height as int, spacing as int, self.composite.sources@.len() as int),
                    self.view_state.focused_pane as int, self.composite.sources@.len())
            }),
    {
        let ghost c = *self.composite;
        let ghost scroll = self.view_state.scroll_row as int;
        let n = self.composite.sources.len();
        let pane_count = n as u16;
        if pane_count == 0 {
            proof {
                assert(Seq::<LineDraw>::empty().map_values(|d: LineDraw| draw_view(d)) =~= Seq::<DrawView>::empty());
            }
            return Vec::new();
        }
        let total_spacing = spacing * (pane_count - 1);
        let available_height = area.height.saturating_sub(total_spacing);
        let pane_height = available_height / pane_count;
        let ghost ph = pane_height as int;
        let ghost step = ph + spacing;
        let mut y = area.y;
        let mut out: Vec<LineDraw> = Vec::new();
        let mut i: usize = 0;
        proof {
            assert(draws_view(out@) =~= Seq::<DrawView>::empty());
            assert(ph == stacked_pane_height(area.height as int, spacing as int, n as int));
        }
        while i < n
            invariant
                c == *self.composite,
                scroll == self.view_state.scroll_row,
                n == c.sources@.len(),
                n == pane_count,
                0 < n <= u16::MAX,
                i <= n,
                ph == pane_height,
                ph == stacked_pane_height(area.height as int, spacing as int, n as int),
                step == ph + spacing,
                stacked_fits(c, area, spacing as int, scroll),
                line_numbers_fit(c.alignment.rows@),
                y == area.y + i * step,
                draws_view(out@) == stacked_prefix(c, scroll, sources@, area, step, ph, self.view_state.focused_pane as int, i as nat),
            decreases n - i,
        {
            proof {
                assert(area.y + (i + 1) * step <= area.y + n * step) by (nonlinear_arith)
                    requires i + 1 <= n, step >= 0;
                assert((i + 1) * step == i * step + step) by (nonlinear_arith);
            }
            let ghost before = draws_view(out@);
            match find_source(sources, self.composite.sources[i].buffer_id) {
                Some(si) => {
                    let rect = Rect { x: area.x, y, width: area.width, height: pane_height };
                    let d = self.render_pane(&sources[si].1, rect, i, i == self.view_state.focused_pane);
                    append_draws(&mut out, d);
                },
                None => {},
            }
            y = y + pane_height + spacing;
            i += 1;
            proof {
                assert(draws_view(out@) =~= stacked_prefix(c, scroll, sources@, area, step, ph, self.view_state.focused_pane as int, i as nat));
            }
        }
        out
    }

    /// Panes next to each other, widths by percentage, with optional separators.
    pub fn render_side_by_side<S: BufferSource>(&self, area: Rect, ratios: &[u32], show_separator: bool, sources: &Vec<(BufferId, S)>) -> (r: Vec<LineDraw>)
        requires
            side_by_side_fits(*self.composite, area, ratios@, show_separator, self.view_state.scroll_row as int),
            line_numbers_fit(self.composite.alignment.rows@),
        ensures
            draws_view(r@) == side_by_side_draws(*self.composite, self.view_state.scroll_row as int, self.view_state.focused_pane as int,
                sources@, area, ratios@, show_separator),
    {
        let ghost c = *self.composite;
        let ghost scroll = self.view_state.scroll_row as int;
        let separator_width: u16 = if show_separator { 1 } else { 0 };
        let separator_count = self.composite.sources.len().saturating_sub(1);
        let total_separators = separator_count as u16 * separator_width;
        let available_width = area.width.saturating_sub(total_separators);
        let ghost available = available_width as int;
        let ghost sep = separator_width as int;
        proof {
            assert(available == side_available(area.width as int, c.sources@.len() as int, show_separator));
        }
        let m = ratios.len();
        let mut pane_rects: Vec<Rect> = Vec::new();
        let mut x = area.x;
        let mut out: Vec<LineDraw> = Vec::new();
        let mut i: usize = 0;
        proof {
            assert(draws_view(out@) =~= Seq::<DrawView>::empty());
        }
        while i < m
            invariant
                m == ratios@.len(),
                i <= m,
                c == *self.composite,
                available == available_width,
                available == side_available(area.width as int, c.sources@.len() as int, show_separator),
                sep == separator_width,
                sep == (if show_separator { 1int } else { 0int }),
                side_by_side_fits(c, area, ratios@, show_separator, scroll),
                x == pane_left(area.x as int, available, ratios@, sep, i as nat),
                pane_rects@.len() == i,
                forall|j: int| 0 <= j < i ==> #[trigger] pane_rects@[j] == (Rect {
                    x: pane_left(area.x as int, available, ratios@, sep, j as nat) as u16,
                    y: area.y,
                    width: pane_width(available, ratios@[j] as int) as u16,
                    height: area.height,
                }),
                draws_view(out@) == side_separators(area, available, ratios@, show_separator, i as nat),
            decreases m - i,
        {
            proof {
                lemma_pane_left_mono(area.x as int, available, ratios@, sep, i as nat, (i + 1) as nat);
                lemma_pane_left_mono(area.x as int, available, ratios@, sep, (i + 1) as nat, m as nat);
            }
            proof {
                let a = available_width as u64;
                let b = ratios@[i as int] as u64;
                assert(a * b <= 65535 * 4294967295) by (nonlinear_arith)
                    requires a <= 65535, b <= 4294967295;
            }
            let w64: u64 = (available_width as u64 * ratios[i] as u64 + 50) / 100;
            let width: u16 = if w64 <= 65535 { w64 as u16 } else { 65535 };
            proof {
                assert(width == pane_width(available, ratios@[i as int] as int));
            }
            pane_rects.push(Rect { x, y: area.y, width, height: area.height });
            x = x + width;
            if show_separator && i + 1 < m {
                self.render_separator(&mut out, x, area.y, area.height);
                x = x + separator_width;
            }
            i += 1;
            proof {
                assert forall|j: int| 0 <= j < i implies #[trigger] pane_rects@[j] == (Rect {
                    x: pane_left(area.x as int, available, ratios@, sep, j as nat) as u16,
                    y: area.y,
                    width: pane_width(available, ratios@[j] as int) as u16,
                    height: area.height,
                }) by {
                }
                assert(draws_view(out@) =~= side_separators(area, available, ratios@, show_separator, i as nat));
            }
        }
        let n = self.composite.sources.len();
        let k = if n <= m { n } else { m };
        let mut i: usize = 0;
        let ghost seps = draws_view(out@);
        proof {
            assert(draws_view(out@) =~= seps + side_panes(c, scroll, sources@, area, available, ratios@, sep, self.view_state.focused_pane as int, 0));
        }
        while i < k
            invariant
                k <= n,
                k <= m,
                n == c.sources@.len(),
                m == ratios@.len(),
                pane_rects@.len() == m,
                i <= k,
                c == *self.composite,
                scroll == self.view_state.scroll_row,
                side_by_side_fits(c, area, ratios@, show_separator, scroll),
                line_numbers_fit(c.alignment.rows@),
                available == side_available(area.width as int, c.sources@.len() as int, show_separator),
                sep == (if show_separator { 1int } else { 0int }),
                forall|j: int| 0 <= j < m ==> #[trigger] pane_rects@[j] == (Rect {
                    x: pane_left(area.x as int, available, ratios@, sep, j as nat) as u16,
                    y: area.y,
                    width: pane_width(available, ratios@[j] as int) as u16,
                    height: area.height,
                }),
                draws_view(out@) == seps + side_panes(c, scroll, sources@, area, available, ratios@, sep, self.view_state.focused_pane as int, i as nat),
            decreases k - i,
        {
            match find_source(sources, self.composite.sources[i].buffer_id) {
                Some(si) => {
                    let d = self.render_pane(&sources[si].1, pane_rects[i], i, i == self.view_state.focused_pane);
                    append_draws(&mut out, d);
                },
                None => {},
            }
            i += 1;
            proof {
                assert(draws_view(out@) =~= seps + side_panes(c, scroll, sources@, area, available, ratios@, sep, self.view_state.focused_pane as int, i as nat));
            }
        }
        out
    }
}

fn unified_color_of(t: RowType) -> (r: Color)
    ensures
        r == unified_color(t),
{
    match t {
        RowType::Addition => Color::Green,
        RowType::Deletion => Color::Red,
        RowType::Modification => Color::Yellow,
        RowType::HunkHeader => Color::Cyan,
        RowType::Context => Color::DarkGray,
    }
}

/// Line `l` of the source of buffer `id`, empty when missing.
fn source_line_text<S: BufferSource>(sources: &Vec<(BufferId, S)>, id: BufferId, l: usize) -> (r: Vec<char>)
    ensures
        r@ == source_text(sources@, id, l as int),
{
    match find_source(sources, id) {
        Some(si) => match sources[si].1.get_line(l) {
            Some(t) => str_chars(t.as_str()),
            None => Vec::new(),
        },
        None => Vec::new(),
    }
}

impl<'a> CompositeRenderer<'a> {
    /// Unified diff: one column, each row showing the old line if there is
    /// one, else the new one, with `-`/`+` line numbers and a marker.
    pub fn render_unified<S: BufferSource>(&self, area: Rect, sources: &Vec<(BufferId, S)>) -> (r: Vec<LineDraw>)
        requires
            unified_fits(*self.composite, area, self.view_state.scroll_row as int),
            line_numbers_fit(self.composite.alignment.rows@),
        ensures
            draws_view(r@) == unified_draws(*self.composite, self.view_state.scroll_row as int, sources@, area),
    {
        let ghost c = *self.composite;
        let scroll = self.view_state.scroll_row;
        let nrows = self.composite.alignment.rows.len();
        let mut out: Vec<LineDraw> = Vec::new();
        let end = scroll + area.height as usize;
        let mut display_row = scroll;
        while display_row < end
            invariant
                scroll <= display_row <= end,
                end == scroll + area.height,
                nrows == c.alignment.rows@.len(),
                c == *self.composite,
                scroll == self.view_state.scroll_row,
                unified_fits(c, area, scroll as int),
                line_numbers_fit(c.alignment.rows@),
                display_row <= nrows || display_row == scroll,
                draws_view(out@) == Seq::new((if display_row <= nrows { display_row - scroll } else { 0 }) as nat,
                    |k: int| unified_row_draw(c, scroll as int, sources@, area, k)),
            ensures
                display_row == end || display_row >= nrows,
                scroll <= display_row <= end,
                display_row <= nrows || display_row == scroll,
                draws_view(out@) == Seq::new((if display_row <= nrows { display_row - scroll } else { 0 }) as nat,
                    |k: int| unified_row_draw(c, scroll as int, sources@, area, k)),
            decreases end - display_row,
        {
            if display_row >= nrows {
                break;
            }
            let k = display_row - scroll;
            let y = area.y + k as u16;
            let ghost row = c.alignment.rows@[display_row as int];
            proof {
                assert(0 <= k < shown_rows(c.alignment.rows@.len() as int, scroll as int, area.height as int));
                assert(c.alignment.rows@[scroll + k] == row);
            }
            let rt = self.composite.alignment.rows[display_row].row_type;
            let mut nums: Vec<char> = Vec::new();
            let (text, pane_idx) = match self.composite.alignment.rows[display_row].get_pane_line(0) {
                Some(l) => {
                    proof {
                        assert(pane_line(row, 0) == Some(l));
                    }
                    let t = source_line_text(sources, self.composite.sources[0].buffer_id, l);
                    nums.push('-');
                    let d = decimal_chars(l + 1);
                    push_align_left(&mut nums, &d, 4);
                    (t, 0usize)
                },
                None => match self.composite.alignment.rows[display_row].get_pane_line(1) {
                    Some(l) => {
                        proof {
                            assert(pane_line(row, 1) == Some(l));
                        }
                        let t = source_line_text(sources, self.composite.sources[1].buffer_id, l);
                        nums.push('+');
                        let d = decimal_chars(l + 1);
                        push_align_left(&mut nums, &d, 4);
                        (t, 1usize)
                    },
                    None => {
                        push_repeat(&mut nums, ' ', 5);
                        (Vec::new(), 0usize)
                    },
                },
            };
            proof {
                let pick = unified_pick(c, sources@, row);
                assert(text@ == pick.0);
                assert(nums@ =~= pick.1);
                assert(pane_idx == pick.2);
            }
            let rstyle = self.style_for_row_type(rt, pane_idx);
            let mut gutter = nums;
            gutter.push(' ');
            let m = marker_chars(rt);
            let mut mi: usize = 0;
            let ghost g0 = gutter@;
            while mi < m.len()
                invariant
                    mi <= m@.len(),
                    gutter@ == g0 + m@.subrange(0, mi as int),
                decreases m@.len() - mi,
            {
                gutter.push(m[mi]);
                mi += 1;
                proof {
                    assert(gutter@ =~= g0 + m@.subrange(0, mi as int));
                }
            }
            gutter.push(' ');
            let content_width: usize = area.width.saturating_sub(10) as usize;
            let shown = take_chars(&text, content_width);
            let shown_bytes = utf8_len_of(&shown);
            let padding = content_width.saturating_sub(shown_bytes);
            let mut pad: Vec<char> = Vec::new();
            push_repeat(&mut pad, ' ', padding);
            let mut spans: Vec<Span> = Vec::new();
            spans.push(span_of(&gutter, Style { fg: Some(unified_color_of(rt)), bg: None, bold: false }));
            spans.push(span_of(&shown, rstyle));
            spans.push(span_of(&pad, rstyle));
            let d = LineDraw { area: Rect { x: area.x, y, width: area.width, height: 1 }, spans };
            proof {
                assert(m@.subrange(0, m@.len() as int) =~= m@);
                let pick = unified_pick(c, sources@, row);
                assert(gutter@ =~= pick.1.push(' ') + marker(row.row_type).push(' '));
                assert(pad@ =~= repeat_char(' ', padding as nat));
                let u = unified_row_draw(c, scroll as int, sources@, area, k as int);
                assert(draw_view(d).1 =~= unified_row_draw(c, scroll as int, sources@, area, k as int).1);
                lemma_draws_view_push(out@, d);
            }
            out.push(d);
            display_row += 1;
            proof {
                assert(draws_view(out@) =~= Seq::new((display_row - scroll) as nat,
                    |k: int| unified_row_draw(c, scroll as int, sources@, area, k)));
            }
        }
        proof {
            assert(draws_view(out@) =~= unified_draws(c, scroll as int, sources@, area));
        }
        out
    }

    /// Render the composite buffer in `area`, by its layout.
    pub fn render<S: BufferSource>(&self, area: Rect, sources: &Vec<(BufferId, S)>) -> (r: Vec<LineDraw>)
        requires
            composite_fits(*self.composite, *self.view_state, area),
        ensures
            draws_view(r@) == composite_draws(*self.composite, *self.view_state, sources@, area),
    {
        match &self.composite.layout {
            CompositeLayout::SideBySide { ratios, show_separator } => {
                self.render_side_by_side(area, ratios.as_slice(), *show_separator, sources)
            },
            CompositeLayout::Stacked { spacing } => {
                self.render_stacked(area, *spacing, sources)
            },
            CompositeLayout::Unified => {
                self.render_unified(area, sources)
            },
        }
    }
}
} // verus!
