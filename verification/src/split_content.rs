//! Drawing the content of the visible splits: for each split its tab row,
//! the layout of the lines in view, selections and decorations, the drawn
//! lines and where the terminal cursor goes.

use vstd::prelude::*;
use crate::composite_buffer::{BufferId, SplitId};
use crate::cursor::Cursors;
use crate::draw::{Color, LineDraw, Rect, Span, Style, ThemeColor, lemma_utf8_bytes_len_bounds};
use crate::composite_renderer::one_char_span;
use crate::text_util::{min_int, max_int, sat_sub};
use crate::overlay::{OverlayHandle, OverlayManager};
use crate::split_rendering::{
    DecorationContext, LastLineEnd, LineRenderInput, LineRenderOutput, SelectionContext, SplitLayout,
    SplitRenderer, SplitViewState, base_tokens_fit, cursor_cell, drawn_count, is_diagnostic_line, last_end,
    line_spans, lemma_utf8_bytes_len_push, ranges_view, selection_ranges, spans_view, spec_base_tokens,
    spec_split_layout, tabs_for, tokens_model, viewport_overlays,
};
use crate::syntect_highlighter::HighlightSpan;
use crate::text_buffer::Buffer;
use crate::text_util::{char_len_utf8, str_chars, utf8_len};
use crate::view_pipeline::{Layout, LineModel, ViewLine, ViewTokenWire, ViewTokenWireKind, layout_lines,
    lines_match, tokens_fit, utf8_bytes_len};
use crate::viewport::Viewport;

verus! {

/// One visible split: where it is, the buffer it shows, and what drawing
/// that buffer needs (its highlighting and the screen cells of its cursors).
pub struct SplitPane<'a> {
    pub split_id: SplitId,
    pub buffer_id: BufferId,
    pub area: Rect,
    pub buffer: &'a Buffer,
    pub cursors: &'a Cursors,
    pub overlays: &'a OverlayManager,
    pub viewport: Viewport,
    pub highlight_spans: Vec<HighlightSpan>,
    pub semantic_spans: Vec<HighlightSpan>,
    pub cursor_positions: Vec<(u16, u16)>,
}

/// What drawing a split produced.
pub struct SplitRender {
    pub split_id: SplitId,
    pub buffer_id: BufferId,
    /// Buffers shown as tabs, and how far the tab row is scrolled
    pub tabs: Vec<BufferId>,
    pub tab_scroll_offset: usize,
    /// Tab row, content and scrollbar areas
    pub layout: SplitLayout,
    /// The split's viewport, sized to the content area
    pub viewport: Viewport,
    /// The tokens of the lines in view, and their layout
    pub tokens: Vec<ViewTokenWire>,
    pub view: Layout,
    pub selection: SelectionContext,
    pub decorations: DecorationContext,
    /// The drawn lines
    pub output: LineRenderOutput,
    /// Where the terminal cursor is shown, if anywhere
    pub cursor: Option<(u16, u16)>,
    /// The scrollbar cells, and the rows its thumb covers
    pub scrollbar: Vec<LineDraw>,
    pub thumb: (usize, usize),
}

/// A one-cell draw: its rectangle and its spans' texts and styles.
pub open spec fn draw_cell(d: LineDraw) -> (Rect, Seq<(Seq<char>, Style)>) {
    (d.area, d.spans@.map_values(|s: Span| (s.text@, s.style)))
}

/// A split's area and scroll position leave room for its arithmetic, and
/// its cursors are well formed.
pub open spec fn pane_fits(p: SplitPane) -> bool {
    &&& p.area.y + p.area.height < u16::MAX
    &&& p.area.x + p.area.width <= u16::MAX
    &&& p.viewport.top_view_line + u16::MAX <= usize::MAX
    &&& p.viewport.left_column + u16::MAX <= usize::MAX
    &&& p.cursors.wf()
}

/// Every line's text is short enough to be measured in bytes.
pub open spec fn models_fit(ms: Seq<LineModel>) -> bool {
    forall|i: int| 0 <= i < ms.len() ==> (#[trigger] ms[i]).text.len() <= usize::MAX / 8
}

/// The tokens can be laid out, and their lines measured.
pub open spec fn view_fits(ts: Seq<ViewTokenWire>) -> bool {
    tokens_fit(ts) && models_fit(layout_lines(ts))
}

/// Where the terminal cursor goes: nowhere when hidden; else the cursor
/// cell, or else the end of the last line when that line has no newline.
pub open spec fn shown_cursor(hide: bool, cell: Option<(u16, u16)>, last: Option<LastLineEnd>) -> Option<(u16, u16)> {
    if hide {
        None
    } else {
        match cell {
            Some(c) => Some(c),
            None => match last {
                Some(e) => if !e.terminated_with_newline { Some(e.pos) } else { None },
                None => None,
            },
        }
    }
}

/// The split's viewport, sized to its content area.
pub open spec fn sized_viewport(p: SplitPane) -> Viewport {
    Viewport {
        width: spec_split_layout(p.area).content_rect.width,
        height: spec_split_layout(p.area).content_rect.height,
        ..p.viewport
    }
}

/// `r` is what drawing split `p` gives.
pub open spec fn split_rendered(p: SplitPane, r: SplitRender, active_split: SplitId,
    split_view_states: Option<&Vec<(SplitId, SplitViewState)>>, hide_cursor: bool) -> bool {
    let lay = spec_split_layout(p.area);
    let vp = sized_viewport(p);
    let top = vp.top_view_line as int;
    let n = drawn_count(r.view.lines@.len() as int, top, vp.height as int);
    let primary = p.cursors@.cursors[p.cursors@.primary_id].position;
    &&& r.split_id == p.split_id
    &&& r.buffer_id == p.buffer_id
    &&& tabs_for(split_view_states, p.split_id, p.buffer_id, r.tabs@, r.tab_scroll_offset)
    &&& r.layout == lay
    &&& r.viewport == vp
    // the lines in view
    &&& (base_tokens_fit(p.buffer@, top, vp.height as int)
        ==> tokens_model(r.tokens@) == spec_base_tokens(p.buffer@, top, vp.height as int))
    &&& (!base_tokens_fit(p.buffer@, top, vp.height as int) ==> r.tokens@.len() == 0)
    &&& r.view.source_start == 0
    &&& r.view.source_end == p.buffer@.len()
    &&& (view_fits(r.tokens@) ==> lines_match(r.view.lines@, layout_lines(r.tokens@)))
    &&& (!view_fits(r.tokens@) ==> r.view.lines@.len() == 0)
    // selections and decorations
    &&& ranges_view(r.selection.ranges@) == selection_ranges(p.cursors.entries())
    &&& r.selection.cursor_positions@ == p.cursor_positions@
    &&& r.selection.primary_cursor_position
        == (if p.cursor_positions@.len() > 0 { p.cursor_positions@[0] } else { (0u16, 0u16) })
    &&& r.selection.block_rects@.len() == 0
    &&& r.decorations.highlight_spans@ == p.highlight_spans@
    &&& r.decorations.semantic_spans@ == p.semantic_spans@
    &&& r.decorations.viewport_overlays@.map_values(|e: (OverlayHandle, std::ops::Range<usize>)| (e.0, e.1.start, e.1.end))
        == viewport_overlays(p.overlays.overlays@, r.view.source_start, r.view.source_end)
    &&& (forall|l: usize| r.decorations.diagnostic_lines@.contains(l) <==> is_diagnostic_line(p.overlays.overlays@,
        p.buffer@, r.view.source_start, r.view.source_end, l as nat))
    // the drawn lines
    &&& r.output.content_lines_rendered == n
    &&& r.output.lines@.len() == n
    &&& (forall|k: int| 0 <= k < n ==> spans_view(#[trigger] r.output.lines@[k]@) == line_spans(
        r.view.lines@[top + k], (top + k) as nat, r.selection.ranges@, r.decorations.highlight_spans@,
        r.decorations.semantic_spans@))
    &&& r.output.cursor == cursor_cell(r.view.lines@, top, n, lay.content_rect, p.split_id == active_split,
        primary, vp.left_column as int)
    &&& r.output.last_line_end == last_end(r.view.lines@, top, n, lay.content_rect)
    &&& r.cursor == shown_cursor(hide_cursor, r.output.cursor, r.output.last_line_end)
    // the scrollbar
    &&& r.thumb == ({
        let t = thumb_range(r.view.lines@.len() as int, lay.scrollbar_rect.height as int, vp.height as int, top);
        (t.0 as usize, t.1 as usize)
    })
    &&& r.scrollbar@.len() == (if r.view.lines@.len() == 0 { 0 } else { lay.scrollbar_rect.height as int })
    &&& (forall|i: int| 0 <= i < r.scrollbar@.len() ==> #[trigger] draw_cell(r.scrollbar@[i]) == scrollbar_cell(
        lay.scrollbar_rect, i, thumb_range(r.view.lines@.len() as int, lay.scrollbar_rect.height as int,
            vp.height as int, top)))
}

/// A prefix of a text takes no more UTF-8 bytes than the whole.
proof fn lemma_utf8_prefix_le(s: Seq<char>, j: int)
    requires
        0 <= j <= s.len(),
    ensures
        utf8_bytes_len(s.take(j)) <= utf8_bytes_len(s),
    decreases s.len() - j,
{
    if j < s.len() {
        assert(s.take(j + 1) =~= s.take(j).push(s[j]));
        lemma_utf8_bytes_len_push(s.take(j), s[j]);
        lemma_utf8_prefix_le(s, j + 1);
    } else {
        assert(s.take(j) =~= s);
    }
}

/// Whether `o`, the UTF-8 length of `cs`, and one more fit in a `usize`.
fn fits_after(o: usize, cs: &Vec<char>) -> (r: bool)
    ensures
        r == (o + utf8_bytes_len(cs@) + 1 <= usize::MAX),
{
    proof {
        lemma_utf8_bytes_len_bounds(cs@);
    }
    if o == usize::MAX {
        return false;
    }
    let n = cs.len();
    let mut i: usize = 0;
    let mut k: usize = 0;
    proof {
        assert(cs@.take(0) =~= Seq::<char>::empty());
    }
    while i < n
        invariant
            n == cs@.len(),
            i <= n,
            k == utf8_bytes_len(cs@.take(i as int)),
            o + k + 1 <= usize::MAX,
        decreases n - i,
    {
        let w = char_len_utf8(cs[i]);
        proof {
            assert(cs@.take(i + 1) =~= cs@.take(i as int).push(cs@[i as int]));
            lemma_utf8_bytes_len_push(cs@.take(i as int), cs@[i as int]);
        }
        if w > usize::MAX - 1 - o - k {
            proof {
                lemma_utf8_prefix_le(cs@, i + 1);
            }
            return false;
        }
        k = k + w;
        i += 1;
    }
    proof {
        assert(cs@.take(n as int) =~= cs@);
    }
    true
}

/// Whether every token's source offset and length fit in a `usize`.
fn tokens_fit_exec(ts: &Vec<ViewTokenWire>) -> (r: bool)
    ensures
        r == tokens_fit(ts@),
{
    let n = ts.len();
    let mut i: usize = 0;
    while i < n
        invariant
            n == ts@.len(),
            i <= n,
            forall|j: int| 0 <= j < i ==> match (#[trigger] ts@[j]).source_offset {
                Some(o) => match ts@[j].kind {
                    ViewTokenWireKind::Text(s) => o + utf8_bytes_len(s@) + 1 <= usize::MAX,
                    _ => o + 1 <= usize::MAX,
                },
                None => match ts@[j].kind {
                    ViewTokenWireKind::Text(s) => utf8_bytes_len(s@) + 1 <= usize::MAX,
                    _ => true,
                },
            },
        decreases n - i,
    {
        let ok = match &ts[i].kind {
            ViewTokenWireKind::Text(s) => {
                let cs = str_chars(s.as_str());
                match ts[i].source_offset {
                    Some(o) => fits_after(o, &cs),
                    None => fits_after(0, &cs),
                }
            },
            _ => match ts[i].source_offset {
                Some(o) => o < usize::MAX,
                None => true,
            },
        };
        if !ok {
            return false;
        }
        i += 1;
    }
    true
}

/// Whether every line's text is short enough to be measured in bytes.
fn lines_fit_exec(lines: &Vec<ViewLine>) -> (r: bool)
    ensures
        r == (forall|i: int| 0 <= i < lines@.len() ==> (#[trigger] lines@[i]).text@.len() <= usize::MAX / 8),
{
    let n = lines.len();
    let mut i: usize = 0;
    while i < n
        invariant
            n == lines@.len(),
            i <= n,
            forall|j: int| 0 <= j < i ==> (#[trigger] lines@[j]).text@.len() <= usize::MAX / 8,
        decreases n - i,
    {
        if lines[i].text.len() > usize::MAX / 8 {
            return false;
        }
        i += 1;
    }
    true
}

fn copy_highlights(v: &Vec<HighlightSpan>) -> (r: Vec<HighlightSpan>)
    ensures
        r@ == v@,
{
    let n = v.len();
    let mut out: Vec<HighlightSpan> = Vec::new();
    let mut i: usize = 0;
    while i < n
        invariant
            n == v@.len(),
            i <= n,
            out@ == v@.take(i as int),
        decreases n - i,
    {
        let h = HighlightSpan { range: v[i].range.start..v[i].range.end, color: v[i].color };
        proof {
            assert(h.range == v@[i as int].range);
            assert(h == v@[i as int]);
        }
        out.push(h);
        i += 1;
        proof {
            assert(out@ =~= v@.take(i as int));
        }
    }
    proof {
        assert(v@.take(n as int) =~= v@);
    }
    out
}

pub(crate) fn copy_viewport(v: &Viewport) -> (r: Viewport)
    ensures
        r == *v,
{
    Viewport {
        top_view_line: v.top_view_line,
        anchor_byte: v.anchor_byte,
        left_column: v.left_column,
        width: v.width,
        height: v.height,
        scroll_offset: v.scroll_offset,
        horizontal_scroll_offset: v.horizontal_scroll_offset,
        line_wrap_enabled: v.line_wrap_enabled,
        needs_sync: v.needs_sync,
    }
}

fn copy_cells(v: &Vec<(u16, u16)>) -> (r: Vec<(u16, u16)>)
    ensures
        r@ == v@,
{
    let n = v.len();
    let mut out: Vec<(u16, u16)> = Vec::new();
    let mut i: usize = 0;
    while i < n
        invariant
            n == v@.len(),
            i <= n,
            out@ == v@.take(i as int),
        decreases n - i,
    {
        out.push(v[i]);
        i += 1;
        proof {
            assert(out@ =~= v@.take(i as int));
        }
    }
    proof {
        assert(v@.take(n as int) =~= v@);
    }
    out
}

/// The rows of a scrollbar track that the thumb covers, `start..end`: the
/// thumb is as tall as the visible share of the lines (at least one row, the
/// whole track when everything fits), and placed as far down the free rows as
/// the view is scrolled, rounded to the nearest row (halves down the track).
pub open spec fn thumb_range(total: int, track: int, visible: int, top: int) -> (int, int) {
    if track == 0 || total == 0 {
        (0, 0)
    } else {
        let size = if total <= visible { track } else { max_int((visible * track + total - 1) / total, 1) };
        let max_scroll = sat_sub(total, visible);
        let start = if max_scroll == 0 {
            0
        } else {
            min_int((2 * top * sat_sub(track, size) + max_scroll) / (2 * max_scroll), usize::MAX as int)
        };
        (start, min_int(start + size, track))
    }
}

/// The scrollbar cell of row `row`: a thumb block or a track line.
pub open spec fn scrollbar_cell(area: Rect, row: int, thumb: (int, int)) -> (Rect, Seq<(Seq<char>, Style)>) {
    let on_thumb = thumb.0 <= row && row < thumb.1;
    (Rect { x: area.x, y: (area.y + row) as u16, width: 1, height: 1 },
        seq![(if on_thumb { seq!['█'] } else { seq!['│'] },
            Style { fg: Some(Color::Theme(if on_thumb { ThemeColor::ScrollbarThumbFg } else { ThemeColor::ScrollbarTrackFg })),
                bg: None, bold: false })])
}

proof fn lemma_mul_le(a: int, b: int, am: int, bm: int)
    by (nonlinear_arith)
    requires
        0 <= a <= am,
        0 <= b <= bm,
    ensures
        0 <= a * b <= am * bm,
{
}

impl SplitRenderer {
    /// Draw a split's scrollbar down `scrollbar_rect` for a layout of `total_lines`
    /// lines seen from `top_view_line`, `visible_lines` at a time; the rows the
    /// thumb covers come back with the cells.
    pub fn render_scrollbar(scrollbar_rect: Rect, total_lines: usize, top_view_line: usize, visible_lines: usize)
        -> (r: (Vec<LineDraw>, (usize, usize)))
        requires
            scrollbar_rect.y + scrollbar_rect.height <= u16::MAX,
        ensures
            r.1 == ({
                let t = thumb_range(total_lines as int, scrollbar_rect.height as int, visible_lines as int,
                    top_view_line as int);
                (t.0 as usize, t.1 as usize)
            }),
            r.0@.len() == (if total_lines == 0 { 0 } else { scrollbar_rect.height as int }),
            forall|i: int| 0 <= i < r.0@.len() ==> #[trigger] draw_cell(r.0@[i]) == scrollbar_cell(scrollbar_rect, i,
                thumb_range(total_lines as int, scrollbar_rect.height as int, visible_lines as int, top_view_line as int)),
    {
        let track = scrollbar_rect.height as usize;
        let ghost t = thumb_range(total_lines as int, track as int, visible_lines as int, top_view_line as int);
        let mut cells: Vec<LineDraw> = Vec::new();
        if track == 0 || total_lines == 0 {
            return (cells, (0, 0));
        }
        let size: usize = if total_lines <= visible_lines {
            track
        } else {
            proof {
                lemma_mul_le(visible_lines as int, track as int, total_lines as int, u16::MAX as int);
            }
            let num: u128 = (visible_lines as u128) * (track as u128) + (total_lines as u128) - 1;
            let q: u128 = num / (total_lines as u128);
            proof {
                assert(q <= track) by (nonlinear_arith)
                    requires
                        q == (visible_lines * track + total_lines - 1) / total_lines as int,
                        visible_lines < total_lines,
                        total_lines > 0,
                ;
            }
            if q >= 1 { q as usize } else { 1 }
        };
        let max_scroll = total_lines - if visible_lines <= total_lines { visible_lines } else { total_lines };
        let start: usize = if max_scroll == 0 {
            0
        } else {
            let free: usize = if size <= track { track - size } else { 0 };
            proof {
                lemma_mul_le(top_view_line as int, free as int, 0xffff_ffff_ffff_ffff, 0xffff);
            }
            let p: u128 = (top_view_line as u128) * (free as u128);
            let num: u128 = 2 * p + (max_scroll as u128);
            proof {
                assert(num == 2 * top_view_line * free + max_scroll) by (nonlinear_arith)
                    requires
                        num == 2 * p + max_scroll,
                        p == top_view_line * free,
                ;
            }
            let q: u128 = num / (2 * (max_scroll as u128));
            if q <= usize::MAX as u128 { q as usize } else { usize::MAX }
        };
        let end: usize = if start <= track && size <= track - start { start + size } else { track };
        proof {
            assert(size == (if total_lines <= visible_lines { track as int } else {
                max_int((visible_lines * track + total_lines - 1) / total_lines as int, 1) }));
            assert((start as int, end as int) == t);
        }
        let mut row: usize = 0;
        while row < track
            invariant
                track == scrollbar_rect.height,
                scrollbar_rect.y + scrollbar_rect.height <= u16::MAX,
                row <= track,
                cells@.len() == row,
                (start as int, end as int) == t,
                forall|i: int| 0 <= i < row ==> #[trigger] draw_cell(cells@[i]) == scrollbar_cell(scrollbar_rect, i, t),
            decreases track - row,
        {
            let on_thumb = row >= start && row < end;
            let style = Style {
                fg: Some(Color::Theme(if on_thumb { ThemeColor::ScrollbarThumbFg } else { ThemeColor::ScrollbarTrackFg })),
                bg: None,
                bold: false,
            };
            let span = one_char_span(if on_thumb { '█' } else { '│' }, style);
            let mut spans: Vec<Span> = Vec::new();
            spans.push(span);
            let d = LineDraw { area: Rect { x: scrollbar_rect.x, y: scrollbar_rect.y + row as u16, width: 1, height: 1 }, spans };
            proof {
                assert(draw_cell(d) == scrollbar_cell(scrollbar_rect, row as int, t));
            }
            cells.push(d);
            row += 1;
        }
        (cells, (start, end))
    }

    /// Draw one split: its areas, tabs, the layout of the lines in view,
    /// selections and decorations, the lines, and the terminal cursor.
    pub fn render_split(pane: &SplitPane, active_split: SplitId,
        split_view_states: Option<&Vec<(SplitId, SplitViewState)>>, estimated_line_length: usize,
        hide_cursor: bool) -> (r: SplitRender)
        requires
            pane_fits(*pane),
        ensures
            split_rendered(*pane, r, active_split, split_view_states, hide_cursor),
    {
        let is_active = pane.split_id == active_split;
        let layout = Self::split_layout(pane.area);
        let (tabs, tab_scroll_offset) = Self::split_buffers_for_tabs(split_view_states, pane.split_id,
            pane.buffer_id);
        let mut viewport = copy_viewport(&pane.viewport);
        viewport.resize(layout.content_rect.width, layout.content_rect.height);
        let visible = viewport.visible_line_count();
        let tokens = match Self::build_base_tokens_checked(pane.buffer, viewport.top_view_line,
            estimated_line_length, visible) {
            Some(ts) => ts,
            None => Vec::new(),
        };
        let empty = Layout { lines: Vec::new(), source_start: 0, source_end: pane.buffer.len() };
        let view = if tokens_fit_exec(&tokens) {
            let laid = Layout::from_tokens(tokens.as_slice(), 0..pane.buffer.len());
            if lines_fit_exec(&laid.lines) {
                proof {
                    assert forall|i: int| 0 <= i < layout_lines(tokens@).len()
                        implies (#[trigger] layout_lines(tokens@)[i]).text.len() <= usize::MAX / 8 by {
                        assert(laid.lines@[i]@ == layout_lines(tokens@)[i]);
                    }
                }
                laid
            } else {
                proof {
                    assert(!models_fit(layout_lines(tokens@))) by {
                        let i = choose|i: int| 0 <= i < laid.lines@.len() && !(laid.lines@[i].text@.len() <= usize::MAX / 8);
                        assert(laid.lines@[i]@ == layout_lines(tokens@)[i]);
                    }
                }
                empty
            }
        } else {
            empty
        };
        let gutter_width = viewport.gutter_width(pane.buffer);
        let (selection, decorations) = Self::build_contexts(pane.cursors, pane.overlays, pane.buffer, &view,
            copy_highlights(&pane.highlight_spans), copy_highlights(&pane.semantic_spans),
            copy_cells(&pane.cursor_positions));
        let primary = pane.cursors.primary().position;
        let output = Self::render_lines(LineRenderInput {
            view_lines: view.lines.as_slice(),
            start_line_idx: viewport.top_view_line,
            render_area: layout.content_rect,
            gutter_width,
            selection: &selection,
            decorations: &decorations,
            visible_line_count: visible,
            is_active,
            primary,
            left_column: viewport.left_column,
        });
        let cursor = if hide_cursor {
            None
        } else {
            match output.cursor {
                Some(c) => Some(c),
                None => match output.last_line_end {
                    Some(e) => if !e.terminated_with_newline { Some(e.pos) } else { None },
                    None => None,
                },
            }
        };
        let (scrollbar, thumb) = Self::render_scrollbar(layout.scrollbar_rect, view.lines.len(),
            viewport.top_view_line, visible);
        SplitRender {
            split_id: pane.split_id,
            buffer_id: pane.buffer_id,
            tabs,
            tab_scroll_offset,
            layout,
            viewport,
            tokens,
            view,
            selection,
            decorations,
            output,
            cursor,
            scrollbar,
            thumb,
        }
    }

    /// Render the main content area: every visible split, in order.
    pub fn render_content(panes: &Vec<SplitPane>, active_split: SplitId,
        split_view_states: Option<&Vec<(SplitId, SplitViewState)>>, estimated_line_length: usize,
        hide_cursor: bool) -> (r: Vec<SplitRender>)
        requires
            forall|i: int| 0 <= i < panes@.len() ==> pane_fits(#[trigger] panes@[i]),
        ensures
            r@.len() == panes@.len(),
            forall|i: int| 0 <= i < panes@.len() ==> split_rendered(#[trigger] panes@[i], r@[i], active_split,
                split_view_states, hide_cursor),
    {
        let n = panes.len();
        let mut out: Vec<SplitRender> = Vec::new();
        let mut i: usize = 0;
        while i < n
            invariant
                n == panes@.len(),
                i <= n,
                out@.len() == i,
                forall|j: int| 0 <= j < panes@.len() ==> pane_fits(#[trigger] panes@[j]),
                forall|j: int| 0 <= j < i ==> split_rendered(#[trigger] panes@[j], out@[j], active_split,
                    split_view_states, hide_cursor),
            decreases n - i,
        {
            let r = Self::render_split(&panes[i], active_split, split_view_states, estimated_line_length,
                hide_cursor);
            out.push(r);
            i += 1;
        }
        out
    }
}

} // verus!
