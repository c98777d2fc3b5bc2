use fresh::split_content::SplitPane;
use fresh::viewport::Viewport;
use fresh::composite_buffer::{BufferId, SplitId};
use fresh::cursor::{Cursor, Cursors, ViewPosition};
use fresh::draw::{Color, Rect, Style, ThemeColor};
use fresh::overlay::{Overlay, OverlayFace, OverlayHandle, OverlayManager, OverlayNamespace};
use fresh::split_rendering::{
    DecorationContext, LineRenderInput, SelectionContext, SplitRenderer, SplitViewState, ViewMode, ViewPreferences,
};
use fresh::syntect_highlighter::HighlightSpan;
use fresh::text_buffer::Buffer;
use fresh::view_pipeline::{Layout, LineStart, ViewLine, ViewTokenWire, ViewTokenWireKind};

fn line(text: &str, first_byte: usize, start: LineStart) -> ViewLine {
    let chars: Vec<char> = text.chars().collect();
    let maps = (0..chars.len()).map(|i| Some(first_byte + i)).collect();
    ViewLine {
        text: chars,
        char_mappings: maps,
        line_start: start,
        ends_with_newline: text.ends_with('\n'),
        end_byte: Some(first_byte + text.len()),
    }
}

fn empty_selection() -> SelectionContext {
    SelectionContext { ranges: vec![], block_rects: vec![], cursor_positions: vec![], primary_cursor_position: (0, 0) }
}

fn empty_decorations() -> DecorationContext {
    DecorationContext { highlight_spans: vec![], semantic_spans: vec![], viewport_overlays: vec![], diagnostic_lines: vec![] }
}

fn pos(view_line: usize, column: usize) -> ViewPosition {
    ViewPosition { view_line, column, source_byte: None }
}

#[test]
fn render_lines_draws_gutter_text_and_cursor() {
    let lines = vec![
        line("let a\n", 0, LineStart::Beginning),
        line("b = 2\n", 6, LineStart::AfterSourceNewline),
        line("cont", 12, LineStart::AfterBreak),
    ];
    let sel = empty_selection();
    let dec = empty_decorations();
    let input = LineRenderInput {
        view_lines: &lines,
        start_line_idx: 1,
        render_area: Rect { x: 0, y: 2, width: 40, height: 5 },
        gutter_width: 7,
        selection: &sel,
        decorations: &dec,
        visible_line_count: 5,
        is_active: true,
        primary: pos(2, 3),
        left_column: 0,
    };
    let out = SplitRenderer::render_lines(input);
    assert_eq!(out.content_lines_rendered, 2);
    assert_eq!(out.lines.len(), 2);
    assert_eq!(out.lines[0][0].text, "   2 │ ");
    assert_eq!(out.lines[0][0].style.fg, Some(Color::Theme(ThemeColor::LineNumberFg)));
    assert_eq!(out.lines[0][1].text, "b = 2\n");
    assert_eq!(out.lines[1][0].text, "      │ ");
    // cursor on the second drawn line (a wrapped one), column 3, after its 8-cell gutter
    assert_eq!(out.cursor, Some((11, 3)));
    let end = out.last_line_end.unwrap();
    assert_eq!(end.pos, (12, 3));
    assert!(!end.terminated_with_newline);
}

#[test]
fn render_lines_groups_styles_into_runs() {
    let lines = vec![line("abcdef", 0, LineStart::Beginning)];
    let sel = SelectionContext { ranges: vec![4..6], block_rects: vec![], cursor_positions: vec![], primary_cursor_position: (0, 0) };
    let dec = DecorationContext {
        highlight_spans: vec![HighlightSpan { range: 0..2, color: Color::Red }],
        semantic_spans: vec![HighlightSpan { range: 1..3, color: Color::Cyan }],
        viewport_overlays: vec![],
        diagnostic_lines: vec![],
    };
    let input = LineRenderInput {
        view_lines: &lines,
        start_line_idx: 0,
        render_area: Rect { x: 0, y: 0, width: 40, height: 1 },
        gutter_width: 7,
        selection: &sel,
        decorations: &dec,
        visible_line_count: 1,
        is_active: false,
        primary: pos(0, 0),
        left_column: 0,
    };
    let out = SplitRenderer::render_lines(input);
    let spans: Vec<(String, Style)> = out.lines[0].iter().skip(1).map(|s| (s.text.clone(), s.style)).collect();
    let editor = Some(Color::Theme(ThemeColor::EditorFg));
    assert_eq!(
        spans,
        vec![
            ("a".to_string(), Style { fg: Some(Color::Red), bg: None, bold: false }),
            ("b".to_string(), Style { fg: Some(Color::Red), bg: Some(Color::Cyan), bold: false }),
            ("c".to_string(), Style { fg: editor, bg: Some(Color::Cyan), bold: false }),
            ("d".to_string(), Style { fg: editor, bg: None, bold: false }),
            ("ef".to_string(), Style { fg: editor, bg: Some(Color::Theme(ThemeColor::SelectionBg)), bold: false }),
        ]
    );
    assert_eq!(out.cursor, None);
}

#[test]
fn cursor_outside_shown_columns_is_hidden() {
    let lines = vec![line("abcdef", 0, LineStart::Beginning)];
    let sel = empty_selection();
    let dec = empty_decorations();
    let input = LineRenderInput {
        view_lines: &lines,
        start_line_idx: 0,
        render_area: Rect { x: 0, y: 0, width: 10, height: 1 },
        gutter_width: 7,
        selection: &sel,
        decorations: &dec,
        visible_line_count: 1,
        is_active: true,
        primary: pos(0, 5),
        left_column: 0,
    };
    // three columns of content are shown
    assert_eq!(SplitRenderer::render_lines(input).cursor, None);
}

fn kinds(ts: &[ViewTokenWire]) -> Vec<(Option<usize>, String)> {
    ts.iter()
        .map(|t| {
            let k = match &t.kind {
                ViewTokenWireKind::Text(s) => format!("T:{}", s),
                ViewTokenWireKind::Newline => "NL".to_string(),
                ViewTokenWireKind::Space => "SP".to_string(),
                ViewTokenWireKind::Break => "BR".to_string(),
            };
            (t.source_offset, k)
        })
        .collect()
}

#[test]
fn base_tokens_split_words_spaces_and_newlines() {
    let b = Buffer::from_bytes(b"ab cd\nxy".to_vec());
    let ts = SplitRenderer::build_base_tokens_for_hook(&b, 0, 80, 10);
    assert_eq!(
        kinds(&ts),
        vec![
            (Some(0), "T:ab".to_string()),
            (Some(2), "SP".to_string()),
            (Some(3), "T:cd".to_string()),
            (Some(5), "NL".to_string()),
            (Some(6), "T:xy".to_string()),
        ]
    );
    // starting inside the second line reads from its start
    let ts = SplitRenderer::build_base_tokens_for_hook(&b, 7, 80, 10);
    assert_eq!(kinds(&ts), vec![(Some(6), "T:xy".to_string())]);
}

#[test]
fn base_tokens_of_empty_buffer_and_line_limit() {
    let b = Buffer::from_bytes(vec![]);
    let ts = SplitRenderer::build_base_tokens_checked(&b, 3, 80, 10).unwrap();
    assert_eq!(kinds(&ts), vec![(Some(3), "T:".to_string())]);
    // visible count 0 still reads four lines
    let b = Buffer::from_bytes(b"1\n2\n3\n4\n5\n".to_vec());
    let ts = SplitRenderer::build_base_tokens_for_hook(&b, 0, 80, 0);
    assert_eq!(ts.len(), 8);
    assert_eq!(ts[6].source_offset, Some(6));
}

#[test]
fn base_tokens_count_utf8_bytes() {
    let b = Buffer::from_bytes("é x".as_bytes().to_vec());
    let ts = SplitRenderer::build_base_tokens_for_hook(&b, 0, 80, 1);
    assert_eq!(kinds(&ts), vec![(Some(0), "T:é".to_string()), (Some(2), "SP".to_string()), (Some(3), "T:x".to_string())]);
}

#[test]
fn split_layout_reserves_tabs_and_scrollbar() {
    let l = SplitRenderer::split_layout(Rect { x: 2, y: 1, width: 30, height: 10 });
    assert_eq!(l.tabs_rect, Rect { x: 2, y: 1, width: 30, height: 1 });
    assert_eq!(l.content_rect, Rect { x: 2, y: 2, width: 29, height: 9 });
    assert_eq!(l.scrollbar_rect, Rect { x: 31, y: 2, width: 1, height: 9 });
}

#[test]
fn tabs_and_preferences_come_from_the_split() {
    let states = vec![(
        SplitId(4),
        SplitViewState {
            open_buffers: vec![BufferId(1), BufferId(2)],
            tab_scroll_offset: 3,
            view_mode: ViewMode::Compose,
            compose_width: Some(80),
            compose_column_guides: Some(vec![40]),
        },
    )];
    assert_eq!(SplitRenderer::split_buffers_for_tabs(Some(&states), SplitId(4), BufferId(9)), (vec![BufferId(1), BufferId(2)], 3));
    assert_eq!(SplitRenderer::split_buffers_for_tabs(Some(&states), SplitId(5), BufferId(9)), (vec![BufferId(9)], 0));
    assert_eq!(SplitRenderer::split_buffers_for_tabs(None, SplitId(4), BufferId(9)), (vec![BufferId(9)], 0));
    let own = ViewPreferences { view_mode: ViewMode::Source, compose_width: None, compose_column_guides: None };
    let p = SplitRenderer::resolve_view_preferences(&own, Some(&states), SplitId(4));
    assert_eq!(p.view_mode, ViewMode::Compose);
    assert_eq!(p.compose_width, Some(80));
    assert_eq!(p.compose_column_guides, Some(vec![40]));
    let p = SplitRenderer::resolve_view_preferences(&own, Some(&states), SplitId(1));
    assert_eq!(p.view_mode, ViewMode::Source);
    assert_eq!(p.compose_width, None);
}

#[test]
fn contexts_collect_selections_and_diagnostic_lines() {
    let b = Buffer::from_bytes(b"one\ntwo\nthree\n".to_vec());
    let mut cursors = Cursors::new();
    let p = cursors.primary_id();
    {
        let c = cursors.get_mut(p).unwrap();
        c.position = ViewPosition { view_line: 0, column: 2, source_byte: Some(2) };
        c.anchor = Some(ViewPosition { view_line: 1, column: 1, source_byte: Some(5) });
    }
    cursors.add(Cursor::new(ViewPosition { view_line: 2, column: 0, source_byte: Some(8) }));
    let mut overlays = OverlayManager::new();
    let diag = |s: usize, e: usize| Overlay {
        handle: OverlayHandle(0),
        namespace: Some(OverlayNamespace::from_string("lsp-diagnostic".to_string())),
        start: s,
        end: e,
        face: OverlayFace::Background { color: Color::Red },
        priority: 1,
        message: None,
    };
    overlays.add(diag(0, 2));
    overlays.add(diag(1, 3));
    overlays.add(diag(8, 9));
    overlays.add(diag(20, 30));
    let layout = Layout { lines: vec![], source_start: 0, source_end: 14 };
    let (sel, dec) = SplitRenderer::build_contexts(&cursors, &overlays, &b, &layout, vec![], vec![], vec![(4, 5), (1, 1)]);
    assert_eq!(sel.ranges, vec![2..5]);
    assert_eq!(sel.primary_cursor_position, (4, 5));
    assert_eq!(dec.viewport_overlays.len(), 3);
    let mut lines = dec.diagnostic_lines.clone();
    lines.sort();
    assert_eq!(lines, vec![0, 2]);
}

#[test]
fn render_content_draws_each_visible_split() {
    let buffer = Buffer::from_bytes(b"ab\ncd\n".to_vec());
    let mut cursors = Cursors::new();
    cursors.primary_mut().position = ViewPosition { view_line: 1, column: 1, source_byte: Some(4) };
    let overlays = OverlayManager::new();
    let panes = vec![
        SplitPane {
            split_id: SplitId(1),
            buffer_id: BufferId(7),
            area: Rect { x: 0, y: 0, width: 20, height: 4 },
            buffer: &buffer,
            cursors: &cursors,
            overlays: &overlays,
            viewport: Viewport::new(80, 24),
            highlight_spans: vec![],
            semantic_spans: vec![],
            cursor_positions: vec![(3, 1)],
        },
        SplitPane {
            split_id: SplitId(2),
            buffer_id: BufferId(7),
            area: Rect { x: 20, y: 0, width: 20, height: 4 },
            buffer: &buffer,
            cursors: &cursors,
            overlays: &overlays,
            viewport: Viewport::new(80, 24),
            highlight_spans: vec![],
            semantic_spans: vec![],
            cursor_positions: vec![],
        },
    ];
    let out = SplitRenderer::render_content(&panes, SplitId(1), None, 80, false);
    assert_eq!(out.len(), 2);
    let first = &out[0];
    assert_eq!(first.split_id, SplitId(1));
    assert_eq!(first.tabs, vec![BufferId(7)]);
    assert_eq!(first.layout.content_rect, Rect { x: 0, y: 1, width: 19, height: 3 });
    assert_eq!(first.layout.scrollbar_rect, Rect { x: 19, y: 1, width: 1, height: 3 });
    assert_eq!((first.viewport.width, first.viewport.height), (19, 3));
    assert_eq!(first.output.content_lines_rendered, 3);
    assert_eq!(first.output.lines[0][0].text, "   1 │ ");
    assert_eq!(first.selection.primary_cursor_position, (3, 1));
    // the active split shows the primary cursor after the gutter of line 2
    assert_eq!(first.cursor, Some((8, 2)));
    // the other split is not active: the cursor goes to the end of its last
    // line, which has no newline
    let second = &out[1];
    assert_eq!(second.layout.tabs_rect, Rect { x: 20, y: 0, width: 20, height: 1 });
    assert_eq!(second.output.cursor, None);
    assert_eq!(second.cursor, Some((7, 3)));
    assert_eq!(first.thumb, (0, 3));
    assert_eq!(first.scrollbar.len(), 3);
    let hidden = SplitRenderer::render_content(&panes, SplitId(1), None, 80, true);
    assert_eq!(hidden[0].cursor, None);
}

#[test]
fn scrollbar_thumb_follows_the_scroll_position() {
    let rect = Rect { x: 30, y: 2, width: 1, height: 10 };
    let (cells, thumb) = SplitRenderer::render_scrollbar(rect, 100, 40, 20);
    assert_eq!(thumb, (4, 6));
    assert_eq!(cells.len(), 10);
    assert_eq!(cells[4].spans[0].text, "█");
    assert_eq!(cells[4].area, Rect { x: 30, y: 6, width: 1, height: 1 });
    assert_eq!(cells[3].spans[0].text, "│");
    assert_eq!(cells[6].spans[0].style.fg, Some(Color::Theme(ThemeColor::ScrollbarTrackFg)));
    // halves round down the track
    assert_eq!(SplitRenderer::render_scrollbar(rect, 100, 45, 20).1, (5, 7));
    // everything fits: the thumb fills the track
    assert_eq!(SplitRenderer::render_scrollbar(rect, 5, 0, 20).1, (0, 10));
    // nothing to show
    let (none, t) = SplitRenderer::render_scrollbar(rect, 0, 0, 20);
    assert!(none.is_empty());
    assert_eq!(t, (0, 0));
    // a tiny share still gets one row
    assert_eq!(SplitRenderer::render_scrollbar(rect, 10000, 0, 1).1, (0, 1));
}

#[test]
fn wrapping_keeps_the_text_and_fits_each_line() {
    let tok = |off: Option<usize>, kind: ViewTokenWireKind| ViewTokenWire { source_offset: off, kind, style: None };
    let tokens = vec![
        tok(Some(0), ViewTokenWireKind::Text("abcdefghij".to_string())),
        tok(Some(10), ViewTokenWireKind::Space),
        tok(Some(11), ViewTokenWireKind::Text("xyz".to_string())),
        tok(Some(14), ViewTokenWireKind::Newline),
        tok(Some(15), ViewTokenWireKind::Text("ok".to_string())),
    ];
    let out = SplitRenderer::apply_wrapping_transform(tokens, 7, 2);
    let mut shown = String::new();
    let mut widths = vec![0usize];
    for t in &out {
        match &t.kind {
            ViewTokenWireKind::Text(s) => {
                shown.push_str(s);
                *widths.last_mut().unwrap() += s.chars().count();
            }
            ViewTokenWireKind::Space => {
                shown.push(' ');
                *widths.last_mut().unwrap() += 1;
            }
            ViewTokenWireKind::Newline => {
                shown.push('\n');
                widths.push(0);
            }
            ViewTokenWireKind::Break => widths.push(0),
        }
    }
    assert_eq!(shown, "abcdefghij xyz\nok");
    assert!(widths.iter().all(|w| *w <= 5), "{:?}", widths);
    assert_eq!(widths, vec![5, 5, 4, 2]);
}

#[test]
fn wide_escaped_text_stands_alone_on_its_line() {
    let tok = |kind: ViewTokenWireKind| ViewTokenWire { source_offset: None, kind, style: None };
    let escaped = "\x1b[31mxxxxxxxxxx\x1b[0m".to_string();
    let tokens = vec![
        tok(ViewTokenWireKind::Text("ab".to_string())),
        tok(ViewTokenWireKind::Text(escaped.clone())),
        tok(ViewTokenWireKind::Text("cd".to_string())),
    ];
    let out = SplitRenderer::apply_wrapping_transform(tokens, 5, 0);
    let kinds: Vec<String> = out
        .iter()
        .map(|t| match &t.kind {
            ViewTokenWireKind::Text(s) => s.clone(),
            ViewTokenWireKind::Break => "<break>".to_string(),
            _ => "<other>".to_string(),
        })
        .collect();
    assert_eq!(kinds, vec!["ab".to_string(), "<break>".to_string(), escaped, "<break>".to_string(), "cd".to_string()]);
}
