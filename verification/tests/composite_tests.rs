use fresh::composite_buffer::{
    BufferId, CompositeLayout, CompositeViewState, DiffHunk, GutterStyle, LineAlignment, PaneStyle, RowType, SourcePane, SplitId,
};
use fresh::composite_renderer::{CompositeRenderer, SimpleBuffer};
use fresh::draw::{Color, LineDraw, Rect, Style, ThemeColor};
use fresh::editor::{
    BufferMetadata, CompositeHunk, CompositeLayoutConfig, CompositePaneStyle, CompositeSourceConfig, Editor,
};
use fresh::state::EditorState;
use fresh::text_buffer::Buffer;
use fresh::theme::Theme;

fn rows(a: &LineAlignment) -> Vec<(Vec<Option<usize>>, RowType)> {
    a.rows.iter().map(|r| (r.pane_lines.clone(), r.row_type)).collect()
}

fn pane(id: usize) -> SourcePane {
    SourcePane::new(BufferId(id), format!("pane {}", id), false)
}

fn editor_with_buffers(texts: &[&str]) -> (Editor, Vec<BufferId>) {
    let mut e = Editor::new();
    let mut ids = Vec::new();
    for t in texts {
        let state = EditorState::new(Buffer::from_bytes(t.as_bytes().to_vec()));
        let meta = BufferMetadata { display_name: "f".to_string(), virtual_mode: None, read_only: false };
        ids.push(e.add_buffer(state, meta));
    }
    (e, ids)
}

fn texts(d: &LineDraw) -> Vec<String> {
    d.spans.iter().map(|s| s.text.clone()).collect()
}

#[test]
fn alignment_without_hunks_pairs_lines_as_context() {
    let a = LineAlignment::from_hunks(&[], 2, 3);
    assert_eq!(
        rows(&a),
        vec![
            (vec![Some(0), Some(0)], RowType::Context),
            (vec![Some(1), Some(1)], RowType::Context),
            (vec![None, Some(2)], RowType::Context),
        ]
    );
}

#[test]
fn alignment_of_one_hunk() {
    // old line 1 replaced by new lines 1 and 2
    let a = LineAlignment::from_hunks(&[DiffHunk::new(1, 1, 1, 2)], 4, 5);
    assert_eq!(
        rows(&a),
        vec![
            (vec![Some(0), Some(0)], RowType::Context),
            (vec![None, None], RowType::HunkHeader),
            (vec![Some(1), Some(1)], RowType::Modification),
            (vec![None, Some(2)], RowType::Addition),
            (vec![Some(2), Some(3)], RowType::Context),
            (vec![Some(3), Some(4)], RowType::Context),
        ]
    );
}

#[test]
fn alignment_of_a_deletion() {
    let a = LineAlignment::from_hunks(&[DiffHunk::new(0, 2, 0, 0)], 3, 1);
    assert_eq!(
        rows(&a),
        vec![
            (vec![None, None], RowType::HunkHeader),
            (vec![Some(0), None], RowType::Deletion),
            (vec![Some(1), None], RowType::Deletion),
            (vec![Some(2), Some(0)], RowType::Context),
        ]
    );
}

#[test]
fn hunk_navigation_rows() {
    let a = LineAlignment::from_hunks(&[DiffHunk::new(1, 1, 1, 1), DiffHunk::new(4, 1, 4, 1)], 6, 6);
    // rows: ctx, header(1), mod, ctx, ctx, header(5), mod, ctx
    assert_eq!(a.next_hunk_row(0), Some(1));
    assert_eq!(a.next_hunk_row(1), Some(5));
    assert_eq!(a.next_hunk_row(5), None);
    assert_eq!(a.prev_hunk_row(5), Some(1));
    assert_eq!(a.prev_hunk_row(1), None);
    assert_eq!(a.prev_hunk_row(100), Some(5));
}

#[test]
fn create_then_close_composite() {
    let (mut e, ids) = editor_with_buffers(&["a\nb\n", "a\nc\n"]);
    let layout = CompositeLayout::SideBySide { ratios: vec![50, 50], show_separator: true };
    let id = e.create_composite_buffer("diff".to_string(), "diff-view".to_string(), layout, vec![pane(ids[0].0), pane(ids[1].0)]);
    assert_eq!(id, BufferId(2));
    assert!(e.is_composite_buffer(id));
    assert!(!e.is_composite_buffer(ids[0]));
    let c = e.get_composite(id).unwrap();
    assert_eq!(c.name, "diff");
    assert_eq!(c.pane_count(), 2);
    assert_eq!(c.row_count(), 0);
    let meta = &e.buffer_metadata.last().unwrap().1;
    assert_eq!(meta.display_name, "diff");
    assert_eq!(meta.virtual_mode.as_deref(), Some("diff-view"));
    assert!(meta.read_only);

    assert!(e.get_composite_view_state(SplitId(0), id).is_some());
    e.close_composite_buffer(id);
    assert!(!e.is_composite_buffer(id));
    assert!(e.get_composite(id).is_none());
    assert_eq!(e.buffer_metadata.len(), 2);
    assert!(e.composite_view_states.is_empty());
}

#[test]
fn focus_wraps_around() {
    let (mut e, _) = editor_with_buffers(&[]);
    let id = e.create_composite_buffer("c".to_string(), "m".to_string(), CompositeLayout::Unified, vec![pane(7), pane(8), pane(9)]);
    e.composite_focus_next(id);
    assert_eq!(e.get_composite(id).unwrap().active_pane, 1);
    e.composite_focus_next(id);
    e.composite_focus_next(id);
    assert_eq!(e.get_composite(id).unwrap().active_pane, 0);
    e.composite_focus_prev(id);
    assert_eq!(e.get_composite(id).unwrap().active_pane, 2);
    e.composite_focus_next(id);
    assert_eq!(e.get_composite(id).unwrap().active_pane, 0);
}

#[test]
fn view_state_scrolls_within_rows() {
    let (mut e, _) = editor_with_buffers(&[]);
    let id = e.create_composite_buffer("c".to_string(), "m".to_string(), CompositeLayout::Unified, vec![pane(7), pane(8)]);
    e.set_composite_alignment(id, LineAlignment::from_hunks(&[DiffHunk::new(1, 1, 1, 1), DiffHunk::new(4, 1, 4, 1)], 6, 6));
    assert!(e.get_composite_view_state(SplitId(3), BufferId(99)).is_none());
    {
        let vs = e.get_composite_view_state(SplitId(3), id).unwrap();
        assert_eq!(vs.scroll_row, 0);
        assert_eq!(vs.pane_count, 2);
    }
    e.composite_scroll(SplitId(3), id, 100);
    assert_eq!(e.get_composite_view_state(SplitId(3), id).unwrap().scroll_row, 7);
    e.composite_scroll(SplitId(3), id, -3);
    assert_eq!(e.get_composite_view_state(SplitId(3), id).unwrap().scroll_row, 4);
    e.composite_scroll(SplitId(3), id, isize::MIN);
    assert_eq!(e.get_composite_view_state(SplitId(3), id).unwrap().scroll_row, 0);
    e.composite_scroll_to(SplitId(3), id, 50);
    assert_eq!(e.get_composite_view_state(SplitId(3), id).unwrap().scroll_row, 7);
    e.composite_scroll_to(SplitId(3), id, 2);
    assert!(e.composite_next_hunk(SplitId(3), id));
    assert_eq!(e.get_composite_view_state(SplitId(3), id).unwrap().scroll_row, 5);
    assert!(!e.composite_next_hunk(SplitId(3), id));
    assert!(e.composite_prev_hunk(SplitId(3), id));
    assert_eq!(e.get_composite_view_state(SplitId(3), id).unwrap().scroll_row, 1);
    assert!(!e.composite_prev_hunk(SplitId(3), id));
    // no view state for another split
    assert!(!e.composite_next_hunk(SplitId(4), id));
}

#[test]
fn handle_create_composite_buffer_from_plugin_request() {
    let (mut e, ids) = editor_with_buffers(&["one\ntwo\nthree", "one\n2\nthree\nfour"]);
    let layout = CompositeLayoutConfig { layout_type: "stacked".to_string(), ratios: None, show_separator: false, spacing: None };
    let sources = vec![
        CompositeSourceConfig { buffer_id: ids[0].0, label: "old".to_string(), editable: false, style: None },
        CompositeSourceConfig {
            buffer_id: ids[1].0,
            label: "new".to_string(),
            editable: true,
            style: Some(CompositePaneStyle { add_bg: Some((1, 2, 3)), remove_bg: None, modify_bg: None, gutter_style: Some("diff-markers".to_string()) }),
        },
    ];
    let hunks = vec![CompositeHunk { old_start: 1, old_count: 1, new_start: 1, new_count: 1 }];
    e.handle_create_composite_buffer("d".to_string(), "diff".to_string(), layout, sources, Some(hunks), Some(1));
    let c = e.composite_buffers.last().unwrap();
    assert!(matches!(c.layout, CompositeLayout::Stacked { spacing: 1 }));
    assert_eq!(c.sources[0].label, "old");
    assert_eq!(c.sources[0].style.gutter_style, GutterStyle::LineNumbers);
    assert_eq!(c.sources[1].style.gutter_style, GutterStyle::DiffMarkers);
    assert_eq!(c.sources[1].style.add_bg, Some((1, 2, 3)));
    assert!(c.sources[1].editable);
    // old text has 3 lines, new text 4
    assert_eq!(
        rows(&c.alignment),
        vec![
            (vec![Some(0), Some(0)], RowType::Context),
            (vec![None, None], RowType::HunkHeader),
            (vec![Some(1), Some(1)], RowType::Modification),
            (vec![Some(2), Some(2)], RowType::Context),
            (vec![None, Some(3)], RowType::Context),
        ]
    );
    let id = c.id;
    e.handle_update_composite_alignment(id, vec![]);
    assert_eq!(e.get_composite(id).unwrap().row_count(), 4);
}

#[test]
fn side_by_side_layout_defaults_to_even_ratios() {
    let (mut e, _) = editor_with_buffers(&[]);
    let layout = CompositeLayoutConfig { layout_type: "side".to_string(), ratios: None, show_separator: true, spacing: None };
    e.handle_create_composite_buffer("d".to_string(), "m".to_string(), layout, vec![], None, None);
    match &e.composite_buffers[0].layout {
        CompositeLayout::SideBySide { ratios, show_separator } => {
            assert_eq!(ratios, &vec![50, 50]);
            assert!(*show_separator);
        }
        _ => panic!("expected side by side"),
    }
    assert_eq!(e.composite_buffers[0].row_count(), 0);
}

fn sample_composite(layout: CompositeLayout) -> fresh::composite_buffer::CompositeBuffer {
    let mut c = fresh::composite_buffer::CompositeBuffer::new(BufferId(5), "c".to_string(), "m".to_string(), layout, vec![pane(0), pane(1)]);
    c.set_alignment(LineAlignment::from_hunks(&[DiffHunk::new(1, 1, 1, 1)], 2, 3));
    c
}

#[test]
fn line_with_gutter_pads_and_cuts_text() {
    let c = sample_composite(CompositeLayout::Unified);
    let vs = CompositeViewState::new(BufferId(5), 2);
    let theme = Theme::dark();
    let r = CompositeRenderer::new(&c, &vs, &theme);
    let d = r.render_line_with_gutter(2, 3, 12, "hello world", 7, Style::plain(), 5, GutterStyle::LineNumbers, RowType::Addition);
    assert_eq!(d.area, Rect { x: 2, y: 3, width: 12, height: 1 });
    assert_eq!(texts(&d), vec!["   7 ".to_string(), "hello w".to_string(), "".to_string()]);
    assert_eq!(d.spans[0].style.fg, Some(Color::Green));
    let d = r.render_line_with_gutter(0, 0, 12, "ab", 7, Style::plain(), 5, GutterStyle::Both, RowType::Deletion);
    assert_eq!(texts(&d), vec!["-  7 ".to_string(), "ab".to_string(), "     ".to_string()]);
    let d = r.render_line_with_gutter(0, 0, 12, "ab", 7, Style::plain(), 5, GutterStyle::DiffMarkers, RowType::HunkHeader);
    assert_eq!(texts(&d)[0], "   @ ");
    let d = r.render_line_with_gutter(0, 0, 4, "ab", 7, Style::plain(), 5, GutterStyle::Hidden, RowType::Context);
    assert_eq!(texts(&d), vec!["".to_string(), "".to_string(), "".to_string()]);
}

#[test]
fn row_styles_use_pane_colours_or_defaults() {
    let mut c = sample_composite(CompositeLayout::Unified);
    c.sources[1].style = PaneStyle { add_bg: Some((9, 9, 9)), remove_bg: None, modify_bg: None, gutter_style: GutterStyle::LineNumbers };
    let vs = CompositeViewState::new(BufferId(5), 2);
    let theme = Theme::dark();
    let r = CompositeRenderer::new(&c, &vs, &theme);
    assert_eq!(r.style_for_row_type(RowType::Addition, 0).bg, Some(Color::Rgb(0, 60, 0)));
    assert_eq!(r.style_for_row_type(RowType::Addition, 1).bg, Some(Color::Rgb(9, 9, 9)));
    assert_eq!(r.style_for_row_type(RowType::Deletion, 1).bg, Some(Color::Rgb(60, 0, 0)));
    assert_eq!(r.style_for_row_type(RowType::Context, 1), Style::plain());
    let h = r.style_for_row_type(RowType::HunkHeader, 0);
    assert_eq!(h.fg, Some(Color::Cyan));
    assert!(h.bold);
}

#[test]
fn pane_shows_rows_from_scroll_and_focus_mark() {
    let c = sample_composite(CompositeLayout::Unified);
    let mut vs = CompositeViewState::new(BufferId(5), 2);
    vs.scroll_row = 1;
    let theme = Theme::dark();
    let r = CompositeRenderer::new(&c, &vs, &theme);
    let src = SimpleBuffer::new("first\nsecond\nthird");
    let rect = Rect { x: 0, y: 10, width: 20, height: 2 };
    let draws = r.render_pane(&src, rect, 1, true);
    // two rows (header, modification) then two focus cells
    assert_eq!(draws.len(), 4);
    assert_eq!(draws[0].area.y, 10);
    assert_eq!(texts(&draws[0]), vec![" ".repeat(20)]);
    assert_eq!(draws[0].spans[0].style.bg, Some(Color::Rgb(30, 30, 30)));
    assert_eq!(texts(&draws[1])[0], "   2 ");
    assert_eq!(texts(&draws[1])[1], "second");
    assert_eq!(texts(&draws[2]), vec!["▌".to_string()]);
    assert_eq!(draws[2].spans[0].style.fg, Some(Color::Theme(ThemeColor::Cursor)));
    assert_eq!(draws[3].area, Rect { x: 0, y: 11, width: 1, height: 1 });
}

#[test]
fn unified_view_prefers_old_lines() {
    let c = sample_composite(CompositeLayout::Unified);
    let vs = CompositeViewState::new(BufferId(5), 2);
    let theme = Theme::dark();
    let r = CompositeRenderer::new(&c, &vs, &theme);
    let sources = vec![(BufferId(0), SimpleBuffer::new("a\nb")), (BufferId(1), SimpleBuffer::new("a\nB\nc"))];
    let draws = r.render(Rect { x: 0, y: 0, width: 20, height: 10 }, &sources);
    // rows: ctx(0,0), header, mod(1,1), trailing (None, 2)
    assert_eq!(draws.len(), 4);
    assert_eq!(texts(&draws[0])[0], "-1      ");
    assert_eq!(texts(&draws[0])[1], "a");
    assert_eq!(texts(&draws[1])[0], "      @ ");
    assert_eq!(draws[1].spans[0].style.fg, Some(Color::Cyan));
    assert_eq!(texts(&draws[2])[1], "b");
    assert_eq!(texts(&draws[3])[0], "+3      ");
    assert_eq!(texts(&draws[3])[1], "c");
}

#[test]
fn side_by_side_splits_width_by_percent() {
    let c = sample_composite(CompositeLayout::SideBySide { ratios: vec![50, 50], show_separator: true });
    let vs = CompositeViewState::new(BufferId(5), 2);
    let theme = Theme::dark();
    let r = CompositeRenderer::new(&c, &vs, &theme);
    let sources = vec![(BufferId(0), SimpleBuffer::new("a\nb")), (BufferId(1), SimpleBuffer::new("a\nB\nc"))];
    let draws = r.render(Rect { x: 0, y: 0, width: 21, height: 1 }, &sources);
    // one separator cell, then pane 0 (one row + focus mark), then pane 1 (one row)
    assert_eq!(draws.len(), 4);
    assert_eq!(draws[0].area, Rect { x: 10, y: 0, width: 1, height: 1 });
    assert_eq!(texts(&draws[0]), vec!["│".to_string()]);
    assert_eq!(draws[1].area, Rect { x: 0, y: 0, width: 10, height: 1 });
    assert_eq!(draws[3].area, Rect { x: 11, y: 0, width: 10, height: 1 });
}

#[test]
fn stacked_panes_share_height() {
    let c = sample_composite(CompositeLayout::Stacked { spacing: 1 });
    let vs = CompositeViewState::new(BufferId(5), 2);
    let theme = Theme::dark();
    let r = CompositeRenderer::new(&c, &vs, &theme);
    let sources = vec![(BufferId(1), SimpleBuffer::new("a\nB\nc"))];
    let draws = r.render(Rect { x: 0, y: 0, width: 10, height: 9 }, &sources);
    // only pane 1 has a source: height (9 - 1) / 2 = 4, placed at y = 5; all four rows shown
    assert_eq!(draws.len(), 4);
    assert_eq!(draws[0].area.y, 5);
    assert_eq!(texts(&draws[0])[1], "a");
}
