use fresh::cursor::{Cursor, ViewPosition};
use fresh::view_pipeline::{Layout, ViewTokenWire, ViewTokenWireKind};
use fresh::viewport::Viewport;

fn simple_layout(text: &str) -> Layout {
    let token = ViewTokenWire {
        source_offset: Some(0),
        kind: ViewTokenWireKind::Text(text.to_string()),
        style: None,
    };
    Layout::from_tokens(&[token], 0..text.len())
}

fn cursor_at(line: usize, col: usize, src: Option<usize>) -> Cursor {
    Cursor::new(ViewPosition { view_line: line, column: col, source_byte: src })
}

#[test]
fn ensures_cursor_visibility_vertical() {
    let layout = simple_layout("line1\nline2\nline3\nline4\nline5\nline6\nline7\n");
    let mut vp = Viewport::new(80, 3);
    vp.top_view_line = 0;
    let cursor = cursor_at(5, 0, Some(5));
    vp.ensure_visible_in_layout(&cursor, &layout, 0);
    assert!(vp.top_view_line <= 5);
    assert!(vp.top_view_line + vp.visible_line_count() > 5);
}

#[test]
fn scroll_layout_respects_bounds() {
    let layout = simple_layout("line1\nline2\nline3\n");
    let mut vp = Viewport::new(80, 2);
    vp.scroll_layout(10, &layout);
    let max_top = layout.max_top_line(vp.visible_line_count());
    assert_eq!(vp.top_view_line, max_top);
    vp.scroll_layout(-10, &layout);
    assert_eq!(vp.top_view_line, 0);
}

#[test]
fn cursor_screen_position_accounts_for_offsets() {
    let layout = simple_layout("line1\nline2\n");
    let mut vp = Viewport::new(10, 2);
    vp.top_view_line = 1;
    vp.left_column = 2;
    let cursor = cursor_at(1, 5, Some(5));
    let (x, y) = vp.cursor_screen_position_layout(&layout, &cursor, 3);
    assert_eq!(y, 0); // second line now at top
    assert_eq!(x, (5usize.saturating_sub(2) + 3) as u16);
}
