//! Cursor movement over view lines of a layout.

use vstd::prelude::*;
use crate::cursor::ViewPosition;
use crate::view_pipeline::{Layout, ViewLine, max_top, spec_view_position_to_source_byte};
use crate::viewport::{Viewport, scrolled_top, anchor_for_line};
use crate::text_util::{sat_sub, min_int, max_int};
use crate::text_buffer::Buffer;
use crate::word_navigation::{spec_word_move, find_word_start_left_view, find_word_start_right_view};

verus! {

/// `v` clamped into `[lo, hi]` (with `lo` winning if the range is empty).
pub open spec fn clamp_int(v: int, lo: int, hi: int) -> int {
    max_int(min_int(v, hi), lo)
}

/// The view line reached by moving `direction` lines from `line`, kept on the layout.
pub open spec fn target_line(lines: Seq<ViewLine>, line: int, direction: int) -> int {
    clamp_int(line + direction, 0, sat_sub(lines.len() as int, 1))
}

/// The view line a horizontal move works on: the cursor's line, or the last line.
pub open spec fn nav_line(lines: Seq<ViewLine>, line: int) -> int {
    min_int(line, sat_sub(lines.len() as int, 1))
}

/// Number of characters of line `l`, or 0 past the end of the layout.
pub open spec fn nav_line_len(lines: Seq<ViewLine>, l: int) -> int {
    if 0 <= l < lines.len() { lines[l].char_mappings@.len() as int } else { 0 }
}

/// The position at (`l`, `c`) with the source byte the layout gives it.
pub open spec fn pos_at(lines: Seq<ViewLine>, l: int, c: int) -> ViewPosition {
    ViewPosition { view_line: l as usize, column: c as usize, source_byte: spec_view_position_to_source_byte(lines, l, c) }
}

/// Where a vertical move of `direction` lines from `p` lands, at column
/// `preferred_col` (or the current column).
pub open spec fn spec_move_vertical(lines: Seq<ViewLine>, p: ViewPosition, preferred_col: Option<usize>, direction: int) -> ViewPosition {
    pos_at(lines, target_line(lines, p.view_line as int, direction),
        match preferred_col { Some(c) => c as int, None => p.column as int })
}

/// Where a horizontal move of `direction` columns from `p` lands: on `p`'s line
/// (or the last line), clamped to the line's characters.
pub open spec fn spec_move_horizontal(lines: Seq<ViewLine>, p: ViewPosition, direction: int) -> ViewPosition {
    pos_at(lines, nav_line(lines, p.view_line as int),
        min_int(max_int(p.column + direction, 0),
            sat_sub(nav_line_len(lines, nav_line(lines, p.view_line as int)), 1)))
}

/// The start of `p`'s line (or of the last line).
pub open spec fn spec_move_line_start(lines: Seq<ViewLine>, p: ViewPosition) -> ViewPosition {
    pos_at(lines, nav_line(lines, p.view_line as int), 0)
}

/// The last character of `p`'s line (or of the last line).
pub open spec fn spec_move_line_end(lines: Seq<ViewLine>, p: ViewPosition) -> ViewPosition {
    pos_at(lines, nav_line(lines, p.view_line as int),
        sat_sub(nav_line_len(lines, nav_line(lines, p.view_line as int)), 1))
}

/// Where a page move (`height - 1` lines in `direction`) from `p` lands, keeping the column.
pub open spec fn spec_move_page(lines: Seq<ViewLine>, p: ViewPosition, height: int, direction: int) -> ViewPosition {
    pos_at(lines, target_line(lines, p.view_line as int, sat_sub(height, 1) * direction), p.column as int)
}

/// Number of characters of line `line`, or 0 past the end of the layout.
fn line_len_of(layout: &Layout, line: usize) -> (r: usize)
    ensures
        r == nav_line_len(layout.lines@, line as int),
{
    if line < layout.lines.len() {
        layout.lines[line].char_mappings.len()
    } else {
        0
    }
}

/// Move vertically by view lines within a layout, preserving preferred column when provided.
pub fn move_vertical(layout: &Layout, cursor: &ViewPosition, preferred_col: Option<usize>, direction: isize) -> (r: ViewPosition)
    requires
        cursor.view_line <= isize::MAX,
        isize::MIN <= cursor.view_line + direction <= isize::MAX,
    ensures
        r == spec_move_vertical(layout.lines@, *cursor, preferred_col, direction as int),
{
    let current_line = cursor.view_line;
    let last = layout.lines.len().saturating_sub(1);
    let t = current_line as isize + direction;
    let t1: usize = if t <= 0 { 0 } else { t as usize };
    let target = if t1 <= last { t1 } else { last };
    let target_col = match preferred_col {
        Some(p) => p,
        None => cursor.column,
    };
    ViewPosition {
        view_line: target,
        column: target_col,
        source_byte: layout.view_position_to_source_byte(target, target_col),
    }
}

/// Move horizontally within a view line; clamps to line length.
pub fn move_horizontal(layout: &Layout, cursor: &ViewPosition, direction: isize) -> (r: ViewPosition)
    requires
        cursor.column <= isize::MAX,
        isize::MIN <= cursor.column + direction <= isize::MAX,
    ensures
        r == spec_move_horizontal(layout.lines@, *cursor, direction as int),
{
    let last = layout.lines.len().saturating_sub(1);
    let line_idx = if cursor.view_line <= last { cursor.view_line } else { last };
    let line_len = line_len_of(layout, line_idx);
    let t = cursor.column as isize + direction;
    let raw_col: usize = if t >= 0 { t as usize } else { 0 };
    let max_col = line_len.saturating_sub(1);
    let target_col = if raw_col <= max_col { raw_col } else { max_col };
    ViewPosition {
        view_line: line_idx,
        column: target_col,
        source_byte: layout.view_position_to_source_byte(line_idx, target_col),
    }
}

/// Move to the start of the current view line.
pub fn move_line_start(layout: &Layout, cursor: &ViewPosition) -> (r: ViewPosition)
    ensures
        r == spec_move_line_start(layout.lines@, *cursor),
{
    let last = layout.lines.len().saturating_sub(1);
    let line_idx = if cursor.view_line <= last { cursor.view_line } else { last };
    ViewPosition {
        view_line: line_idx,
        column: 0,
        source_byte: layout.view_position_to_source_byte(line_idx, 0),
    }
}

/// Move to the end of the current view line (onto its last character).
pub fn move_line_end(layout: &Layout, cursor: &ViewPosition) -> (r: ViewPosition)
    ensures
        r == spec_move_line_end(layout.lines@, *cursor),
{
    let last = layout.lines.len().saturating_sub(1);
    let line_idx = if cursor.view_line <= last { cursor.view_line } else { last };
    let line_len = line_len_of(layout, line_idx);
    let col = line_len.saturating_sub(1);
    ViewPosition {
        view_line: line_idx,
        column: col,
        source_byte: layout.view_position_to_source_byte(line_idx, col),
    }
}

/// Number of lines a page move covers for a viewport: one less than its height.
pub open spec fn page_lines(viewport: Viewport) -> int {
    sat_sub(viewport.height as int, 1)
}

/// Move by a page (viewport height less one) in view lines, keeping the column.
pub fn move_page(layout: &Layout, cursor: &ViewPosition, viewport: &Viewport, direction: isize) -> (r: ViewPosition)
    requires
        cursor.view_line <= isize::MAX,
        isize::MIN <= page_lines(*viewport) * direction <= isize::MAX,
        isize::MIN <= cursor.view_line + page_lines(*viewport) * direction <= isize::MAX,
    ensures
        r == spec_move_page(layout.lines@, *cursor, viewport.height as int, direction as int),
{
    let page = viewport.visible_line_count().saturating_sub(1);
    proof {
        assert(page <= u16::MAX);
    }
    let delta = (page as isize) * direction;
    move_vertical(layout, cursor, Some(cursor.column), delta)
}

/// A page move is a vertical move by the viewport height less one, in either
/// direction, that keeps the cursor's column; both are clamped to the layout.
pub proof fn law_page_is_vertical_move(lines: Seq<ViewLine>, p: ViewPosition, viewport: Viewport, direction: int)
    ensures
        spec_move_page(lines, p, viewport.height as int, direction)
            == spec_move_vertical(lines, p, Some(p.column), page_lines(viewport) * direction),
{
}

/// A vertical move lands on the view line `direction` lines away from the
/// cursor's, kept on the layout (the first line above it, the last line below
/// it), at the preferred column when one is given and at the cursor's own
/// column otherwise; its source byte is the one the layout shows there (the
/// line's end byte just past its last character, none further right).
pub proof fn law_vertical_move_lands_at_column(lines: Seq<ViewLine>, p: ViewPosition,
    preferred_col: Option<usize>, direction: int)
    requires
        lines.len() <= usize::MAX,
    ensures
        spec_move_vertical(lines, p, preferred_col, direction).column == match preferred_col {
            Some(c) => c,
            None => p.column,
        },
        spec_move_vertical(lines, p, preferred_col, direction).view_line as int == if p.view_line + direction <= 0 {
            0
        } else if lines.len() == 0 {
            0
        } else if p.view_line + direction >= lines.len() - 1 {
            lines.len() - 1
        } else {
            p.view_line + direction
        },
        ({
            let r = spec_move_vertical(lines, p, preferred_col, direction);
            let l = r.view_line as int;
            &&& lines.len() == 0 ==> r.source_byte is None
            &&& lines.len() > 0 && r.column < lines[l].char_mappings@.len()
                ==> r.source_byte == lines[l].char_mappings@[r.column as int]
            &&& lines.len() > 0 && r.column == lines[l].char_mappings@.len() ==> r.source_byte == lines[l].end_byte
            &&& lines.len() > 0 && r.column > lines[l].char_mappings@.len() ==> r.source_byte is None
        }),
{
}

/// A horizontal move stays on the cursor's view line (the last line when the
/// cursor is below the layout) and moves the column by `direction`, not below
/// 0 and not past the line's last character; line start is column 0 and line
/// end the line's last character, on that same line.
pub proof fn law_horizontal_moves_stay_on_line(lines: Seq<ViewLine>, p: ViewPosition, direction: int)
    requires
        lines.len() <= usize::MAX,
        forall|l: int| 0 <= l < lines.len() ==> (#[trigger] lines[l]).char_mappings@.len() <= usize::MAX,
    ensures
        ({
            let l: int = if lines.len() == 0 { 0 } else if p.view_line >= lines.len() - 1 { lines.len() - 1 } else { p.view_line as int };
            let n: int = if lines.len() == 0 { 0 } else { lines[l].char_mappings@.len() as int };
            let last_col: int = if n == 0 { 0 } else { n - 1 };
            &&& spec_move_horizontal(lines, p, direction).view_line as int == l
            &&& spec_move_horizontal(lines, p, direction).column as int == if p.column + direction <= 0 {
                0
            } else if p.column + direction >= last_col {
                last_col
            } else {
                p.column + direction
            }
            &&& spec_move_line_start(lines, p).view_line as int == l
            &&& spec_move_line_start(lines, p).column == 0
            &&& spec_move_line_end(lines, p).view_line as int == l
            &&& spec_move_line_end(lines, p).column as int == last_col
        }),
{
}

/// Scroll the viewport by view lines.
pub fn scroll_view(layout: &Layout, viewport: &mut Viewport, line_offset: isize)
    requires
        old(viewport).top_view_line <= isize::MAX,
        isize::MIN <= old(viewport).top_view_line + line_offset <= isize::MAX,
    ensures
        *final(viewport) == (Viewport {
            top_view_line: scrolled_top(old(viewport).top_view_line as int, line_offset as int,
                layout.lines@.len() as int, old(viewport).height as int) as usize,
            anchor_byte: anchor_for_line(layout.lines@, scrolled_top(old(viewport).top_view_line as int,
                line_offset as int, layout.lines@.len() as int, old(viewport).height as int), old(viewport).anchor_byte),
            ..*old(viewport)
        }),
{
    let limit = layout.max_top_line(viewport.visible_line_count());
    let t = viewport.top_view_line as isize + line_offset;
    let target: usize = if t >= 0 { t as usize } else { 0 };
    viewport.top_view_line = if target <= limit { target } else { limit };
    if let Some(byte) = layout.get_source_byte_for_line(viewport.top_view_line) {
        viewport.anchor_byte = byte;
    }
}

/// Move to the start of the previous word in view coordinates.
pub fn move_word_left(layout: &Layout, cursor: &ViewPosition, buffer: &Buffer) -> (r: ViewPosition)
    ensures
        r == spec_word_move(layout.lines@, *cursor, buffer@, true),
{
    find_word_start_left_view(layout, cursor, buffer)
}

/// Move to the start of the next word in view coordinates.
pub fn move_word_right(layout: &Layout, cursor: &ViewPosition, buffer: &Buffer) -> (r: ViewPosition)
    ensures
        r == spec_word_move(layout.lines@, *cursor, buffer@, false),
{
    find_word_start_right_view(layout, cursor, buffer)
}

} // verus!
