//! The viewport: which view lines and columns of a layout are on screen.

use vstd::prelude::*;
use crate::cursor::Cursor;
use crate::text_buffer::Buffer;
use crate::view_pipeline::{Layout, ViewLine, first_mapped, line_has_byte, starts_at_or_before, max_top};
use crate::text_util::{sat_sub, sat_add, min_int, max_int};

verus! {

/// The scroll margin in effect: the requested margin, but never as many lines
/// as the screen shows, so that the cursor stays on screen.
pub open spec fn effective_offset(offset: int, visible: int) -> int {
    min_int(offset, sat_sub(visible, 1))
}

/// The last view line on screen for a given top line.
pub open spec fn bottom_line(top: int, visible: int) -> int {
    sat_add(top, sat_sub(visible, 1))
}

/// The top line after scrolling just enough to show `line` with margin `eff`.
pub open spec fn vertical_top(top: int, visible: int, eff: int, line: int) -> int {
    if line < top + eff {
        sat_sub(line, eff)
    } else if line > sat_sub(bottom_line(top, visible), eff) {
        sat_sub(sat_add(line, eff), sat_sub(visible, 1))
    } else {
        top
    }
}

/// The left column after scrolling horizontally towards column `col` with margin
/// `hso` in a content area `width` columns wide.
pub open spec fn horizontal_left(left: int, hso: int, width: int, col: int, over: int) -> int {
    if col < left + hso {
        sat_sub(col, hso)
    } else if col > sat_sub(sat_add(left, width), hso + 1) {
        sat_add(over, hso)
    } else {
        left
    }
}

/// View-centric viewport (top_view_line is authoritative).
#[derive(Debug, Clone)]
pub struct Viewport {
    /// View line at the top of the viewport.
    pub top_view_line: usize,
    /// Optional anchor source byte (hint for layout stabilization).
    pub anchor_byte: usize,
    /// Left column offset (horizontal scroll position).
    pub left_column: usize,
    /// Terminal dimensions.
    pub width: u16,
    pub height: u16,
    /// Scroll offset (lines to keep visible above/below cursor).
    pub scroll_offset: usize,
    /// Horizontal scroll offset (columns to keep visible left/right of cursor).
    pub horizontal_scroll_offset: usize,
    /// Whether line wrapping is enabled. When true, horizontal scrolling is disabled.
    pub line_wrap_enabled: bool,
    /// Whether viewport needs synchronization with cursor positions.
    pub needs_sync: bool,
}

/// Number of decimal digits of `n`.
pub open spec fn decimal_digits(n: nat) -> nat
    decreases n,
{
    if n < 10 { 1 } else { 1 + decimal_digits(n / 10) }
}

impl Viewport {
    /// Scroll position and margins are small enough that the scroll arithmetic
    /// fits in `usize`.
    pub open spec fn bounded(&self) -> bool {
        &&& self.top_view_line + self.scroll_offset <= usize::MAX
        &&& self.left_column + self.horizontal_scroll_offset < usize::MAX
    }

    /// The top line and anchor after making `cursor` visible in a layout.
    pub open spec fn spec_ensured_in_layout(self, cursor: Cursor, lines: Seq<ViewLine>, gutter_width: int) -> Viewport {
        Viewport {
            top_view_line: min_int(
                vertical_top(
                    self.top_view_line as int,
                    self.height as int,
                    effective_offset(self.scroll_offset as int, self.height as int),
                    cursor.position.view_line as int,
                ),
                max_top(lines.len() as int, self.height as int),
            ) as usize,
            anchor_byte: anchor_for_line(lines, min_int(
                vertical_top(
                    self.top_view_line as int,
                    self.height as int,
                    effective_offset(self.scroll_offset as int, self.height as int),
                    cursor.position.view_line as int,
                ),
                max_top(lines.len() as int, self.height as int),
            ), self.anchor_byte),
            left_column: horizontal_left(
                self.left_column as int,
                self.horizontal_scroll_offset as int,
                self.width - gutter_width,
                cursor.position.column as int,
                sat_sub(cursor.position.column as int, sat_sub(self.width - gutter_width, 1)),
            ) as usize,
            ..self
        }
    }

    /// Create a new viewport.
    pub fn new(width: u16, height: u16) -> (r: Self)
        ensures
            r == (Viewport {
                top_view_line: 0,
                anchor_byte: 0,
                left_column: 0,
                width,
                height,
                scroll_offset: 3,
                horizontal_scroll_offset: 5,
                line_wrap_enabled: false,
                needs_sync: false,
            }),
    {
        Self {
            top_view_line: 0,
            anchor_byte: 0,
            left_column: 0,
            width,
            height,
            scroll_offset: 3,
            horizontal_scroll_offset: 5,
            line_wrap_enabled: false,
            needs_sync: false,
        }
    }

    /// Set the scroll offset.
    pub fn set_scroll_offset(&mut self, offset: usize)
        ensures
            *final(self) == (Viewport { scroll_offset: offset, ..*old(self) }),
    {
        self.scroll_offset = offset;
    }

    /// Update terminal dimensions.
    pub fn resize(&mut self, width: u16, height: u16)
        ensures
            *final(self) == (Viewport { width, height, ..*old(self) }),
    {
        self.width = width;
        self.height = height;
    }

    /// Get the number of visible lines.
    pub fn visible_line_count(&self) -> (r: usize)
        ensures
            r == self.height,
    {
        self.height as usize
    }

    /// Calculate gutter width based on buffer length (fallback heuristic): one
    /// column of margin, the digits of the estimated line count (at least 4),
    /// and three columns of separator.
    pub fn gutter_width(&self, buffer: &Buffer) -> (r: usize)
        ensures
            r == 1 + max_int(decimal_digits(max_int(buffer@.len() as int / 80, 1) as nat) as int, 4) + 3,
    {
        let buffer_len = buffer.len();
        let estimated_lines = if buffer_len / 80 >= 1 { buffer_len / 80 } else { 1 };
        let digits = count_decimal_digits(estimated_lines);
        let d = if digits >= 4 { digits } else { 4 };
        1 + d + 3
    }

    /// Stabilize scroll position after a layout rebuild using anchor_byte if possible.
    pub fn stabilize_after_layout_change(&mut self, layout: &Layout)
        ensures
            layout.lines@.len() == 0 ==> *final(self) == (Viewport { top_view_line: 0, anchor_byte: 0, ..*old(self) }),
            layout.lines@.len() > 0 ==> {
                &&& *final(self) == (Viewport { top_view_line: final(self).top_view_line, ..*old(self) })
                &&& if exists|k: int| 0 <= k < layout.lines@.len() && line_has_byte(layout.lines@, k, old(self).anchor_byte) {
                    &&& line_has_byte(layout.lines@, final(self).top_view_line as int, old(self).anchor_byte)
                    &&& final(self).top_view_line < layout.lines@.len()
                    &&& forall|k: int| 0 <= k < final(self).top_view_line ==> !line_has_byte(layout.lines@, k, old(self).anchor_byte)
                } else {
                    &&& (final(self).top_view_line == 0 || (final(self).top_view_line < layout.lines@.len()
                        && starts_at_or_before(layout.lines@, final(self).top_view_line as int, old(self).anchor_byte)))
                    &&& forall|k: int| final(self).top_view_line < k < layout.lines@.len()
                        ==> !starts_at_or_before(layout.lines@, k, old(self).anchor_byte)
                }
            },
    {
        if layout.lines.len() == 0 {
            self.top_view_line = 0;
            self.anchor_byte = 0;
            return;
        }
        match layout.view_line_for_byte(self.anchor_byte) {
            Some(line) => {
                self.top_view_line = line;
            },
            None => {
                self.top_view_line = layout.find_nearest_view_line(self.anchor_byte);
            },
        }
    }

    /// Scroll by a relative line offset (view lines), staying within the layout.
    pub fn scroll_layout(&mut self, offset: isize, layout: &Layout)
        requires
            old(self).top_view_line <= isize::MAX,
            isize::MIN <= old(self).top_view_line + offset <= isize::MAX,
        ensures
            *final(self) == (Viewport {
                top_view_line: scrolled_top(old(self).top_view_line as int, offset as int,
                    layout.lines@.len() as int, old(self).height as int) as usize,
                anchor_byte: anchor_for_line(layout.lines@, scrolled_top(old(self).top_view_line as int,
                    offset as int, layout.lines@.len() as int, old(self).height as int), old(self).anchor_byte),
                ..*old(self)
            }),
    {
        let limit = layout.max_top_line(self.visible_line_count());
        let t = self.top_view_line as isize + offset;
        let target: usize = if t >= 0 { t as usize } else { 0 };
        self.top_view_line = if target <= limit { target } else { limit };
        if let Some(byte) = layout.get_source_byte_for_line(self.top_view_line) {
            self.anchor_byte = byte;
        }
    }

    /// Ensure a cursor is visible within the layout (view-based).
    ///
    /// The vertical margin kept around the cursor is the scroll offset, but
    /// fewer lines than the screen shows, so the cursor always ends up on screen.
    pub fn ensure_visible_in_layout(&mut self, cursor: &Cursor, layout: &Layout, gutter_width: usize)
        requires
            old(self).bounded(),
            gutter_width <= old(self).width,
        ensures
            *final(self) == old(self).spec_ensured_in_layout(*cursor, layout.lines@, gutter_width as int),
    {
        let visible = self.visible_line_count();
        let top = self.top_view_line;
        let cap = visible.saturating_sub(1);
        let eff = if self.scroll_offset <= cap { self.scroll_offset } else { cap };
        let bottom = top.saturating_add(visible.saturating_sub(1));
        let cursor_line = cursor.position.view_line;
        if cursor_line < top + eff {
            self.top_view_line = cursor_line.saturating_sub(eff);
        } else if cursor_line > bottom.saturating_sub(eff) {
            self.top_view_line = (cursor_line.saturating_add(eff)).saturating_sub(visible.saturating_sub(1));
        }
        let limit = layout.max_top_line(visible);
        if self.top_view_line > limit {
            self.top_view_line = limit;
        }
        if let Some(byte) = layout.get_source_byte_for_line(self.top_view_line) {
            self.anchor_byte = byte;
        }
        let cursor_col = cursor.position.column;
        let content_width = self.width as usize - gutter_width;
        if cursor_col < self.left_column + self.horizontal_scroll_offset {
            self.left_column = cursor_col.saturating_sub(self.horizontal_scroll_offset);
        } else if cursor_col > self.left_column.saturating_add(content_width).saturating_sub(
            self.horizontal_scroll_offset + 1,
        ) {
            let over = cursor_col.saturating_sub(content_width.saturating_sub(1));
            self.left_column = over.saturating_add(self.horizontal_scroll_offset);
        }
    }

    /// Mark the viewport as needing sync with cursor.
    pub fn mark_needs_sync(&mut self)
        ensures
            *final(self) == (Viewport { needs_sync: true, ..*old(self) }),
    {
        self.needs_sync = true;
    }

    /// Check if sync is needed.
    pub fn needs_sync(&self) -> (r: bool)
        ensures
            r == self.needs_sync,
    {
        self.needs_sync
    }

    /// Sync viewport with cursor using layout (clears the needs_sync flag).
    pub fn sync_with_cursor(&mut self, layout: &Layout, cursor: &Cursor, gutter_width: usize)
        requires
            old(self).bounded(),
            gutter_width <= old(self).width,
        ensures
            old(self).needs_sync ==> *final(self) == (Viewport {
                needs_sync: false,
                ..old(self).spec_ensured_in_layout(*cursor, layout.lines@, gutter_width as int)
            }),
            !old(self).needs_sync ==> *final(self) == *old(self),
    {
        if self.needs_sync {
            self.ensure_visible_in_layout(cursor, layout, gutter_width);
            self.needs_sync = false;
        }
    }

    /// Compute cursor screen position (column, row) from layout/view: the
    /// cursor's offset from the top line and left column, after the gutter.
    pub fn cursor_screen_position_layout(&self, layout: &Layout, cursor: &Cursor, gutter_width: usize) -> (r: (u16, u16))
        ensures
            r.0 == sat_add(sat_sub(cursor.position.column as int, self.left_column as int), gutter_width as int) as u16,
            r.1 == sat_sub(cursor.position.view_line as int, self.top_view_line as int) as u16,
    {
        let row = cursor.position.view_line.saturating_sub(self.top_view_line);
        let col = cursor.position.column.saturating_sub(self.left_column).saturating_add(gutter_width);
        (col as u16, row as u16)
    }

    /// Basic cursor screen position using viewport offsets (no layout/gutter).
    pub fn cursor_screen_position(&self, _buffer: &mut Buffer, cursor: &Cursor) -> (r: (u16, u16))
        ensures
            r.0 == sat_sub(cursor.position.column as int, self.left_column as int) as u16,
            r.1 == sat_sub(cursor.position.view_line as int, self.top_view_line as int) as u16,
    {
        let row = cursor.position.view_line.saturating_sub(self.top_view_line);
        let col = cursor.position.column.saturating_sub(self.left_column);
        (col as u16, row as u16)
    }

    /// Ensure a specific view line is visible: scroll up to it, or scroll down
    /// just far enough that it becomes the bottom line.
    pub fn ensure_line_visible(&mut self, layout: &Layout, view_line: usize)
        requires
            old(self).top_view_line <= isize::MAX,
            view_line <= isize::MAX,
        ensures
            view_line < old(self).top_view_line ==> *final(self) == (Viewport {
                top_view_line: min_int(view_line as int, max_top(layout.lines@.len() as int, old(self).height as int)) as usize,
                anchor_byte: anchor_for_line(layout.lines@,
                    min_int(view_line as int, max_top(layout.lines@.len() as int, old(self).height as int)),
                    old(self).anchor_byte),
                ..*old(self)
            }),
            view_line > bottom_line(old(self).top_view_line as int, old(self).height as int) ==> *final(self) == (Viewport {
                top_view_line: min_int(
                    old(self).top_view_line + view_line - bottom_line(old(self).top_view_line as int, old(self).height as int),
                    max_top(layout.lines@.len() as int, old(self).height as int),
                ) as usize,
                anchor_byte: anchor_for_line(layout.lines@, min_int(
                    old(self).top_view_line + view_line - bottom_line(old(self).top_view_line as int, old(self).height as int),
                    max_top(layout.lines@.len() as int, old(self).height as int),
                ), old(self).anchor_byte),
                ..*old(self)
            }),
            old(self).top_view_line <= view_line <= bottom_line(old(self).top_view_line as int, old(self).height as int)
                ==> *final(self) == (Viewport {
                top_view_line: min_int(old(self).top_view_line as int, max_top(layout.lines@.len() as int, old(self).height as int)) as usize,
                anchor_byte: anchor_for_line(layout.lines@,
                    min_int(old(self).top_view_line as int, max_top(layout.lines@.len() as int, old(self).height as int)),
                    old(self).anchor_byte),
                ..*old(self)
            }),
    {
        if view_line < self.top_view_line {
            self.top_view_line = view_line;
        } else {
            let bottom = self.top_view_line.saturating_add(self.visible_line_count().saturating_sub(1));
            if view_line > bottom {
                let delta = view_line - bottom;
                self.scroll_layout(delta as isize, layout);
                return;
            }
        }
        let limit = layout.max_top_line(self.visible_line_count());
        if self.top_view_line > limit {
            self.top_view_line = limit;
        }
        if let Some(byte) = layout.get_source_byte_for_line(self.top_view_line) {
            self.anchor_byte = byte;
        }
    }

    /// Compatibility: ensure visibility using view coords only (no layout).
    pub fn ensure_visible(&mut self, _buffer: &mut Buffer, cursor: &Cursor)
        requires
            old(self).bounded(),
        ensures
            *final(self) == (Viewport {
                top_view_line: vertical_top(
                    old(self).top_view_line as int,
                    old(self).height as int,
                    effective_offset(old(self).scroll_offset as int, old(self).height as int),
                    cursor.position.view_line as int,
                ) as usize,
                anchor_byte: match cursor.position.source_byte {
                    Some(b) => b,
                    None => old(self).anchor_byte,
                },
                left_column: horizontal_left(
                    old(self).left_column as int,
                    old(self).horizontal_scroll_offset as int,
                    old(self).width as int,
                    cursor.position.column as int,
                    sat_add(sat_sub(cursor.position.column as int, old(self).width as int), 1),
                ) as usize,
                ..*old(self)
            }),
    {
        let visible = self.visible_line_count();
        let top = self.top_view_line;
        let cap = visible.saturating_sub(1);
        let eff = if self.scroll_offset <= cap { self.scroll_offset } else { cap };
        let bottom = top.saturating_add(visible.saturating_sub(1));
        let cursor_line = cursor.position.view_line;
        if cursor_line < top + eff {
            self.top_view_line = cursor_line.saturating_sub(eff);
        } else if cursor_line > bottom.saturating_sub(eff) {
            self.top_view_line = (cursor_line.saturating_add(eff)).saturating_sub(visible.saturating_sub(1));
        }
        if let Some(src) = cursor.position.source_byte {
            self.anchor_byte = src;
        }
        let cursor_col = cursor.position.column;
        if cursor_col < self.left_column + self.horizontal_scroll_offset {
            self.left_column = cursor_col.saturating_sub(self.horizontal_scroll_offset);
        } else if cursor_col > self.left_column.saturating_add(self.width as usize).saturating_sub(
            self.horizontal_scroll_offset + 1,
        ) {
            let over = cursor_col.saturating_sub(self.width as usize).saturating_add(1);
            self.left_column = over.saturating_add(self.horizontal_scroll_offset);
        }
    }

    /// Ensure a column is visible horizontally.
    pub fn ensure_column_visible(&mut self, column: usize, content_width: usize)
        ensures
            *final(self) == (Viewport {
                left_column: if column < old(self).left_column {
                    column
                } else if column >= sat_add(old(self).left_column as int, content_width as int) {
                    sat_sub(column as int, sat_sub(content_width as int, 1)) as usize
                } else {
                    old(self).left_column
                },
                ..*old(self)
            }),
    {
        if column < self.left_column {
            self.left_column = column;
        } else if column >= self.left_column.saturating_add(content_width) {
            self.left_column = column.saturating_sub(content_width.saturating_sub(1));
        }
    }

    /// The viewport after making each cursor of `cs` visible in turn.
    pub open spec fn spec_ensured_all(self, cs: Seq<Cursor>, lines: Seq<ViewLine>, gutter_width: int) -> Viewport
        decreases cs.len(),
    {
        if cs.len() == 0 {
            self
        } else {
            self.spec_ensured_all(cs.drop_last(), lines, gutter_width).spec_ensured_in_layout(cs.last(), lines, gutter_width)
        }
    }

    /// Ensure all cursors are visible (each in turn; the last one wins where
    /// they conflict).
    pub fn ensure_cursors_visible(&mut self, layout: &Layout, cursors: &Vec<Cursor>, gutter_width: usize)
        requires
            forall|i: int| 0 <= i <= cursors@.len() ==> (#[trigger] old(self).spec_ensured_all(
                cursors@.take(i), layout.lines@, gutter_width as int)).bounded(),
            gutter_width <= old(self).width,
        ensures
            *final(self) == old(self).spec_ensured_all(cursors@, layout.lines@, gutter_width as int),
    {
        let n = cursors.len();
        let mut i: usize = 0;
        proof {
            assert(cursors@.take(0) =~= Seq::<Cursor>::empty());
        }
        while i < n
            invariant
                n == cursors@.len(),
                i <= n,
                gutter_width <= old(self).width,
                self.width == old(self).width,
                *self == old(self).spec_ensured_all(cursors@.take(i as int), layout.lines@, gutter_width as int),
                forall|j: int| 0 <= j <= cursors@.len() ==> (#[trigger] old(self).spec_ensured_all(
                    cursors@.take(j), layout.lines@, gutter_width as int)).bounded(),
            decreases n - i,
        {
            proof {
                assert(cursors@.take(i + 1).drop_last() =~= cursors@.take(i as int));
                assert(old(self).spec_ensured_all(cursors@.take(i as int), layout.lines@, gutter_width as int).bounded());
            }
            self.ensure_visible_in_layout(&cursors[i], layout, gutter_width);
            i += 1;
        }
        proof {
            assert(cursors@.take(n as int) =~= cursors@);
        }
    }

    /// Scroll a prebuilt set of view lines (used in tests or simplified contexts).
    pub fn scroll_view_lines(&mut self, view_lines: &[ViewLine], line_offset: isize)
        requires
            old(self).top_view_line <= isize::MAX,
            isize::MIN <= old(self).top_view_line + line_offset <= isize::MAX,
        ensures
            *final(self) == (Viewport {
                top_view_line: min_int(
                    max_int(old(self).top_view_line + line_offset, 0),
                    sat_sub(min_int(sat_sub(view_lines@.len() as int, old(self).height as int), view_lines@.len() as int), 1),
                ) as usize,
                ..*old(self)
            }),
    {
        let len = view_lines.len();
        let limit = len.saturating_sub(self.visible_line_count());
        let limit = if limit <= len { limit } else { len };
        let limit = limit.saturating_sub(1);
        let t = self.top_view_line as isize + line_offset;
        let target: usize = if t >= 0 { t as usize } else { 0 };
        self.top_view_line = if target <= limit { target } else { limit };
    }

    /// Scroll to a specific view line in the layout, as far as the layout allows.
    pub fn scroll_to(&mut self, layout: &Layout, view_line: usize)
        ensures
            *final(self) == (Viewport {
                top_view_line: min_int(
                    min_int(view_line as int, sat_sub(layout.lines@.len() as int, 1)),
                    max_top(layout.lines@.len() as int, old(self).height as int),
                ) as usize,
                anchor_byte: anchor_for_line(layout.lines@,
                    min_int(view_line as int, sat_sub(layout.lines@.len() as int, 1)),
                    old(self).anchor_byte),
                ..*old(self)
            }),
    {
        let len = layout.lines.len();
        let max_line = len.saturating_sub(1);
        let target_line = if view_line <= max_line { view_line } else { max_line };
        let limit = len.saturating_sub(self.visible_line_count());
        self.top_view_line = if target_line <= limit { target_line } else { limit };
        if target_line < len {
            if let Some(byte) = crate::view_pipeline::first_mapped_exec(&layout.lines[target_line].char_mappings) {
                self.anchor_byte = byte;
            }
        }
    }
}

/// The top line after scrolling by `offset` lines from `top` in a layout of
/// `len` lines shown `visible` lines at a time.
pub open spec fn scrolled_top(top: int, offset: int, len: int, visible: int) -> int {
    min_int(max_int(top + offset, 0), max_top(len, visible))
}

/// After `ensure_visible_in_layout`, the cursor's view line is on screen,
/// whenever the viewport has at least one row and the cursor is on a line of the layout.
pub proof fn law_ensure_visible_in_layout_shows_cursor(vp: Viewport, cursor: Cursor, lines: Seq<ViewLine>, gutter_width: int)
    requires
        vp.height > 0,
        cursor.position.view_line < lines.len(),
    ensures
        vp.spec_ensured_in_layout(cursor, lines, gutter_width).top_view_line <= cursor.position.view_line,
        cursor.position.view_line < vp.spec_ensured_in_layout(cursor, lines, gutter_width).top_view_line + vp.height,
{
    let v = vp.height as int;
    let eff = effective_offset(vp.scroll_offset as int, v);
    assert(0 <= eff <= v - 1);
    let t = vertical_top(vp.top_view_line as int, v, eff, cursor.position.view_line as int);
    assert(t <= cursor.position.view_line);
    assert(cursor.position.view_line < t + v);
}

/// Scrolling down by `k` lines and back up by `k` lines returns to the same top
/// line, when neither scroll is stopped by the layout's bounds.
pub proof fn law_scroll_down_then_up(top: int, k: int, len: int, visible: int)
    requires
        k >= 0,
        top >= 0,
        top + k <= max_top(len, visible),
    ensures
        scrolled_top(scrolled_top(top, k, len, visible), -k, len, visible) == top,
{
}

/// Scrolling never moves the top line past the last full page of the layout.
pub proof fn law_scroll_stays_in_bounds(top: int, offset: int, len: int, visible: int)
    requires
        len >= 0,
    ensures
        0 <= scrolled_top(top, offset, len, visible) <= max_top(len, visible),
{
}

/// After `ensure_column_visible`, the column is within the visible columns,
/// for a positive content width.
pub proof fn law_ensure_column_visible_shows_column(vp: Viewport, column: usize, content_width: usize)
    requires
        content_width > 0,
        vp.left_column + content_width <= usize::MAX,
        column + content_width <= usize::MAX,
    ensures
        ({
            let left = if column < vp.left_column {
                column as int
            } else if column >= sat_add(vp.left_column as int, content_width as int) {
                sat_sub(column as int, sat_sub(content_width as int, 1))
            } else {
                vp.left_column as int
            };
            left <= column < left + content_width
        }),
{
}

/// The anchor byte after the top line becomes `line`: that line's first source
/// byte if it has one, else the old anchor.
pub open spec fn anchor_for_line(lines: Seq<ViewLine>, line: int, old_anchor: usize) -> usize {
    if 0 <= line < lines.len() {
        match first_mapped(lines[line].char_mappings@) {
            Some(b) => b,
            None => old_anchor,
        }
    } else {
        old_anchor
    }
}

/// Ten to the power `k`.
pub open spec fn pow10(k: nat) -> nat
    decreases k,
{
    if k == 0 { 1 } else { 10 * pow10((k - 1) as nat) }
}

/// A number below `10^k` has at most `k` decimal digits.
pub proof fn lemma_digits_bound(n: nat, k: nat)
    requires
        k >= 1,
        n < pow10(k),
    ensures
        decimal_digits(n) <= k,
    decreases n,
{
    if n >= 10 {
        assert(k >= 2) by {
            if k == 1 {
                assert(pow10(1) == 10 * pow10(0));
            }
        }
        assert(pow10(k) == 10 * pow10((k - 1) as nat));
        assert(n / 10 < pow10((k - 1) as nat));
        lemma_digits_bound(n / 10, (k - 1) as nat);
    }
}

/// Number of decimal digits of `n`.
pub fn count_decimal_digits(n: usize) -> (r: usize)
    ensures
        r == decimal_digits(n as nat),
        1 <= r <= 20,
{
    proof {
        reveal_with_fuel(pow10, 21);
        assert(pow10(20) == 100000000000000000000nat);
        lemma_digits_bound(n as nat, 20);
    }
    let mut m = n;
    let mut d: usize = 1;
    while m >= 10
        invariant
            d + decimal_digits(m as nat) == decimal_digits(n as nat) + 1,
            decimal_digits(n as nat) <= 20,
            1 <= d,
        decreases m,
    {
        m = m / 10;
        d = d + 1;
    }
    d
}

} // verus!
