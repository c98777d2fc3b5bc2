//! Editor events produced from actions, in view and source coordinates.

use vstd::prelude::*;
use crate::cursor::{ViewPosition, view_before};

verus! {

/// Identifier of a cursor within a cursor collection.
#[derive(Debug, Clone, Copy, PartialEq, Eq, Hash, Structural)]
pub struct CursorId(pub usize);

/// A position carried by an event: view coordinates and, when known, the source byte.
#[derive(Debug, Clone, Copy, PartialEq, Eq, Structural)]
pub struct ViewEventPosition {
    pub view_line: usize,
    pub column: usize,
    pub source_byte: Option<usize>,
}

/// A range of view positions carried by an event (`start` is not after `end`
/// when built by `normalized`).
#[derive(Debug, Clone, Copy, PartialEq, Eq, Structural)]
pub struct ViewEventRange {
    pub start: ViewEventPosition,
    pub end: ViewEventPosition,
}

/// The event form of a view position.
pub open spec fn spec_view_pos_to_event(p: ViewPosition) -> ViewEventPosition {
    ViewEventPosition { view_line: p.view_line, column: p.column, source_byte: p.source_byte }
}

/// The event range spanning `a` and `b`, in view order.
pub open spec fn spec_normalized(a: ViewPosition, b: ViewPosition) -> ViewEventRange {
    if view_before(b, a) {
        ViewEventRange { start: spec_view_pos_to_event(b), end: spec_view_pos_to_event(a) }
    } else {
        ViewEventRange { start: spec_view_pos_to_event(a), end: spec_view_pos_to_event(b) }
    }
}

impl ViewEventPosition {
    /// The event form of a view position.
    pub fn from_view(p: &ViewPosition) -> (r: Self)
        ensures
            r == spec_view_pos_to_event(*p),
    {
        ViewEventPosition { view_line: p.view_line, column: p.column, source_byte: p.source_byte }
    }
}

impl ViewEventRange {
    /// A range with the given ends, as given.
    pub fn new(start: ViewEventPosition, end: ViewEventPosition) -> (r: Self)
        ensures
            r == (ViewEventRange { start, end }),
    {
        ViewEventRange { start, end }
    }

    /// The range between two view positions, the earlier one (in view order) first.
    pub fn normalized(a: ViewPosition, b: ViewPosition) -> (r: Self)
        ensures
            r == spec_normalized(a, b),
            !view_before(ViewPosition { view_line: r.end.view_line, column: r.end.column, source_byte: r.end.source_byte },
                ViewPosition { view_line: r.start.view_line, column: r.start.column, source_byte: r.start.source_byte }),
    {
        if b.view_line < a.view_line || (b.view_line == a.view_line && b.column < a.column) {
            ViewEventRange { start: ViewEventPosition::from_view(&b), end: ViewEventPosition::from_view(&a) }
        } else {
            ViewEventRange { start: ViewEventPosition::from_view(&a), end: ViewEventPosition::from_view(&b) }
        }
    }

    /// The range of source bytes `range`, placed on view line 0 with the byte as column.
    pub fn from_source_range(range: std::ops::Range<usize>) -> (r: Self)
        ensures
            r.start == (ViewEventPosition { view_line: 0, column: range.start, source_byte: Some(range.start) }),
            r.end == (ViewEventPosition { view_line: 0, column: range.end, source_byte: Some(range.end) }),
    {
        ViewEventRange {
            start: ViewEventPosition { view_line: 0, column: range.start, source_byte: Some(range.start) },
            end: ViewEventPosition { view_line: 0, column: range.end, source_byte: Some(range.end) },
        }
    }
}

/// An edit or cursor movement, as produced from an action.
#[derive(Debug, Clone, PartialEq, Eq)]
pub enum Event {
    /// Move a cursor, changing its anchor and sticky column.
    MoveCursor {
        cursor_id: CursorId,
        old_position: ViewEventPosition,
        new_position: ViewEventPosition,
        old_anchor: Option<ViewEventPosition>,
        new_anchor: Option<ViewEventPosition>,
        old_sticky_column: Option<usize>,
        new_sticky_column: Option<usize>,
    },
    /// Insert `text` at `position`.
    Insert { position: ViewEventPosition, text: String, cursor_id: CursorId },
    /// Delete the view range `range`, whose source bytes are `source_range` when known.
    Delete {
        range: ViewEventRange,
        source_range: Option<std::ops::Range<usize>>,
        deleted_text: String,
        cursor_id: CursorId,
    },
}

/// Abstract form of an event: texts as character sequences and source ranges as
/// byte pairs.
pub enum EventView {
    MoveCursor {
        cursor_id: CursorId,
        old_position: ViewEventPosition,
        new_position: ViewEventPosition,
        old_anchor: Option<ViewEventPosition>,
        new_anchor: Option<ViewEventPosition>,
        old_sticky_column: Option<usize>,
        new_sticky_column: Option<usize>,
    },
    Insert { position: ViewEventPosition, text: Seq<char>, cursor_id: CursorId },
    Delete {
        range: ViewEventRange,
        source_range: Option<(usize, usize)>,
        deleted_text: Seq<char>,
        cursor_id: CursorId,
    },
}

impl View for Event {
    type V = EventView;

    open spec fn view(&self) -> EventView {
        match self {
            Event::MoveCursor {
                cursor_id,
                old_position,
                new_position,
                old_anchor,
                new_anchor,
                old_sticky_column,
                new_sticky_column,
            } => EventView::MoveCursor {
                cursor_id: *cursor_id,
                old_position: *old_position,
                new_position: *new_position,
                old_anchor: *old_anchor,
                new_anchor: *new_anchor,
                old_sticky_column: *old_sticky_column,
                new_sticky_column: *new_sticky_column,
            },
            Event::Insert { position, text, cursor_id } => EventView::Insert {
                position: *position,
                text: text@,
                cursor_id: *cursor_id,
            },
            Event::Delete { range, source_range, deleted_text, cursor_id } => EventView::Delete {
                range: *range,
                source_range: match source_range {
                    Some(r) => Some((r.start, r.end)),
                    None => None,
                },
                deleted_text: deleted_text@,
                cursor_id: *cursor_id,
            },
        }
    }
}

} // verus!
