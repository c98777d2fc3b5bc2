//! Turning actions into events over view-coordinate cursors and a layout.

use vstd::prelude::*;
use crate::text_util::char_to_string;
use crate::action::Action;
use crate::cursor::{Cursor, Cursors, ViewPosition};
use crate::edit_map::{spec_buffer_range, spec_position_byte, view_pos_to_buffer_byte, view_range_to_buffer_range};
use crate::event::{CursorId, Event, EventView, ViewEventPosition, ViewEventRange, spec_normalized, spec_view_pos_to_event};
use crate::layout_nav::{
    self, nav_line_len, spec_move_horizontal, spec_move_line_end, spec_move_line_start, spec_move_page,
    spec_move_vertical,
};
use crate::text_buffer::Buffer;
use crate::text_util::sat_sub;
use crate::view_pipeline::{Layout, ViewLine, first_mapped, spec_view_position_to_source_byte};
use crate::viewport::{Viewport, scrolled_top, anchor_for_line};
use crate::word_navigation::spec_word_move;

verus! {

/// The event form of an optional position.
pub open spec fn opt_event_pos(a: Option<ViewPosition>) -> Option<ViewEventPosition> {
    match a {
        Some(p) => Some(spec_view_pos_to_event(p)),
        None => None,
    }
}

/// The column a vertical move aims for: the preferred one, else the current one.
pub open spec fn spec_pref(c: Cursor) -> Option<usize> {
    match c.preferred_visual_column {
        Some(p) => Some(p),
        None => Some(c.position.column),
    }
}

/// Move a cursor to `np`, dropping its selection, with sticky column `pref`.
pub open spec fn spec_move_cursor_event(id: CursorId, c: Cursor, np: ViewPosition, pref: Option<usize>) -> EventView {
    EventView::MoveCursor {
        cursor_id: id,
        old_position: spec_view_pos_to_event(c.position),
        new_position: spec_view_pos_to_event(np),
        old_anchor: opt_event_pos(c.anchor),
        new_anchor: None,
        old_sticky_column: c.preferred_visual_column,
        new_sticky_column: pref,
    }
}

/// Move a cursor to `np`, keeping (or starting) its selection at the old anchor.
pub open spec fn spec_move_cursor_event_with_anchor(id: CursorId, c: Cursor, np: ViewPosition) -> EventView {
    EventView::MoveCursor {
        cursor_id: id,
        old_position: spec_view_pos_to_event(c.position),
        new_position: spec_view_pos_to_event(np),
        old_anchor: opt_event_pos(c.anchor),
        new_anchor: Some(spec_view_pos_to_event(match c.anchor { Some(a) => a, None => c.position })),
        old_sticky_column: c.preferred_visual_column,
        new_sticky_column: c.preferred_visual_column,
    }
}

/// Source byte of the first mapped character of line `l`, if the line exists.
pub open spec fn line_source_byte(lines: Seq<ViewLine>, l: int) -> Option<usize> {
    if 0 <= l < lines.len() { first_mapped(lines[l].char_mappings@) } else { None }
}

/// Index of the last view line (0 for an empty layout).
pub open spec fn last_line(lines: Seq<ViewLine>) -> int {
    sat_sub(lines.len() as int, 1)
}

/// The start of the document.
pub open spec fn document_start(lines: Seq<ViewLine>) -> ViewPosition {
    ViewPosition { view_line: 0, column: 0, source_byte: line_source_byte(lines, 0) }
}

/// The end of the document: past the last character of the last line.
pub open spec fn document_end(lines: Seq<ViewLine>) -> ViewPosition {
    ViewPosition {
        view_line: last_line(lines) as usize,
        column: nav_line_len(lines, last_line(lines)) as usize,
        source_byte: line_source_byte(lines, last_line(lines)),
    }
}

/// Column 0 of line `l`.
pub open spec fn line_begin(lines: Seq<ViewLine>, l: usize) -> ViewPosition {
    ViewPosition { view_line: l, column: 0, source_byte: spec_view_position_to_source_byte(lines, l as int, 0) }
}

/// Just past the last character of line `l`.
pub open spec fn line_finish(lines: Seq<ViewLine>, l: usize) -> ViewPosition {
    ViewPosition {
        view_line: l,
        column: nav_line_len(lines, l as int) as usize,
        source_byte: spec_view_position_to_source_byte(lines, l as int, nav_line_len(lines, l as int)),
    }
}

/// A deletion of `range` (source bytes `src`) with no recorded text.
pub open spec fn delete_event(range: ViewEventRange, src: Option<(usize, usize)>, id: CursorId) -> EventView {
    EventView::Delete { range, source_range: src, deleted_text: Seq::empty(), cursor_id: id }
}

/// The deletion of the text between `a` and `b`, when both map to source bytes.
pub open spec fn delete_between(lines: Seq<ViewLine>, a: ViewPosition, b: ViewPosition, id: CursorId) -> Option<EventView> {
    if spec_buffer_range(lines, a, b) is Some {
        Some(delete_event(spec_normalized(a, b), spec_buffer_range(lines, a, b), id))
    } else {
        None
    }
}

/// Where the line deletion of a cursor on line `l` ends: the next line's start,
/// or the end of the last line.
pub open spec fn delete_line_end(lines: Seq<ViewLine>, l: usize) -> ViewPosition {
    if l + 1 < lines.len() { line_begin(lines, (l + 1) as usize) } else { line_finish(lines, l) }
}

/// The event a cursor movement action gives for one cursor.
pub open spec fn spec_movement_event(action: Action, lines: Seq<ViewLine>, height: int, s: Seq<u8>, id: CursorId, c: Cursor) -> EventView {
    let p = c.position;
    match action {
        Action::MoveLeft => spec_move_cursor_event(id, c, spec_move_horizontal(lines, p, -1), None),
        Action::MoveRight => spec_move_cursor_event(id, c, spec_move_horizontal(lines, p, 1), None),
        Action::MoveUp => spec_move_cursor_event(id, c, spec_move_vertical(lines, p, spec_pref(c), -1), spec_pref(c)),
        Action::MoveDown => spec_move_cursor_event(id, c, spec_move_vertical(lines, p, spec_pref(c), 1), spec_pref(c)),
        Action::MoveLineStart => spec_move_cursor_event(id, c, spec_move_line_start(lines, p), Some(0)),
        Action::MoveLineEnd => spec_move_cursor_event(id, c, spec_move_line_end(lines, p),
            Some(spec_move_line_end(lines, p).column)),
        Action::MovePageUp => spec_move_cursor_event(id, c, spec_move_page(lines, p, height, -1), spec_pref(c)),
        Action::MovePageDown => spec_move_cursor_event(id, c, spec_move_page(lines, p, height, 1), spec_pref(c)),
        Action::MoveDocumentStart => spec_move_cursor_event(id, c, document_start(lines), Some(0)),
        Action::MoveDocumentEnd => spec_move_cursor_event(id, c, document_end(lines),
            Some(document_end(lines).column)),
        Action::MoveWordLeft => spec_move_cursor_event(id, c, spec_word_move(lines, p, s, true),
            Some(spec_word_move(lines, p, s, true).column)),
        _ => spec_move_cursor_event(id, c, spec_word_move(lines, p, s, false),
            Some(spec_word_move(lines, p, s, false).column)),
    }
}

/// The event a selection action gives for one cursor.
pub open spec fn spec_selection_event(action: Action, lines: Seq<ViewLine>, height: int, s: Seq<u8>, id: CursorId, c: Cursor) -> EventView {
    let p = c.position;
    match action {
        Action::SelectLeft => spec_move_cursor_event_with_anchor(id, c, spec_move_horizontal(lines, p, -1)),
        Action::SelectRight => spec_move_cursor_event_with_anchor(id, c, spec_move_horizontal(lines, p, 1)),
        Action::SelectUp => spec_move_cursor_event_with_anchor(id, c, spec_move_vertical(lines, p, spec_pref(c), -1)),
        Action::SelectDown => spec_move_cursor_event_with_anchor(id, c, spec_move_vertical(lines, p, spec_pref(c), 1)),
        Action::SelectLineStart => spec_move_cursor_event_with_anchor(id, c, spec_move_line_start(lines, p)),
        Action::SelectLineEnd => spec_move_cursor_event_with_anchor(id, c, spec_move_line_end(lines, p)),
        Action::SelectDocumentStart => spec_move_cursor_event_with_anchor(id, c, document_start(lines)),
        Action::SelectDocumentEnd => spec_move_cursor_event_with_anchor(id, c, document_end(lines)),
        Action::SelectPageUp => spec_move_cursor_event_with_anchor(id, c, spec_move_page(lines, p, height, -1)),
        Action::SelectPageDown => spec_move_cursor_event_with_anchor(id, c, spec_move_page(lines, p, height, 1)),
        Action::SelectWordLeft => spec_move_cursor_event_with_anchor(id, c, spec_word_move(lines, p, s, true)),
        Action::SelectWordRight => spec_move_cursor_event_with_anchor(id, c, spec_word_move(lines, p, s, false)),
        Action::SelectAll => EventView::MoveCursor {
            cursor_id: id,
            old_position: spec_view_pos_to_event(document_start(lines)),
            new_position: spec_view_pos_to_event(document_start(lines)),
            old_anchor: None,
            new_anchor: Some(spec_view_pos_to_event(document_end(lines))),
            old_sticky_column: None,
            new_sticky_column: Some(0),
        },
        _ => EventView::MoveCursor {
            cursor_id: id,
            old_position: spec_view_pos_to_event(p),
            new_position: spec_view_pos_to_event(line_begin(lines, p.view_line)),
            old_anchor: opt_event_pos(c.anchor),
            new_anchor: Some(spec_view_pos_to_event(line_finish(lines, p.view_line))),
            old_sticky_column: c.preferred_visual_column,
            new_sticky_column: Some(0),
        },
    }
}

/// The insertion of `text` at a cursor, when its position maps to a source byte.
pub open spec fn insert_at(lines: Seq<ViewLine>, c: Cursor, id: CursorId, text: Seq<char>) -> Option<EventView> {
    match spec_position_byte(lines, c.position) {
        Some(b) => Some(EventView::Insert {
            position: ViewEventPosition { source_byte: Some(b), ..spec_view_pos_to_event(c.position) },
            text,
            cursor_id: id,
        }),
        None => None,
    }
}

/// The event an editing action gives for one cursor, if any.
pub open spec fn spec_edit_event(action: Action, lines: Seq<ViewLine>, s: Seq<u8>, id: CursorId, c: Cursor) -> Option<EventView> {
    let p = c.position;
    match action {
        Action::InsertChar(ch) => insert_at(lines, c, id, seq![ch]),
        Action::InsertNewline => insert_at(lines, c, id, seq!['\n']),
        Action::DeleteBackward => match c.anchor {
            Some(a) => delete_between(lines, a, p, id),
            None => match p.source_byte {
                Some(b) => if b >= 1 {
                    Some(delete_event(spec_normalized(spec_move_horizontal(lines, p, -1), p), Some(((b - 1) as usize, b)), id))
                } else {
                    None
                },
                None => None,
            },
        },
        Action::DeleteForward => match c.anchor {
            Some(a) => delete_between(lines, a, p, id),
            None => match p.source_byte {
                Some(b) => Some(delete_event(
                    spec_normalized(p, spec_move_horizontal(lines, p, 1)),
                    Some((b, match spec_view_position_to_source_byte(lines,
                        spec_move_horizontal(lines, p, 1).view_line as int, spec_move_horizontal(lines, p, 1).column as int) {
                        Some(e) => e,
                        None => if b < usize::MAX { (b + 1) as usize } else { b },
                    })),
                    id,
                )),
                None => None,
            },
        },
        Action::DeleteWordBackward => delete_between(lines, spec_word_move(lines, p, s, true), p, id),
        Action::DeleteWordForward => delete_between(lines, p, spec_word_move(lines, p, s, false), id),
        Action::DeleteLine => match delete_between(lines, line_begin(lines, p.view_line),
            delete_line_end(lines, p.view_line), id) {
            Some(_) => Some(delete_event(
                ViewEventRange {
                    start: spec_view_pos_to_event(line_begin(lines, p.view_line)),
                    end: spec_view_pos_to_event(delete_line_end(lines, p.view_line)),
                },
                spec_buffer_range(lines, line_begin(lines, p.view_line), delete_line_end(lines, p.view_line)),
                id,
            )),
            None => None,
        },
        _ => delete_between(lines, p, line_finish(lines, p.view_line), id),
    }
}

/// Which group an action belongs to for per-cursor events.
pub open spec fn is_movement(a: Action) -> bool {
    a is MoveLeft || a is MoveRight || a is MoveUp || a is MoveDown || a is MoveLineStart || a is MoveLineEnd
        || a is MovePageUp || a is MovePageDown || a is MoveDocumentStart || a is MoveDocumentEnd
        || a is MoveWordLeft || a is MoveWordRight
}

pub open spec fn is_selection(a: Action) -> bool {
    a is SelectLeft || a is SelectRight || a is SelectUp || a is SelectDown || a is SelectLineStart
        || a is SelectLineEnd || a is SelectDocumentStart || a is SelectDocumentEnd || a is SelectPageUp
        || a is SelectPageDown || a is SelectWordLeft || a is SelectWordRight || a is SelectAll || a is SelectLine
}

pub open spec fn is_edit(a: Action) -> bool {
    a is InsertChar || a is InsertNewline || a is DeleteBackward || a is DeleteForward || a is DeleteWordBackward
        || a is DeleteWordForward || a is DeleteLine || a is DeleteToLineEnd
}

/// The event an action gives for one cursor, if any.
pub open spec fn spec_cursor_event(action: Action, lines: Seq<ViewLine>, height: int, s: Seq<u8>, id: CursorId, c: Cursor) -> Option<EventView> {
    if is_movement(action) {
        Some(spec_movement_event(action, lines, height, s, id, c))
    } else if is_selection(action) {
        Some(spec_selection_event(action, lines, height, s, id, c))
    } else if is_edit(action) {
        spec_edit_event(action, lines, s, id, c)
    } else {
        None
    }
}

/// The events an action gives for the cursors `cs`, in order.
pub open spec fn spec_action_events(action: Action, lines: Seq<ViewLine>, height: int, s: Seq<u8>, cs: Seq<(CursorId, Cursor)>) -> Seq<EventView>
    decreases cs.len(),
{
    if cs.len() == 0 {
        Seq::empty()
    } else {
        spec_action_events(action, lines, height, s, cs.drop_last()) + match spec_cursor_event(action, lines, height, s,
            cs.last().0, cs.last().1) {
            Some(e) => seq![e],
            None => Seq::empty(),
        }
    }
}

/// The viewport after an action: scrolled by one line for the scroll actions,
/// unchanged otherwise.
pub open spec fn spec_action_viewport(action: Action, lines: Seq<ViewLine>, vp: Viewport) -> Viewport {
    match action {
        Action::ScrollUp => Viewport {
            top_view_line: scrolled_top(vp.top_view_line as int, -1, lines.len() as int, vp.height as int) as usize,
            anchor_byte: anchor_for_line(lines, scrolled_top(vp.top_view_line as int, -1, lines.len() as int,
                vp.height as int), vp.anchor_byte),
            ..vp
        },
        Action::ScrollDown => Viewport {
            top_view_line: scrolled_top(vp.top_view_line as int, 1, lines.len() as int, vp.height as int) as usize,
            anchor_byte: anchor_for_line(lines, scrolled_top(vp.top_view_line as int, 1, lines.len() as int,
                vp.height as int), vp.anchor_byte),
            ..vp
        },
        _ => vp,
    }
}

/// A cursor position is far enough from the integer limits for line and page moves.
pub open spec fn nav_fits(p: ViewPosition) -> bool {
    p.view_line + 0x10000 <= isize::MAX && p.column < isize::MAX
}


/// The event form of a view position.
fn view_pos_to_event(pos: &ViewPosition) -> (r: ViewEventPosition)
    ensures
        r == spec_view_pos_to_event(*pos),
{
    ViewEventPosition { view_line: pos.view_line, column: pos.column, source_byte: pos.source_byte }
}

/// The event form of an optional position.
fn opt_view_pos_to_event(a: Option<ViewPosition>) -> (r: Option<ViewEventPosition>)
    ensures
        r == opt_event_pos(a),
{
    match a {
        Some(p) => Some(view_pos_to_event(&p)),
        None => None,
    }
}

fn move_cursor_event(cursor_id: CursorId, cursor: &Cursor, new_pos: ViewPosition, new_pref_col: Option<usize>) -> (r: Event)
    ensures
        r@ == spec_move_cursor_event(cursor_id, *cursor, new_pos, new_pref_col),
{
    Event::MoveCursor {
        cursor_id,
        old_position: view_pos_to_event(&cursor.position),
        new_position: view_pos_to_event(&new_pos),
        old_anchor: opt_view_pos_to_event(cursor.anchor),
        new_anchor: None,
        old_sticky_column: cursor.preferred_visual_column,
        new_sticky_column: new_pref_col,
    }
}

fn move_cursor_event_with_anchor(cursor_id: CursorId, cursor: &Cursor, new_pos: ViewPosition) -> (r: Event)
    ensures
        r@ == spec_move_cursor_event_with_anchor(cursor_id, *cursor, new_pos),
{
    let anchor = match cursor.anchor {
        Some(a) => a,
        None => cursor.position,
    };
    Event::MoveCursor {
        cursor_id,
        old_position: view_pos_to_event(&cursor.position),
        new_position: view_pos_to_event(&new_pos),
        old_anchor: opt_view_pos_to_event(cursor.anchor),
        new_anchor: Some(view_pos_to_event(&anchor)),
        old_sticky_column: cursor.preferred_visual_column,
        new_sticky_column: cursor.preferred_visual_column,
    }
}

/// The column a vertical move aims for.
fn pref_of(cursor: &Cursor) -> (r: Option<usize>)
    ensures
        r == spec_pref(*cursor),
{
    match cursor.preferred_visual_column {
        Some(p) => Some(p),
        None => Some(cursor.column()),
    }
}

/// Number of characters of line `l`, or 0 past the end of the layout.
fn line_length(layout: &Layout, l: usize) -> (r: usize)
    ensures
        r == nav_line_len(layout.lines@, l as int),
{
    if l < layout.lines.len() { layout.lines[l].char_mappings.len() } else { 0 }
}

fn document_start_pos(layout: &Layout) -> (r: ViewPosition)
    ensures
        r == document_start(layout.lines@),
{
    ViewPosition { view_line: 0, column: 0, source_byte: layout.get_source_byte_for_line(0) }
}

fn document_end_pos(layout: &Layout) -> (r: ViewPosition)
    ensures
        r == document_end(layout.lines@),
{
    let last = layout.lines.len().saturating_sub(1);
    ViewPosition { view_line: last, column: line_length(layout, last), source_byte: layout.get_source_byte_for_line(last) }
}

fn line_begin_pos(layout: &Layout, l: usize) -> (r: ViewPosition)
    ensures
        r == line_begin(layout.lines@, l),
{
    ViewPosition { view_line: l, column: 0, source_byte: layout.view_position_to_source_byte(l, 0) }
}

fn line_finish_pos(layout: &Layout, l: usize) -> (r: ViewPosition)
    ensures
        r == line_finish(layout.lines@, l),
{
    let len = line_length(layout, l);
    ViewPosition { view_line: l, column: len, source_byte: layout.view_position_to_source_byte(l, len) }
}

/// A deletion of `range` with source bytes `source_range` and no recorded text.
fn delete_event_of(range: ViewEventRange, source_range: Option<std::ops::Range<usize>>, cursor_id: CursorId) -> (r: Event)
    ensures
        r@ == delete_event(range, match source_range {
            Some(x) => Some((x.start, x.end)),
            None => None,
        }, cursor_id),
{
    Event::Delete { range, source_range, deleted_text: String::new(), cursor_id }
}

/// The deletion between two positions, when both map to source bytes.
fn delete_between_of(layout: &Layout, a: &ViewPosition, b: &ViewPosition, id: CursorId) -> (r: Option<Event>)
    ensures
        match r {
            Some(e) => delete_between(layout.lines@, *a, *b, id) == Some(e@),
            None => delete_between(layout.lines@, *a, *b, id) is None,
        },
{
    let view_range = ViewEventRange::normalized(*a, *b);
    let source_range = view_range_to_buffer_range(layout, a, b);
    if source_range.is_some() {
        Some(delete_event_of(view_range, source_range, id))
    } else {
        None
    }
}

/// The event a movement action gives for one cursor.
fn movement_event(action: Action, layout: &Layout, viewport: &Viewport, buffer: &Buffer, id: CursorId, cursor: &Cursor) -> (r: Event)
    requires
        is_movement(action),
        nav_fits(cursor.position),
    ensures
        r@ == spec_movement_event(action, layout.lines@, viewport.height as int, buffer@, id, *cursor),
{
    let p = &cursor.position;
    match action {
        Action::MoveLeft => move_cursor_event(id, cursor, layout_nav::move_horizontal(layout, p, -1), None),
        Action::MoveRight => move_cursor_event(id, cursor, layout_nav::move_horizontal(layout, p, 1), None),
        Action::MoveUp => {
            let pref = pref_of(cursor);
            move_cursor_event(id, cursor, layout_nav::move_vertical(layout, p, pref, -1), pref)
        },
        Action::MoveDown => {
            let pref = pref_of(cursor);
            move_cursor_event(id, cursor, layout_nav::move_vertical(layout, p, pref, 1), pref)
        },
        Action::MoveLineStart => move_cursor_event(id, cursor, layout_nav::move_line_start(layout, p), Some(0)),
        Action::MoveLineEnd => {
            let np = layout_nav::move_line_end(layout, p);
            move_cursor_event(id, cursor, np, Some(np.column))
        },
        Action::MovePageUp => {
            let pref = pref_of(cursor);
            move_cursor_event(id, cursor, layout_nav::move_page(layout, p, viewport, -1), pref)
        },
        Action::MovePageDown => {
            let pref = pref_of(cursor);
            move_cursor_event(id, cursor, layout_nav::move_page(layout, p, viewport, 1), pref)
        },
        Action::MoveDocumentStart => move_cursor_event(id, cursor, document_start_pos(layout), Some(0)),
        Action::MoveDocumentEnd => {
            let np = document_end_pos(layout);
            move_cursor_event(id, cursor, np, Some(np.column))
        },
        Action::MoveWordLeft => {
            let np = layout_nav::move_word_left(layout, p, buffer);
            move_cursor_event(id, cursor, np, Some(np.column))
        },
        _ => {
            let np = layout_nav::move_word_right(layout, p, buffer);
            move_cursor_event(id, cursor, np, Some(np.column))
        },
    }
}

/// The event a selection action gives for one cursor.
fn selection_event(action: Action, layout: &Layout, viewport: &Viewport, buffer: &Buffer, id: CursorId, cursor: &Cursor) -> (r: Event)
    requires
        is_selection(action),
        nav_fits(cursor.position),
    ensures
        r@ == spec_selection_event(action, layout.lines@, viewport.height as int, buffer@, id, *cursor),
{
    let p = &cursor.position;
    match action {
        Action::SelectLeft => move_cursor_event_with_anchor(id, cursor, layout_nav::move_horizontal(layout, p, -1)),
        Action::SelectRight => move_cursor_event_with_anchor(id, cursor, layout_nav::move_horizontal(layout, p, 1)),
        Action::SelectUp => {
            let pref = pref_of(cursor);
            move_cursor_event_with_anchor(id, cursor, layout_nav::move_vertical(layout, p, pref, -1))
        },
        Action::SelectDown => {
            let pref = pref_of(cursor);
            move_cursor_event_with_anchor(id, cursor, layout_nav::move_vertical(layout, p, pref, 1))
        },
        Action::SelectLineStart => move_cursor_event_with_anchor(id, cursor, layout_nav::move_line_start(layout, p)),
        Action::SelectLineEnd => move_cursor_event_with_anchor(id, cursor, layout_nav::move_line_end(layout, p)),
        Action::SelectDocumentStart => move_cursor_event_with_anchor(id, cursor, document_start_pos(layout)),
        Action::SelectDocumentEnd => move_cursor_event_with_anchor(id, cursor, document_end_pos(layout)),
        Action::SelectPageUp => move_cursor_event_with_anchor(id, cursor, layout_nav::move_page(layout, p, viewport, -1)),
        Action::SelectPageDown => move_cursor_event_with_anchor(id, cursor, layout_nav::move_page(layout, p, viewport, 1)),
        Action::SelectWordLeft => move_cursor_event_with_anchor(id, cursor, layout_nav::move_word_left(layout, p, buffer)),
        Action::SelectWordRight => move_cursor_event_with_anchor(id, cursor, layout_nav::move_word_right(layout, p, buffer)),
        Action::SelectAll => {
            let first_pos = document_start_pos(layout);
            let last_pos = document_end_pos(layout);
            Event::MoveCursor {
                cursor_id: id,
                old_position: view_pos_to_event(&first_pos),
                new_position: view_pos_to_event(&first_pos),
                old_anchor: None,
                new_anchor: Some(view_pos_to_event(&last_pos)),
                old_sticky_column: None,
                new_sticky_column: Some(0),
            }
        },
        _ => {
            let line_start = line_begin_pos(layout, p.view_line);
            let line_end = line_finish_pos(layout, p.view_line);
            Event::MoveCursor {
                cursor_id: id,
                old_position: view_pos_to_event(p),
                new_position: view_pos_to_event(&line_start),
                old_anchor: opt_view_pos_to_event(cursor.anchor),
                new_anchor: Some(view_pos_to_event(&line_end)),
                old_sticky_column: cursor.preferred_visual_column,
                new_sticky_column: Some(0),
            }
        },
    }
}

/// The insertion of `text` at a cursor, when its position maps to a source byte.
fn insert_event(layout: &Layout, cursor: &Cursor, id: CursorId, text: &String) -> (r: Option<Event>)
    ensures
        match r {
            Some(e) => insert_at(layout.lines@, *cursor, id, text@) == Some(e@),
            None => insert_at(layout.lines@, *cursor, id, text@) is None,
        },
{
    match view_pos_to_buffer_byte(layout, &cursor.position) {
        Some(pos) => {
            let mut event_pos = view_pos_to_event(&cursor.position);
            event_pos.source_byte = Some(pos);
            Some(Event::Insert { position: event_pos, text: text.clone(), cursor_id: id })
        },
        None => None,
    }
}

/// The event an editing action gives for one cursor, if any.
fn edit_event(action: Action, layout: &Layout, buffer: &Buffer, text: &String, id: CursorId, cursor: &Cursor) -> (r: Option<Event>)
    requires
        is_edit(action),
        nav_fits(cursor.position),
        action matches Action::InsertChar(ch) ==> text@ == seq![ch],
        action is InsertNewline ==> text@ == seq!['\n'],
    ensures
        match r {
            Some(e) => spec_edit_event(action, layout.lines@, buffer@, id, *cursor) == Some(e@),
            None => spec_edit_event(action, layout.lines@, buffer@, id, *cursor) is None,
        },
{
    let p = &cursor.position;
    match action {
        Action::InsertChar(_) => insert_event(layout, cursor, id, text),
        Action::InsertNewline => insert_event(layout, cursor, id, text),
        Action::DeleteBackward => {
            match cursor.anchor {
                Some(anchor) => delete_between_of(layout, &anchor, p, id),
                None => match cursor.source_byte() {
                    Some(b) => {
                        if b >= 1 {
                            let start = layout_nav::move_horizontal(layout, p, -1);
                            let view_range = ViewEventRange::normalized(start, *p);
                            Some(delete_event_of(view_range, Some((b - 1)..b), id))
                        } else {
                            None
                        }
                    },
                    None => None,
                },
            }
        },
        Action::DeleteForward => {
            match cursor.anchor {
                Some(anchor) => delete_between_of(layout, &anchor, p, id),
                None => match cursor.source_byte() {
                    Some(start) => {
                        let end_view = layout_nav::move_horizontal(layout, p, 1);
                        let end_byte = match layout.view_position_to_source_byte(end_view.view_line, end_view.column) {
                            Some(e) => e,
                            None => start.saturating_add(1),
                        };
                        let view_range = ViewEventRange::normalized(*p, end_view);
                        Some(delete_event_of(view_range, Some(start..end_byte), id))
                    },
                    None => None,
                },
            }
        },
        Action::DeleteWordBackward => {
            let word_start = layout_nav::move_word_left(layout, p, buffer);
            delete_between_of(layout, &word_start, p, id)
        },
        Action::DeleteWordForward => {
            let word_end = layout_nav::move_word_right(layout, p, buffer);
            delete_between_of(layout, p, &word_end, id)
        },
        Action::DeleteLine => {
            let line_idx = p.view_line;
            let line_start = line_begin_pos(layout, line_idx);
            let next_line_start = if line_idx + 1 < layout.lines.len() {
                line_begin_pos(layout, line_idx + 1)
            } else {
                line_finish_pos(layout, line_idx)
            };
            let view_range = ViewEventRange::new(view_pos_to_event(&line_start), view_pos_to_event(&next_line_start));
            let source_range = view_range_to_buffer_range(layout, &line_start, &next_line_start);
            if source_range.is_some() {
                Some(delete_event_of(view_range, source_range, id))
            } else {
                None
            }
        },
        _ => {
            let line_end = line_finish_pos(layout, p.view_line);
            delete_between_of(layout, p, &line_end, id)
        },
    }
}

/// Convert an Action into Events using view-centric cursors and layout.
/// Returns None for actions that do nothing in the current state.
pub fn action_to_events(cursors: &mut Cursors, layout: &Layout, viewport: &mut Viewport, buffer: &Buffer, action: Action) -> (r: Option<Vec<Event>>)
    requires
        old(cursors).wf(),
        forall|i: int| 0 <= i < old(cursors).entries().len() ==> nav_fits(#[trigger] old(cursors).entries()[i].1.position),
        old(viewport).top_view_line < isize::MAX,
    ensures
        *final(cursors) == *old(cursors),
        *final(viewport) == spec_action_viewport(action, layout.lines@, *old(viewport)),
        match r {
            Some(v) => v@.len() > 0 && v@.map_values(|e: Event| e@)
                == spec_action_events(action, layout.lines@, old(viewport).height as int, buffer@, old(cursors).entries()),
            None => spec_action_events(action, layout.lines@, old(viewport).height as int, buffer@, old(cursors).entries()).len() == 0,
        },
{
    let ghost lines = layout.lines@;
    let ghost height = viewport.height as int;
    let mut events: Vec<Event> = Vec::new();
    match action {
        Action::ScrollUp => {
            layout_nav::scroll_view(layout, viewport, -1);
        },
        Action::ScrollDown => {
            layout_nav::scroll_view(layout, viewport, 1);
        },
        _ => {},
    }
    let text = match action {
        Action::InsertChar(ch) => char_to_string(ch),
        _ => "\n".to_string(),
    };
    proof {
        reveal_strlit("\n");
    }
    let all = cursors.iter();
    let n = all.len();
    let mut i: usize = 0;
    while i < n
        invariant
            all@ == cursors.entries(),
            n == all@.len(),
            i <= n,
            forall|j: int| 0 <= j < n ==> nav_fits(#[trigger] all@[j].1.position),
            viewport.height as int == height,
            layout.lines@ == lines,
            action matches Action::InsertChar(ch) ==> text@ == seq![ch],
            !(action is InsertChar) ==> text@ == seq!['\n'],
            events@.map_values(|e: Event| e@) == spec_action_events(action, lines, height, buffer@, all@.take(i as int)),
        decreases n - i,
    {
        let (id, cursor) = all[i];
        let ev: Option<Event> = if is_movement_action(action) {
            Some(movement_event(action, layout, viewport, buffer, id, &cursor))
        } else if is_selection_action(action) {
            Some(selection_event(action, layout, viewport, buffer, id, &cursor))
        } else if is_edit_action(action) {
            edit_event(action, layout, buffer, &text, id, &cursor)
        } else {
            None
        };
        proof {
            let t = all@.take(i as int + 1);
            assert(t.drop_last() =~= all@.take(i as int));
            assert(t.last() == all@[i as int]);
        }
        match ev {
            Some(e) => {
                events.push(e);
            },
            None => {},
        }
        i += 1;
        proof {
            assert(events@.map_values(|e: Event| e@) =~= spec_action_events(action, lines, height, buffer@, all@.take(i as int)));
        }
    }
    proof {
        assert(all@.take(n as int) =~= all@);
    }
    if events.len() == 0 {
        None
    } else {
        Some(events)
    }
}

fn is_movement_action(a: Action) -> (r: bool)
    ensures
        r == is_movement(a),
{
    match a {
        Action::MoveLeft | Action::MoveRight | Action::MoveUp | Action::MoveDown | Action::MoveLineStart
        | Action::MoveLineEnd | Action::MovePageUp | Action::MovePageDown | Action::MoveDocumentStart
        | Action::MoveDocumentEnd | Action::MoveWordLeft | Action::MoveWordRight => true,
        _ => false,
    }
}

fn is_selection_action(a: Action) -> (r: bool)
    ensures
        r == is_selection(a),
{
    match a {
        Action::SelectLeft | Action::SelectRight | Action::SelectUp | Action::SelectDown | Action::SelectLineStart
        | Action::SelectLineEnd | Action::SelectDocumentStart | Action::SelectDocumentEnd | Action::SelectPageUp
        | Action::SelectPageDown | Action::SelectWordLeft | Action::SelectWordRight | Action::SelectAll
        | Action::SelectLine => true,
        _ => false,
    }
}

fn is_edit_action(a: Action) -> (r: bool)
    ensures
        r == is_edit(a),
{
    match a {
        Action::InsertChar(_) | Action::InsertNewline | Action::DeleteBackward | Action::DeleteForward
        | Action::DeleteWordBackward | Action::DeleteWordForward | Action::DeleteLine | Action::DeleteToLineEnd => true,
        _ => false,
    }
}

} // verus!
