//! Multi-cursor operations: adding cursors at the next match, or on the line
//! above or below the primary cursor at the same column.

use vstd::prelude::*;
use crate::state::{ByteCursor, EditorState, spec_byte_selection};
use crate::text_buffer::{Buffer, find_bytes_from, lemma_find_bytes_bounds, line_end_from, line_start_of, lemma_line_end_bounds, lemma_line_start_bounds};
use crate::text_util::min_int;

verus! {

/// Result of attempting to add a cursor
pub enum AddCursorResult {
    /// Cursor was added successfully
    Success { cursor: ByteCursor, total_cursors: usize },
    /// Operation failed with a message
    Failed { message: String },
}

/// Length of the line `start..end` without its final newline.
pub open spec fn line_text_len(s: Seq<u8>, start: int, end: int) -> int {
    if end > start && s[end - 1] == 10 { end - start - 1 } else { end - start }
}

/// The position at column `col` of the line `start..end`, kept within its text.
pub open spec fn spec_position_on_line(s: Seq<u8>, start: int, end: int, col: int) -> int {
    start + min_int(col, line_text_len(s, start, end))
}

/// A position on a newline counts as the start of the next line.
pub open spec fn spec_adjust_for_newline(s: Seq<u8>, pos: int) -> int {
    if 0 <= pos < s.len() && s[pos] == 10 { pos + 1 } else { pos }
}

/// Column of `pos` within its line.
pub open spec fn column_in_line(s: Seq<u8>, pos: int) -> int {
    if pos >= line_start_of(s, pos) { pos - line_start_of(s, pos) } else { 0 }
}

/// Where a cursor added above a cursor at `pos` goes, if there is a line above.
pub open spec fn spec_above(s: Seq<u8>, pos: int) -> Option<int> {
    if line_start_of(s, spec_adjust_for_newline(s, pos)) == 0 {
        None
    } else {
        Some(spec_position_on_line(s,
            line_start_of(s, line_start_of(s, spec_adjust_for_newline(s, pos)) - 1),
            line_start_of(s, spec_adjust_for_newline(s, pos)),
            column_in_line(s, spec_adjust_for_newline(s, pos))))
    }
}

/// The line after the one holding `pos` exists: that line ends with a newline.
pub open spec fn has_next_line(s: Seq<u8>, pos: int) -> bool {
    line_end_from(s, line_start_of(s, pos)) > line_start_of(s, pos)
        && s[line_end_from(s, line_start_of(s, pos)) - 1] == 10
}

/// Where a cursor added below a cursor at `pos` goes, if there is a line below.
pub open spec fn spec_below(s: Seq<u8>, pos: int) -> Option<int> {
    if has_next_line(s, pos) {
        Some(spec_position_on_line(s,
            line_end_from(s, line_start_of(s, pos)),
            line_end_from(s, line_end_from(s, line_start_of(s, pos))),
            column_in_line(s, pos)))
    } else {
        None
    }
}

/// Every cursor and anchor of the state lies within the buffer.
pub open spec fn cursors_in_buffer(state: EditorState) -> bool {
    forall|i: int| 0 <= i < state.cursors@.len() ==> {
        &&& (#[trigger] state.cursors@[i]).position <= state.buffer@.len()
        &&& (state.cursors@[i].anchor matches Some(a) ==> a <= state.buffer@.len())
    }
}

fn failed(message: &str) -> (r: AddCursorResult)
    ensures
        r matches AddCursorResult::Failed { message: m } && m@ == message@,
{
    AddCursorResult::Failed { message: message.to_string() }
}

/// A position on a newline moves to the start of the next line.
fn adjust_position_for_newline(buffer: &Buffer, position: usize) -> (r: usize)
    requires
        position <= buffer@.len(),
    ensures
        r == spec_adjust_for_newline(buffer@, position as int),
{
    if position < buffer.len() && buffer.byte_at(position) == 10 {
        position + 1
    } else {
        position
    }
}

/// The position at column `col` of the line `start..end`, clamped to its text.
fn cursor_position_on_line(buffer: &Buffer, start: usize, end: usize, col: usize) -> (r: usize)
    requires
        start <= end <= buffer@.len(),
    ensures
        r == spec_position_on_line(buffer@, start as int, end as int, col as int),
{
    let len = if end > start && buffer.byte_at(end - 1) == 10 { end - start - 1 } else { end - start };
    start + if col <= len { col } else { len }
}

/// Add a cursor at the next occurrence of the selected text; fails without a
/// selection or when the text does not occur again after it.
pub fn add_cursor_at_next_match(state: &mut EditorState) -> (r: AddCursorResult)
    requires
        old(state).wf(),
        cursors_in_buffer(*old(state)),
        old(state).cursors@.len() < usize::MAX,
    ensures
        final(state).buffer@ == old(state).buffer@,
        final(state).cursors@ == old(state).cursors@,
        final(state).primary == old(state).primary,
        match old(state).cursors@[old(state).primary as int].anchor {
            None => r matches AddCursorResult::Failed { message } && message@ == "No selection to match"@,
            Some(a) => {
                let sel = spec_byte_selection(a, old(state).cursors@[old(state).primary as int].position);
                let pattern = old(state).buffer@.subrange(sel.0 as int, sel.1 as int);
                match find_bytes_from(old(state).buffer@, pattern, sel.1 as int) {
                    None => r matches AddCursorResult::Failed { message } && message@ == "No more matches"@,
                    Some(m) => r == (AddCursorResult::Success {
                        cursor: ByteCursor { position: (m + pattern.len()) as usize, anchor: Some(m as usize) },
                        total_cursors: (old(state).cursors@.len() + 1) as usize,
                    }),
                }
            },
        },
{
    let primary = state.primary_cursor();
    let range = match primary.selection_range() {
        Some(range) => range,
        None => return failed("No selection to match"),
    };
    proof {
        assert(state.cursors@[state.primary as int] == primary);
    }
    let pattern = state.buffer.get_text_range(range.start, range.end);
    let search_start = range.end;
    let match_pos = match state.buffer.find_next(&pattern, search_start) {
        Some(pos) => pos,
        None => return failed("No more matches"),
    };
    let buffer_len = state.buffer.len();
    proof {
        lemma_find_bytes_bounds(state.buffer@, pattern@, search_start as int);
        assert(match_pos + pattern@.len() <= buffer_len);
    }
    let total = state.cursors.len() + 1;
    AddCursorResult::Success { cursor: ByteCursor::with_selection(match_pos, match_pos + pattern.len()), total_cursors: total }
}

/// Add a cursor above the primary cursor at the same column; fails on the first line.
pub fn add_cursor_above(state: &mut EditorState) -> (r: AddCursorResult)
    requires
        old(state).wf(),
        cursors_in_buffer(*old(state)),
        old(state).cursors@.len() < usize::MAX,
    ensures
        final(state).buffer@ == old(state).buffer@,
        final(state).cursors@ == old(state).cursors@,
        final(state).primary == old(state).primary,
        match spec_above(old(state).buffer@, old(state).cursors@[old(state).primary as int].position as int) {
            None => r matches AddCursorResult::Failed { message } && message@ == "Already at first line"@,
            Some(p) => r == (AddCursorResult::Success {
                cursor: ByteCursor { position: p as usize, anchor: None },
                total_cursors: (old(state).cursors@.len() + 1) as usize,
            }),
        },
{
    let ghost s = state.buffer@;
    let position = state.primary_cursor().position;
    proof {
        assert(state.cursors@[state.primary as int].position <= s.len());
    }
    let adjusted = adjust_position_for_newline(&state.buffer, position);
    let line_start = state.buffer.line_start(adjusted);
    proof {
        lemma_line_start_bounds(s, adjusted as int);
    }
    let col = adjusted - line_start;
    if line_start == 0 {
        return failed("Already at first line");
    }
    let prev_start = state.buffer.line_start(line_start - 1);
    proof {
        lemma_line_start_bounds(s, line_start - 1);
    }
    let new_pos = cursor_position_on_line(&state.buffer, prev_start, line_start, col);
    let total = state.cursors.len() + 1;
    AddCursorResult::Success { cursor: ByteCursor::new(new_pos), total_cursors: total }
}

/// Add a cursor below the primary cursor at the same column; fails on the last line.
pub fn add_cursor_below(state: &mut EditorState) -> (r: AddCursorResult)
    requires
        old(state).wf(),
        cursors_in_buffer(*old(state)),
        old(state).cursors@.len() < usize::MAX,
    ensures
        final(state).buffer@ == old(state).buffer@,
        final(state).cursors@ == old(state).cursors@,
        final(state).primary == old(state).primary,
        match spec_below(old(state).buffer@, old(state).cursors@[old(state).primary as int].position as int) {
            None => r matches AddCursorResult::Failed { message } && message@ == "Already at last line"@,
            Some(p) => r == (AddCursorResult::Success {
                cursor: ByteCursor { position: p as usize, anchor: None },
                total_cursors: (old(state).cursors@.len() + 1) as usize,
            }),
        },
{
    let ghost s = state.buffer@;
    let position = state.primary_cursor().position;
    proof {
        assert(state.cursors@[state.primary as int].position <= s.len());
    }
    let line_start = state.buffer.line_start(position);
    proof {
        lemma_line_start_bounds(s, position as int);
        lemma_line_end_bounds(s, line_start as int);
    }
    let col = position - line_start;
    let line_end = state.buffer.line_end(line_start);
    if !(line_end > line_start && state.buffer.byte_at(line_end - 1) == 10) {
        return failed("Already at last line");
    }
    let next_end = state.buffer.line_end(line_end);
    proof {
        lemma_line_end_bounds(s, line_end as int);
    }
    let new_pos = cursor_position_on_line(&state.buffer, line_end, next_end, col);
    let total = state.cursors.len() + 1;
    AddCursorResult::Success { cursor: ByteCursor::new(new_pos), total_cursors: total }
}

/// The line holding `pos` starts at `st` when `st` is 0 or follows a newline
/// and no newline lies in `st..pos`.
proof fn lemma_line_start_is(s: Seq<u8>, pos: int, st: int)
    requires
        0 <= st <= pos <= s.len(),
        st == 0 || s[st - 1] == 10,
        forall|k: int| st <= k < pos ==> s[k] != 10,
    ensures
        line_start_of(s, pos) == st,
    decreases pos,
{
    if pos > st {
        lemma_line_start_is(s, pos - 1, st);
    }
}

/// The line starting at `start` ends just past the newline at `e - 1` when no
/// newline comes before it.
proof fn lemma_line_end_is(s: Seq<u8>, start: int, e: int)
    requires
        0 <= start < e <= s.len(),
        s[e - 1] == 10,
        forall|k: int| start <= k < e - 1 ==> s[k] != 10,
    ensures
        line_end_from(s, start) == e,
    decreases e - start,
{
    if start < e - 1 {
        lemma_line_end_is(s, start + 1, e);
    }
}

/// A line starting at `start` with no newline up to the end of the text ends there.
proof fn lemma_line_end_last(s: Seq<u8>, start: int)
    requires
        0 <= start <= s.len(),
        forall|k: int| start <= k < s.len() ==> s[k] != 10,
    ensures
        line_end_from(s, start) == s.len(),
    decreases s.len() - start,
{
    if start < s.len() {
        lemma_line_end_last(s, start + 1);
    }
}

/// The cursor added below a cursor at `pos` goes on the line directly below
/// pos's line (the one starting at `next`, just past the first newline at or
/// after `pos`), at pos's column `col`, clamped to that line's length `len`
/// (its characters before its newline or the end of the text).
pub proof fn law_below_is_same_column_on_next_line(s: Seq<u8>, pos: int, col: int, next: int, len: int)
    requires
        0 <= pos <= s.len(),
        0 <= col <= pos,
        pos - col == 0 || s[pos - col - 1] == 10,
        forall|k: int| pos - col <= k < pos ==> s[k] != 10,
        pos < next <= s.len(),
        s[next - 1] == 10,
        forall|k: int| pos <= k < next - 1 ==> s[k] != 10,
        0 <= len,
        next + len <= s.len(),
        forall|k: int| next <= k < next + len ==> s[k] != 10,
        next + len == s.len() || s[next + len] == 10,
    ensures
        spec_below(s, pos) == Some(next + min_int(col, len)),
{
    lemma_line_start_is(s, pos, pos - col);
    lemma_line_end_is(s, pos - col, next);
    if next + len < s.len() {
        lemma_line_end_is(s, next, next + len + 1);
    } else {
        lemma_line_end_last(s, next);
    }
}

/// No cursor is added below a cursor with no newline at or after it: it is on
/// the last line.
pub proof fn law_no_line_below_the_last(s: Seq<u8>, pos: int)
    requires
        0 <= pos <= s.len(),
        forall|k: int| pos <= k < s.len() ==> s[k] != 10,
    ensures
        spec_below(s, pos) is None,
{
    lemma_line_start_bounds(s, pos);
    let st = line_start_of(s, pos);
    assert forall|k: int| st <= k < pos implies s[k] != 10 by {
        if s[k] == 10 {
            lemma_line_start_after_newline(s, pos, k);
        }
    }
    lemma_line_end_last(s, st);
}

/// The line holding `pos` starts after any newline before `pos`.
proof fn lemma_line_start_after_newline(s: Seq<u8>, pos: int, k: int)
    requires
        0 <= k < pos <= s.len(),
        s[k] == 10,
    ensures
        line_start_of(s, pos) > k,
    decreases pos,
{
    if s[pos - 1] != 10 {
        lemma_line_start_after_newline(s, pos - 1, k);
    }
}

/// The cursor added above a cursor at `pos` (read as the start of the next
/// line when it sits on a newline: `q`) goes on the line directly above q's
/// line (the one starting at `prev`), at q's column `col`, clamped to that
/// line's length; on the first line no cursor is added.
pub proof fn law_above_is_same_column_on_previous_line(s: Seq<u8>, pos: int, q: int, col: int, prev: int)
    requires
        0 <= pos <= s.len(),
        q == (if pos < s.len() && s[pos] == 10 { pos + 1 } else { pos }),
        0 <= col <= q,
        q - col == 0 || s[q - col - 1] == 10,
        forall|k: int| q - col <= k < q ==> s[k] != 10,
        0 <= prev,
        q - col > 0 ==> prev < q - col,
        q - col > 0 ==> (prev == 0 || s[prev - 1] == 10),
        forall|k: int| prev <= k < q - col - 1 ==> s[k] != 10,
    ensures
        q - col == 0 ==> spec_above(s, pos) is None,
        q - col > 0 ==> spec_above(s, pos) == Some(prev + min_int(col, q - col - 1 - prev)),
{
    lemma_line_start_is(s, q, q - col);
    if q - col > 0 {
        lemma_line_start_is(s, q - col - 1, prev);
    }
}

/// The match a new cursor goes to is the first occurrence of the pattern at or
/// after `from`; no occurrence means none is found.
pub proof fn law_next_match_is_first_occurrence(s: Seq<u8>, pat: Seq<u8>, from: int)
    requires
        0 <= from,
    ensures
        match find_bytes_from(s, pat, from) {
            Some(m) => from <= m && m + pat.len() <= s.len() && s.subrange(m, m + pat.len()) == pat
                && forall|k: int| from <= k < m ==> #[trigger] s.subrange(k, k + pat.len()) != pat,
            None => forall|k: int| from <= k && k + pat.len() <= s.len() ==> #[trigger] s.subrange(k, k + pat.len()) != pat,
        },
    decreases s.len() + 1 - from,
{
    lemma_find_bytes_bounds(s, pat, from);
    if !(from > s.len() || from + pat.len() > s.len()) && s.subrange(from, from + pat.len()) != pat {
        law_next_match_is_first_occurrence(s, pat, from + 1);
    }
}

} // verus!
