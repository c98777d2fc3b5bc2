//! Mapping view positions and ranges to source bytes.

use vstd::prelude::*;
use crate::cursor::ViewPosition;
use crate::view_pipeline::{Layout, ViewLine, spec_view_position_to_source_byte};

verus! {

/// The source byte a view position stands for: its own, or the one the layout gives it.
pub open spec fn spec_position_byte(lines: Seq<ViewLine>, p: ViewPosition) -> Option<usize> {
    match p.source_byte {
        Some(b) => Some(b),
        None => spec_view_position_to_source_byte(lines, p.view_line as int, p.column as int),
    }
}

/// The source bytes between two view positions, lower byte first, when both have one.
pub open spec fn spec_buffer_range(lines: Seq<ViewLine>, a: ViewPosition, b: ViewPosition) -> Option<(usize, usize)> {
    match (spec_position_byte(lines, a), spec_position_byte(lines, b)) {
        (Some(x), Some(y)) => if x <= y { Some((x, y)) } else { Some((y, x)) },
        _ => None,
    }
}

/// A source range as a pair of bytes.
pub open spec fn range_pair(r: Option<std::ops::Range<usize>>) -> Option<(usize, usize)> {
    match r {
        Some(r) => Some((r.start, r.end)),
        None => None,
    }
}

/// The source byte of a view position, from the position itself or the layout.
pub fn view_pos_to_buffer_byte(layout: &Layout, pos: &ViewPosition) -> (r: Option<usize>)
    ensures
        r == spec_position_byte(layout.lines@, *pos),
{
    match pos.source_byte {
        Some(b) => Some(b),
        None => layout.view_position_to_source_byte(pos.view_line, pos.column),
    }
}

/// The source range between two view positions (see `spec_buffer_range`).
pub fn view_range_to_buffer_range(layout: &Layout, start: &ViewPosition, end: &ViewPosition) -> (r: Option<std::ops::Range<usize>>)
    ensures
        range_pair(r) == spec_buffer_range(layout.lines@, *start, *end),
{
    let s = view_pos_to_buffer_byte(layout, start);
    let e = view_pos_to_buffer_byte(layout, end);
    match (s, e) {
        (Some(x), Some(y)) => if x <= y { Some(x..y) } else { Some(y..x) },
        _ => None,
    }
}

} // verus!
