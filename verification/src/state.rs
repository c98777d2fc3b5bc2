//! Buffer-coordinate cursors and the editing state of one buffer.

use vstd::prelude::*;
use crate::overlay::OverlayManager;
use crate::text_buffer::Buffer;
use crate::cursor::{Cursors, spec_origin_cursor};
use crate::event::CursorId;
use crate::viewport::Viewport;

verus! {

/// A cursor at a byte offset of the buffer, with an optional selection anchor.
#[derive(Debug, Clone, Copy, PartialEq, Eq, Structural)]
pub struct ByteCursor {
    /// Byte offset of the cursor
    pub position: usize,
    /// Selection anchor, if a selection is active
    pub anchor: Option<usize>,
}

/// The selected byte range of a cursor with anchor `a` at `p`: lower end first.
pub open spec fn spec_byte_selection(a: usize, p: usize) -> (usize, usize) {
    if a < p { (a, p) } else { (p, a) }
}

impl ByteCursor {
    /// A cursor at `position` without selection.
    pub fn new(position: usize) -> (r: Self)
        ensures
            r == (ByteCursor { position, anchor: None }),
    {
        ByteCursor { position, anchor: None }
    }

    /// A cursor at `end` selecting from `start`.
    pub fn with_selection(start: usize, end: usize) -> (r: Self)
        ensures
            r == (ByteCursor { position: end, anchor: Some(start) }),
    {
        ByteCursor { position: end, anchor: Some(start) }
    }

    /// The selected range (lower end first), if a selection is active.
    pub fn selection_range(&self) -> (r: Option<std::ops::Range<usize>>)
        ensures
            match r {
                Some(x) => self.anchor matches Some(a) && (x.start, x.end) == spec_byte_selection(a, self.position),
                None => self.anchor is None,
            },
    {
        match self.anchor {
            Some(a) => if a < self.position { Some(a..self.position) } else { Some(self.position..a) },
            None => None,
        }
    }
}

/// The editing state of a buffer: its text, its cursors (one of them
/// primary) and its overlays, and the cursors in view coordinates with the
/// viewport that the split views last left it.
pub struct EditorState {
    pub buffer: Buffer,
    pub cursors: Vec<ByteCursor>,
    pub primary: usize,
    pub overlays: OverlayManager,
    pub view_cursors: Cursors,
    pub viewport: Viewport,
}

impl EditorState {
    /// The primary cursor exists.
    pub open spec fn wf(&self) -> bool {
        self.primary < self.cursors@.len()
    }

    /// A state holding `buffer` with one cursor at its start.
    pub fn new(buffer: Buffer) -> (r: Self)
        ensures
            r.wf(),
            r.buffer@ == buffer@,
            r.cursors@ == seq![ByteCursor { position: 0, anchor: None }],
            r.primary == 0,
            r.overlays.overlays@.len() == 0,
            r.overlays.next_handle == 0,
            r.view_cursors.wf(),
            r.view_cursors@.cursors == map![CursorId(0) => spec_origin_cursor()],
            r.view_cursors@.primary_id == CursorId(0),
            r.viewport.top_view_line == 0,
            r.viewport.width == 0,
            r.viewport.height == 0,
    {
        let mut cursors: Vec<ByteCursor> = Vec::new();
        cursors.push(ByteCursor::new(0));
        EditorState {
            buffer,
            cursors,
            primary: 0,
            overlays: OverlayManager::new(),
            view_cursors: Cursors::new(),
            viewport: Viewport::new(0, 0),
        }
    }

    /// The primary cursor.
    pub fn primary_cursor(&self) -> (r: ByteCursor)
        requires
            self.wf(),
        ensures
            r == self.cursors@[self.primary as int],
    {
        self.cursors[self.primary]
    }
}

} // verus!
