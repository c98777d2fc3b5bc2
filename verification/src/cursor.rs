//! View-coordinate cursors with optional selections, and the multi-cursor collection.

use vstd::prelude::*;
use crate::event::{CursorId, ViewEventPosition};
use crate::draw::{decimal, decimal_chars};
use crate::text_util::{push_chars, string_from_chars};
use crate::view_pipeline::{Layout, ViewLine, spec_source_byte_to_view_position};

verus! {

/// Selection mode for cursors
#[derive(Debug, Clone, Copy, PartialEq, Eq, Structural)]
pub enum SelectionMode {
    /// Normal character-wise selection (stream)
    Normal,
    /// Block/rectangular selection (column-wise)
    Block,
}

impl Default for SelectionMode {
    fn default() -> (r: Self)
        ensures
            r == SelectionMode::Normal,
    {
        SelectionMode::Normal
    }
}

/// Position in view coordinates with optional source mapping
#[derive(Debug, Clone, Copy, PartialEq, Eq, Structural)]
pub struct ViewPosition {
    pub view_line: usize,
    pub column: usize,
    /// Optional source byte offset (None for injected/view-only content)
    pub source_byte: Option<usize>,
}

/// `a` comes strictly before `b` in view order (line first, then column).
pub open spec fn view_before(a: ViewPosition, b: ViewPosition) -> bool {
    a.view_line < b.view_line || (a.view_line == b.view_line && a.column < b.column)
}

impl ViewPosition {
    /// Construct a view position from a source byte (view coordinates unknown during migration)
    pub fn from_source_byte(byte: usize) -> (r: Self)
        ensures
            r == (ViewPosition { view_line: 0, column: byte, source_byte: Some(byte) }),
    {
        Self { view_line: 0, column: byte, source_byte: Some(byte) }
    }

    /// Three-way comparison in view order: by line, then by column.
    /// The source byte does not take part in the order.
    pub fn compare(&self, other: &Self) -> (r: std::cmp::Ordering)
        ensures
            (r == std::cmp::Ordering::Less) == view_before(*self, *other),
            (r == std::cmp::Ordering::Greater) == view_before(*other, *self),
            (r == std::cmp::Ordering::Equal) == (self.view_line == other.view_line
                && self.column == other.column),
    {
        if self.view_line < other.view_line {
            std::cmp::Ordering::Less
        } else if self.view_line > other.view_line {
            std::cmp::Ordering::Greater
        } else if self.column < other.column {
            std::cmp::Ordering::Less
        } else if self.column > other.column {
            std::cmp::Ordering::Greater
        } else {
            std::cmp::Ordering::Equal
        }
    }

    /// Move the column right by `rhs`, keeping line and source byte.
    pub fn add_columns(self, rhs: usize) -> (r: Self)
        requires
            self.column + rhs <= usize::MAX,
        ensures
            r == (ViewPosition { column: (self.column + rhs) as usize, ..self }),
    {
        ViewPosition { view_line: self.view_line, column: self.column + rhs, source_byte: self.source_byte }
    }

    /// Move the column left by `rhs`, stopping at column 0.
    pub fn sub_columns(self, rhs: usize) -> (r: Self)
        ensures
            r == (ViewPosition {
                column: if self.column >= rhs { (self.column - rhs) as usize } else { 0 },
                ..self
            }),
    {
        ViewPosition {
            view_line: self.view_line,
            column: self.column.saturating_sub(rhs),
            source_byte: self.source_byte,
        }
    }
}

impl ViewPosition {
    /// Move the column right by `rhs` in place.
    pub fn add_assign_columns(&mut self, rhs: usize)
        requires
            old(self).column + rhs <= usize::MAX,
        ensures
            *final(self) == (ViewPosition { column: (old(self).column + rhs) as usize, ..*old(self) }),
    {
        self.column = self.column + rhs;
    }

    /// Move the column left by `rhs` in place, stopping at column 0.
    pub fn sub_assign_columns(&mut self, rhs: usize)
        ensures
            *final(self) == (ViewPosition {
                column: if old(self).column >= rhs { (old(self).column - rhs) as usize } else { 0 },
                ..*old(self)
            }),
    {
        self.column = self.column.saturating_sub(rhs);
    }

    /// `line:column`, followed by ` (@byte)` when the source byte is known.
    pub fn to_display_string(&self) -> (r: String)
        ensures
            r@ == decimal(self.view_line as nat) + seq![':'] + decimal(self.column as nat) + match self.source_byte {
                Some(b) => seq![' ', '(', '@'] + decimal(b as nat) + seq![')'],
                None => Seq::<char>::empty(),
            },
    {
        let mut out = decimal_chars(self.view_line);
        out.push(':');
        let c = decimal_chars(self.column);
        push_chars(&mut out, &c);
        match self.source_byte {
            Some(b) => {
                out.push(' ');
                out.push('(');
                out.push('@');
                let d = decimal_chars(b);
                push_chars(&mut out, &d);
                out.push(')');
            },
            None => {},
        }
        proof {
            assert(out@ =~= decimal(self.view_line as nat) + seq![':'] + decimal(self.column as nat) + match self.source_byte {
                Some(b) => seq![' ', '(', '@'] + decimal(b as nat) + seq![')'],
                None => Seq::<char>::empty(),
            });
        }
        string_from_chars(&out)
    }
}

impl From<ViewEventPosition> for ViewPosition {
    fn from(v: ViewEventPosition) -> (r: Self) {
        ViewPosition { view_line: v.view_line, column: v.column, source_byte: v.source_byte }
    }
}

impl vstd::std_specs::convert::FromSpecImpl<ViewEventPosition> for ViewPosition {
    open spec fn obeys_from_spec() -> bool {
        true
    }

    open spec fn from_spec(v: ViewEventPosition) -> Self {
        ViewPosition { view_line: v.view_line, column: v.column, source_byte: v.source_byte }
    }
}

/// Position in 2D coordinates (for block selection)
#[derive(Debug, Clone, Copy, PartialEq, Eq, Structural)]
pub struct Position2D {
    pub line: usize,
    pub column: usize,
}

/// A normalized selection: `start` never comes after `end` in view order.
#[derive(Debug, Clone, Copy, PartialEq, Eq, Structural)]
pub struct Selection {
    pub start: ViewPosition,
    pub end: ViewPosition,
}

impl Selection {
    pub fn new(start: ViewPosition, end: ViewPosition) -> (r: Self)
        ensures
            r == (Selection { start, end }),
    {
        Selection { start, end }
    }
}

/// A cursor in the view with optional selection
#[derive(Debug, Clone, Copy, PartialEq, Eq, Structural)]
pub struct Cursor {
    /// Primary position in view coordinates
    pub position: ViewPosition,
    /// Selection anchor (if any) in view coordinates
    pub anchor: Option<ViewPosition>,
    /// Preferred visual column for vertical movement
    pub preferred_visual_column: Option<usize>,
    /// Legacy sticky column (kept during migration)
    pub sticky_column: Option<usize>,
    /// Selection mode (normal or block)
    pub selection_mode: SelectionMode,
    /// Block selection anchor position (line, column) for rectangular selections
    pub block_anchor: Option<Position2D>,
    /// Whether regular movement should clear the selection (default: true)
    pub deselect_on_move: bool,
}

/// A fresh cursor at `position`, with no selection.
pub open spec fn spec_new_cursor(position: ViewPosition) -> Cursor {
    Cursor {
        position,
        anchor: None,
        preferred_visual_column: None,
        sticky_column: None,
        selection_mode: SelectionMode::Normal,
        block_anchor: None,
        deselect_on_move: true,
    }
}

/// The normalized selection of a cursor whose anchor is `anchor`.
pub open spec fn spec_selection(anchor: ViewPosition, position: ViewPosition) -> Selection {
    if anchor.view_line < position.view_line || (anchor.view_line == position.view_line
        && anchor.column <= position.column) {
        Selection { start: anchor, end: position }
    } else {
        Selection { start: position, end: anchor }
    }
}

/// Where a byte offset lands after `old_len` bytes at `edit_pos` are replaced by
/// `new_len` bytes: unchanged before the edit, clamped to the edit position inside
/// the removed region, shifted by the length difference after it.
pub open spec fn spec_adjust_byte(byte: int, edit_pos: int, old_len: int, new_len: int) -> int {
    if byte < edit_pos {
        byte
    } else if byte < edit_pos + old_len {
        edit_pos
    } else {
        byte - old_len + new_len
    }
}

/// The byte arithmetic of an edit fits in `usize` for this offset.
pub open spec fn adjust_fits(byte: int, edit_pos: int, old_len: int, new_len: int) -> bool {
    &&& edit_pos + old_len <= usize::MAX
    &&& byte >= edit_pos + old_len ==> byte - old_len + new_len <= usize::MAX
}

/// A view position after an edit: positions with a source byte get the adjusted
/// byte, and their column follows it; view-only positions are unchanged.
pub open spec fn spec_adjust_position(p: ViewPosition, edit_pos: int, old_len: int, new_len: int) -> ViewPosition {
    match p.source_byte {
        Some(b) => {
            let nb = spec_adjust_byte(b as int, edit_pos, old_len, new_len) as usize;
            ViewPosition { view_line: p.view_line, column: nb, source_byte: Some(nb) }
        },
        None => p,
    }
}

pub open spec fn position_fits(p: ViewPosition, edit_pos: int, old_len: int, new_len: int) -> bool {
    match p.source_byte {
        Some(b) => adjust_fits(b as int, edit_pos, old_len, new_len),
        None => edit_pos + old_len <= usize::MAX,
    }
}

impl Cursor {
    /// The edit arithmetic fits in `usize` for this cursor's position and anchor.
    pub open spec fn edit_fits(self, edit_pos: int, old_len: int, new_len: int) -> bool {
        &&& position_fits(self.position, edit_pos, old_len, new_len)
        &&& (self.anchor matches Some(a) ==> position_fits(a, edit_pos, old_len, new_len))
    }

    /// This cursor after an edit.
    pub open spec fn spec_adjusted(self, edit_pos: int, old_len: int, new_len: int) -> Cursor {
        Cursor {
            position: spec_adjust_position(self.position, edit_pos, old_len, new_len),
            anchor: match self.anchor {
                Some(a) => Some(spec_adjust_position(a, edit_pos, old_len, new_len)),
                None => None,
            },
            ..self
        }
    }

    /// Create a new cursor at a position
    pub fn new(position: ViewPosition) -> (r: Self)
        ensures
            r == spec_new_cursor(position),
    {
        Self {
            position,
            anchor: None,
            preferred_visual_column: None,
            sticky_column: None,
            selection_mode: SelectionMode::Normal,
            block_anchor: None,
            deselect_on_move: true,
        }
    }

    /// Create a cursor with a selection
    pub fn with_selection(start: ViewPosition, end: ViewPosition) -> (r: Self)
        ensures
            r == (Cursor { anchor: Some(start), ..spec_new_cursor(end) }),
    {
        Self {
            position: end,
            anchor: Some(start),
            preferred_visual_column: None,
            sticky_column: None,
            selection_mode: SelectionMode::Normal,
            block_anchor: None,
            deselect_on_move: true,
        }
    }

    /// Is the cursor collapsed (no selection)?
    pub fn collapsed(&self) -> (r: bool)
        ensures
            r == (self.anchor is None && self.block_anchor is None),
    {
        self.anchor.is_none() && self.block_anchor.is_none()
    }

    /// The selection range, if any, in view coordinates.
    pub open spec fn spec_selection_range(self) -> Option<Selection> {
        match self.anchor {
            Some(a) => Some(spec_selection(a, self.position)),
            None => None,
        }
    }

    /// Get the selection range, if any (for normal selection) in view coordinates
    pub fn selection_range(&self) -> (r: Option<Selection>)
        ensures
            r == self.spec_selection_range(),
            r matches Some(s) ==> !view_before(s.end, s.start),
    {
        match self.anchor {
            Some(anchor) => {
                if anchor.view_line < self.position.view_line || (anchor.view_line
                    == self.position.view_line && anchor.column <= self.position.column) {
                    Some(Selection::new(anchor, self.position))
                } else {
                    Some(Selection::new(self.position, anchor))
                }
            },
            None => None,
        }
    }

    /// Get the start of the selection (min of position and anchor)
    pub fn selection_start(&self) -> (r: ViewPosition)
        ensures
            r == match self.spec_selection_range() {
                Some(s) => s.start,
                None => self.position,
            },
    {
        match self.selection_range() {
            Some(sel) => sel.start,
            None => self.position,
        }
    }

    /// Get the end of the selection (max of position and anchor)
    pub fn selection_end(&self) -> (r: ViewPosition)
        ensures
            r == match self.spec_selection_range() {
                Some(s) => s.end,
                None => self.position,
            },
    {
        match self.selection_range() {
            Some(sel) => sel.end,
            None => self.position,
        }
    }

    /// Clear the selection, keeping only the position
    pub fn clear_selection(&mut self)
        ensures
            *final(self) == (Cursor {
                anchor: None,
                block_anchor: None,
                selection_mode: SelectionMode::Normal,
                ..*old(self)
            }),
    {
        self.anchor = None;
        self.block_anchor = None;
        self.selection_mode = SelectionMode::Normal;
    }

    /// Set the selection anchor
    pub fn set_anchor(&mut self, anchor: ViewPosition)
        ensures
            *final(self) == (Cursor { anchor: Some(anchor), ..*old(self) }),
    {
        self.anchor = Some(anchor);
    }

    /// Start a block selection at the given 2D position
    pub fn start_block_selection(&mut self, line: usize, column: usize)
        ensures
            *final(self) == (Cursor {
                selection_mode: SelectionMode::Block,
                block_anchor: Some(Position2D { line, column }),
                ..*old(self)
            }),
    {
        self.selection_mode = SelectionMode::Block;
        self.block_anchor = Some(Position2D { line, column });
    }

    /// Clear block selection and return to normal mode
    pub fn clear_block_selection(&mut self)
        ensures
            *final(self) == (Cursor {
                selection_mode: SelectionMode::Normal,
                block_anchor: None,
                ..*old(self)
            }),
    {
        self.selection_mode = SelectionMode::Normal;
        self.block_anchor = None;
    }

    /// The cursor after `move_to(position, extend_selection)`.
    pub open spec fn spec_moved(self, position: ViewPosition, extend_selection: bool) -> Cursor {
        if extend_selection {
            Cursor {
                position,
                anchor: if self.anchor is None { Some(self.position) } else { self.anchor },
                ..self
            }
        } else if self.selection_mode == SelectionMode::Block {
            Cursor {
                position,
                anchor: None,
                selection_mode: SelectionMode::Normal,
                block_anchor: None,
                ..self
            }
        } else {
            Cursor { position, anchor: None, ..self }
        }
    }

    /// Move to a position, optionally extending selection
    pub fn move_to(&mut self, position: ViewPosition, extend_selection: bool)
        ensures
            *final(self) == old(self).spec_moved(position, extend_selection),
    {
        if extend_selection {
            if self.anchor.is_none() {
                self.anchor = Some(self.position);
            }
        } else {
            self.anchor = None;
            if self.selection_mode == SelectionMode::Block {
                self.selection_mode = SelectionMode::Normal;
                self.block_anchor = None;
            }
        }
        self.position = position;
    }

    /// Adjust cursor position after an edit
    ///
    /// `edit_pos` is the byte position where the edit occurred, `old_len` the
    /// length of the removed text and `new_len` the length of the inserted text.
    /// The view line is recomputed when the layout is rebuilt.
    pub fn adjust_for_edit(&mut self, edit_pos: usize, old_len: usize, new_len: usize)
        requires
            old(self).edit_fits(edit_pos as int, old_len as int, new_len as int),
        ensures
            *final(self) == old(self).spec_adjusted(edit_pos as int, old_len as int, new_len as int),
    {
        if let Some(byte) = self.position.source_byte {
            let nb = Self::adjust_byte(byte, edit_pos, old_len, new_len);
            self.position.source_byte = Some(nb);
            self.position.column = nb;
        }
        if let Some(anchor) = self.anchor {
            if let Some(byte) = anchor.source_byte {
                let nb = Self::adjust_byte(byte, edit_pos, old_len, new_len);
                self.anchor = Some(
                    ViewPosition { view_line: anchor.view_line, column: nb, source_byte: Some(nb) },
                );
            }
        }
    }

    /// Helper to adjust a byte position for an edit
    pub fn adjust_byte(byte: usize, edit_pos: usize, old_len: usize, new_len: usize) -> (r: usize)
        requires
            adjust_fits(byte as int, edit_pos as int, old_len as int, new_len as int),
        ensures
            r == spec_adjust_byte(byte as int, edit_pos as int, old_len as int, new_len as int),
    {
        if byte < edit_pos {
            byte
        } else if byte < edit_pos + old_len {
            edit_pos
        } else {
            byte - old_len + new_len
        }
    }

    pub fn source_byte(&self) -> (r: Option<usize>)
        ensures
            r == self.position.source_byte,
    {
        self.position.source_byte
    }

    pub fn set_source_byte(&mut self, byte: Option<usize>)
        ensures
            *final(self) == (Cursor {
                position: ViewPosition { source_byte: byte, ..old(self).position },
                ..*old(self)
            }),
    {
        self.position.source_byte = byte;
    }

    /// Get the column of the cursor
    pub fn column(&self) -> (r: usize)
        ensures
            r == self.position.column,
    {
        self.position.column
    }

    /// Get the view line of the cursor
    pub fn view_line(&self) -> (r: usize)
        ensures
            r == self.position.view_line,
    {
        self.position.view_line
    }
}


/// The map from cursor ids to cursors described by a list of entries
/// (a later entry for the same id wins).
pub open spec fn entries_map(s: Seq<(CursorId, Cursor)>) -> Map<CursorId, Cursor>
    decreases s.len(),
{
    if s.len() == 0 {
        Map::empty()
    } else {
        entries_map(s.drop_last()).insert(s.last().0, s.last().1)
    }
}

/// No id occurs twice in the entry list.
pub open spec fn ids_distinct(s: Seq<(CursorId, Cursor)>) -> bool {
    forall|i: int, j: int| 0 <= i < j < s.len() ==> s[i].0 != s[j].0
}

/// Domain, values and size of the map of an entry list.
pub proof fn lemma_entries_map(s: Seq<(CursorId, Cursor)>)
    ensures
        entries_map(s).dom().finite(),
        forall|k: CursorId| #[trigger] entries_map(s).dom().contains(k) <==> exists|i: int|
            0 <= i < s.len() && s[i].0 == k,
        ids_distinct(s) ==> forall|i: int| 0 <= i < s.len() ==> #[trigger] entries_map(s)[s[i].0] == s[i].1,
        ids_distinct(s) ==> entries_map(s).len() == s.len(),
    decreases s.len(),
{
    if s.len() > 0 {
        let t = s.drop_last();
        lemma_entries_map(t);
        assert forall|k: CursorId| #[trigger] entries_map(s).dom().contains(k) implies exists|i: int|
            0 <= i < s.len() && s[i].0 == k by {
            if k != s.last().0 {
                let i = choose|i: int| 0 <= i < t.len() && t[i].0 == k;
                assert(s[i].0 == k);
            } else {
                assert(s[s.len() - 1].0 == k);
            }
        }
        assert forall|k: CursorId| (exists|i: int| 0 <= i < s.len() && s[i].0 == k) implies
            #[trigger] entries_map(s).dom().contains(k) by {
            let i = choose|i: int| 0 <= i < s.len() && s[i].0 == k;
            if i < s.len() - 1 {
                assert(t[i].0 == k);
            }
        }
        if ids_distinct(s) {
            assert(ids_distinct(t));
            assert(!entries_map(t).dom().contains(s.last().0)) by {
                if entries_map(t).dom().contains(s.last().0) {
                    let i = choose|i: int| 0 <= i < t.len() && t[i].0 == s.last().0;
                    assert(s[i].0 == s[s.len() - 1].0);
                }
            }
            assert forall|i: int| 0 <= i < s.len() implies #[trigger] entries_map(s)[s[i].0] == s[i].1 by {
                if i < s.len() - 1 {
                    assert(t[i] == s[i]);
                    assert(entries_map(t)[t[i].0] == t[i].1);
                }
            }
        }
    }
}

/// Replacing the cursor of entry `i`, whatever the new cursor, updates the map at that entry's id.
pub proof fn lemma_entries_update_all(s: Seq<(CursorId, Cursor)>, i: int)
    requires
        ids_distinct(s),
        0 <= i < s.len(),
    ensures
        forall|c: Cursor| #![trigger s.update(i, (s[i].0, c))]
            ids_distinct(s.update(i, (s[i].0, c))) && entries_map(s.update(i, (s[i].0, c)))
                == entries_map(s).insert(s[i].0, c),
{
    assert forall|c: Cursor| #![trigger s.update(i, (s[i].0, c))]
        ids_distinct(s.update(i, (s[i].0, c))) && entries_map(s.update(i, (s[i].0, c)))
            == entries_map(s).insert(s[i].0, c) by {
        lemma_entries_update(s, i, c);
    }
}

/// Replacing the cursor of entry `i` updates the map at that entry's id.
pub proof fn lemma_entries_update(s: Seq<(CursorId, Cursor)>, i: int, c: Cursor)
    requires
        ids_distinct(s),
        0 <= i < s.len(),
    ensures
        ids_distinct(s.update(i, (s[i].0, c))),
        entries_map(s.update(i, (s[i].0, c))) == entries_map(s).insert(s[i].0, c),
{
    let u = s.update(i, (s[i].0, c));
    assert(ids_distinct(u)) by {
        assert forall|a: int, b: int| 0 <= a < b < u.len() implies u[a].0 != u[b].0 by {
            assert(u[a].0 == s[a].0 && u[b].0 == s[b].0);
        }
    }
    lemma_entries_map(s);
    lemma_entries_map(u);
    let m = entries_map(s).insert(s[i].0, c);
    assert forall|k: CursorId| entries_map(u).dom().contains(k) == m.dom().contains(k) by {
        if entries_map(u).dom().contains(k) {
            let j = choose|j: int| 0 <= j < u.len() && u[j].0 == k;
            assert(s[j].0 == k);
        }
        if m.dom().contains(k) && k != s[i].0 {
            let j = choose|j: int| 0 <= j < s.len() && s[j].0 == k;
            assert(u[j].0 == k);
        }
        if k == s[i].0 {
            assert(u[i].0 == k);
        }
    }
    assert forall|k: CursorId| entries_map(u).dom().contains(k) implies entries_map(u)[k] == m[k] by {
        let j = choose|j: int| 0 <= j < u.len() && u[j].0 == k;
        assert(entries_map(u)[u[j].0] == u[j].1);
        if j != i {
            assert(entries_map(s)[s[j].0] == s[j].1);
        }
    }
    assert(entries_map(u) =~= m);
}

/// Dropping entry `i` removes that entry's id from the map.
pub proof fn lemma_entries_remove(s: Seq<(CursorId, Cursor)>, i: int)
    requires
        ids_distinct(s),
        0 <= i < s.len(),
    ensures
        ids_distinct(s.remove(i)),
        entries_map(s.remove(i)) == entries_map(s).remove(s[i].0),
{
    let u = s.remove(i);
    assert(ids_distinct(u)) by {
        assert forall|a: int, b: int| 0 <= a < b < u.len() implies u[a].0 != u[b].0 by {
            let a2 = if a < i { a } else { a + 1 };
            let b2 = if b < i { b } else { b + 1 };
            assert(u[a] == s[a2] && u[b] == s[b2]);
        }
    }
    lemma_entries_map(s);
    lemma_entries_map(u);
    let m = entries_map(s).remove(s[i].0);
    assert forall|k: CursorId| entries_map(u).dom().contains(k) == m.dom().contains(k) by {
        if entries_map(u).dom().contains(k) {
            let j = choose|j: int| 0 <= j < u.len() && u[j].0 == k;
            let j2 = if j < i { j } else { j + 1 };
            assert(s[j2].0 == k);
            assert(j2 != i);
        }
        if m.dom().contains(k) {
            let j = choose|j: int| 0 <= j < s.len() && s[j].0 == k;
            assert(j != i);
            let j2 = if j < i { j } else { j - 1 };
            assert(u[j2].0 == k);
        }
    }
    assert forall|k: CursorId| entries_map(u).dom().contains(k) implies entries_map(u)[k] == m[k] by {
        let j = choose|j: int| 0 <= j < u.len() && u[j].0 == k;
        let j2 = if j < i { j } else { j + 1 };
        assert(u[j] == s[j2]);
        assert(entries_map(u)[u[j].0] == u[j].1);
        assert(entries_map(s)[s[j2].0] == s[j2].1);
    }
    assert(entries_map(u) =~= m);
}

/// Abstract state of a cursor collection.
pub struct CursorsView {
    pub cursors: Map<CursorId, Cursor>,
    pub primary_id: CursorId,
    pub next_id: nat,
}

/// Collection of cursors with multi-cursor support
#[derive(Debug)]
pub struct Cursors {
    /// Cursor entries, one per id
    cursors: Vec<(CursorId, Cursor)>,
    /// Next available cursor ID
    next_id: usize,
    /// Primary cursor ID (the most recently added/active one)
    primary_id: CursorId,
}

impl View for Cursors {
    type V = CursorsView;

    closed spec fn view(&self) -> CursorsView {
        CursorsView {
            cursors: entries_map(self.cursors@),
            primary_id: self.primary_id,
            next_id: self.next_id as nat,
        }
    }
}

/// The cursor a fresh collection starts with, at the beginning of the document.
pub open spec fn spec_origin_cursor() -> Cursor {
    spec_new_cursor(ViewPosition { view_line: 0, column: 0, source_byte: Some(0) })
}

impl Cursors {
    /// Internal consistency: ids are distinct and below `next_id`, and the
    /// primary cursor exists.
    pub closed spec fn wf(&self) -> bool {
        &&& ids_distinct(self.cursors@)
        &&& forall|i: int| 0 <= i < self.cursors@.len() ==> (#[trigger] self.cursors@[i]).0.0 < self.next_id
        &&& entries_map(self.cursors@).dom().contains(self.primary_id)
    }

    /// Consequences of consistency that callers rely on.
    pub proof fn lemma_wf(&self)
        requires
            self.wf(),
        ensures
            self@.cursors.dom().finite(),
            self@.cursors.dom().contains(self@.primary_id),
            self@.cursors.len() > 0,
            forall|id: CursorId| #[trigger] self@.cursors.dom().contains(id) ==> id.0 < self@.next_id,
    {
        lemma_entries_map(self.cursors@);
        assert forall|id: CursorId| #[trigger] self@.cursors.dom().contains(id) implies id.0 < self@.next_id by {
            let i = choose|i: int| 0 <= i < self.cursors@.len() && self.cursors@[i].0 == id;
            assert(self.cursors@[i].0.0 < self.next_id);
        }
    }

    /// Create a new cursor collection with one cursor at view (0,0)
    pub fn new() -> (r: Self)
        ensures
            r.wf(),
            r@.cursors == map![CursorId(0) => spec_origin_cursor()],
            r@.primary_id == CursorId(0),
            r@.next_id == 1,
    {
        let primary_id = CursorId(0);
        let mut cursors: Vec<(CursorId, Cursor)> = Vec::new();
        cursors.push((primary_id, Cursor::new(ViewPosition { view_line: 0, column: 0, source_byte: Some(0) })));
        let r = Self { cursors, next_id: 1, primary_id };
        proof {
            let s = r.cursors@;
            assert(s.drop_last() =~= Seq::<(CursorId, Cursor)>::empty());
            assert(entries_map(Seq::<(CursorId, Cursor)>::empty()) == Map::<CursorId, Cursor>::empty());
            assert(entries_map(s) =~= map![CursorId(0) => spec_origin_cursor()]);
        }
        r
    }

    /// Index of the entry for `id`, if any.
    fn find_index(&self, id: CursorId) -> (r: Option<usize>)
        requires
            self.wf(),
        ensures
            match r {
                Some(i) => i < self.cursors@.len() && self.cursors@[i as int].0 == id,
                None => !self@.cursors.dom().contains(id),
            },
    {
        let n = self.cursors.len();
        let mut i: usize = 0;
        while i < n
            invariant
                n == self.cursors@.len(),
                i <= n,
                forall|j: int| 0 <= j < i ==> self.cursors@[j].0 != id,
            decreases n - i,
        {
            if self.cursors[i].0 == id {
                return Some(i);
            }
            i += 1;
        }
        proof {
            lemma_entries_map(self.cursors@);
        }
        None
    }

    /// Get the primary cursor
    pub fn primary(&self) -> (r: &Cursor)
        requires
            self.wf(),
        ensures
            *r == self@.cursors[self@.primary_id],
    {
        let i = self.find_index(self.primary_id).unwrap();
        proof {
            lemma_entries_map(self.cursors@);
        }
        &self.cursors[i].1
    }

    /// Get the primary cursor mutably
    pub fn primary_mut(&mut self) -> (r: &mut Cursor)
        requires
            old(self).wf(),
        ensures
            *r == old(self)@.cursors[old(self)@.primary_id],
            final(self).wf(),
            final(self)@ == (CursorsView {
                cursors: old(self)@.cursors.insert(old(self)@.primary_id, *final(r)),
                ..old(self)@
            }),
    {
        let i = self.find_index(self.primary_id).unwrap();
        proof {
            lemma_entries_map(self.cursors@);
            lemma_entries_update_all(self.cursors@, i as int);
        }
        &mut self.cursors[i].1
    }

    /// Get the primary cursor ID
    pub fn primary_id(&self) -> (r: CursorId)
        ensures
            r == self@.primary_id,
    {
        self.primary_id
    }

    /// Get a cursor by ID
    pub fn get(&self, id: CursorId) -> (r: Option<&Cursor>)
        requires
            self.wf(),
        ensures
            match r {
                Some(c) => self@.cursors.dom().contains(id) && *c == self@.cursors[id],
                None => !self@.cursors.dom().contains(id),
            },
    {
        match self.find_index(id) {
            Some(i) => {
                proof {
                    lemma_entries_map(self.cursors@);
                }
                Some(&self.cursors[i].1)
            },
            None => None,
        }
    }

    /// Get a cursor by ID mutably
    pub fn get_mut(&mut self, id: CursorId) -> (r: Option<&mut Cursor>)
        requires
            old(self).wf(),
        ensures
            final(self).wf(),
            match r {
                Some(c) => {
                    &&& old(self)@.cursors.dom().contains(id)
                    &&& *c == old(self)@.cursors[id]
                    &&& final(self)@ == (CursorsView {
                        cursors: old(self)@.cursors.insert(id, *final(c)),
                        ..old(self)@
                    })
                },
                None => !old(self)@.cursors.dom().contains(id) && final(self)@ == old(self)@,
            },
    {
        match self.find_index(id) {
            Some(i) => {
                proof {
                    lemma_entries_map(self.cursors@);
                    lemma_entries_update_all(self.cursors@, i as int);
                }
                Some(&mut self.cursors[i].1)
            },
            None => None,
        }
    }

    /// The entries in the collection's own order.
    pub closed spec fn entries(&self) -> Seq<(CursorId, Cursor)> {
        self.cursors@
    }

    /// All cursors with their ids, each id once.
    pub fn iter(&self) -> (r: Vec<(CursorId, Cursor)>)
        requires
            self.wf(),
        ensures
            r@ == self.entries(),
            ids_distinct(r@),
            entries_map(r@) == self@.cursors,
            r@.len() == self@.cursors.len(),
    {
        proof {
            lemma_entries_map(self.cursors@);
        }
        let mut r: Vec<(CursorId, Cursor)> = Vec::new();
        let n = self.cursors.len();
        let mut i: usize = 0;
        while i < n
            invariant
                n == self.cursors@.len(),
                i <= n,
                r@ == self.cursors@.take(i as int),
            decreases n - i,
        {
            r.push(self.cursors[i]);
            i += 1;
            proof {
                assert(r@ =~= self.cursors@.take(i as int));
            }
        }
        proof {
            assert(r@ =~= self.cursors@);
        }
        r
    }

    /// Number of cursors.
    pub fn len(&self) -> (r: usize)
        requires
            self.wf(),
        ensures
            r == self@.cursors.len(),
    {
        proof {
            lemma_entries_map(self.cursors@);
        }
        self.cursors.len()
    }

    /// True if no cursors (never the case for a consistent collection).
    pub fn is_empty(&self) -> (r: bool)
        requires
            self.wf(),
        ensures
            r == (self@.cursors.len() == 0),
            !r,
    {
        proof {
            self.lemma_wf();
        }
        self.len() == 0
    }

    /// Alias for len() for callers expecting count.
    pub fn count(&self) -> (r: usize)
        requires
            self.wf(),
        ensures
            r == self@.cursors.len(),
    {
        self.len()
    }

    /// Add a new cursor and return its ID; the new cursor becomes primary.
    pub fn add(&mut self, cursor: Cursor) -> (id: CursorId)
        requires
            old(self).wf(),
            old(self)@.next_id < usize::MAX,
        ensures
            final(self).wf(),
            id.0 == old(self)@.next_id,
            !old(self)@.cursors.dom().contains(id),
            final(self)@ == (CursorsView {
                cursors: old(self)@.cursors.insert(id, cursor),
                primary_id: id,
                next_id: old(self)@.next_id + 1,
            }),
    {
        proof {
            self.lemma_wf();
        }
        let id = CursorId(self.next_id);
        let ghost old_s = self.cursors@;
        self.next_id = self.next_id + 1;
        self.cursors.push((id, cursor));
        self.primary_id = id;
        proof {
            let s = self.cursors@;
            assert(s.drop_last() =~= old_s);
            assert(ids_distinct(s)) by {
                assert forall|a: int, b: int| 0 <= a < b < s.len() implies s[a].0 != s[b].0 by {
                    if b == s.len() - 1 {
                        assert(old_s[a].0.0 < old(self).next_id);
                    }
                }
            }
            lemma_entries_map(s);
        }
        id
    }

    /// Insert a cursor with a specific ID (for undo/redo); it becomes primary
    /// and replaces any cursor with the same ID.
    pub fn insert_with_id(&mut self, id: CursorId, cursor: Cursor)
        requires
            old(self).wf(),
            id.0 < usize::MAX,
        ensures
            final(self).wf(),
            final(self)@ == (CursorsView {
                cursors: old(self)@.cursors.insert(id, cursor),
                primary_id: id,
                next_id: if old(self)@.next_id >= id.0 + 1 { old(self)@.next_id } else { (id.0 + 1) as nat },
            }),
    {
        proof {
            lemma_entries_map(self.cursors@);
        }
        match self.find_index(id) {
            Some(i) => {
                proof {
                    lemma_entries_update(self.cursors@, i as int, cursor);
                }
                self.cursors.set(i, (id, cursor));
            },
            None => {
                let ghost old_s = self.cursors@;
                self.cursors.push((id, cursor));
                proof {
                    let s = self.cursors@;
                    assert(s.drop_last() =~= old_s);
                    assert(ids_distinct(s)) by {
                        assert forall|a: int, b: int| 0 <= a < b < s.len() implies s[a].0 != s[b].0 by {
                            if b == s.len() - 1 {
                                assert(old_s[a] == s[a]);
                                if old_s[a].0 == id {
                                    assert(entries_map(old_s).dom().contains(id));
                                }
                            }
                        }
                    }
                }
            },
        }
        self.primary_id = id;
        if self.next_id < id.0 + 1 {
            self.next_id = id.0 + 1;
        }
        proof {
            lemma_entries_map(self.cursors@);
        }
    }

    /// Remove a cursor by ID. If the primary cursor is removed, another cursor
    /// becomes primary; if none is left, a fresh cursor at the start of the
    /// document takes the removed ID, so a collection is never empty.
    pub fn remove(&mut self, id: CursorId)
        requires
            old(self).wf(),
            id == old(self)@.primary_id && old(self)@.cursors.remove(id).len() == 0 ==> id.0 < usize::MAX,
        ensures
            final(self).wf(),
            id != old(self)@.primary_id ==> final(self)@ == (CursorsView {
                cursors: old(self)@.cursors.remove(id),
                ..old(self)@
            }),
            id == old(self)@.primary_id && old(self)@.cursors.remove(id).len() > 0 ==> {
                &&& final(self)@.cursors == old(self)@.cursors.remove(id)
                &&& final(self)@.cursors.dom().contains(final(self)@.primary_id)
                &&& final(self)@.next_id == old(self)@.next_id
            },
            id == old(self)@.primary_id && old(self)@.cursors.remove(id).len() == 0 ==>
                final(self)@ == (CursorsView {
                    cursors: map![id => spec_origin_cursor()],
                    primary_id: id,
                    next_id: (id.0 + 1) as nat,
                }),
    {
        proof {
            lemma_entries_map(self.cursors@);
        }
        if let Some(i) = self.find_index(id) {
            proof {
                lemma_entries_remove(self.cursors@, i as int);
            }
            self.cursors.remove(i);
        }
        proof {
            lemma_entries_map(self.cursors@);
            assert(entries_map(self.cursors@) =~= entries_map(old(self).cursors@).remove(id));
            lemma_entries_map(old(self).cursors@);
            if old(self)@.cursors.dom().contains(id) {
                assert(old(self)@.cursors.remove(id).len() == old(self)@.cursors.len() - 1);
            }
        }
        if self.primary_id == id {
            if self.cursors.len() > 0 {
                self.primary_id = self.cursors[0].0;
                proof {
                    assert(self.cursors@[0].0 == self.primary_id);
                }
            } else {
                let ghost old_s = self.cursors@;
                proof {
                    assert(entries_map(old_s) =~= Map::<CursorId, Cursor>::empty());
                }
                self.cursors.push(
                    (id, Cursor::new(ViewPosition { view_line: 0, column: 0, source_byte: Some(0) })),
                );
                self.primary_id = id;
                self.next_id = id.0 + 1;
                proof {
                    let s = self.cursors@;
                    assert(s.drop_last() =~= old_s);
                    assert(old_s =~= Seq::<(CursorId, Cursor)>::empty());
                    assert(entries_map(Seq::<(CursorId, Cursor)>::empty()) == Map::<CursorId, Cursor>::empty());
                    assert(entries_map(s) =~= map![id => spec_origin_cursor()]);
                }
            }
        }
    }

    /// Normalize cursor order; view-based cursors need a layout to sort, so the
    /// collection is left as it is.
    pub fn normalize(&mut self)
        ensures
            *final(self) == *old(self),
    {
    }

    /// Adjust all cursors after an edit.
    pub fn adjust_for_edit(&mut self, edit_pos: usize, old_len: usize, new_len: usize)
        requires
            old(self).wf(),
            forall|id: CursorId| #[trigger] old(self)@.cursors.dom().contains(id)
                ==> old(self)@.cursors[id].edit_fits(edit_pos as int, old_len as int, new_len as int),
        ensures
            final(self).wf(),
            final(self)@.primary_id == old(self)@.primary_id,
            final(self)@.next_id == old(self)@.next_id,
            final(self)@.cursors.dom() == old(self)@.cursors.dom(),
            forall|id: CursorId| #[trigger] final(self)@.cursors.dom().contains(id)
                ==> final(self)@.cursors[id] == old(self)@.cursors[id].spec_adjusted(
                    edit_pos as int, old_len as int, new_len as int),
            final(self).entries().map_values(|e: (CursorId, Cursor)| e.0)
                == old(self).entries().map_values(|e: (CursorId, Cursor)| e.0),
    {
        let ghost s0 = self.cursors@;
        proof {
            lemma_entries_map(s0);
            assert forall|j: int| 0 <= j < s0.len() implies (#[trigger] s0[j]).1.edit_fits(
                edit_pos as int, old_len as int, new_len as int) by {
                assert(entries_map(s0).dom().contains(s0[j].0));
            }
        }
        let n = self.cursors.len();
        let mut i: usize = 0;
        while i < n
            invariant
                n == self.cursors@.len(),
                n == s0.len(),
                i <= n,
                ids_distinct(s0),
                self.next_id == old(self).next_id,
                self.primary_id == old(self).primary_id,
                forall|j: int| 0 <= j < s0.len() ==> (#[trigger] s0[j]).0.0 < self.next_id,
                forall|j: int| 0 <= j < s0.len() ==> (#[trigger] s0[j]).1.edit_fits(
                    edit_pos as int, old_len as int, new_len as int),
                forall|j: int| 0 <= j < n ==> (#[trigger] self.cursors@[j]).0 == s0[j].0,
                forall|j: int| 0 <= j < i ==> (#[trigger] self.cursors@[j]).1 == s0[j].1.spec_adjusted(
                    edit_pos as int, old_len as int, new_len as int),
                forall|j: int| i <= j < n ==> (#[trigger] self.cursors@[j]).1 == s0[j].1,
            decreases n - i,
        {
            let (cid, mut c) = self.cursors[i];
            proof {
                assert(s0[i as int].1.edit_fits(edit_pos as int, old_len as int, new_len as int));
            }
            c.adjust_for_edit(edit_pos, old_len, new_len);
            self.cursors.set(i, (cid, c));
            i += 1;
        }
        proof {
            let s = self.cursors@;
            assert(s.map_values(|e: (CursorId, Cursor)| e.0) =~= s0.map_values(|e: (CursorId, Cursor)| e.0));
            assert(ids_distinct(s)) by {
                assert forall|a: int, b: int| 0 <= a < b < s.len() implies s[a].0 != s[b].0 by {
                    assert(s[a].0 == s0[a].0 && s[b].0 == s0[b].0);
                }
            }
            lemma_entries_map(s);
            assert forall|k: CursorId| entries_map(s).dom().contains(k) == entries_map(s0).dom().contains(k) by {
                if entries_map(s).dom().contains(k) {
                    let j = choose|j: int| 0 <= j < s.len() && s[j].0 == k;
                    assert(s0[j].0 == k);
                }
                if entries_map(s0).dom().contains(k) {
                    let j = choose|j: int| 0 <= j < s0.len() && s0[j].0 == k;
                    assert(s[j].0 == k);
                }
            }
            assert(entries_map(s).dom() =~= entries_map(s0).dom());
            assert forall|k: CursorId| #[trigger] entries_map(s).dom().contains(k) implies entries_map(s)[k]
                == entries_map(s0)[k].spec_adjusted(edit_pos as int, old_len as int, new_len as int) by {
                let j = choose|j: int| 0 <= j < s.len() && s[j].0 == k;
                assert(entries_map(s)[s[j].0] == s[j].1);
                assert(entries_map(s0)[s0[j].0] == s0[j].1);
            }
            assert forall|j: int| 0 <= j < s.len() implies (#[trigger] s[j]).0.0 < self.next_id by {
                assert(s0[j].0.0 < self.next_id);
            }
        }
    }
}

/// A position with its view line and column taken from the layout, where the
/// layout shows its source byte; otherwise the position as it is.
pub open spec fn spec_synced_position(p: ViewPosition, lines: Seq<ViewLine>) -> ViewPosition {
    match p.source_byte {
        Some(b) => match spec_source_byte_to_view_position(lines, b) {
            Some(lc) => ViewPosition { view_line: lc.0, column: lc.1, source_byte: p.source_byte },
            None => p,
        },
        None => p,
    }
}

/// A synced position is the old one, or lies within the layout.
pub proof fn lemma_synced_in_layout(p: ViewPosition, lines: Seq<ViewLine>)
    ensures
        spec_synced_position(p, lines) == p || (spec_synced_position(p, lines).view_line < lines.len()
            && spec_synced_position(p, lines).column
            <= lines[spec_synced_position(p, lines).view_line as int].char_mappings@.len()),
{
}

impl Cursor {
    /// The cursor with its position and anchor synced to the layout.
    pub open spec fn spec_synced(self, lines: Seq<ViewLine>) -> Cursor {
        Cursor {
            position: spec_synced_position(self.position, lines),
            anchor: match self.anchor {
                Some(a) => Some(spec_synced_position(a, lines)),
                None => None,
            },
            ..self
        }
    }
}

/// `p` synced to the layout.
fn synced_position(p: ViewPosition, layout: &Layout) -> (r: ViewPosition)
    ensures
        r == spec_synced_position(p, layout.lines@),
{
    match p.source_byte {
        Some(b) => match layout.source_byte_to_view_position(b) {
            Some((l, c)) => ViewPosition { view_line: l, column: c, source_byte: p.source_byte },
            None => p,
        },
        None => p,
    }
}

impl Cursors {
    /// Take each cursor's view line and column (and its anchor's) from the
    /// layout, where the layout shows the cursor's source byte.
    pub fn sync_view_positions(&mut self, layout: &Layout)
        requires
            old(self).wf(),
        ensures
            final(self).wf(),
            final(self)@.primary_id == old(self)@.primary_id,
            final(self)@.next_id == old(self)@.next_id,
            final(self).entries() == old(self).entries().map_values(
                |e: (CursorId, Cursor)| (e.0, e.1.spec_synced(layout.lines@))),
            final(self)@.cursors.dom() == old(self)@.cursors.dom(),
            forall|id: CursorId| #[trigger] final(self)@.cursors.dom().contains(id)
                ==> final(self)@.cursors[id] == old(self)@.cursors[id].spec_synced(layout.lines@),
    {
        let ghost s0 = self.cursors@;
        let ghost lines = layout.lines@;
        proof {
            lemma_entries_map(s0);
        }
        let n = self.cursors.len();
        let mut i: usize = 0;
        while i < n
            invariant
                n == self.cursors@.len(),
                n == s0.len(),
                i <= n,
                lines == layout.lines@,
                ids_distinct(s0),
                self.next_id == old(self).next_id,
                self.primary_id == old(self).primary_id,
                forall|j: int| 0 <= j < s0.len() ==> (#[trigger] s0[j]).0.0 < self.next_id,
                forall|j: int| 0 <= j < n ==> (#[trigger] self.cursors@[j]).0 == s0[j].0,
                forall|j: int| 0 <= j < i ==> (#[trigger] self.cursors@[j]).1 == s0[j].1.spec_synced(lines),
                forall|j: int| i <= j < n ==> (#[trigger] self.cursors@[j]).1 == s0[j].1,
            decreases n - i,
        {
            let (cid, mut c) = self.cursors[i];
            c.position = synced_position(c.position, layout);
            c.anchor = match c.anchor {
                Some(a) => Some(synced_position(a, layout)),
                None => None,
            };
            self.cursors.set(i, (cid, c));
            i += 1;
        }
        proof {
            let s = self.cursors@;
            assert(s =~= s0.map_values(|e: (CursorId, Cursor)| (e.0, e.1.spec_synced(lines))));
            assert(ids_distinct(s)) by {
                assert forall|a: int, b: int| 0 <= a < b < s.len() implies s[a].0 != s[b].0 by {
                    assert(s[a].0 == s0[a].0 && s[b].0 == s0[b].0);
                }
            }
            lemma_entries_map(s);
            assert forall|k: CursorId| entries_map(s).dom().contains(k) == entries_map(s0).dom().contains(k) by {
                if entries_map(s).dom().contains(k) {
                    let j = choose|j: int| 0 <= j < s.len() && s[j].0 == k;
                    assert(s0[j].0 == k);
                }
                if entries_map(s0).dom().contains(k) {
                    let j = choose|j: int| 0 <= j < s0.len() && s0[j].0 == k;
                    assert(s[j].0 == k);
                }
            }
            assert(entries_map(s).dom() =~= entries_map(s0).dom());
            assert forall|k: CursorId| #[trigger] entries_map(s).dom().contains(k) implies entries_map(s)[k]
                == entries_map(s0)[k].spec_synced(lines) by {
                let j = choose|j: int| 0 <= j < s.len() && s[j].0 == k;
                assert(entries_map(s)[s[j].0] == s[j].1);
                assert(entries_map(s0)[s0[j].0] == s0[j].1);
            }
            assert forall|j: int| 0 <= j < s.len() implies (#[trigger] s[j]).0.0 < self.next_id by {
                assert(s0[j].0.0 < self.next_id);
            }
        }
    }
}


impl Clone for Cursors {
    fn clone(&self) -> (r: Self)
        ensures
            r@ == self@,
            r.wf() == self.wf(),
            r.entries() == self.entries(),
    {
        let mut v: Vec<(CursorId, Cursor)> = Vec::new();
        let n = self.cursors.len();
        let mut i: usize = 0;
        while i < n
            invariant
                n == self.cursors@.len(),
                i <= n,
                v@ == self.cursors@.take(i as int),
            decreases n - i,
        {
            v.push(self.cursors[i]);
            i += 1;
            proof {
                assert(v@ =~= self.cursors@.take(i as int));
            }
        }
        proof {
            assert(v@ =~= self.cursors@);
        }
        Cursors { cursors: v, next_id: self.next_id, primary_id: self.primary_id }
    }
}

/// Inserting `n` bytes at `p` and then deleting those `n` bytes again leaves
/// every byte offset where it was.
pub proof fn law_insert_then_delete_restores_byte(byte: int, p: int, n: int)
    requires
        byte >= 0,
        p >= 0,
        n >= 0,
    ensures
        spec_adjust_byte(spec_adjust_byte(byte, p, 0, n), p, n, 0) == byte,
{
}

/// An edit never moves an offset that lies before the edit position, and an
/// offset at or after the end of the removed text moves by exactly the change
/// in length.
pub proof fn law_adjust_byte_shift(byte: int, p: int, old_len: int, new_len: int)
    requires
        byte >= 0,
        p >= 0,
        old_len >= 0,
        new_len >= 0,
    ensures
        byte < p ==> spec_adjust_byte(byte, p, old_len, new_len) == byte,
        byte >= p + old_len ==> spec_adjust_byte(byte, p, old_len, new_len) == byte + (new_len - old_len),
        p <= byte < p + old_len ==> spec_adjust_byte(byte, p, old_len, new_len) == p,
{
}

/// Adjusting for an edit preserves the relative order of offsets (it is monotone).
pub proof fn law_adjust_byte_monotone(a: int, b: int, p: int, old_len: int, new_len: int)
    requires
        0 <= a <= b,
        p >= 0,
        old_len >= 0,
        new_len >= 0,
    ensures
        spec_adjust_byte(a, p, old_len, new_len) <= spec_adjust_byte(b, p, old_len, new_len),
{
}

/// The selection of a cursor is normalized: it spans the anchor and the
/// position, in view order, whichever comes first.
pub proof fn law_selection_normalized(c: Cursor)
    requires
        c.anchor is Some,
    ensures
        c.spec_selection_range() matches Some(s) && !view_before(s.end, s.start) && (
            (s.start == c.anchor->0 && s.end == c.position)
            || (s.start == c.position && s.end == c.anchor->0)),
{
}

/// After `old_len` bytes at `edit_pos` are replaced by `new_len` bytes, a
/// cursor's position and its selection anchor move alike: each one with a
/// source byte `b` lands, on its view line, at the byte (and column) `b` when
/// `b` is before the edit, `edit_pos` when `b` was inside the replaced bytes,
/// and `b - old_len + new_len` when `b` was after them; one without a source
/// byte, and everything else about the cursor, stays as it was.
pub proof fn law_edit_moves_position_and_anchor(c: Cursor, e: int, o: int, n: int)
    ensures
        match c.position.source_byte {
            Some(b) => c.spec_adjusted(e, o, n).position == (ViewPosition {
                view_line: c.position.view_line,
                column: (if b < e { b as int } else if b < e + o { e } else { b - o + n }) as usize,
                source_byte: Some((if b < e { b as int } else if b < e + o { e } else { b - o + n }) as usize),
            }),
            None => c.spec_adjusted(e, o, n).position == c.position,
        },
        match c.anchor {
            Some(a) => match a.source_byte {
                Some(b) => c.spec_adjusted(e, o, n).anchor == Some(ViewPosition {
                    view_line: a.view_line,
                    column: (if b < e { b as int } else if b < e + o { e } else { b - o + n }) as usize,
                    source_byte: Some((if b < e { b as int } else if b < e + o { e } else { b - o + n }) as usize),
                }),
                None => c.spec_adjusted(e, o, n).anchor == c.anchor,
            },
            None => c.spec_adjusted(e, o, n).anchor is None,
        },
        c.spec_adjusted(e, o, n).preferred_visual_column == c.preferred_visual_column,
        c.spec_adjusted(e, o, n).sticky_column == c.sticky_column,
        c.spec_adjusted(e, o, n).selection_mode == c.selection_mode,
        c.spec_adjusted(e, o, n).block_anchor == c.block_anchor,
        c.spec_adjusted(e, o, n).deselect_on_move == c.deselect_on_move,
{
}

/// Text inserted at or before both ends of a selection moves the whole
/// selection by the inserted length: it still covers the same text.
pub proof fn law_insert_before_selection_keeps_it(c: Cursor, e: int, n: int, a: usize, b: usize)
    requires
        c.edit_fits(e, 0, n),
        0 <= e,
        0 <= n,
        c.anchor matches Some(an) && an.source_byte == Some(a),
        c.position.source_byte == Some(b),
        e <= a,
        e <= b,
    ensures
        c.spec_adjusted(e, 0, n).anchor matches Some(an2) && an2.source_byte == Some((a + n) as usize),
        c.spec_adjusted(e, 0, n).position.source_byte == Some((b + n) as usize),
        (b + n) - (a + n) == b - a,
{
}

} // verus!
