//! The editor's buffer registry and its composite-buffer actions.

use vstd::prelude::*;
use crate::composite_buffer::{
    BufferId, SplitId, CompositeBuffer, CompositeLayout, CompositeViewState, LineAlignment, SourcePane,
    DiffHunk, GutterStyle, PaneStyle, clamp, hunks_fit, rows_view, spec_from_hunks,
};
use crate::state::EditorState;
use crate::overlay::{Overlay, OverlayFace, OverlayHandle, OverlayNamespace, without_handle};
use crate::text_buffer::count_newlines;
use crate::action::Action;
use crate::action_convert::{nav_fits, spec_action_events, spec_action_viewport};
use crate::cursor::{Cursor, Cursors, lemma_synced_in_layout};
use crate::event::{CursorId, Event};
use crate::view_pipeline::{Layout, ViewLine};
use crate::split_content::copy_viewport;
use crate::viewport::Viewport;
use crate::draw::Rect;

verus! {

/// What the editor shows about a buffer (in its tab).
pub struct BufferMetadata {
    pub display_name: String,
    /// The mode of a virtual buffer (one with no file behind it).
    pub virtual_mode: Option<String>,
    pub read_only: bool,
}

impl BufferMetadata {
    /// Metadata of a virtual buffer named `name` in mode `mode`.
    pub fn virtual_buffer(name: String, mode: String, read_only: bool) -> (r: Self)
        ensures
            r.display_name@ == name@,
            r.virtual_mode matches Some(m) && m@ == mode@,
            r.read_only == read_only,
    {
        BufferMetadata { display_name: name, virtual_mode: Some(mode), read_only }
    }
}

/// Entry `i` of `s` is the composite buffer `id`.
pub open spec fn composite_at(s: Seq<CompositeBuffer>, id: BufferId, i: int) -> bool {
    0 <= i < s.len() && s[i].id == id
}

pub open spec fn has_composite(s: Seq<CompositeBuffer>, id: BufferId) -> bool {
    exists|i: int| #[trigger] composite_at(s, id, i)
}

/// Entry `i` of `s` is the view state of composite `id` in split `split`.
pub open spec fn view_state_at(s: Seq<(SplitId, CompositeViewState)>, split: SplitId, id: BufferId, i: int) -> bool {
    0 <= i < s.len() && s[i].0 == split && s[i].1.buffer_id == id
}

pub open spec fn has_view_state(s: Seq<(SplitId, CompositeViewState)>, split: SplitId, id: BufferId) -> bool {
    exists|i: int| #[trigger] view_state_at(s, split, id, i)
}

pub open spec fn metadata_at(s: Seq<(BufferId, BufferMetadata)>, id: BufferId, i: int) -> bool {
    0 <= i < s.len() && s[i].0 == id
}

pub open spec fn has_metadata(s: Seq<(BufferId, BufferMetadata)>, id: BufferId) -> bool {
    exists|i: int| #[trigger] metadata_at(s, id, i)
}

pub open spec fn buffer_at(s: Seq<(BufferId, EditorState)>, id: BufferId, i: int) -> bool {
    0 <= i < s.len() && s[i].0 == id
}

/// What a split shows of the active buffer: its cursors in view coordinates,
/// its viewport, and the layout last built for it.
pub struct SplitView {
    pub cursors: Cursors,
    pub viewport: Viewport,
    pub layout: Layout,
}

impl SplitView {
    /// The layout and the viewport leave room for navigation arithmetic.
    pub open spec fn ready(&self) -> bool {
        &&& self.layout.lines@.len() + 0x10000 <= isize::MAX
        &&& forall|l: int| 0 <= l < self.layout.lines@.len()
            ==> (#[trigger] self.layout.lines@[l]).char_mappings@.len() < isize::MAX
        &&& self.viewport.top_view_line < isize::MAX
    }
}

/// Entry `i` is the first view of split `id`.
pub open spec fn split_view_at(s: Seq<(SplitId, SplitView)>, id: SplitId, i: int) -> bool {
    0 <= i < s.len() && s[i].0 == id && forall|j: int| 0 <= j < i ==> s[j].0 != id
}

/// Entry `i` is the first text buffer `id`.
pub open spec fn first_buffer_at(s: Seq<(BufferId, EditorState)>, id: BufferId, i: int) -> bool {
    buffer_at(s, id, i) && forall|j: int| 0 <= j < i ==> s[j].0 != id
}

/// The cursor entries of `cs` synced to the layout `lines`.
pub open spec fn synced_entries(cs: Cursors, lines: Seq<ViewLine>) -> Seq<(CursorId, Cursor)> {
    cs.entries().map_values(|e: (CursorId, Cursor)| (e.0, e.1.spec_synced(lines)))
}

/// A buffer's view cursors are consistent and leave room for navigation arithmetic.
pub open spec fn cursors_ready(st: EditorState) -> bool {
    &&& st.view_cursors.wf()
    &&& forall|i: int| 0 <= i < st.view_cursors.entries().len()
        ==> nav_fits(#[trigger] st.view_cursors.entries()[i].1.position)
}

/// A split's viewport with the buffer viewport's width and height.
pub open spec fn sized_viewport(vp: Viewport, from: Viewport) -> Viewport {
    Viewport { width: from.width, height: from.height, ..vp }
}

/// The editor: its text buffers, their metadata, and its composite buffers
/// with their per-split view states. Buffer ids come from one counter.
pub struct Editor {
    pub buffers: Vec<(BufferId, EditorState)>,
    pub buffer_metadata: Vec<(BufferId, BufferMetadata)>,
    pub composite_buffers: Vec<CompositeBuffer>,
    pub composite_view_states: Vec<(SplitId, CompositeViewState)>,
    pub next_buffer_id: usize,
    /// The buffer that edits and overlays go to.
    pub active_buffer: BufferId,
    /// The split that takes actions.
    pub active_split: SplitId,
    /// Each split's view of the active buffer.
    pub split_view_states: Vec<(SplitId, SplitView)>,
}

impl Editor {
    /// Ids are unique in each table and all were handed out by the counter.
    pub open spec fn wf(&self) -> bool {
        &&& forall|i: int, j: int| 0 <= i < j < self.composite_buffers@.len()
            ==> (#[trigger] self.composite_buffers@[i]).id != (#[trigger] self.composite_buffers@[j]).id
        &&& forall|i: int| 0 <= i < self.composite_buffers@.len()
            ==> (#[trigger] self.composite_buffers@[i]).id.0 < self.next_buffer_id
                && self.composite_buffers@[i].wf()
        &&& forall|i: int, j: int| 0 <= i < j < self.composite_view_states@.len()
            ==> !((#[trigger] self.composite_view_states@[i]).0 == (#[trigger] self.composite_view_states@[j]).0
                && self.composite_view_states@[i].1.buffer_id == self.composite_view_states@[j].1.buffer_id)
        &&& forall|i: int, j: int| 0 <= i < j < self.buffer_metadata@.len()
            ==> (#[trigger] self.buffer_metadata@[i]).0 != (#[trigger] self.buffer_metadata@[j]).0
        &&& forall|i: int| 0 <= i < self.buffer_metadata@.len()
            ==> (#[trigger] self.buffer_metadata@[i]).0.0 < self.next_buffer_id
        &&& forall|i: int, j: int| 0 <= i < j < self.buffers@.len()
            ==> (#[trigger] self.buffers@[i]).0 != (#[trigger] self.buffers@[j]).0
        &&& forall|i: int| 0 <= i < self.buffers@.len() ==> (#[trigger] self.buffers@[i]).0.0 < self.next_buffer_id
    }

    /// An editor with no buffers.
    pub fn new() -> (r: Self)
        ensures
            r.wf(),
            r.buffers@.len() == 0,
            r.buffer_metadata@.len() == 0,
            r.composite_buffers@.len() == 0,
            r.composite_view_states@.len() == 0,
            r.next_buffer_id == 0,
            r.active_buffer == BufferId(0),
            r.active_split == SplitId(0),
            r.split_view_states@.len() == 0,
    {
        Editor {
            buffers: Vec::new(),
            buffer_metadata: Vec::new(),
            composite_buffers: Vec::new(),
            composite_view_states: Vec::new(),
            next_buffer_id: 0,
            active_buffer: BufferId(0),
            active_split: SplitId(0),
            split_view_states: Vec::new(),
        }
    }

    /// Register a text buffer with its metadata under a fresh id.
    pub fn add_buffer(&mut self, state: EditorState, metadata: BufferMetadata) -> (r: BufferId)
        requires
            old(self).wf(),
            old(self).next_buffer_id < usize::MAX,
        ensures
            final(self).wf(),
            r.0 == old(self).next_buffer_id,
            final(self).next_buffer_id == old(self).next_buffer_id + 1,
            final(self).active_split == old(self).active_split,
            final(self).split_view_states == old(self).split_view_states,
            final(self).buffers@ == old(self).buffers@.push((r, state)),
            final(self).buffer_metadata@ == old(self).buffer_metadata@.push((r, metadata)),
            final(self).composite_buffers@ == old(self).composite_buffers@,
            final(self).composite_view_states@ == old(self).composite_view_states@,
            final(self).active_buffer == old(self).active_buffer,
    {
        let id = BufferId(self.next_buffer_id);
        self.next_buffer_id = self.next_buffer_id + 1;
        self.buffers.push((id, state));
        self.buffer_metadata.push((id, metadata));
        id
    }

    /// Index of composite buffer `id`.
    fn find_composite(&self, buffer_id: BufferId) -> (r: Option<usize>)
        ensures
            match r {
                Some(i) => composite_at(self.composite_buffers@, buffer_id, i as int),
                None => !has_composite(self.composite_buffers@, buffer_id),
            },
    {
        let n = self.composite_buffers.len();
        let mut i: usize = 0;
        while i < n
            invariant
                n == self.composite_buffers@.len(),
                i <= n,
                forall|j: int| 0 <= j < i ==> self.composite_buffers@[j].id != buffer_id,
            decreases n - i,
        {
            if self.composite_buffers[i].id == buffer_id {
                return Some(i);
            }
            i += 1;
        }
        None
    }

    /// Index of the view state of composite `id` in split `split`.
    fn find_view_state(&self, split_id: SplitId, buffer_id: BufferId) -> (r: Option<usize>)
        ensures
            match r {
                Some(i) => view_state_at(self.composite_view_states@, split_id, buffer_id, i as int),
                None => !has_view_state(self.composite_view_states@, split_id, buffer_id),
            },
    {
        let n = self.composite_view_states.len();
        let mut i: usize = 0;
        while i < n
            invariant
                n == self.composite_view_states@.len(),
                i <= n,
                forall|j: int| 0 <= j < i ==> !view_state_at(self.composite_view_states@, split_id, buffer_id, j),
            decreases n - i,
        {
            if self.composite_view_states[i].0 == split_id && self.composite_view_states[i].1.buffer_id == buffer_id {
                return Some(i);
            }
            i += 1;
        }
        None
    }

    /// Whether `buffer_id` is a composite buffer.
    pub fn is_composite_buffer(&self, buffer_id: BufferId) -> (r: bool)
        ensures
            r == has_composite(self.composite_buffers@, buffer_id),
    {
        self.find_composite(buffer_id).is_some()
    }

    /// The composite buffer `buffer_id`, if there is one.
    pub fn get_composite(&self, buffer_id: BufferId) -> (r: Option<&CompositeBuffer>)
        ensures
            match r {
                Some(c) => exists|i: int| composite_at(self.composite_buffers@, buffer_id, i) && *c == self.composite_buffers@[i],
                None => !has_composite(self.composite_buffers@, buffer_id),
            },
    {
        match self.find_composite(buffer_id) {
            Some(i) => Some(&self.composite_buffers[i]),
            None => None,
        }
    }

    /// The composite buffer `buffer_id` for changing, if there is one.
    pub fn get_composite_mut(&mut self, buffer_id: BufferId) -> (r: Option<&mut CompositeBuffer>)
        ensures
            match r {
                Some(c) => exists|i: int| composite_at(old(self).composite_buffers@, buffer_id, i)
                    && *c == old(self).composite_buffers@[i]
                    && final(self).composite_buffers@ == old(self).composite_buffers@.update(i, *final(c)),
                None => !has_composite(old(self).composite_buffers@, buffer_id)
                    && final(self).composite_buffers@ == old(self).composite_buffers@,
            },
            final(self).buffers == old(self).buffers,
            final(self).buffer_metadata == old(self).buffer_metadata,
            final(self).composite_view_states == old(self).composite_view_states,
            final(self).next_buffer_id == old(self).next_buffer_id,
            final(self).active_split == old(self).active_split,
            final(self).split_view_states == old(self).split_view_states,
            final(self).active_buffer == old(self).active_buffer,
    {
        match self.find_composite(buffer_id) {
            Some(i) => Some(&mut self.composite_buffers[i]),
            None => None,
        }
    }
}


/// The first hunk header strictly after row `after` is row `i`.
pub open spec fn is_next_hunk(rows: Seq<crate::composite_buffer::AlignedRow>, after: int, i: int) -> bool {
    after < i < rows.len() && rows[i].row_type == crate::composite_buffer::RowType::HunkHeader
        && forall|j: int| after < j < i ==> rows[j].row_type != crate::composite_buffer::RowType::HunkHeader
}

/// The last hunk header strictly before row `before` is row `i`.
pub open spec fn is_prev_hunk(rows: Seq<crate::composite_buffer::AlignedRow>, before: int, i: int) -> bool {
    0 <= i < before && i < rows.len() && rows[i].row_type == crate::composite_buffer::RowType::HunkHeader
        && forall|j: int| i < j < before && j < rows.len() ==> rows[j].row_type != crate::composite_buffer::RowType::HunkHeader
}

/// `c` with its alignment replaced.
pub open spec fn with_alignment(c: CompositeBuffer, a: LineAlignment) -> CompositeBuffer {
    CompositeBuffer { alignment: a, ..c }
}

/// `c` with pane `p` focused.
pub open spec fn with_active_pane(c: CompositeBuffer, p: int) -> CompositeBuffer {
    CompositeBuffer { active_pane: p as usize, ..c }
}

/// `v` scrolled to row `row`.
pub open spec fn with_scroll_row(v: CompositeViewState, row: int) -> CompositeViewState {
    CompositeViewState { scroll_row: row as usize, ..v }
}

/// The highest row a composite buffer can scroll to.
pub open spec fn max_scroll_row(c: CompositeBuffer) -> int {
    if c.alignment.rows@.len() == 0 { 0 } else { c.alignment.rows@.len() - 1 }
}

impl Editor {
    /// The view state of composite `buffer_id` in split `split_id`, created
    /// (scrolled to the top) when it does not exist yet; `None` when
    /// `buffer_id` is not a composite buffer.
    pub fn get_composite_view_state(&mut self, split_id: SplitId, buffer_id: BufferId) -> (r: Option<&mut CompositeViewState>)
        ensures
            final(self).buffers == old(self).buffers,
            final(self).buffer_metadata == old(self).buffer_metadata,
            final(self).composite_buffers == old(self).composite_buffers,
            final(self).next_buffer_id == old(self).next_buffer_id,
            final(self).active_split == old(self).active_split,
            final(self).split_view_states == old(self).split_view_states,
            final(self).active_buffer == old(self).active_buffer,
            match r {
                None => !has_composite(old(self).composite_buffers@, buffer_id)
                    && final(self).composite_view_states@ == old(self).composite_view_states@,
                Some(vs) => has_composite(old(self).composite_buffers@, buffer_id) && if has_view_state(old(self).composite_view_states@, split_id, buffer_id) {
                    exists|i: int| view_state_at(old(self).composite_view_states@, split_id, buffer_id, i)
                        && *vs == old(self).composite_view_states@[i].1
                        && final(self).composite_view_states@ == old(self).composite_view_states@.update(i, (split_id, *final(vs)))
                } else {
                    (exists|j: int| composite_at(old(self).composite_buffers@, buffer_id, j)
                        && *vs == CompositeViewState::new_spec(buffer_id, old(self).composite_buffers@[j].sources@.len() as usize))
                    && final(self).composite_view_states@ == old(self).composite_view_states@.push((split_id, *final(vs)))
                },
            },
    {
        let ci = match self.find_composite(buffer_id) {
            Some(i) => i,
            None => return None,
        };
        let pane_count = self.composite_buffers[ci].pane_count();
        let vi = match self.find_view_state(split_id, buffer_id) {
            Some(i) => i,
            None => {
                self.composite_view_states.push((split_id, CompositeViewState::new(buffer_id, pane_count)));
                self.composite_view_states.len() - 1
            },
        };
        Some(&mut self.composite_view_states[vi].1)
    }

    /// Create a composite buffer under a fresh id and register its metadata
    /// (a read-only virtual buffer); returns the new id.
    pub fn create_composite_buffer(&mut self, name: String, mode: String, layout: CompositeLayout, sources: Vec<SourcePane>) -> (r: BufferId)
        requires
            old(self).wf(),
            old(self).next_buffer_id < usize::MAX,
        ensures
            final(self).wf(),
            r.0 == old(self).next_buffer_id,
            final(self).next_buffer_id == old(self).next_buffer_id + 1,
            final(self).active_split == old(self).active_split,
            final(self).split_view_states == old(self).split_view_states,
            final(self).composite_buffers@.len() == old(self).composite_buffers@.len() + 1,
            final(self).composite_buffers@.drop_last() == old(self).composite_buffers@,
            ({
                let c = final(self).composite_buffers@.last();
                &&& c.id == r
                &&& c.name@ == name@
                &&& c.mode@ == mode@
                &&& c.layout == layout
                &&& c.sources@ == sources@
                &&& c.alignment.rows@.len() == 0
                &&& c.active_pane == 0
            }),
            final(self).buffer_metadata@.len() == old(self).buffer_metadata@.len() + 1,
            final(self).buffer_metadata@.drop_last() == old(self).buffer_metadata@,
            ({
                let m = final(self).buffer_metadata@.last();
                &&& m.0 == r
                &&& m.1.display_name@ == name@
                &&& m.1.virtual_mode matches Some(md) && md@ == mode@
                &&& m.1.read_only
            }),
            final(self).buffers == old(self).buffers,
            final(self).composite_view_states == old(self).composite_view_states,
            final(self).active_buffer == old(self).active_buffer,
    {
        let buffer_id = BufferId(self.next_buffer_id);
        self.next_buffer_id = self.next_buffer_id + 1;
        let composite = CompositeBuffer::new(buffer_id, name.clone(), mode.clone(), layout, sources);
        self.composite_buffers.push(composite);
        let metadata = BufferMetadata::virtual_buffer(name, mode, true);
        self.buffer_metadata.push((buffer_id, metadata));
        proof {
            assert(self.composite_buffers@.drop_last() =~= old(self).composite_buffers@);
            assert(self.buffer_metadata@.drop_last() =~= old(self).buffer_metadata@);
            let cb = self.composite_buffers@;
            assert forall|i: int, j: int| 0 <= i < j < cb.len() implies (#[trigger] cb[i]).id != (#[trigger] cb[j]).id by {
                if j == cb.len() - 1 {
                    assert(cb[i] == old(self).composite_buffers@[i]);
                } else {
                    assert(cb[i] == old(self).composite_buffers@[i]);
                    assert(cb[j] == old(self).composite_buffers@[j]);
                }
            }
            assert forall|i: int| 0 <= i < cb.len() implies (#[trigger] cb[i]).id.0 < self.next_buffer_id && cb[i].wf() by {
                if i < cb.len() - 1 {
                    assert(cb[i] == old(self).composite_buffers@[i]);
                }
            }
            let md = self.buffer_metadata@;
            assert forall|i: int, j: int| 0 <= i < j < md.len() implies (#[trigger] md[i]).0 != (#[trigger] md[j]).0 by {
                assert(md[i] == old(self).buffer_metadata@[i]);
                if j < md.len() - 1 {
                    assert(md[j] == old(self).buffer_metadata@[j]);
                }
            }
            assert forall|i: int| 0 <= i < md.len() implies (#[trigger] md[i]).0.0 < self.next_buffer_id by {
                if i < md.len() - 1 {
                    assert(md[i] == old(self).buffer_metadata@[i]);
                }
            }
        }
        buffer_id
    }

    /// Replace the row alignment of composite `buffer_id` (nothing happens
    /// when there is no such composite buffer).
    pub fn set_composite_alignment(&mut self, buffer_id: BufferId, alignment: LineAlignment)
        requires
            old(self).wf(),
        ensures
            final(self).wf(),
            if has_composite(old(self).composite_buffers@, buffer_id) {
                exists|i: int| composite_at(old(self).composite_buffers@, buffer_id, i)
                    && final(self).composite_buffers@ == old(self).composite_buffers@.update(i, with_alignment(old(self).composite_buffers@[i], alignment))
            } else {
                final(self).composite_buffers@ == old(self).composite_buffers@
            },
            final(self).buffers == old(self).buffers,
            final(self).buffer_metadata == old(self).buffer_metadata,
            final(self).composite_view_states == old(self).composite_view_states,
            final(self).next_buffer_id == old(self).next_buffer_id,
            final(self).active_split == old(self).active_split,
            final(self).split_view_states == old(self).split_view_states,
            final(self).active_buffer == old(self).active_buffer,
    {
        if let Some(i) = self.find_composite(buffer_id) {
            let ghost before = self.composite_buffers@;
            self.composite_buffers[i].set_alignment(alignment);
            proof {
                assert(self.composite_buffers@ =~= before.update(i as int, with_alignment(before[i as int], alignment)));
                let cb = self.composite_buffers@;
                assert forall|a: int, b: int| 0 <= a < b < cb.len() implies (#[trigger] cb[a]).id != (#[trigger] cb[b]).id by {
                    assert(cb[a].id == before[a].id && cb[b].id == before[b].id);
                }
                assert forall|a: int| 0 <= a < cb.len() implies (#[trigger] cb[a]).id.0 < self.next_buffer_id && cb[a].wf() by {
                    assert(cb[a].id == before[a].id && cb[a].active_pane == before[a].active_pane && cb[a].sources == before[a].sources);
                }
            }
        }
    }
}

/// The editor is unchanged apart from its composite buffers.
pub open spec fn only_composites_changed(a: Editor, b: Editor) -> bool {
    a.buffers == b.buffers && a.buffer_metadata == b.buffer_metadata
        && a.composite_view_states == b.composite_view_states && a.next_buffer_id == b.next_buffer_id
        && a.active_buffer == b.active_buffer && a.active_split == b.active_split
        && a.split_view_states == b.split_view_states
}

/// The editor is unchanged apart from its composite view states.
pub open spec fn only_view_states_changed(a: Editor, b: Editor) -> bool {
    a.buffers == b.buffers && a.buffer_metadata == b.buffer_metadata
        && a.composite_buffers == b.composite_buffers && a.next_buffer_id == b.next_buffer_id
        && a.active_buffer == b.active_buffer && a.active_split == b.active_split
        && a.split_view_states == b.split_view_states
}

/// View states of buffers other than `id`, in order.
pub open spec fn views_without(s: Seq<(SplitId, CompositeViewState)>, id: BufferId) -> Seq<(SplitId, CompositeViewState)> {
    s.filter(|e: (SplitId, CompositeViewState)| e.1.buffer_id != id)
}

impl Editor {
    /// Index of the metadata entry of `buffer_id`.
    fn find_metadata(&self, buffer_id: BufferId) -> (r: Option<usize>)
        ensures
            match r {
                Some(i) => metadata_at(self.buffer_metadata@, buffer_id, i as int),
                None => !has_metadata(self.buffer_metadata@, buffer_id),
            },
    {
        let n = self.buffer_metadata.len();
        let mut i: usize = 0;
        while i < n
            invariant
                n == self.buffer_metadata@.len(),
                i <= n,
                forall|j: int| 0 <= j < i ==> self.buffer_metadata@[j].0 != buffer_id,
            decreases n - i,
        {
            if self.buffer_metadata[i].0 == buffer_id {
                return Some(i);
            }
            i += 1;
        }
        None
    }

    /// Close composite `buffer_id`: drop it, its metadata and all its view states.
    pub fn close_composite_buffer(&mut self, buffer_id: BufferId)
        requires
            old(self).wf(),
        ensures
            final(self).wf(),
            if has_composite(old(self).composite_buffers@, buffer_id) {
                exists|i: int| composite_at(old(self).composite_buffers@, buffer_id, i)
                    && final(self).composite_buffers@ == old(self).composite_buffers@.remove(i)
            } else {
                final(self).composite_buffers@ == old(self).composite_buffers@
            },
            if has_metadata(old(self).buffer_metadata@, buffer_id) {
                exists|i: int| metadata_at(old(self).buffer_metadata@, buffer_id, i)
                    && final(self).buffer_metadata@ == old(self).buffer_metadata@.remove(i)
            } else {
                final(self).buffer_metadata@ == old(self).buffer_metadata@
            },
            final(self).composite_view_states@ == views_without(old(self).composite_view_states@, buffer_id),
            final(self).buffers == old(self).buffers,
            final(self).next_buffer_id == old(self).next_buffer_id,
            final(self).active_split == old(self).active_split,
            final(self).split_view_states == old(self).split_view_states,
            final(self).active_buffer == old(self).active_buffer,
    {
        let ghost old_cb = self.composite_buffers@;
        let ghost old_md = self.buffer_metadata@;
        if let Some(i) = self.find_composite(buffer_id) {
            self.composite_buffers.remove(i);
            proof {
                let cb = self.composite_buffers@;
                assert(cb =~= old_cb.remove(i as int));
                assert forall|a: int, b: int| 0 <= a < b < cb.len() implies (#[trigger] cb[a]).id != (#[trigger] cb[b]).id by {
                    let a2 = if a < i { a } else { a + 1 };
                    let b2 = if b < i { b } else { b + 1 };
                    assert(cb[a] == old_cb[a2] && cb[b] == old_cb[b2]);
                }
                assert forall|a: int| 0 <= a < cb.len() implies (#[trigger] cb[a]).id.0 < self.next_buffer_id && cb[a].wf() by {
                    let a2 = if a < i { a } else { a + 1 };
                    assert(cb[a] == old_cb[a2]);
                }
            }
        }
        if let Some(i) = self.find_metadata(buffer_id) {
            self.buffer_metadata.remove(i);
            proof {
                let md = self.buffer_metadata@;
                assert(md =~= old_md.remove(i as int));
                assert forall|a: int, b: int| 0 <= a < b < md.len() implies (#[trigger] md[a]).0 != (#[trigger] md[b]).0 by {
                    let a2 = if a < i { a } else { a + 1 };
                    let b2 = if b < i { b } else { b + 1 };
                    assert(md[a] == old_md[a2] && md[b] == old_md[b2]);
                }
                assert forall|a: int| 0 <= a < md.len() implies (#[trigger] md[a]).0.0 < self.next_buffer_id by {
                    let a2 = if a < i { a } else { a + 1 };
                    assert(md[a] == old_md[a2]);
                }
            }
        }
        let ghost old_vs = self.composite_view_states@;
        let ghost pred = |e: (SplitId, CompositeViewState)| e.1.buffer_id != buffer_id;
        let n = self.composite_view_states.len();
        let mut kept: Vec<(SplitId, CompositeViewState)> = Vec::new();
        let mut k: usize = 0;
        while k < n
            invariant
                n == old_vs.len(),
                self.composite_view_states@ == old_vs,
                k <= n,
                kept@ == old_vs.subrange(0, k as int).filter(pred),
                pred == (|e: (SplitId, CompositeViewState)| e.1.buffer_id != buffer_id),
            decreases n - k,
        {
            let e = self.composite_view_states[k];
            proof {
                assert(old_vs.subrange(0, k + 1) =~= old_vs.subrange(0, k as int).push(e));
                old_vs.subrange(0, k as int).lemma_filter_push(e, pred);
            }
            if e.1.buffer_id != buffer_id {
                kept.push(e);
            }
            k += 1;
        }
        proof {
            assert(old_vs.subrange(0, n as int) =~= old_vs);
            // kept entries are a subsequence of the old ones, so their keys stay distinct
            old_vs.filter_lemma(pred);
            let vs = kept@;
            assert forall|a: int, b: int| 0 <= a < b < vs.len() implies !((#[trigger] vs[a]).0 == (#[trigger] vs[b]).0
                && vs[a].1.buffer_id == vs[b].1.buffer_id) by {
                lemma_filter_distinct_keys(old_vs, pred, a, b);
            }
        }
        self.composite_view_states = kept;
    }
}

/// Two entries of a filtered sequence come from two different entries of the original.
proof fn lemma_filter_distinct_keys(s: Seq<(SplitId, CompositeViewState)>, pred: spec_fn((SplitId, CompositeViewState)) -> bool, a: int, b: int)
    requires
        0 <= a < b < s.filter(pred).len(),
        forall|i: int, j: int| 0 <= i < j < s.len() ==> !((#[trigger] s[i]).0 == (#[trigger] s[j]).0 && s[i].1.buffer_id == s[j].1.buffer_id),
    ensures
        !(s.filter(pred)[a].0 == s.filter(pred)[b].0 && s.filter(pred)[a].1.buffer_id == s.filter(pred)[b].1.buffer_id),
    decreases s.len(),
{
    reveal(Seq::filter);
    let t = s.drop_last();
    assert forall|i: int, j: int| 0 <= i < j < t.len() implies !((#[trigger] t[i]).0 == (#[trigger] t[j]).0 && t[i].1.buffer_id == t[j].1.buffer_id) by {
        assert(t[i] == s[i] && t[j] == s[j]);
    }
    let ft = t.filter(pred);
    if pred(s.last()) && b == s.filter(pred).len() - 1 {
        // the last entry against an earlier one
        t.filter_lemma(pred);
        assert(s.filter(pred) == ft.push(s.last()));
        assert(s.filter(pred)[a] == ft[a]);
        assert(ft.contains(ft[a]));
        t.lemma_filter_contains_rev(pred, ft[a]);
        assert(t.contains(ft[a]));
        let i = choose|i: int| 0 <= i < t.len() && t[i] == ft[a];
        assert(s[i] == t[i]);
        assert(s[s.len() - 1] == s.last());
    } else {
        if pred(s.last()) {
            assert(s.filter(pred) == ft.push(s.last()));
            assert(s.filter(pred)[a] == ft[a] && s.filter(pred)[b] == ft[b]);
        } else {
            assert(s.filter(pred) == ft);
        }
        lemma_filter_distinct_keys(t, pred, a, b);
    }
}

impl Editor {
    /// Focus the next pane of composite `buffer_id` (wrapping around).
    pub fn composite_focus_next(&mut self, buffer_id: BufferId)
        requires
            old(self).wf(),
        ensures
            final(self).wf(),
            only_composites_changed(*final(self), *old(self)),
            if has_composite(old(self).composite_buffers@, buffer_id) {
                exists|i: int| composite_at(old(self).composite_buffers@, buffer_id, i)
                    && final(self).composite_buffers@ == old(self).composite_buffers@.update(i, with_active_pane(
                        old(self).composite_buffers@[i],
                        if old(self).composite_buffers@[i].sources@.len() == 0 {
                            old(self).composite_buffers@[i].active_pane as int
                        } else {
                            (old(self).composite_buffers@[i].active_pane + 1) % (old(self).composite_buffers@[i].sources@.len() as int)
                        },
                    ))
            } else {
                final(self).composite_buffers@ == old(self).composite_buffers@
            },
    {
        if let Some(i) = self.find_composite(buffer_id) {
            let ghost before = self.composite_buffers@;
            proof {
                assert(before[i as int].wf());
            }
            self.composite_buffers[i].focus_next();
            proof {
                let c = before[i as int];
                let np = if c.sources@.len() == 0 { c.active_pane as int } else { (c.active_pane + 1) % (c.sources@.len() as int) };
                assert(self.composite_buffers@ =~= before.update(i as int, with_active_pane(c, np)));
                self.lemma_composites_same_ids(before);
            }
        }
    }

    /// Focus the previous pane of composite `buffer_id` (wrapping around).
    pub fn composite_focus_prev(&mut self, buffer_id: BufferId)
        requires
            old(self).wf(),
        ensures
            final(self).wf(),
            only_composites_changed(*final(self), *old(self)),
            if has_composite(old(self).composite_buffers@, buffer_id) {
                exists|i: int| composite_at(old(self).composite_buffers@, buffer_id, i)
                    && final(self).composite_buffers@ == old(self).composite_buffers@.update(i, with_active_pane(
                        old(self).composite_buffers@[i],
                        if old(self).composite_buffers@[i].sources@.len() == 0 {
                            old(self).composite_buffers@[i].active_pane as int
                        } else {
                            (old(self).composite_buffers@[i].active_pane + old(self).composite_buffers@[i].sources@.len() - 1)
                                % (old(self).composite_buffers@[i].sources@.len() as int)
                        },
                    ))
            } else {
                final(self).composite_buffers@ == old(self).composite_buffers@
            },
    {
        if let Some(i) = self.find_composite(buffer_id) {
            let ghost before = self.composite_buffers@;
            proof {
                assert(before[i as int].wf());
            }
            self.composite_buffers[i].focus_prev();
            proof {
                let c = before[i as int];
                let np = if c.sources@.len() == 0 { c.active_pane as int } else {
                    (c.active_pane + c.sources@.len() - 1) % (c.sources@.len() as int)
                };
                assert(self.composite_buffers@ =~= before.update(i as int, with_active_pane(c, np)));
                self.lemma_composites_same_ids(before);
            }
        }
    }

    /// The composite table keeps the well-formedness of `before` when ids and
    /// each entry's invariant carry over.
    proof fn lemma_composites_same_ids(&self, before: Seq<CompositeBuffer>)
        requires
            self.composite_buffers@.len() == before.len(),
            forall|i: int, j: int| 0 <= i < j < before.len() ==> (#[trigger] before[i]).id != (#[trigger] before[j]).id,
            forall|i: int| 0 <= i < before.len() ==> (#[trigger] before[i]).id.0 < self.next_buffer_id,
            forall|i: int| 0 <= i < before.len() ==> (#[trigger] self.composite_buffers@[i]).id == before[i].id
                && self.composite_buffers@[i].wf(),
            forall|i: int, j: int| 0 <= i < j < self.composite_view_states@.len()
                ==> !((#[trigger] self.composite_view_states@[i]).0 == (#[trigger] self.composite_view_states@[j]).0
                    && self.composite_view_states@[i].1.buffer_id == self.composite_view_states@[j].1.buffer_id),
            forall|i: int, j: int| 0 <= i < j < self.buffer_metadata@.len()
                ==> (#[trigger] self.buffer_metadata@[i]).0 != (#[trigger] self.buffer_metadata@[j]).0,
            forall|i: int| 0 <= i < self.buffer_metadata@.len() ==> (#[trigger] self.buffer_metadata@[i]).0.0 < self.next_buffer_id,
            forall|i: int, j: int| 0 <= i < j < self.buffers@.len() ==> (#[trigger] self.buffers@[i]).0 != (#[trigger] self.buffers@[j]).0,
            forall|i: int| 0 <= i < self.buffers@.len() ==> (#[trigger] self.buffers@[i]).0.0 < self.next_buffer_id,
        ensures
            self.wf(),
    {
        let cb = self.composite_buffers@;
        assert forall|a: int, b: int| 0 <= a < b < cb.len() implies (#[trigger] cb[a]).id != (#[trigger] cb[b]).id by {
            assert(cb[a].id == before[a].id && cb[b].id == before[b].id);
        }
        assert forall|a: int| 0 <= a < cb.len() implies (#[trigger] cb[a]).id.0 < self.next_buffer_id && cb[a].wf() by {
            assert(cb[a].id == before[a].id);
        }
    }

    /// Scroll the view of composite `buffer_id` in split `split_id` to the
    /// next hunk after its current row; whether there was one.
    pub fn composite_next_hunk(&mut self, split_id: SplitId, buffer_id: BufferId) -> (r: bool)
        requires
            old(self).wf(),
        ensures
            final(self).wf(),
            only_view_states_changed(*final(self), *old(self)),
            r == exists|ci: int, vi: int, row: int| composite_at(old(self).composite_buffers@, buffer_id, ci)
                && view_state_at(old(self).composite_view_states@, split_id, buffer_id, vi)
                && is_next_hunk(old(self).composite_buffers@[ci].alignment.rows@, old(self).composite_view_states@[vi].1.scroll_row as int, row),
            r ==> exists|ci: int, vi: int, row: int| composite_at(old(self).composite_buffers@, buffer_id, ci)
                && view_state_at(old(self).composite_view_states@, split_id, buffer_id, vi)
                && is_next_hunk(old(self).composite_buffers@[ci].alignment.rows@, old(self).composite_view_states@[vi].1.scroll_row as int, row)
                && final(self).composite_view_states@ == old(self).composite_view_states@.update(vi,
                    (split_id, with_scroll_row(old(self).composite_view_states@[vi].1, row))),
            !r ==> final(self).composite_view_states@ == old(self).composite_view_states@,
            !r ==> *final(self) == *old(self),
    {
        let ci = match self.find_composite(buffer_id) {
            Some(i) => i,
            None => return false,
        };
        let vi = match self.find_view_state(split_id, buffer_id) {
            Some(i) => i,
            None => return false,
        };
        let mut e = self.composite_view_states[vi];
        match self.composite_buffers[ci].alignment.next_hunk_row(e.1.scroll_row) {
            Some(next_row) => {
                let ghost before = self.composite_view_states@;
                e.1.scroll_row = next_row;
                self.composite_view_states.set(vi, e);
                proof {
                    self.lemma_views_same_keys(before);
                    assert(is_next_hunk(self.composite_buffers@[ci as int].alignment.rows@, before[vi as int].1.scroll_row as int, next_row as int));
                }
                true
            },
            None => {
                proof {
                    let cb = self.composite_buffers@;
                    let vs = self.composite_view_states@;
                    assert forall|c2: int, v2: int, row: int| composite_at(cb, buffer_id, c2) && view_state_at(vs, split_id, buffer_id, v2)
                        implies !is_next_hunk(cb[c2].alignment.rows@, vs[v2].1.scroll_row as int, row) by {
                        assert(c2 == ci);
                        assert(v2 == vi);
                    }
                }
                false
            },
        }
    }

    /// Scroll the view of composite `buffer_id` in split `split_id` to the
    /// previous hunk before its current row; whether there was one.
    pub fn composite_prev_hunk(&mut self, split_id: SplitId, buffer_id: BufferId) -> (r: bool)
        requires
            old(self).wf(),
        ensures
            final(self).wf(),
            only_view_states_changed(*final(self), *old(self)),
            r == exists|ci: int, vi: int, row: int| composite_at(old(self).composite_buffers@, buffer_id, ci)
                && view_state_at(old(self).composite_view_states@, split_id, buffer_id, vi)
                && is_prev_hunk(old(self).composite_buffers@[ci].alignment.rows@, old(self).composite_view_states@[vi].1.scroll_row as int, row),
            r ==> exists|ci: int, vi: int, row: int| composite_at(old(self).composite_buffers@, buffer_id, ci)
                && view_state_at(old(self).composite_view_states@, split_id, buffer_id, vi)
                && is_prev_hunk(old(self).composite_buffers@[ci].alignment.rows@, old(self).composite_view_states@[vi].1.scroll_row as int, row)
                && final(self).composite_view_states@ == old(self).composite_view_states@.update(vi,
                    (split_id, with_scroll_row(old(self).composite_view_states@[vi].1, row))),
            !r ==> final(self).composite_view_states@ == old(self).composite_view_states@,
            !r ==> *final(self) == *old(self),
    {
        let ci = match self.find_composite(buffer_id) {
            Some(i) => i,
            None => return false,
        };
        let vi = match self.find_view_state(split_id, buffer_id) {
            Some(i) => i,
            None => return false,
        };
        let mut e = self.composite_view_states[vi];
        match self.composite_buffers[ci].alignment.prev_hunk_row(e.1.scroll_row) {
            Some(prev_row) => {
                let ghost before = self.composite_view_states@;
                e.1.scroll_row = prev_row;
                self.composite_view_states.set(vi, e);
                proof {
                    self.lemma_views_same_keys(before);
                    assert(is_prev_hunk(self.composite_buffers@[ci as int].alignment.rows@, before[vi as int].1.scroll_row as int, prev_row as int));
                }
                true
            },
            None => {
                proof {
                    let cb = self.composite_buffers@;
                    let vs = self.composite_view_states@;
                    assert forall|c2: int, v2: int, row: int| composite_at(cb, buffer_id, c2) && view_state_at(vs, split_id, buffer_id, v2)
                        implies !is_prev_hunk(cb[c2].alignment.rows@, vs[v2].1.scroll_row as int, row) by {
                        assert(c2 == ci);
                        assert(v2 == vi);
                    }
                }
                false
            },
        }
    }

    /// The view-state table keeps its distinct keys when each entry's key carries over.
    proof fn lemma_views_same_keys(&self, before: Seq<(SplitId, CompositeViewState)>)
        requires
            self.composite_view_states@.len() == before.len(),
            forall|i: int, j: int| 0 <= i < j < before.len()
                ==> !((#[trigger] before[i]).0 == (#[trigger] before[j]).0 && before[i].1.buffer_id == before[j].1.buffer_id),
            forall|i: int| 0 <= i < before.len() ==> (#[trigger] self.composite_view_states@[i]).0 == before[i].0
                && self.composite_view_states@[i].1.buffer_id == before[i].1.buffer_id,
        ensures
            forall|i: int, j: int| 0 <= i < j < self.composite_view_states@.len()
                ==> !((#[trigger] self.composite_view_states@[i]).0 == (#[trigger] self.composite_view_states@[j]).0
                    && self.composite_view_states@[i].1.buffer_id == self.composite_view_states@[j].1.buffer_id),
    {
        let vs = self.composite_view_states@;
        assert forall|a: int, b: int| 0 <= a < b < vs.len() implies !((#[trigger] vs[a]).0 == (#[trigger] vs[b]).0
            && vs[a].1.buffer_id == vs[b].1.buffer_id) by {
            assert(vs[a].0 == before[a].0 && vs[b].0 == before[b].0);
        }
    }

    /// Scroll the view of composite `buffer_id` in split `split_id` by
    /// `delta` rows, within its rows.
    pub fn composite_scroll(&mut self, split_id: SplitId, buffer_id: BufferId, delta: isize)
        requires
            old(self).wf(),
        ensures
            final(self).wf(),
            only_view_states_changed(*final(self), *old(self)),
            if has_composite(old(self).composite_buffers@, buffer_id) && has_view_state(old(self).composite_view_states@, split_id, buffer_id) {
                exists|ci: int, vi: int| composite_at(old(self).composite_buffers@, buffer_id, ci)
                    && view_state_at(old(self).composite_view_states@, split_id, buffer_id, vi)
                    && final(self).composite_view_states@ == old(self).composite_view_states@.update(vi,
                        (split_id, with_scroll_row(old(self).composite_view_states@[vi].1,
                            clamp(old(self).composite_view_states@[vi].1.scroll_row + delta, 0, max_scroll_row(old(self).composite_buffers@[ci])))))
            } else {
                final(self).composite_view_states@ == old(self).composite_view_states@
            },
    {
        let ci = match self.find_composite(buffer_id) {
            Some(i) => i,
            None => return,
        };
        let vi = match self.find_view_state(split_id, buffer_id) {
            Some(i) => i,
            None => return,
        };
        let max_row = self.composite_buffers[ci].row_count().saturating_sub(1);
        let mut e = self.composite_view_states[vi];
        let ghost before = self.composite_view_states@;
        e.1.scroll(delta, max_row);
        self.composite_view_states.set(vi, e);
        proof {
            self.lemma_views_same_keys(before);
            assert(self.composite_view_states@ =~= before.update(vi as int, (split_id, with_scroll_row(before[vi as int].1,
                clamp(before[vi as int].1.scroll_row + delta, 0, max_scroll_row(self.composite_buffers@[ci as int]))))));
        }
    }

    /// Scroll the view of composite `buffer_id` in split `split_id` to
    /// `row`, but no further than its last row.
    pub fn composite_scroll_to(&mut self, split_id: SplitId, buffer_id: BufferId, row: usize)
        requires
            old(self).wf(),
        ensures
            final(self).wf(),
            only_view_states_changed(*final(self), *old(self)),
            if has_composite(old(self).composite_buffers@, buffer_id) && has_view_state(old(self).composite_view_states@, split_id, buffer_id) {
                exists|ci: int, vi: int| composite_at(old(self).composite_buffers@, buffer_id, ci)
                    && view_state_at(old(self).composite_view_states@, split_id, buffer_id, vi)
                    && final(self).composite_view_states@ == old(self).composite_view_states@.update(vi,
                        (split_id, with_scroll_row(old(self).composite_view_states@[vi].1,
                            if row > max_scroll_row(old(self).composite_buffers@[ci]) { max_scroll_row(old(self).composite_buffers@[ci]) } else { row as int })))
            } else {
                final(self).composite_view_states@ == old(self).composite_view_states@
            },
    {
        let ci = match self.find_composite(buffer_id) {
            Some(i) => i,
            None => return,
        };
        let vi = match self.find_view_state(split_id, buffer_id) {
            Some(i) => i,
            None => return,
        };
        let max_row = self.composite_buffers[ci].row_count().saturating_sub(1);
        let mut e = self.composite_view_states[vi];
        let ghost before = self.composite_view_states@;
        e.1.set_scroll_row(row, max_row);
        self.composite_view_states.set(vi, e);
        proof {
            self.lemma_views_same_keys(before);
            let m = max_scroll_row(self.composite_buffers@[ci as int]);
            assert(self.composite_view_states@ =~= before.update(vi as int, (split_id, with_scroll_row(before[vi as int].1,
                if row > m { m } else { row as int }))));
        }
    }
}

/// Layout requested by a plugin: `"stacked"`, `"unified"`, or otherwise side by side.
pub struct CompositeLayoutConfig {
    pub layout_type: String,
    /// Pane widths in percent (side by side).
    pub ratios: Option<Vec<u32>>,
    pub show_separator: bool,
    pub spacing: Option<u16>,
}

/// Style requested by a plugin for a pane; the gutter is named
/// `"diff-markers"`, `"both"`, `"none"`, or otherwise shows line numbers.
pub struct CompositePaneStyle {
    pub add_bg: Option<(u8, u8, u8)>,
    pub remove_bg: Option<(u8, u8, u8)>,
    pub modify_bg: Option<(u8, u8, u8)>,
    pub gutter_style: Option<String>,
}

/// A source pane requested by a plugin.
pub struct CompositeSourceConfig {
    pub buffer_id: usize,
    pub label: String,
    pub editable: bool,
    pub style: Option<CompositePaneStyle>,
}

/// A diff hunk sent by a plugin.
#[derive(Clone, Copy, Debug)]
pub struct CompositeHunk {
    pub old_start: usize,
    pub old_count: usize,
    pub new_start: usize,
    pub new_count: usize,
}

pub open spec fn diff_hunks(hs: Seq<CompositeHunk>) -> Seq<DiffHunk> {
    hs.map_values(|h: CompositeHunk| DiffHunk { old_start: h.old_start, old_count: h.old_count, new_start: h.new_start, new_count: h.new_count })
}

/// The layout that a layout request asks for.
pub open spec fn layout_from_config(l: CompositeLayout, c: CompositeLayoutConfig) -> bool {
    if c.layout_type@ == "stacked"@ {
        l matches CompositeLayout::Stacked { spacing } && spacing == (match c.spacing { Some(sp) => sp, None => 1u16 })
    } else if c.layout_type@ == "unified"@ {
        l is Unified
    } else {
        l matches CompositeLayout::SideBySide { ratios, show_separator } && show_separator == c.show_separator
            && ratios@ == (match c.ratios { Some(r) => r@, None => seq![50u32, 50u32] })
    }
}

pub open spec fn gutter_style_named(name: Option<String>) -> GutterStyle {
    match name {
        Some(n) => if n@ == "diff-markers"@ {
            GutterStyle::DiffMarkers
        } else if n@ == "both"@ {
            GutterStyle::Both
        } else if n@ == "none"@ {
            GutterStyle::Hidden
        } else {
            GutterStyle::LineNumbers
        },
        None => GutterStyle::LineNumbers,
    }
}

/// The pane that a source request asks for.
pub open spec fn pane_from_config(p: SourcePane, c: CompositeSourceConfig) -> bool {
    &&& p.buffer_id == BufferId(c.buffer_id)
    &&& p.label@ == c.label@
    &&& p.editable == c.editable
    &&& p.style == (match c.style {
        Some(st) => PaneStyle { add_bg: st.add_bg, remove_bg: st.remove_bg, modify_bg: st.modify_bg, gutter_style: gutter_style_named(st.gutter_style) },
        None => PaneStyle { add_bg: None, remove_bg: None, modify_bg: None, gutter_style: GutterStyle::LineNumbers },
    })
}

/// Line count of text buffer `id`, or 0 when there is no such buffer (or its count is unknown).
pub open spec fn line_count_or_zero(bufs: Seq<(BufferId, EditorState)>, id: BufferId) -> int {
    if exists|i: int| #[trigger] buffer_at(bufs, id, i) {
        let i = choose|i: int| #[trigger] buffer_at(bufs, id, i);
        if count_newlines(bufs[i].1.buffer@) < usize::MAX { (count_newlines(bufs[i].1.buffer@) + 1) as int } else { 0 }
    } else {
        0
    }
}

fn layout_of_config(c: CompositeLayoutConfig) -> (r: CompositeLayout)
    ensures
        layout_from_config(r, c),
{
    proof {
        reveal_strlit("stacked");
        reveal_strlit("unified");
    }
    if c.layout_type == "stacked".to_string() {
        CompositeLayout::Stacked { spacing: match c.spacing { Some(sp) => sp, None => 1 } }
    } else if c.layout_type == "unified".to_string() {
        CompositeLayout::Unified
    } else {
        let ratios = match c.ratios {
            Some(r) => r,
            None => {
                let mut v: Vec<u32> = Vec::new();
                v.push(50);
                v.push(50);
                proof {
                    assert(v@ =~= seq![50u32, 50u32]);
                }
                v
            },
        };
        CompositeLayout::SideBySide { ratios, show_separator: c.show_separator }
    }
}

fn gutter_style_of(name: &Option<String>) -> (r: GutterStyle)
    ensures
        r == gutter_style_named(*name),
{
    proof {
        reveal_strlit("diff-markers");
        reveal_strlit("both");
        reveal_strlit("none");
    }
    match name {
        Some(n) => if *n == "diff-markers".to_string() {
            GutterStyle::DiffMarkers
        } else if *n == "both".to_string() {
            GutterStyle::Both
        } else if *n == "none".to_string() {
            GutterStyle::Hidden
        } else {
            GutterStyle::LineNumbers
        },
        None => GutterStyle::LineNumbers,
    }
}

fn pane_of_config(c: CompositeSourceConfig) -> (r: SourcePane)
    ensures
        pane_from_config(r, c),
{
    let ghost c0 = c;
    let mut pane = SourcePane::new(BufferId(c.buffer_id), c.label, c.editable);
    if let Some(st) = c.style {
        let gutter_style = gutter_style_of(&st.gutter_style);
        pane.style = PaneStyle { add_bg: st.add_bg, remove_bg: st.remove_bg, modify_bg: st.modify_bg, gutter_style };
    }
    pane
}

fn hunks_of_configs(hs: &Vec<CompositeHunk>) -> (r: Vec<DiffHunk>)
    ensures
        r@ == diff_hunks(hs@),
{
    let n = hs.len();
    let mut out: Vec<DiffHunk> = Vec::new();
    let mut i: usize = 0;
    while i < n
        invariant
            n == hs@.len(),
            i <= n,
            out@ == diff_hunks(hs@.subrange(0, i as int)),
        decreases n - i,
    {
        let h = hs[i];
        out.push(DiffHunk::new(h.old_start, h.old_count, h.new_start, h.new_count));
        i += 1;
        proof {
            assert(out@ =~= diff_hunks(hs@.subrange(0, i as int)));
        }
    }
    proof {
        assert(hs@.subrange(0, n as int) =~= hs@);
    }
    out
}

/// The panes that the source requests ask for, in order.
fn panes_of_configs(source_configs: Vec<CompositeSourceConfig>) -> (sources: Vec<SourcePane>)
    ensures
        sources@.len() == source_configs@.len(),
        forall|q: int| 0 <= q < source_configs@.len() ==> pane_from_config(#[trigger] sources@[q], source_configs@[q]),
{
    let ghost cfgs = source_configs@;
    let n = source_configs.len();
    let mut configs = source_configs;
    let mut sources: Vec<SourcePane> = Vec::new();
    let mut k: usize = 0;
    while configs.len() > 0
        invariant
            n == cfgs.len(),
            k <= n,
            configs@ == cfgs.subrange(k as int, n as int),
            sources@.len() == k,
            forall|q: int| 0 <= q < k ==> pane_from_config(#[trigger] sources@[q], cfgs[q]),
        decreases configs@.len(),
    {
        let c = configs.remove(0);
        proof {
            assert(c == cfgs[k as int]);
            assert(configs@ =~= cfgs.subrange(k + 1, n as int));
        }
        sources.push(pane_of_config(c));
        k += 1;
    }
    sources
}

impl Editor {
    /// Line count of text buffer `buffer_id`, 0 when unknown.
    fn line_count_of(&self, buffer_id: BufferId) -> (r: usize)
        requires
            self.wf(),
        ensures
            r == line_count_or_zero(self.buffers@, buffer_id),
    {
        let n = self.buffers.len();
        let mut i: usize = 0;
        while i < n
            invariant
                n == self.buffers@.len(),
                i <= n,
                self.wf(),
                forall|j: int| 0 <= j < i ==> self.buffers@[j].0 != buffer_id,
            decreases n - i,
        {
            if self.buffers[i].0 == buffer_id {
                proof {
                    assert(buffer_at(self.buffers@, buffer_id, i as int));
                    let k = choose|k: int| #[trigger] buffer_at(self.buffers@, buffer_id, k);
                    assert(k == i) by {
                        if k != i {
                            if k < i {
                                assert(self.buffers@[k].0 != self.buffers@[i as int].0);
                            } else {
                                assert(self.buffers@[i as int].0 != self.buffers@[k].0);
                            }
                        }
                    }
                }
                return match self.buffers[i].1.buffer.line_count() {
                    Some(c) => c,
                    None => 0,
                };
            }
            i += 1;
        }
        0
    }

    /// Create a composite buffer as a plugin asked: convert the layout and
    /// pane requests, and when hunks are given, pair the lines of the first
    /// two panes' buffers by them.
    pub fn handle_create_composite_buffer(
        &mut self,
        name: String,
        mode: String,
        layout_config: CompositeLayoutConfig,
        source_configs: Vec<CompositeSourceConfig>,
        hunks: Option<Vec<CompositeHunk>>,
        request_id: Option<u64>,
    )
        requires
            old(self).wf(),
            old(self).next_buffer_id < usize::MAX,
            hunks matches Some(hs) ==> source_configs@.len() >= 2 && hunks_fit(diff_hunks(hs@)),
        ensures
            final(self).wf(),
            final(self).next_buffer_id == old(self).next_buffer_id + 1,
            final(self).active_split == old(self).active_split,
            final(self).split_view_states == old(self).split_view_states,
            final(self).composite_buffers@.len() == old(self).composite_buffers@.len() + 1,
            final(self).composite_buffers@.drop_last() == old(self).composite_buffers@,
            ({
                let c = final(self).composite_buffers@.last();
                &&& c.id == BufferId(old(self).next_buffer_id)
                &&& c.name@ == name@
                &&& c.mode@ == mode@
                &&& layout_from_config(c.layout, layout_config)
                &&& c.sources@.len() == source_configs@.len()
                &&& forall|k: int| 0 <= k < source_configs@.len() ==> pane_from_config(#[trigger] c.sources@[k], source_configs@[k])
                &&& c.active_pane == 0
                &&& match hunks {
                    None => c.alignment.rows@.len() == 0,
                    Some(hs) => rows_view(c.alignment.rows@) == spec_from_hunks(diff_hunks(hs@),
                        line_count_or_zero(old(self).buffers@, BufferId(source_configs@[0].buffer_id)),
                        line_count_or_zero(old(self).buffers@, BufferId(source_configs@[1].buffer_id))),
                }
            }),
            final(self).buffer_metadata@.len() == old(self).buffer_metadata@.len() + 1,
            final(self).buffer_metadata@.drop_last() == old(self).buffer_metadata@,
            ({
                let m = final(self).buffer_metadata@.last();
                &&& m.0 == BufferId(old(self).next_buffer_id)
                &&& m.1.display_name@ == name@
                &&& m.1.virtual_mode matches Some(md) && md@ == mode@
                &&& m.1.read_only
            }),
            final(self).buffers == old(self).buffers,
            final(self).composite_view_states == old(self).composite_view_states,
            final(self).active_buffer == old(self).active_buffer,
    {
        let layout = layout_of_config(layout_config);
        let sources = panes_of_configs(source_configs);
        let ghost old_buffers = self.buffers@;
        let ghost srcs = sources@;
        let first_two = if sources.len() >= 2 { Some((sources[0].buffer_id, sources[1].buffer_id)) } else { None };
        let buffer_id = self.create_composite_buffer(name, mode, layout, sources);
        if let Some(hunk_configs) = hunks {
            let diff = hunks_of_configs(&hunk_configs);
            let (old_src, new_src) = match first_two {
                Some(p) => p,
                None => (BufferId(0), BufferId(0)),
            };
            let old_line_count = self.line_count_of(old_src);
            let new_line_count = self.line_count_of(new_src);
            let alignment = LineAlignment::from_hunks(diff.as_slice(), old_line_count, new_line_count);
            let ghost before = self.composite_buffers@;
            self.set_composite_alignment(buffer_id, alignment);
            proof {
                let last = before.len() - 1;
                assert(composite_at(before, buffer_id, last));
                let i = choose|i: int| composite_at(before, buffer_id, i)
                    && self.composite_buffers@ == before.update(i, with_alignment(before[i], alignment));
                if i != last {
                    assert(before[i].id != before[last].id);
                }
                assert(self.composite_buffers@.drop_last() =~= before.drop_last());
            }
        }
    }

    /// Re-pair the lines of composite `buffer_id` by new hunks (nothing
    /// happens when there is no such composite buffer).
    pub fn handle_update_composite_alignment(&mut self, buffer_id: BufferId, hunk_configs: Vec<CompositeHunk>)
        requires
            old(self).wf(),
            hunks_fit(diff_hunks(hunk_configs@)),
            forall|i: int| composite_at(old(self).composite_buffers@, buffer_id, i) ==> old(self).composite_buffers@[i].sources@.len() >= 2,
        ensures
            final(self).wf(),
            only_composites_changed(*final(self), *old(self)),
            if has_composite(old(self).composite_buffers@, buffer_id) {
                exists|i: int| composite_at(old(self).composite_buffers@, buffer_id, i)
                    && final(self).composite_buffers@ == old(self).composite_buffers@.update(i,
                        with_alignment(old(self).composite_buffers@[i], final(self).composite_buffers@[i].alignment))
                    && rows_view(final(self).composite_buffers@[i].alignment.rows@) == spec_from_hunks(diff_hunks(hunk_configs@),
                        line_count_or_zero(old(self).buffers@, old(self).composite_buffers@[i].sources@[0].buffer_id),
                        line_count_or_zero(old(self).buffers@, old(self).composite_buffers@[i].sources@[1].buffer_id))
            } else {
                final(self).composite_buffers@ == old(self).composite_buffers@
            },
    {
        if let Some(ci) = self.find_composite(buffer_id) {
            let diff = hunks_of_configs(&hunk_configs);
            let old_src = self.composite_buffers[ci].sources[0].buffer_id;
            let new_src = self.composite_buffers[ci].sources[1].buffer_id;
            let old_line_count = self.line_count_of(old_src);
            let new_line_count = self.line_count_of(new_src);
            let alignment = LineAlignment::from_hunks(diff.as_slice(), old_line_count, new_line_count);
            let ghost before = self.composite_buffers@;
            let ghost a = alignment;
            self.set_composite_alignment(buffer_id, alignment);
            proof {
                let i = choose|i: int| composite_at(before, buffer_id, i)
                    && self.composite_buffers@ == before.update(i, with_alignment(before[i], a));
                if i != ci {
                    if i < ci {
                        assert(before[i].id != before[ci as int].id);
                    } else {
                        assert(before[ci as int].id != before[i].id);
                    }
                }
                assert(self.composite_buffers@[i].alignment == a);
            }
        }
    }
}

/// A view-state lookup leaves a state that the next lookup of the same split
/// and buffer finds (when the caller keeps the state's buffer id), whether the
/// first lookup created it (pushed it) or found it (wrote it back in place);
/// and a lookup that finds the state and leaves it as it was changes nothing.
pub proof fn law_view_state_lookup_again(s: Seq<(SplitId, CompositeViewState)>, split_id: SplitId,
    buffer_id: BufferId, i: int, v: CompositeViewState)
    requires
        v.buffer_id == buffer_id,
    ensures
        has_view_state(s.push((split_id, v)), split_id, buffer_id),
        view_state_at(s, split_id, buffer_id, i) ==> has_view_state(s.update(i, (split_id, v)), split_id, buffer_id),
        view_state_at(s, split_id, buffer_id, i) ==> s.update(i, (split_id, s[i].1)) == s,
{
    assert(view_state_at(s.push((split_id, v)), split_id, buffer_id, s.len() as int));
    if view_state_at(s, split_id, buffer_id, i) {
        assert(view_state_at(s.update(i, (split_id, v)), split_id, buffer_id, i));
        assert(s.update(i, (split_id, s[i].1)) =~= s);
    }
}

/// Creating a composite buffer and then closing it restores the composite
/// and metadata tables, and the view states too when none was left over
/// under the new id.
pub proof fn law_create_then_close(e0: Editor, e1: Editor, e2: Editor, id: BufferId)
    requires
        e0.wf(),
        e1.wf(),
        // e1 is e0 after `create_composite_buffer` returned `id`
        id.0 == e0.next_buffer_id,
        e1.composite_buffers@.len() == e0.composite_buffers@.len() + 1,
        e1.composite_buffers@.drop_last() == e0.composite_buffers@,
        e1.composite_buffers@.last().id == id,
        e1.buffer_metadata@.len() == e0.buffer_metadata@.len() + 1,
        e1.buffer_metadata@.drop_last() == e0.buffer_metadata@,
        e1.buffer_metadata@.last().0 == id,
        e1.composite_view_states == e0.composite_view_states,
        // e2 is e1 after `close_composite_buffer(id)`
        if has_composite(e1.composite_buffers@, id) {
            exists|i: int| composite_at(e1.composite_buffers@, id, i) && e2.composite_buffers@ == e1.composite_buffers@.remove(i)
        } else {
            e2.composite_buffers@ == e1.composite_buffers@
        },
        if has_metadata(e1.buffer_metadata@, id) {
            exists|i: int| metadata_at(e1.buffer_metadata@, id, i) && e2.buffer_metadata@ == e1.buffer_metadata@.remove(i)
        } else {
            e2.buffer_metadata@ == e1.buffer_metadata@
        },
        e2.composite_view_states@ == views_without(e1.composite_view_states@, id),
    ensures
        e2.composite_buffers@ == e0.composite_buffers@,
        e2.buffer_metadata@ == e0.buffer_metadata@,
        e2.composite_view_states@ == views_without(e0.composite_view_states@, id),
        (forall|i: int| 0 <= i < e0.composite_view_states@.len() ==> (#[trigger] e0.composite_view_states@[i]).1.buffer_id != id)
            ==> e2.composite_view_states@ == e0.composite_view_states@,
{
    let cb = e1.composite_buffers@;
    let last = cb.len() - 1;
    assert(composite_at(cb, id, last));
    let i = choose|i: int| composite_at(cb, id, i) && e2.composite_buffers@ == cb.remove(i);
    if i != last {
        assert(cb[i].id != cb[last].id);
    }
    assert(cb.remove(last) =~= cb.drop_last());
    let md = e1.buffer_metadata@;
    let mlast = md.len() - 1;
    assert(metadata_at(md, id, mlast));
    let j = choose|j: int| metadata_at(md, id, j) && e2.buffer_metadata@ == md.remove(j);
    if j != mlast {
        assert(md[j].0 != md[mlast].0);
    }
    assert(md.remove(mlast) =~= md.drop_last());
    let vs = e0.composite_view_states@;
    if forall|i: int| 0 <= i < vs.len() ==> (#[trigger] vs[i]).1.buffer_id != id {
        lemma_views_without_absent(vs, id);
    }
}

proof fn lemma_views_without_absent(s: Seq<(SplitId, CompositeViewState)>, id: BufferId)
    requires
        forall|i: int| 0 <= i < s.len() ==> (#[trigger] s[i]).1.buffer_id != id,
    ensures
        views_without(s, id) == s,
    decreases s.len(),
{
    reveal(Seq::filter);
    if s.len() > 0 {
        let t = s.drop_last();
        assert forall|i: int| 0 <= i < t.len() implies (#[trigger] t[i]).1.buffer_id != id by {
            assert(t[i] == s[i]);
        }
        lemma_views_without_absent(t, id);
        assert(s.last() == s[s.len() - 1]);
        assert(t.push(s.last()) =~= s);
    }
}

impl Editor {
    /// Make `buffer_id` the active buffer.
    pub fn set_active_buffer(&mut self, buffer_id: BufferId)
        ensures
            final(self).active_buffer == buffer_id,
            final(self).buffers == old(self).buffers,
            final(self).buffer_metadata == old(self).buffer_metadata,
            final(self).composite_buffers == old(self).composite_buffers,
            final(self).composite_view_states == old(self).composite_view_states,
            final(self).next_buffer_id == old(self).next_buffer_id,
            final(self).active_split == old(self).active_split,
            final(self).split_view_states == old(self).split_view_states,
    {
        self.active_buffer = buffer_id;
    }

    /// Index of text buffer `buffer_id`.
    fn find_buffer(&self, buffer_id: BufferId) -> (r: Option<usize>)
        ensures
            match r {
                Some(i) => first_buffer_at(self.buffers@, buffer_id, i as int),
                None => forall|i: int| 0 <= i < self.buffers@.len() ==> self.buffers@[i].0 != buffer_id,
            },
    {
        let n = self.buffers.len();
        let mut i: usize = 0;
        while i < n
            invariant
                n == self.buffers@.len(),
                i <= n,
                forall|j: int| 0 <= j < i ==> self.buffers@[j].0 != buffer_id,
            decreases n - i,
        {
            if self.buffers[i].0 == buffer_id {
                return Some(i);
            }
            i += 1;
        }
        None
    }

    /// Add an overlay to the active buffer and return its handle, for
    /// removing it later.
    pub fn add_overlay_with_handle(
        &mut self,
        namespace: Option<OverlayNamespace>,
        range: std::ops::Range<usize>,
        face: OverlayFace,
        priority: i32,
        message: Option<String>,
    ) -> (r: OverlayHandle)
        requires
            old(self).wf(),
            exists|i: int| buffer_at(old(self).buffers@, old(self).active_buffer, i)
                && old(self).buffers@[i].1.overlays.next_handle < u64::MAX,
        ensures
            final(self).wf(),
            exists|i: int| buffer_at(old(self).buffers@, old(self).active_buffer, i)
                && r == OverlayHandle(old(self).buffers@[i].1.overlays.next_handle)
                && final(self).buffers@ == old(self).buffers@.update(i, (old(self).buffers@[i].0, EditorState {
                    overlays: crate::overlay::OverlayManager {
                        overlays: final(self).buffers@[i].1.overlays.overlays,
                        next_handle: (old(self).buffers@[i].1.overlays.next_handle + 1) as u64,
                    },
                    ..old(self).buffers@[i].1
                }))
                && final(self).buffers@[i].1.overlays.overlays@ == old(self).buffers@[i].1.overlays.overlays@.push(Overlay {
                    handle: r, namespace, start: range.start, end: range.end, face, priority, message,
                }),
            final(self).buffer_metadata == old(self).buffer_metadata,
            final(self).composite_buffers == old(self).composite_buffers,
            final(self).composite_view_states == old(self).composite_view_states,
            final(self).next_buffer_id == old(self).next_buffer_id,
            final(self).active_split == old(self).active_split,
            final(self).split_view_states == old(self).split_view_states,
            final(self).active_buffer == old(self).active_buffer,
    {
        let i = match self.find_buffer(self.active_buffer) {
            Some(i) => i,
            None => {
                proof {
                    let k = choose|k: int| buffer_at(self.buffers@, self.active_buffer, k)
                        && self.buffers@[k].1.overlays.next_handle < u64::MAX;
                    assert(self.buffers@[k].0 == self.active_buffer);
                }
                return OverlayHandle(0);
            },
        };
        proof {
            let k = choose|k: int| buffer_at(self.buffers@, self.active_buffer, k)
                && self.buffers@[k].1.overlays.next_handle < u64::MAX;
            if k != i {
                if k < i {
                    assert(self.buffers@[k].0 != self.buffers@[i as int].0);
                } else {
                    assert(self.buffers@[i as int].0 != self.buffers@[k].0);
                }
            }
        }
        let ghost before = self.buffers@;
        let overlay = Overlay { handle: OverlayHandle(0), namespace, start: range.start, end: range.end, face, priority, message };
        let mut entry = self.buffers.remove(i);
        let handle = entry.1.overlays.add(overlay);
        self.buffers.insert(i, entry);
        proof {
            let b = self.buffers@;
            assert(b =~= before.update(i as int, entry));
            assert forall|x: int, y: int| 0 <= x < y < b.len() implies (#[trigger] b[x]).0 != (#[trigger] b[y]).0 by {
                assert(b[x].0 == before[x].0 && b[y].0 == before[y].0);
            }
            assert forall|x: int| 0 <= x < b.len() implies (#[trigger] b[x]).0.0 < self.next_buffer_id by {
                assert(b[x].0 == before[x].0);
            }
        }
        handle
    }

    /// Remove the overlay with `handle` from the active buffer.
    pub fn remove_overlay_by_handle(&mut self, handle: OverlayHandle)
        requires
            old(self).wf(),
        ensures
            final(self).wf(),
            if exists|i: int| buffer_at(old(self).buffers@, old(self).active_buffer, i) {
                exists|i: int| buffer_at(old(self).buffers@, old(self).active_buffer, i)
                    && final(self).buffers@ == old(self).buffers@.update(i, (old(self).buffers@[i].0, EditorState {
                        overlays: crate::overlay::OverlayManager {
                            overlays: final(self).buffers@[i].1.overlays.overlays,
                            ..old(self).buffers@[i].1.overlays
                        },
                        ..old(self).buffers@[i].1
                    }))
                    && final(self).buffers@[i].1.overlays.overlays@ == without_handle(old(self).buffers@[i].1.overlays.overlays@, handle)
            } else {
                final(self).buffers == old(self).buffers
            },
            final(self).buffer_metadata == old(self).buffer_metadata,
            final(self).composite_buffers == old(self).composite_buffers,
            final(self).composite_view_states == old(self).composite_view_states,
            final(self).next_buffer_id == old(self).next_buffer_id,
            final(self).active_split == old(self).active_split,
            final(self).split_view_states == old(self).split_view_states,
            final(self).active_buffer == old(self).active_buffer,
    {
        let i = match self.find_buffer(self.active_buffer) {
            Some(i) => i,
            None => return,
        };
        let ghost before = self.buffers@;
        let mut entry = self.buffers.remove(i);
        entry.1.overlays.remove_by_handle(handle);
        self.buffers.insert(i, entry);
        proof {
            let b = self.buffers@;
            assert(b =~= before.update(i as int, entry));
            assert forall|x: int, y: int| 0 <= x < y < b.len() implies (#[trigger] b[x]).0 != (#[trigger] b[y]).0 by {
                assert(b[x].0 == before[x].0 && b[y].0 == before[y].0);
            }
            assert forall|x: int| 0 <= x < b.len() implies (#[trigger] b[x]).0.0 < self.next_buffer_id by {
                assert(b[x].0 == before[x].0);
            }
        }
    }
}
impl Editor {
    /// Index of the first view of split `split_id`.
    fn find_split_view(&self, split_id: SplitId) -> (r: Option<usize>)
        ensures
            match r {
                Some(i) => split_view_at(self.split_view_states@, split_id, i as int),
                None => forall|i: int| 0 <= i < self.split_view_states@.len()
                    ==> self.split_view_states@[i].0 != split_id,
            },
    {
        let n = self.split_view_states.len();
        let mut i: usize = 0;
        while i < n
            invariant
                n == self.split_view_states@.len(),
                i <= n,
                forall|j: int| 0 <= j < i ==> self.split_view_states@[j].0 != split_id,
            decreases n - i,
        {
            if self.split_view_states[i].0 == split_id {
                return Some(i);
            }
            i += 1;
        }
        None
    }

    /// Convert an action into events for the active split: the split view
    /// takes the active buffer's cursors and viewport size, the cursors take
    /// their view lines and columns from the split's layout, the action
    /// becomes events over them (and may scroll the viewport), and the cursors
    /// and viewport go back to the buffer. None, with nothing changed, where the
    /// active split has no view or the active buffer does not exist; None also
    /// where the action does nothing.
    pub fn action_to_events(&mut self, action: Action) -> (r: Option<Vec<Event>>)
        requires
            forall|i: int| 0 <= i < old(self).split_view_states@.len()
                ==> (#[trigger] old(self).split_view_states@[i]).1.ready(),
            forall|j: int| 0 <= j < old(self).buffers@.len()
                ==> cursors_ready(#[trigger] old(self).buffers@[j].1),
        ensures
            final(self).buffer_metadata == old(self).buffer_metadata,
            final(self).composite_buffers == old(self).composite_buffers,
            final(self).composite_view_states == old(self).composite_view_states,
            final(self).next_buffer_id == old(self).next_buffer_id,
            final(self).active_buffer == old(self).active_buffer,
            final(self).active_split == old(self).active_split,
            final(self).split_view_states@.len() == old(self).split_view_states@.len(),
            final(self).buffers@.len() == old(self).buffers@.len(),
            (forall|i: int| !split_view_at(old(self).split_view_states@, old(self).active_split, i))
                || (forall|j: int| !first_buffer_at(old(self).buffers@, old(self).active_buffer, j))
                ==> r is None && *final(self) == *old(self),
            forall|i: int, j: int| #[trigger] split_view_at(old(self).split_view_states@, old(self).active_split, i)
                && #[trigger] first_buffer_at(old(self).buffers@, old(self).active_buffer, j) ==> {
                    let v = old(self).split_view_states@[i].1;
                    let st = old(self).buffers@[j].1;
                    let lines = v.layout.lines@;
                    let cs = synced_entries(st.view_cursors, lines);
                    let vp = spec_action_viewport(action, lines, sized_viewport(v.viewport, st.viewport));
                    let w = final(self).split_view_states@[i];
                    let b = final(self).buffers@[j];
                    &&& forall|k: int| 0 <= k < old(self).split_view_states@.len() && k != i
                        ==> final(self).split_view_states@[k] == old(self).split_view_states@[k]
                    &&& forall|k: int| 0 <= k < old(self).buffers@.len() && k != j
                        ==> final(self).buffers@[k] == old(self).buffers@[k]
                    &&& w.0 == old(self).active_split
                    &&& w.1.cursors.wf()
                    &&& w.1.cursors.entries() == cs
                    &&& w.1.cursors@.primary_id == st.view_cursors@.primary_id
                    &&& w.1.cursors@.next_id == st.view_cursors@.next_id
                    &&& w.1.viewport == vp
                    &&& w.1.layout == v.layout
                    &&& b.0 == old(self).active_buffer
                    &&& b.1.buffer == st.buffer
                    &&& b.1.cursors == st.cursors
                    &&& b.1.primary == st.primary
                    &&& b.1.overlays == st.overlays
                    &&& b.1.view_cursors.wf()
                    &&& b.1.view_cursors.entries() == cs
                    &&& b.1.view_cursors@.primary_id == st.view_cursors@.primary_id
                    &&& b.1.view_cursors@.next_id == st.view_cursors@.next_id
                    &&& b.1.viewport == vp
                    &&& match r {
                        Some(ev) => ev@.len() > 0 && ev@.map_values(|e: Event| e@) == spec_action_events(action,
                            lines, st.viewport.height as int, st.buffer@, cs),
                        None => spec_action_events(action, lines, st.viewport.height as int, st.buffer@, cs).len() == 0,
                    }
                },
    {
        let i = match self.find_split_view(self.active_split) {
            Some(i) => i,
            None => return None,
        };
        let j = match self.find_buffer(self.active_buffer) {
            Some(j) => j,
            None => return None,
        };
        let ghost s0 = self.split_view_states@;
        let ghost b0 = self.buffers@;
        let ghost st0 = b0[j as int].1;
        let (sid, mut view) = self.split_view_states.remove(i);
        let (bid, mut state) = self.buffers.remove(j);
        proof {
            assert(s0[i as int].1.ready());
            assert(cursors_ready(st0));
        }
        view.cursors = state.view_cursors.clone();
        view.viewport.width = state.viewport.width;
        view.viewport.height = state.viewport.height;
        view.cursors.sync_view_positions(&view.layout);
        proof {
            let lines = view.layout.lines@;
            assert forall|k: int| 0 <= k < view.cursors.entries().len()
                implies nav_fits(#[trigger] view.cursors.entries()[k].1.position) by {
                let p = st0.view_cursors.entries()[k].1.position;
                assert(nav_fits(p));
                lemma_synced_in_layout(p, lines);
                assert(view.cursors.entries()[k].1.position == crate::cursor::spec_synced_position(p, lines));
            }
        }
        let events = crate::action_convert::action_to_events(&mut view.cursors, &view.layout, &mut view.viewport,
            &state.buffer, action);
        state.viewport = copy_viewport(&view.viewport);
        state.view_cursors = view.cursors.clone();
        self.buffers.insert(j, (bid, state));
        self.split_view_states.insert(i, (sid, view));
        proof {
            let s1 = self.split_view_states@;
            let b1 = self.buffers@;
            assert forall|k: int| 0 <= k < s0.len() && k != i implies s1[k] == s0[k] by {}
            assert forall|k: int| 0 <= k < b0.len() && k != j implies b1[k] == b0[k] by {}
            // The first view of the split and the first buffer with the id are unique.
            assert forall|i2: int, j2: int| split_view_at(s0, old(self).active_split, i2)
                && first_buffer_at(b0, old(self).active_buffer, j2) implies i2 == i && j2 == j by {
                if i2 > i {
                    assert(s0[i as int].0 == old(self).active_split);
                }
                if j2 > j {
                    assert(b0[j as int].0 == old(self).active_buffer);
                }
            }
        }
        events
    }
}

/// Where the prompt's suggestions popup goes: the full width of the screen,
/// directly above the prompt line (cut off at the top of the screen), two rows
/// taller than the suggestions but at most 15 rows.
pub fn suggestions_popup_area(suggestion_count: usize, screen_width: u16, prompt_y: u16) -> (r: Rect)
    ensures
        r.height as int == if suggestion_count + 2 < 15 { suggestion_count + 2 } else { 15 },
        r.width == screen_width,
        r.x == 0,
        r.y as int == if prompt_y >= r.height { prompt_y - r.height } else { 0 },
{
    let rows: usize = if suggestion_count < 13 { suggestion_count + 2 } else { 15 };
    let popup_height = rows as u16;
    let popup_y = if prompt_y >= popup_height { prompt_y - popup_height } else { 0 };
    Rect { x: 0, y: popup_y, width: screen_width, height: popup_height }
}
} // verus!
