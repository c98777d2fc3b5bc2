//! Composite buffers: several source buffers shown side by side in one tab,
//! with their lines paired up row by row (as in a diff view).

use vstd::prelude::*;

verus! {

/// Identifier of a buffer.
#[derive(Clone, Copy, Debug, PartialEq, Eq, Structural, Hash)]
pub struct BufferId(pub usize);

/// Identifier of a split (a pane of the window layout).
#[derive(Clone, Copy, Debug, PartialEq, Eq, Structural, Hash)]
pub struct SplitId(pub usize);

/// How the panes of a composite buffer are arranged.
///
/// Side-by-side widths are given as percentages of the width left after separators.
pub enum CompositeLayout {
    SideBySide { ratios: Vec<u32>, show_separator: bool },
    Stacked { spacing: u16 },
    Unified,
}

/// What the gutter of a pane shows.
#[derive(Clone, Copy, Debug, PartialEq, Eq, Structural)]
pub enum GutterStyle {
    LineNumbers,
    DiffMarkers,
    Both,
    Hidden,
}

/// Colours and gutter of one pane; a colour of `None` takes the default for its row type.
#[derive(Clone, Copy, Debug)]
pub struct PaneStyle {
    pub add_bg: Option<(u8, u8, u8)>,
    pub remove_bg: Option<(u8, u8, u8)>,
    pub modify_bg: Option<(u8, u8, u8)>,
    pub gutter_style: GutterStyle,
}

impl PaneStyle {
    /// Line numbers in the gutter and default colours.
    pub fn default_style() -> (r: Self)
        ensures
            r.add_bg is None,
            r.remove_bg is None,
            r.modify_bg is None,
            r.gutter_style == GutterStyle::LineNumbers,
    {
        PaneStyle { add_bg: None, remove_bg: None, modify_bg: None, gutter_style: GutterStyle::LineNumbers }
    }
}

/// One source buffer shown in a composite buffer.
pub struct SourcePane {
    pub buffer_id: BufferId,
    pub label: String,
    pub editable: bool,
    pub style: PaneStyle,
}

impl SourcePane {
    /// A pane of `buffer_id` with the default style.
    pub fn new(buffer_id: BufferId, label: String, editable: bool) -> (r: Self)
        ensures
            r.buffer_id == buffer_id,
            r.label@ == label@,
            r.editable == editable,
            r.style == (PaneStyle { add_bg: None, remove_bg: None, modify_bg: None, gutter_style: GutterStyle::LineNumbers }),
    {
        SourcePane { buffer_id, label, editable, style: PaneStyle::default_style() }
    }
}

/// A changed region: `old_count` lines at `old_start` of the old text were
/// replaced by `new_count` lines at `new_start` of the new text (0-based).
#[derive(Clone, Copy, Debug, PartialEq, Eq, Structural)]
pub struct DiffHunk {
    pub old_start: usize,
    pub old_count: usize,
    pub new_start: usize,
    pub new_count: usize,
}

impl DiffHunk {
    pub fn new(old_start: usize, old_count: usize, new_start: usize, new_count: usize) -> (r: Self)
        ensures
            r == (DiffHunk { old_start, old_count, new_start, new_count }),
    {
        DiffHunk { old_start, old_count, new_start, new_count }
    }
}

/// What a display row shows.
#[derive(Clone, Copy, Debug, PartialEq, Eq, Structural)]
pub enum RowType {
    Context,
    Addition,
    Deletion,
    Modification,
    HunkHeader,
}

/// One display row: for each pane, the source line shown there (if any).
pub struct AlignedRow {
    pub pane_lines: Vec<Option<usize>>,
    pub row_type: RowType,
}

/// The abstract form of a row.
pub type RowView = (Seq<Option<usize>>, RowType);

pub open spec fn row_view(r: AlignedRow) -> RowView {
    (r.pane_lines@, r.row_type)
}

pub open spec fn rows_view(rows: Seq<AlignedRow>) -> Seq<RowView> {
    rows.map_values(|r: AlignedRow| row_view(r))
}

impl AlignedRow {
    /// The source line shown in pane `pane`, if any.
    pub fn get_pane_line(&self, pane: usize) -> (r: Option<usize>)
        ensures
            r == (if pane < self.pane_lines@.len() { self.pane_lines@[pane as int] } else { None }),
    {
        if pane < self.pane_lines.len() {
            self.pane_lines[pane]
        } else {
            None
        }
    }
}

/// The pairing of source lines into display rows.
pub struct LineAlignment {
    pub rows: Vec<AlignedRow>,
}

pub open spec fn pair_row(old: Option<usize>, new: Option<usize>, t: RowType) -> RowView {
    (seq![old, new], t)
}

pub open spec fn gap(a: int, b: int) -> int {
    if a < b { b - a } else { 0 }
}

/// `count` context rows pairing old lines from `old` with new lines from `new`.
pub open spec fn context_run(old: int, new: int, count: int) -> Seq<RowView> {
    Seq::new(count as nat, |i: int| pair_row(Some((old + i) as usize), Some((new + i) as usize), RowType::Context))
}

pub open spec fn paired_count(h: DiffHunk) -> int {
    if h.old_count <= h.new_count { h.old_count as int } else { h.new_count as int }
}

/// The rows of a hunk: a header, then paired lines as modifications, then
/// the remaining old lines as deletions and the remaining new lines as additions.
pub open spec fn hunk_rows(h: DiffHunk) -> Seq<RowView> {
    let p = paired_count(h);
    seq![pair_row(None, None, RowType::HunkHeader)]
        + Seq::new(p as nat, |k: int| pair_row(Some((h.old_start + k) as usize), Some((h.new_start + k) as usize), RowType::Modification))
        + Seq::new((h.old_count - p) as nat, |k: int| pair_row(Some((h.old_start + p + k) as usize), None, RowType::Deletion))
        + Seq::new((h.new_count - p) as nat, |k: int| pair_row(None, Some((h.new_start + p + k) as usize), RowType::Addition))
}

/// Rows produced by the first `k` hunks, with the old and new line reached.
pub open spec fn align_prefix(hunks: Seq<DiffHunk>, k: nat) -> (Seq<RowView>, int, int)
    decreases k,
{
    if k == 0 || k > hunks.len() {
        (Seq::empty(), 0, 0)
    } else {
        let prev = align_prefix(hunks, (k - 1) as nat);
        let h = hunks[k - 1];
        let c = if gap(prev.1, h.old_start as int) <= gap(prev.2, h.new_start as int) {
            gap(prev.1, h.old_start as int)
        } else {
            gap(prev.2, h.new_start as int)
        };
        (prev.0 + context_run(prev.1, prev.2, c) + hunk_rows(h), h.old_start + h.old_count, h.new_start + h.new_count)
    }
}

/// Rows after the last hunk, up to the end of the longer text.
pub open spec fn trailing_rows(old: int, new: int, old_total: int, new_total: int) -> Seq<RowView> {
    let n = if gap(old, old_total) >= gap(new, new_total) { gap(old, old_total) } else { gap(new, new_total) };
    Seq::new(n as nat, |i: int| pair_row(
        if old + i < old_total { Some((old + i) as usize) } else { None },
        if new + i < new_total { Some((new + i) as usize) } else { None },
        RowType::Context,
    ))
}

pub open spec fn spec_from_hunks(hunks: Seq<DiffHunk>, old_total: int, new_total: int) -> Seq<RowView> {
    let p = align_prefix(hunks, hunks.len());
    p.0 + trailing_rows(p.1, p.2, old_total, new_total)
}

/// Every hunk's end lines fit in a `usize`.
pub open spec fn hunks_fit(hunks: Seq<DiffHunk>) -> bool {
    forall|i: int| 0 <= i < hunks.len() ==> (#[trigger] hunks[i]).old_start + hunks[i].old_count <= usize::MAX
        && hunks[i].new_start + hunks[i].new_count <= usize::MAX
}

fn make_row(old: Option<usize>, new: Option<usize>, t: RowType) -> (r: AlignedRow)
    ensures
        row_view(r) == pair_row(old, new, t),
{
    let mut v: Vec<Option<usize>> = Vec::new();
    v.push(old);
    v.push(new);
    proof {
        assert(v@ =~= seq![old, new]);
    }
    AlignedRow { pane_lines: v, row_type: t }
}

proof fn lemma_rows_view_push(rows: Seq<AlignedRow>, r: AlignedRow)
    ensures
        rows_view(rows.push(r)) == rows_view(rows).push(row_view(r)),
{
    assert(rows_view(rows.push(r)) =~= rows_view(rows).push(row_view(r)));
}

impl LineAlignment {
    /// No rows.
    pub fn empty() -> (r: Self)
        ensures
            r.rows@.len() == 0,
    {
        LineAlignment { rows: Vec::new() }
    }

    /// Pair the lines of an old text of `old_line_count` lines and a new
    /// text of `new_line_count` lines, given the hunks of their diff in order.
    pub fn from_hunks(hunks: &[DiffHunk], old_line_count: usize, new_line_count: usize) -> (r: Self)
        requires
            hunks_fit(hunks@),
        ensures
            rows_view(r.rows@) == spec_from_hunks(hunks@, old_line_count as int, new_line_count as int),
    {
        let mut rows: Vec<AlignedRow> = Vec::new();
        let mut old: usize = 0;
        let mut new: usize = 0;
        let mut k: usize = 0;
        let n = hunks.len();
        while k < n
            invariant
                n == hunks@.len(),
                k <= n,
                hunks_fit(hunks@),
                align_prefix(hunks@, k as nat) == (rows_view(rows@), old as int, new as int),
            decreases n - k,
        {
            let h = hunks[k];
            let ghost base = rows_view(rows@);
            let ghost old0 = old as int;
            let ghost new0 = new as int;
            // context rows up to the hunk
            let mut c: usize = 0;
            while old < h.old_start && new < h.new_start
                invariant
                    old == old0 + c,
                    new == new0 + c,
                    c <= old,
                    old <= h.old_start || c == 0,
                    new <= h.new_start || c == 0,
                    old0 <= usize::MAX,
                    rows_view(rows@) == base + context_run(old0, new0, c as int),
                decreases h.old_start - old,
            {
                let row = make_row(Some(old), Some(new), RowType::Context);
                proof {
                    lemma_rows_view_push(rows@, row);
                    assert(context_run(old0, new0, c + 1) =~= context_run(old0, new0, c as int).push(row_view(row)));
                }
                rows.push(row);
                old += 1;
                new += 1;
                c += 1;
            }
            proof {
                let cc = if gap(old0, h.old_start as int) <= gap(new0, h.new_start as int) {
                    gap(old0, h.old_start as int)
                } else {
                    gap(new0, h.new_start as int)
                };
                assert(c == cc);
            }
            let ghost with_ctx = rows_view(rows@);
            let header = make_row(None, None, RowType::HunkHeader);
            proof {
                lemma_rows_view_push(rows@, header);
            }
            rows.push(header);
            let p: usize = if h.old_count <= h.new_count { h.old_count } else { h.new_count };
            proof {
                assert(hunks@[k as int] == h);
                assert(h.old_start + h.old_count <= usize::MAX && h.new_start + h.new_count <= usize::MAX);
            }
            let ghost s1 = rows_view(rows@);
            let mut j: usize = 0;
            while j < p
                invariant
                    j <= p,
                    p <= h.old_count,
                    p <= h.new_count,
                    h.old_start + h.old_count <= usize::MAX,
                    h.new_start + h.new_count <= usize::MAX,
                    rows_view(rows@) == s1 + Seq::new(j as nat, |q: int| pair_row(Some((h.old_start + q) as usize), Some((h.new_start + q) as usize), RowType::Modification)),
                decreases p - j,
            {
                let row = make_row(Some(h.old_start + j), Some(h.new_start + j), RowType::Modification);
                proof {
                    lemma_rows_view_push(rows@, row);
                    assert(Seq::new((j + 1) as nat, |q: int| pair_row(Some((h.old_start + q) as usize), Some((h.new_start + q) as usize), RowType::Modification))
                        =~= Seq::new(j as nat, |q: int| pair_row(Some((h.old_start + q) as usize), Some((h.new_start + q) as usize), RowType::Modification)).push(row_view(row)));
                }
                rows.push(row);
                j += 1;
            }
            let ghost s2 = rows_view(rows@);
            let mut j: usize = 0;
            while j < h.old_count - p
                invariant
                    j <= h.old_count - p,
                    p <= h.old_count,
                    h.old_start + h.old_count <= usize::MAX,
                    rows_view(rows@) == s2 + Seq::new(j as nat, |q: int| pair_row(Some((h.old_start + p + q) as usize), None, RowType::Deletion)),
                decreases h.old_count - p - j,
            {
                let row = make_row(Some(h.old_start + p + j), None, RowType::Deletion);
                proof {
                    lemma_rows_view_push(rows@, row);
                    assert(Seq::new((j + 1) as nat, |q: int| pair_row(Some((h.old_start + p + q) as usize), None, RowType::Deletion))
                        =~= Seq::new(j as nat, |q: int| pair_row(Some((h.old_start + p + q) as usize), None, RowType::Deletion)).push(row_view(row)));
                }
                rows.push(row);
                j += 1;
            }
            let ghost s3 = rows_view(rows@);
            let mut j: usize = 0;
            while j < h.new_count - p
                invariant
                    j <= h.new_count - p,
                    p <= h.new_count,
                    h.new_start + h.new_count <= usize::MAX,
                    rows_view(rows@) == s3 + Seq::new(j as nat, |q: int| pair_row(None, Some((h.new_start + p + q) as usize), RowType::Addition)),
                decreases h.new_count - p - j,
            {
                let row = make_row(None, Some(h.new_start + p + j), RowType::Addition);
                proof {
                    lemma_rows_view_push(rows@, row);
                    assert(Seq::new((j + 1) as nat, |q: int| pair_row(None, Some((h.new_start + p + q) as usize), RowType::Addition))
                        =~= Seq::new(j as nat, |q: int| pair_row(None, Some((h.new_start + p + q) as usize), RowType::Addition)).push(row_view(row)));
                }
                rows.push(row);
                j += 1;
            }
            proof {
                assert(p == paired_count(h));
                assert(rows_view(rows@) =~= with_ctx + hunk_rows(h));
            }
            old = h.old_start + h.old_count;
            new = h.new_start + h.new_count;
            k += 1;
            proof {
                assert(hunks@[k - 1] == h);
            }
        }
        let ghost base = rows_view(rows@);
        let ghost old0 = old as int;
        let ghost new0 = new as int;
        let m_old: usize = if old < old_line_count { old_line_count - old } else { 0 };
        let m_new: usize = if new < new_line_count { new_line_count - new } else { 0 };
        let m: usize = if m_old >= m_new { m_old } else { m_new };
        let mut i: usize = 0;
        while i < m
            invariant
                i <= m,
                old == old0,
                new == new0,
                m_old == gap(old0, old_line_count as int),
                m_new == gap(new0, new_line_count as int),
                m == (if m_old >= m_new { m_old } else { m_new }),
                rows_view(rows@) == base + trailing_rows(old0, new0, old_line_count as int, new_line_count as int).subrange(0, i as int),
            decreases m - i,
        {
            let o = if i < m_old { Some(old + i) } else { None };
            let w = if i < m_new { Some(new + i) } else { None };
            let row = make_row(o, w, RowType::Context);
            proof {
                lemma_rows_view_push(rows@, row);
                let t = trailing_rows(old0, new0, old_line_count as int, new_line_count as int);
                assert(t.subrange(0, i + 1) =~= t.subrange(0, i as int).push(t[i as int]));
            }
            rows.push(row);
            i += 1;
        }
        proof {
            let t = trailing_rows(old0, new0, old_line_count as int, new_line_count as int);
            assert(t.subrange(0, m as int) =~= t);
        }
        LineAlignment { rows }
    }

    /// The first hunk header strictly after row `after_row`.
    pub fn next_hunk_row(&self, after_row: usize) -> (r: Option<usize>)
        ensures
            match r {
                Some(i) => after_row < i < self.rows@.len() && self.rows@[i as int].row_type == RowType::HunkHeader
                    && forall|j: int| after_row < j < i ==> self.rows@[j].row_type != RowType::HunkHeader,
                None => forall|j: int| after_row < j < self.rows@.len() ==> self.rows@[j].row_type != RowType::HunkHeader,
            },
    {
        let n = self.rows.len();
        if after_row >= n {
            return None;
        }
        let mut i: usize = after_row + 1;
        while i < n
            invariant
                n == self.rows@.len(),
                after_row < i <= n,
                forall|j: int| after_row < j < i ==> self.rows@[j].row_type != RowType::HunkHeader,
            decreases n - i,
        {
            if self.rows[i].row_type == RowType::HunkHeader {
                return Some(i);
            }
            i += 1;
        }
        None
    }

    /// The last hunk header strictly before row `before_row`.
    pub fn prev_hunk_row(&self, before_row: usize) -> (r: Option<usize>)
        ensures
            match r {
                Some(i) => i < before_row && i < self.rows@.len() && self.rows@[i as int].row_type == RowType::HunkHeader
                    && forall|j: int| i < j < before_row && j < self.rows@.len() ==> self.rows@[j].row_type != RowType::HunkHeader,
                None => forall|j: int| 0 <= j < before_row && j < self.rows@.len() ==> self.rows@[j].row_type != RowType::HunkHeader,
            },
    {
        let n = self.rows.len();
        let mut i: usize = if before_row < n { before_row } else { n };
        while i > 0
            invariant
                n == self.rows@.len(),
                i <= n,
                i <= before_row,
                forall|j: int| i <= j < before_row && j < n ==> self.rows@[j].row_type != RowType::HunkHeader,
            decreases i,
        {
            if self.rows[i - 1].row_type == RowType::HunkHeader {
                return Some(i - 1);
            }
            i -= 1;
        }
        None
    }
}


/// A buffer that shows several source buffers in one tab.
pub struct CompositeBuffer {
    pub id: BufferId,
    pub name: String,
    pub mode: String,
    pub layout: CompositeLayout,
    pub sources: Vec<SourcePane>,
    pub alignment: LineAlignment,
    pub active_pane: usize,
}

impl CompositeBuffer {
    /// The focused pane is one of the panes (or 0 when there are none).
    pub open spec fn wf(&self) -> bool {
        self.active_pane < self.sources@.len() || self.active_pane == 0
    }

    /// A composite buffer with no rows yet and the first pane focused.
    pub fn new(id: BufferId, name: String, mode: String, layout: CompositeLayout, sources: Vec<SourcePane>) -> (r: Self)
        ensures
            r.id == id,
            r.name@ == name@,
            r.mode@ == mode@,
            r.layout == layout,
            r.sources@ == sources@,
            r.alignment.rows@.len() == 0,
            r.active_pane == 0,
            r.wf(),
    {
        CompositeBuffer { id, name, mode, layout, sources, alignment: LineAlignment::empty(), active_pane: 0 }
    }

    /// Number of source panes.
    pub fn pane_count(&self) -> (r: usize)
        ensures
            r == self.sources@.len(),
    {
        self.sources.len()
    }

    /// Number of display rows.
    pub fn row_count(&self) -> (r: usize)
        ensures
            r == self.alignment.rows@.len(),
    {
        self.alignment.rows.len()
    }

    /// Replace the row alignment.
    pub fn set_alignment(&mut self, alignment: LineAlignment)
        ensures
            final(self).alignment == alignment,
            final(self).id == old(self).id,
            final(self).name == old(self).name,
            final(self).mode == old(self).mode,
            final(self).layout == old(self).layout,
            final(self).sources == old(self).sources,
            final(self).active_pane == old(self).active_pane,
    {
        self.alignment = alignment;
    }

    /// Focus the next pane, wrapping around after the last.
    pub fn focus_next(&mut self)
        requires
            old(self).wf(),
        ensures
            final(self).wf(),
            final(self).active_pane == (if old(self).sources@.len() == 0 { old(self).active_pane as int } else {
                (old(self).active_pane + 1) % (old(self).sources@.len() as int)
            }),
            final(self).id == old(self).id,
            final(self).name == old(self).name,
            final(self).mode == old(self).mode,
            final(self).layout == old(self).layout,
            final(self).sources == old(self).sources,
            final(self).alignment == old(self).alignment,
    {
        let n = self.sources.len();
        if n > 0 {
            proof {
                let a = self.active_pane as int;
                if a + 1 == n {
                    vstd::arithmetic::div_mod::lemma_mod_self_0(n as int);
                } else {
                    vstd::arithmetic::div_mod::lemma_small_mod((a + 1) as nat, n as nat);
                }
            }
            self.active_pane = if self.active_pane + 1 == n { 0 } else { self.active_pane + 1 };
        }
    }

    /// Focus the previous pane, wrapping around before the first.
    pub fn focus_prev(&mut self)
        requires
            old(self).wf(),
        ensures
            final(self).wf(),
            final(self).active_pane == (if old(self).sources@.len() == 0 { old(self).active_pane as int } else {
                (old(self).active_pane + old(self).sources@.len() - 1) % (old(self).sources@.len() as int)
            }),
            final(self).id == old(self).id,
            final(self).name == old(self).name,
            final(self).mode == old(self).mode,
            final(self).layout == old(self).layout,
            final(self).sources == old(self).sources,
            final(self).alignment == old(self).alignment,
    {
        let n = self.sources.len();
        if n > 0 {
            proof {
                let a = self.active_pane as int;
                if a == 0 {
                    vstd::arithmetic::div_mod::lemma_small_mod((n - 1) as nat, n as nat);
                } else {
                    vstd::arithmetic::div_mod::lemma_mod_add_multiples_vanish(a - 1, n as int);
                    vstd::arithmetic::div_mod::lemma_small_mod((a - 1) as nat, n as nat);
                }
            }
            self.active_pane = if self.active_pane == 0 { n - 1 } else { self.active_pane - 1 };
        }
    }
}

/// Per-split view state of a composite buffer: scroll position and focus.
#[derive(Clone, Copy, Debug)]
pub struct CompositeViewState {
    pub buffer_id: BufferId,
    pub scroll_row: usize,
    pub focused_pane: usize,
    pub pane_count: usize,
}

/// `v` clamped to `[lo, hi]`.
pub open spec fn clamp(v: int, lo: int, hi: int) -> int {
    if v < lo { lo } else if v > hi { hi } else { v }
}

impl CompositeViewState {
    pub open spec fn new_spec(buffer_id: BufferId, pane_count: usize) -> Self {
        CompositeViewState { buffer_id, scroll_row: 0, focused_pane: 0, pane_count }
    }

    /// Scrolled to the top, first pane focused.
    pub fn new(buffer_id: BufferId, pane_count: usize) -> (r: Self)
        ensures
            r == Self::new_spec(buffer_id, pane_count),
    {
        CompositeViewState { buffer_id, scroll_row: 0, focused_pane: 0, pane_count }
    }

    /// Scroll by `delta` rows, staying within `0..=max_row`.
    pub fn scroll(&mut self, delta: isize, max_row: usize)
        ensures
            final(self).scroll_row == clamp(old(self).scroll_row + delta, 0, max_row as int),
            final(self).buffer_id == old(self).buffer_id,
            final(self).focused_pane == old(self).focused_pane,
            final(self).pane_count == old(self).pane_count,
    {
        let moved: usize = if delta >= 0 {
            self.scroll_row.saturating_add(delta as usize)
        } else {
            let d: usize = (-(delta + 1)) as usize + 1;
            self.scroll_row.saturating_sub(d)
        };
        self.scroll_row = if moved > max_row { max_row } else { moved };
    }

    /// Scroll to `row`, but no further than `max_row`.
    pub fn set_scroll_row(&mut self, row: usize, max_row: usize)
        ensures
            final(self).scroll_row == (if row > max_row { max_row } else { row }),
            final(self).buffer_id == old(self).buffer_id,
            final(self).focused_pane == old(self).focused_pane,
            final(self).pane_count == old(self).pane_count,
    {
        self.scroll_row = if row > max_row { max_row } else { row };
    }
}

/// Focusing the next pane and then the previous one returns to the pane
/// focused at first (the two pane updates of `focus_next` and `focus_prev`).
pub proof fn law_focus_next_then_prev(a: int, n: int)
    requires
        0 <= a < n,
    ensures
        ((a + 1) % n + n - 1) % n == a,
        ((a + n - 1) % n + 1) % n == a,
{
    if a + 1 == n {
        vstd::arithmetic::div_mod::lemma_mod_self_0(n);
        vstd::arithmetic::div_mod::lemma_small_mod((n - 1) as nat, n as nat);
    } else {
        vstd::arithmetic::div_mod::lemma_small_mod((a + 1) as nat, n as nat);
        vstd::arithmetic::div_mod::lemma_mod_add_multiples_vanish(a, n);
        vstd::arithmetic::div_mod::lemma_small_mod(a as nat, n as nat);
    }
    if a == 0 {
        vstd::arithmetic::div_mod::lemma_small_mod((n - 1) as nat, n as nat);
        vstd::arithmetic::div_mod::lemma_mod_self_0(n);
    } else {
        vstd::arithmetic::div_mod::lemma_mod_add_multiples_vanish(a - 1, n);
        vstd::arithmetic::div_mod::lemma_small_mod((a - 1) as nat, n as nat);
        vstd::arithmetic::div_mod::lemma_small_mod(a as nat, n as nat);
    }
}

/// Without hunks, old and new lines are paired one to one as context rows,
/// for as many rows as the longer text has lines.
pub proof fn law_no_hunks_all_context(old_total: nat, new_total: nat)
    ensures
        spec_from_hunks(Seq::empty(), old_total as int, new_total as int).len()
            == (if old_total >= new_total { old_total } else { new_total }),
        forall|i: int| 0 <= i < spec_from_hunks(Seq::empty(), old_total as int, new_total as int).len()
            ==> (#[trigger] spec_from_hunks(Seq::empty(), old_total as int, new_total as int)[i]).1 == RowType::Context,
{
    assert(align_prefix(Seq::<DiffHunk>::empty(), 0) == (Seq::<RowView>::empty(), 0int, 0int));
    assert(spec_from_hunks(Seq::empty(), old_total as int, new_total as int)
        =~= trailing_rows(0, 0, old_total as int, new_total as int));
}

} // verus!
