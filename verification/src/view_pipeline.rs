//! View tokens and the view-line layout built from them.
//!
//! A layout is a list of view lines; each character of a view line carries the
//! source byte it came from (or none for injected text).

use vstd::prelude::*;
use crate::text_util::{utf8_len, char_len_utf8, str_chars, sat_sub};

verus! {

/// An RGB color.
#[derive(Debug, Clone, Copy, PartialEq, Eq, Structural)]
pub struct Rgb {
    pub r: u8,
    pub g: u8,
    pub b: u8,
}

/// Style attached to a view token.
#[derive(Debug, Clone, Copy, PartialEq, Eq, Structural)]
pub struct ViewTokenStyle {
    pub fg: Option<Rgb>,
    pub bg: Option<Rgb>,
    pub bold: bool,
    pub italic: bool,
}

/// Kind of a view token.
#[derive(Debug, Clone, PartialEq, Eq)]
pub enum ViewTokenWireKind {
    /// A run of text (may contain source newlines)
    Text(String),
    /// A source newline
    Newline,
    /// A single space
    Space,
    /// A soft line break (no source character)
    Break,
}

/// A token of the view stream, with the source byte it starts at.
#[derive(Debug, Clone, PartialEq, Eq)]
pub struct ViewTokenWire {
    pub source_offset: Option<usize>,
    pub kind: ViewTokenWireKind,
    pub style: Option<ViewTokenStyle>,
}

/// How a view line begins.
#[derive(Debug, Clone, Copy, PartialEq, Eq, Structural)]
pub enum LineStart {
    /// First line of the layout
    Beginning,
    /// After a newline that exists in the source
    AfterSourceNewline,
    /// After a newline injected by the view (no source byte)
    AfterInjectedNewline,
    /// After a soft wrap break
    AfterBreak,
}

/// A line of the view.
#[derive(Debug, Clone)]
pub struct ViewLine {
    /// The characters shown on this line, including a final newline if any
    pub text: Vec<char>,
    /// Source byte of each character (None for injected characters)
    pub char_mappings: Vec<Option<usize>>,
    /// How this line begins
    pub line_start: LineStart,
    /// Whether the line ends with a newline character
    pub ends_with_newline: bool,
    /// Source byte just past the line's last character, if known
    pub end_byte: Option<usize>,
}

/// Abstract value of a view line.
pub struct LineModel {
    pub text: Seq<char>,
    pub maps: Seq<Option<usize>>,
    pub start: LineStart,
    pub nl: bool,
    pub end_byte: Option<usize>,
}

impl View for ViewLine {
    type V = LineModel;

    open spec fn view(&self) -> LineModel {
        LineModel {
            text: self.text@,
            maps: self.char_mappings@,
            start: self.line_start,
            nl: self.ends_with_newline,
            end_byte: self.end_byte,
        }
    }
}

/// A laid-out range of the source: view lines in order.
#[derive(Debug, Clone)]
pub struct Layout {
    pub lines: Vec<ViewLine>,
    pub source_start: usize,
    pub source_end: usize,
}

/// Abstract value of a token kind.
pub enum TokenKindModel {
    Text(Seq<char>),
    Newline,
    Space,
    Break,
}

/// One step of layout construction.
pub enum LayoutEvent {
    /// A visible character with its source byte and UTF-8 width
    Char(char, Option<usize>, usize),
    /// A newline with its source byte
    Nl(Option<usize>),
    /// A soft break
    Brk,
    /// An empty text run at a known source byte
    Anchor(usize),
}

pub open spec fn token_kind_model(k: ViewTokenWireKind) -> TokenKindModel {
    match k {
        ViewTokenWireKind::Text(s) => TokenKindModel::Text(s@),
        ViewTokenWireKind::Newline => TokenKindModel::Newline,
        ViewTokenWireKind::Space => TokenKindModel::Space,
        ViewTokenWireKind::Break => TokenKindModel::Break,
    }
}

/// Source byte `k` bytes past an optional base offset.
pub open spec fn offset_by(base: Option<usize>, k: int) -> Option<usize> {
    match base {
        Some(b) => Some((b + k) as usize),
        None => None,
    }
}

/// The source byte `w` bytes past an optional byte, saturating at `usize::MAX`.
pub open spec fn end_after(m: Option<usize>, w: int) -> Option<usize> {
    match m {
        Some(b) => Some(if b + w <= usize::MAX { (b + w) as usize } else { usize::MAX }),
        None => None,
    }
}

/// Layout events of the characters of a text run whose first character is at
/// byte `k` past `base`.
pub open spec fn text_events(chars: Seq<char>, base: Option<usize>, k: int) -> Seq<LayoutEvent>
    decreases chars.len(),
{
    if chars.len() == 0 {
        Seq::empty()
    } else {
        seq![char_event(chars[0], base, k)] + text_events(chars.drop_first(), base, k + utf8_len(chars[0]))
    }
}

/// The layout event of one character at byte `k` past `base`.
pub open spec fn char_event(c: char, base: Option<usize>, k: int) -> LayoutEvent {
    if c == '\n' {
        LayoutEvent::Nl(offset_by(base, k))
    } else {
        LayoutEvent::Char(c, offset_by(base, k), utf8_len(c) as usize)
    }
}

/// Layout events of one token.
pub open spec fn token_events(off: Option<usize>, kind: TokenKindModel) -> Seq<LayoutEvent> {
    match kind {
        TokenKindModel::Text(t) => if t.len() == 0 {
            match off {
                Some(o) => seq![LayoutEvent::Anchor(o)],
                None => Seq::empty(),
            }
        } else {
            text_events(t, off, 0)
        },
        TokenKindModel::Newline => seq![LayoutEvent::Nl(off)],
        TokenKindModel::Space => seq![LayoutEvent::Char(' ', off, 1)],
        TokenKindModel::Break => seq![LayoutEvent::Brk],
    }
}

/// Layout events of a token stream.
pub open spec fn stream_events(ts: Seq<ViewTokenWire>) -> Seq<LayoutEvent>
    decreases ts.len(),
{
    if ts.len() == 0 {
        Seq::empty()
    } else {
        stream_events(ts.drop_last()) + token_events(ts.last().source_offset, token_kind_model(ts.last().kind))
    }
}

/// Source offsets of a token stream stay within `usize` for every character.
pub open spec fn tokens_fit(ts: Seq<ViewTokenWire>) -> bool {
    forall|i: int| 0 <= i < ts.len() ==> match (#[trigger] ts[i]).source_offset {
        Some(o) => match ts[i].kind {
            ViewTokenWireKind::Text(s) => o + utf8_bytes_len(s@) + 1 <= usize::MAX,
            _ => o + 1 <= usize::MAX,
        },
        None => match ts[i].kind {
            ViewTokenWireKind::Text(s) => utf8_bytes_len(s@) + 1 <= usize::MAX,
            _ => true,
        },
    }
}

/// An empty line beginning as given, whose end byte is `end`.
pub open spec fn empty_line(start: LineStart, end: Option<usize>) -> LineModel {
    LineModel { text: Seq::empty(), maps: Seq::empty(), start, nl: false, end_byte: end }
}

/// Finished lines and the line under construction.
pub struct BuildState {
    pub done: Seq<LineModel>,
    pub cur: LineModel,
}

/// The state after one event.
pub open spec fn build_step(st: BuildState, ev: LayoutEvent) -> BuildState {
    match ev {
        LayoutEvent::Char(c, m, w) => BuildState {
            done: st.done,
            cur: LineModel {
                text: st.cur.text.push(c),
                maps: st.cur.maps.push(m),
                end_byte: end_after(m, w as int),
                ..st.cur
            },
        },
        LayoutEvent::Nl(m) => BuildState {
            done: st.done.push(LineModel {
                text: st.cur.text.push('\n'),
                maps: st.cur.maps.push(m),
                nl: true,
                end_byte: end_after(m, 1),
                ..st.cur
            }),
            cur: empty_line(
                if m is Some { LineStart::AfterSourceNewline } else { LineStart::AfterInjectedNewline },
                end_after(m, 1),
            ),
        },
        LayoutEvent::Brk => BuildState {
            done: st.done.push(st.cur),
            cur: empty_line(LineStart::AfterBreak, st.cur.end_byte),
        },
        LayoutEvent::Anchor(o) => if st.cur.maps.len() == 0 {
            BuildState { done: st.done, cur: LineModel { end_byte: Some(o), ..st.cur } }
        } else {
            st
        },
    }
}

/// The state after a sequence of events, starting from an empty first line.
pub open spec fn build_run(evs: Seq<LayoutEvent>) -> BuildState
    decreases evs.len(),
{
    if evs.len() == 0 {
        BuildState { done: Seq::empty(), cur: empty_line(LineStart::Beginning, None) }
    } else {
        build_step(build_run(evs.drop_last()), evs.last())
    }
}

/// The lines of the layout of a token stream.
pub open spec fn layout_lines(ts: Seq<ViewTokenWire>) -> Seq<LineModel> {
    let st = build_run(stream_events(ts));
    st.done.push(st.cur)
}

/// Whether a line of a layout value matches the abstract line.
pub open spec fn lines_match(lines: Seq<ViewLine>, models: Seq<LineModel>) -> bool {
    &&& lines.len() == models.len()
    &&& forall|i: int| 0 <= i < lines.len() ==> (#[trigger] lines[i])@ == models[i]
}

/// Total UTF-8 length of a character sequence.
pub open spec fn utf8_bytes_len(s: Seq<char>) -> int
    decreases s.len(),
{
    if s.len() == 0 {
        0
    } else {
        utf8_len(s[0]) + utf8_bytes_len(s.drop_first())
    }
}


/// Append the events of a text run to `evs`.
fn push_text_events(evs: &mut Vec<LayoutEvent>, chars: &Vec<char>, base: Option<usize>)
    requires
        base matches Some(b) ==> b + utf8_bytes_len(chars@) + 1 <= usize::MAX,
        utf8_bytes_len(chars@) + 1 <= usize::MAX,
    ensures
        final(evs)@ == old(evs)@ + text_events(chars@, base, 0),
{
    let n = chars.len();
    let mut i: usize = 0;
    let mut k: usize = 0;
    proof {
        assert(chars@.skip(0) =~= chars@);
    }
    while i < n
        invariant
            n == chars@.len(),
            i <= n,
            base matches Some(b) ==> b + utf8_bytes_len(chars@) + 1 <= usize::MAX,
            utf8_bytes_len(chars@) + 1 <= usize::MAX,
            k + utf8_bytes_len(chars@.skip(i as int)) == utf8_bytes_len(chars@),
            evs@ + text_events(chars@.skip(i as int), base, k as int) == old(evs)@ + text_events(chars@, base, 0),
        decreases n - i,
    {
        let c = chars[i];
        let w = char_len_utf8(c);
        proof {
            let rest = chars@.skip(i as int);
            assert(rest[0] == c);
            assert(rest.drop_first() =~= chars@.skip(i + 1));
            lemma_utf8_bytes_len_nonneg(chars@.skip(i + 1));
        }
        let m = match base {
            Some(b) => Some(b + k),
            None => None,
        };
        if c == '\n' {
            evs.push(LayoutEvent::Nl(m));
        } else {
            evs.push(LayoutEvent::Char(c, m, w));
        }
        proof {
            let rest = chars@.skip(i as int);
            assert(text_events(rest, base, k as int) == seq![char_event(c, base, k as int)] + text_events(
                chars@.skip(i + 1), base, k + w));
        }
        k = k + w;
        i = i + 1;
        proof {
            assert(evs@ + text_events(chars@.skip(i as int), base, k as int) =~= old(evs)@ + text_events(chars@, base, 0));
        }
    }
    proof {
        assert(chars@.skip(n as int) =~= Seq::<char>::empty());
        assert(evs@ =~= evs@ + text_events(chars@.skip(n as int), base, k as int));
    }
}

/// UTF-8 lengths are never negative.
pub proof fn lemma_utf8_bytes_len_nonneg(s: Seq<char>)
    ensures
        utf8_bytes_len(s) >= 0,
    decreases s.len(),
{
    if s.len() > 0 {
        lemma_utf8_bytes_len_nonneg(s.drop_first());
    }
}

} // verus!

verus! {

/// Append the events of one token to `evs`.
fn push_token_events(evs: &mut Vec<LayoutEvent>, t: &ViewTokenWire)
    requires
        match t.source_offset {
            Some(o) => match t.kind {
                ViewTokenWireKind::Text(s) => o + utf8_bytes_len(s@) + 1 <= usize::MAX,
                _ => o + 1 <= usize::MAX,
            },
            None => match t.kind {
                ViewTokenWireKind::Text(s) => utf8_bytes_len(s@) + 1 <= usize::MAX,
                _ => true,
            },
        },
    ensures
        final(evs)@ == old(evs)@ + token_events(t.source_offset, token_kind_model(t.kind)),
{
    match &t.kind {
        ViewTokenWireKind::Text(s) => {
            let chars = str_chars(s.as_str());
            if chars.len() == 0 {
                match t.source_offset {
                    Some(o) => {
                        evs.push(LayoutEvent::Anchor(o));
                    },
                    None => {},
                }
                proof {
                    assert(evs@ =~= old(evs)@ + token_events(t.source_offset, token_kind_model(t.kind)));
                }
            } else {
                proof {
                    lemma_utf8_bytes_len_nonneg(chars@);
                }
                push_text_events(evs, &chars, t.source_offset);
            }
        },
        ViewTokenWireKind::Newline => {
            evs.push(LayoutEvent::Nl(t.source_offset));
            proof {
                assert(evs@ =~= old(evs)@ + token_events(t.source_offset, token_kind_model(t.kind)));
            }
        },
        ViewTokenWireKind::Space => {
            evs.push(LayoutEvent::Char(' ', t.source_offset, 1));
            proof {
                assert(evs@ =~= old(evs)@ + token_events(t.source_offset, token_kind_model(t.kind)));
            }
        },
        ViewTokenWireKind::Break => {
            evs.push(LayoutEvent::Brk);
            proof {
                assert(evs@ =~= old(evs)@ + token_events(t.source_offset, token_kind_model(t.kind)));
            }
        },
    }
}

/// The events of a whole token stream.
fn stream_events_exec(tokens: &[ViewTokenWire]) -> (r: Vec<LayoutEvent>)
    requires
        tokens_fit(tokens@),
    ensures
        r@ == stream_events(tokens@),
{
    let mut evs: Vec<LayoutEvent> = Vec::new();
    let n = tokens.len();
    let mut i: usize = 0;
    while i < n
        invariant
            n == tokens@.len(),
            i <= n,
            tokens_fit(tokens@),
            evs@ == stream_events(tokens@.take(i as int)),
        decreases n - i,
    {
        proof {
            assert(tokens@.take(i + 1).drop_last() =~= tokens@.take(i as int));
            assert(tokens@.take(i + 1).last() == tokens@[i as int]);
            assert(tokens@[i as int] == tokens[i as int]);
        }
        push_token_events(&mut evs, &tokens[i]);
        i += 1;
    }
    proof {
        assert(tokens@.take(n as int) =~= tokens@);
    }
    evs
}

/// An empty view line.
fn new_line(start: LineStart, end: Option<usize>) -> (r: ViewLine)
    ensures
        r@ == empty_line(start, end),
{
    let r = ViewLine {
        text: Vec::new(),
        char_mappings: Vec::new(),
        line_start: start,
        ends_with_newline: false,
        end_byte: end,
    };
    proof {
        assert(r.text@ =~= Seq::<char>::empty());
        assert(r.char_mappings@ =~= Seq::<Option<usize>>::empty());
    }
    r
}

impl Layout {
    /// Build a layout from a token stream covering the given source range.
    pub fn from_tokens(tokens: &[ViewTokenWire], source_range: std::ops::Range<usize>) -> (r: Layout)
        requires
            tokens_fit(tokens@),
        ensures
            lines_match(r.lines@, layout_lines(tokens@)),
            r.source_start == source_range.start,
            r.source_end == source_range.end,
    {
        let evs = stream_events_exec(tokens);
        let mut done: Vec<ViewLine> = Vec::new();
        let mut cur = new_line(LineStart::Beginning, None);
        let n = evs.len();
        let mut i: usize = 0;
        while i < n
            invariant
                n == evs@.len(),
                i <= n,
                lines_match(done@, build_run(evs@.take(i as int)).done),
                cur@ == build_run(evs@.take(i as int)).cur,
            decreases n - i,
        {
            let ghost st = build_run(evs@.take(i as int));
            proof {
                assert(evs@.take(i + 1).drop_last() =~= evs@.take(i as int));
                assert(evs@.take(i + 1).last() == evs@[i as int]);
            }
            match &evs[i] {
                LayoutEvent::Char(c, m, w) => {
                    cur.text.push(*c);
                    cur.char_mappings.push(*m);
                    cur.end_byte = match m {
                        Some(b) => Some(b.saturating_add(*w)),
                        None => None,
                    };
                },
                LayoutEvent::Nl(m) => {
                    cur.text.push('\n');
                    cur.char_mappings.push(*m);
                    cur.ends_with_newline = true;
                    let e = match m {
                        Some(b) => Some(b.saturating_add(1)),
                        None => None,
                    };
                    cur.end_byte = e;
                    let start = if m.is_some() { LineStart::AfterSourceNewline } else { LineStart::AfterInjectedNewline };
                    let mut finished = new_line(start, e);
                    std::mem::swap(&mut cur, &mut finished);
                    done.push(finished);
                },
                LayoutEvent::Brk => {
                    let mut finished = new_line(LineStart::AfterBreak, cur.end_byte);
                    std::mem::swap(&mut cur, &mut finished);
                    done.push(finished);
                },
                LayoutEvent::Anchor(o) => {
                    if cur.char_mappings.len() == 0 {
                        cur.end_byte = Some(*o);
                    }
                },
            }
            i += 1;
            proof {
                let st2 = build_run(evs@.take(i as int));
                assert(lines_match(done@, st2.done));
            }
        }
        proof {
            assert(evs@.take(n as int) =~= evs@);
        }
        done.push(cur);
        proof {
            let st = build_run(evs@);
            assert(lines_match(done@, st.done.push(st.cur)));
        }
        Layout { lines: done, source_start: source_range.start, source_end: source_range.end }
    }
}

} // verus!

verus! {

/// The first source byte among the mappings, if any.
pub open spec fn first_mapped(m: Seq<Option<usize>>) -> Option<usize>
    decreases m.len(),
{
    if m.len() == 0 {
        None
    } else if m[0] is Some {
        m[0]
    } else {
        first_mapped(m.drop_first())
    }
}

/// The source byte of the first mapped character of a mapping list.
pub fn first_mapped_exec(m: &Vec<Option<usize>>) -> (r: Option<usize>)
    ensures
        r == first_mapped(m@),
{
    let n = m.len();
    let mut i: usize = 0;
    proof {
        assert(m@.skip(0) =~= m@);
    }
    while i < n
        invariant
            n == m@.len(),
            i <= n,
            first_mapped(m@) == first_mapped(m@.skip(i as int)),
        decreases n - i,
    {
        proof {
            assert(m@.skip(i as int)[0] == m@[i as int]);
            assert(m@.skip(i as int).drop_first() =~= m@.skip(i + 1));
        }
        if m[i].is_some() {
            return m[i];
        }
        i += 1;
    }
    proof {
        assert(m@.skip(n as int) =~= Seq::<Option<usize>>::empty());
    }
    None
}

/// Number of mapping entries of line `l` of a layout.
pub open spec fn line_len(lines: Seq<ViewLine>, l: int) -> int {
    lines[l].char_mappings@.len() as int
}

/// Whether line `l` shows a character from source byte `b`.
pub open spec fn line_has_byte(lines: Seq<ViewLine>, l: int, b: usize) -> bool {
    exists|c: int| 0 <= c < lines[l].char_mappings@.len() && lines[l].char_mappings@[c] == Some(b)
}

/// The source byte at view position (`l`, `c`): the byte of the character
/// there, or, just past the end of the line, the line's end byte.
pub open spec fn spec_view_position_to_source_byte(lines: Seq<ViewLine>, l: int, c: int) -> Option<usize> {
    if 0 <= l < lines.len() {
        if 0 <= c < lines[l].char_mappings@.len() {
            lines[l].char_mappings@[c]
        } else if c == lines[l].char_mappings@.len() {
            lines[l].end_byte
        } else {
            None
        }
    } else {
        None
    }
}

/// Character (`l`, `c`) of the layout shows source byte `byte`.
pub open spec fn char_at_byte(lines: Seq<ViewLine>, l: int, c: int, byte: usize) -> bool {
    &&& 0 <= l < lines.len()
    &&& 0 <= c < lines[l].char_mappings@.len()
    &&& lines[l].char_mappings@[c] == Some(byte)
}

/// The largest top line of a layout of `len` lines for a viewport of `visible` lines.
pub open spec fn max_top(len: int, visible: int) -> int {
    sat_sub(len, visible)
}

/// Line `k` begins with a source byte at or before `byte`.
pub open spec fn starts_at_or_before(lines: Seq<ViewLine>, k: int, byte: usize) -> bool {
    match first_mapped(lines[k].char_mappings@) {
        Some(s) => s <= byte,
        None => false,
    }
}

/// Character (`l`, `c`) shows `byte`, and no character before it (in line, then
/// column order) does.
pub open spec fn first_char_of_byte(lines: Seq<ViewLine>, byte: usize, l: int, c: int) -> bool {
    &&& char_at_byte(lines, l, c, byte)
    &&& forall|l2: int, c2: int| char_at_byte(lines, l2, c2, byte) ==> !(l2 < l || (l2 == l && c2 < c))
}

/// No character shows `byte`, and `l` is the first line whose end byte it is.
pub open spec fn first_end_of_byte(lines: Seq<ViewLine>, byte: usize, l: int) -> bool {
    &&& forall|l2: int, c2: int| !char_at_byte(lines, l2, c2, byte)
    &&& 0 <= l < lines.len()
    &&& lines[l].end_byte == Some(byte)
    &&& forall|l2: int| 0 <= l2 < l ==> lines[l2].end_byte != Some(byte)
}

/// (`l`, `k`) is the end of the first line whose end byte is `byte`, no character showing it.
pub open spec fn end_position_of_byte(lines: Seq<ViewLine>, byte: usize, l: int, k: int) -> bool {
    first_end_of_byte(lines, byte, l) && k == lines[l].char_mappings@.len()
}

/// The view position of source byte `byte`: the first character that shows it;
/// failing that, the end of the first line whose end byte it is; else none.
pub open spec fn spec_source_byte_to_view_position(lines: Seq<ViewLine>, byte: usize) -> Option<(usize, usize)> {
    if exists|l: usize, c: usize| first_char_of_byte(lines, byte, l as int, c as int) {
        Some(choose|l: usize, c: usize| first_char_of_byte(lines, byte, l as int, c as int))
    } else if exists|l: usize, k: usize| end_position_of_byte(lines, byte, l as int, k as int) {
        Some(choose|l: usize, k: usize| end_position_of_byte(lines, byte, l as int, k as int))
    } else {
        None
    }
}

impl Layout {
    /// The largest top line that still fills a viewport of `visible` lines.
    pub fn max_top_line(&self, visible: usize) -> (r: usize)
        ensures
            r == max_top(self.lines@.len() as int, visible as int),
    {
        self.lines.len().saturating_sub(visible)
    }

    /// Source byte of the first mapped character of a view line.
    pub fn get_source_byte_for_line(&self, line: usize) -> (r: Option<usize>)
        ensures
            r == if line < self.lines@.len() { first_mapped(self.lines@[line as int].char_mappings@) } else { None },
    {
        if line < self.lines.len() {
            first_mapped_exec(&self.lines[line].char_mappings)
        } else {
            None
        }
    }

    /// Whether line `line` shows a character from source byte `byte`.
    fn line_contains_byte(&self, line: usize, byte: usize) -> (r: bool)
        requires
            line < self.lines@.len(),
        ensures
            r == line_has_byte(self.lines@, line as int, byte),
    {
        let m = &self.lines[line].char_mappings;
        let n = m.len();
        let mut c: usize = 0;
        while c < n
            invariant
                m@ == self.lines@[line as int].char_mappings@,
                n == m@.len(),
                c <= n,
                forall|j: int| 0 <= j < c ==> m@[j] != Some(byte),
            decreases n - c,
        {
            if m[c] == Some(byte) {
                return true;
            }
            c += 1;
        }
        false
    }

    /// The first view line that shows a character from source byte `byte`.
    pub fn view_line_for_byte(&self, byte: usize) -> (r: Option<usize>)
        ensures
            match r {
                Some(l) => l < self.lines@.len() && line_has_byte(self.lines@, l as int, byte)
                    && forall|k: int| 0 <= k < l ==> !line_has_byte(self.lines@, k, byte),
                None => forall|k: int| 0 <= k < self.lines@.len() ==> !line_has_byte(self.lines@, k, byte),
            },
    {
        let n = self.lines.len();
        let mut l: usize = 0;
        while l < n
            invariant
                n == self.lines@.len(),
                l <= n,
                forall|k: int| 0 <= k < l ==> !line_has_byte(self.lines@, k, byte),
            decreases n - l,
        {
            if self.line_contains_byte(l, byte) {
                return Some(l);
            }
            l += 1;
        }
        None
    }

    /// The last view line whose first source byte is at or before `byte`
    /// (line 0 when there is none).
    pub fn find_nearest_view_line(&self, byte: usize) -> (r: usize)
        ensures
            r == 0 || (r < self.lines@.len() && starts_at_or_before(self.lines@, r as int, byte)),
            forall|k: int| r < k < self.lines@.len() ==> !starts_at_or_before(self.lines@, k, byte),
    {
        let n = self.lines.len();
        let mut best: usize = 0;
        let mut l: usize = 0;
        while l < n
            invariant
                n == self.lines@.len(),
                l <= n,
                best == 0 || best < l,
                best == 0 || (best < self.lines@.len() && starts_at_or_before(self.lines@, best as int, byte)),
                forall|k: int| best < k < l ==> !starts_at_or_before(self.lines@, k, byte),
            decreases n - l,
        {
            match first_mapped_exec(&self.lines[l].char_mappings) {
                Some(s) => {
                    if s <= byte {
                        best = l;
                    }
                },
                None => {},
            }
            l += 1;
        }
        best
    }

    /// The source byte at a view position (see `spec_view_position_to_source_byte`).
    pub fn view_position_to_source_byte(&self, line: usize, column: usize) -> (r: Option<usize>)
        ensures
            r == spec_view_position_to_source_byte(self.lines@, line as int, column as int),
    {
        if line < self.lines.len() {
            let m = &self.lines[line].char_mappings;
            if column < m.len() {
                m[column]
            } else if column == m.len() {
                self.lines[line].end_byte
            } else {
                None
            }
        } else {
            None
        }
    }

    /// (`l`, `k`) is the end of the first line whose end byte is `byte`, no character showing it.
pub open spec fn end_position_of_byte(lines: Seq<ViewLine>, byte: usize, l: int, k: int) -> bool {
    first_end_of_byte(lines, byte, l) && k == lines[l].char_mappings@.len()
}

/// The view position of source byte `byte`: the first character (in line,
    /// then column order) that shows it; failing that, the end of the first
    /// line whose end byte it is.
    pub fn source_byte_to_view_position(&self, byte: usize) -> (r: Option<(usize, usize)>)
        ensures
            r == spec_source_byte_to_view_position(self.lines@, byte),
            match r {
                Some((l, c)) => {
                    ||| (char_at_byte(self.lines@, l as int, c as int, byte) && forall|l2: int, c2: int|
                        char_at_byte(self.lines@, l2, c2, byte) ==> !(l2 < l || (l2 == l && c2 < c)))
                    ||| ((forall|l2: int, c2: int| !char_at_byte(self.lines@, l2, c2, byte))
                        && l < self.lines@.len() && c == self.lines@[l as int].char_mappings@.len()
                        && self.lines@[l as int].end_byte == Some(byte)
                        && forall|l2: int| 0 <= l2 < l ==> self.lines@[l2].end_byte != Some(byte))
                },
                None => (forall|l2: int, c2: int| !char_at_byte(self.lines@, l2, c2, byte))
                    && forall|l2: int| 0 <= l2 < self.lines@.len() ==> self.lines@[l2].end_byte != Some(byte),
            },
    {
        let n = self.lines.len();
        let mut l: usize = 0;
        while l < n
            invariant
                n == self.lines@.len(),
                l <= n,
                forall|l2: int, c2: int| l2 < l ==> !char_at_byte(self.lines@, l2, c2, byte),
            decreases n - l,
        {
            let m = &self.lines[l].char_mappings;
            let k = m.len();
            let mut c: usize = 0;
            while c < k
                invariant
                    n == self.lines@.len(),
                    l < n,
                    m@ == self.lines@[l as int].char_mappings@,
                    k == m@.len(),
                    c <= k,
                    forall|l2: int, c2: int| l2 < l ==> !char_at_byte(self.lines@, l2, c2, byte),
                    forall|c2: int| c2 < c ==> !char_at_byte(self.lines@, l as int, c2, byte),
                decreases k - c,
            {
                if m[c] == Some(byte) {
                    proof {
                        assert(first_char_of_byte(self.lines@, byte, l as int, c as int));
                        let (l1, c1) = choose|l1: usize, c1: usize| first_char_of_byte(self.lines@, byte, l1 as int, c1 as int);
                        assert(first_char_of_byte(self.lines@, byte, l1 as int, c1 as int));
                        assert(l1 == l && c1 == c);
                    }
                    return Some((l, c));
                }
                c += 1;
            }
            l += 1;
        }
        let mut l: usize = 0;
        while l < n
            invariant
                n == self.lines@.len(),
                l <= n,
                forall|l2: int, c2: int| !char_at_byte(self.lines@, l2, c2, byte),
                forall|l2: int| 0 <= l2 < l ==> self.lines@[l2].end_byte != Some(byte),
            decreases n - l,
        {
            if self.lines[l].end_byte == Some(byte) {
                let k = self.lines[l].char_mappings.len();
                proof {
                    assert(first_end_of_byte(self.lines@, byte, l as int));
                    assert(!exists|l: usize, c: usize| first_char_of_byte(self.lines@, byte, l as int, c as int));
                    assert(end_position_of_byte(self.lines@, byte, l as int, k as int));
                    let (l1, k1) = choose|l1: usize, k1: usize| end_position_of_byte(self.lines@, byte, l1 as int, k1 as int);
                    assert(l1 == l && k1 == k);
                }
                return Some((l, k));
            }
            l += 1;
        }
        None
    }
}

} // verus!
