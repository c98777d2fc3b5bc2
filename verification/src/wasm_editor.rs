//! The browser build's editor: a text with a (line, column) cursor, and the
//! key and mouse handling around it.

use vstd::prelude::*;
use crate::event_adapter::{WasmKeyCode, WasmKeyEvent, WasmKeyModifiers, WasmMouseEvent, WasmMouseEventKind, CONTROL_BIT};
use crate::text_util::{next_newline, lemma_next_newline, min_int, max_int, sat_sub, string_from_chars, str_chars, push_chars};
use crate::syntect_highlighter::SyntectHighlighter;
use crate::fs_backend::{path_extension, std_path_extension};
use crate::theme::Theme;
use crate::draw::{Color, Rect, Span, Style, ThemeColor, decimal, decimal_chars, fg_style, plain, repeat_char, push_repeat};
use vstd::utf8::encode_utf8;

verus! {

// ---------------------------------------------------------------------------
// Lines of a text
// ---------------------------------------------------------------------------

/// Offset where line `l` starts, counting lines from offset `from`; none past the last line.
pub open spec fn line_start_from(s: Seq<char>, from: int, l: int) -> Option<int>
    decreases l,
{
    if l <= 0 {
        Some(from)
    } else if next_newline(s, from) < s.len() {
        line_start_from(s, next_newline(s, from) + 1, l - 1)
    } else {
        None
    }
}

/// Offset where line `l` of the text starts (lines are separated by newlines;
/// a text always has at least one line).
pub open spec fn spec_line_start(s: Seq<char>, l: int) -> Option<int> {
    line_start_from(s, 0, l)
}

/// The text of the line starting at `start`, without its newline.
pub open spec fn line_text_at(s: Seq<char>, start: int) -> Seq<char> {
    s.subrange(start, next_newline(s, start))
}

/// The text of line `l`, if the text has that line.
pub open spec fn spec_get_line(s: Seq<char>, l: int) -> Option<Seq<char>> {
    match spec_line_start(s, l) {
        Some(st) => Some(line_text_at(s, st)),
        None => None,
    }
}

/// Number of newlines in `s[from..]`.
pub open spec fn newlines_from(s: Seq<char>, from: int) -> nat
    decreases s.len() - from,
{
    if from < 0 || from >= s.len() {
        0
    } else {
        (if s[from] == '\n' { 1nat } else { 0nat }) + newlines_from(s, from + 1)
    }
}

/// Number of lines of the text: one more than its newlines.
pub open spec fn spec_line_count(s: Seq<char>) -> nat {
    newlines_from(s, 0) + 1
}

proof fn lemma_line_start_from_bounds(s: Seq<char>, from: int, l: int)
    requires
        0 <= from <= s.len(),
    ensures
        line_start_from(s, from, l) matches Some(st) ==> from <= st <= s.len(),
    decreases l,
{
    if l > 0 {
        lemma_next_newline(s, from);
        if next_newline(s, from) < s.len() {
            lemma_line_start_from_bounds(s, next_newline(s, from) + 1, l - 1);
        }
    }
}

/// The text with `c` inserted at offset `off`.
pub open spec fn text_insert(s: Seq<char>, off: int, c: char) -> Seq<char> {
    s.subrange(0, off) + seq![c] + s.subrange(off, s.len() as int)
}

/// The text with offsets `a..b` removed.
pub open spec fn text_delete(s: Seq<char>, a: int, b: int) -> Seq<char> {
    s.subrange(0, a) + s.subrange(b, s.len() as int)
}

// ---------------------------------------------------------------------------
// The editor buffer
// ---------------------------------------------------------------------------

/// Editor buffer: a text with cursor tracking.
pub struct EditorBuffer {
    /// The text, as characters
    pub text: Vec<char>,
    /// Cursor position as (line, column); the column counts characters
    pub cursor: (usize, usize),
    /// Viewport top line for scrolling
    pub viewport_top: usize,
    /// Whether the buffer has been modified
    pub modified: bool,
    /// File name (if any)
    pub filename: Option<String>,
}

/// Offset of the cursor in the text: the line's start plus the column, at most
/// the line's end.
pub open spec fn spec_cursor_offset(s: Seq<char>, cursor: (usize, usize)) -> int {
    match spec_line_start(s, cursor.0 as int) {
        Some(st) => st + min_int(cursor.1 as int, line_text_at(s, st).len() as int),
        None => 0,
    }
}

/// Number of characters of line `l`, 0 when there is no such line.
pub open spec fn line_len_or_zero(s: Seq<char>, l: int) -> int {
    match spec_get_line(s, l) {
        Some(t) => t.len() as int,
        None => 0,
    }
}

/// The cursor after a move by `dx` columns or `dy` lines: the line is kept on
/// the text; a vertical move keeps the column, a horizontal one adds to it;
/// the column stays within the line.
pub open spec fn spec_moved_cursor(s: Seq<char>, cursor: (usize, usize), dx: int, dy: int) -> (usize, usize) {
    (spec_moved_line(s, cursor, dy) as usize, min_int(
        if dy != 0 { min_int(cursor.1 as int, line_len_or_zero(s, spec_moved_line(s, cursor, dy))) } else { max_int(cursor.1 + dx, 0) },
        line_len_or_zero(s, spec_moved_line(s, cursor, dy))) as usize)
}

pub open spec fn spec_moved_line(s: Seq<char>, cursor: (usize, usize), dy: int) -> int {
    min_int(max_int(cursor.0 + dy, 0), sat_sub(spec_line_count(s) as int, 1))
}

/// Text and cursor after a backspace (see `delete_char`).
pub open spec fn spec_delete_char(s: Seq<char>, cursor: (usize, usize)) -> Option<(Seq<char>, (usize, usize))> {
    if cursor.1 > 0 {
        match spec_line_start(s, cursor.0 as int) {
            Some(st) => Some((text_delete(s,
                st + (if cursor.1 - 1 < line_text_at(s, st).len() { cursor.1 - 1 } else { 0 }),
                spec_cursor_offset(s, cursor)), (cursor.0, (cursor.1 - 1) as usize))),
            None => None,
        }
    } else if cursor.0 > 0 {
        match (spec_get_line(s, cursor.0 - 1), spec_line_start(s, cursor.0 as int)) {
            (Some(prev), Some(st)) => if st > 0 {
                Some((text_delete(s, st - 1, st), ((cursor.0 - 1) as usize, prev.len() as usize)))
            } else {
                None
            },
            _ => None,
        }
    } else {
        None
    }
}

impl EditorBuffer {
    /// The text.
    pub open spec fn spec_text(&self) -> Seq<char> {
        self.text@
    }

    /// Values fit the machine: the text can grow by one, and positions are far
    /// from the integer limits of cursor moves.
    pub open spec fn fits(&self) -> bool {
        &&& self.spec_text().len() + 1 < i32::MAX
        &&& self.cursor.0 + 0x10000 < i32::MAX
        &&& self.cursor.1 + 0x10000 < i32::MAX
        &&& self.viewport_top + 0x10000 < usize::MAX
    }

    /// An empty buffer.
    pub fn new() -> (r: Self)
        ensures
            r.spec_text() == Seq::<char>::empty(),
            r.cursor == (0usize, 0usize),
            r.viewport_top == 0,
            !r.modified,
            r.filename is None,
    {
        Self { text: Vec::new(), cursor: (0, 0), viewport_top: 0, modified: false, filename: None }
    }

    /// A buffer holding `content`.
    pub fn from_content(content: &str, filename: Option<String>) -> (r: Self)
        ensures
            r.spec_text() == content@,
            r.cursor == (0usize, 0usize),
            r.viewport_top == 0,
            !r.modified,
            r.filename == filename,
    {
        Self { text: str_chars(content), cursor: (0, 0), viewport_top: 0, modified: false, filename }
    }

    /// Offset of the first newline at or after `from`, or the text's length.
    fn next_newline_at(&self, from: usize) -> (r: usize)
        requires
            from <= self.text@.len(),
        ensures
            r == next_newline(self.text@, from as int),
    {
        proof {
            lemma_next_newline(self.text@, from as int);
        }
        let n = self.text.len();
        let mut i = from;
        while i < n && self.text[i] != '\n'
            invariant
                from <= i <= n,
                n == self.text@.len(),
                next_newline(self.text@, i as int) == next_newline(self.text@, from as int),
            decreases n - i,
        {
            i += 1;
        }
        i
    }

    /// Offset where line `line` starts, if the text has that line.
    pub fn line_start_offset(&self, line: usize) -> (r: Option<usize>)
        ensures
            match r {
                Some(st) => spec_line_start(self.text@, line as int) == Some(st as int) && st <= self.text@.len(),
                None => spec_line_start(self.text@, line as int) is None,
            },
    {
        let n = self.text.len();
        let mut start: usize = 0;
        let mut l: usize = 0;
        while l < line
            invariant
                n == self.text@.len(),
                l <= line,
                start <= n,
                line_start_from(self.text@, start as int, (line - l) as int) == spec_line_start(self.text@, line as int),
            decreases line - l,
        {
            let nl = self.next_newline_at(start);
            if nl >= n {
                return None;
            }
            start = nl + 1;
            l += 1;
        }
        Some(start)
    }

    /// The characters of line `line`, if the text has that line.
    pub fn get_line(&self, line: usize) -> (r: Option<Vec<char>>)
        ensures
            match r {
                Some(t) => spec_get_line(self.text@, line as int) == Some(t@),
                None => spec_get_line(self.text@, line as int) is None,
            },
    {
        match self.line_start_offset(line) {
            Some(st) => {
                let end = self.next_newline_at(st);
                proof {
                    lemma_next_newline(self.text@, st as int);
                }
                let mut out: Vec<char> = Vec::new();
                let mut i = st;
                while i < end
                    invariant
                        st <= i <= end,
                        end <= self.text@.len(),
                        out@ == self.text@.subrange(st as int, i as int),
                    decreases end - i,
                {
                    out.push(self.text[i]);
                    i += 1;
                    proof {
                        assert(out@ =~= self.text@.subrange(st as int, i as int));
                    }
                }
                Some(out)
            },
            None => None,
        }
    }

    /// Number of lines of the text.
    pub fn line_count(&self) -> (r: usize)
        requires
            self.text@.len() < usize::MAX,
        ensures
            r == spec_line_count(self.text@),
    {
        let n = self.text.len();
        let mut count: usize = 1;
        let mut i = n;
        while i > 0
            invariant
                i <= n,
                n == self.text@.len(),
                n < usize::MAX,
                count == newlines_from(self.text@, i as int) + 1,
                count <= n - i + 1,
            decreases i,
        {
            i -= 1;
            if self.text[i] == '\n' {
                count += 1;
            }
        }
        count
    }

    /// The text as a string.
    pub fn content(&self) -> (r: String)
        ensures
            r@ == self.text@,
    {
        string_from_chars(&self.text)
    }

    /// Convert the cursor (line, column) to an offset in the text
    pub fn cursor_to_offset(&self) -> (r: usize)
        ensures
            r == spec_cursor_offset(self.text@, self.cursor),
            r <= self.text@.len(),
    {
        let (line, col) = self.cursor;
        match self.line_start_offset(line) {
            Some(st) => {
                let end = self.next_newline_at(st);
                proof {
                    lemma_next_newline(self.text@, st as int);
                }
                let len = end - st;
                st + if col <= len { col } else { len }
            },
            None => 0,
        }
    }

    /// Insert `c` at offset `off`.
    fn insert_at(&mut self, off: usize, c: char)
        requires
            off <= old(self).text@.len(),
        ensures
            final(self).text@ == text_insert(old(self).text@, off as int, c),
            final(self).cursor == old(self).cursor,
            final(self).viewport_top == old(self).viewport_top,
            final(self).modified == old(self).modified,
            final(self).filename == old(self).filename,
    {
        self.text.insert(off, c);
        proof {
            assert(self.text@ =~= text_insert(old(self).text@, off as int, c));
        }
    }

    /// Remove offsets `a..b`.
    fn delete_range(&mut self, a: usize, b: usize)
        requires
            a <= b <= old(self).text@.len(),
        ensures
            final(self).text@ == text_delete(old(self).text@, a as int, b as int),
            final(self).cursor == old(self).cursor,
            final(self).viewport_top == old(self).viewport_top,
            final(self).modified == old(self).modified,
            final(self).filename == old(self).filename,
    {
        let mut k = a;
        while k < b
            invariant
                a <= k <= b,
                b <= old(self).text@.len(),
                self.text@ == text_delete(old(self).text@, a as int, k as int),
                self.cursor == old(self).cursor,
                self.viewport_top == old(self).viewport_top,
                self.modified == old(self).modified,
                self.filename == old(self).filename,
            decreases b - k,
        {
            self.text.remove(a);
            k += 1;
            proof {
                assert(self.text@ =~= text_delete(old(self).text@, a as int, k as int));
            }
        }
    }

    /// Type a character at the cursor.
    pub fn insert_char(&mut self, ch: char)
        requires
            old(self).fits(),
        ensures
            final(self).text@ == text_insert(old(self).text@, spec_cursor_offset(old(self).text@, old(self).cursor), ch),
            final(self).cursor == (old(self).cursor.0, (old(self).cursor.1 + 1) as usize),
            final(self).modified,
            final(self).viewport_top == old(self).viewport_top,
            final(self).filename == old(self).filename,
    {
        let offset = self.cursor_to_offset();
        self.insert_at(offset, ch);
        self.cursor.1 = self.cursor.1 + 1;
        self.modified = true;
    }

    /// Break the line at the cursor.
    pub fn insert_newline(&mut self)
        requires
            old(self).fits(),
        ensures
            final(self).text@ == text_insert(old(self).text@, spec_cursor_offset(old(self).text@, old(self).cursor), '\n'),
            final(self).cursor == ((old(self).cursor.0 + 1) as usize, 0usize),
            final(self).modified,
            final(self).viewport_top == old(self).viewport_top,
            final(self).filename == old(self).filename,
    {
        let offset = self.cursor_to_offset();
        self.insert_at(offset, '\n');
        self.cursor = (self.cursor.0 + 1, 0);
        self.modified = true;
    }

    /// Delete the character before the cursor, or join with the previous line
    /// at the start of a line.
    pub fn delete_char(&mut self)
        ensures
            match spec_delete_char(old(self).text@, old(self).cursor) {
                Some((t, c)) => final(self).text@ == t && final(self).cursor == c && final(self).modified,
                None => final(self).text@ == old(self).text@ && final(self).cursor == old(self).cursor
                    && final(self).modified == old(self).modified,
            },
            final(self).viewport_top == old(self).viewport_top,
            final(self).filename == old(self).filename,
    {
        let (line, col) = self.cursor;
        if col > 0 {
            let offset = self.cursor_to_offset();
            match self.line_start_offset(line) {
                Some(line_start) => {
                    let end = self.next_newline_at(line_start);
                    proof {
                        lemma_next_newline(self.text@, line_start as int);
                    }
                    let len = end - line_start;
                    let byte_col_before = if col - 1 < len { col - 1 } else { 0 };
                    let delete_start = line_start + byte_col_before;
                    self.delete_range(delete_start, offset);
                    self.cursor.1 = col - 1;
                    self.modified = true;
                },
                None => {},
            }
        } else if line > 0 {
            match self.get_line(line - 1) {
                Some(prev_line) => {
                    let prev_line_len = prev_line.len();
                    match self.line_start_offset(line) {
                        Some(line_start) => {
                            if line_start > 0 {
                                self.delete_range(line_start - 1, line_start);
                                self.cursor = (line - 1, prev_line_len);
                                self.modified = true;
                            }
                        },
                        None => {},
                    }
                },
                None => {},
            }
        }
    }

    /// Number of characters of line `line`, 0 when there is no such line.
    fn line_len(&self, line: usize) -> (r: usize)
        ensures
            r == line_len_or_zero(self.text@, line as int),
    {
        match self.get_line(line) {
            Some(t) => t.len(),
            None => 0,
        }
    }

    /// Move the cursor by `dx` columns or `dy` lines, staying on the text.
    pub fn move_cursor(&mut self, dx: i32, dy: i32)
        requires
            old(self).fits(),
            -0x10000 <= dx <= 0x10000,
            -0x10000 <= dy <= 0x10000,
        ensures
            final(self).cursor == spec_moved_cursor(old(self).text@, old(self).cursor, dx as int, dy as int),
            final(self).text@ == old(self).text@,
            final(self).modified == old(self).modified,
            final(self).viewport_top == old(self).viewport_top,
            final(self).filename == old(self).filename,
    {
        let (line, col) = self.cursor;
        let line_count = self.line_count();
        let moved = line as i32 + dy;
        let new_line: usize = if moved <= 0 { 0 } else { moved as usize };
        let last = line_count - 1;
        let new_line = if new_line <= last { new_line } else { last };
        let line_len = self.line_len(new_line);
        let new_col: usize = if dy != 0 {
            if col <= line_len { col } else { line_len }
        } else {
            let c = col as i32 + dx;
            if c <= 0 { 0 } else { c as usize }
        };
        let new_col = if new_col <= line_len { new_col } else { line_len };
        self.cursor = (new_line, new_col);
    }

    /// Move the cursor to the start of its line.
    pub fn move_to_line_start(&mut self)
        ensures
            final(self).cursor == (old(self).cursor.0, 0usize),
            final(self).text@ == old(self).text@,
            final(self).modified == old(self).modified,
            final(self).viewport_top == old(self).viewport_top,
            final(self).filename == old(self).filename,
    {
        self.cursor.1 = 0;
    }

    /// Move the cursor to the end of its line.
    pub fn move_to_line_end(&mut self)
        ensures
            final(self).cursor == match spec_get_line(old(self).text@, old(self).cursor.0 as int) {
                Some(t) => (old(self).cursor.0, t.len() as usize),
                None => old(self).cursor,
            },
            final(self).text@ == old(self).text@,
            final(self).modified == old(self).modified,
            final(self).viewport_top == old(self).viewport_top,
            final(self).filename == old(self).filename,
    {
        match self.get_line(self.cursor.0) {
            Some(t) => {
                self.cursor.1 = t.len();
            },
            None => {},
        }
    }

    /// Scroll so that the cursor's line is among the `height` lines shown.
    pub fn ensure_cursor_visible(&mut self, height: usize)
        requires
            old(self).cursor.0 + 1 < usize::MAX,
            old(self).viewport_top + height <= usize::MAX,
        ensures
            final(self).viewport_top == if old(self).cursor.0 < old(self).viewport_top {
                old(self).cursor.0
            } else if old(self).cursor.0 >= old(self).viewport_top + height {
                (old(self).cursor.0 + 1 - height) as usize
            } else {
                old(self).viewport_top
            },
            final(self).text@ == old(self).text@,
            final(self).cursor == old(self).cursor,
            final(self).modified == old(self).modified,
            final(self).filename == old(self).filename,
    {
        let (line, _) = self.cursor;
        if line < self.viewport_top {
            self.viewport_top = line;
        } else if line >= self.viewport_top + height {
            self.viewport_top = line + 1 - height;
        }
    }
}

// ---------------------------------------------------------------------------
// The editor state
// ---------------------------------------------------------------------------

fn copy_string(s: &String) -> (r: String)
    ensures
        r@ == s@,
{
    let cs = str_chars(s.as_str());
    string_from_chars(&cs)
}

/// Editor state of the browser build
pub struct WasmEditorState {
    pub buffer: EditorBuffer,
    pub width: u16,
    pub height: u16,
    pub status_message: Option<String>,
    /// Shared theme from view module
    pub theme: Theme,
    /// Syntax highlighter (optional, based on file extension)
    pub highlighter: Option<SyntectHighlighter>,
}

/// The status after a key: what it sets, or unchanged.
pub enum StatusChange {
    Keep,
    Clear,
    SaveNotImplemented,
}

/// Whether the key is Ctrl with character `c`.
pub open spec fn is_ctrl_char(event: WasmKeyEvent, c: char) -> bool {
    event.code == WasmKeyCode::Char(c) && (event.modifiers.spec_bits() & CONTROL_BIT) == CONTROL_BIT
}

/// Lines a page move covers for a screen of `height` rows.
pub open spec fn page_rows(height: u16) -> int {
    sat_sub(height as int, 2)
}

impl WasmEditorState {
    pub fn new(width: u16, height: u16) -> (r: Self)
        ensures
            r.width == width,
            r.height == height,
            r.buffer.spec_text() == Seq::<char>::empty(),
            r.buffer.cursor == (0usize, 0usize),
            r.status_message matches Some(m) && m@ == "Fresh Editor (WASM) - Press Ctrl+Q to quit"@,
    {
        Self {
            buffer: EditorBuffer::new(),
            width,
            height,
            status_message: Some("Fresh Editor (WASM) - Press Ctrl+Q to quit".to_string()),
            theme: Theme::dark(),
            highlighter: None,
        }
    }

    /// Load content into the editor: a fresh buffer with the text and file
    /// name, a highlighter chosen by the name's extension (kept as it was when
    /// the name has none), and a status naming what was loaded.
    pub fn load_content(&mut self, content: &str, filename: Option<String>)
        ensures
            final(self).buffer.spec_text() == content@,
            final(self).buffer.cursor == (0usize, 0usize),
            final(self).buffer.viewport_top == 0,
            !final(self).buffer.modified,
            final(self).buffer.filename == filename,
            final(self).status_message matches Some(m) && m@ == "Loaded: "@ + match filename {
                Some(f) => f@,
                None => "[No Name]"@,
            },
            (match filename {
                Some(f) => std_path_extension(f@) is Some,
                None => false,
            }) || final(self).highlighter == old(self).highlighter,
            final(self).highlighter != old(self).highlighter ==> (final(self).highlighter matches Some(h)
                ==> h.spec_cache() is None && h.spec_last_len() == 0),
            final(self).width == old(self).width,
            final(self).height == old(self).height,
            final(self).theme == old(self).theme,
    {
        let shown: String = match &filename {
            Some(f) => {
                match path_extension(f.as_str()) {
                    Some(ext) => {
                        self.highlighter = SyntectHighlighter::for_extension(ext.as_str());
                    },
                    None => {},
                }
                copy_string(f)
            },
            None => "[No Name]".to_string(),
        };
        self.buffer = EditorBuffer::from_content(content, filename);
        let mut msg = str_chars("Loaded: ");
        let sc = str_chars(shown.as_str());
        push_chars(&mut msg, &sc);
        self.status_message = Some(string_from_chars(&msg));
    }

    /// The current content.
    pub fn get_content(&self) -> (r: String)
        ensures
            r@ == self.buffer.text@,
    {
        self.buffer.content()
    }

    /// Whether the buffer has been modified.
    pub fn is_modified(&self) -> (r: bool)
        ensures
            r == self.buffer.modified,
    {
        self.buffer.modified
    }

    /// Handle a key; false means quit. Ctrl+S reports that saving is not
    /// available; characters, Enter and Backspace edit and clear the status;
    /// arrows, Home, End and page keys move the cursor.
    pub fn handle_key(&mut self, event: WasmKeyEvent) -> (r: bool)
        requires
            old(self).buffer.fits(),
        ensures
            r == !is_ctrl_char(event, 'q'),
            is_ctrl_char(event, 'q') ==> final(self).buffer.spec_text() == old(self).buffer.spec_text()
                && final(self).buffer.cursor == old(self).buffer.cursor,
            !is_ctrl_char(event, 'q') && is_ctrl_char(event, 's') ==>
                (final(self).status_message matches Some(m) && m@ == "Save not implemented in WASM demo"@),
            !is_ctrl_char(event, 'q') && !is_ctrl_char(event, 's') ==> match event.code {
                WasmKeyCode::Char(c) => final(self).buffer.spec_text() == text_insert(old(self).buffer.spec_text(),
                    spec_cursor_offset(old(self).buffer.spec_text(), old(self).buffer.cursor), c)
                    && final(self).buffer.cursor == (old(self).buffer.cursor.0, (old(self).buffer.cursor.1 + 1) as usize)
                    && final(self).status_message is None,
                WasmKeyCode::Enter => final(self).buffer.spec_text() == text_insert(old(self).buffer.spec_text(),
                    spec_cursor_offset(old(self).buffer.spec_text(), old(self).buffer.cursor), '\n')
                    && final(self).status_message is None,
                WasmKeyCode::Backspace => final(self).status_message is None
                    && match spec_delete_char(old(self).buffer.spec_text(), old(self).buffer.cursor) {
                        Some((t, c)) => final(self).buffer.spec_text() == t && final(self).buffer.cursor == c,
                        None => final(self).buffer.spec_text() == old(self).buffer.spec_text(),
                    },
                WasmKeyCode::Left => final(self).buffer.cursor == spec_moved_cursor(old(self).buffer.spec_text(),
                    old(self).buffer.cursor, -1, 0),
                WasmKeyCode::Right => final(self).buffer.cursor == spec_moved_cursor(old(self).buffer.spec_text(),
                    old(self).buffer.cursor, 1, 0),
                WasmKeyCode::Up => final(self).buffer.cursor == spec_moved_cursor(old(self).buffer.spec_text(),
                    old(self).buffer.cursor, 0, -1),
                WasmKeyCode::Down => final(self).buffer.cursor == spec_moved_cursor(old(self).buffer.spec_text(),
                    old(self).buffer.cursor, 0, 1),
                WasmKeyCode::Home => final(self).buffer.cursor == (old(self).buffer.cursor.0, 0usize),
                WasmKeyCode::PageUp => final(self).buffer.cursor == spec_moved_cursor(old(self).buffer.spec_text(),
                    old(self).buffer.cursor, 0, -page_rows(old(self).height)),
                WasmKeyCode::PageDown => final(self).buffer.cursor == spec_moved_cursor(old(self).buffer.spec_text(),
                    old(self).buffer.cursor, 0, page_rows(old(self).height)),
                WasmKeyCode::End => final(self).buffer.spec_text() == old(self).buffer.spec_text(),
                _ => final(self).buffer.spec_text() == old(self).buffer.spec_text()
                    && final(self).buffer.cursor == old(self).buffer.cursor,
            },
    {
        let control = WasmKeyModifiers::control();
        let ctrl = event.modifiers.contains(control);
        match event.code {
            WasmKeyCode::Char(c) => {
                if c == 'q' && ctrl {
                    return false;
                }
                if c == 's' && ctrl {
                    self.status_message = Some("Save not implemented in WASM demo".to_string());
                } else {
                    self.buffer.insert_char(c);
                    self.status_message = None;
                }
            },
            WasmKeyCode::Enter => {
                self.buffer.insert_newline();
                self.status_message = None;
            },
            WasmKeyCode::Backspace => {
                self.buffer.delete_char();
                self.status_message = None;
            },
            WasmKeyCode::Left => {
                self.buffer.move_cursor(-1, 0);
            },
            WasmKeyCode::Right => {
                self.buffer.move_cursor(1, 0);
            },
            WasmKeyCode::Up => {
                self.buffer.move_cursor(0, -1);
            },
            WasmKeyCode::Down => {
                self.buffer.move_cursor(0, 1);
            },
            WasmKeyCode::Home => {
                self.buffer.move_to_line_start();
            },
            WasmKeyCode::End => {
                self.buffer.move_to_line_end();
            },
            WasmKeyCode::PageUp => {
                let height = self.height.saturating_sub(2) as i32;
                self.buffer.move_cursor(0, -height);
            },
            WasmKeyCode::PageDown => {
                let height = self.height.saturating_sub(2) as i32;
                self.buffer.move_cursor(0, height);
            },
            _ => {},
        }
        true
    }

    /// Handle a mouse event: a press places the cursor (within the text), the
    /// wheel moves it by three lines.
    pub fn handle_mouse(&mut self, event: WasmMouseEvent)
        requires
            old(self).buffer.fits(),
        ensures
            final(self).buffer.spec_text() == old(self).buffer.spec_text(),
            match event.kind {
                WasmMouseEventKind::Down(_) => final(self).buffer.cursor == (
                    min_int(old(self).buffer.viewport_top + event.row, sat_sub(spec_line_count(old(self).buffer.spec_text()) as int, 1)) as usize,
                    min_int(event.column as int, line_len_or_zero(old(self).buffer.spec_text(),
                        min_int(old(self).buffer.viewport_top + event.row, sat_sub(spec_line_count(old(self).buffer.spec_text()) as int, 1)))) as usize),
                WasmMouseEventKind::ScrollDown => final(self).buffer.cursor == spec_moved_cursor(
                    old(self).buffer.spec_text(), old(self).buffer.cursor, 0, 3),
                WasmMouseEventKind::ScrollUp => final(self).buffer.cursor == spec_moved_cursor(
                    old(self).buffer.spec_text(), old(self).buffer.cursor, 0, -3),
                _ => final(self).buffer.cursor == old(self).buffer.cursor,
            },
    {
        match event.kind {
            WasmMouseEventKind::Down(_) => {
                let line = self.buffer.viewport_top + event.row as usize;
                let col = event.column as usize;
                let line_count = self.buffer.line_count();
                let last = line_count - 1;
                let line = if line <= last { line } else { last };
                let line_len = self.buffer.line_len(line);
                let col = if col <= line_len { col } else { line_len };
                self.buffer.cursor = (line, col);
            },
            WasmMouseEventKind::ScrollDown => {
                self.buffer.move_cursor(0, 3);
            },
            WasmMouseEventKind::ScrollUp => {
                self.buffer.move_cursor(0, -3);
            },
            _ => {},
        }
    }
}


/// What the text area of the web editor shows: the base style, one span per
/// row, and where the cursor goes (if it is on screen).
pub struct TextAreaPlan {
    pub style: Style,
    pub lines: Vec<Span>,
    pub cursor: Option<(u16, u16)>,
}

/// Row `i` of the text area: the text of line `top + i`, or `~` past the end.
pub open spec fn text_area_row(text: Seq<char>, top: int, i: int) -> (Seq<char>, Style) {
    if top + i >= spec_line_count(text) {
        (seq!['~'], fg_style(Color::Theme(ThemeColor::SyntaxComment)))
    } else {
        match spec_get_line(text, top + i) {
            Some(l) => (l, plain()),
            None => (Seq::empty(), plain()),
        }
    }
}

/// Screen cell of the cursor when its line is among the `height` rows shown
/// from `top` and the cell is inside `area`.
pub open spec fn text_area_cursor(cursor: (usize, usize), top: int, area: Rect) -> Option<(u16, u16)> {
    let (line, col) = cursor;
    if top <= line && line < top + area.height {
        let y = (area.y + (line - top)) as u16;
        let x = (area.x + (col as u16)) as u16;
        if x < area.x + area.width && y < area.y + area.height { Some((x, y)) } else { None }
    } else {
        None
    }
}

/// Left part of the status bar: the file name (or `[No Name]`) and `[+]` when modified.
pub open spec fn status_left(filename: Option<Seq<char>>, modified: bool) -> Seq<char> {
    seq![' '] + (match filename { Some(f) => f, None => "[No Name]"@ }) + seq![' ']
        + (if modified { "[+]"@ } else { Seq::empty() }) + seq![' ']
}

/// Right part of the status bar: the 1-based cursor line and column.
pub open spec fn status_right(line: nat, col: nat) -> Seq<char> {
    seq![' '] + decimal(line + 1) + seq![':'] + decimal(col + 1) + seq![' ']
}

/// Byte length of a text, as a `u16` (cut as `as` cuts).
pub open spec fn byte_len_u16(s: Seq<char>) -> u16 {
    (encode_utf8(s).len() as usize) as u16
}

/// The status bar: left part, message, padding to the width, right part.
pub open spec fn status_text(width: u16, left: Seq<char>, message: Seq<char>, right: Seq<char>) -> Seq<char> {
    let pad = sat_sub(sat_sub(sat_sub(width as int, byte_len_u16(left) as int), byte_len_u16(right) as int), byte_len_u16(message) as int);
    left + message + repeat_char(' ', pad as nat) + right
}

fn push_all(out: &mut Vec<char>, s: &Vec<char>)
    ensures
        final(out)@ == old(out)@ + s@,
{
    let n = s.len();
    let mut i: usize = 0;
    while i < n
        invariant
            n == s@.len(),
            i <= n,
            out@ == old(out)@ + s@.subrange(0, i as int),
        decreases n - i,
    {
        out.push(s[i]);
        i += 1;
        proof {
            assert(out@ =~= old(out)@ + s@.subrange(0, i as int));
        }
    }
    proof {
        assert(s@.subrange(0, n as int) =~= s@);
    }
}

impl WasmEditorState {
    /// The text area in `area`: each row's line (or `~` past the end) and the cursor cell.
    pub fn render_text_area(&mut self, area: Rect) -> (r: TextAreaPlan)
        requires
            old(self).buffer.text@.len() < usize::MAX,
            old(self).buffer.viewport_top + area.height <= usize::MAX,
            area.y + area.height <= u16::MAX,
            area.x + area.width <= u16::MAX,
            area.x + (old(self).buffer.cursor.1 as u16) <= u16::MAX,
        ensures
            *final(self) == *old(self),
            r.style == (Style { fg: Some(Color::Theme(ThemeColor::EditorFg)), bg: Some(Color::Theme(ThemeColor::EditorBg)), bold: false }),
            r.lines@.len() == area.height,
            forall|i: int| 0 <= i < area.height ==> ((#[trigger] r.lines@[i]).text@, r.lines@[i].style)
                == text_area_row(old(self).buffer.text@, old(self).buffer.viewport_top as int, i),
            r.cursor == text_area_cursor(old(self).buffer.cursor, old(self).buffer.viewport_top as int, area),
    {
        let height = area.height as usize;
        let line_count = self.buffer.line_count();
        let top = self.buffer.viewport_top;
        let mut lines: Vec<Span> = Vec::new();
        let mut i: usize = 0;
        while i < height
            invariant
                height == area.height,
                i <= height,
                top == self.buffer.viewport_top,
                top + height <= usize::MAX,
                line_count == spec_line_count(self.buffer.text@),
                lines@.len() == i,
                forall|j: int| 0 <= j < i ==> ((#[trigger] lines@[j]).text@, lines@[j].style)
                    == text_area_row(self.buffer.text@, top as int, j),
            decreases height - i,
        {
            let line_idx = top + i;
            let span = if line_idx >= line_count {
                let mut t: Vec<char> = Vec::new();
                t.push('~');
                proof {
                    assert(t@ =~= seq!['~']);
                }
                Span { text: string_from_chars(&t), style: Style { fg: Some(Color::Theme(ThemeColor::SyntaxComment)), bg: None, bold: false } }
            } else {
                match self.buffer.get_line(line_idx) {
                    Some(t) => Span { text: string_from_chars(&t), style: Style::plain() },
                    None => Span { text: String::new(), style: Style::plain() },
                }
            };
            lines.push(span);
            i += 1;
        }
        let (cursor_line, cursor_col) = self.buffer.cursor;
        let mut cursor: Option<(u16, u16)> = None;
        if cursor_line >= top && cursor_line < top + height {
            let cursor_y = area.y + (cursor_line - top) as u16;
            let cursor_x = area.x + cursor_col as u16;
            if cursor_x < area.x + area.width && cursor_y < area.y + area.height {
                cursor = Some((cursor_x, cursor_y));
            }
        }
        TextAreaPlan {
            style: Style { fg: Some(Color::Theme(ThemeColor::EditorFg)), bg: Some(Color::Theme(ThemeColor::EditorBg)), bold: false },
            lines,
            cursor,
        }
    }

    /// The status bar: file name, modified mark, message and cursor position,
    /// in the theme's inverted editor colours.
    pub fn render_status_bar(&self, area: Rect) -> (r: Span)
        requires
            self.buffer.fits(),
        ensures
            r.text@ == status_text(area.width, status_left(match self.buffer.filename { Some(f) => Some(f@), None => None },
                self.buffer.modified), match self.status_message { Some(m) => m@, None => Seq::empty() },
                status_right(self.buffer.cursor.0 as nat, self.buffer.cursor.1 as nat)),
            r.style == (Style { fg: Some(Color::Theme(ThemeColor::EditorBg)), bg: Some(Color::Theme(ThemeColor::EditorFg)), bold: false }),
    {
        proof {
            reveal_strlit("[No Name]");
            reveal_strlit("[+]");
        }
        let (line, col) = self.buffer.cursor;
        let mut left: Vec<char> = Vec::new();
        left.push(' ');
        match &self.buffer.filename {
            Some(f) => {
                let fc = str_chars(f.as_str());
                push_all(&mut left, &fc);
            },
            None => {
                let fc = str_chars("[No Name]");
                push_all(&mut left, &fc);
            },
        }
        left.push(' ');
        if self.buffer.modified {
            let m = str_chars("[+]");
            push_all(&mut left, &m);
        }
        left.push(' ');
        let mut right: Vec<char> = Vec::new();
        right.push(' ');
        let dl = decimal_chars(line + 1);
        push_all(&mut right, &dl);
        right.push(':');
        let dc = decimal_chars(col + 1);
        push_all(&mut right, &dc);
        right.push(' ');
        let message: String = match &self.status_message {
            Some(m) => m.clone(),
            None => String::new(),
        };
        let left_s = string_from_chars(&left);
        let right_s = string_from_chars(&right);
        let pad = area.width
            .saturating_sub(left_s.as_str().len() as u16)
            .saturating_sub(right_s.as_str().len() as u16)
            .saturating_sub(message.as_str().len() as u16) as usize;
        let mut status: Vec<char> = left;
        let mc = str_chars(message.as_str());
        push_all(&mut status, &mc);
        push_repeat(&mut status, ' ', pad);
        push_all(&mut status, &right);
        proof {
            assert(left_s@ =~= status_left(match self.buffer.filename { Some(f) => Some(f@), None => None }, self.buffer.modified));
            assert(right_s@ =~= status_right(line as nat, col as nat));
        }
        Span {
            text: string_from_chars(&status),
            style: Style { fg: Some(Color::Theme(ThemeColor::EditorBg)), bg: Some(Color::Theme(ThemeColor::EditorFg)), bold: false },
        }
    }

    /// Render: keep the cursor visible in the rows above the status bar, then
    /// plan the text area (`main`) and the status bar (`status`), as the
    /// screen of `size` is split between them.
    pub fn render(&mut self, size: Rect, main: Rect, status: Rect) -> (r: (TextAreaPlan, Span))
        requires
            old(self).buffer.fits(),
            old(self).buffer.text@.len() < usize::MAX,
            main.y + main.height <= u16::MAX,
            main.x + main.width <= u16::MAX,
            main.x + (old(self).buffer.cursor.1 as u16) <= u16::MAX,
        ensures
            final(self).buffer.viewport_top == (if old(self).buffer.cursor.0 < old(self).buffer.viewport_top {
                old(self).buffer.cursor.0
            } else if old(self).buffer.cursor.0 >= old(self).buffer.viewport_top + sat_sub(size.height as int, 2) {
                (old(self).buffer.cursor.0 + 1 - sat_sub(size.height as int, 2)) as usize
            } else {
                old(self).buffer.viewport_top
            }),
            r.0.lines@.len() == main.height,
            forall|i: int| 0 <= i < main.height ==> ((#[trigger] r.0.lines@[i]).text@, r.0.lines@[i].style)
                == text_area_row(old(self).buffer.text@, final(self).buffer.viewport_top as int, i),
            r.0.cursor == text_area_cursor(old(self).buffer.cursor, final(self).buffer.viewport_top as int, main),
            r.1.text@ == status_text(status.width, status_left(match old(self).buffer.filename { Some(f) => Some(f@), None => None },
                old(self).buffer.modified), match old(self).status_message { Some(m) => m@, None => Seq::empty() },
                status_right(old(self).buffer.cursor.0 as nat, old(self).buffer.cursor.1 as nat)),
    {
        let height = size.height.saturating_sub(2) as usize;
        self.buffer.ensure_cursor_visible(height);
        let text = self.render_text_area(main);
        let bar = self.render_status_bar(status);
        (text, bar)
    }
}
// ---------------------------------------------------------------------------
// Typing and Backspace
// ---------------------------------------------------------------------------

/// A newline found before `off` is found the same in a text that agrees with
/// `s` before `off`.
proof fn lemma_next_newline_prefix(s: Seq<char>, t: Seq<char>, off: int, x: int)
    requires
        0 <= x,
        off <= s.len(),
        off <= t.len(),
        forall|i: int| 0 <= i < off ==> s[i] == t[i],
        next_newline(s, x) < off,
    ensures
        next_newline(t, x) == next_newline(s, x),
    decreases off - x,
{
    assert(x < s.len());
    lemma_next_newline(s, x);
    assert(s[x] == t[x]);
    if s[x] != '\n' {
        lemma_next_newline_prefix(s, t, off, x + 1);
    }
}

/// Line starts up to `off` are the same in a text that agrees with `s` before `off`.
proof fn lemma_line_start_prefix(s: Seq<char>, t: Seq<char>, off: int, from: int, k: int, st: int)
    requires
        0 <= from <= s.len(),
        off <= s.len(),
        off <= t.len(),
        forall|i: int| 0 <= i < off ==> s[i] == t[i],
        line_start_from(s, from, k) == Some(st),
        st <= off,
    ensures
        line_start_from(t, from, k) == Some(st),
    decreases k,
{
    if k > 0 {
        let nn = next_newline(s, from);
        lemma_next_newline(s, from);
        lemma_line_start_from_bounds(s, nn + 1, k - 1);
        lemma_next_newline_prefix(s, t, off, from);
        lemma_line_start_prefix(s, t, off, nn + 1, k - 1, st);
    }
}

/// After inserting a non-newline at `off`, the next newline from a position
/// past `off` is one further on.
proof fn lemma_next_newline_after_insert(s: Seq<char>, off: int, c: char, x: int)
    requires
        0 <= off <= s.len(),
        c != '\n',
        off < x,
    ensures
        next_newline(text_insert(s, off, c), x) == next_newline(s, x - 1) + 1,
    decreases s.len() + 1 - x,
{
    let t = text_insert(s, off, c);
    if x < t.len() {
        assert(t[x] == s[x - 1]);
        if s[x - 1] != '\n' {
            lemma_next_newline_after_insert(s, off, c, x + 1);
        }
    }
}

/// After inserting a non-newline at `off`, the next newline from a position
/// before it, with none in between, is one further on.
proof fn lemma_next_newline_across_insert(s: Seq<char>, off: int, c: char, x: int)
    requires
        0 <= x <= off <= s.len(),
        c != '\n',
        next_newline(s, x) >= off,
    ensures
        next_newline(text_insert(s, off, c), x) == next_newline(s, x) + 1,
    decreases off - x,
{
    let t = text_insert(s, off, c);
    if x == off {
        assert(t[off] == c);
        lemma_next_newline_after_insert(s, off, c, off + 1);
    } else {
        assert(t[x] == s[x]);
        lemma_next_newline_across_insert(s, off, c, x + 1);
    }
}

/// Typing a character other than a newline and then pressing Backspace gives
/// back the text and the cursor, when the cursor is on a line of the text and
/// not past the line's end.
pub proof fn law_type_then_backspace(s: Seq<char>, cursor: (usize, usize), c: char)
    requires
        c != '\n',
        spec_line_start(s, cursor.0 as int) is Some,
        cursor.1 <= line_len_or_zero(s, cursor.0 as int),
        cursor.1 + 1 <= usize::MAX,
    ensures
        spec_delete_char(text_insert(s, spec_cursor_offset(s, cursor), c), (cursor.0, (cursor.1 + 1) as usize))
            == Some((s, cursor)),
{
    let st = spec_line_start(s, cursor.0 as int).unwrap();
    lemma_line_start_from_bounds(s, 0, cursor.0 as int);
    lemma_next_newline(s, st);
    let len = next_newline(s, st) - st;
    let off = st + cursor.1;
    assert(spec_cursor_offset(s, cursor) == off);
    let t = text_insert(s, off, c);
    assert forall|i: int| 0 <= i < off implies s[i] == t[i] by {}
    lemma_line_start_prefix(s, t, off, 0, cursor.0 as int, st);
    lemma_next_newline_across_insert(s, off, c, st);
    assert(line_text_at(t, st).len() == len + 1);
    assert(spec_cursor_offset(t, (cursor.0, (cursor.1 + 1) as usize)) == off + 1);
    assert(text_delete(t, off, off + 1) =~= s);
}

proof fn lemma_newlines_bound(s: Seq<char>, from: int)
    requires
        0 <= from <= s.len(),
    ensures
        newlines_from(s, from) <= s.len() - from,
    decreases s.len() - from,
{
    if from < s.len() {
        lemma_newlines_bound(s, from + 1);
    }
}

proof fn lemma_line_len_bound(s: Seq<char>, l: int)
    ensures
        0 <= line_len_or_zero(s, l) <= s.len(),
{
    lemma_line_start_from_bounds(s, 0, l);
    if let Some(st) = spec_line_start(s, l) {
        lemma_next_newline(s, st);
    }
}

/// Moving the cursor by `dx` columns or `dy` lines: it goes to line
/// `cursor.0 + dy`, kept on the text's lines; a vertical move (`dy != 0`)
/// keeps its column, a horizontal one moves the column by `dx` (not below 0);
/// either way the column is at most the length of the line it lands on.
pub proof fn law_move_keeps_column(s: Seq<char>, cursor: (usize, usize), dx: int, dy: int)
    requires
        s.len() < usize::MAX,
    ensures
        spec_moved_cursor(s, cursor, dx, dy).0 as int == if cursor.0 + dy <= 0 {
            0
        } else if cursor.0 + dy >= spec_line_count(s) - 1 {
            spec_line_count(s) - 1
        } else {
            cursor.0 + dy
        },
        dy != 0 ==> spec_moved_cursor(s, cursor, dx, dy).1 as int == min_int(cursor.1 as int,
            line_len_or_zero(s, spec_moved_cursor(s, cursor, dx, dy).0 as int)),
        dy == 0 ==> spec_moved_cursor(s, cursor, dx, dy).1 as int == min_int(max_int(cursor.1 + dx, 0),
            line_len_or_zero(s, spec_moved_cursor(s, cursor, dx, dy).0 as int)),
{
    lemma_newlines_bound(s, 0);
    let l = spec_moved_line(s, cursor, dy);
    lemma_line_len_bound(s, l);
    assert(spec_moved_cursor(s, cursor, dx, dy).0 as int == l);
}

} // verus!
