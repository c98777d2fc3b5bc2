//! An in-memory text buffer of bytes.

use vstd::prelude::*;
use vstd::utf8::{valid_utf8, decode_utf8};

verus! {

/// Text content held as bytes.
#[derive(Debug, Clone)]
pub struct Buffer {
    content: Vec<u8>,
}

/// Start of the line holding byte `pos` (positions past the end count as the end).
pub open spec fn line_start_of(s: Seq<u8>, pos: int) -> int
    decreases pos,
{
    if pos <= 0 {
        0
    } else if pos > s.len() {
        line_start_of(s, s.len() as int)
    } else if s[pos - 1] == 10 {
        pos
    } else {
        line_start_of(s, pos - 1)
    }
}

/// End of the line starting at `start`: just past its newline, or the end of the text.
pub open spec fn line_end_from(s: Seq<u8>, start: int) -> int
    decreases s.len() - start,
{
    if start < 0 || start >= s.len() {
        s.len() as int
    } else if s[start] == 10 {
        start + 1
    } else {
        line_end_from(s, start + 1)
    }
}

/// First index at or after `from` where `pat` occurs in `s`.
pub open spec fn find_bytes_from(s: Seq<u8>, pat: Seq<u8>, from: int) -> Option<int>
    decreases s.len() + 1 - from,
{
    if from < 0 || from > s.len() || from + pat.len() > s.len() {
        None
    } else if s.subrange(from, from + pat.len()) == pat {
        Some(from)
    } else {
        find_bytes_from(s, pat, from + 1)
    }
}

pub proof fn lemma_find_bytes_bounds(s: Seq<u8>, pat: Seq<u8>, from: int)
    ensures
        find_bytes_from(s, pat, from) matches Some(i) ==> from <= i && i + pat.len() <= s.len()
            && s.subrange(i, i + pat.len()) == pat,
    decreases s.len() + 1 - from,
{
    if !(from < 0 || from > s.len() || from + pat.len() > s.len()) && s.subrange(from, from + pat.len()) != pat {
        lemma_find_bytes_bounds(s, pat, from + 1);
    }
}

pub proof fn lemma_line_start_bounds(s: Seq<u8>, pos: int)
    ensures
        0 <= line_start_of(s, pos) <= s.len(),
        0 <= pos <= s.len() ==> line_start_of(s, pos) <= pos,
        line_start_of(s, pos) > 0 ==> s[line_start_of(s, pos) - 1] == 10,
    decreases if pos > s.len() { pos + 1 } else { pos },
{
    if pos > 0 {
        if pos > s.len() {
            lemma_line_start_bounds(s, s.len() as int);
        } else if s[pos - 1] != 10 {
            lemma_line_start_bounds(s, pos - 1);
        }
    }
}

pub proof fn lemma_line_end_bounds(s: Seq<u8>, start: int)
    requires
        0 <= start,
    ensures
        start <= s.len() ==> start <= line_end_from(s, start),
        line_end_from(s, start) <= s.len(),
        start < s.len() ==> start < line_end_from(s, start),
        line_end_from(s, start) < s.len() || (line_end_from(s, start) == s.len() && (start >= s.len()
            || s[s.len() - 1] == 10 || forall|k: int| start <= k < s.len() ==> s[k] != 10)),
        line_end_from(s, start) > start && start < s.len() ==> (s[line_end_from(s, start) - 1] == 10
            || line_end_from(s, start) == s.len()),
    decreases s.len() - start,
{
    if start < s.len() && s[start] != 10 {
        lemma_line_end_bounds(s, start + 1);
    }
}

/// Number of newline bytes in `s`.
pub open spec fn count_newlines(s: Seq<u8>) -> nat
    decreases s.len(),
{
    if s.len() == 0 {
        0
    } else {
        count_newlines(s.drop_last()) + if s.last() == 10 { 1nat } else { 0nat }
    }
}

pub proof fn lemma_count_newlines_bound(s: Seq<u8>)
    ensures
        count_newlines(s) <= s.len(),
    decreases s.len(),
{
    if s.len() > 0 {
        lemma_count_newlines_bound(s.drop_last());
    }
}

/// Start of line number `line` (0-based); the end of the text when there are fewer lines.
pub open spec fn nth_line_start(s: Seq<u8>, line: nat) -> int
    decreases line,
{
    if line == 0 {
        0
    } else if nth_line_start(s, (line - 1) as nat) >= s.len() {
        s.len() as int
    } else {
        line_end_from(s, nth_line_start(s, (line - 1) as nat))
    }
}

/// End of the content of the line starting at `start` (before its newline).
pub open spec fn content_end(s: Seq<u8>, start: int) -> int {
    let e = line_end_from(s, start);
    if e > start && e > 0 && s[e - 1] == 10 { e - 1 } else { e }
}

/// Byte of an LSP position: `character` bytes into line `line`, at most the
/// end of that line's content.
pub open spec fn lsp_byte(s: Seq<u8>, line: nat, character: nat) -> int {
    let st = nth_line_start(s, line);
    if st + character <= content_end(s, st) { st + character } else { content_end(s, st) }
}

pub proof fn lemma_nth_line_start_bounds(s: Seq<u8>, line: nat)
    ensures
        0 <= nth_line_start(s, line) <= s.len(),
    decreases line,
{
    if line > 0 {
        lemma_nth_line_start_bounds(s, (line - 1) as nat);
        let p = nth_line_start(s, (line - 1) as nat);
        if p < s.len() {
            lemma_line_end_bounds(s, p);
        }
    }
}

/// The text of `bytes` with each invalid UTF-8 sequence replaced by
/// U+FFFD, as `String::from_utf8_lossy` gives it.
pub uninterp spec fn std_utf8_lossy(bytes: Seq<u8>) -> Seq<char>;

/// `String::from_utf8_lossy`: the result is the named `std_utf8_lossy` of
/// the bytes, and for valid UTF-8 it is their decoding.
#[verifier::external_body]
fn utf8_lossy(bytes: &[u8]) -> (r: String)
    ensures
        r@ == std_utf8_lossy(bytes@),
        valid_utf8(bytes@) ==> r@ == decode_utf8(bytes@),
{
    String::from_utf8_lossy(bytes).into_owned()
}

/// The lines from `start` on, at most `max` of them: each line's first byte
/// and its decoded text (with its newline).
pub open spec fn lines_from_byte(s: Seq<u8>, start: int, max: nat) -> Seq<(int, Seq<char>)>
    decreases max,
{
    if max == 0 || start < 0 || start >= s.len() {
        Seq::empty()
    } else {
        seq![(start, std_utf8_lossy(s.subrange(start, line_end_from(s, start))))]
            + lines_from_byte(s, line_end_from(s, start), (max - 1) as nat)
    }
}

impl View for Buffer {
    type V = Seq<u8>;

    closed spec fn view(&self) -> Seq<u8> {
        self.content@
    }
}

impl Buffer {
    /// A buffer holding exactly these bytes.
    pub fn from_bytes(bytes: Vec<u8>) -> (r: Self)
        ensures
            r@ == bytes@,
    {
        Buffer { content: bytes }
    }

    /// An empty buffer.
    pub fn empty() -> (r: Self)
        ensures
            r@ == Seq::<u8>::empty(),
    {
        Buffer { content: Vec::new() }
    }

    /// Total bytes in the buffer.
    pub fn len(&self) -> (r: usize)
        ensures
            r == self@.len(),
    {
        self.content.len()
    }

    /// Number of lines: one more than the number of newlines
    /// (`None` only where that count does not fit in a `usize`).
    pub fn line_count(&self) -> (r: Option<usize>)
        ensures
            r == (if count_newlines(self@) < usize::MAX { Some((count_newlines(self@) + 1) as usize) } else { None::<usize> }),
    {
        let n = self.content.len();
        let mut count: usize = 0;
        let mut i: usize = 0;
        while i < n
            invariant
                n == self@.len(),
                i <= n,
                count == count_newlines(self@.subrange(0, i as int)),
                count <= i,
            decreases n - i,
        {
            proof {
                assert(self@.subrange(0, i + 1).drop_last() =~= self@.subrange(0, i as int));
            }
            if self.content[i] == 10 {
                count += 1;
            }
            i += 1;
        }
        proof {
            assert(self@.subrange(0, n as int) =~= self@);
        }
        if count < usize::MAX {
            Some(count + 1)
        } else {
            None
        }
    }

    /// Byte offset of an LSP position (line, character), with the character
    /// counted in bytes and clamped to the end of the line's content.
    pub fn lsp_position_to_byte(&self, line: usize, character: usize) -> (r: usize)
        ensures
            r == lsp_byte(self@, line as nat, character as nat),
    {
        let len = self.content.len();
        let mut p: usize = 0;
        let mut k: usize = 0;
        while k < line
            invariant
                len == self@.len(),
                k <= line,
                p == nth_line_start(self@, k as nat),
                p <= len,
            decreases line - k,
        {
            proof {
                lemma_nth_line_start_bounds(self@, (k + 1) as nat);
            }
            if p < len {
                p = self.line_end(p);
            }
            k += 1;
        }
        let e = self.line_end(p);
        proof {
            lemma_line_end_bounds(self@, p as int);
        }
        let ce = if e > p && e > 0 && self.content[e - 1] == 10 { e - 1 } else { e };
        if character <= ce - p { p + character } else { ce }
    }

    /// The 0-based line holding byte `byte`: the newlines before it.
    pub fn get_line_number(&self, byte: usize) -> (r: usize)
        ensures
            r == count_newlines(self@.take(if byte <= self@.len() { byte as int } else { self@.len() as int })),
    {
        let n = if byte <= self.content.len() { byte } else { self.content.len() };
        let mut count: usize = 0;
        let mut i: usize = 0;
        while i < n
            invariant
                n <= self@.len(),
                i <= n,
                count == count_newlines(self@.take(i as int)),
                count <= i,
            decreases n - i,
        {
            proof {
                assert(self@.take(i + 1).drop_last() =~= self@.take(i as int));
            }
            if self.content[i] == 10 {
                count += 1;
            }
            i += 1;
        }
        count
    }

    /// The byte at `i`.
    pub fn byte_at(&self, i: usize) -> (r: u8)
        requires
            i < self@.len(),
        ensures
            r == self@[i as int],
    {
        self.content[i]
    }
}

impl Buffer {
    /// Start of the line holding byte `pos`.
    pub fn line_start(&self, pos: usize) -> (r: usize)
        ensures
            r == line_start_of(self@, pos as int),
    {
        let len = self.content.len();
        let mut p = if pos <= len { pos } else { len };
        while p > 0 && self.content[p - 1] != 10
            invariant
                p <= len,
                len == self@.len(),
                line_start_of(self@, p as int) == line_start_of(self@, pos as int),
            decreases p,
        {
            p -= 1;
        }
        p
    }

    /// End of the line starting at `start`: just past its newline, or the end of the text.
    pub fn line_end(&self, start: usize) -> (r: usize)
        ensures
            r == line_end_from(self@, start as int),
    {
        let len = self.content.len();
        if start >= len {
            return len;
        }
        let mut p = start;
        while p < len && self.content[p] != 10
            invariant
                start <= p <= len,
                len == self@.len(),
                line_end_from(self@, p as int) == line_end_from(self@, start as int),
            decreases len - p,
        {
            p += 1;
        }
        if p < len { p + 1 } else { len }
    }

    /// The bytes `start..end`.
    pub fn get_text_range(&self, start: usize, end: usize) -> (r: Vec<u8>)
        requires
            start <= end <= self@.len(),
        ensures
            r@ == self@.subrange(start as int, end as int),
    {
        let mut out: Vec<u8> = Vec::new();
        let mut i = start;
        while i < end
            invariant
                start <= i <= end,
                end <= self@.len(),
                out@ == self@.subrange(start as int, i as int),
            decreases end - i,
        {
            out.push(self.content[i]);
            i += 1;
            proof {
                assert(out@ =~= self@.subrange(start as int, i as int));
            }
        }
        out
    }

    /// First position at or after `start` where `pattern` occurs.
    pub fn find_next(&self, pattern: &Vec<u8>, start: usize) -> (r: Option<usize>)
        ensures
            match r {
                Some(i) => find_bytes_from(self@, pattern@, start as int) == Some(i as int),
                None => find_bytes_from(self@, pattern@, start as int) is None,
            },
    {
        let len = self.content.len();
        let plen = pattern.len();
        if start > len || plen > len - start {
            return None;
        }
        let last = len - plen;
        let mut i = start;
        while i <= last
            invariant
                len == self@.len(),
                plen == pattern@.len(),
                plen <= len,
                last == len - plen,
                start <= i,
                i <= last + 1,
                find_bytes_from(self@, pattern@, i as int) == find_bytes_from(self@, pattern@, start as int),
            decreases last + 1 - i,
        {
            let mut k: usize = 0;
            let mut ok = true;
            while k < plen
                invariant
                    len == self@.len(),
                    plen == pattern@.len(),
                    i + plen <= len,
                    k <= plen,
                    ok == forall|j: int| 0 <= j < k ==> self@[i + j] == pattern@[j],
                decreases plen - k,
            {
                if self.content[i + k] != pattern[k] {
                    ok = false;
                }
                k += 1;
            }
            if ok {
                proof {
                    assert(self@.subrange(i as int, i + plen) =~= pattern@);
                }
                return Some(i);
            }
            proof {
                assert(self@.subrange(i as int, i + plen) != pattern@) by {
                    let j = choose|j: int| 0 <= j < plen && self@[i + j] != pattern@[j];
                    assert(self@.subrange(i as int, i + plen)[j] != pattern@[j]);
                }
            }
            if i == last {
                proof {
                    assert(find_bytes_from(self@, pattern@, i as int + 1) is None);
                }
                return None;
            }
            i += 1;
        }
        None
    }
}


/// Iterates the lines of a buffer from a line start, decoding each.
pub struct LineIterator<'a> {
    pub buffer: &'a Buffer,
    pub pos: usize,
}

impl Buffer {
    /// The lines from the start of the line holding `byte`.
    pub fn line_iterator(&self, byte: usize, estimated_line_length: usize) -> (r: LineIterator<'_>)
        ensures
            r.buffer == self,
            r.pos == line_start_of(self@, byte as int),
    {
        LineIterator { buffer: self, pos: self.line_start(byte) }
    }
}

impl<'a> LineIterator<'a> {
    /// The next line: its first byte and its text (with its newline), or
    /// `None` at the end of the buffer.
    pub fn next(&mut self) -> (r: Option<(usize, String)>)
        ensures
            final(self).buffer == old(self).buffer,
            match r {
                Some((st, text)) => st == old(self).pos && st < old(self).buffer@.len()
                    && text@ == std_utf8_lossy(old(self).buffer@.subrange(st as int, line_end_from(old(self).buffer@, st as int)))
                    && final(self).pos == line_end_from(old(self).buffer@, st as int),
                None => old(self).pos >= old(self).buffer@.len() && final(self).pos == old(self).pos,
            },
    {
        let len = self.buffer.len();
        if self.pos >= len {
            return None;
        }
        let st = self.pos;
        let end = self.buffer.line_end(st);
        proof {
            lemma_line_end_bounds(self.buffer@, st as int);
        }
        let bytes = self.buffer.get_text_range(st, end);
        let text = utf8_lossy(bytes.as_slice());
        self.pos = end;
        Some((st, text))
    }
}
} // verus!
