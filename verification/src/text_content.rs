//! Text content provider trait for shared rendering, and iteration over the
//! lines of a viewport.

use vstd::prelude::*;

verus! {

/// Line ending format
#[derive(Debug, Clone, Copy, PartialEq, Eq, Structural)]
pub enum LineEnding {
    /// Unix-style line ending (LF)
    Lf,
    /// Windows-style line ending (CRLF)
    CrLf,
    /// Classic Mac-style line ending (CR)
    Cr,
}

impl Default for LineEnding {
    fn default() -> (r: Self)
        ensures
            r == LineEnding::Lf,
    {
        LineEnding::Lf
    }
}

impl LineEnding {
    /// Get the line ending as a string
    pub fn as_str(&self) -> (r: &'static str)
        ensures
            r@ == match self {
                LineEnding::Lf => seq!['\n'],
                LineEnding::CrLf => seq!['\r', '\n'],
                LineEnding::Cr => seq!['\r'],
            },
    {
        proof {
            reveal_strlit("\n");
            reveal_strlit("\r\n");
            reveal_strlit("\r");
        }
        match self {
            LineEnding::Lf => "\n",
            LineEnding::CrLf => "\r\n",
            LineEnding::Cr => "\r",
        }
    }
}

/// A line of text with its byte offset in the buffer
#[derive(Debug, Clone)]
pub struct TextLine {
    /// Byte offset where this line starts in the buffer
    pub start_byte: usize,
    /// The line content (without line ending)
    pub content: String,
    /// Length of line ending (0, 1, or 2)
    pub line_ending_len: usize,
}

impl TextLine {
    /// Total byte length including line ending
    pub fn total_len(&self) -> (r: usize)
        requires
            vstd::utf8::encode_utf8(self.content@).len() + self.line_ending_len <= usize::MAX,
        ensures
            r == vstd::utf8::encode_utf8(self.content@).len() + self.line_ending_len,
    {
        self.content.as_str().len() + self.line_ending_len
    }
}

/// Minimal interface for text content access during rendering; implemented by
/// the buffers that get rendered. All methods are read-only queries.
pub trait TextContentProvider {
    /// Total bytes in buffer
    fn len(&self) -> usize;

    /// Check if buffer is empty
    fn is_empty(&self) -> bool {
        self.len() == 0
    }

    /// Whether content is binary (affects rendering)
    fn is_binary(&self) -> bool;

    /// Get line ending format (LF, CRLF, CR)
    fn line_ending(&self) -> LineEnding;

    /// The number of lines the provider holds.
    spec fn spec_line_count(&self) -> usize;

    /// Total number of lines in the buffer
    fn line_count(&self) -> (r: usize)
        ensures
            r == self.spec_line_count();

    /// The line the provider holds at `line_num` (0-indexed), none when it has
    /// no such line.
    spec fn spec_line(&self, line_num: usize) -> Option<TextLine>;

    /// Get a specific line by line number (0-indexed); None if out of bounds
    fn get_line(&self, line_num: usize) -> (r: Option<TextLine>)
        ensures
            r == self.spec_line(line_num);

    /// Get raw bytes in `start..end` (for binary mode rendering)
    fn slice_bytes(&self, range: std::ops::Range<usize>) -> Vec<u8>;

    /// Map byte offset to line number (0-indexed)
    fn byte_to_line(&self, byte_offset: usize) -> usize;

    /// Map line number to first byte offset of that line
    fn line_to_byte(&self, line: usize) -> Option<usize>;

    /// Get text in byte range
    fn get_text_range(&self, start: usize, end: usize) -> String;

    /// Get all content as a single string (for highlighting)
    fn content(&self) -> String;
}

/// Iterator over visible lines in a viewport: lines `current_line..end_line`
/// of the provider, each with its number.
pub struct ViewportLineIterator<'a, T: TextContentProvider> {
    provider: &'a T,
    current_line: usize,
    end_line: usize,
}

/// The lines of `p` from `cur` up to `end`, each with its number, stopping at
/// the first line the provider does not have.
pub open spec fn provider_lines<T: TextContentProvider>(p: &T, cur: int, end: int) -> Seq<(usize, TextLine)>
    decreases end - cur,
{
    if cur >= end || cur < 0 {
        Seq::empty()
    } else {
        match p.spec_line(cur as usize) {
            Some(l) => seq![(cur as usize, l)] + provider_lines(p, cur + 1, end),
            None => Seq::empty(),
        }
    }
}

/// The end of a viewport's lines: the requested end, cut off at the line count.
pub open spec fn clamped_end(end_line: usize, line_count: usize) -> usize {
    if end_line <= line_count { end_line } else { line_count }
}

impl<'a, T: TextContentProvider> ViewportLineIterator<'a, T> {
    /// Number of the next line to yield.
    pub closed spec fn spec_current(&self) -> usize {
        self.current_line
    }

    /// One past the last line to yield.
    pub closed spec fn spec_end(&self) -> usize {
        self.end_line
    }

    /// The provider the lines come from.
    pub closed spec fn spec_provider(&self) -> &'a T {
        self.provider
    }

    /// Create a new iterator for the given viewport; it stops at the provider's
    /// line count (as `line_count` reported it) or at `end_line`, whichever is first.
    pub fn new(provider: &'a T, start_line: usize, end_line: usize) -> (r: Self)
        ensures
            r.spec_current() == start_line,
            r.spec_end() == clamped_end(end_line, provider.spec_line_count()),
            r.spec_provider() == provider,
    {
        let count = provider.line_count();
        Self { provider, current_line: start_line, end_line: if end_line <= count { end_line } else { count } }
    }

    /// The next line: none once `end_line` is reached; otherwise the current
    /// line number, paired with what the provider gives for it.
    pub fn next_line(&mut self) -> (r: Option<(usize, TextLine)>)
        ensures
            final(self).spec_provider() == old(self).spec_provider(),
            final(self).spec_end() == old(self).spec_end(),
            old(self).spec_current() >= old(self).spec_end() ==> r is None && final(self).spec_current() == old(self).spec_current(),
            old(self).spec_current() < old(self).spec_end() ==> final(self).spec_current() == old(self).spec_current() + 1
                && r == match old(self).spec_provider().spec_line(old(self).spec_current()) {
                    Some(l) => Some((old(self).spec_current(), l)),
                    None => None,
                },
    {
        if self.current_line >= self.end_line {
            return None;
        }
        let line_num = self.current_line;
        self.current_line += 1;
        match self.provider.get_line(line_num) {
            Some(line) => Some((line_num, line)),
            None => None,
        }
    }

    /// All remaining lines, in order, each with its number (stopping at the
    /// first line the provider does not have).
    pub fn collect_lines(self) -> (r: Vec<(usize, TextLine)>)
        ensures
            r@ == provider_lines(self.spec_provider(), self.spec_current() as int, self.spec_end() as int),
    {
        let mut it = self;
        let ghost p = self.provider;
        let ghost total = provider_lines(p, self.current_line as int, self.end_line as int);
        let mut out: Vec<(usize, TextLine)> = Vec::new();
        if it.current_line >= it.end_line {
            return out;
        }
        loop
            invariant_except_break
                out@ + provider_lines(p, it.current_line as int, it.end_line as int) == total,
            invariant
                it.end_line == self.end_line,
                it.provider == p,
                p == self.provider,
                self.current_line <= it.current_line <= it.end_line,
                total == provider_lines(p, self.current_line as int, self.end_line as int),
            ensures
                out@ == total,
            decreases it.end_line - it.current_line,
        {
            let ghost c = it.current_line;
            match it.next_line() {
                Some(entry) => {
                    proof {
                        assert(provider_lines(p, c as int, it.end_line as int)
                            == seq![entry] + provider_lines(p, c + 1, it.end_line as int));
                        assert(out@.push(entry) + provider_lines(p, c + 1, it.end_line as int)
                            =~= out@ + provider_lines(p, c as int, it.end_line as int));
                    }
                    out.push(entry);
                },
                None => {
                    proof {
                        assert(provider_lines(p, c as int, it.end_line as int) =~= Seq::<(usize, TextLine)>::empty());
                        assert(out@ =~= out@ + provider_lines(p, c as int, it.end_line as int));
                    }
                    break;
                },
            }
        }
        out
    }
}

/// Extension trait for viewport iteration
pub trait TextContentProviderExt: TextContentProvider + Sized {
    /// Iterate over lines in a viewport range
    fn viewport_lines(&self, start_line: usize, end_line: usize) -> (r: ViewportLineIterator<'_, Self>)
        ensures
            r.spec_current() == start_line,
            r.spec_end() == clamped_end(end_line, self.spec_line_count()),
            r.spec_provider() == self,
    {
        ViewportLineIterator::new(self, start_line, end_line)
    }
}

impl<T: TextContentProvider> TextContentProviderExt for T {}

} // verus!
