//! Word boundaries over buffer bytes, and their view-coordinate forms.

use vstd::prelude::*;
use crate::cursor::ViewPosition;
use crate::text_buffer::Buffer;
use crate::view_pipeline::{Layout, ViewLine, spec_source_byte_to_view_position};
use crate::edit_map::{spec_position_byte, view_pos_to_buffer_byte};
use crate::text_util::{sat_sub, min_int};

verus! {

/// A word byte: an ASCII letter or digit, or `_`.
pub open spec fn spec_is_word_char(b: u8) -> bool {
    (0x30 <= b <= 0x39) || (0x41 <= b <= 0x5a) || (0x61 <= b <= 0x7a) || b == 0x5f
}

/// Whether a byte belongs to a word.
pub fn is_word_char(b: u8) -> (r: bool)
    ensures
        r == spec_is_word_char(b),
{
    (0x30 <= b && b <= 0x39) || (0x41 <= b && b <= 0x5a) || (0x61 <= b && b <= 0x7a) || b == 0x5f
}

/// From index `p`, step left over non-word bytes (stopping at index 0).
pub open spec fn skip_back_non_word(s: Seq<u8>, p: int) -> int
    decreases p,
{
    if p > 0 && p < s.len() && !spec_is_word_char(s[p]) {
        skip_back_non_word(s, p - 1)
    } else {
        p
    }
}

/// From index `p`, step left until `p` starts a word (or reaches index 0).
pub open spec fn back_to_word_start(s: Seq<u8>, p: int) -> int
    decreases p,
{
    if p > 0 && p < s.len() && !(!spec_is_word_char(s[p - 1]) && spec_is_word_char(s[p])) {
        back_to_word_start(s, p - 1)
    } else {
        p
    }
}

/// From index `p`, step right over word bytes.
pub open spec fn skip_word(s: Seq<u8>, p: int) -> int
    decreases s.len() - p,
{
    if 0 <= p < s.len() && spec_is_word_char(s[p]) {
        skip_word(s, p + 1)
    } else {
        p
    }
}

/// From index `p`, step right over non-word bytes.
pub open spec fn skip_non_word(s: Seq<u8>, p: int) -> int
    decreases s.len() - p,
{
    if 0 <= p < s.len() && !spec_is_word_char(s[p]) {
        skip_non_word(s, p + 1)
    } else {
        p
    }
}

/// The start of the word before `pos`: skip the non-word bytes before it, then
/// go back to where that word begins; 0 at the start of the buffer.
pub open spec fn spec_word_start_left(s: Seq<u8>, pos: int) -> int {
    if pos <= 0 {
        0
    } else {
        back_to_word_start(s, skip_back_non_word(s, sat_sub(min_int(pos, s.len() as int), 1)))
    }
}

/// The start of the next word after `pos`: skip the rest of the current word and
/// the non-word bytes after it; the buffer length from the end of the buffer on.
pub open spec fn spec_word_start_right(s: Seq<u8>, pos: int) -> int {
    if pos >= s.len() {
        s.len() as int
    } else {
        skip_non_word(s, skip_word(s, pos))
    }
}

proof fn lemma_skip_back_bounds(s: Seq<u8>, p: int)
    requires
        0 <= p,
    ensures
        0 <= skip_back_non_word(s, p) <= p,
    decreases p,
{
    if p > 0 && p < s.len() && !spec_is_word_char(s[p]) {
        lemma_skip_back_bounds(s, p - 1);
    }
}

proof fn lemma_back_to_start_bounds(s: Seq<u8>, p: int)
    requires
        0 <= p,
    ensures
        0 <= back_to_word_start(s, p) <= p,
    decreases p,
{
    if p > 0 && p < s.len() && !(!spec_is_word_char(s[p - 1]) && spec_is_word_char(s[p])) {
        lemma_back_to_start_bounds(s, p - 1);
    }
}

proof fn lemma_skip_word_bounds(s: Seq<u8>, p: int)
    requires
        0 <= p <= s.len(),
    ensures
        p <= skip_word(s, p) <= s.len(),
    decreases s.len() - p,
{
    if 0 <= p < s.len() && spec_is_word_char(s[p]) {
        lemma_skip_word_bounds(s, p + 1);
    }
}

proof fn lemma_skip_non_word_bounds(s: Seq<u8>, p: int)
    requires
        0 <= p <= s.len(),
    ensures
        p <= skip_non_word(s, p) <= s.len(),
    decreases s.len() - p,
{
    if 0 <= p < s.len() && !spec_is_word_char(s[p]) {
        lemma_skip_non_word_bounds(s, p + 1);
    }
}

/// Byte offset of the start of the word before `pos`.
pub fn find_word_start_left(buffer: &Buffer, pos: usize) -> (r: usize)
    ensures
        r == spec_word_start_left(buffer@, pos as int),
        r <= pos,
        r <= buffer@.len(),
{
    if pos == 0 {
        return 0;
    }
    let len = buffer.len();
    let actual = if pos <= len { pos } else { len };
    let mut p: usize = actual.saturating_sub(1);
    proof {
        lemma_skip_back_bounds(buffer@, p as int);
    }
    while p > 0 && p < len && !is_word_char(buffer.byte_at(p))
        invariant
            len == buffer@.len(),
            p < actual || p == 0,
            actual <= len,
            skip_back_non_word(buffer@, p as int) == skip_back_non_word(buffer@, sat_sub(min_int(pos as int, len as int), 1)),
        decreases p,
    {
        p -= 1;
    }
    let ghost q = p;
    proof {
        lemma_back_to_start_bounds(buffer@, p as int);
    }
    while p > 0 && p < len && !(!is_word_char(buffer.byte_at(p - 1)) && is_word_char(buffer.byte_at(p)))
        invariant
            len == buffer@.len(),
            p <= q,
            q == skip_back_non_word(buffer@, sat_sub(min_int(pos as int, len as int), 1)),
            back_to_word_start(buffer@, p as int) == back_to_word_start(buffer@, q as int),
        decreases p,
    {
        p -= 1;
    }
    proof {
        lemma_skip_back_bounds(buffer@, sat_sub(min_int(pos as int, len as int), 1));
    }
    p
}

/// Byte offset of the start of the word after `pos`.
pub fn find_word_start_right(buffer: &Buffer, pos: usize) -> (r: usize)
    ensures
        r == spec_word_start_right(buffer@, pos as int),
        r <= buffer@.len(),
        r >= pos || pos > buffer@.len(),
{
    let len = buffer.len();
    if pos >= len {
        return len;
    }
    let mut p: usize = pos;
    proof {
        lemma_skip_word_bounds(buffer@, pos as int);
    }
    while p < len && is_word_char(buffer.byte_at(p))
        invariant
            len == buffer@.len(),
            pos <= p <= len,
            skip_word(buffer@, p as int) == skip_word(buffer@, pos as int),
        decreases len - p,
    {
        p += 1;
    }
    let ghost q = p;
    proof {
        lemma_skip_non_word_bounds(buffer@, p as int);
    }
    while p < len && !is_word_char(buffer.byte_at(p))
        invariant
            len == buffer@.len(),
            q <= p <= len,
            q == skip_word(buffer@, pos as int),
            skip_non_word(buffer@, p as int) == skip_non_word(buffer@, q as int),
        decreases len - p,
    {
        p += 1;
    }
    p
}

/// The view position of source byte `byte` in the layout, or the byte itself on
/// line 0 when the layout does not show it.
pub open spec fn spec_position_of_byte(lines: Seq<ViewLine>, byte: usize) -> ViewPosition {
    match spec_source_byte_to_view_position(lines, byte) {
        Some((l, c)) => ViewPosition { view_line: l, column: c, source_byte: Some(byte) },
        None => ViewPosition { view_line: 0, column: byte, source_byte: Some(byte) },
    }
}

/// The position of the byte `find` gives for `p`'s byte, or `p` when `p` has no byte.
pub open spec fn spec_word_move(lines: Seq<ViewLine>, p: ViewPosition, s: Seq<u8>, left: bool) -> ViewPosition {
    match spec_position_byte(lines, p) {
        Some(b) => spec_position_of_byte(lines,
            (if left { spec_word_start_left(s, b as int) } else { spec_word_start_right(s, b as int) }) as usize),
        None => p,
    }
}

/// The view position of a source byte (see `spec_position_of_byte`).
fn position_of_byte(layout: &Layout, byte: usize) -> (r: ViewPosition)
    ensures
        r == spec_position_of_byte(layout.lines@, byte),
{
    match layout.source_byte_to_view_position(byte) {
        Some((l, c)) => ViewPosition { view_line: l, column: c, source_byte: Some(byte) },
        None => ViewPosition::from_source_byte(byte),
    }
}

/// The start of the word before a view position, as a view position.
pub fn find_word_start_left_view(layout: &Layout, cursor: &ViewPosition, buffer: &Buffer) -> (r: ViewPosition)
    ensures
        r == spec_word_move(layout.lines@, *cursor, buffer@, true),
{
    match view_pos_to_buffer_byte(layout, cursor) {
        Some(b) => {
            let nb = find_word_start_left(buffer, b);
            position_of_byte(layout, nb)
        },
        None => *cursor,
    }
}

/// The start of the word after a view position, as a view position.
pub fn find_word_start_right_view(layout: &Layout, cursor: &ViewPosition, buffer: &Buffer) -> (r: ViewPosition)
    ensures
        r == spec_word_move(layout.lines@, *cursor, buffer@, false),
{
    match view_pos_to_buffer_byte(layout, cursor) {
        Some(b) => {
            let nb = find_word_start_right(buffer, b);
            position_of_byte(layout, nb)
        },
        None => *cursor,
    }
}

/// Byte `i` starts a word: it is a word byte and the byte before it (if any) is not.
pub open spec fn is_word_start(s: Seq<u8>, i: int) -> bool {
    0 <= i < s.len() && spec_is_word_char(s[i]) && (i == 0 || !spec_is_word_char(s[i - 1]))
}

proof fn lemma_skip_word_run(s: Seq<u8>, p: int)
    requires
        0 <= p <= s.len(),
    ensures
        p <= skip_word(s, p) <= s.len(),
        forall|k: int| p <= k < skip_word(s, p) ==> spec_is_word_char(s[k]),
        skip_word(s, p) == s.len() || !spec_is_word_char(s[skip_word(s, p)]),
    decreases s.len() - p,
{
    if p < s.len() && spec_is_word_char(s[p]) {
        lemma_skip_word_run(s, p + 1);
    }
}

proof fn lemma_skip_non_word_run(s: Seq<u8>, p: int)
    requires
        0 <= p <= s.len(),
    ensures
        p <= skip_non_word(s, p) <= s.len(),
        forall|k: int| p <= k < skip_non_word(s, p) ==> !spec_is_word_char(s[k]),
        skip_non_word(s, p) == s.len() || spec_is_word_char(s[skip_non_word(s, p)]),
    decreases s.len() - p,
{
    if p < s.len() && !spec_is_word_char(s[p]) {
        lemma_skip_non_word_run(s, p + 1);
    }
}

proof fn lemma_skip_back_run(s: Seq<u8>, p: int)
    requires
        0 <= p < s.len(),
    ensures
        0 <= skip_back_non_word(s, p) <= p,
        forall|k: int| skip_back_non_word(s, p) < k <= p ==> !spec_is_word_char(s[k]),
        skip_back_non_word(s, p) == 0 || spec_is_word_char(s[skip_back_non_word(s, p)]),
    decreases p,
{
    if p > 0 && !spec_is_word_char(s[p]) {
        lemma_skip_back_run(s, p - 1);
    }
}

proof fn lemma_back_to_start_run(s: Seq<u8>, p: int)
    requires
        0 <= p < s.len(),
    ensures
        0 <= back_to_word_start(s, p) <= p,
        forall|k: int| back_to_word_start(s, p) < k <= p ==> !is_word_start(s, k),
        back_to_word_start(s, p) == 0 || is_word_start(s, back_to_word_start(s, p)),
    decreases p,
{
    if p > 0 && !(!spec_is_word_char(s[p - 1]) && spec_is_word_char(s[p])) {
        lemma_back_to_start_run(s, p - 1);
    }
}

/// Moving a word right from `pos` lands on the start of the next word after
/// `pos`, or at the end of the buffer when no word starts after it: the result
/// is past `pos`, is a word start (or the end), and no word starts in between.
pub proof fn law_word_right_is_next_word_start(s: Seq<u8>, pos: int)
    requires
        0 <= pos,
    ensures
        pos >= s.len() ==> spec_word_start_right(s, pos) == s.len(),
        pos < s.len() ==> pos < spec_word_start_right(s, pos) <= s.len(),
        pos < s.len() ==> spec_word_start_right(s, pos) == s.len()
            || is_word_start(s, spec_word_start_right(s, pos)),
        forall|i: int| pos < i < spec_word_start_right(s, pos) ==> !is_word_start(s, i),
{
    if pos < s.len() {
        let q = skip_word(s, pos);
        lemma_skip_word_run(s, pos);
        lemma_skip_non_word_run(s, q);
        let r = skip_non_word(s, q);
        assert forall|i: int| pos < i < r implies !is_word_start(s, i) by {
            if i <= q {
                if i < q {
                    assert(spec_is_word_char(s[i - 1]));
                }
            }
        }
        if r < s.len() {
            assert(!spec_is_word_char(s[r - 1]));
        }
    }
}

/// Moving a word left from `pos` (inside the buffer, not at its start) lands
/// on the start of the word before `pos`, or at 0 when no word starts before
/// it: the result is before `pos`, is a word start (or 0), and no word starts
/// between it and `pos`.
pub proof fn law_word_left_is_previous_word_start(s: Seq<u8>, pos: int)
    requires
        0 < pos <= s.len(),
    ensures
        0 <= spec_word_start_left(s, pos) < pos,
        spec_word_start_left(s, pos) == 0 || is_word_start(s, spec_word_start_left(s, pos)),
        forall|i: int| spec_word_start_left(s, pos) < i < pos ==> !is_word_start(s, i),
{
    let b = skip_back_non_word(s, pos - 1);
    lemma_skip_back_run(s, pos - 1);
    lemma_back_to_start_run(s, b);
    let r = back_to_word_start(s, b);
    assert(spec_word_start_left(s, pos) == r);
    assert forall|i: int| r < i < pos implies !is_word_start(s, i) by {
        if i > b {
            assert(!spec_is_word_char(s[i]));
        }
    }
}

} // verus!
