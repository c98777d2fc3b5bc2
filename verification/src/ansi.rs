//! ANSI escape sequences in displayed text.

use vstd::prelude::*;
use crate::text_util::str_chars;

verus! {

/// An ASCII letter, which ends an escape sequence.
pub open spec fn is_ascii_letter(c: char) -> bool {
    ('a' <= c && c <= 'z') || ('A' <= c && c <= 'Z')
}

/// Visible-character count and escape state after reading the first `k`
/// characters of `s`: an escape sequence runs from ESC to the next ASCII letter
/// and shows nothing.
pub open spec fn visible_prefix(s: Seq<char>, k: int) -> (nat, bool)
    decreases k,
{
    if k <= 0 {
        (0, false)
    } else {
        let (count, in_escape) = visible_prefix(s, k - 1);
        let c = s[k - 1];
        if in_escape {
            (count, !is_ascii_letter(c))
        } else if c == '\x1b' {
            (count, true)
        } else {
            (count + 1, false)
        }
    }
}

/// Number of visible characters of `s`.
pub open spec fn spec_visible_char_count(s: Seq<char>) -> nat {
    visible_prefix(s, s.len() as int).0
}

/// Number of characters of a string that show on screen (escape sequences excluded).
pub fn visible_char_count(s: &str) -> (r: usize)
    ensures
        r == spec_visible_char_count(s@),
        r <= s@.len(),
{
    let chars = str_chars(s);
    let n = chars.len();
    let mut count: usize = 0;
    let mut in_escape = false;
    let mut i: usize = 0;
    while i < n
        invariant
            n == chars@.len(),
            chars@ == s@,
            i <= n,
            (count as nat, in_escape) == visible_prefix(s@, i as int),
            count <= i,
        decreases n - i,
    {
        let c = chars[i];
        if in_escape {
            in_escape = !((c >= 'a' && c <= 'z') || (c >= 'A' && c <= 'Z'));
        } else if c == '\x1b' {
            in_escape = true;
        } else {
            count = count + 1;
        }
        i += 1;
    }
    count
}

/// The string contains an escape character.
pub open spec fn spec_contains_ansi_codes(s: Seq<char>) -> bool {
    s.contains('\x1b')
}

/// Whether a string contains ANSI escape sequences.
pub fn contains_ansi_codes(s: &str) -> (r: bool)
    ensures
        r == spec_contains_ansi_codes(s@),
{
    let chars = str_chars(s);
    let n = chars.len();
    let mut i: usize = 0;
    while i < n
        invariant
            n == chars@.len(),
            chars@ == s@,
            i <= n,
            forall|j: int| 0 <= j < i ==> chars@[j] != '\x1b',
        decreases n - i,
    {
        if chars[i] == '\x1b' {
            proof {
                assert(s@[i as int] == '\x1b');
            }
            return true;
        }
        i += 1;
    }
    false
}

} // verus!
