//! Small verified helpers over character sequences.

use vstd::prelude::*;
use vstd::string::StringExecFns;

verus! {

/// The characters of a string slice, in order.
pub fn str_chars(s: &str) -> (r: Vec<char>)
    ensures
        r@ == s@,
{
    let mut r: Vec<char> = Vec::new();
    for c in it: s.chars()
        invariant
            r@ == it.seq().take(it.index() as int),
            it.seq() == s@,
    {
        r.push(c);
    }
    r
}


/// Number of bytes of a character in UTF-8.
pub open spec fn utf8_len(c: char) -> int {
    if (c as u32) < 0x80 {
        1
    } else if (c as u32) < 0x800 {
        2
    } else if (c as u32) < 0x10000 {
        3
    } else {
        4
    }
}

/// Number of bytes of a character in UTF-8.
pub fn char_len_utf8(c: char) -> (r: usize)
    ensures
        r == utf8_len(c),
        1 <= r <= 4,
{
    let v = c as u32;
    if v < 0x80 {
        1
    } else if v < 0x800 {
        2
    } else if v < 0x10000 {
        3
    } else {
        4
    }
}

/// `a - b`, or 0 when `b` exceeds `a`.
pub open spec fn sat_sub(a: int, b: int) -> int {
    if a >= b { a - b } else { 0 }
}

/// `a + b`, or `usize::MAX` when the sum does not fit.
pub open spec fn sat_add(a: int, b: int) -> int {
    if a + b <= usize::MAX { a + b } else { usize::MAX as int }
}

pub open spec fn min_int(a: int, b: int) -> int {
    if a <= b { a } else { b }
}

pub open spec fn max_int(a: int, b: int) -> int {
    if a >= b { a } else { b }
}

/// The characters of a single-character string.
#[verifier::external_body]
pub(crate) fn char_to_string(c: char) -> (r: String)
    ensures
        r@ == seq![c],
{
    c.to_string()
}

/// A string holding exactly the given characters.
pub(crate) fn string_from_chars(chars: &Vec<char>) -> (r: String)
    ensures
        r@ == chars@,
{
    let mut out = String::new();
    let n = chars.len();
    let mut i: usize = 0;
    while i < n
        invariant
            n == chars@.len(),
            i <= n,
            out@ == chars@.take(i as int),
        decreases n - i,
    {
        let c = char_to_string(chars[i]);
        out.append(c.as_str());
        i += 1;
        proof {
            assert(out@ =~= chars@.take(i as int));
        }
    }
    proof {
        assert(chars@.take(n as int) =~= chars@);
    }
    out
}

/// `x` without one trailing carriage return.
pub open spec fn strip_cr(x: Seq<char>) -> Seq<char> {
    if x.len() > 0 && x.last() == '\r' { x.drop_last() } else { x }
}

/// Index of the first newline in `s` at or after `from`, or `s.len()` if none.
pub open spec fn next_newline(s: Seq<char>, from: int) -> int
    decreases s.len() - from,
{
    if from >= s.len() {
        s.len() as int
    } else if s[from] == '\n' {
        from
    } else {
        next_newline(s, from + 1)
    }
}

/// The lines of `s` from index `from` on, as `str::lines` yields them: split at
/// each newline, a carriage return before a newline dropped, no empty line after
/// a final newline.
pub open spec fn lines_from(s: Seq<char>, from: int) -> Seq<Seq<char>>
    decreases s.len() - from,
{
    if from < 0 || from >= s.len() {
        Seq::empty()
    } else if next_newline(s, from) < s.len() {
        proof {
            lemma_next_newline(s, from);
        }
        seq![strip_cr(s.subrange(from, next_newline(s, from)))] + lines_from(s, next_newline(s, from) + 1)
    } else {
        seq![s.subrange(from, s.len() as int)]
    }
}

pub proof fn lemma_next_newline(s: Seq<char>, from: int)
    requires
        0 <= from <= s.len(),
    ensures
        from <= next_newline(s, from) <= s.len(),
        next_newline(s, from) < s.len() ==> s[next_newline(s, from)] == '\n',
        forall|k: int| from <= k < next_newline(s, from) ==> s[k] != '\n',
    decreases s.len() - from,
{
    if from < s.len() && s[from] != '\n' {
        lemma_next_newline(s, from + 1);
    }
}

/// The lines of a string, as `str::lines` yields them.
pub fn str_lines(text: &str) -> (r: Vec<String>)
    ensures
        r@.map_values(|x: String| x@) == lines_from(text@, 0),
{
    let chars = str_chars(text);
    let ghost s = chars@;
    let n = chars.len();
    let mut out: Vec<String> = Vec::new();
    let mut cur: Vec<char> = Vec::new();
    let mut start: usize = 0;
    let mut i: usize = 0;
    while i < n
        invariant
            s == chars@,
            s == text@,
            n == s.len(),
            start <= i <= n,
            cur@ == s.subrange(start as int, i as int),
            forall|k: int| start <= k < i ==> s[k] != '\n',
            out@.map_values(|x: String| x@) + lines_from(s, start as int) == lines_from(s, 0),
        decreases n - i,
    {
        let c = chars[i];
        if c == '\n' {
            proof {
                lemma_next_newline(s, start as int);
                assert(next_newline(s, start as int) == i) by {
                    if next_newline(s, start as int) < i {
                        assert(s[next_newline(s, start as int)] == '\n');
                    }
                }
            }
            let mut line = cur;
            let len = line.len();
            if len > 0 && line[len - 1] == '\r' {
                line.pop();
            }
            let ghost old_out = out@.map_values(|x: String| x@);
            let st = string_from_chars(&line);
            out.push(st);
            proof {
                assert(line@ == strip_cr(s.subrange(start as int, i as int)));
                assert(out@.map_values(|x: String| x@) =~= old_out.push(line@));
                assert(lines_from(s, start as int) == seq![strip_cr(s.subrange(start as int, i as int))]
                    + lines_from(s, i as int + 1));
                assert(old_out.push(line@) + lines_from(s, i as int + 1) =~= old_out + lines_from(s, start as int));
            }
            cur = Vec::new();
            start = i + 1;
            proof {
                assert(cur@ =~= s.subrange(start as int, (i + 1) as int));
            }
        } else {
            cur.push(c);
            proof {
                assert(cur@ =~= s.subrange(start as int, (i + 1) as int));
            }
        }
        i += 1;
    }
    if start < n {
        proof {
            lemma_next_newline(s, start as int);
            assert(next_newline(s, start as int) == n) by {
                if next_newline(s, start as int) < n {
                    assert(s[next_newline(s, start as int)] == '\n');
                }
            }
            assert(lines_from(s, start as int) == seq![s.subrange(start as int, n as int)]);
        }
        let ghost old_out = out@.map_values(|x: String| x@);
        let st = string_from_chars(&cur);
        out.push(st);
        proof {
            assert(out@.map_values(|x: String| x@) =~= old_out.push(cur@));
            assert(old_out.push(cur@) =~= old_out + lines_from(s, start as int));
        }
    } else {
        proof {
            assert(lines_from(s, start as int) == Seq::<Seq<char>>::empty());
            assert(out@.map_values(|x: String| x@) =~= out@.map_values(|x: String| x@) + lines_from(s, start as int));
        }
    }
    out
}

/// The lowercase form of a string, as `str::to_lowercase` gives it.
pub uninterp spec fn std_to_lowercase(s: Seq<char>) -> Seq<char>;

/// `str::to_lowercase`; the result is the named `std_to_lowercase`.
#[verifier::external_body]
pub(crate) fn to_lowercase(s: &str) -> (r: String)
    ensures
        r@ == std_to_lowercase(s@),
{
    s.to_lowercase()
}

/// `s` with every `from` replaced by `to`.
pub open spec fn replace_char(s: Seq<char>, from: char, to: char) -> Seq<char> {
    s.map_values(|c: char| if c == from { to } else { c })
}

/// A string with every `from` character replaced by `to`.
pub fn replace_char_exec(s: &str, from: char, to: char) -> (r: String)
    ensures
        r@ == replace_char(s@, from, to),
{
    let chars = str_chars(s);
    let mut out: Vec<char> = Vec::new();
    let n = chars.len();
    let mut i: usize = 0;
    while i < n
        invariant
            chars@ == s@,
            n == chars@.len(),
            i <= n,
            out@ == replace_char(s@, from, to).take(i as int),
        decreases n - i,
    {
        let c = chars[i];
        out.push(if c == from { to } else { c });
        i += 1;
        proof {
            assert(out@ =~= replace_char(s@, from, to).take(i as int));
        }
    }
    proof {
        assert(out@ =~= replace_char(s@, from, to));
    }
    string_from_chars(&out)
}

/// Whether `s` starts with `prefix`.
pub open spec fn has_prefix(s: Seq<char>, prefix: Seq<char>) -> bool {
    prefix.len() <= s.len() && s.subrange(0, prefix.len() as int) == prefix
}

/// Whether the characters of `s` start with those of `prefix`.
pub fn starts_with_chars(s: &Vec<char>, prefix: &str) -> (r: bool)
    ensures
        r == has_prefix(s@, prefix@),
{
    let p = str_chars(prefix);
    if p.len() > s.len() {
        return false;
    }
    let n = p.len();
    let mut i: usize = 0;
    while i < n
        invariant
            p@ == prefix@,
            n == p@.len(),
            n <= s@.len(),
            i <= n,
            forall|k: int| 0 <= k < i ==> s@[k] == p@[k],
        decreases n - i,
    {
        if s[i] != p[i] {
            proof {
                assert(s@.subrange(0, n as int)[i as int] != p@[i as int]);
            }
            return false;
        }
        i += 1;
    }
    proof {
        assert(s@.subrange(0, n as int) =~= p@);
    }
    true
}

/// Whether `needle` occurs in `s` starting at index `i`.
pub open spec fn occurs_at(s: Seq<char>, needle: Seq<char>, i: int) -> bool {
    0 <= i && i + needle.len() <= s.len() && s.subrange(i, i + needle.len()) == needle
}

/// Whether `needle` occurs anywhere in `s`.
pub open spec fn contains_seq(s: Seq<char>, needle: Seq<char>) -> bool {
    exists|i: int| occurs_at(s, needle, i)
}

/// Whether `needle` occurs in `s` at index `at`.
fn occurs_at_exec(s: &Vec<char>, needle: &Vec<char>, at: usize) -> (r: bool)
    requires
        at + needle@.len() <= s@.len(),
    ensures
        r == occurs_at(s@, needle@, at as int),
{
    let n = needle.len();
    let slen = s.len();
    let mut k: usize = 0;
    while k < n
        invariant
            n == needle@.len(),
            slen == s@.len(),
            at + n <= s@.len(),
            k <= n,
            forall|j: int| 0 <= j < k ==> s@[at + j] == needle@[j],
        decreases n - k,
    {
        if s[at + k] != needle[k] {
            proof {
                assert(s@.subrange(at as int, at + n)[k as int] != needle@[k as int]);
            }
            return false;
        }
        k += 1;
    }
    proof {
        assert(s@.subrange(at as int, at + n) =~= needle@);
    }
    true
}

/// Whether `needle` occurs anywhere in the characters `s`.
pub fn contains_chars(s: &Vec<char>, needle: &str) -> (r: bool)
    ensures
        r == contains_seq(s@, needle@),
{
    let p = str_chars(needle);
    if p.len() > s.len() {
        proof {
            assert forall|i: int| !occurs_at(s@, needle@, i) by {
                assert(needle@.len() == p@.len());
            }
        }
        return false;
    }
    if p.len() == 0 {
        proof {
            assert(s@.subrange(0, 0) =~= needle@);
            assert(occurs_at(s@, needle@, 0));
        }
        return true;
    }
    let count = s.len() - p.len() + 1;
    let mut i: usize = 0;
    while i < count
        invariant
            p@ == needle@,
            p@.len() > 0,
            count + p@.len() == s@.len() + 1,
            i <= count,
            forall|j: int| 0 <= j < i ==> !occurs_at(s@, needle@, j),
        decreases count - i,
    {
        if occurs_at_exec(s, &p, i) {
            return true;
        }
        i += 1;
    }
    proof {
        assert forall|j: int| !occurs_at(s@, needle@, j) by {
            if 0 <= j && j + needle@.len() <= s@.len() {
                assert(j < count);
            }
        }
    }
    false
}

/// Append the characters of `s`.
pub fn push_str(out: &mut Vec<char>, s: &str)
    ensures
        final(out)@ == old(out)@ + s@,
{
    let chars = str_chars(s);
    push_chars(out, &chars);
}

/// Append the characters `chars`.
pub fn push_chars(out: &mut Vec<char>, chars: &Vec<char>)
    ensures
        final(out)@ == old(out)@ + chars@,
{
    let ghost start = out@;
    let n = chars.len();
    let mut i: usize = 0;
    while i < n
        invariant
            n == chars@.len(),
            i <= n,
            out@ == start + chars@.take(i as int),
        decreases n - i,
    {
        out.push(chars[i]);
        i += 1;
        proof {
            assert(out@ =~= start + chars@.take(i as int));
        }
    }
    proof {
        assert(chars@.take(n as int) =~= chars@);
    }
}

/// The parts joined with `sep` between consecutive ones.
pub open spec fn join_seqs(parts: Seq<Seq<char>>, sep: Seq<char>) -> Seq<char>
    decreases parts.len(),
{
    if parts.len() == 0 {
        Seq::empty()
    } else if parts.len() == 1 {
        parts[0]
    } else {
        join_seqs(parts.drop_last(), sep) + sep + parts.last()
    }
}

/// The parts joined with `sep` between consecutive ones.
pub fn join_chars(parts: &Vec<Vec<char>>, sep: &str) -> (r: Vec<char>)
    ensures
        r@ == join_seqs(parts@.map_values(|p: Vec<char>| p@), sep@),
{
    let ghost ps = parts@.map_values(|p: Vec<char>| p@);
    let mut out: Vec<char> = Vec::new();
    let n = parts.len();
    let mut i: usize = 0;
    while i < n
        invariant
            n == parts@.len(),
            ps == parts@.map_values(|p: Vec<char>| p@),
            i <= n,
            out@ == join_seqs(ps.take(i as int), sep@),
        decreases n - i,
    {
        proof {
            assert(ps.take(i as int + 1).drop_last() =~= ps.take(i as int));
            assert(ps.take(i as int + 1).last() == parts@[i as int]@);
        }
        if i > 0 {
            push_str(&mut out, sep);
        } else {
            proof {
                assert(ps.take(1) =~= seq![ps[0]]);
            }
        }
        push_chars(&mut out, &parts[i]);
        i += 1;
    }
    proof {
        assert(ps.take(n as int) =~= ps);
    }
    out
}

/// The characters of a string, as a vector.
pub fn string_chars(s: &String) -> (r: Vec<char>)
    ensures
        r@ == s@,
{
    str_chars(s.as_str())
}

} // verus!
