//! What the renderers draw, as plain values: styled spans of text placed in
//! screen rectangles, and the text formatting they need.

use vstd::prelude::*;
use crate::text_util::{utf8_len, char_len_utf8};
use crate::view_pipeline::utf8_bytes_len;
use crate::viewport::pow10;

verus! {

/// A screen rectangle in cells.
#[derive(Clone, Copy, Debug, PartialEq, Eq, Structural)]
pub struct Rect {
    pub x: u16,
    pub y: u16,
    pub width: u16,
    pub height: u16,
}

/// A colour slot of the active theme.
#[derive(Clone, Copy, Debug, PartialEq, Eq, Structural)]
pub enum ThemeColor {
    Cursor,
    LineNumberFg,
    LineNumberBg,
    EditorFg,
    EditorBg,
    SelectionBg,
    ScrollbarThumbFg,
    ScrollbarTrackFg,
    DiagnosticErrorBg,
    DiagnosticWarningBg,
    DiagnosticInfoBg,
    DiagnosticHintBg,
    SyntaxKeyword,
    SyntaxString,
    SyntaxComment,
    SyntaxFunction,
    SyntaxType,
    SyntaxVariable,
    SyntaxConstant,
    SyntaxOperator,
}

/// A colour: an RGB value, a named terminal colour, or a theme slot.
#[derive(Clone, Copy, Debug, PartialEq, Eq, Structural)]
pub enum Color {
    Rgb(u8, u8, u8),
    Green,
    Red,
    Yellow,
    Cyan,
    DarkGray,
    Theme(ThemeColor),
}

/// Foreground, background (unset keeps what is below) and boldness.
#[derive(Clone, Copy, Debug, PartialEq, Eq, Structural)]
pub struct Style {
    pub fg: Option<Color>,
    pub bg: Option<Color>,
    pub bold: bool,
}

pub open spec fn plain() -> Style {
    Style { fg: None, bg: None, bold: false }
}

pub open spec fn fg_style(c: Color) -> Style {
    Style { fg: Some(c), bg: None, bold: false }
}

pub open spec fn bg_style(c: Color) -> Style {
    Style { fg: None, bg: Some(c), bold: false }
}

impl Style {
    /// No colours, not bold.
    pub fn plain() -> (r: Self)
        ensures
            r == plain(),
    {
        Style { fg: None, bg: None, bold: false }
    }
}

/// A run of text in one style.
pub struct Span {
    pub text: String,
    pub style: Style,
}

pub open spec fn span_view(s: Span) -> (Seq<char>, Style) {
    (s.text@, s.style)
}

/// Spans drawn left to right from the top-left corner of `area`.
pub struct LineDraw {
    pub area: Rect,
    pub spans: Vec<Span>,
}

/// The abstract form of a draw: its rectangle and its spans' texts and styles.
pub type DrawView = (Rect, Seq<(Seq<char>, Style)>);

pub open spec fn draw_view(d: LineDraw) -> DrawView {
    (d.area, d.spans@.map_values(|s: Span| span_view(s)))
}

pub open spec fn draws_view(ds: Seq<LineDraw>) -> Seq<DrawView> {
    ds.map_values(|d: LineDraw| draw_view(d))
}

pub proof fn lemma_draws_view_push(ds: Seq<LineDraw>, d: LineDraw)
    ensures
        draws_view(ds.push(d)) == draws_view(ds).push(draw_view(d)),
{
    assert(draws_view(ds.push(d)) =~= draws_view(ds).push(draw_view(d)));
}

pub proof fn lemma_draws_view_append(a: Seq<LineDraw>, b: Seq<LineDraw>)
    ensures
        draws_view(a + b) == draws_view(a) + draws_view(b),
{
    assert(draws_view(a + b) =~= draws_view(a) + draws_view(b));
}

/// A draw of one row `area` holding the given spans.
pub fn line_draw(area: Rect, spans: Vec<Span>) -> (r: LineDraw)
    ensures
        r.area == area,
        r.spans@ == spans@,
{
    LineDraw { area, spans }
}

/// The character of decimal digit `d`.
pub open spec fn digit_char(d: nat) -> char {
    if d == 0 { '0' } else if d == 1 { '1' } else if d == 2 { '2' } else if d == 3 { '3' }
    else if d == 4 { '4' } else if d == 5 { '5' } else if d == 6 { '6' } else if d == 7 { '7' }
    else if d == 8 { '8' } else { '9' }
}

/// The decimal digits of `n`, most significant first.
pub open spec fn decimal(n: nat) -> Seq<char>
    decreases n,
{
    if n < 10 {
        seq![digit_char(n)]
    } else {
        decimal(n / 10).push(digit_char(n % 10))
    }
}

/// `n` copies of `c`.
pub open spec fn repeat_char(c: char, n: nat) -> Seq<char> {
    Seq::new(n, |i: int| c)
}

/// `s` right-aligned in a field of `width` characters (never cut).
pub open spec fn align_right(s: Seq<char>, width: nat) -> Seq<char> {
    if s.len() < width { repeat_char(' ', (width - s.len()) as nat) + s } else { s }
}

/// `s` left-aligned in a field of `width` characters (never cut).
pub open spec fn align_left(s: Seq<char>, width: nat) -> Seq<char> {
    if s.len() < width { s + repeat_char(' ', (width - s.len()) as nat) } else { s }
}

fn digit_of(d: usize) -> (r: char)
    requires
        d < 10,
    ensures
        r == digit_char(d as nat),
{
    if d == 0 { '0' } else if d == 1 { '1' } else if d == 2 { '2' } else if d == 3 { '3' }
    else if d == 4 { '4' } else if d == 5 { '5' } else if d == 6 { '6' } else if d == 7 { '7' }
    else if d == 8 { '8' } else { '9' }
}

/// The decimal digits of `n`.
pub fn decimal_chars(n: usize) -> (r: Vec<char>)
    ensures
        r@ == decimal(n as nat),
    decreases n,
{
    if n < 10 {
        let mut v: Vec<char> = Vec::new();
        v.push(digit_of(n));
        proof {
            assert(v@ =~= seq![digit_char(n as nat)]);
        }
        v
    } else {
        let mut v = decimal_chars(n / 10);
        v.push(digit_of(n % 10));
        v
    }
}

/// The decimal digits of a 128-bit `n`.
pub fn decimal_chars_u128(n: u128) -> (r: Vec<char>)
    ensures
        r@ == decimal(n as nat),
    decreases n,
{
    if n < 10 {
        let mut v: Vec<char> = Vec::new();
        v.push(digit_of(n as usize));
        proof {
            assert(v@ =~= seq![digit_char(n as nat)]);
        }
        v
    } else {
        let mut v = decimal_chars_u128(n / 10);
        v.push(digit_of((n % 10) as usize));
        v
    }
}

/// Append `n` copies of `c`.
pub fn push_repeat(out: &mut Vec<char>, c: char, n: usize)
    ensures
        final(out)@ == old(out)@ + repeat_char(c, n as nat),
{
    let ghost start = out@;
    let mut i: usize = 0;
    while i < n
        invariant
            i <= n,
            out@ == start + repeat_char(c, i as nat),
        decreases n - i,
    {
        out.push(c);
        i += 1;
        proof {
            assert(out@ =~= start + repeat_char(c, i as nat));
        }
    }
}

/// Append `s` right-aligned in a field of `width` characters.
pub fn push_align_right(out: &mut Vec<char>, s: &Vec<char>, width: usize)
    ensures
        final(out)@ == old(out)@ + align_right(s@, width as nat),
{
    let ghost start = out@;
    if s.len() < width {
        push_repeat(out, ' ', width - s.len());
    }
    let ghost mid = out@;
    let n = s.len();
    let mut i: usize = 0;
    while i < n
        invariant
            n == s@.len(),
            i <= n,
            out@ == mid + s@.subrange(0, i as int),
        decreases n - i,
    {
        out.push(s[i]);
        i += 1;
        proof {
            assert(out@ =~= mid + s@.subrange(0, i as int));
        }
    }
    proof {
        assert(s@.subrange(0, n as int) =~= s@);
        assert(out@ =~= start + align_right(s@, width as nat));
    }
}

/// Append `s` left-aligned in a field of `width` characters.
pub fn push_align_left(out: &mut Vec<char>, s: &Vec<char>, width: usize)
    ensures
        final(out)@ == old(out)@ + align_left(s@, width as nat),
{
    let ghost start = out@;
    let n = s.len();
    let mut i: usize = 0;
    while i < n
        invariant
            n == s@.len(),
            i <= n,
            out@ == start + s@.subrange(0, i as int),
        decreases n - i,
    {
        out.push(s[i]);
        i += 1;
        proof {
            assert(out@ =~= start + s@.subrange(0, i as int));
        }
    }
    proof {
        assert(s@.subrange(0, n as int) =~= s@);
    }
    if n < width {
        push_repeat(out, ' ', width - n);
    }
    proof {
        assert(out@ =~= start + align_left(s@, width as nat));
    }
}

/// UTF-8 lengths are between one and four bytes per character.
pub proof fn lemma_utf8_bytes_len_bounds(s: Seq<char>)
    ensures
        s.len() <= utf8_bytes_len(s) <= 4 * s.len(),
    decreases s.len(),
{
    if s.len() > 0 {
        lemma_utf8_bytes_len_bounds(s.drop_first());
    }
}

/// Number of bytes of the characters in UTF-8.
pub fn utf8_len_of(s: &Vec<char>) -> (r: usize)
    requires
        s@.len() <= usize::MAX / 4,
    ensures
        r == utf8_bytes_len(s@),
{
    let n = s.len();
    let mut i: usize = 0;
    let mut k: usize = 0;
    proof {
        assert(s@.skip(0) =~= s@);
        lemma_utf8_bytes_len_bounds(s@);
    }
    while i < n
        invariant
            n == s@.len(),
            n <= usize::MAX / 4,
            i <= n,
            k <= 4 * i,
            k + utf8_bytes_len(s@.skip(i as int)) == utf8_bytes_len(s@),
        decreases n - i,
    {
        let w = char_len_utf8(s[i]);
        proof {
            let rest = s@.skip(i as int);
            assert(rest[0] == s@[i as int]);
            assert(rest.drop_first() =~= s@.skip(i + 1));
        }
        k = k + w;
        i = i + 1;
    }
    proof {
        assert(s@.skip(n as int) =~= Seq::<char>::empty());
    }
    k
}

/// The first `n` characters (all of them when there are fewer).
pub fn take_chars(s: &Vec<char>, n: usize) -> (r: Vec<char>)
    ensures
        r@ == s@.take(if n <= s@.len() { n as int } else { s@.len() as int }),
{
    let m = if n <= s.len() { n } else { s.len() };
    let mut out: Vec<char> = Vec::new();
    let mut i: usize = 0;
    while i < m
        invariant
            m <= s@.len(),
            i <= m,
            out@ == s@.take(i as int),
        decreases m - i,
    {
        out.push(s[i]);
        i += 1;
        proof {
            assert(out@ =~= s@.take(i as int));
        }
    }
    out
}

/// A number below `10^k` has at most `k` digits (and at least one).
pub proof fn lemma_decimal_len(n: nat, k: nat)
    requires
        n < pow10(k),
        k >= 1,
    ensures
        1 <= decimal(n).len() <= k,
    decreases k,
{
    if n >= 10 {
        if k == 1 {
            assert(pow10(0) == 1);
            assert(pow10(1) == 10);
        }
        let p = pow10((k - 1) as nat);
        assert(pow10(k) == 10 * p);
        assert(n / 10 < p) by (nonlinear_arith)
            requires n < 10 * p;
        lemma_decimal_len(n / 10, (k - 1) as nat);
    }
}

/// Every `usize` has at most twenty decimal digits.
pub proof fn lemma_decimal_len_usize(n: usize)
    ensures
        1 <= decimal(n as nat).len() <= 20,
{
    assert(pow10(0) == 1nat);
    assert(pow10(1) == 10nat);
    assert(pow10(2) == 100nat);
    assert(pow10(3) == 1000nat);
    assert(pow10(4) == 10000nat);
    assert(pow10(5) == 100000nat);
    assert(pow10(6) == 1000000nat);
    assert(pow10(7) == 10000000nat);
    assert(pow10(8) == 100000000nat);
    assert(pow10(9) == 1000000000nat);
    assert(pow10(10) == 10000000000nat);
    assert(pow10(11) == 100000000000nat);
    assert(pow10(12) == 1000000000000nat);
    assert(pow10(13) == 10000000000000nat);
    assert(pow10(14) == 100000000000000nat);
    assert(pow10(15) == 1000000000000000nat);
    assert(pow10(16) == 10000000000000000nat);
    assert(pow10(17) == 100000000000000000nat);
    assert(pow10(18) == 1000000000000000000nat);
    assert(pow10(19) == 10000000000000000000nat);
    assert(pow10(20) == 100000000000000000000nat);
    lemma_decimal_len(n as nat, 20);
}

} // verus!
