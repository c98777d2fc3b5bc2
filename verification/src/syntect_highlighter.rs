//! Syntax highlighting categories: mapping TextMate scopes to categories, and
//! the span lists a highlighter keeps.

use vstd::prelude::*;
use crate::text_util::{lines_from, has_prefix, starts_with_chars, str_chars, str_lines, push_str, string_from_chars, to_lowercase, std_to_lowercase, min_int};
use syntect::parsing::{ParseState, ScopeStack, ScopeStackOp, SyntaxSet};
use crate::draw::Color;
use crate::theme::Theme;

verus! {

/// Highlight category for syntax elements
#[derive(Debug, Clone, Copy, PartialEq, Eq, Structural)]
pub enum HighlightCategory {
    Attribute,
    Comment,
    Constant,
    Function,
    Keyword,
    Number,
    Operator,
    Property,
    String,
    Type,
    Variable,
}

/// The category of a (lowercased) scope name, by the first rule whose prefix matches.
pub open spec fn category_of_lower(s: Seq<char>) -> Option<HighlightCategory> {
    if has_prefix(s, "comment"@) {
        Some(HighlightCategory::Comment)
    } else if has_prefix(s, "string"@) {
        Some(HighlightCategory::String)
    } else if has_prefix(s, "keyword"@) && !has_prefix(s, "keyword.operator"@) {
        Some(HighlightCategory::Keyword)
    } else if has_prefix(s, "keyword.operator"@) || has_prefix(s, "punctuation"@) {
        Some(HighlightCategory::Operator)
    } else if has_prefix(s, "entity.name.function"@) || has_prefix(s, "support.function"@)
        || has_prefix(s, "meta.function-call"@) || has_prefix(s, "variable.function"@) {
        Some(HighlightCategory::Function)
    } else if has_prefix(s, "entity.name.type"@) || has_prefix(s, "entity.name.class"@)
        || has_prefix(s, "support.type"@) || has_prefix(s, "support.class"@) || has_prefix(s, "storage.type"@) {
        Some(HighlightCategory::Type)
    } else if has_prefix(s, "storage.modifier"@) {
        Some(HighlightCategory::Keyword)
    } else if has_prefix(s, "constant.numeric"@) || has_prefix(s, "constant.language.boolean"@) {
        Some(HighlightCategory::Number)
    } else if has_prefix(s, "constant"@) {
        Some(HighlightCategory::Constant)
    } else if has_prefix(s, "variable"@) {
        Some(HighlightCategory::Variable)
    } else if has_prefix(s, "entity.name.tag"@) || has_prefix(s, "support.other.property"@)
        || has_prefix(s, "meta.object-literal.key"@) {
        Some(HighlightCategory::Property)
    } else if has_prefix(s, "entity.other.attribute"@) || has_prefix(s, "meta.attribute"@) {
        Some(HighlightCategory::Attribute)
    } else {
        None
    }
}

/// Map TextMate scope to highlight category (scope names compare case-insensitively)
pub fn scope_to_category(scope: &str) -> (r: Option<HighlightCategory>)
    ensures
        r == category_of_lower(std_to_lowercase(scope@)),
{
    let lower = to_lowercase(scope);
    let s = str_chars(lower.as_str());
    if starts_with_chars(&s, "comment") {
        return Some(HighlightCategory::Comment);
    }
    if starts_with_chars(&s, "string") {
        return Some(HighlightCategory::String);
    }
    if starts_with_chars(&s, "keyword") && !starts_with_chars(&s, "keyword.operator") {
        return Some(HighlightCategory::Keyword);
    }
    if starts_with_chars(&s, "keyword.operator") || starts_with_chars(&s, "punctuation") {
        return Some(HighlightCategory::Operator);
    }
    if starts_with_chars(&s, "entity.name.function") || starts_with_chars(&s, "support.function")
        || starts_with_chars(&s, "meta.function-call") || starts_with_chars(&s, "variable.function") {
        return Some(HighlightCategory::Function);
    }
    if starts_with_chars(&s, "entity.name.type") || starts_with_chars(&s, "entity.name.class")
        || starts_with_chars(&s, "support.type") || starts_with_chars(&s, "support.class")
        || starts_with_chars(&s, "storage.type") {
        return Some(HighlightCategory::Type);
    }
    if starts_with_chars(&s, "storage.modifier") {
        return Some(HighlightCategory::Keyword);
    }
    if starts_with_chars(&s, "constant.numeric") || starts_with_chars(&s, "constant.language.boolean") {
        return Some(HighlightCategory::Number);
    }
    if starts_with_chars(&s, "constant") {
        return Some(HighlightCategory::Constant);
    }
    if starts_with_chars(&s, "variable") {
        return Some(HighlightCategory::Variable);
    }
    if starts_with_chars(&s, "entity.name.tag") || starts_with_chars(&s, "support.other.property")
        || starts_with_chars(&s, "meta.object-literal.key") {
        return Some(HighlightCategory::Property);
    }
    if starts_with_chars(&s, "entity.other.attribute") || starts_with_chars(&s, "meta.attribute") {
        return Some(HighlightCategory::Attribute);
    }
    None
}

/// The category of a scope stack: that of the innermost scope that has one.
pub open spec fn spec_stack_category(scopes: Seq<Seq<char>>) -> Option<HighlightCategory>
    decreases scopes.len(),
{
    if scopes.len() == 0 {
        None
    } else {
        match category_of_lower(std_to_lowercase(scopes.last())) {
            Some(c) => Some(c),
            None => spec_stack_category(scopes.drop_last()),
        }
    }
}

/// Map a scope stack (outermost first) to a highlight category
pub fn scope_stack_to_category(scopes: &Vec<String>) -> (r: Option<HighlightCategory>)
    ensures
        r == spec_stack_category(scopes@.map_values(|s: String| s@)),
{
    let ghost ss = scopes@.map_values(|s: String| s@);
    let mut i = scopes.len();
    proof {
        assert(ss.take(i as int) =~= ss);
    }
    while i > 0
        invariant
            i <= scopes@.len(),
            ss == scopes@.map_values(|s: String| s@),
            spec_stack_category(ss.take(i as int)) == spec_stack_category(ss),
        decreases i,
    {
        proof {
            assert(ss.take(i as int).drop_last() =~= ss.take(i - 1));
            assert(ss.take(i as int).last() == scopes@[i - 1]@);
        }
        match scope_to_category(scopes[i - 1].as_str()) {
            Some(c) => {
                return Some(c);
            },
            None => {},
        }
        i -= 1;
    }
    proof {
        assert(ss.take(0) =~= Seq::<Seq<char>>::empty());
    }
    None
}

/// A highlighted byte range with its category.
#[derive(Debug, Clone, Copy, PartialEq, Eq, Structural)]
pub struct CategorySpan {
    pub start: usize,
    pub end: usize,
    pub category: HighlightCategory,
}

/// `b` continues `a`: same category, starting where `a` ends.
pub open spec fn continues(a: CategorySpan, b: CategorySpan) -> bool {
    a.category == b.category && a.end == b.start
}

/// Spans with adjacent same-category spans merged, scanning left to right.
pub open spec fn spec_merge_spans(s: Seq<CategorySpan>) -> Seq<CategorySpan>
    decreases s.len(),
{
    if s.len() <= 1 {
        s
    } else {
        let m = spec_merge_spans(s.drop_last());
        if continues(m.last(), s.last()) {
            m.update(m.len() - 1, CategorySpan { end: s.last().end, ..m.last() })
        } else {
            m.push(s.last())
        }
    }
}

proof fn lemma_merge_nonempty(s: Seq<CategorySpan>)
    ensures
        s.len() > 0 ==> spec_merge_spans(s).len() > 0,
        spec_merge_spans(s).len() <= s.len(),
    decreases s.len(),
{
    if s.len() > 1 {
        lemma_merge_nonempty(s.drop_last());
    }
}

/// Merge adjacent spans with same category
pub fn merge_adjacent_spans(spans: &mut Vec<CategorySpan>)
    ensures
        final(spans)@ == spec_merge_spans(old(spans)@),
{
    if spans.len() < 2 {
        return;
    }
    let ghost orig = spans@;
    let n = spans.len();
    let mut write_idx: usize = 0;
    let mut read_idx: usize = 1;
    while read_idx < n
        invariant
            n == orig.len(),
            n >= 2,
            spans@.len() == n,
            1 <= read_idx <= n,
            write_idx < read_idx,
            spans@.take(write_idx as int + 1) == spec_merge_spans(orig.take(read_idx as int)),
            forall|k: int| read_idx <= k < n ==> spans@[k] == orig[k],
        decreases n - read_idx,
    {
        proof {
            lemma_merge_nonempty(orig.take(read_idx as int));
            assert(orig.take(read_idx as int + 1).drop_last() =~= orig.take(read_idx as int));
            assert(orig.take(read_idx as int + 1).last() == orig[read_idx as int]);
        }
        let w = spans[write_idx];
        let r = spans[read_idx];
        let ghost before = spans@;
        if w.category == r.category && w.end == r.start {
            spans.set(write_idx, CategorySpan { end: r.end, ..w });
            proof {
                assert(spans@.take(write_idx as int + 1) =~= before.take(write_idx as int + 1).update(write_idx as int,
                    CategorySpan { end: r.end, ..w }));
            }
        } else {
            write_idx += 1;
            if write_idx != read_idx {
                spans.set(write_idx, r);
            }
            proof {
                assert(spans@.take(write_idx as int + 1) =~= before.take(write_idx as int).push(r));
            }
        }
        read_idx += 1;
    }
    spans.truncate(write_idx + 1);
    proof {
        assert(orig.take(n as int) =~= orig);
        assert(spans@ =~= spec_merge_spans(orig));
    }
}

/// Spans that overlap the byte range `start..end`, in order.
pub open spec fn spec_spans_in_view(s: Seq<CategorySpan>, start: usize, end: usize) -> Seq<CategorySpan> {
    s.filter(|x: CategorySpan| x.start < end && x.end > start)
}

/// The spans overlapping the byte range `start..end`, in order.
pub fn spans_in_view(spans: &Vec<CategorySpan>, start: usize, end: usize) -> (r: Vec<CategorySpan>)
    ensures
        r@ == spec_spans_in_view(spans@, start, end),
{
    let mut out: Vec<CategorySpan> = Vec::new();
    let n = spans.len();
    let mut i: usize = 0;
    while i < n
        invariant
            n == spans@.len(),
            i <= n,
            out@ == spans@.take(i as int).filter(|x: CategorySpan| x.start < end && x.end > start),
        decreases n - i,
    {
        let s = spans[i];
        proof {
            assert(spans@.take(i as int + 1).drop_last() =~= spans@.take(i as int));
            reveal_with_fuel(Seq::filter, 1);
        }
        if s.start < end && s.end > start {
            out.push(s);
        }
        i += 1;
    }
    proof {
        assert(spans@.take(n as int) =~= spans@);
    }
    out
}

/// The file extensions a highlighter is offered for.
pub open spec fn spec_supported_extensions() -> Seq<Seq<char>> {
    seq!["rs"@, "py"@, "js"@, "jsx"@, "ts"@, "tsx"@, "html"@, "css"@, "c"@, "h"@, "cpp"@, "hpp"@, "cc"@, "go"@,
        "json"@, "java"@, "cs"@, "php"@, "rb"@, "sh"@, "bash"@, "lua"@, "md"@, "yaml"@, "yml"@, "toml"@, "xml"@,
        "sql"@, "swift"@, "kt"@, "scala"@, "r"@, "pl"@, "pm"@]
}

/// Get a list of supported file extensions
pub fn supported_extensions() -> (r: Vec<&'static str>)
    ensures
        r@.map_values(|s: &str| s@) == spec_supported_extensions(),
{
    let v = vec![
        "rs", "py", "js", "jsx", "ts", "tsx", "html", "css", "c", "h", "cpp", "hpp", "cc", "go",
        "json", "java", "cs", "php", "rb", "sh", "bash", "lua", "md", "yaml", "yml", "toml", "xml",
        "sql", "swift", "kt", "scala", "r", "pl", "pm",
    ];
    proof {
        assert(v@.map_values(|s: &str| s@) =~= spec_supported_extensions());
    }
    v
}

// ---------------------------------------------------------------------------
// Parsing with syntect
// ---------------------------------------------------------------------------

/// A set of syntax definitions.
#[verifier::external_type_specification]
#[verifier::external_body]
pub struct ExSyntaxSet(syntect::parsing::SyntaxSet);

/// The parser state of a syntax, carried from line to line.
#[verifier::external_type_specification]
#[verifier::external_body]
pub struct ExParseState(syntect::parsing::ParseState);

/// A stack of scopes.
#[verifier::external_type_specification]
#[verifier::external_body]
pub struct ExScopeStack(syntect::parsing::ScopeStack);

/// A change to a scope stack.
#[verifier::external_type_specification]
#[verifier::external_body]
pub struct ExScopeStackOp(syntect::parsing::ScopeStackOp);

/// What a syntax set holds: each syntax's name and file extensions, in the
/// set's order.
pub uninterp spec fn syntax_set_entries(set: SyntaxSet) -> Seq<(Seq<char>, Seq<Seq<char>>)>;

/// ASCII lowercase of a character; other characters unchanged.
pub open spec fn ascii_lower(c: char) -> char {
    if 'A' <= c && c <= 'Z' { ((c as u32) + 32) as char } else { c }
}

/// Equal up to ASCII case (as `str::eq_ignore_ascii_case` compares).
pub open spec fn eq_ignore_ascii_case(a: Seq<char>, b: Seq<char>) -> bool {
    a.len() == b.len() && forall|i: int| 0 <= i < a.len() ==> ascii_lower(#[trigger] a[i]) == ascii_lower(b[i])
}

/// The name of the last syntax one of whose file extensions equals `ext` up to
/// ASCII case.
pub open spec fn spec_find_by_extension(es: Seq<(Seq<char>, Seq<Seq<char>>)>, ext: Seq<char>) -> Option<Seq<char>>
    decreases es.len(),
{
    if es.len() == 0 {
        None
    } else if exists|j: int| 0 <= j < es.last().1.len() && eq_ignore_ascii_case(#[trigger] es.last().1[j], ext) {
        Some(es.last().0)
    } else {
        spec_find_by_extension(es.drop_last(), ext)
    }
}

/// The names a set's syntaxes were listed under are its entries' names.
proof fn lemma_names_of_set(set: &SyntaxSet, names: &Vec<String>, i: int)
    requires
        names@.map_values(|s: String| s@) == syntax_set_entries(*set).map_values(|e: (Seq<char>, Seq<Seq<char>>)| e.0),
    ensures
        names@.len() == syntax_set_entries(*set).len(),
        0 <= i < names@.len() ==> names@[i]@ == syntax_set_entries(*set)[i].0,
{
    let es = syntax_set_entries(*set);
    assert(names@.map_values(|s: String| s@).len() == names@.len());
    if 0 <= i < names@.len() {
        assert(names@.map_values(|s: String| s@)[i] == names@[i]@);
        assert(es.map_values(|e: (Seq<char>, Seq<Seq<char>>)| e.0)[i] == es[i].0);
    }
}

/// `SyntaxSet::load_defaults_newlines`: the bundled syntax definitions.
#[verifier::external_body]
fn load_default_syntaxes() -> (r: SyntaxSet) {
    SyntaxSet::load_defaults_newlines()
}

/// `SyntaxSet::find_syntax_by_extension`: the name of the last syntax of the
/// set with a file extension equal to `ext` up to ASCII case, if any.
#[verifier::external_body]
fn syntax_name_for_extension(set: &SyntaxSet, ext: &str) -> (r: Option<String>)
    ensures
        match r {
            Some(n) => spec_find_by_extension(syntax_set_entries(*set), ext@) == Some(n@),
            None => spec_find_by_extension(syntax_set_entries(*set), ext@) is None,
        },
{
    match set.find_syntax_by_extension(ext) {
        Some(s) => Some(s.name.clone()),
        None => None,
    }
}

/// `SyntaxSet::find_syntax_by_name`: the name of a syntax called `name` (so
/// `name` itself), when the set has one.
#[verifier::external_body]
fn syntax_name_for_name(set: &SyntaxSet, name: &str) -> (r: Option<String>)
    ensures
        match r {
            Some(n) => n@ == name@ && exists|i: int| 0 <= i < syntax_set_entries(*set).len()
                && #[trigger] syntax_set_entries(*set)[i].0 == name@,
            None => forall|i: int| 0 <= i < syntax_set_entries(*set).len()
                ==> #[trigger] syntax_set_entries(*set)[i].0 != name@,
        },
{
    match set.find_syntax_by_name(name) {
        Some(s) => Some(s.name.clone()),
        None => None,
    }
}

/// `SyntaxSet::syntaxes`: the names of the set's syntaxes, in order.
#[verifier::external_body]
fn syntax_names(set: &SyntaxSet) -> (r: Vec<String>)
    ensures
        r@.map_values(|s: String| s@) == syntax_set_entries(*set).map_values(|e: (Seq<char>, Seq<Seq<char>>)| e.0),
{
    set.syntaxes().iter().map(|s| s.name.clone()).collect()
}

/// The parser state that syntax `index` of `set` reaches after parsing `lines`
/// in order, from `ParseState::new`.
pub uninterp spec fn syntect_state(set: SyntaxSet, index: usize, lines: Seq<Seq<char>>) -> ParseState;

/// The scope changes, with their byte offsets, that `ParseState::parse_line`
/// returns for `line` in the state `syntect_state(set, index, before)`, or none
/// when it fails.
pub uninterp spec fn syntect_line_ops(set: SyntaxSet, index: usize, before: Seq<Seq<char>>, line: Seq<char>)
    -> Option<Seq<(usize, ScopeStackOp)>>;

/// The scope stack `ScopeStack::new` gives after `ScopeStack::apply` of each of
/// `ops` in order.
pub uninterp spec fn syntect_stack(ops: Seq<ScopeStackOp>) -> ScopeStack;

/// The names of a scope stack's scopes, outermost first.
pub uninterp spec fn syntect_scope_names(stack: ScopeStack) -> Seq<Seq<char>>;

/// `ParseState::new` for the syntax at `index`, if the set has one there.
#[verifier::external_body]
fn parse_state_for(set: &SyntaxSet, index: usize) -> (r: Option<ParseState>)
    ensures
        r is Some <==> index < syntax_set_entries(*set).len(),
        r matches Some(st) ==> st == syntect_state(*set, index, Seq::empty()),
{
    match set.syntaxes().get(index) {
        Some(s) => Some(ParseState::new(s)),
        None => None,
    }
}

/// `ParseState::parse_line`: the scope changes of one line with their byte
/// offsets, or none when parsing fails, for a state built from this same set;
/// the state moves on past the line either way.
#[verifier::external_body]
fn parse_line(state: &mut ParseState, line: &str, set: &SyntaxSet) -> (r: Option<Vec<(usize, ScopeStackOp)>>)
    requires
        exists|index: usize, before: Seq<Seq<char>>| index < syntax_set_entries(*set).len()
            && *old(state) == #[trigger] syntect_state(*set, index, before),
    ensures
        forall|index: usize, before: Seq<Seq<char>>| *old(state) == #[trigger] syntect_state(*set, index, before)
            ==> *final(state) == syntect_state(*set, index, before.push(line@))
            && match r {
                Some(ops) => syntect_line_ops(*set, index, before, line@) == Some(ops@),
                None => syntect_line_ops(*set, index, before, line@) is None,
            },
{
    match state.parse_line(line, set) {
        Ok(ops) => Some(ops),
        Err(_) => None,
    }
}

/// `ScopeStack::new`: an empty scope stack.
#[verifier::external_body]
fn new_scope_stack() -> (r: ScopeStack)
    ensures
        r == syntect_stack(Seq::empty()),
{
    ScopeStack::new()
}

/// `ScopeStack::apply`: the stack changed by `op` (a failed change is ignored).
#[verifier::external_body]
fn apply_scope_op(stack: &mut ScopeStack, op: &ScopeStackOp)
    ensures
        forall|ops: Seq<ScopeStackOp>| *old(stack) == #[trigger] syntect_stack(ops)
            ==> *final(stack) == syntect_stack(ops.push(*op)),
{
    let _ = stack.apply(op);
}

/// `ScopeStack::as_slice` and `Scope::build_string`: the names of the stack's
/// scopes, outermost first.
#[verifier::external_body]
fn scope_names(stack: &ScopeStack) -> (r: Vec<String>)
    ensures
        r@.map_values(|s: String| s@) == syntect_scope_names(*stack),
{
    stack.as_slice().iter().map(|s| s.build_string()).collect()
}

/// Index of the first name equal to `name`.
pub fn position_of_name(names: &Vec<String>, name: &String) -> (r: Option<usize>)
    ensures
        match r {
            Some(i) => i < names@.len() && names@[i as int]@ == name@
                && forall|j: int| 0 <= j < i ==> names@[j]@ != name@,
            None => forall|j: int| 0 <= j < names@.len() ==> names@[j]@ != name@,
        },
{
    let n = names.len();
    let mut i: usize = 0;
    while i < n
        invariant
            n == names@.len(),
            i <= n,
            forall|j: int| 0 <= j < i ==> names@[j]@ != name@,
        decreases n - i,
    {
        if names[i] == *name {
            return Some(i);
        }
        i += 1;
    }
    None
}

/// Spans and the line offset reached after the first `k` scope changes of a
/// line starting at byte `cur` with `line_len` bytes: text before a change gets
/// the category the stack had before it, when there is one.
pub open spec fn line_spans_prefix(cur: int, line_len: int, offs: Seq<usize>, cats: Seq<Option<HighlightCategory>>, k: int)
    -> (Seq<CategorySpan>, int)
    decreases k,
{
    if k <= 0 {
        (Seq::empty(), 0)
    } else {
        let (spans, at) = line_spans_prefix(cur, line_len, offs, cats, k - 1);
        let clamped = min_int(offs[k - 1] as int, line_len);
        if clamped > at && cats[k - 1] is Some {
            (spans.push(CategorySpan { start: (cur + at) as usize, end: (cur + clamped) as usize, category: cats[k - 1]->0 }), clamped)
        } else {
            (spans, clamped)
        }
    }
}

/// The spans of a line: those before each change, then the rest of the line
/// with the category after the last change.
pub open spec fn spec_line_spans(cur: int, line_len: int, offs: Seq<usize>, cats: Seq<Option<HighlightCategory>>,
    end_cat: Option<HighlightCategory>) -> Seq<CategorySpan> {
    let (spans, at) = line_spans_prefix(cur, line_len, offs, cats, offs.len() as int);
    if at < line_len && end_cat is Some {
        spans.push(CategorySpan { start: (cur + at) as usize, end: (cur + line_len) as usize, category: end_cat->0 })
    } else {
        spans
    }
}

proof fn lemma_line_spans_prefix_at(cur: int, line_len: int, offs: Seq<usize>, cats: Seq<Option<HighlightCategory>>, k: int)
    requires
        0 <= line_len,
    ensures
        0 <= line_spans_prefix(cur, line_len, offs, cats, k).1 <= line_len,
    decreases k,
{
    if k > 0 {
        lemma_line_spans_prefix_at(cur, line_len, offs, cats, k - 1);
    }
}

/// The spans of one line from its scope changes (offsets `offs`, stack
/// categories `cats` before each change, `end_cat` after the last).
pub fn line_spans(cur: usize, line_len: usize, offs: &Vec<usize>, cats: &Vec<Option<HighlightCategory>>,
    end_cat: Option<HighlightCategory>) -> (r: Vec<CategorySpan>)
    requires
        offs@.len() == cats@.len(),
        cur + line_len <= usize::MAX,
    ensures
        r@ == spec_line_spans(cur as int, line_len as int, offs@, cats@, end_cat),
{
    let mut spans: Vec<CategorySpan> = Vec::new();
    let mut at: usize = 0;
    let n = offs.len();
    let mut k: usize = 0;
    while k < n
        invariant
            n == offs@.len(),
            n == cats@.len(),
            cur + line_len <= usize::MAX,
            k <= n,
            at <= line_len,
            (spans@, at as int) == line_spans_prefix(cur as int, line_len as int, offs@, cats@, k as int),
        decreases n - k,
    {
        let clamped = if offs[k] <= line_len { offs[k] } else { line_len };
        if clamped > at {
            match cats[k] {
                Some(c) => {
                    spans.push(CategorySpan { start: cur + at, end: cur + clamped, category: c });
                },
                None => {},
            }
        }
        at = clamped;
        k += 1;
    }
    if at < line_len {
        match end_cat {
            Some(c) => {
                spans.push(CategorySpan { start: cur + at, end: cur + line_len, category: c });
            },
            None => {},
        }
    }
    spans
}

/// No span continues the one before it.
pub open spec fn no_adjacent_continues(s: Seq<CategorySpan>) -> bool {
    forall|i: int| 0 <= i < s.len() - 1 ==> !continues(#[trigger] s[i], s[i + 1])
}

/// Merging leaves no two neighbouring spans that could be merged, keeps the
/// first span's start and the last span's end, and never adds spans.
pub proof fn lemma_merge_no_adjacent(s: Seq<CategorySpan>)
    ensures
        no_adjacent_continues(spec_merge_spans(s)),
        spec_merge_spans(s).len() <= s.len(),
        s.len() > 0 ==> spec_merge_spans(s).len() > 0 && spec_merge_spans(s)[0].start == s[0].start
            && spec_merge_spans(s).last().end == s.last().end,
    decreases s.len(),
{
    if s.len() > 1 {
        let t = s.drop_last();
        lemma_merge_no_adjacent(t);
        let m = spec_merge_spans(t);
        let x = s.last();
        assert(t[0] == s[0]);
        if continues(m.last(), x) {
            let u = m.update(m.len() - 1, CategorySpan { end: x.end, ..m.last() });
            assert forall|i: int| 0 <= i < u.len() - 1 implies !continues(#[trigger] u[i], u[i + 1]) by {
                if i + 1 == u.len() - 1 {
                    assert(!continues(m[i], m[i + 1]));
                } else {
                    assert(!continues(m[i], m[i + 1]));
                }
            }
        } else {
            let u = m.push(x);
            assert forall|i: int| 0 <= i < u.len() - 1 implies !continues(#[trigger] u[i], u[i + 1]) by {
                if i + 1 < m.len() {
                    assert(!continues(m[i], m[i + 1]));
                }
            }
        }
    }
}

/// A line with a newline appended.
fn line_with_newline(line: &String) -> (r: String)
    ensures
        r@ == line@.push('\n'),
{
    let mut chars: Vec<char> = crate::text_util::string_chars(line);
    chars.push('\n');
    string_from_chars(&chars)
}

/// Length in bytes of a line, as `str::len` reports it.
pub open spec fn line_bytes(s: Seq<char>) -> usize {
    vstd::utf8::encode_utf8(s).len() as usize
}

/// The byte offsets of scope changes.
pub open spec fn op_offsets(ops: Seq<(usize, ScopeStackOp)>) -> Seq<usize> {
    ops.map_values(|o: (usize, ScopeStackOp)| o.0)
}

/// The scope changes without their offsets.
pub open spec fn op_list(ops: Seq<(usize, ScopeStackOp)>) -> Seq<ScopeStackOp> {
    ops.map_values(|o: (usize, ScopeStackOp)| o.1)
}

/// The category of the scope stack built by `applied`.
pub open spec fn stack_category(applied: Seq<ScopeStackOp>) -> Option<HighlightCategory> {
    spec_stack_category(syntect_scope_names(syntect_stack(applied)))
}

/// The stack's category before each of `ops`, the stack first built by `applied`.
pub open spec fn op_categories(applied: Seq<ScopeStackOp>, ops: Seq<(usize, ScopeStackOp)>) -> Seq<Option<HighlightCategory>> {
    Seq::new(ops.len(), |i: int| stack_category(applied + op_list(ops).take(i)))
}

/// The spans of a line starting at byte `cur`, parsed (with its newline) after
/// the lines `before`, with the scope stack built by `applied`; and the changes
/// applied after it. A line that fails to parse has no spans and changes nothing.
pub open spec fn parsed_line(set: SyntaxSet, index: usize, before: Seq<Seq<char>>, line: Seq<char>, cur: int,
    applied: Seq<ScopeStackOp>) -> (Seq<CategorySpan>, Seq<ScopeStackOp>) {
    match syntect_line_ops(set, index, before, line.push('\n')) {
        None => (Seq::empty(), applied),
        Some(ops) => (spec_line_spans(cur, line_bytes(line) as int, op_offsets(ops), op_categories(applied, ops),
            stack_category(applied + op_list(ops))), applied + op_list(ops)),
    }
}

/// The first `k` lines, each with its newline, as the parser is fed them.
pub open spec fn fed_lines(lines: Seq<Seq<char>>, k: int) -> Seq<Seq<char>> {
    lines.take(k).map_values(|l: Seq<char>| l.push('\n'))
}

/// The spans of lines `k..` starting at byte `off`: lines ending before `ps` are
/// only fed to the parser; lines from there up to `pe` are parsed into spans,
/// their scope changes applied to the stack (built so far by `applied`); the
/// scan stops at `pe`, or where byte offsets would leave `usize`.
pub open spec fn highlight_run(set: SyntaxSet, index: usize, lines: Seq<Seq<char>>, k: int, off: int, ps: int, pe: int,
    applied: Seq<ScopeStackOp>) -> Seq<CategorySpan>
    decreases lines.len() - k,
{
    if k < 0 || k >= lines.len() {
        Seq::empty()
    } else if off + line_bytes(lines[k]) + 1 > usize::MAX {
        Seq::empty()
    } else if off + line_bytes(lines[k]) < ps {
        highlight_run(set, index, lines, k + 1, off + line_bytes(lines[k]) + 1, ps, pe, applied)
    } else if off >= pe {
        Seq::empty()
    } else {
        let (spans, after) = parsed_line(set, index, fed_lines(lines, k), lines[k], off, applied);
        spans + highlight_run(set, index, lines, k + 1, off + line_bytes(lines[k]) + 1, ps, pe, after)
    }
}

/// The merged spans of the lines of `content` in the byte range `ps..pe`, for
/// syntax `index` of `set` (none when the set has no such syntax).
pub open spec fn highlight_spans_of(set: SyntaxSet, index: usize, content: Seq<char>, ps: int, pe: int) -> Seq<CategorySpan> {
    if index < syntax_set_entries(set).len() {
        spec_merge_spans(highlight_run(set, index, lines_from(content, 0), 0, 0, ps, pe, Seq::empty()))
    } else {
        Seq::empty()
    }
}

/// Cached spans of a parsed byte range.
#[derive(Debug, Clone)]
pub struct HighlightCache {
    pub start: usize,
    pub end: usize,
    pub spans: Vec<CategorySpan>,
}

/// Syntax highlighter for one syntax of the bundled set.
pub struct SyntectHighlighter {
    syntax_set: SyntaxSet,
    syntax_index: usize,
    cache: Option<HighlightCache>,
    last_content_len: usize,
}

/// Length in bytes of a text in UTF-8.
pub open spec fn byte_len(s: Seq<char>) -> int {
    vstd::utf8::encode_utf8(s).len() as int
}

/// The cache covers the viewport and was made for content of this length.
pub open spec fn cache_hit(c: Option<(usize, usize, Seq<CategorySpan>)>, last_len: usize, vs: usize, ve: usize, len: int) -> bool {
    match c {
        Some((cs, ce, _)) => cs <= vs && ce >= ve && last_len == len,
        None => false,
    }
}

/// The cached spans (none without a cache).
pub open spec fn cached_spans(c: Option<(usize, usize, Seq<CategorySpan>)>) -> Seq<CategorySpan> {
    match c {
        Some((_, _, spans)) => spans,
        None => Seq::empty(),
    }
}

/// The cached range.
pub open spec fn cache_range(c: Option<(usize, usize, Seq<CategorySpan>)>) -> (int, int) {
    match c {
        Some((cs, ce, _)) => (cs as int, ce as int),
        None => (0, 0),
    }
}

/// Byte range parsed for a viewport: the viewport widened by `context` bytes on
/// each side, within the content.
pub open spec fn parse_range(vs: usize, ve: usize, context: usize, len: usize) -> (int, int) {
    (sat_sub_u(vs, context), min_int(if ve + context <= usize::MAX { ve + context } else { usize::MAX as int }, len as int))
}

pub open spec fn sat_sub_u(a: usize, b: usize) -> int {
    if a >= b { a - b } else { 0 }
}

impl SyntectHighlighter {
    /// The cached range and spans.
    pub closed spec fn spec_cache(&self) -> Option<(usize, usize, Seq<CategorySpan>)> {
        match self.cache {
            Some(c) => Some((c.start, c.end, c.spans@)),
            None => None,
        }
    }

    /// Content length the cache was made for.
    pub closed spec fn spec_last_len(&self) -> usize {
        self.last_content_len
    }

    /// The highlighter's syntax set.
    pub closed spec fn spec_set(&self) -> SyntaxSet {
        self.syntax_set
    }

    /// The index of the highlighter's syntax in its set.
    pub closed spec fn spec_index(&self) -> usize {
        self.syntax_index
    }

    /// The names and file extensions of the highlighter's syntax set.
    pub closed spec fn spec_entries(&self) -> Seq<(Seq<char>, Seq<Seq<char>>)> {
        syntax_set_entries(self.syntax_set)
    }

    /// The name of the highlighter's syntax (empty when its index is not in the set).
    pub closed spec fn spec_syntax_name(&self) -> Seq<char> {
        if self.syntax_index < syntax_set_entries(self.syntax_set).len() {
            syntax_set_entries(self.syntax_set)[self.syntax_index as int].0
        } else {
            Seq::empty()
        }
    }

    /// Create a new highlighter for the given file extension (none when the
    /// bundled set has no syntax for it).
    pub fn for_extension(ext: &str) -> (r: Option<Self>)
        ensures
            r matches Some(h) ==> h.spec_cache() is None && h.spec_last_len() == 0
                && spec_find_by_extension(h.spec_entries(), ext@) == Some(h.spec_syntax_name()),
    {
        let syntax_set = load_default_syntaxes();
        let name = match syntax_name_for_extension(&syntax_set, ext) {
            Some(n) => n,
            None => return None,
        };
        let names = syntax_names(&syntax_set);
        let syntax_index = match position_of_name(&names, &name) {
            Some(i) => i,
            None => return None,
        };
        proof {
            lemma_names_of_set(&syntax_set, &names, syntax_index as int);
        }
        Some(Self { syntax_set, syntax_index, cache: None, last_content_len: 0 })
    }

    /// Create a new highlighter for the given syntax name (e.g., "Rust", "Python")
    pub fn for_syntax_name(name: &str) -> (r: Option<Self>)
        ensures
            r matches Some(h) ==> h.spec_cache() is None && h.spec_last_len() == 0
                && h.spec_syntax_name() == name@,
    {
        let syntax_set = load_default_syntaxes();
        let found = match syntax_name_for_name(&syntax_set, name) {
            Some(n) => n,
            None => return None,
        };
        let names = syntax_names(&syntax_set);
        let syntax_index = match position_of_name(&names, &found) {
            Some(i) => i,
            None => return None,
        };
        proof {
            lemma_names_of_set(&syntax_set, &names, syntax_index as int);
        }
        Some(Self { syntax_set, syntax_index, cache: None, last_content_len: 0 })
    }

    /// Get the syntax name (empty if the syntax cannot be found)
    pub fn syntax_name(&self) -> (r: String)
        ensures
            r@ == self.spec_syntax_name(),
    {
        let names = syntax_names(&self.syntax_set);
        proof {
            lemma_names_of_set(&self.syntax_set, &names, self.syntax_index as int);
        }
        if self.syntax_index < names.len() {
            names[self.syntax_index].clone()
        } else {
            String::new()
        }
    }

    /// Invalidate the cache (call when content changes)
    pub fn invalidate(&mut self)
        ensures
            final(self).spec_cache() is None,
            final(self).spec_last_len() == old(self).spec_last_len(),
    {
        self.cache = None;
    }

    /// The spans of one line, from its parse (none when parsing fails): the
    /// parser state has seen the lines `before`, the stack was built by `applied`.
    fn parse_line_spans(&self, state: &mut ParseState, stack: &mut ScopeStack, line: &String, line_len: usize, cur: usize,
        Ghost(before): Ghost<Seq<Seq<char>>>, Ghost(applied): Ghost<Seq<ScopeStackOp>>) -> (r: Vec<CategorySpan>)
        requires
            cur + line_len <= usize::MAX,
            line_len == line_bytes(line@),
            self.syntax_index < syntax_set_entries(self.syntax_set).len(),
            *old(state) == syntect_state(self.syntax_set, self.syntax_index, before),
            *old(stack) == syntect_stack(applied),
        ensures
            r@ == parsed_line(self.syntax_set, self.syntax_index, before, line@, cur as int, applied).0,
            *final(stack) == syntect_stack(parsed_line(self.syntax_set, self.syntax_index, before, line@, cur as int, applied).1),
            *final(state) == syntect_state(self.syntax_set, self.syntax_index, before.push(line@.push('\n'))),
    {
        let text = line_with_newline(line);
        let ghost set = self.syntax_set;
        let ghost idx = self.syntax_index;
        match parse_line(state, text.as_str(), &self.syntax_set) {
            Some(ops) => {
                let ghost o = ops@;
                let mut offs: Vec<usize> = Vec::new();
                let mut cats: Vec<Option<HighlightCategory>> = Vec::new();
                let n = ops.len();
                let mut i: usize = 0;
                proof {
                    assert(applied + op_list(o).take(0) =~= applied);
                }
                while i < n
                    invariant
                        n == ops@.len(),
                        o == ops@,
                        i <= n,
                        offs@ == op_offsets(o).take(i as int),
                        cats@ == op_categories(applied, o).take(i as int),
                        *stack == syntect_stack(applied + op_list(o).take(i as int)),
                    decreases n - i,
                {
                    let names = scope_names(stack);
                    let c = scope_stack_to_category(&names);
                    proof {
                        assert(c == op_categories(applied, o)[i as int]);
                    }
                    cats.push(c);
                    offs.push(ops[i].0);
                    let ghost built = applied + op_list(o).take(i as int);
                    apply_scope_op(stack, &ops[i].1);
                    proof {
                        assert(built.push(o[i as int].1) =~= applied + op_list(o).take(i + 1));
                        assert(offs@ =~= op_offsets(o).take(i + 1));
                        assert(cats@ =~= op_categories(applied, o).take(i + 1));
                    }
                    i += 1;
                }
                let names = scope_names(stack);
                let end_cat = scope_stack_to_category(&names);
                proof {
                    assert(op_offsets(o).take(n as int) =~= op_offsets(o));
                    assert(op_categories(applied, o).take(n as int) =~= op_categories(applied, o));
                    assert(op_list(o).take(n as int) =~= op_list(o));
                }
                line_spans(cur, line_len, &offs, &cats, end_cat)
            },
            None => {
                let r: Vec<CategorySpan> = Vec::new();
                r
            },
        }
    }

    /// Highlight a string and return the category spans overlapping the
    /// viewport `viewport_start..viewport_end`. A cached parse that covers the
    /// viewport, for content of the same length, is reused; otherwise the
    /// viewport widened by `context_bytes` on each side is parsed, its spans
    /// merged and cached.
    pub fn highlight_categories(&mut self, content: &str, viewport_start: usize, viewport_end: usize,
        context_bytes: usize) -> (r: Vec<CategorySpan>)
        requires
            byte_len(content@) < usize::MAX / 2,
        ensures
            cache_hit(old(self).spec_cache(), old(self).spec_last_len(), viewport_start, viewport_end, byte_len(content@))
                ==> r@ == spec_spans_in_view(cached_spans(old(self).spec_cache()), viewport_start, viewport_end)
                && final(self).spec_cache() == old(self).spec_cache()
                && final(self).spec_last_len() == old(self).spec_last_len(),
            !cache_hit(old(self).spec_cache(), old(self).spec_last_len(), viewport_start, viewport_end, byte_len(content@))
                && parse_range(viewport_start, viewport_end, context_bytes, byte_len(content@) as usize).1
                <= parse_range(viewport_start, viewport_end, context_bytes, byte_len(content@) as usize).0
                ==> r@.len() == 0 && final(self).spec_cache() == old(self).spec_cache()
                && final(self).spec_last_len() == old(self).spec_last_len(),
            !cache_hit(old(self).spec_cache(), old(self).spec_last_len(), viewport_start, viewport_end, byte_len(content@))
                && parse_range(viewport_start, viewport_end, context_bytes, byte_len(content@) as usize).1
                > parse_range(viewport_start, viewport_end, context_bytes, byte_len(content@) as usize).0
                ==> final(self).spec_cache() is Some
                && cache_range(final(self).spec_cache()) == parse_range(viewport_start, viewport_end, context_bytes,
                    byte_len(content@) as usize)
                && r@ == spec_spans_in_view(cached_spans(final(self).spec_cache()), viewport_start, viewport_end)
                && cached_spans(final(self).spec_cache()) == highlight_spans_of(old(self).spec_set(),
                    old(self).spec_index(), content@,
                    parse_range(viewport_start, viewport_end, context_bytes, byte_len(content@) as usize).0,
                    parse_range(viewport_start, viewport_end, context_bytes, byte_len(content@) as usize).1)
                && no_adjacent_continues(cached_spans(final(self).spec_cache()))
                && final(self).spec_last_len() == byte_len(content@),
            final(self).spec_set() == old(self).spec_set(),
            final(self).spec_index() == old(self).spec_index(),
    {
        let content_len = content.len();
        match &self.cache {
            Some(cache) => {
                if cache.start <= viewport_start && cache.end >= viewport_end && self.last_content_len == content_len {
                    return spans_in_view(&cache.spans, viewport_start, viewport_end);
                }
            },
            None => {},
        }
        let parse_start = viewport_start.saturating_sub(context_bytes);
        let widened = viewport_end.saturating_add(context_bytes);
        let parse_end = if widened <= content_len { widened } else { content_len };
        if parse_end <= parse_start {
            return Vec::new();
        }
        let mut state = match parse_state_for(&self.syntax_set, self.syntax_index) {
            Some(s) => s,
            None => {
                let empty: Vec<CategorySpan> = Vec::new();
                self.cache = Some(HighlightCache { start: parse_start, end: parse_end, spans: empty });
                self.last_content_len = content_len;
                proof {
                    assert(spec_spans_in_view(Seq::<CategorySpan>::empty(), viewport_start, viewport_end) =~= Seq::<CategorySpan>::empty());
                }
                return Vec::new();
            },
        };
        let mut stack = new_scope_stack();
        let mut spans: Vec<CategorySpan> = Vec::new();
        let mut current_offset: usize = 0;
        let lines = str_lines(content);
        let ghost set = self.syntax_set;
        let ghost idx = self.syntax_index;
        let ghost ls = lines@.map_values(|x: String| x@);
        let ghost ps = parse_start as int;
        let ghost pe = parse_end as int;
        let ghost total = highlight_run(set, idx, ls, 0, 0, ps, pe, Seq::empty());
        let ghost mut applied: Seq<ScopeStackOp> = Seq::empty();
        let n = lines.len();
        let mut i: usize = 0;
        proof {
            assert(fed_lines(ls, 0) =~= Seq::<Seq<char>>::empty());
            assert(spans@ + highlight_run(set, idx, ls, 0, 0, ps, pe, applied) =~= total);
        }
        while i < n
            invariant
                n == lines@.len(),
                i <= n,
                set == self.syntax_set,
                idx == self.syntax_index,
                idx < syntax_set_entries(set).len(),
                ls == lines@.map_values(|x: String| x@),
                ps == parse_start,
                pe == parse_end,
                state == syntect_state(set, idx, fed_lines(ls, i as int)),
                stack == syntect_stack(applied),
                spans@ + highlight_run(set, idx, ls, i as int, current_offset as int, ps, pe, applied) == total,
            ensures
                spans@ == total,
            decreases n - i,
        {
            proof {
                assert(ls[i as int] == lines@[i as int]@);
            }
            let line_len = lines[i].as_str().len();
            let line_end = match current_offset.checked_add(line_len) {
                Some(e) => e,
                None => {
                    proof {
                        assert(spans@ =~= spans@ + Seq::<CategorySpan>::empty());
                    }
                    break;
                },
            };
            let next_offset = match line_end.checked_add(1) {
                Some(e) => e,
                None => {
                    proof {
                        assert(spans@ =~= spans@ + Seq::<CategorySpan>::empty());
                    }
                    break;
                },
            };
            proof {
                assert(fed_lines(ls, i + 1) =~= fed_lines(ls, i as int).push(ls[i as int].push('\n')));
            }
            if line_end < parse_start {
                // Parsed for the parser's state only; the scope stack is not changed.
                let text = line_with_newline(&lines[i]);
                let _ = parse_line(&mut state, text.as_str(), &self.syntax_set);
                current_offset = next_offset;
                i += 1;
                continue;
            }
            if current_offset >= parse_end {
                proof {
                    assert(spans@ =~= spans@ + Seq::<CategorySpan>::empty());
                }
                break;
            }
            let ghost before_spans = spans@;
            let ghost pl = parsed_line(set, idx, fed_lines(ls, i as int), ls[i as int], current_offset as int, applied);
            let mut found = self.parse_line_spans(&mut state, &mut stack, &lines[i], line_len, current_offset,
                Ghost(fed_lines(ls, i as int)), Ghost(applied));
            spans.append(&mut found);
            proof {
                assert(before_spans + (pl.0 + highlight_run(set, idx, ls, i + 1, next_offset as int, ps, pe, pl.1))
                    =~= spans@ + highlight_run(set, idx, ls, i + 1, next_offset as int, ps, pe, pl.1));
                applied = pl.1;
            }
            current_offset = next_offset;
            i += 1;
        }
        proof {
            if i == n {
                assert(spans@ =~= spans@ + highlight_run(set, idx, ls, i as int, current_offset as int, ps, pe, applied));
            }
        }
        let ghost unmerged = spans@;
        merge_adjacent_spans(&mut spans);
        proof {
            lemma_merge_no_adjacent(unmerged);
        }
        let result = spans_in_view(&spans, viewport_start, viewport_end);
        self.cache = Some(HighlightCache { start: parse_start, end: parse_end, spans });
        self.last_content_len = content_len;
        result
    }
}


/// The colour a theme gives a category.
pub open spec fn category_color(c: HighlightCategory, t: Theme) -> Color {
    match c {
        HighlightCategory::Attribute => t.syntax_constant,
        HighlightCategory::Comment => t.syntax_comment,
        HighlightCategory::Constant => t.syntax_constant,
        HighlightCategory::Function => t.syntax_function,
        HighlightCategory::Keyword => t.syntax_keyword,
        HighlightCategory::Number => t.syntax_constant,
        HighlightCategory::Operator => t.syntax_operator,
        HighlightCategory::Property => t.syntax_variable,
        HighlightCategory::String => t.syntax_string,
        HighlightCategory::Type => t.syntax_type,
        HighlightCategory::Variable => t.syntax_variable,
    }
}

impl HighlightCategory {
    /// Get the color for this category from the theme
    pub fn color(&self, theme: &Theme) -> (r: Color)
        ensures
            r == category_color(*self, *theme),
    {
        match self {
            HighlightCategory::Attribute => theme.syntax_constant,
            HighlightCategory::Comment => theme.syntax_comment,
            HighlightCategory::Constant => theme.syntax_constant,
            HighlightCategory::Function => theme.syntax_function,
            HighlightCategory::Keyword => theme.syntax_keyword,
            HighlightCategory::Number => theme.syntax_constant,
            HighlightCategory::Operator => theme.syntax_operator,
            HighlightCategory::Property => theme.syntax_variable,
            HighlightCategory::String => theme.syntax_string,
            HighlightCategory::Type => theme.syntax_type,
            HighlightCategory::Variable => theme.syntax_variable,
        }
    }
}

/// A highlighted span of text
pub struct HighlightSpan {
    /// Byte range in the source text
    pub range: std::ops::Range<usize>,
    /// Color for this span
    pub color: Color,
}

/// The coloured form of category spans.
pub open spec fn colored_spans(s: Seq<CategorySpan>, t: Theme) -> Seq<(usize, usize, Color)> {
    s.map_values(|c: CategorySpan| (c.start, c.end, category_color(c.category, t)))
}

pub open spec fn highlight_view(s: Seq<HighlightSpan>) -> Seq<(usize, usize, Color)> {
    s.map_values(|h: HighlightSpan| (h.range.start, h.range.end, h.color))
}

fn color_spans(spans: &Vec<CategorySpan>, theme: &Theme) -> (r: Vec<HighlightSpan>)
    ensures
        highlight_view(r@) == colored_spans(spans@, *theme),
{
    let n = spans.len();
    let mut out: Vec<HighlightSpan> = Vec::new();
    let mut i: usize = 0;
    while i < n
        invariant
            n == spans@.len(),
            i <= n,
            out@.len() == i,
            highlight_view(out@) == colored_spans(spans@.subrange(0, i as int), *theme),
        decreases n - i,
    {
        let c = spans[i].category.color(theme);
        let st = spans[i].start;
        let en = spans[i].end;
        let h = HighlightSpan { range: st..en, color: c };
        proof {
            assert(st == spans@[i as int].start);
            assert(h.range.start == st);
            assert(h.range.start == spans@[i as int].start && h.range.end == spans@[i as int].end);
            let a = highlight_view(out@.push(h));
            let b = colored_spans(spans@.subrange(0, i + 1), *theme);
            assert(a.len() == b.len());
            assert(a[i as int] == (h.range.start, h.range.end, h.color));
            assert(b[i as int] == (spans@[i as int].start, spans@[i as int].end, category_color(spans@[i as int].category, *theme)));
            assert(c == category_color(spans@[i as int].category, *theme));
            assert(a[i as int] == b[i as int]);
            assert forall|j: int| 0 <= j < i implies a[j] == b[j] by {
                assert(out@.push(h)[j] == out@[j]);
                assert(highlight_view(out@)[j] == colored_spans(spans@.subrange(0, i as int), *theme)[j]);
            }
            assert(a =~= b);
        }
        out.push(h);
        i += 1;
    }
    proof {
        assert(spans@.subrange(0, n as int) =~= spans@);
    }
    out
}

impl SyntectHighlighter {
    /// Highlight a string: the spans overlapping `viewport_start..viewport_end`
    /// (as `highlight_categories` finds them), each with its category's theme colour.
    pub fn highlight_viewport(&mut self, content: &str, viewport_start: usize, viewport_end: usize, theme: &Theme,
        context_bytes: usize) -> (r: Vec<HighlightSpan>)
        requires
            byte_len(content@) < usize::MAX / 2,
        ensures
            exists|cats: Seq<CategorySpan>| highlight_view(r@) == colored_spans(cats, *theme)
                && (cache_hit(old(self).spec_cache(), old(self).spec_last_len(), viewport_start, viewport_end, byte_len(content@))
                    ==> cats == spec_spans_in_view(cached_spans(old(self).spec_cache()), viewport_start, viewport_end)
                    && final(self).spec_cache() == old(self).spec_cache()
                    && final(self).spec_last_len() == old(self).spec_last_len())
                && (!cache_hit(old(self).spec_cache(), old(self).spec_last_len(), viewport_start, viewport_end, byte_len(content@))
                    && parse_range(viewport_start, viewport_end, context_bytes, byte_len(content@) as usize).1
                    <= parse_range(viewport_start, viewport_end, context_bytes, byte_len(content@) as usize).0
                    ==> cats.len() == 0 && final(self).spec_cache() == old(self).spec_cache()
                    && final(self).spec_last_len() == old(self).spec_last_len())
                && (!cache_hit(old(self).spec_cache(), old(self).spec_last_len(), viewport_start, viewport_end, byte_len(content@))
                    && parse_range(viewport_start, viewport_end, context_bytes, byte_len(content@) as usize).1
                    > parse_range(viewport_start, viewport_end, context_bytes, byte_len(content@) as usize).0
                    ==> final(self).spec_cache() is Some
                    && cache_range(final(self).spec_cache()) == parse_range(viewport_start, viewport_end, context_bytes,
                        byte_len(content@) as usize)
                    && cats == spec_spans_in_view(cached_spans(final(self).spec_cache()), viewport_start, viewport_end)
                    && cached_spans(final(self).spec_cache()) == highlight_spans_of(old(self).spec_set(),
                        old(self).spec_index(), content@,
                        parse_range(viewport_start, viewport_end, context_bytes, byte_len(content@) as usize).0,
                        parse_range(viewport_start, viewport_end, context_bytes, byte_len(content@) as usize).1)
                    && final(self).spec_last_len() == byte_len(content@)),
            final(self).spec_set() == old(self).spec_set(),
            final(self).spec_index() == old(self).spec_index(),
    {
        let cats = self.highlight_categories(content, viewport_start, viewport_end, context_bytes);
        color_spans(&cats, theme)
    }
}
} // verus!
