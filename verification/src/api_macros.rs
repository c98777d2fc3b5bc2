//! TypeScript definitions for a plugin API, generated from a description of
//! the API trait's methods.
//!
//! Return type convention: `T` is a sync method, `Promise<T>` an async method
//! returning `Promise<T>` in JS, `Thenable<T>` an async method returning a
//! cancellable handle.

use vstd::prelude::*;
use crate::text_util::{
    contains_chars, contains_seq, join_chars, join_seqs, lines_from, push_chars, push_str, str_chars, str_lines,
    string_chars, string_from_chars,
};
use crate::transpile::{spec_trim, trim};

verus! {

/// A Rust type as the generator reads it.
#[derive(Debug)]
pub enum TypeModel {
    /// A path type: its last segment's name, and its first generic argument when that is a type.
    Path(String, Option<Box<TypeModel>>),
    /// The unit tuple `()`.
    Unit,
    /// A reference to a type.
    Reference(Box<TypeModel>),
    /// Any other type.
    Other,
}

/// API method kind determined by return type
#[derive(Debug, Clone, Copy, PartialEq, Eq, Structural)]
pub enum ApiKind {
    /// Synchronous method - returns value directly
    Sync,
    /// Async method that returns a simple Promise<T>
    AsyncPromise,
    /// Async method that returns a Thenable<T> (with .kill() support)
    AsyncThenable,
}

/// A method of the API trait as declared.
#[derive(Debug)]
pub struct MethodDecl {
    /// Rust method name
    pub name: String,
    /// Values of its doc attributes, in order
    pub docs: Vec<String>,
    /// Token text of its `api` attributes, in order
    pub api_attrs: Vec<String>,
    /// Named parameters (without the receiver): name and type
    pub params: Vec<(String, TypeModel)>,
    /// Declared return type, if any
    pub output: Option<TypeModel>,
}

/// Parsed API method information
#[derive(Debug)]
pub struct ApiMethod {
    /// Rust method name (snake_case)
    pub rust_name: String,
    /// JavaScript method name (camelCase)
    pub js_name: String,
    /// Method kind (sync/async)
    pub kind: ApiKind,
    /// Parameters: (name, type)
    pub params: Vec<(String, TypeModel)>,
    /// Return type (inner type for Promise/Thenable)
    pub return_type: Option<TypeModel>,
    /// Doc comment for TypeScript
    pub doc_comment: String,
}

/// Abstract value of a type: names as character sequences.
pub enum TypeView {
    Path(Seq<char>, Option<Box<TypeView>>),
    Unit,
    Reference(Box<TypeView>),
    Other,
}

pub open spec fn type_view(t: TypeModel) -> TypeView
    decreases t,
{
    match t {
        TypeModel::Path(n, inner) => TypeView::Path(n@, match inner {
            Some(b) => Some(Box::new(type_view(*b))),
            None => None,
        }),
        TypeModel::Unit => TypeView::Unit,
        TypeModel::Reference(b) => TypeView::Reference(Box::new(type_view(*b))),
        TypeModel::Other => TypeView::Other,
    }
}

pub open spec fn opt_type_view(t: Option<TypeModel>) -> Option<TypeView> {
    match t {
        Some(x) => Some(type_view(x)),
        None => None,
    }
}

/// A copy of a type.
pub fn copy_type(t: &TypeModel) -> (r: TypeModel)
    ensures
        type_view(r) == type_view(*t),
    decreases t,
{
    match t {
        TypeModel::Path(n, inner) => TypeModel::Path(n.clone(), match inner {
            Some(b) => Some(Box::new(copy_type(&**b))),
            None => None,
        }),
        TypeModel::Unit => TypeModel::Unit,
        TypeModel::Reference(b) => TypeModel::Reference(Box::new(copy_type(&**b))),
        TypeModel::Other => TypeModel::Other,
    }
}

// ---------------------------------------------------------------------------
// Names
// ---------------------------------------------------------------------------

/// Uppercase form of an ASCII lowercase letter; other characters unchanged.
pub open spec fn ascii_upper(c: char) -> char {
    if 'a' <= c && c <= 'z' { ((c as u32) - 32) as char } else { c }
}

/// camelCase of the first `k` characters, and whether the next letter is capitalized.
pub open spec fn camel_prefix(s: Seq<char>, k: int) -> (Seq<char>, bool)
    decreases k,
{
    if k <= 0 {
        (Seq::empty(), false)
    } else {
        let (out, cap) = camel_prefix(s, k - 1);
        if s[k - 1] == '_' {
            (out, true)
        } else if cap {
            (out.push(ascii_upper(s[k - 1])), false)
        } else {
            (out.push(s[k - 1]), false)
        }
    }
}

/// camelCase of a snake_case name: underscores dropped, the letter after one uppercased.
pub open spec fn spec_to_camel_case(s: Seq<char>) -> Seq<char> {
    camel_prefix(s, s.len() as int).0
}

fn ascii_upper_exec(c: char) -> (r: char)
    ensures
        r == ascii_upper(c),
{
    if c >= 'a' && c <= 'z' {
        let v = (c as u32) - 32;
        proof {
            assert(v < 0x80);
        }
        (v as u8) as char
    } else {
        c
    }
}

/// Convert snake_case to camelCase
pub fn to_camel_case(s: &str) -> (r: String)
    ensures
        r@ == spec_to_camel_case(s@),
{
    let chars = str_chars(s);
    let n = chars.len();
    let mut out: Vec<char> = Vec::new();
    let mut capitalize_next = false;
    let mut i: usize = 0;
    while i < n
        invariant
            chars@ == s@,
            n == chars@.len(),
            i <= n,
            (out@, capitalize_next) == camel_prefix(s@, i as int),
        decreases n - i,
    {
        let c = chars[i];
        if c == '_' {
            capitalize_next = true;
        } else if capitalize_next {
            out.push(ascii_upper_exec(c));
            capitalize_next = false;
        } else {
            out.push(c);
        }
        i += 1;
    }
    string_from_chars(&out)
}

// ---------------------------------------------------------------------------
// Types
// ---------------------------------------------------------------------------

/// The type is a path whose last segment is `name`.
pub open spec fn spec_type_path_matches(t: TypeView, name: Seq<char>) -> bool {
    t matches TypeView::Path(n, _) && n == name
}

/// Whether a type is a path whose last segment is `name`.
pub fn type_path_matches(ty: &TypeModel, name: &str) -> (r: bool)
    ensures
        r == spec_type_path_matches(type_view(*ty), name@),
{
    match ty {
        TypeModel::Path(n, _) => *n == name.to_string(),
        _ => false,
    }
}

/// The first type argument of a path type.
pub open spec fn spec_inner_type(t: TypeView) -> Option<TypeView> {
    match t {
        TypeView::Path(_, Some(b)) => Some(*b),
        _ => None,
    }
}

/// Extract the inner type from Promise<T> or Thenable<T>
pub fn extract_inner_type(ty: &TypeModel) -> (r: Option<TypeModel>)
    ensures
        opt_type_view(r) == spec_inner_type(type_view(*ty)),
{
    match ty {
        TypeModel::Path(_, Some(b)) => Some(copy_type(&**b)),
        _ => None,
    }
}

/// Kind and returned type of a method with declared return type `rt`.
pub open spec fn spec_api_kind(rt: Option<TypeView>) -> (ApiKind, Option<TypeView>) {
    match rt {
        Some(t) => if spec_type_path_matches(t, "Promise"@) {
            (ApiKind::AsyncPromise, spec_inner_type(t))
        } else if spec_type_path_matches(t, "Thenable"@) {
            (ApiKind::AsyncThenable, spec_inner_type(t))
        } else {
            (ApiKind::Sync, Some(t))
        },
        None => (ApiKind::Sync, None),
    }
}

/// Determine the API kind from the return type
pub fn determine_api_kind(return_type: &Option<TypeModel>) -> (r: (ApiKind, Option<TypeModel>))
    ensures
        (r.0, opt_type_view(r.1)) == spec_api_kind(opt_type_view(*return_type)),
{
    match return_type {
        Some(ty) => {
            if type_path_matches(ty, "Promise") {
                (ApiKind::AsyncPromise, extract_inner_type(ty))
            } else if type_path_matches(ty, "Thenable") {
                (ApiKind::AsyncThenable, extract_inner_type(ty))
            } else {
                (ApiKind::Sync, Some(copy_type(ty)))
            }
        },
        None => (ApiKind::Sync, None),
    }
}

/// A name that TypeScript reads as `number`.
pub open spec fn is_number_name(n: Seq<char>) -> bool {
    n == "u8"@ || n == "u16"@ || n == "u32"@ || n == "i8"@ || n == "i16"@ || n == "i32"@ || n == "usize"@
        || n == "isize"@ || n == "u64"@ || n == "i64"@ || n == "f32"@ || n == "f64"@
}

/// The TypeScript type of a Rust type.
pub open spec fn spec_ts_type(t: TypeView) -> Seq<char>
    decreases t,
{
    match t {
        TypeView::Path(n, inner) => if is_number_name(n) {
            "number"@
        } else if n == "bool"@ {
            "boolean"@
        } else if n == "String"@ || n == "str"@ {
            "string"@
        } else if n == "Option"@ {
            match inner {
                Some(b) => spec_ts_type(*b) + " | null"@,
                None => "unknown | null"@,
            }
        } else if n == "Vec"@ {
            match inner {
                Some(b) => spec_ts_type(*b) + "[]"@,
                None => "unknown[]"@,
            }
        } else if n == "HashMap"@ {
            "Record<string, unknown>"@
        } else if n == "()"@ {
            "void"@
        } else {
            n
        },
        TypeView::Unit => "void"@,
        TypeView::Reference(b) => spec_ts_type(*b),
        TypeView::Other => "unknown"@,
    }
}

/// Whether a string holds exactly `lit`.
fn is_text(s: &String, lit: &str) -> (r: bool)
    ensures
        r == (s@ == lit@),
{
    *s == lit.to_string()
}

fn is_number_name_exec(n: &String) -> (r: bool)
    ensures
        r == is_number_name(n@),
{
    is_text(n, "u8") || is_text(n, "u16") || is_text(n, "u32") || is_text(n, "i8") || is_text(n, "i16")
        || is_text(n, "i32") || is_text(n, "usize") || is_text(n, "isize") || is_text(n, "u64") || is_text(n, "i64")
        || is_text(n, "f32") || is_text(n, "f64")
}

/// Append the TypeScript type of `ty`.
fn push_ts_type(out: &mut Vec<char>, ty: &TypeModel)
    ensures
        final(out)@ == old(out)@ + spec_ts_type(type_view(*ty)),
    decreases ty,
{
    match ty {
        TypeModel::Path(n, inner) => {
            if is_number_name_exec(n) {
                push_str(out, "number");
            } else if is_text(n, "bool") {
                push_str(out, "boolean");
            } else if is_text(n, "String") || is_text(n, "str") {
                push_str(out, "string");
            } else if is_text(n, "Option") {
                match inner {
                    Some(b) => {
                        push_ts_type(out, &**b);
                        push_str(out, " | null");
                    },
                    None => push_str(out, "unknown | null"),
                }
            } else if is_text(n, "Vec") {
                match inner {
                    Some(b) => {
                        push_ts_type(out, &**b);
                        push_str(out, "[]");
                    },
                    None => push_str(out, "unknown[]"),
                }
            } else if is_text(n, "HashMap") {
                push_str(out, "Record<string, unknown>");
            } else if is_text(n, "()") {
                push_str(out, "void");
            } else {
                let c = string_chars(n);
                push_chars(out, &c);
            }
        },
        TypeModel::Unit => push_str(out, "void"),
        TypeModel::Reference(b) => push_ts_type(out, &**b),
        TypeModel::Other => push_str(out, "unknown"),
    }
}

/// Convert a Rust type to TypeScript type string
pub fn rust_type_to_typescript(ty: &TypeModel) -> (r: String)
    ensures
        r@ == spec_ts_type(type_view(*ty)),
{
    let mut out: Vec<char> = Vec::new();
    push_ts_type(&mut out, ty);
    proof {
        assert(out@ =~= spec_ts_type(type_view(*ty)));
    }
    string_from_chars(&out)
}

// ---------------------------------------------------------------------------
// Attributes
// ---------------------------------------------------------------------------

/// The doc comment: each doc value trimmed, joined by newlines.
pub open spec fn spec_doc_comment(docs: Seq<Seq<char>>) -> Seq<char> {
    join_seqs(docs.map_values(|d: Seq<char>| spec_trim(d)), "\n"@)
}

/// The characters of a string with leading and trailing whitespace removed.
fn trim_chars(s: &String) -> (r: Vec<char>)
    ensures
        r@ == spec_trim(s@),
{
    let t = trim(s.as_str());
    str_chars(t.as_str())
}

/// Extract doc comments from the doc attribute values
pub fn extract_doc_comment(docs: &Vec<String>) -> (r: String)
    ensures
        r@ == spec_doc_comment(docs@.map_values(|d: String| d@)),
{
    let ghost ds = docs@.map_values(|d: String| d@);
    let mut parts: Vec<Vec<char>> = Vec::new();
    let n = docs.len();
    let mut i: usize = 0;
    while i < n
        invariant
            n == docs@.len(),
            ds == docs@.map_values(|d: String| d@),
            i <= n,
            parts@.map_values(|p: Vec<char>| p@) == ds.map_values(|d: Seq<char>| spec_trim(d)).take(i as int),
        decreases n - i,
    {
        let t = trim_chars(&docs[i]);
        let ghost before = parts@.map_values(|p: Vec<char>| p@);
        parts.push(t);
        i += 1;
        proof {
            assert(ds[i - 1] == docs@[i - 1]@);
            assert(parts@.map_values(|p: Vec<char>| p@) =~= before.push(spec_trim(ds[i - 1])));
            assert(parts@.map_values(|p: Vec<char>| p@) =~= ds.map_values(|d: Seq<char>| spec_trim(d)).take(i as int));
        }
    }
    proof {
        assert(ds.map_values(|d: Seq<char>| spec_trim(d)).take(n as int) =~= ds.map_values(|d: Seq<char>| spec_trim(d)));
    }
    let joined = join_chars(&parts, "\n");
    string_from_chars(&joined)
}

/// Some `api` attribute mentions `skip`.
pub open spec fn spec_should_skip(attrs: Seq<Seq<char>>) -> bool {
    exists|i: int| 0 <= i < attrs.len() && contains_seq(#[trigger] attrs[i], "skip"@)
}

/// Check for #[api(skip)] attribute
pub fn should_skip(api_attrs: &Vec<String>) -> (r: bool)
    ensures
        r == spec_should_skip(api_attrs@.map_values(|a: String| a@)),
{
    let ghost attrs = api_attrs@.map_values(|a: String| a@);
    let n = api_attrs.len();
    let mut i: usize = 0;
    while i < n
        invariant
            n == api_attrs@.len(),
            attrs == api_attrs@.map_values(|a: String| a@),
            i <= n,
            forall|j: int| 0 <= j < i ==> !contains_seq(#[trigger] attrs[j], "skip"@),
        decreases n - i,
    {
        let c = string_chars(&api_attrs[i]);
        if contains_chars(&c, "skip") {
            proof {
                assert(contains_seq(attrs[i as int], "skip"@));
            }
            return true;
        }
        i += 1;
    }
    false
}

/// Index of the first occurrence of `needle` in `s` at or after `from`.
pub open spec fn find_from(s: Seq<char>, needle: Seq<char>, from: int) -> Option<int>
    decreases s.len() + 1 - from,
{
    if from < 0 || from > s.len() || from + needle.len() > s.len() {
        None
    } else if s.subrange(from, from + needle.len()) == needle {
        Some(from)
    } else {
        find_from(s, needle, from + 1)
    }
}

/// The `js_name` given in one attribute's tokens, if it can be read: the text
/// between the first two quotes after the `=` that follows `js_name`.
pub open spec fn spec_js_name_in(tokens: Seq<char>) -> Option<Seq<char>> {
    match find_from(tokens, "js_name"@, 0) {
        Some(start) => match find_from(tokens.subrange(start, tokens.len() as int), "="@, 0) {
            Some(eq) => js_name_after_eq(spec_trim(tokens.subrange(start + eq + 1, tokens.len() as int))),
            None => None,
        },
        None => None,
    }
}

/// The quoted text at the start of `after_eq`, if any.
pub open spec fn js_name_after_eq(after_eq: Seq<char>) -> Option<Seq<char>> {
    if after_eq.len() > 0 && after_eq[0] == '"' {
        match find_from(after_eq.subrange(1, after_eq.len() as int), "\""@, 0) {
            Some(end_quote) => Some(after_eq.subrange(1, end_quote + 1)),
            None => None,
        }
    } else {
        None
    }
}

/// The custom name given by the first attribute that gives one.
pub open spec fn spec_custom_js_name(attrs: Seq<Seq<char>>) -> Option<Seq<char>>
    decreases attrs.len(),
{
    if attrs.len() == 0 {
        None
    } else {
        match spec_js_name_in(attrs[0]) {
            Some(n) => Some(n),
            None => spec_custom_js_name(attrs.drop_first()),
        }
    }
}

proof fn lemma_find_from_bounds(s: Seq<char>, needle: Seq<char>, from: int)
    ensures
        find_from(s, needle, from) matches Some(i) ==> from <= i && i + needle.len() <= s.len()
            && s.subrange(i, i + needle.len()) == needle,
    decreases s.len() + 1 - from,
{
    if !(from < 0 || from > s.len() || from + needle.len() > s.len()) && s.subrange(from, from + needle.len()) != needle {
        lemma_find_from_bounds(s, needle, from + 1);
    }
}

/// Index of the first occurrence of `needle` in `s`.
fn find_chars(s: &Vec<char>, needle: &str) -> (r: Option<usize>)
    ensures
        match r {
            Some(i) => find_from(s@, needle@, 0) == Some(i as int),
            None => find_from(s@, needle@, 0) is None,
        },
{
    let p = str_chars(needle);
    let slen = s.len();
    let plen = p.len();
    if plen > slen {
        return None;
    }
    if plen == 0 {
        proof {
            assert(s@.subrange(0, 0) =~= needle@);
        }
        return Some(0);
    }
    let last = slen - plen;
    let mut i: usize = 0;
    while i <= last
        invariant
            p@ == needle@,
            slen == s@.len(),
            plen == p@.len(),
            0 < plen <= slen,
            last == slen - plen,
            i <= last + 1,
            find_from(s@, needle@, i as int) == find_from(s@, needle@, 0),
        decreases last + 1 - i,
    {
        let mut k: usize = 0;
        let mut ok = true;
        while k < plen
            invariant
                p@ == needle@,
                slen == s@.len(),
                plen == p@.len(),
                i + plen <= slen,
                k <= plen,
                ok == forall|j: int| 0 <= j < k ==> s@[i + j] == p@[j],
            decreases plen - k,
        {
            if s[i + k] != p[k] {
                ok = false;
            }
            k += 1;
        }
        if ok {
            proof {
                assert(s@.subrange(i as int, i + plen) =~= needle@);
            }
            return Some(i);
        }
        proof {
            assert(s@.subrange(i as int, i + plen) != needle@) by {
                let j = choose|j: int| 0 <= j < plen && s@[i + j] != p@[j];
                assert(s@.subrange(i as int, i + plen)[j] != needle@[j]);
            }
        }
        i += 1;
    }
    None
}

/// The characters `s[from..to]`.
fn sub_chars(s: &Vec<char>, from: usize, to: usize) -> (r: Vec<char>)
    requires
        from <= to <= s@.len(),
    ensures
        r@ == s@.subrange(from as int, to as int),
{
    let mut out: Vec<char> = Vec::new();
    let mut i = from;
    while i < to
        invariant
            from <= i <= to,
            to <= s@.len(),
            out@ == s@.subrange(from as int, i as int),
        decreases to - i,
    {
        out.push(s[i]);
        i += 1;
        proof {
            assert(out@ =~= s@.subrange(from as int, i as int));
        }
    }
    out
}

/// The `js_name` given in one attribute's tokens, if it can be read.
fn js_name_in(tokens: &String) -> (r: Option<String>)
    ensures
        match r {
            Some(n) => spec_js_name_in(tokens@) == Some(n@),
            None => spec_js_name_in(tokens@) is None,
        },
{
    let t = string_chars(tokens);
    let start = match find_chars(&t, "js_name") {
        Some(s) => s,
        None => return None,
    };
    proof {
        lemma_find_from_bounds(t@, "js_name"@, 0);
    }
    let rest = sub_chars(&t, start, t.len());
    let eq = match find_chars(&rest, "=") {
        Some(e) => e,
        None => return None,
    };
    proof {
        reveal_strlit("=");
        lemma_find_from_bounds(rest@, "="@, 0);
        assert(eq + 1 <= rest@.len());
        assert(rest@.len() == t@.len() - start);
        assert(t@.subrange(start + eq + 1, t@.len() as int) =~= rest@.subrange(eq + 1, rest@.len() as int));
    }
    let after = sub_chars(&rest, eq + 1, rest.len());
    let after_s = string_from_chars(&after);
    let after_eq = trim_chars(&after_s);
    if after_eq.len() > 0 && after_eq[0] == '"' {
        let tail = sub_chars(&after_eq, 1, after_eq.len());
        match find_chars(&tail, "\"") {
            Some(end_quote) => {
                proof {
                    lemma_find_from_bounds(tail@, "\""@, 0);
                }
                let name = sub_chars(&after_eq, 1, end_quote + 1);
                Some(string_from_chars(&name))
            },
            None => None,
        }
    } else {
        None
    }
}

/// Check for #[api(js_name = "...")] attribute and extract custom JS name
pub fn get_custom_js_name(api_attrs: &Vec<String>) -> (r: Option<String>)
    ensures
        match r {
            Some(n) => spec_custom_js_name(api_attrs@.map_values(|a: String| a@)) == Some(n@),
            None => spec_custom_js_name(api_attrs@.map_values(|a: String| a@)) is None,
        },
{
    let ghost attrs = api_attrs@.map_values(|a: String| a@);
    let n = api_attrs.len();
    let mut i: usize = 0;
    proof {
        assert(attrs.skip(0) =~= attrs);
    }
    while i < n
        invariant
            n == api_attrs@.len(),
            attrs == api_attrs@.map_values(|a: String| a@),
            i <= n,
            spec_custom_js_name(attrs.skip(i as int)) == spec_custom_js_name(attrs),
        decreases n - i,
    {
        proof {
            assert(attrs.skip(i as int)[0] == attrs[i as int]);
            assert(attrs.skip(i as int).drop_first() =~= attrs.skip(i as int + 1));
        }
        match js_name_in(&api_attrs[i]) {
            Some(name) => {
                return Some(name);
            },
            None => {},
        }
        i += 1;
    }
    proof {
        assert(attrs.skip(n as int) =~= Seq::<Seq<char>>::empty());
    }
    None
}

// ---------------------------------------------------------------------------
// Methods
// ---------------------------------------------------------------------------

/// Abstract value of a parsed method.
pub struct ApiMethodView {
    pub rust_name: Seq<char>,
    pub js_name: Seq<char>,
    pub kind: ApiKind,
    pub params: Seq<(Seq<char>, TypeView)>,
    pub return_type: Option<TypeView>,
    pub doc_comment: Seq<char>,
}

pub open spec fn params_view(ps: Seq<(String, TypeModel)>) -> Seq<(Seq<char>, TypeView)> {
    ps.map_values(|p: (String, TypeModel)| (p.0@, type_view(p.1)))
}

pub open spec fn method_view(m: ApiMethod) -> ApiMethodView {
    ApiMethodView {
        rust_name: m.rust_name@,
        js_name: m.js_name@,
        kind: m.kind,
        params: params_view(m.params@),
        return_type: opt_type_view(m.return_type),
        doc_comment: m.doc_comment@,
    }
}

/// Abstract value of a method declaration.
#[verifier::ext_equal]
pub struct MethodDeclView {
    pub name: Seq<char>,
    pub docs: Seq<Seq<char>>,
    pub api_attrs: Seq<Seq<char>>,
    pub params: Seq<(Seq<char>, TypeView)>,
    pub output: Option<TypeView>,
}

pub open spec fn decl_view(d: MethodDecl) -> MethodDeclView {
    MethodDeclView {
        name: d.name@,
        docs: d.docs@.map_values(|x: String| x@),
        api_attrs: d.api_attrs@.map_values(|a: String| a@),
        params: params_view(d.params@),
        output: opt_type_view(d.output),
    }
}

/// The method a declaration describes, or none when it is marked to be skipped.
pub open spec fn spec_parse_decl(d: MethodDeclView) -> Option<ApiMethodView> {
    if spec_should_skip(d.api_attrs) {
        None
    } else {
        Some(ApiMethodView {
            rust_name: d.name,
            js_name: match spec_custom_js_name(d.api_attrs) {
                Some(n) => n,
                None => spec_to_camel_case(d.name),
            },
            kind: spec_api_kind(d.output).0,
            params: d.params,
            return_type: spec_api_kind(d.output).1,
            doc_comment: spec_doc_comment(d.docs),
        })
    }
}

/// The method a declaration describes, or none when it is marked to be skipped.
pub open spec fn spec_parse_method(d: MethodDecl) -> Option<ApiMethodView> {
    spec_parse_decl(decl_view(d))
}

/// The methods of declarations, skipped ones left out, in order.
pub open spec fn spec_parse_decls(ds: Seq<MethodDeclView>) -> Seq<ApiMethodView>
    decreases ds.len(),
{
    if ds.len() == 0 {
        Seq::empty()
    } else {
        match spec_parse_decl(ds.last()) {
            Some(m) => spec_parse_decls(ds.drop_last()).push(m),
            None => spec_parse_decls(ds.drop_last()),
        }
    }
}

fn copy_params(ps: &Vec<(String, TypeModel)>) -> (r: Vec<(String, TypeModel)>)
    ensures
        params_view(r@) == params_view(ps@),
{
    let mut out: Vec<(String, TypeModel)> = Vec::new();
    let n = ps.len();
    let mut i: usize = 0;
    while i < n
        invariant
            n == ps@.len(),
            i <= n,
            params_view(out@) == params_view(ps@).take(i as int),
        decreases n - i,
    {
        let name = ps[i].0.clone();
        let ty = copy_type(&ps[i].1);
        let ghost before = params_view(out@);
        out.push((name, ty));
        i += 1;
        proof {
            assert(params_view(out@) =~= before.push((name@, type_view(ty))));
            assert(params_view(ps@)[i - 1] == (ps@[i - 1].0@, type_view(ps@[i - 1].1)));
            assert(params_view(out@) =~= params_view(ps@).take(i as int));
        }
    }
    proof {
        assert(params_view(ps@).take(n as int) =~= params_view(ps@));
    }
    out
}

/// Parse a trait method into an ApiMethod
pub fn parse_method(decl: &MethodDecl) -> (r: Option<ApiMethod>)
    ensures
        match r {
            Some(m) => spec_parse_method(*decl) == Some(method_view(m)),
            None => spec_parse_method(*decl) is None,
        },
{
    if should_skip(&decl.api_attrs) {
        return None;
    }
    let rust_name = decl.name.clone();
    let js_name = match get_custom_js_name(&decl.api_attrs) {
        Some(n) => n,
        None => to_camel_case(decl.name.as_str()),
    };
    let doc_comment = extract_doc_comment(&decl.docs);
    let params = copy_params(&decl.params);
    let (kind, return_type) = determine_api_kind(&decl.output);
    Some(ApiMethod { rust_name, js_name, kind, params, return_type, doc_comment })
}

/// The TypeScript parameters of a method: `callbackId`-style names are not
/// shown for the `callback_id` parameter of async methods.
pub open spec fn spec_ts_params(ps: Seq<(Seq<char>, TypeView)>, is_async: bool) -> Seq<Seq<char>>
    decreases ps.len(),
{
    if ps.len() == 0 {
        Seq::empty()
    } else if is_async && ps.last().0 == "callback_id"@ {
        spec_ts_params(ps.drop_last(), is_async)
    } else {
        spec_ts_params(ps.drop_last(), is_async).push(spec_to_camel_case(ps.last().0) + ": "@ + spec_ts_type(ps.last().1))
    }
}

/// The TypeScript return type of a method.
pub open spec fn spec_ts_return(kind: ApiKind, rt: Option<TypeView>) -> Seq<char> {
    let inner = match rt {
        Some(t) => spec_ts_type(t),
        None => "void"@,
    };
    match kind {
        ApiKind::Sync => inner,
        ApiKind::AsyncPromise => "Promise<"@ + inner + ">"@,
        ApiKind::AsyncThenable => "ProcessHandle<"@ + inner + ">"@,
    }
}

/// The lines of a method's doc block (none for an empty doc comment).
pub open spec fn spec_doc_lines(doc: Seq<char>) -> Seq<Seq<char>> {
    if doc.len() == 0 {
        Seq::empty()
    } else {
        seq!["  /**"@] + lines_from(doc, 0).map_values(|l: Seq<char>| "   * "@ + l) + seq!["   */"@]
    }
}

/// The TypeScript declaration of a method: its doc block, then its signature.
pub open spec fn spec_ts_method(m: ApiMethodView) -> Seq<char> {
    join_seqs(spec_doc_lines(m.doc_comment).push(
        "  "@ + m.js_name + "("@ + join_seqs(spec_ts_params(m.params, m.kind != ApiKind::Sync), ", "@) + "): "@
            + spec_ts_return(m.kind, m.return_type) + ";"@), "\n"@)
}

/// The rendered TypeScript parameters of a method.
fn ts_params(params: &Vec<(String, TypeModel)>, is_async: bool) -> (r: Vec<Vec<char>>)
    ensures
        r@.map_values(|p: Vec<char>| p@) == spec_ts_params(params_view(params@), is_async),
{
    let ghost ps = params_view(params@);
    let mut out: Vec<Vec<char>> = Vec::new();
    let n = params.len();
    let mut i: usize = 0;
    while i < n
        invariant
            n == params@.len(),
            ps == params_view(params@),
            i <= n,
            out@.map_values(|p: Vec<char>| p@) == spec_ts_params(ps.take(i as int), is_async),
        decreases n - i,
    {
        proof {
            assert(ps.take(i as int + 1).drop_last() =~= ps.take(i as int));
            assert(ps.take(i as int + 1).last() == ps[i as int]);
        }
        let name = &params[i].0;
        if is_async && is_text(name, "callback_id") {
        } else {
            let camel = to_camel_case(name.as_str());
            let mut p = string_chars(&camel);
            push_str(&mut p, ": ");
            push_ts_type(&mut p, &params[i].1);
            let ghost before = out@.map_values(|q: Vec<char>| q@);
            out.push(p);
            proof {
                assert(out@.map_values(|q: Vec<char>| q@) =~= before.push(p@));
            }
        }
        i += 1;
    }
    proof {
        assert(ps.take(n as int) =~= ps);
    }
    out
}

/// Generate TypeScript method signature
pub fn generate_ts_method(method: &ApiMethod) -> (r: String)
    ensures
        r@ == spec_ts_method(method_view(*method)),
{
    let mut lines: Vec<Vec<char>> = Vec::new();
    let ghost doc = method.doc_comment@;
    let doc_chars = string_chars(&method.doc_comment);
    if doc_chars.len() > 0 {
        let mut open = Vec::new();
        push_str(&mut open, "  /**");
        lines.push(open);
        let doc_lines = str_lines(method.doc_comment.as_str());
        let n = doc_lines.len();
        let mut i: usize = 0;
        while i < n
            invariant
                n == doc_lines@.len(),
                doc_lines@.map_values(|x: String| x@) == lines_from(doc, 0),
                i <= n,
                lines@.map_values(|p: Vec<char>| p@) == seq!["  /**"@]
                    + lines_from(doc, 0).take(i as int).map_values(|l: Seq<char>| "   * "@ + l),
            decreases n - i,
        {
            let mut l = Vec::new();
            push_str(&mut l, "   * ");
            let c = string_chars(&doc_lines[i]);
            push_chars(&mut l, &c);
            let ghost before = lines@.map_values(|p: Vec<char>| p@);
            lines.push(l);
            i += 1;
            proof {
                let ll = lines_from(doc, 0);
                assert(l@ =~= "   * "@ + ll[i - 1]);
                assert(lines@.map_values(|p: Vec<char>| p@) =~= before.push(l@));
                assert(doc_lines@[i - 1]@ == ll[i - 1]);
                assert(ll.take(i as int).map_values(|l: Seq<char>| "   * "@ + l) =~= ll.take(i - 1).map_values(
                    |l: Seq<char>| "   * "@ + l).push("   * "@ + ll[i - 1]));
                assert(lines@.map_values(|p: Vec<char>| p@) =~= seq!["  /**"@]
                    + lines_from(doc, 0).take(i as int).map_values(|l: Seq<char>| "   * "@ + l));
            }
        }
        let mut close = Vec::new();
        push_str(&mut close, "   */");
        let ghost before = lines@.map_values(|p: Vec<char>| p@);
        lines.push(close);
        proof {
            assert(lines_from(doc, 0).take(n as int) =~= lines_from(doc, 0));
            assert(lines_from(doc, 0).take(n as int).map_values(|l: Seq<char>| "   * "@ + l)
                =~= lines_from(doc, 0).map_values(|l: Seq<char>| "   * "@ + l));
            assert(doc.len() > 0);
            assert(lines@.map_values(|p: Vec<char>| p@) =~= before.push("   */"@));
            let m = lines_from(doc, 0).map_values(|l: Seq<char>| "   * "@ + l);
            assert(before =~= seq!["  /**"@] + m);
            assert(spec_doc_lines(doc) == seq!["  /**"@] + m + seq!["   */"@]);
            assert(before.push("   */"@) =~= seq!["  /**"@] + m + seq!["   */"@]);
        }
    } else {
        proof {
            assert(lines@.map_values(|p: Vec<char>| p@) =~= spec_doc_lines(doc));
        }
    }
    let is_async = match method.kind {
        ApiKind::AsyncPromise | ApiKind::AsyncThenable => true,
        ApiKind::Sync => false,
    };
    let params = ts_params(&method.params, is_async);
    let params_text = join_chars(&params, ", ");
    let mut ret: Vec<char> = Vec::new();
    match method.kind {
        ApiKind::Sync => {},
        ApiKind::AsyncPromise => push_str(&mut ret, "Promise<"),
        ApiKind::AsyncThenable => push_str(&mut ret, "ProcessHandle<"),
    }
    match &method.return_type {
        Some(t) => push_ts_type(&mut ret, t),
        None => push_str(&mut ret, "void"),
    }
    match method.kind {
        ApiKind::Sync => {},
        _ => push_str(&mut ret, ">"),
    }
    let mut sig: Vec<char> = Vec::new();
    push_str(&mut sig, "  ");
    let js = string_chars(&method.js_name);
    push_chars(&mut sig, &js);
    push_str(&mut sig, "(");
    push_chars(&mut sig, &params_text);
    push_str(&mut sig, "): ");
    push_chars(&mut sig, &ret);
    push_str(&mut sig, ";");
    let ghost before = lines@.map_values(|p: Vec<char>| p@);
    lines.push(sig);
    proof {
        assert(ret@ =~= spec_ts_return(method.kind, opt_type_view(method.return_type)));
        assert(lines@.map_values(|p: Vec<char>| p@) =~= before.push(sig@));
    }
    let joined = join_chars(&lines, "\n");
    proof {
        assert(joined@ =~= spec_ts_method(method_view(*method)));
    }
    string_from_chars(&joined)
}

// ---------------------------------------------------------------------------
// The whole API
// ---------------------------------------------------------------------------

/// Text of the definitions file before the method declarations.
pub const TS_PREFIX: &'static str = "/**\n * Fresh Editor TypeScript Plugin API\n *\n * AUTO-GENERATED FILE - DO NOT EDIT MANUALLY\n * Generated by fresh-plugin-api-macros\n */\n\n/**\n * Get the editor API instance.\n * Plugins must call this at the top of their file to get a scoped editor object.\n */\ndeclare function getEditor(): EditorAPI;\n\n/** Handle for a cancellable async operation */\ninterface ProcessHandle<T> extends PromiseLike<T> {\n  /** Promise that resolves to the result when complete */\n  readonly result: Promise<T>;\n  /** Cancel/kill the operation. Returns true if cancelled, false if already completed */\n  kill(): Promise<boolean>;\n}\n\n/** Buffer identifier */\ntype BufferId = number;\n\n/** Split identifier */\ntype SplitId = number;\n\n/** Buffer information */\ninterface BufferInfo {\n  id: number;\n  path: string;\n  modified: boolean;\n  length: number;\n}\n\n/** Cursor information with optional selection */\ninterface CursorInfo {\n  position: number;\n  selection?: { start: number; end: number } | null;\n}\n\n/** Viewport information */\ninterface ViewportInfo {\n  top_byte: number;\n  left_column: number;\n  width: number;\n  height: number;\n}\n\n/** Result from spawnProcess */\ninterface SpawnResult {\n  stdout: string;\n  stderr: string;\n  exit_code: number;\n}\n\n/** Result from spawnBackgroundProcess */\ninterface BackgroundProcessResult {\n  process_id: number;\n}\n\n/** Directory entry */\ninterface DirEntry {\n  name: string;\n  is_file: boolean;\n  is_dir: boolean;\n}\n\n/** File stat information */\ninterface FileStat {\n  exists: boolean;\n  is_file: boolean;\n  is_dir: boolean;\n  size: number;\n  readonly: boolean;\n}\n\n/** Prompt suggestion */\ninterface PromptSuggestion {\n  text: string;\n  description?: string | null;\n  value?: string | null;\n  disabled?: boolean | null;\n  keybinding?: string | null;\n}\n\n/** Text property entry for virtual buffers */\ninterface TextPropertyEntry {\n  text: string;\n  properties: Record<string, unknown>;\n}\n\n/** Result from createVirtualBufferInSplit */\ninterface CreateVirtualBufferResult {\n  buffer_id: number;\n  split_id?: number | null;\n}\n\n/**\n * Main editor API interface\n */\ninterface EditorAPI {\n";

/// Text of the definitions file after the method declarations.
pub const TS_SUFFIX: &'static str = "\n}\n";

/// The methods of the declarations, skipped ones left out, in order.
pub open spec fn spec_parse_methods(ds: Seq<MethodDecl>) -> Seq<ApiMethodView>
    decreases ds.len(),
{
    if ds.len() == 0 {
        Seq::empty()
    } else {
        match spec_parse_method(ds.last()) {
            Some(m) => spec_parse_methods(ds.drop_last()).push(m),
            None => spec_parse_methods(ds.drop_last()),
        }
    }
}

/// Parsing declarations depends only on their abstract values.
pub proof fn lemma_parse_methods_view(ds: Seq<MethodDecl>)
    ensures
        spec_parse_methods(ds) == spec_parse_decls(ds.map_values(|d: MethodDecl| decl_view(d))),
    decreases ds.len(),
{
    let vs = ds.map_values(|d: MethodDecl| decl_view(d));
    if ds.len() > 0 {
        lemma_parse_methods_view(ds.drop_last());
        assert(ds.drop_last().map_values(|d: MethodDecl| decl_view(d)) =~= vs.drop_last());
        assert(vs.last() == decl_view(ds.last()));
    }
}

pub open spec fn methods_view(ms: Seq<ApiMethod>) -> Seq<ApiMethodView> {
    ms.map_values(|m: ApiMethod| method_view(m))
}

/// Parse all methods of the trait
pub fn parse_methods(decls: &Vec<MethodDecl>) -> (r: Vec<ApiMethod>)
    ensures
        methods_view(r@) == spec_parse_methods(decls@),
{
    let mut out: Vec<ApiMethod> = Vec::new();
    let n = decls.len();
    let mut i: usize = 0;
    while i < n
        invariant
            n == decls@.len(),
            i <= n,
            methods_view(out@) == spec_parse_methods(decls@.take(i as int)),
        decreases n - i,
    {
        proof {
            assert(decls@.take(i as int + 1).drop_last() =~= decls@.take(i as int));
            assert(decls@.take(i as int + 1).last() == decls@[i as int]);
        }
        match parse_method(&decls[i]) {
            Some(m) => {
                let ghost before = methods_view(out@);
                out.push(m);
                proof {
                    assert(methods_view(out@) =~= before.push(method_view(m)));
                }
            },
            None => {},
        }
        i += 1;
    }
    proof {
        assert(decls@.take(n as int) =~= decls@);
    }
    out
}

/// The full definitions file for the methods.
pub open spec fn spec_typescript_definitions(ms: Seq<ApiMethodView>) -> Seq<char> {
    TS_PREFIX@ + join_seqs(ms.map_values(|m: ApiMethodView| spec_ts_method(m)), "\n\n"@) + TS_SUFFIX@
}

/// Generate the TypeScript definitions file for the methods
pub fn typescript_definitions(methods: &Vec<ApiMethod>) -> (r: String)
    ensures
        r@ == spec_typescript_definitions(methods_view(methods@)),
{
    let ghost ms = methods_view(methods@);
    let mut parts: Vec<Vec<char>> = Vec::new();
    let n = methods.len();
    let mut i: usize = 0;
    while i < n
        invariant
            n == methods@.len(),
            ms == methods_view(methods@),
            i <= n,
            parts@.map_values(|p: Vec<char>| p@) == ms.map_values(|m: ApiMethodView| spec_ts_method(m)).take(i as int),
        decreases n - i,
    {
        let t = generate_ts_method(&methods[i]);
        let c = string_chars(&t);
        let ghost before = parts@.map_values(|p: Vec<char>| p@);
        parts.push(c);
        i += 1;
        proof {
            assert(parts@.map_values(|p: Vec<char>| p@) =~= before.push(c@));
            assert(parts@.map_values(|p: Vec<char>| p@) =~= ms.map_values(|m: ApiMethodView| spec_ts_method(m)).take(i as int));
        }
    }
    proof {
        assert(ms.map_values(|m: ApiMethodView| spec_ts_method(m)).take(n as int)
            =~= ms.map_values(|m: ApiMethodView| spec_ts_method(m)));
    }
    let mut out: Vec<char> = Vec::new();
    push_str(&mut out, TS_PREFIX);
    let body = join_chars(&parts, "\n\n");
    push_chars(&mut out, &body);
    push_str(&mut out, TS_SUFFIX);
    string_from_chars(&out)
}

/// The JavaScript names of the methods, in order.
pub fn js_method_names(methods: &Vec<ApiMethod>) -> (r: Vec<String>)
    ensures
        r@.map_values(|s: String| s@) == methods_view(methods@).map_values(|m: ApiMethodView| m.js_name),
{
    let mut out: Vec<String> = Vec::new();
    let n = methods.len();
    let mut i: usize = 0;
    while i < n
        invariant
            n == methods@.len(),
            i <= n,
            out@.map_values(|s: String| s@) == methods_view(methods@).map_values(|m: ApiMethodView| m.js_name).take(i as int),
        decreases n - i,
    {
        let name = methods[i].js_name.clone();
        let ghost before = out@.map_values(|s: String| s@);
        out.push(name);
        i += 1;
        proof {
            assert(out@.map_values(|s: String| s@) =~= before.push(name@));
            assert(out@.map_values(|s: String| s@) =~= methods_view(methods@).map_values(|m: ApiMethodView| m.js_name).take(i as int));
        }
    }
    proof {
        assert(methods_view(methods@).map_values(|m: ApiMethodView| m.js_name).take(n as int)
            =~= methods_view(methods@).map_values(|m: ApiMethodView| m.js_name));
    }
    out
}

/// The wrapper line for one async method: promise methods use `_wrapAsync`,
/// thenable ones `_wrapAsyncThenable`.
pub open spec fn spec_wrapper_line(name: Seq<char>, thenable: bool) -> Seq<char> {
    "_editorCore."@ + name + (if thenable { " = _wrapAsyncThenable(_editorCore._"@ } else { " = _wrapAsync(_editorCore._"@ })
        + name + "Start, \""@ + name + "\");"@
}

/// Wrapper lines of the methods of kind `kind`, in order.
pub open spec fn spec_wrapper_lines(ms: Seq<ApiMethodView>, kind: ApiKind) -> Seq<Seq<char>>
    decreases ms.len(),
{
    if ms.len() == 0 {
        Seq::empty()
    } else if ms.last().kind == kind {
        spec_wrapper_lines(ms.drop_last(), kind).push(spec_wrapper_line(ms.last().js_name, kind == ApiKind::AsyncThenable))
    } else {
        spec_wrapper_lines(ms.drop_last(), kind)
    }
}

/// JavaScript code that wraps the async methods: promise methods first, then
/// thenable ones, one line each.
pub open spec fn spec_js_async_wrappers(ms: Seq<ApiMethodView>) -> Seq<char> {
    join_seqs(spec_wrapper_lines(ms, ApiKind::AsyncPromise) + spec_wrapper_lines(ms, ApiKind::AsyncThenable), "\n"@)
}

fn wrapper_lines(methods: &Vec<ApiMethod>, kind: ApiKind, out: &mut Vec<Vec<char>>)
    ensures
        final(out)@.map_values(|p: Vec<char>| p@) == old(out)@.map_values(|p: Vec<char>| p@)
            + spec_wrapper_lines(methods_view(methods@), kind),
{
    let ghost start = out@.map_values(|p: Vec<char>| p@);
    let ghost ms = methods_view(methods@);
    let n = methods.len();
    let mut i: usize = 0;
    while i < n
        invariant
            n == methods@.len(),
            ms == methods_view(methods@),
            i <= n,
            out@.map_values(|p: Vec<char>| p@) == start + spec_wrapper_lines(ms.take(i as int), kind),
        decreases n - i,
    {
        proof {
            assert(ms.take(i as int + 1).drop_last() =~= ms.take(i as int));
            assert(ms.take(i as int + 1).last() == ms[i as int]);
        }
        if methods[i].kind == kind {
            let name = string_chars(&methods[i].js_name);
            let mut line: Vec<char> = Vec::new();
            push_str(&mut line, "_editorCore.");
            push_chars(&mut line, &name);
            match kind {
                ApiKind::AsyncThenable => push_str(&mut line, " = _wrapAsyncThenable(_editorCore._"),
                _ => push_str(&mut line, " = _wrapAsync(_editorCore._"),
            }
            push_chars(&mut line, &name);
            push_str(&mut line, "Start, \"");
            push_chars(&mut line, &name);
            push_str(&mut line, "\");");
            let ghost before = out@.map_values(|p: Vec<char>| p@);
            out.push(line);
            proof {
                assert(line@ =~= spec_wrapper_line(ms[i as int].js_name, kind == ApiKind::AsyncThenable));
                assert(out@.map_values(|p: Vec<char>| p@) =~= before.push(line@));
            }
        }
        i += 1;
    }
    proof {
        assert(ms.take(n as int) =~= ms);
    }
}

/// Generate JS wrapper code for async methods
pub fn js_async_wrappers(methods: &Vec<ApiMethod>) -> (r: String)
    ensures
        r@ == spec_js_async_wrappers(methods_view(methods@)),
{
    let mut lines: Vec<Vec<char>> = Vec::new();
    wrapper_lines(methods, ApiKind::AsyncPromise, &mut lines);
    wrapper_lines(methods, ApiKind::AsyncThenable, &mut lines);
    proof {
        assert(lines@.map_values(|p: Vec<char>| p@) =~= spec_wrapper_lines(methods_view(methods@), ApiKind::AsyncPromise)
            + spec_wrapper_lines(methods_view(methods@), ApiKind::AsyncThenable));
    }
    let joined = join_chars(&lines, "\n");
    string_from_chars(&joined)
}

} // verus!
