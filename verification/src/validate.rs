//! Strict theme validation: results and errors, classifying validation
//! messages, and making a JSON schema strict.

use vstd::prelude::*;
use crate::text_util::{contains_chars, contains_seq, str_chars, string_from_chars, push_str, replace_char};

verus! {

/// The kind of validation error.
#[derive(Debug, Clone, Copy, PartialEq, Eq, Structural)]
pub enum ValidationErrorKind {
    /// Unknown field that is not in the schema
    UnknownField,
    /// Type mismatch (e.g., expected string, got number)
    TypeMismatch,
    /// Missing required field
    MissingField,
    /// Other validation error
    Other,
}

/// A single validation error with path and message.
#[derive(Debug, Clone)]
pub struct ThemeValidationError {
    /// JSON path to the error (e.g., "ui.tab_active_fg")
    pub path: String,
    /// Human-readable error message
    pub message: String,
    /// Kind of error
    pub kind: ValidationErrorKind,
}

/// Result of theme validation.
#[derive(Debug)]
pub struct ValidationResult {
    /// Whether the theme is valid
    pub is_valid: bool,
    /// List of validation errors (empty if valid)
    pub errors: Vec<ThemeValidationError>,
}

impl ValidationResult {
    /// Create a successful validation result.
    pub fn valid() -> (r: Self)
        ensures
            r.is_valid,
            r.errors@.len() == 0,
    {
        Self { is_valid: true, errors: Vec::new() }
    }

    /// Create a failed validation result with errors.
    pub fn invalid(errors: Vec<ThemeValidationError>) -> (r: Self)
        ensures
            !r.is_valid,
            r.errors@ == errors@,
    {
        Self { is_valid: false, errors }
    }
}

/// The kind of a validation error, read from its message.
pub open spec fn spec_classify(m: Seq<char>) -> ValidationErrorKind {
    if contains_seq(m, "Additional properties are not allowed"@) || contains_seq(m, "additionalProperties"@) {
        ValidationErrorKind::UnknownField
    } else if contains_seq(m, "is not of type"@) || contains_seq(m, "is not valid under any of the given schemas"@)
        || contains_seq(m, "'anyOf'"@) || contains_seq(m, "'oneOf'"@) {
        ValidationErrorKind::TypeMismatch
    } else if contains_seq(m, "is a required property"@) || contains_seq(m, "required"@) {
        ValidationErrorKind::MissingField
    } else {
        ValidationErrorKind::Other
    }
}

/// Determine the kind of validation error from the error message.
pub fn classify_error(message: &str) -> (r: ValidationErrorKind)
    ensures
        r == spec_classify(message@),
{
    let m = str_chars(message);
    if contains_chars(&m, "Additional properties are not allowed") || contains_chars(&m, "additionalProperties") {
        ValidationErrorKind::UnknownField
    } else if contains_chars(&m, "is not of type") || contains_chars(&m, "is not valid under any of the given schemas")
        || contains_chars(&m, "'anyOf'") || contains_chars(&m, "'oneOf'") {
        ValidationErrorKind::TypeMismatch
    } else if contains_chars(&m, "is a required property") || contains_chars(&m, "required") {
        ValidationErrorKind::MissingField
    } else {
        ValidationErrorKind::Other
    }
}

/// `s` without its leading slashes.
pub open spec fn trim_leading_slashes(s: Seq<char>) -> Seq<char>
    decreases s.len(),
{
    if s.len() > 0 && s[0] == '/' { trim_leading_slashes(s.drop_first()) } else { s }
}

/// The readable form of a JSON pointer: `(root)` for the root, else the
/// pointer without leading slashes and with `.` between its parts.
pub open spec fn spec_format_path(p: Seq<char>) -> Seq<char> {
    if p.len() == 0 || p == "/"@ {
        "(root)"@
    } else {
        replace_char(trim_leading_slashes(p), '/', '.')
    }
}

/// Format the JSON path of a validation error (its instance pointer).
pub fn format_path(path: &str) -> (r: String)
    ensures
        r@ == spec_format_path(path@),
{
    let p = str_chars(path);
    proof {
        reveal_strlit("/");
    }
    if p.len() == 0 || (p.len() == 1 && p[0] == '/') {
        proof {
            if p@.len() == 1 {
                assert(p@ =~= "/"@);
            }
        }
        return "(root)".to_string();
    }
    proof {
        assert(p@ != "/"@);
    }
    let mut i: usize = 0;
    let n = p.len();
    proof {
        assert(p@.skip(0) =~= p@);
    }
    while i < n && p[i] == '/'
        invariant
            n == p@.len(),
            i <= n,
            trim_leading_slashes(p@.skip(i as int)) == trim_leading_slashes(p@),
        decreases n - i,
    {
        proof {
            assert(p@.skip(i as int).drop_first() =~= p@.skip(i as int + 1));
        }
        i += 1;
    }
    let mut out: Vec<char> = Vec::new();
    let mut k = i;
    while k < n
        invariant
            n == p@.len(),
            i <= k <= n,
            out@ == replace_char(p@.subrange(i as int, k as int), '/', '.'),
        decreases n - k,
    {
        let c = p[k];
        out.push(if c == '/' { '.' } else { c });
        k += 1;
        proof {
            assert(out@ =~= replace_char(p@.subrange(i as int, k as int), '/', '.'));
        }
    }
    proof {
        assert(p@.skip(i as int) =~= p@.subrange(i as int, n as int));
        assert(i == n || p@.skip(i as int)[0] != '/');
    }
    string_from_chars(&out)
}

// ---------------------------------------------------------------------------
// JSON schemas
// ---------------------------------------------------------------------------

/// The errors a schema check reported, as (instance path, message), in order.
pub open spec fn spec_errors(errs: Seq<(String, String)>) -> Seq<(Seq<char>, Seq<char>, ValidationErrorKind)> {
    errs.map_values(|e: (String, String)| (spec_format_path(e.0@), e.1@, spec_classify(e.1@)))
}

pub open spec fn errors_view(errs: Seq<ThemeValidationError>) -> Seq<(Seq<char>, Seq<char>, ValidationErrorKind)> {
    errs.map_values(|e: ThemeValidationError| (e.path@, e.message@, e.kind))
}

/// The result of validating a theme, from the errors that the schema check
/// reported (instance path and message of each): valid when there are none,
/// else each with its path formatted and its kind read from its message.
pub fn validation_result_from_errors(errors: Vec<(String, String)>) -> (r: ValidationResult)
    ensures
        r.is_valid == (errors@.len() == 0),
        errors_view(r.errors@) == spec_errors(errors@),
{
    let ghost errs = errors@;
    let n = errors.len();
    let mut out: Vec<ThemeValidationError> = Vec::new();
    let mut i: usize = 0;
    while i < n
        invariant
            n == errs.len(),
            errs == errors@,
            i <= n,
            out@.len() == i,
            errors_view(out@) == spec_errors(errs.take(i as int)),
        decreases n - i,
    {
        let path = format_path(errors[i].0.as_str());
        let kind = classify_error(errors[i].1.as_str());
        let message = errors[i].1.clone();
        let e = ThemeValidationError { path, message, kind };
        proof {
            assert(e.path@ == spec_format_path(errs[i as int].0@));
            assert(e.message@ == errs[i as int].1@);
            assert(e.kind == spec_classify(errs[i as int].1@));
            let a = errors_view(out@.push(e));
            let b = spec_errors(errs.take(i + 1));
            assert(a.len() == b.len());
            assert forall|j: int| 0 <= j < a.len() implies a[j] == b[j] by {
                if j < i {
                    assert(out@.push(e)[j] == out@[j]);
                    assert(errs.take(i + 1)[j] == errs.take(i as int)[j]);
                    assert(errors_view(out@)[j] == spec_errors(errs.take(i as int))[j]);
                } else {
                    assert(out@.push(e)[j] == e);
                    assert(errs.take(i + 1)[j] == errs[i as int]);
                }
            }
            assert(a =~= b);
        }
        out.push(e);
        i += 1;
    }
    proof {
        assert(errs.take(n as int) =~= errs);
    }
    if n == 0 {
        ValidationResult::valid()
    } else {
        ValidationResult::invalid(out)
    }
}

/// The result for text that is not JSON: one error at the root, of kind `Other`.
pub fn invalid_json_result(parse_error: &str) -> (r: ValidationResult)
    ensures
        !r.is_valid,
        errors_view(r.errors@) == seq![("(root)"@, "Invalid JSON: "@ + parse_error@, ValidationErrorKind::Other)],
{
    let mut m: Vec<char> = Vec::new();
    push_str(&mut m, "Invalid JSON: ");
    push_str(&mut m, parse_error);
    let mut errs: Vec<ThemeValidationError> = Vec::new();
    errs.push(ThemeValidationError { path: "(root)".to_string(), message: string_from_chars(&m), kind: ValidationErrorKind::Other });
    proof {
        reveal_strlit("Invalid JSON: ");
        assert(errors_view(errs@) =~= seq![("(root)"@, "Invalid JSON: "@ + parse_error@, ValidationErrorKind::Other)]);
    }
    ValidationResult::invalid(errs)
}

/// Why `serde_json` refuses `text` as JSON (the error as it displays it), none
/// when `text` is JSON.
pub uninterp spec fn serde_json_error(text: Seq<char>) -> Option<Seq<char>>;

/// `serde_json::from_str` into a JSON value, keeping only the displayed error;
/// the result is the named `serde_json_error`.
#[verifier::external_body]
fn json_syntax_error(text: &str) -> (r: Option<String>)
    ensures
        match r {
            Some(m) => serde_json_error(text@) == Some(m@),
            None => serde_json_error(text@) is None,
        },
{
    match serde_json::from_str::<serde_json::Value>(text) {
        Ok(_) => None,
        Err(e) => Some(e.to_string()),
    }
}

/// The first step of validating a theme: text that is not JSON gets the
/// invalid-JSON result (one error at the root); JSON text gets none here and
/// goes on to the check against the theme schema.
pub fn check_theme_json_syntax(json: &str) -> (r: Option<ValidationResult>)
    ensures
        match serde_json_error(json@) {
            Some(m) => r matches Some(v) && !v.is_valid
                && errors_view(v.errors@) == seq![("(root)"@, "Invalid JSON: "@ + m, ValidationErrorKind::Other)],
            None => r is None,
        },
{
    match json_syntax_error(json) {
        Some(m) => Some(invalid_json_result(m.as_str())),
        None => None,
    }
}

/// A JSON value (numbers kept as their text).
pub enum JsonValue {
    Null,
    Bool(bool),
    Number(String),
    String(String),
    Array(Vec<JsonValue>),
    Object(Vec<(String, JsonValue)>),
}

/// Abstract JSON value.
pub enum JsonView {
    Null,
    Bool(bool),
    Number(Seq<char>),
    String(Seq<char>),
    Array(Seq<JsonView>),
    Object(Seq<(Seq<char>, JsonView)>),
}

pub open spec fn json_view(v: JsonValue) -> JsonView
    decreases v,
{
    match v {
        JsonValue::Null => JsonView::Null,
        JsonValue::Bool(b) => JsonView::Bool(b),
        JsonValue::Number(n) => JsonView::Number(n@),
        JsonValue::String(s) => JsonView::String(s@),
        JsonValue::Array(items) => JsonView::Array(json_items_view(items@)),
        JsonValue::Object(entries) => JsonView::Object(json_entries_view(entries@)),
    }
}

pub open spec fn json_items_view(s: Seq<JsonValue>) -> Seq<JsonView>
    decreases s,
{
    if s.len() == 0 {
        Seq::empty()
    } else {
        json_items_view(s.subrange(0, s.len() - 1)).push(json_view(s[s.len() - 1]))
    }
}

pub open spec fn json_entries_view(s: Seq<(String, JsonValue)>) -> Seq<(Seq<char>, JsonView)>
    decreases s,
{
    if s.len() == 0 {
        Seq::empty()
    } else {
        json_entries_view(s.subrange(0, s.len() - 1)).push((s[s.len() - 1].0@, json_view(s[s.len() - 1].1)))
    }
}

/// The entries declare `"type": "object"`.
pub open spec fn declares_object_type(es: Seq<(Seq<char>, JsonView)>) -> bool {
    exists|i: int| 0 <= i < es.len() && es[i].0 == "type"@ && (#[trigger] es[i]).1 == JsonView::String("object"@)
        && forall|j: int| 0 <= j < i ==> es[j].0 != "type"@
}

/// The entries have a key `k`.
pub open spec fn has_key(es: Seq<(Seq<char>, JsonView)>, k: Seq<char>) -> bool {
    exists|i: int| 0 <= i < es.len() && (#[trigger] es[i]).0 == k
}

/// The strict form of a schema: every object schema that declares
/// `"type": "object"` and has no `additionalProperties` gets
/// `"additionalProperties": false`; nested schemas (except under `$ref`) likewise.
pub open spec fn spec_strict(v: JsonView) -> JsonView
    decreases v,
{
    match v {
        JsonView::Array(items) => JsonView::Array(spec_strict_items(items)),
        JsonView::Object(es) => JsonView::Object(
            if declares_object_type(es) && !has_key(es, "additionalProperties"@) {
                spec_strict_entries(es).push(("additionalProperties"@, JsonView::Bool(false)))
            } else {
                spec_strict_entries(es)
            }),
        _ => v,
    }
}

pub open spec fn spec_strict_items(s: Seq<JsonView>) -> Seq<JsonView>
    decreases s,
{
    if s.len() == 0 {
        Seq::empty()
    } else {
        spec_strict_items(s.subrange(0, s.len() - 1)).push(spec_strict(s[s.len() - 1]))
    }
}

pub open spec fn spec_strict_entries(s: Seq<(Seq<char>, JsonView)>) -> Seq<(Seq<char>, JsonView)>
    decreases s,
{
    if s.len() == 0 {
        Seq::empty()
    } else {
        spec_strict_entries(s.subrange(0, s.len() - 1)).push((s[s.len() - 1].0, if s[s.len() - 1].0 == "$ref"@ {
            s[s.len() - 1].1
        } else {
            spec_strict(s[s.len() - 1].1)
        }))
    }
}

/// Whether the entries declare `"type": "object"` (the first `type` entry decides).
fn declares_object_type_exec(entries: &Vec<(String, JsonValue)>) -> (r: bool)
    ensures
        r == declares_object_type(json_entries_view(entries@)),
{
    let ghost es = json_entries_view(entries@);
    proof {
        lemma_entries_view(entries@);
    }
    let n = entries.len();
    let mut i: usize = 0;
    while i < n
        invariant
            n == entries@.len(),
            es == json_entries_view(entries@),
            es.len() == n,
            forall|k: int| 0 <= k < n ==> (#[trigger] es[k]).0 == entries@[k].0@ && es[k].1 == json_view(entries@[k].1),
            i <= n,
            forall|j: int| 0 <= j < i ==> es[j].0 != "type"@,
        decreases n - i,
    {
        if entries[i].0 == "type".to_string() {
            let r = match &entries[i].1 {
                JsonValue::String(t) => *t == "object".to_string(),
                _ => false,
            };
            proof {
                if r {
                    assert(es[i as int].1 == JsonView::String("object"@));
                } else {
                    assert forall|k: int| 0 <= k < es.len() && es[k].0 == "type"@ && (#[trigger] es[k]).1
                        == JsonView::String("object"@) implies exists|j: int| 0 <= j < k && es[j].0 == "type"@ by {
                        if k > i {
                            assert(0 <= i < k && es[i as int].0 == "type"@);
                        }
                    }
                }
            }
            return r;
        }
        i += 1;
    }
    false
}

/// Whether the entries have key `k`.
fn has_key_exec(entries: &Vec<(String, JsonValue)>, k: &str) -> (r: bool)
    ensures
        r == has_key(json_entries_view(entries@), k@),
{
    let ghost es = json_entries_view(entries@);
    proof {
        lemma_entries_view(entries@);
    }
    let key = k.to_string();
    let n = entries.len();
    let mut i: usize = 0;
    while i < n
        invariant
            n == entries@.len(),
            es == json_entries_view(entries@),
            es.len() == n,
            forall|m: int| 0 <= m < n ==> (#[trigger] es[m]).0 == entries@[m].0@,
            key@ == k@,
            i <= n,
            forall|j: int| 0 <= j < i ==> es[j].0 != k@,
        decreases n - i,
    {
        if entries[i].0 == key {
            proof {
                assert(es[i as int].0 == k@);
            }
            return true;
        }
        i += 1;
    }
    false
}

pub proof fn lemma_entries_view(s: Seq<(String, JsonValue)>)
    ensures
        json_entries_view(s).len() == s.len(),
        forall|k: int| 0 <= k < s.len() ==> (#[trigger] json_entries_view(s)[k]).0 == s[k].0@
            && json_entries_view(s)[k].1 == json_view(s[k].1),
    decreases s.len(),
{
    if s.len() > 0 {
        lemma_entries_view(s.subrange(0, s.len() - 1));
        assert forall|k: int| 0 <= k < s.len() implies (#[trigger] json_entries_view(s)[k]).0 == s[k].0@
            && json_entries_view(s)[k].1 == json_view(s[k].1) by {
            if k < s.len() - 1 {
                assert(s.subrange(0, s.len() - 1)[k] == s[k]);
            }
        }
    }
}

proof fn lemma_items_view_push(s: Seq<JsonValue>, x: JsonValue)
    ensures
        json_items_view(s.push(x)) == json_items_view(s).push(json_view(x)),
{
    assert(s.push(x).subrange(0, s.len() as int) =~= s);
}

proof fn lemma_entries_view_push(s: Seq<(String, JsonValue)>, x: (String, JsonValue))
    ensures
        json_entries_view(s.push(x)) == json_entries_view(s).push((x.0@, json_view(x.1))),
{
    assert(s.push(x).subrange(0, s.len() as int) =~= s);
}

proof fn lemma_strict_items_push(s: Seq<JsonView>, x: JsonView)
    ensures
        spec_strict_items(s.push(x)) == spec_strict_items(s).push(spec_strict(x)),
{
    assert(s.push(x).subrange(0, s.len() as int) =~= s);
}

proof fn lemma_strict_entries_push(s: Seq<(Seq<char>, JsonView)>, x: (Seq<char>, JsonView))
    ensures
        spec_strict_entries(s.push(x)) == spec_strict_entries(s).push(
            (x.0, if x.0 == "$ref"@ { x.1 } else { spec_strict(x.1) }),
        ),
{
    assert(s.push(x).subrange(0, s.len() as int) =~= s);
}

/// The strict form of a schema value.
fn strict_value(v: &JsonValue) -> (r: JsonValue)
    ensures
        json_view(r) == spec_strict(json_view(*v)),
    decreases v,
{
    match v {
        JsonValue::Array(items) => {
            let n = items.len();
            let mut out: Vec<JsonValue> = Vec::new();
            let mut i: usize = 0;
            while i < n
                invariant
                    n == items@.len(),
                    i <= n,
                    *v == JsonValue::Array(*items),
                    json_items_view(out@) == spec_strict_items(json_items_view(items@.subrange(0, i as int))),
                decreases n - i,
            {
                proof {
                    assert(decreases_to!(*v => (*v)->Array_0));
                    assert(decreases_to!(*items => items@));
                    assert(decreases_to!(items@ => items@[i as int]));
                }
                let y = strict_value(&items[i]);
                proof {
                    let pre = items@.subrange(0, i as int);
                    assert(items@.subrange(0, i + 1) =~= pre.push(items@[i as int]));
                    lemma_items_view_push(pre, items@[i as int]);
                    lemma_strict_items_push(json_items_view(pre), json_view(items@[i as int]));
                    lemma_items_view_push(out@, y);
                }
                out.push(y);
                i += 1;
            }
            proof {
                assert(items@.subrange(0, n as int) =~= items@);
            }
            JsonValue::Array(out)
        },
        JsonValue::Object(entries) => {
            let declares = declares_object_type_exec(entries);
            let present = has_key_exec(entries, "additionalProperties");
            let n = entries.len();
            let mut out: Vec<(String, JsonValue)> = Vec::new();
            let mut i: usize = 0;
            while i < n
                invariant
                    n == entries@.len(),
                    i <= n,
                    *v == JsonValue::Object(*entries),
                    json_entries_view(out@) == spec_strict_entries(
                        json_entries_view(entries@.subrange(0, i as int)),
                    ),
                decreases n - i,
            {
                let key = entries[i].0.clone();
                let is_ref = key == "$ref".to_string();
                proof {
                    assert(decreases_to!(*v => (*v)->Object_0));
                    assert(decreases_to!(*entries => entries@));
                    assert(decreases_to!(entries@ => entries@[i as int]));
                    assert(decreases_to!(entries@[i as int] => entries@[i as int].1));
                    reveal_strlit("$ref");
                }
                let value = if is_ref {
                    entries[i].1.deep_copy()
                } else {
                    strict_value(&entries[i].1)
                };
                proof {
                    let pre = entries@.subrange(0, i as int);
                    let x = entries@[i as int];
                    assert(entries@.subrange(0, i + 1) =~= pre.push(x));
                    lemma_entries_view_push(pre, x);
                    lemma_strict_entries_push(json_entries_view(pre), (x.0@, json_view(x.1)));
                    lemma_entries_view_push(out@, (key, value));
                }
                out.push((key, value));
                i += 1;
            }
            proof {
                assert(entries@.subrange(0, n as int) =~= entries@);
            }
            if declares && !present {
                let extra = ("additionalProperties".to_string(), JsonValue::Bool(false));
                proof {
                    lemma_entries_view_push(out@, extra);
                }
                out.push(extra);
            }
            JsonValue::Object(out)
        },
        JsonValue::Null => JsonValue::Null,
        JsonValue::Bool(b) => JsonValue::Bool(*b),
        JsonValue::Number(t) => JsonValue::Number(t.clone()),
        JsonValue::String(t) => JsonValue::String(t.clone()),
    }
}

impl JsonValue {
    /// A copy of the value.
    pub fn deep_copy(&self) -> (r: JsonValue)
        ensures
            json_view(r) == json_view(*self),
        decreases self,
    {
        match self {
            JsonValue::Array(items) => {
                let n = items.len();
                let mut out: Vec<JsonValue> = Vec::new();
                let mut i: usize = 0;
                while i < n
                    invariant
                        n == items@.len(),
                        i <= n,
                        *self == JsonValue::Array(*items),
                        json_items_view(out@) == json_items_view(items@.subrange(0, i as int)),
                    decreases n - i,
                {
                    proof {
                        assert(decreases_to!(*self => (*self)->Array_0));
                        assert(decreases_to!(*items => items@));
                        assert(decreases_to!(items@ => items@[i as int]));
                    }
                    let y = items[i].deep_copy();
                    proof {
                        let pre = items@.subrange(0, i as int);
                        assert(items@.subrange(0, i + 1) =~= pre.push(items@[i as int]));
                        lemma_items_view_push(pre, items@[i as int]);
                        lemma_items_view_push(out@, y);
                    }
                    out.push(y);
                    i += 1;
                }
                proof {
                    assert(items@.subrange(0, n as int) =~= items@);
                }
                JsonValue::Array(out)
            },
            JsonValue::Object(entries) => {
                let n = entries.len();
                let mut out: Vec<(String, JsonValue)> = Vec::new();
                let mut i: usize = 0;
                while i < n
                    invariant
                        n == entries@.len(),
                        i <= n,
                        *self == JsonValue::Object(*entries),
                        json_entries_view(out@) == json_entries_view(entries@.subrange(0, i as int)),
                    decreases n - i,
                {
                    proof {
                        assert(decreases_to!(*self => (*self)->Object_0));
                        assert(decreases_to!(*entries => entries@));
                        assert(decreases_to!(entries@ => entries@[i as int]));
                        assert(decreases_to!(entries@[i as int] => entries@[i as int].1));
                    }
                    let key = entries[i].0.clone();
                    let value = entries[i].1.deep_copy();
                    proof {
                        let pre = entries@.subrange(0, i as int);
                        let x = entries@[i as int];
                        assert(entries@.subrange(0, i + 1) =~= pre.push(x));
                        lemma_entries_view_push(pre, x);
                        lemma_entries_view_push(out@, (key, value));
                    }
                    out.push((key, value));
                    i += 1;
                }
                proof {
                    assert(entries@.subrange(0, n as int) =~= entries@);
                }
                JsonValue::Object(out)
            },
            JsonValue::Null => JsonValue::Null,
            JsonValue::Bool(b) => JsonValue::Bool(*b),
            JsonValue::Number(t) => JsonValue::Number(t.clone()),
            JsonValue::String(t) => JsonValue::String(t.clone()),
        }
    }
}

/// Transform a schema so that every object type rejects unknown fields:
/// `additionalProperties: false` is added where not already present.
pub fn make_schema_strict(schema: &mut JsonValue)
    ensures
        json_view(*final(schema)) == spec_strict(json_view(*old(schema))),
{
    let r = strict_value(schema);
    *schema = r;
}

} // verus!
