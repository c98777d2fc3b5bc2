//! Plugin sources: detecting ES module syntax, and resolving local imports to
//! files.

use vstd::prelude::*;
use crate::text_util::{contains_chars, contains_seq, has_prefix, lines_from, starts_with_chars, str_chars, str_lines, push_str, string_from_chars};
use crate::fs_backend::{path_join, std_path_join};
use crate::filesystem::{path_with_extension, std_path_with_extension};

verus! {

/// Whether `c` has the Unicode White_Space property (what `char::is_whitespace` tests).
pub open spec fn is_white_space(c: char) -> bool {
    let n = c as int;
    ||| 0x9 <= n <= 0xd
    ||| n == 0x20 || n == 0x85 || n == 0xa0 || n == 0x1680
    ||| 0x2000 <= n <= 0x200a
    ||| n == 0x2028 || n == 0x2029 || n == 0x202f || n == 0x205f || n == 0x3000
}

/// The number of white-space characters `s` starts with.
pub open spec fn leading_space(s: Seq<char>) -> nat
    decreases s.len(),
{
    if s.len() > 0 && is_white_space(s[0]) { 1 + leading_space(s.drop_first()) } else { 0 }
}

/// The number of white-space characters `s` ends with.
pub open spec fn trailing_space(s: Seq<char>) -> nat
    decreases s.len(),
{
    if s.len() > 0 && is_white_space(s.last()) { 1 + trailing_space(s.drop_last()) } else { 0 }
}

/// `s` with leading and trailing white space removed, as `str::trim` gives it.
pub open spec fn spec_trim(s: Seq<char>) -> Seq<char> {
    if leading_space(s) >= s.len() {
        Seq::empty()
    } else {
        s.subrange(leading_space(s) as int, s.len() - trailing_space(s))
    }
}

fn white_space(c: char) -> (r: bool)
    ensures
        r == is_white_space(c),
{
    let n = c as u32;
    (0x9 <= n && n <= 0xd) || n == 0x20 || n == 0x85 || n == 0xa0 || n == 0x1680
        || (0x2000 <= n && n <= 0x200a) || n == 0x2028 || n == 0x2029 || n == 0x202f || n == 0x205f
        || n == 0x3000
}

proof fn lemma_leading_space(s: Seq<char>, i: int)
    requires
        0 <= i <= s.len(),
        forall|k: int| 0 <= k < i ==> is_white_space(s[k]),
        i == s.len() || !is_white_space(s[i]),
    ensures
        leading_space(s) == i,
    decreases i,
{
    if i > 0 {
        let t = s.drop_first();
        assert forall|k: int| 0 <= k < i - 1 implies is_white_space(t[k]) by {
            assert(t[k] == s[k + 1]);
        }
        if i < s.len() {
            assert(t[i - 1] == s[i]);
        }
        lemma_leading_space(t, i - 1);
    }
}

proof fn lemma_trailing_space(s: Seq<char>, i: int)
    requires
        0 <= i <= s.len(),
        forall|k: int| s.len() - i <= k < s.len() ==> is_white_space(s[k]),
        i == s.len() || !is_white_space(s[s.len() - 1 - i]),
    ensures
        trailing_space(s) == i,
    decreases i,
{
    if i > 0 {
        let t = s.drop_last();
        assert forall|k: int| t.len() - (i - 1) <= k < t.len() implies is_white_space(t[k]) by {
            assert(t[k] == s[k]);
        }
        if i < s.len() {
            assert(t[t.len() - 1 - (i - 1)] == s[s.len() - 1 - i]);
        }
        lemma_trailing_space(t, i - 1);
    }
}

/// `str::trim`, written out: leading and trailing white space removed.
pub(crate) fn trim(s: &str) -> (r: String)
    ensures
        r@ == spec_trim(s@),
{
    let chars = str_chars(s);
    let n = chars.len();
    let mut a: usize = 0;
    while a < n && white_space(chars[a])
        invariant
            n == chars@.len(),
            a <= n,
            forall|k: int| 0 <= k < a ==> is_white_space(chars@[k]),
        decreases n - a,
    {
        a += 1;
    }
    proof {
        lemma_leading_space(chars@, a as int);
    }
    if a == n {
        return String::new();
    }
    let mut b: usize = n;
    while b > a && white_space(chars[b - 1])
        invariant
            n == chars@.len(),
            a < n,
            a <= b <= n,
            !is_white_space(chars@[a as int]),
            forall|k: int| b <= k < n ==> is_white_space(chars@[k]),
        decreases b,
    {
        b -= 1;
    }
    proof {
        // The first non-space character stops the scan from the end.
        assert(b > a);
        lemma_trailing_space(chars@, (n - b) as int);
    }
    let mut out: Vec<char> = Vec::new();
    let mut i = a;
    while i < b
        invariant
            n == chars@.len(),
            a <= i <= b <= n,
            out@ == chars@.subrange(a as int, i as int),
        decreases b - i,
    {
        out.push(chars[i]);
        i += 1;
        proof {
            assert(out@ =~= chars@.subrange(a as int, i as int));
        }
    }
    string_from_chars(&out)
}

/// The source mentions both `import ` and ` from `.
pub open spec fn spec_has_es_imports(source: Seq<char>) -> bool {
    contains_seq(source, "import "@) && contains_seq(source, " from "@)
}

/// Some line of the source, trimmed, starts with `export `.
pub open spec fn spec_has_exports(source: Seq<char>) -> bool {
    exists|i: int| 0 <= i < lines_from(source, 0).len() && has_prefix(spec_trim(#[trigger] lines_from(source, 0)[i]), "export "@)
}

/// Check if source contains ES module imports (import ... from ...)
pub fn has_es_imports(source: &str) -> (r: bool)
    ensures
        r == spec_has_es_imports(source@),
{
    let chars = str_chars(source);
    contains_chars(&chars, "import ") && contains_chars(&chars, " from ")
}

/// Check if source contains ES module syntax (imports or exports); such code
/// needs bundling before it can be evaluated.
pub fn has_es_module_syntax(source: &str) -> (r: bool)
    ensures
        r == (spec_has_es_imports(source@) || spec_has_exports(source@)),
{
    let has_imports = has_es_imports(source);
    let lines = str_lines(source);
    let ghost ls = lines_from(source@, 0);
    let n = lines.len();
    let mut has_exports = false;
    let mut i: usize = 0;
    while i < n
        invariant
            lines@.map_values(|x: String| x@) == ls,
            n == lines@.len(),
            i <= n,
            has_exports == exists|j: int| 0 <= j < i && has_prefix(spec_trim(#[trigger] ls[j]), "export "@),
        decreases n - i,
    {
        let t = trim(lines[i].as_str());
        let tc = str_chars(t.as_str());
        proof {
            assert(ls[i as int] == lines@[i as int]@);
        }
        if starts_with_chars(&tc, "export ") {
            has_exports = true;
        }
        i += 1;
    }
    has_imports || has_exports
}

/// An import path that is local to the plugin: it starts with `./` or `../`.
pub fn is_local_import(path: &str) -> (r: bool)
    ensures
        r == (has_prefix(path@, "./"@) || has_prefix(path@, "../"@)),
{
    let chars = str_chars(path);
    starts_with_chars(&chars, "./") || starts_with_chars(&chars, "../")
}


/// The paths tried for an import from a file in `parent_dir`, in order: the
/// joined path itself, with extension `ts`, with extension `js`, then its
/// `index.ts` and its `index.js`.
pub open spec fn import_candidate_paths(import_path: Seq<char>, parent_dir: Seq<char>) -> Seq<Seq<char>> {
    let base = std_path_join(parent_dir, import_path);
    seq![
        base,
        std_path_with_extension(base, "ts"@),
        std_path_with_extension(base, "js"@),
        std_path_join(base, "index.ts"@),
        std_path_join(base, "index.js"@),
    ]
}

/// The error of an import that resolves to no file.
pub open spec fn unresolved_import_message(import_path: Seq<char>, parent_dir: Seq<char>) -> Seq<char> {
    "Cannot resolve import '"@ + import_path + "' from "@ + parent_dir
}

/// The candidate paths of an import, as `import_candidate_paths` lists them.
pub fn import_candidates(import_path: &str, parent_dir: &str) -> (r: Vec<String>)
    ensures
        r@.map_values(|s: String| s@) == import_candidate_paths(import_path@, parent_dir@),
{
    proof {
        reveal_strlit("ts");
        reveal_strlit("js");
        reveal_strlit("index.ts");
        reveal_strlit("index.js");
    }
    let base = path_join(parent_dir, import_path);
    proof {
        reveal_strlit("ts");
        reveal_strlit("js");
    }
    let with_ts = path_with_extension(base.as_str(), "ts");
    let with_js = path_with_extension(base.as_str(), "js");
    let index_ts = path_join(base.as_str(), "index.ts");
    let index_js = path_join(base.as_str(), "index.js");
    let mut v: Vec<String> = Vec::new();
    v.push(base);
    v.push(with_ts);
    v.push(with_js);
    v.push(index_ts);
    v.push(index_js);
    proof {
        assert(v@.map_values(|s: String| s@) =~= import_candidate_paths(import_path@, parent_dir@));
    }
    v
}

/// Resolve an import path relative to the importing file's directory: the
/// first candidate path for which `file_exists` answers true, or an error.
pub fn resolve_import<F: Fn(&String) -> bool>(import_path: &str, parent_dir: &str, file_exists: F) -> (r: Result<String, String>)
    requires
        forall|s: &String| #[trigger] file_exists.requires((s,)),
    ensures
        match r {
            Ok(p) => exists|k: int| 0 <= k < 5 && p@ == #[trigger] import_candidate_paths(import_path@, parent_dir@)[k],
            Err(msg) => msg@ == unresolved_import_message(import_path@, parent_dir@),
        },
{
    let candidates = import_candidates(import_path, parent_dir);
    proof {
        assert(candidates@.map_values(|s: String| s@).len() == 5);
    }
    let n = candidates.len();
    let mut i: usize = 0;
    while i < n
        invariant
            n == candidates@.len(),
            n == 5,
            i <= n,
            candidates@.map_values(|s: String| s@) == import_candidate_paths(import_path@, parent_dir@),
            forall|s: &String| #[trigger] file_exists.requires((s,)),
        decreases n - i,
    {
        if file_exists(&candidates[i]) {
            proof {
                assert(candidates@.map_values(|s: String| s@)[i as int] == candidates@[i as int]@);
            }
            return Ok(candidates[i].clone());
        }
        i += 1;
    }
    let mut msg: Vec<char> = Vec::new();
    push_str(&mut msg, "Cannot resolve import '");
    push_str(&mut msg, import_path);
    push_str(&mut msg, "' from ");
    push_str(&mut msg, parent_dir);
    proof {
        assert(msg@ =~= unresolved_import_message(import_path@, parent_dir@));
    }
    Err(string_from_chars(&msg))
}
} // verus!
