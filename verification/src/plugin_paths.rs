//! What the plugin runtime knows of a loaded plugin, and the path helpers it
//! offers to plugins: joining, directory name, base name, extension and
//! absoluteness, on paths written as strings.

use vstd::prelude::*;
use crate::fs_backend::{
    path_extension, path_file_name, path_is_absolute, path_join, path_parent, std_path_extension,
    std_path_file_name, std_path_is_absolute, std_path_join, std_path_parent,
};
use crate::text_util::{push_chars, str_chars, string_from_chars};

verus! {

/// Information about a loaded plugin
#[derive(Debug, Clone)]
pub struct TsPluginInfo {
    pub name: String,
    pub path: String,
    pub enabled: bool,
}

/// The path built from `parts` in order: each absolute part starts over,
/// each other part is joined on.
pub open spec fn spec_join_parts(parts: Seq<Seq<char>>) -> Seq<char>
    decreases parts.len(),
{
    if parts.len() == 0 {
        Seq::empty()
    } else {
        let acc = spec_join_parts(parts.drop_last());
        if std_path_is_absolute(parts.last()) { parts.last() } else { std_path_join(acc, parts.last()) }
    }
}

/// Join path parts; an absolute part replaces what came before it.
pub fn path_join_parts(parts: &Vec<String>) -> (r: String)
    ensures
        r@ == spec_join_parts(parts@.map_values(|p: String| p@)),
{
    let ghost ps = parts@.map_values(|p: String| p@);
    let mut acc = String::new();
    let n = parts.len();
    let mut i: usize = 0;
    proof {
        assert(ps.take(0) =~= Seq::<Seq<char>>::empty());
    }
    while i < n
        invariant
            n == parts@.len(),
            ps == parts@.map_values(|p: String| p@),
            i <= n,
            acc@ == spec_join_parts(ps.take(i as int)),
        decreases n - i,
    {
        proof {
            assert(ps.take(i + 1).drop_last() =~= ps.take(i as int));
            assert(ps.take(i + 1).last() == parts@[i as int]@);
        }
        let part = parts[i].as_str();
        if path_is_absolute(part) {
            let cs = str_chars(part);
            acc = string_from_chars(&cs);
        } else {
            acc = path_join(acc.as_str(), part);
        }
        i += 1;
    }
    proof {
        assert(ps.take(n as int) =~= ps);
    }
    acc
}

/// The directory part of a path (its parent), empty when it has none.
pub fn path_dirname(path: &str) -> (r: String)
    ensures
        r@ == match std_path_parent(path@) {
            Some(p) => p,
            None => Seq::empty(),
        },
{
    match path_parent(path) {
        Some(p) => p,
        None => String::new(),
    }
}

/// The last component of a path, empty when it has none.
pub fn path_basename(path: &str) -> (r: String)
    ensures
        r@ == match std_path_file_name(path@) {
            Some(n) => n,
            None => Seq::empty(),
        },
{
    match path_file_name(path) {
        Some(n) => n,
        None => String::new(),
    }
}

/// The extension of a path with its dot, empty when it has none.
pub fn path_extname(path: &str) -> (r: String)
    ensures
        r@ == match std_path_extension(path@) {
            Some(e) => seq!['.'] + e,
            None => Seq::empty(),
        },
{
    match path_extension(path) {
        Some(e) => {
            let mut out: Vec<char> = Vec::new();
            out.push('.');
            let ec = str_chars(e.as_str());
            push_chars(&mut out, &ec);
            string_from_chars(&out)
        },
        None => String::new(),
    }
}

/// Whether a path is absolute.
pub fn path_is_absolute_str(path: &str) -> (r: bool)
    ensures
        r == std_path_is_absolute(path@),
{
    path_is_absolute(path)
}

} // verus!
