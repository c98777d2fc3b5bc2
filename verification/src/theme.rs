//! Color themes: the built-in themes and lookup by name.

use vstd::prelude::*;
use crate::text_util::{to_lowercase, replace_char_exec, replace_char, std_to_lowercase};
use crate::draw::Color;

verus! {

/// A color theme: its name and the colours it gives to syntax categories
/// (the other colours are theme slots that the drawing side resolves).
#[derive(Debug, Clone)]
pub struct Theme {
    pub name: String,
    pub syntax_keyword: Color,
    pub syntax_string: Color,
    pub syntax_comment: Color,
    pub syntax_function: Color,
    pub syntax_type: Color,
    pub syntax_variable: Color,
    pub syntax_constant: Color,
    pub syntax_operator: Color,
}

/// The syntax colours of a theme: keyword, string, comment, function, type,
/// variable, constant, operator.
pub open spec fn syntax_palette(t: Theme) -> Seq<Color> {
    seq![t.syntax_keyword, t.syntax_string, t.syntax_comment, t.syntax_function, t.syntax_type,
        t.syntax_variable, t.syntax_constant, t.syntax_operator]
}

/// The syntax colours of the built-in theme called `name` (the dark theme's for
/// any other name). Storage types (`fn`, `let`, `struct`) share the keyword colour.
pub open spec fn builtin_palette(name: Seq<char>) -> Seq<Color> {
    if name == "light"@ {
        seq![Color::Rgb(0, 0, 255), Color::Rgb(163, 21, 21), Color::Rgb(0, 128, 0), Color::Rgb(121, 94, 38),
            Color::Rgb(0, 0, 255), Color::Rgb(0, 16, 128), Color::Rgb(9, 134, 88), Color::Rgb(0, 0, 0)]
    } else if name == "high-contrast"@ {
        seq![Color::Rgb(86, 156, 214), Color::Rgb(255, 255, 0), Color::Rgb(124, 166, 104), Color::Rgb(255, 255, 255),
            Color::Rgb(86, 156, 214), Color::Rgb(156, 220, 254), Color::Rgb(181, 206, 168), Color::Rgb(255, 255, 255)]
    } else if name == "nostalgia"@ {
        seq![Color::Rgb(255, 255, 85), Color::Rgb(85, 255, 255), Color::Rgb(170, 170, 170), Color::Rgb(255, 255, 255),
            Color::Rgb(255, 255, 85), Color::Rgb(255, 255, 255), Color::Rgb(255, 85, 255), Color::Rgb(255, 255, 255)]
    } else {
        seq![Color::Rgb(86, 156, 214), Color::Rgb(206, 145, 120), Color::Rgb(106, 153, 85), Color::Rgb(220, 220, 170),
            Color::Rgb(86, 156, 214), Color::Rgb(156, 220, 254), Color::Rgb(181, 206, 168), Color::Rgb(212, 212, 212)]
    }
}

/// A theme built in: its name and that name's palette.
pub open spec fn is_builtin(t: Theme, name: Seq<char>) -> bool {
    t.name@ == name && syntax_palette(t) == builtin_palette(name)
}

/// The name of the built-in theme that `name` selects: itself when it is one of
/// them, else the dark theme.
pub open spec fn embedded_theme_name(name: Seq<char>) -> Seq<char> {
    if name == "light"@ || name == "high-contrast"@ || name == "nostalgia"@ {
        name
    } else {
        "dark"@
    }
}

/// The name under which a theme is looked up: lowercased, `_` read as `-`.
pub open spec fn normalized_theme_name(name: Seq<char>) -> Seq<char> {
    replace_char(std_to_lowercase(name), '_', '-')
}

/// The built-in theme names, in order.
pub open spec fn spec_embedded_themes() -> Seq<Seq<char>> {
    seq!["dark"@, "light"@, "high-contrast"@, "nostalgia"@]
}

impl Default for Theme {
    /// The dark theme.
    fn default() -> (r: Self)
        ensures
            is_builtin(r, "dark"@),
    {
        Theme::dark()
    }
}

/// Whether two strings hold the same characters.
fn same_text(a: &String, b: &str) -> (r: bool)
    ensures
        r == (a@ == b@),
{
    *a == b.to_string()
}

impl Theme {
    fn with_palette(name: &str, p: [(u8, u8, u8); 8]) -> (r: Self)
        ensures
            r.name@ == name@,
            syntax_palette(r) == seq![p[0], p[1], p[2], p[3], p[4], p[5], p[6], p[7]].map_values(
                |c: (u8, u8, u8)| Color::Rgb(c.0, c.1, c.2)),
    {
        let r = Theme {
            name: name.to_string(),
            syntax_keyword: Color::Rgb(p[0].0, p[0].1, p[0].2),
            syntax_string: Color::Rgb(p[1].0, p[1].1, p[1].2),
            syntax_comment: Color::Rgb(p[2].0, p[2].1, p[2].2),
            syntax_function: Color::Rgb(p[3].0, p[3].1, p[3].2),
            syntax_type: Color::Rgb(p[4].0, p[4].1, p[4].2),
            syntax_variable: Color::Rgb(p[5].0, p[5].1, p[5].2),
            syntax_constant: Color::Rgb(p[6].0, p[6].1, p[6].2),
            syntax_operator: Color::Rgb(p[7].0, p[7].1, p[7].2),
        };
        proof {
            assert(syntax_palette(r) =~= seq![p[0], p[1], p[2], p[3], p[4], p[5], p[6], p[7]].map_values(
                |c: (u8, u8, u8)| Color::Rgb(c.0, c.1, c.2)));
        }
        r
    }

    /// The dark theme
    pub fn dark() -> (r: Self)
        ensures
            is_builtin(r, "dark"@),
    {
        let r = Self::with_palette("dark", [(86, 156, 214), (206, 145, 120), (106, 153, 85), (220, 220, 170), (86, 156, 214), (156, 220, 254), (181, 206, 168), (212, 212, 212)]);
        proof {
            reveal_strlit("dark");
            reveal_strlit("dark");
            reveal_strlit("light");
            reveal_strlit("high-contrast");
            reveal_strlit("nostalgia");
            assert("dark"@[0] != "high-contrast"@[0]);
            assert("dark"@[0] != "nostalgia"@[0]);
            assert("dark"@[0] != "light"@[0]);
            assert(syntax_palette(r) =~= builtin_palette("dark"@));
        }
        r
    }

    /// The light theme
    pub fn light() -> (r: Self)
        ensures
            is_builtin(r, "light"@),
    {
        let r = Self::with_palette("light", [(0, 0, 255), (163, 21, 21), (0, 128, 0), (121, 94, 38), (0, 0, 255), (0, 16, 128), (9, 134, 88), (0, 0, 0)]);
        proof {
            reveal_strlit("light");
            reveal_strlit("dark");
            reveal_strlit("light");
            reveal_strlit("high-contrast");
            reveal_strlit("nostalgia");
            assert("light"@[0] != "dark"@[0]);
            assert("light"@[0] != "high-contrast"@[0]);
            assert("light"@[0] != "nostalgia"@[0]);
            assert(syntax_palette(r) =~= builtin_palette("light"@));
        }
        r
    }

    /// The high-contrast theme
    pub fn high_contrast() -> (r: Self)
        ensures
            is_builtin(r, "high-contrast"@),
    {
        let r = Self::with_palette("high-contrast", [(86, 156, 214), (255, 255, 0), (124, 166, 104), (255, 255, 255), (86, 156, 214), (156, 220, 254), (181, 206, 168), (255, 255, 255)]);
        proof {
            reveal_strlit("high-contrast");
            reveal_strlit("dark");
            reveal_strlit("light");
            reveal_strlit("high-contrast");
            reveal_strlit("nostalgia");
            assert("high-contrast"@[0] != "dark"@[0]);
            assert("high-contrast"@[0] != "nostalgia"@[0]);
            assert("high-contrast"@[0] != "light"@[0]);
            assert(syntax_palette(r) =~= builtin_palette("high-contrast"@));
        }
        r
    }

    /// The nostalgia theme
    pub fn nostalgia() -> (r: Self)
        ensures
            is_builtin(r, "nostalgia"@),
    {
        let r = Self::with_palette("nostalgia", [(255, 255, 85), (85, 255, 255), (170, 170, 170), (255, 255, 255), (255, 255, 85), (255, 255, 255), (255, 85, 255), (255, 255, 255)]);
        proof {
            reveal_strlit("nostalgia");
            reveal_strlit("dark");
            reveal_strlit("light");
            reveal_strlit("high-contrast");
            reveal_strlit("nostalgia");
            assert("nostalgia"@[0] != "dark"@[0]);
            assert("nostalgia"@[0] != "high-contrast"@[0]);
            assert("nostalgia"@[0] != "light"@[0]);
            assert(syntax_palette(r) =~= builtin_palette("nostalgia"@));
        }
        r
    }

    /// A built-in theme by (normalized) name, the dark theme for any other name.
    pub fn from_name_embedded(name: &str) -> (r: Self)
        ensures
            is_builtin(r, embedded_theme_name(name@)),
    {
        let n = name.to_string();
        if same_text(&n, "light") {
            Self::light()
        } else if same_text(&n, "high-contrast") {
            Self::high_contrast()
        } else if same_text(&n, "nostalgia") {
            Self::nostalgia()
        } else {
            Self::dark()
        }
    }

    /// Names of the built-in themes.
    pub fn embedded_themes() -> (r: Vec<String>)
        ensures
            r@.map_values(|s: String| s@) == spec_embedded_themes(),
    {
        let mut v: Vec<String> = Vec::new();
        v.push("dark".to_string());
        v.push("light".to_string());
        v.push("high-contrast".to_string());
        v.push("nostalgia".to_string());
        proof {
            assert(v@.map_values(|s: String| s@) =~= spec_embedded_themes());
        }
        v
    }

    /// Get a theme by name (case-insensitive, `_` read as `-`), defaults to dark
    /// if not found
    pub fn from_name(name: &str) -> (r: Self)
        ensures
            is_builtin(r, embedded_theme_name(normalized_theme_name(name@))),
    {
        let lower = to_lowercase(name);
        let normalized = replace_char_exec(lower.as_str(), '_', '-');
        Self::from_name_embedded(normalized.as_str())
    }

    /// The name a theme is looked up under, in theme files and among the
    /// built-in themes: lowercased, `_` read as `-`.
    pub fn lookup_name(name: &str) -> (r: String)
        ensures
            r@ == normalized_theme_name(name@),
    {
        let lower = to_lowercase(name);
        replace_char_exec(lower.as_str(), '_', '-')
    }

    /// A theme by name where a theme file may have been found for it: the
    /// file's theme first, else the built-in theme (the dark one for unknown names).
    pub fn from_name_or_file(name: &str, file_theme: Option<Theme>) -> (r: Self)
        ensures
            match file_theme {
                Some(t) => r == t,
                None => is_builtin(r, embedded_theme_name(normalized_theme_name(name@))),
            },
    {
        match file_theme {
            Some(t) => t,
            None => Self::from_name(name),
        }
    }

    /// Get all available theme names (the built-in ones)
    pub fn available_themes() -> (r: Vec<String>)
        ensures
            r@.map_values(|s: String| s@) == spec_embedded_themes(),
    {
        Self::embedded_themes()
    }
}

/// `names` with each of `found` added in order, unless it is already there.
pub open spec fn with_new_names(names: Seq<Seq<char>>, found: Seq<Seq<char>>) -> Seq<Seq<char>>
    decreases found.len(),
{
    if found.len() == 0 {
        names
    } else {
        let before = with_new_names(names, found.drop_last());
        if before.contains(found.last()) { before } else { before.push(found.last()) }
    }
}

/// No name occurs twice.
pub open spec fn names_distinct(names: Seq<Seq<char>>) -> bool {
    forall|i: int, j: int| 0 <= i < j < names.len() ==> names[i] != names[j]
}

fn contains_name(names: &Vec<String>, name: &String) -> (r: bool)
    ensures
        r == names@.map_values(|s: String| s@).contains(name@),
{
    let ghost v = names@.map_values(|s: String| s@);
    let n = names.len();
    let mut i: usize = 0;
    while i < n
        invariant
            n == names@.len(),
            v == names@.map_values(|s: String| s@),
            i <= n,
            forall|j: int| 0 <= j < i ==> v[j] != name@,
        decreases n - i,
    {
        if names[i] == *name {
            proof {
                assert(v[i as int] == name@);
            }
            return true;
        }
        i += 1;
    }
    false
}

/// Add the theme names found on disk to `themes`, each once: a name already
/// listed (a built-in theme, or one found before) is not listed again.
pub fn add_theme_names(themes: &mut Vec<String>, found: Vec<String>)
    ensures
        final(themes)@.map_values(|s: String| s@)
            == with_new_names(old(themes)@.map_values(|s: String| s@), found@.map_values(|s: String| s@)),
{
    let ghost base = themes@.map_values(|s: String| s@);
    let ghost f = found@.map_values(|s: String| s@);
    let n = found.len();
    let mut i: usize = 0;
    while i < n
        invariant
            n == found@.len(),
            f == found@.map_values(|s: String| s@),
            i <= n,
            themes@.map_values(|s: String| s@) == with_new_names(base, f.take(i as int)),
        decreases n - i,
    {
        proof {
            assert(f.take(i + 1).drop_last() =~= f.take(i as int));
            assert(f.take(i + 1).last() == found@[i as int]@);
        }
        let name = &found[i];
        if !contains_name(themes, name) {
            let ghost before = themes@.map_values(|s: String| s@);
            themes.push(name.clone());
            proof {
                assert(themes@.map_values(|s: String| s@) =~= before.push(name@));
            }
        }
        i += 1;
    }
    proof {
        assert(f.take(n as int) =~= f);
    }
}

/// Adding found names keeps a list without duplicates free of them, keeps
/// every name listed before, and lists every name found.
pub proof fn law_theme_names_once(names: Seq<Seq<char>>, found: Seq<Seq<char>>)
    requires
        names_distinct(names),
    ensures
        names_distinct(with_new_names(names, found)),
        with_new_names(names, found).len() >= names.len(),
        forall|i: int| 0 <= i < names.len() ==> with_new_names(names, found)[i] == names[i],
        forall|i: int| 0 <= i < found.len() ==> with_new_names(names, found).contains(#[trigger] found[i]),
    decreases found.len(),
{
    if found.len() > 0 {
        let init = found.drop_last();
        law_theme_names_once(names, init);
        let before = with_new_names(names, init);
        if !before.contains(found.last()) {
            let after = before.push(found.last());
            assert forall|i: int| 0 <= i < names.len() implies after[i] == names[i] by {
                assert(after[i] == before[i]);
            }
            assert forall|a: int, b: int| 0 <= a < b < after.len() implies after[a] != after[b] by {
                if b == before.len() {
                    assert(before[a] == after[a]);
                }
            }
        }
        assert forall|i: int| 0 <= i < found.len() implies with_new_names(names, found).contains(#[trigger] found[i]) by {
            if i < found.len() - 1 {
                assert(init[i] == found[i]);
                assert(before.contains(init[i]));
                let k = choose|k: int| 0 <= k < before.len() && before[k] == init[i];
                if !before.contains(found.last()) {
                    assert(before.push(found.last())[k] == found[i]);
                }
            } else if !before.contains(found.last()) {
                assert(before.push(found.last())[before.len() as int] == found.last());
            }
        }
    }
}

} // verus!
