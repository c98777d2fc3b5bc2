//! The plugin API: the methods available to TypeScript plugins, and the
//! TypeScript definitions and JavaScript method list derived from them.

use vstd::prelude::*;
use crate::api_macros::{
    MethodDecl, MethodDeclView, TypeModel, TypeView, type_view, opt_type_view, params_view, decl_view,
    parse_methods, typescript_definitions, js_method_names, js_async_wrappers, spec_parse_decls,
    spec_typescript_definitions, spec_js_async_wrappers, ApiMethodView, lemma_parse_methods_view,
};

verus! {

/// Marker type for async methods that return `Promise<T>` in JavaScript.
pub struct Promise<T>(pub std::marker::PhantomData<T>);

/// Marker type for async methods that return a cancellable thenable in JavaScript.
pub struct Thenable<T>(pub std::marker::PhantomData<T>);

/// A path type with the given name and first type argument.
pub open spec fn tpath(name: Seq<char>, inner: Option<TypeView>) -> TypeView {
    TypeView::Path(name, match inner {
        Some(t) => Some(Box::new(t)),
        None => None,
    })
}

/// A declaration with one doc line.
pub open spec fn decl(name: Seq<char>, doc: Seq<char>, attrs: Seq<Seq<char>>, params: Seq<(Seq<char>, TypeView)>,
    output: Option<TypeView>) -> MethodDeclView {
    MethodDeclView { name, docs: seq![doc], api_attrs: attrs, params, output }
}

/// A path type with the given name and first type argument.
fn ty_path(name: &str, inner: Option<TypeModel>) -> (r: TypeModel)
    ensures
        type_view(r) == tpath(name@, opt_type_view(inner)),
{
    match inner {
        Some(t) => TypeModel::Path(name.to_string(), Some(Box::new(t))),
        None => TypeModel::Path(name.to_string(), None),
    }
}

/// A named parameter.
fn param(name: &str, ty: TypeModel) -> (r: (String, TypeModel))
    ensures
        r.0@ == name@,
        r.1 == ty,
{
    (name.to_string(), ty)
}

/// Append a declaration with one doc line and at most one `api` attribute.
fn push_decl(methods: &mut Vec<MethodDecl>, name: &str, doc: &str, attr: Option<&str>,
    params: Vec<(String, TypeModel)>, output: Option<TypeModel>)
    ensures
        final(methods)@.map_values(|d: MethodDecl| decl_view(d)) == old(methods)@.map_values(
            |d: MethodDecl| decl_view(d)).push(decl(name@, doc@, match attr {
                Some(a) => seq![a@],
                None => Seq::empty(),
            }, params_view(params@), opt_type_view(output))),
{
    let ghost before = methods@.map_values(|d: MethodDecl| decl_view(d));
    let ghost expected = decl(name@, doc@, match attr {
        Some(a) => seq![a@],
        None => Seq::empty(),
    }, params_view(params@), opt_type_view(output));
    let mut docs: Vec<String> = Vec::new();
    docs.push(doc.to_string());
    let mut api_attrs: Vec<String> = Vec::new();
    match attr {
        Some(a) => api_attrs.push(a.to_string()),
        None => {},
    }
    let d = MethodDecl { name: name.to_string(), docs, api_attrs, params, output };
    proof {
        assert(decl_view(d).docs =~= seq![doc@]);
        assert(decl_view(d).api_attrs =~= expected.api_attrs);
        assert(decl_view(d) =~= expected);
    }
    methods.push(d);
    proof {
        assert(methods@.map_values(|d: MethodDecl| decl_view(d)) =~= before.push(expected));
    }
}


/// Declarations 1 to 8 of the editor API.
pub open spec fn api_decls_1() -> Seq<MethodDeclView> {
    seq![
        decl("set_status"@, " Display a transient message in the editor's status bar"@, Seq::empty(),
            seq![("message"@, tpath("String"@, None))],
            None),
        decl("debug"@, " Log a debug message (appears in log file with RUST_LOG=debug)"@, Seq::empty(),
            seq![("message"@, tpath("String"@, None))],
            None),
        decl("error"@, " Log an error message"@, Seq::empty(),
            seq![("message"@, tpath("String"@, None))],
            None),
        decl("warn"@, " Log a warning message"@, Seq::empty(),
            seq![("message"@, tpath("String"@, None))],
            None),
        decl("info"@, " Log an info message"@, Seq::empty(),
            seq![("message"@, tpath("String"@, None))],
            None),
        decl("get_active_buffer_id"@, " Get the active buffer ID (0 if none)"@, Seq::empty(),
            Seq::empty(),
            Some(tpath("u32"@, None))),
        decl("get_active_split_id"@, " Get the active split ID"@, Seq::empty(),
            Seq::empty(),
            Some(tpath("u32"@, None))),
        decl("get_cursor_position"@, " Get cursor byte position in active buffer"@, Seq::empty(),
            Seq::empty(),
            Some(tpath("u32"@, None))),
    ]
}

fn method_decls_1(methods: &mut Vec<MethodDecl>)
    ensures
        final(methods)@.map_values(|d: MethodDecl| decl_view(d)) == old(methods)@.map_values(
            |d: MethodDecl| decl_view(d)) + api_decls_1(),
{
    let ghost start = methods@.map_values(|d: MethodDecl| decl_view(d));
    let ps = vec![param("message", ty_path("String", None))];
    let out: Option<TypeModel> = None;
    proof {
        assert(params_view(ps@) =~~= seq![("message"@, tpath("String"@, None))]);
        assert(opt_type_view(out) == None::<TypeView>);
    }
    push_decl(methods, "set_status", " Display a transient message in the editor's status bar", None, ps, out);
    let ps = vec![param("message", ty_path("String", None))];
    let out: Option<TypeModel> = None;
    proof {
        assert(params_view(ps@) =~~= seq![("message"@, tpath("String"@, None))]);
        assert(opt_type_view(out) == None::<TypeView>);
    }
    push_decl(methods, "debug", " Log a debug message (appears in log file with RUST_LOG=debug)", None, ps, out);
    let ps = vec![param("message", ty_path("String", None))];
    let out: Option<TypeModel> = None;
    proof {
        assert(params_view(ps@) =~~= seq![("message"@, tpath("String"@, None))]);
        assert(opt_type_view(out) == None::<TypeView>);
    }
    push_decl(methods, "error", " Log an error message", None, ps, out);
    let ps = vec![param("message", ty_path("String", None))];
    let out: Option<TypeModel> = None;
    proof {
        assert(params_view(ps@) =~~= seq![("message"@, tpath("String"@, None))]);
        assert(opt_type_view(out) == None::<TypeView>);
    }
    push_decl(methods, "warn", " Log a warning message", None, ps, out);
    let ps = vec![param("message", ty_path("String", None))];
    let out: Option<TypeModel> = None;
    proof {
        assert(params_view(ps@) =~~= seq![("message"@, tpath("String"@, None))]);
        assert(opt_type_view(out) == None::<TypeView>);
    }
    push_decl(methods, "info", " Log an info message", None, ps, out);
    let ps = Vec::new();
    let out: Option<TypeModel> = Some(ty_path("u32", None));
    proof {
        assert(params_view(ps@) =~~= Seq::<(Seq<char>, TypeView)>::empty());
        assert(opt_type_view(out) == Some(tpath("u32"@, None)));
    }
    push_decl(methods, "get_active_buffer_id", " Get the active buffer ID (0 if none)", None, ps, out);
    let ps = Vec::new();
    let out: Option<TypeModel> = Some(ty_path("u32", None));
    proof {
        assert(params_view(ps@) =~~= Seq::<(Seq<char>, TypeView)>::empty());
        assert(opt_type_view(out) == Some(tpath("u32"@, None)));
    }
    push_decl(methods, "get_active_split_id", " Get the active split ID", None, ps, out);
    let ps = Vec::new();
    let out: Option<TypeModel> = Some(ty_path("u32", None));
    proof {
        assert(params_view(ps@) =~~= Seq::<(Seq<char>, TypeView)>::empty());
        assert(opt_type_view(out) == Some(tpath("u32"@, None)));
    }
    push_decl(methods, "get_cursor_position", " Get cursor byte position in active buffer", None, ps, out);
    proof {
        assert(methods@.map_values(|d: MethodDecl| decl_view(d)) =~= start + api_decls_1());
    }
}


/// Declarations 9 to 16 of the editor API.
pub open spec fn api_decls_2() -> Seq<MethodDeclView> {
    seq![
        decl("get_cursor_line"@, " Get cursor line number (1-indexed)"@, Seq::empty(),
            Seq::empty(),
            Some(tpath("u32"@, None))),
        decl("get_buffer_path"@, " Get file path for a buffer (empty string if no path)"@, Seq::empty(),
            seq![("buffer_id"@, tpath("u32"@, None))],
            Some(tpath("String"@, None))),
        decl("get_buffer_length"@, " Get buffer length in bytes"@, Seq::empty(),
            seq![("buffer_id"@, tpath("u32"@, None))],
            Some(tpath("u32"@, None))),
        decl("is_buffer_modified"@, " Check if buffer has unsaved changes"@, Seq::empty(),
            seq![("buffer_id"@, tpath("u32"@, None))],
            Some(tpath("bool"@, None))),
        decl("list_buffers"@, " List all open buffers"@, Seq::empty(),
            Seq::empty(),
            Some(tpath("String"@, None))),
        decl("get_all_cursors"@, " Get all cursors as JSON"@, Seq::empty(),
            Seq::empty(),
            Some(tpath("String"@, None))),
        decl("get_all_cursor_positions"@, " Get all cursor positions as array"@, Seq::empty(),
            Seq::empty(),
            Some(tpath("Vec"@, Some(tpath("u32"@, None))))),
        decl("get_viewport"@, " Get viewport info as JSON"@, Seq::empty(),
            Seq::empty(),
            Some(tpath("String"@, None))),
    ]
}

fn method_decls_2(methods: &mut Vec<MethodDecl>)
    ensures
        final(methods)@.map_values(|d: MethodDecl| decl_view(d)) == old(methods)@.map_values(
            |d: MethodDecl| decl_view(d)) + api_decls_2(),
{
    let ghost start = methods@.map_values(|d: MethodDecl| decl_view(d));
    let ps = Vec::new();
    let out: Option<TypeModel> = Some(ty_path("u32", None));
    proof {
        assert(params_view(ps@) =~~= Seq::<(Seq<char>, TypeView)>::empty());
        assert(opt_type_view(out) == Some(tpath("u32"@, None)));
    }
    push_decl(methods, "get_cursor_line", " Get cursor line number (1-indexed)", None, ps, out);
    let ps = vec![param("buffer_id", ty_path("u32", None))];
    let out: Option<TypeModel> = Some(ty_path("String", None));
    proof {
        assert(params_view(ps@) =~~= seq![("buffer_id"@, tpath("u32"@, None))]);
        assert(opt_type_view(out) == Some(tpath("String"@, None)));
    }
    push_decl(methods, "get_buffer_path", " Get file path for a buffer (empty string if no path)", None, ps, out);
    let ps = vec![param("buffer_id", ty_path("u32", None))];
    let out: Option<TypeModel> = Some(ty_path("u32", None));
    proof {
        assert(params_view(ps@) =~~= seq![("buffer_id"@, tpath("u32"@, None))]);
        assert(opt_type_view(out) == Some(tpath("u32"@, None)));
    }
    push_decl(methods, "get_buffer_length", " Get buffer length in bytes", None, ps, out);
    let ps = vec![param("buffer_id", ty_path("u32", None))];
    let out: Option<TypeModel> = Some(ty_path("bool", None));
    proof {
        assert(params_view(ps@) =~~= seq![("buffer_id"@, tpath("u32"@, None))]);
        assert(opt_type_view(out) == Some(tpath("bool"@, None)));
    }
    push_decl(methods, "is_buffer_modified", " Check if buffer has unsaved changes", None, ps, out);
    let ps = Vec::new();
    let out: Option<TypeModel> = Some(ty_path("String", None));
    proof {
        assert(params_view(ps@) =~~= Seq::<(Seq<char>, TypeView)>::empty());
        assert(opt_type_view(out) == Some(tpath("String"@, None)));
    }
    push_decl(methods, "list_buffers", " List all open buffers", None, ps, out);
    let ps = Vec::new();
    let out: Option<TypeModel> = Some(ty_path("String", None));
    proof {
        assert(params_view(ps@) =~~= Seq::<(Seq<char>, TypeView)>::empty());
        assert(opt_type_view(out) == Some(tpath("String"@, None)));
    }
    push_decl(methods, "get_all_cursors", " Get all cursors as JSON", None, ps, out);
    let ps = Vec::new();
    let out: Option<TypeModel> = Some(ty_path("Vec", Some(ty_path("u32", None))));
    proof {
        assert(params_view(ps@) =~~= Seq::<(Seq<char>, TypeView)>::empty());
        assert(opt_type_view(out) == Some(tpath("Vec"@, Some(tpath("u32"@, None)))));
    }
    push_decl(methods, "get_all_cursor_positions", " Get all cursor positions as array", None, ps, out);
    let ps = Vec::new();
    let out: Option<TypeModel> = Some(ty_path("String", None));
    proof {
        assert(params_view(ps@) =~~= Seq::<(Seq<char>, TypeView)>::empty());
        assert(opt_type_view(out) == Some(tpath("String"@, None)));
    }
    push_decl(methods, "get_viewport", " Get viewport info as JSON", None, ps, out);
    proof {
        assert(methods@.map_values(|d: MethodDecl| decl_view(d)) =~= start + api_decls_2());
    }
}


/// Declarations 17 to 24 of the editor API.
pub open spec fn api_decls_3() -> Seq<MethodDeclView> {
    seq![
        decl("get_buffer_info"@, " Get buffer info (returns JSON, parsed in JS)"@, Seq::empty(),
            seq![("buffer_id"@, tpath("u32"@, None))],
            Some(tpath("String"@, None))),
        decl("get_text_properties_at_cursor"@, " Get text properties at cursor position (returns JSON array)"@, Seq::empty(),
            seq![("buffer_id"@, tpath("u32"@, None))],
            Some(tpath("String"@, None))),
        decl("get_editor_mode"@, " Get the current editor mode (for modal editing)"@, Seq::empty(),
            Seq::empty(),
            Some(tpath("Option"@, Some(tpath("String"@, None))))),
        decl("get_buffer_saved_diff"@, " Get diff vs last saved snapshot (returns JSON)"@, Seq::empty(),
            seq![("buffer_id"@, tpath("u32"@, None))],
            Some(tpath("String"@, None))),
        decl("get_all_diagnostics"@, " Get all LSP diagnostics (returns JSON array)"@, Seq::empty(),
            Seq::empty(),
            Some(tpath("String"@, None))),
        decl("is_process_running"@, " Check if a background process is still running"@, Seq::empty(),
            seq![("process_id"@, tpath("u64"@, None))],
            Some(tpath("bool"@, None))),
        decl("get_config"@, " Get merged config as JSON string"@, Seq::empty(),
            Seq::empty(),
            Some(tpath("String"@, None))),
        decl("get_user_config"@, " Get user config only as JSON string"@, Seq::empty(),
            Seq::empty(),
            Some(tpath("String"@, None))),
    ]
}

fn method_decls_3(methods: &mut Vec<MethodDecl>)
    ensures
        final(methods)@.map_values(|d: MethodDecl| decl_view(d)) == old(methods)@.map_values(
            |d: MethodDecl| decl_view(d)) + api_decls_3(),
{
    let ghost start = methods@.map_values(|d: MethodDecl| decl_view(d));
    let ps = vec![param("buffer_id", ty_path("u32", None))];
    let out: Option<TypeModel> = Some(ty_path("String", None));
    proof {
        assert(params_view(ps@) =~~= seq![("buffer_id"@, tpath("u32"@, None))]);
        assert(opt_type_view(out) == Some(tpath("String"@, None)));
    }
    push_decl(methods, "get_buffer_info", " Get buffer info (returns JSON, parsed in JS)", None, ps, out);
    let ps = vec![param("buffer_id", ty_path("u32", None))];
    let out: Option<TypeModel> = Some(ty_path("String", None));
    proof {
        assert(params_view(ps@) =~~= seq![("buffer_id"@, tpath("u32"@, None))]);
        assert(opt_type_view(out) == Some(tpath("String"@, None)));
    }
    push_decl(methods, "get_text_properties_at_cursor", " Get text properties at cursor position (returns JSON array)", None, ps, out);
    let ps = Vec::new();
    let out: Option<TypeModel> = Some(ty_path("Option", Some(ty_path("String", None))));
    proof {
        assert(params_view(ps@) =~~= Seq::<(Seq<char>, TypeView)>::empty());
        assert(opt_type_view(out) == Some(tpath("Option"@, Some(tpath("String"@, None)))));
    }
    push_decl(methods, "get_editor_mode", " Get the current editor mode (for modal editing)", None, ps, out);
    let ps = vec![param("buffer_id", ty_path("u32", None))];
    let out: Option<TypeModel> = Some(ty_path("String", None));
    proof {
        assert(params_view(ps@) =~~= seq![("buffer_id"@, tpath("u32"@, None))]);
        assert(opt_type_view(out) == Some(tpath("String"@, None)));
    }
    push_decl(methods, "get_buffer_saved_diff", " Get diff vs last saved snapshot (returns JSON)", None, ps, out);
    let ps = Vec::new();
    let out: Option<TypeModel> = Some(ty_path("String", None));
    proof {
        assert(params_view(ps@) =~~= Seq::<(Seq<char>, TypeView)>::empty());
        assert(opt_type_view(out) == Some(tpath("String"@, None)));
    }
    push_decl(methods, "get_all_diagnostics", " Get all LSP diagnostics (returns JSON array)", None, ps, out);
    let ps = vec![param("process_id", ty_path("u64", None))];
    let out: Option<TypeModel> = Some(ty_path("bool", None));
    proof {
        assert(params_view(ps@) =~~= seq![("process_id"@, tpath("u64"@, None))]);
        assert(opt_type_view(out) == Some(tpath("bool"@, None)));
    }
    push_decl(methods, "is_process_running", " Check if a background process is still running", None, ps, out);
    let ps = Vec::new();
    let out: Option<TypeModel> = Some(ty_path("String", None));
    proof {
        assert(params_view(ps@) =~~= Seq::<(Seq<char>, TypeView)>::empty());
        assert(opt_type_view(out) == Some(tpath("String"@, None)));
    }
    push_decl(methods, "get_config", " Get merged config as JSON string", None, ps, out);
    let ps = Vec::new();
    let out: Option<TypeModel> = Some(ty_path("String", None));
    proof {
        assert(params_view(ps@) =~~= Seq::<(Seq<char>, TypeView)>::empty());
        assert(opt_type_view(out) == Some(tpath("String"@, None)));
    }
    push_decl(methods, "get_user_config", " Get user config only as JSON string", None, ps, out);
    proof {
        assert(methods@.map_values(|d: MethodDecl| decl_view(d)) =~= start + api_decls_3());
    }
}


/// Declarations 25 to 32 of the editor API.
pub open spec fn api_decls_4() -> Seq<MethodDeclView> {
    seq![
        decl("get_config_dir"@, " Get config directory path"@, Seq::empty(),
            Seq::empty(),
            Some(tpath("String"@, None))),
        decl("get_themes_dir"@, " Get themes directory path"@, Seq::empty(),
            Seq::empty(),
            Some(tpath("String"@, None))),
        decl("reload_config"@, " Reload configuration from file"@, Seq::empty(),
            Seq::empty(),
            None),
        decl("get_current_locale"@, " Get the current locale"@, Seq::empty(),
            Seq::empty(),
            Some(tpath("String"@, None))),
        decl("get_theme_schema"@, " Get theme JSON schema"@, Seq::empty(),
            Seq::empty(),
            Some(tpath("String"@, None))),
        decl("get_builtin_themes"@, " Get built-in themes as JSON"@, Seq::empty(),
            Seq::empty(),
            Some(tpath("String"@, None))),
        decl("apply_theme"@, " Apply a theme by name"@, Seq::empty(),
            seq![("theme_name"@, tpath("String"@, None))],
            None),
        decl("delete_theme_sync"@, " Delete a theme (sync, returns success)"@, Seq::empty(),
            seq![("name"@, tpath("String"@, None))],
            Some(tpath("bool"@, None))),
    ]
}

fn method_decls_4(methods: &mut Vec<MethodDecl>)
    ensures
        final(methods)@.map_values(|d: MethodDecl| decl_view(d)) == old(methods)@.map_values(
            |d: MethodDecl| decl_view(d)) + api_decls_4(),
{
    let ghost start = methods@.map_values(|d: MethodDecl| decl_view(d));
    let ps = Vec::new();
    let out: Option<TypeModel> = Some(ty_path("String", None));
    proof {
        assert(params_view(ps@) =~~= Seq::<(Seq<char>, TypeView)>::empty());
        assert(opt_type_view(out) == Some(tpath("String"@, None)));
    }
    push_decl(methods, "get_config_dir", " Get config directory path", None, ps, out);
    let ps = Vec::new();
    let out: Option<TypeModel> = Some(ty_path("String", None));
    proof {
        assert(params_view(ps@) =~~= Seq::<(Seq<char>, TypeView)>::empty());
        assert(opt_type_view(out) == Some(tpath("String"@, None)));
    }
    push_decl(methods, "get_themes_dir", " Get themes directory path", None, ps, out);
    let ps = Vec::new();
    let out: Option<TypeModel> = None;
    proof {
        assert(params_view(ps@) =~~= Seq::<(Seq<char>, TypeView)>::empty());
        assert(opt_type_view(out) == None::<TypeView>);
    }
    push_decl(methods, "reload_config", " Reload configuration from file", None, ps, out);
    let ps = Vec::new();
    let out: Option<TypeModel> = Some(ty_path("String", None));
    proof {
        assert(params_view(ps@) =~~= Seq::<(Seq<char>, TypeView)>::empty());
        assert(opt_type_view(out) == Some(tpath("String"@, None)));
    }
    push_decl(methods, "get_current_locale", " Get the current locale", None, ps, out);
    let ps = Vec::new();
    let out: Option<TypeModel> = Some(ty_path("String", None));
    proof {
        assert(params_view(ps@) =~~= Seq::<(Seq<char>, TypeView)>::empty());
        assert(opt_type_view(out) == Some(tpath("String"@, None)));
    }
    push_decl(methods, "get_theme_schema", " Get theme JSON schema", None, ps, out);
    let ps = Vec::new();
    let out: Option<TypeModel> = Some(ty_path("String", None));
    proof {
        assert(params_view(ps@) =~~= Seq::<(Seq<char>, TypeView)>::empty());
        assert(opt_type_view(out) == Some(tpath("String"@, None)));
    }
    push_decl(methods, "get_builtin_themes", " Get built-in themes as JSON", None, ps, out);
    let ps = vec![param("theme_name", ty_path("String", None))];
    let out: Option<TypeModel> = None;
    proof {
        assert(params_view(ps@) =~~= seq![("theme_name"@, tpath("String"@, None))]);
        assert(opt_type_view(out) == None::<TypeView>);
    }
    push_decl(methods, "apply_theme", " Apply a theme by name", None, ps, out);
    let ps = vec![param("name", ty_path("String", None))];
    let out: Option<TypeModel> = Some(ty_path("bool", None));
    proof {
        assert(params_view(ps@) =~~= seq![("name"@, tpath("String"@, None))]);
        assert(opt_type_view(out) == Some(tpath("bool"@, None)));
    }
    push_decl(methods, "delete_theme_sync", " Delete a theme (sync, returns success)", None, ps, out);
    proof {
        assert(methods@.map_values(|d: MethodDecl| decl_view(d)) =~= start + api_decls_4());
    }
}


/// Declarations 33 to 40 of the editor API.
pub open spec fn api_decls_5() -> Seq<MethodDeclView> {
    seq![
        decl("set_clipboard"@, " Copy text to system clipboard"@, Seq::empty(),
            seq![("text"@, tpath("String"@, None))],
            None),
        decl("copy_to_clipboard"@, " Copy text to clipboard (alias)"@, Seq::empty(),
            seq![("text"@, tpath("String"@, None))],
            None),
        decl("insert_text"@, " Insert text at a byte position in a buffer"@, Seq::empty(),
            seq![("buffer_id"@, tpath("u32"@, None)), ("position"@, tpath("u32"@, None)), ("text"@, tpath("String"@, None))],
            Some(tpath("bool"@, None))),
        decl("delete_range"@, " Delete a byte range from a buffer"@, Seq::empty(),
            seq![("buffer_id"@, tpath("u32"@, None)), ("start"@, tpath("u32"@, None)), ("end"@, tpath("u32"@, None))],
            Some(tpath("bool"@, None))),
        decl("insert_at_cursor"@, " Insert text at the current cursor position"@, Seq::empty(),
            seq![("text"@, tpath("String"@, None))],
            Some(tpath("bool"@, None))),
        decl("open_file"@, " Open a file, optionally at a specific location"@, Seq::empty(),
            seq![("path"@, tpath("String"@, None)), ("line"@, tpath("u32"@, None)), ("column"@, tpath("u32"@, None))],
            Some(tpath("bool"@, None))),
        decl("open_file_in_split"@, " Open a file in a specific split"@, Seq::empty(),
            seq![("split_id"@, tpath("u32"@, None)), ("path"@, tpath("String"@, None)), ("line"@, tpath("u32"@, None)), ("column"@, tpath("u32"@, None))],
            Some(tpath("bool"@, None))),
        decl("show_buffer"@, " Show a buffer in the current split"@, Seq::empty(),
            seq![("buffer_id"@, tpath("u32"@, None))],
            Some(tpath("bool"@, None))),
    ]
}

fn method_decls_5(methods: &mut Vec<MethodDecl>)
    ensures
        final(methods)@.map_values(|d: MethodDecl| decl_view(d)) == old(methods)@.map_values(
            |d: MethodDecl| decl_view(d)) + api_decls_5(),
{
    let ghost start = methods@.map_values(|d: MethodDecl| decl_view(d));
    let ps = vec![param("text", ty_path("String", None))];
    let out: Option<TypeModel> = None;
    proof {
        assert(params_view(ps@) =~~= seq![("text"@, tpath("String"@, None))]);
        assert(opt_type_view(out) == None::<TypeView>);
    }
    push_decl(methods, "set_clipboard", " Copy text to system clipboard", None, ps, out);
    let ps = vec![param("text", ty_path("String", None))];
    let out: Option<TypeModel> = None;
    proof {
        assert(params_view(ps@) =~~= seq![("text"@, tpath("String"@, None))]);
        assert(opt_type_view(out) == None::<TypeView>);
    }
    push_decl(methods, "copy_to_clipboard", " Copy text to clipboard (alias)", None, ps, out);
    let ps = vec![param("buffer_id", ty_path("u32", None)), param("position", ty_path("u32", None)), param("text", ty_path("String", None))];
    let out: Option<TypeModel> = Some(ty_path("bool", None));
    proof {
        assert(params_view(ps@) =~~= seq![("buffer_id"@, tpath("u32"@, None)), ("position"@, tpath("u32"@, None)), ("text"@, tpath("String"@, None))]);
        assert(opt_type_view(out) == Some(tpath("bool"@, None)));
    }
    push_decl(methods, "insert_text", " Insert text at a byte position in a buffer", None, ps, out);
    let ps = vec![param("buffer_id", ty_path("u32", None)), param("start", ty_path("u32", None)), param("end", ty_path("u32", None))];
    let out: Option<TypeModel> = Some(ty_path("bool", None));
    proof {
        assert(params_view(ps@) =~~= seq![("buffer_id"@, tpath("u32"@, None)), ("start"@, tpath("u32"@, None)), ("end"@, tpath("u32"@, None))]);
        assert(opt_type_view(out) == Some(tpath("bool"@, None)));
    }
    push_decl(methods, "delete_range", " Delete a byte range from a buffer", None, ps, out);
    let ps = vec![param("text", ty_path("String", None))];
    let out: Option<TypeModel> = Some(ty_path("bool", None));
    proof {
        assert(params_view(ps@) =~~= seq![("text"@, tpath("String"@, None))]);
        assert(opt_type_view(out) == Some(tpath("bool"@, None)));
    }
    push_decl(methods, "insert_at_cursor", " Insert text at the current cursor position", None, ps, out);
    let ps = vec![param("path", ty_path("String", None)), param("line", ty_path("u32", None)), param("column", ty_path("u32", None))];
    let out: Option<TypeModel> = Some(ty_path("bool", None));
    proof {
        assert(params_view(ps@) =~~= seq![("path"@, tpath("String"@, None)), ("line"@, tpath("u32"@, None)), ("column"@, tpath("u32"@, None))]);
        assert(opt_type_view(out) == Some(tpath("bool"@, None)));
    }
    push_decl(methods, "open_file", " Open a file, optionally at a specific location", None, ps, out);
    let ps = vec![param("split_id", ty_path("u32", None)), param("path", ty_path("String", None)), param("line", ty_path("u32", None)), param("column", ty_path("u32", None))];
    let out: Option<TypeModel> = Some(ty_path("bool", None));
    proof {
        assert(params_view(ps@) =~~= seq![("split_id"@, tpath("u32"@, None)), ("path"@, tpath("String"@, None)), ("line"@, tpath("u32"@, None)), ("column"@, tpath("u32"@, None))]);
        assert(opt_type_view(out) == Some(tpath("bool"@, None)));
    }
    push_decl(methods, "open_file_in_split", " Open a file in a specific split", None, ps, out);
    let ps = vec![param("buffer_id", ty_path("u32", None))];
    let out: Option<TypeModel> = Some(ty_path("bool", None));
    proof {
        assert(params_view(ps@) =~~= seq![("buffer_id"@, tpath("u32"@, None))]);
        assert(opt_type_view(out) == Some(tpath("bool"@, None)));
    }
    push_decl(methods, "show_buffer", " Show a buffer in the current split", None, ps, out);
    proof {
        assert(methods@.map_values(|d: MethodDecl| decl_view(d)) =~= start + api_decls_5());
    }
}


/// Declarations 41 to 48 of the editor API.
pub open spec fn api_decls_6() -> Seq<MethodDeclView> {
    seq![
        decl("close_buffer"@, " Close a buffer"@, Seq::empty(),
            seq![("buffer_id"@, tpath("u32"@, None))],
            Some(tpath("bool"@, None))),
        decl("find_buffer_by_path"@, " Find a buffer by its file path"@, Seq::empty(),
            seq![("path"@, tpath("String"@, None))],
            Some(tpath("u32"@, None))),
        decl("focus_split"@, " Focus a specific split"@, Seq::empty(),
            seq![("split_id"@, tpath("u32"@, None))],
            Some(tpath("bool"@, None))),
        decl("set_split_buffer"@, " Set the buffer displayed in a split"@, Seq::empty(),
            seq![("split_id"@, tpath("u32"@, None)), ("buffer_id"@, tpath("u32"@, None))],
            Some(tpath("bool"@, None))),
        decl("close_split"@, " Close a split"@, Seq::empty(),
            seq![("split_id"@, tpath("u32"@, None))],
            Some(tpath("bool"@, None))),
        decl("set_buffer_cursor"@, " Set cursor position in a buffer"@, Seq::empty(),
            seq![("buffer_id"@, tpath("u32"@, None)), ("position"@, tpath("u32"@, None))],
            Some(tpath("bool"@, None))),
        decl("set_split_scroll"@, " Set split scroll position"@, Seq::empty(),
            seq![("split_id"@, tpath("u32"@, None)), ("top_byte"@, tpath("u32"@, None))],
            Some(tpath("bool"@, None))),
        decl("set_split_ratio"@, " Set split ratio"@, Seq::empty(),
            seq![("split_id"@, tpath("u32"@, None)), ("ratio"@, tpath("f32"@, None))],
            Some(tpath("bool"@, None))),
    ]
}

fn method_decls_6(methods: &mut Vec<MethodDecl>)
    ensures
        final(methods)@.map_values(|d: MethodDecl| decl_view(d)) == old(methods)@.map_values(
            |d: MethodDecl| decl_view(d)) + api_decls_6(),
{
    let ghost start = methods@.map_values(|d: MethodDecl| decl_view(d));
    let ps = vec![param("buffer_id", ty_path("u32", None))];
    let out: Option<TypeModel> = Some(ty_path("bool", None));
    proof {
        assert(params_view(ps@) =~~= seq![("buffer_id"@, tpath("u32"@, None))]);
        assert(opt_type_view(out) == Some(tpath("bool"@, None)));
    }
    push_decl(methods, "close_buffer", " Close a buffer", None, ps, out);
    let ps = vec![param("path", ty_path("String", None))];
    let out: Option<TypeModel> = Some(ty_path("u32", None));
    proof {
        assert(params_view(ps@) =~~= seq![("path"@, tpath("String"@, None))]);
        assert(opt_type_view(out) == Some(tpath("u32"@, None)));
    }
    push_decl(methods, "find_buffer_by_path", " Find a buffer by its file path", None, ps, out);
    let ps = vec![param("split_id", ty_path("u32", None))];
    let out: Option<TypeModel> = Some(ty_path("bool", None));
    proof {
        assert(params_view(ps@) =~~= seq![("split_id"@, tpath("u32"@, None))]);
        assert(opt_type_view(out) == Some(tpath("bool"@, None)));
    }
    push_decl(methods, "focus_split", " Focus a specific split", None, ps, out);
    let ps = vec![param("split_id", ty_path("u32", None)), param("buffer_id", ty_path("u32", None))];
    let out: Option<TypeModel> = Some(ty_path("bool", None));
    proof {
        assert(params_view(ps@) =~~= seq![("split_id"@, tpath("u32"@, None)), ("buffer_id"@, tpath("u32"@, None))]);
        assert(opt_type_view(out) == Some(tpath("bool"@, None)));
    }
    push_decl(methods, "set_split_buffer", " Set the buffer displayed in a split", None, ps, out);
    let ps = vec![param("split_id", ty_path("u32", None))];
    let out: Option<TypeModel> = Some(ty_path("bool", None));
    proof {
        assert(params_view(ps@) =~~= seq![("split_id"@, tpath("u32"@, None))]);
        assert(opt_type_view(out) == Some(tpath("bool"@, None)));
    }
    push_decl(methods, "close_split", " Close a split", None, ps, out);
    let ps = vec![param("buffer_id", ty_path("u32", None)), param("position", ty_path("u32", None))];
    let out: Option<TypeModel> = Some(ty_path("bool", None));
    proof {
        assert(params_view(ps@) =~~= seq![("buffer_id"@, tpath("u32"@, None)), ("position"@, tpath("u32"@, None))]);
        assert(opt_type_view(out) == Some(tpath("bool"@, None)));
    }
    push_decl(methods, "set_buffer_cursor", " Set cursor position in a buffer", None, ps, out);
    let ps = vec![param("split_id", ty_path("u32", None)), param("top_byte", ty_path("u32", None))];
    let out: Option<TypeModel> = Some(ty_path("bool", None));
    proof {
        assert(params_view(ps@) =~~= seq![("split_id"@, tpath("u32"@, None)), ("top_byte"@, tpath("u32"@, None))]);
        assert(opt_type_view(out) == Some(tpath("bool"@, None)));
    }
    push_decl(methods, "set_split_scroll", " Set split scroll position", None, ps, out);
    let ps = vec![param("split_id", ty_path("u32", None)), param("ratio", ty_path("f32", None))];
    let out: Option<TypeModel> = Some(ty_path("bool", None));
    proof {
        assert(params_view(ps@) =~~= seq![("split_id"@, tpath("u32"@, None)), ("ratio"@, tpath("f32"@, None))]);
        assert(opt_type_view(out) == Some(tpath("bool"@, None)));
    }
    push_decl(methods, "set_split_ratio", " Set split ratio", None, ps, out);
    proof {
        assert(methods@.map_values(|d: MethodDecl| decl_view(d)) =~= start + api_decls_6());
    }
}


/// Declarations 49 to 56 of the editor API.
pub open spec fn api_decls_7() -> Seq<MethodDeclView> {
    seq![
        decl("distribute_splits_evenly"@, " Distribute all splits evenly"@, Seq::empty(),
            Seq::empty(),
            Some(tpath("bool"@, None))),
        decl("add_overlay_internal"@, " Add a visual overlay (internal, takes JSON)"@, seq!["js_name = \"_addOverlayInternal\""@],
            seq![("json"@, tpath("String"@, None))],
            Some(tpath("bool"@, None))),
        decl("clear_namespace"@, " Clear all overlays in a namespace"@, Seq::empty(),
            seq![("buffer_id"@, tpath("u32"@, None)), ("namespace"@, tpath("String"@, None))],
            Some(tpath("bool"@, None))),
        decl("clear_all_overlays"@, " Clear all overlays from a buffer"@, Seq::empty(),
            seq![("buffer_id"@, tpath("u32"@, None))],
            Some(tpath("bool"@, None))),
        decl("remove_overlay"@, " Remove a specific overlay by handle"@, Seq::empty(),
            seq![("buffer_id"@, tpath("u32"@, None)), ("handle"@, tpath("String"@, None))],
            Some(tpath("bool"@, None))),
        decl("clear_overlays_in_range"@, " Clear overlays in a byte range"@, Seq::empty(),
            seq![("buffer_id"@, tpath("u32"@, None)), ("start"@, tpath("u32"@, None)), ("end"@, tpath("u32"@, None))],
            Some(tpath("bool"@, None))),
        decl("add_virtual_text"@, " Add virtual text at a position"@, Seq::empty(),
            seq![("buffer_id"@, tpath("u32"@, None)), ("virtual_text_id"@, tpath("String"@, None)), ("position"@, tpath("u32"@, None)), ("text"@, tpath("String"@, None)), ("r"@, tpath("u8"@, None)), ("g"@, tpath("u8"@, None)), ("b"@, tpath("u8"@, None)), ("before"@, tpath("bool"@, None)), ("use_bg"@, tpath("bool"@, None))],
            Some(tpath("bool"@, None))),
        decl("remove_virtual_text"@, " Remove virtual text by ID"@, Seq::empty(),
            seq![("buffer_id"@, tpath("u32"@, None)), ("virtual_text_id"@, tpath("String"@, None))],
            Some(tpath("bool"@, None))),
    ]
}

fn method_decls_7(methods: &mut Vec<MethodDecl>)
    ensures
        final(methods)@.map_values(|d: MethodDecl| decl_view(d)) == old(methods)@.map_values(
            |d: MethodDecl| decl_view(d)) + api_decls_7(),
{
    let ghost start = methods@.map_values(|d: MethodDecl| decl_view(d));
    let ps = Vec::new();
    let out: Option<TypeModel> = Some(ty_path("bool", None));
    proof {
        assert(params_view(ps@) =~~= Seq::<(Seq<char>, TypeView)>::empty());
        assert(opt_type_view(out) == Some(tpath("bool"@, None)));
    }
    push_decl(methods, "distribute_splits_evenly", " Distribute all splits evenly", None, ps, out);
    let ps = vec![param("json", ty_path("String", None))];
    let out: Option<TypeModel> = Some(ty_path("bool", None));
    proof {
        assert(params_view(ps@) =~~= seq![("json"@, tpath("String"@, None))]);
        assert(opt_type_view(out) == Some(tpath("bool"@, None)));
    }
    push_decl(methods, "add_overlay_internal", " Add a visual overlay (internal, takes JSON)", Some("js_name = \"_addOverlayInternal\""), ps, out);
    let ps = vec![param("buffer_id", ty_path("u32", None)), param("namespace", ty_path("String", None))];
    let out: Option<TypeModel> = Some(ty_path("bool", None));
    proof {
        assert(params_view(ps@) =~~= seq![("buffer_id"@, tpath("u32"@, None)), ("namespace"@, tpath("String"@, None))]);
        assert(opt_type_view(out) == Some(tpath("bool"@, None)));
    }
    push_decl(methods, "clear_namespace", " Clear all overlays in a namespace", None, ps, out);
    let ps = vec![param("buffer_id", ty_path("u32", None))];
    let out: Option<TypeModel> = Some(ty_path("bool", None));
    proof {
        assert(params_view(ps@) =~~= seq![("buffer_id"@, tpath("u32"@, None))]);
        assert(opt_type_view(out) == Some(tpath("bool"@, None)));
    }
    push_decl(methods, "clear_all_overlays", " Clear all overlays from a buffer", None, ps, out);
    let ps = vec![param("buffer_id", ty_path("u32", None)), param("handle", ty_path("String", None))];
    let out: Option<TypeModel> = Some(ty_path("bool", None));
    proof {
        assert(params_view(ps@) =~~= seq![("buffer_id"@, tpath("u32"@, None)), ("handle"@, tpath("String"@, None))]);
        assert(opt_type_view(out) == Some(tpath("bool"@, None)));
    }
    push_decl(methods, "remove_overlay", " Remove a specific overlay by handle", None, ps, out);
    let ps = vec![param("buffer_id", ty_path("u32", None)), param("start", ty_path("u32", None)), param("end", ty_path("u32", None))];
    let out: Option<TypeModel> = Some(ty_path("bool", None));
    proof {
        assert(params_view(ps@) =~~= seq![("buffer_id"@, tpath("u32"@, None)), ("start"@, tpath("u32"@, None)), ("end"@, tpath("u32"@, None))]);
        assert(opt_type_view(out) == Some(tpath("bool"@, None)));
    }
    push_decl(methods, "clear_overlays_in_range", " Clear overlays in a byte range", None, ps, out);
    let ps = vec![param("buffer_id", ty_path("u32", None)), param("virtual_text_id", ty_path("String", None)), param("position", ty_path("u32", None)), param("text", ty_path("String", None)), param("r", ty_path("u8", None)), param("g", ty_path("u8", None)), param("b", ty_path("u8", None)), param("before", ty_path("bool", None)), param("use_bg", ty_path("bool", None))];
    let out: Option<TypeModel> = Some(ty_path("bool", None));
    proof {
        assert(params_view(ps@) =~~= seq![("buffer_id"@, tpath("u32"@, None)), ("virtual_text_id"@, tpath("String"@, None)), ("position"@, tpath("u32"@, None)), ("text"@, tpath("String"@, None)), ("r"@, tpath("u8"@, None)), ("g"@, tpath("u8"@, None)), ("b"@, tpath("u8"@, None)), ("before"@, tpath("bool"@, None)), ("use_bg"@, tpath("bool"@, None))]);
        assert(opt_type_view(out) == Some(tpath("bool"@, None)));
    }
    push_decl(methods, "add_virtual_text", " Add virtual text at a position", None, ps, out);
    let ps = vec![param("buffer_id", ty_path("u32", None)), param("virtual_text_id", ty_path("String", None))];
    let out: Option<TypeModel> = Some(ty_path("bool", None));
    proof {
        assert(params_view(ps@) =~~= seq![("buffer_id"@, tpath("u32"@, None)), ("virtual_text_id"@, tpath("String"@, None))]);
        assert(opt_type_view(out) == Some(tpath("bool"@, None)));
    }
    push_decl(methods, "remove_virtual_text", " Remove virtual text by ID", None, ps, out);
    proof {
        assert(methods@.map_values(|d: MethodDecl| decl_view(d)) =~= start + api_decls_7());
    }
}


/// Declarations 57 to 64 of the editor API.
pub open spec fn api_decls_8() -> Seq<MethodDeclView> {
    seq![
        decl("remove_virtual_texts_by_prefix"@, " Remove virtual texts by prefix"@, Seq::empty(),
            seq![("buffer_id"@, tpath("u32"@, None)), ("prefix"@, tpath("String"@, None))],
            Some(tpath("bool"@, None))),
        decl("clear_virtual_texts"@, " Clear all virtual texts from a buffer"@, Seq::empty(),
            seq![("buffer_id"@, tpath("u32"@, None))],
            Some(tpath("bool"@, None))),
        decl("clear_virtual_text_namespace"@, " Clear virtual texts in a namespace"@, Seq::empty(),
            seq![("buffer_id"@, tpath("u32"@, None)), ("namespace"@, tpath("String"@, None))],
            Some(tpath("bool"@, None))),
        decl("add_virtual_line"@, " Add a virtual line"@, Seq::empty(),
            seq![("buffer_id"@, tpath("u32"@, None)), ("position"@, tpath("u32"@, None)), ("text"@, tpath("String"@, None)), ("fg_r"@, tpath("u8"@, None)), ("fg_g"@, tpath("u8"@, None)), ("fg_b"@, tpath("u8"@, None)), ("bg_r"@, tpath("i32"@, None)), ("bg_g"@, tpath("i32"@, None)), ("bg_b"@, tpath("i32"@, None)), ("above"@, tpath("bool"@, None)), ("namespace"@, tpath("String"@, None)), ("priority"@, tpath("i32"@, None))],
            Some(tpath("bool"@, None))),
        decl("set_line_indicator_internal"@, " Set a line indicator (internal, takes JSON)"@, seq!["js_name = \"_setLineIndicatorInternal\""@],
            seq![("json"@, tpath("String"@, None))],
            Some(tpath("bool"@, None))),
        decl("clear_line_indicators"@, " Clear line indicators in a namespace"@, Seq::empty(),
            seq![("buffer_id"@, tpath("u32"@, None)), ("namespace"@, tpath("String"@, None))],
            Some(tpath("bool"@, None))),
        decl("set_file_explorer_decorations"@, " Set file explorer decorations (takes JSON)"@, Seq::empty(),
            seq![("namespace"@, tpath("String"@, None)), ("decorations_json"@, tpath("String"@, None))],
            Some(tpath("bool"@, None))),
        decl("clear_file_explorer_decorations"@, " Clear file explorer decorations"@, Seq::empty(),
            seq![("namespace"@, tpath("String"@, None))],
            Some(tpath("bool"@, None))),
    ]
}

fn method_decls_8(methods: &mut Vec<MethodDecl>)
    ensures
        final(methods)@.map_values(|d: MethodDecl| decl_view(d)) == old(methods)@.map_values(
            |d: MethodDecl| decl_view(d)) + api_decls_8(),
{
    let ghost start = methods@.map_values(|d: MethodDecl| decl_view(d));
    let ps = vec![param("buffer_id", ty_path("u32", None)), param("prefix", ty_path("String", None))];
    let out: Option<TypeModel> = Some(ty_path("bool", None));
    proof {
        assert(params_view(ps@) =~~= seq![("buffer_id"@, tpath("u32"@, None)), ("prefix"@, tpath("String"@, None))]);
        assert(opt_type_view(out) == Some(tpath("bool"@, None)));
    }
    push_decl(methods, "remove_virtual_texts_by_prefix", " Remove virtual texts by prefix", None, ps, out);
    let ps = vec![param("buffer_id", ty_path("u32", None))];
    let out: Option<TypeModel> = Some(ty_path("bool", None));
    proof {
        assert(params_view(ps@) =~~= seq![("buffer_id"@, tpath("u32"@, None))]);
        assert(opt_type_view(out) == Some(tpath("bool"@, None)));
    }
    push_decl(methods, "clear_virtual_texts", " Clear all virtual texts from a buffer", None, ps, out);
    let ps = vec![param("buffer_id", ty_path("u32", None)), param("namespace", ty_path("String", None))];
    let out: Option<TypeModel> = Some(ty_path("bool", None));
    proof {
        assert(params_view(ps@) =~~= seq![("buffer_id"@, tpath("u32"@, None)), ("namespace"@, tpath("String"@, None))]);
        assert(opt_type_view(out) == Some(tpath("bool"@, None)));
    }
    push_decl(methods, "clear_virtual_text_namespace", " Clear virtual texts in a namespace", None, ps, out);
    let ps = vec![param("buffer_id", ty_path("u32", None)), param("position", ty_path("u32", None)), param("text", ty_path("String", None)), param("fg_r", ty_path("u8", None)), param("fg_g", ty_path("u8", None)), param("fg_b", ty_path("u8", None)), param("bg_r", ty_path("i32", None)), param("bg_g", ty_path("i32", None)), param("bg_b", ty_path("i32", None)), param("above", ty_path("bool", None)), param("namespace", ty_path("String", None)), param("priority", ty_path("i32", None))];
    let out: Option<TypeModel> = Some(ty_path("bool", None));
    proof {
        assert(params_view(ps@) =~~= seq![("buffer_id"@, tpath("u32"@, None)), ("position"@, tpath("u32"@, None)), ("text"@, tpath("String"@, None)), ("fg_r"@, tpath("u8"@, None)), ("fg_g"@, tpath("u8"@, None)), ("fg_b"@, tpath("u8"@, None)), ("bg_r"@, tpath("i32"@, None)), ("bg_g"@, tpath("i32"@, None)), ("bg_b"@, tpath("i32"@, None)), ("above"@, tpath("bool"@, None)), ("namespace"@, tpath("String"@, None)), ("priority"@, tpath("i32"@, None))]);
        assert(opt_type_view(out) == Some(tpath("bool"@, None)));
    }
    push_decl(methods, "add_virtual_line", " Add a virtual line", None, ps, out);
    let ps = vec![param("json", ty_path("String", None))];
    let out: Option<TypeModel> = Some(ty_path("bool", None));
    proof {
        assert(params_view(ps@) =~~= seq![("json"@, tpath("String"@, None))]);
        assert(opt_type_view(out) == Some(tpath("bool"@, None)));
    }
    push_decl(methods, "set_line_indicator_internal", " Set a line indicator (internal, takes JSON)", Some("js_name = \"_setLineIndicatorInternal\""), ps, out);
    let ps = vec![param("buffer_id", ty_path("u32", None)), param("namespace", ty_path("String", None))];
    let out: Option<TypeModel> = Some(ty_path("bool", None));
    proof {
        assert(params_view(ps@) =~~= seq![("buffer_id"@, tpath("u32"@, None)), ("namespace"@, tpath("String"@, None))]);
        assert(opt_type_view(out) == Some(tpath("bool"@, None)));
    }
    push_decl(methods, "clear_line_indicators", " Clear line indicators in a namespace", None, ps, out);
    let ps = vec![param("namespace", ty_path("String", None)), param("decorations_json", ty_path("String", None))];
    let out: Option<TypeModel> = Some(ty_path("bool", None));
    proof {
        assert(params_view(ps@) =~~= seq![("namespace"@, tpath("String"@, None)), ("decorations_json"@, tpath("String"@, None))]);
        assert(opt_type_view(out) == Some(tpath("bool"@, None)));
    }
    push_decl(methods, "set_file_explorer_decorations", " Set file explorer decorations (takes JSON)", None, ps, out);
    let ps = vec![param("namespace", ty_path("String", None))];
    let out: Option<TypeModel> = Some(ty_path("bool", None));
    proof {
        assert(params_view(ps@) =~~= seq![("namespace"@, tpath("String"@, None))]);
        assert(opt_type_view(out) == Some(tpath("bool"@, None)));
    }
    push_decl(methods, "clear_file_explorer_decorations", " Clear file explorer decorations", None, ps, out);
    proof {
        assert(methods@.map_values(|d: MethodDecl| decl_view(d)) =~= start + api_decls_8());
    }
}


/// Declarations 65 to 72 of the editor API.
pub open spec fn api_decls_9() -> Seq<MethodDeclView> {
    seq![
        decl("set_line_numbers"@, " Enable/disable line numbers for a buffer"@, Seq::empty(),
            seq![("buffer_id"@, tpath("u32"@, None)), ("enabled"@, tpath("bool"@, None))],
            Some(tpath("bool"@, None))),
        decl("refresh_lines"@, " Force refresh of line display"@, Seq::empty(),
            seq![("buffer_id"@, tpath("u32"@, None))],
            Some(tpath("bool"@, None))),
        decl("start_prompt"@, " Start an interactive prompt"@, Seq::empty(),
            seq![("label"@, tpath("String"@, None)), ("prompt_type"@, tpath("String"@, None))],
            Some(tpath("bool"@, None))),
        decl("start_prompt_with_initial"@, " Start a prompt with initial value"@, Seq::empty(),
            seq![("label"@, tpath("String"@, None)), ("prompt_type"@, tpath("String"@, None)), ("initial_value"@, tpath("String"@, None))],
            Some(tpath("bool"@, None))),
        decl("set_prompt_suggestions"@, " Set suggestions for the current prompt (takes JSON)"@, Seq::empty(),
            seq![("suggestions_json"@, tpath("String"@, None))],
            Some(tpath("bool"@, None))),
        decl("register_command_internal"@, " Register a custom command (internal)"@, seq!["js_name = \"_registerCommandInternal\""@],
            seq![("plugin_name"@, tpath("String"@, None)), ("name"@, tpath("String"@, None)), ("description"@, tpath("String"@, None)), ("handler_name"@, tpath("String"@, None)), ("context"@, tpath("Option"@, Some(tpath("String"@, None))))],
            Some(tpath("bool"@, None))),
        decl("unregister_command"@, " Unregister a command"@, Seq::empty(),
            seq![("name"@, tpath("String"@, None))],
            Some(tpath("bool"@, None))),
        decl("set_context"@, " Set a custom context"@, Seq::empty(),
            seq![("name"@, tpath("String"@, None)), ("active"@, tpath("bool"@, None))],
            Some(tpath("bool"@, None))),
    ]
}

fn method_decls_9(methods: &mut Vec<MethodDecl>)
    ensures
        final(methods)@.map_values(|d: MethodDecl| decl_view(d)) == old(methods)@.map_values(
            |d: MethodDecl| decl_view(d)) + api_decls_9(),
{
    let ghost start = methods@.map_values(|d: MethodDecl| decl_view(d));
    let ps = vec![param("buffer_id", ty_path("u32", None)), param("enabled", ty_path("bool", None))];
    let out: Option<TypeModel> = Some(ty_path("bool", None));
    proof {
        assert(params_view(ps@) =~~= seq![("buffer_id"@, tpath("u32"@, None)), ("enabled"@, tpath("bool"@, None))]);
        assert(opt_type_view(out) == Some(tpath("bool"@, None)));
    }
    push_decl(methods, "set_line_numbers", " Enable/disable line numbers for a buffer", None, ps, out);
    let ps = vec![param("buffer_id", ty_path("u32", None))];
    let out: Option<TypeModel> = Some(ty_path("bool", None));
    proof {
        assert(params_view(ps@) =~~= seq![("buffer_id"@, tpath("u32"@, None))]);
        assert(opt_type_view(out) == Some(tpath("bool"@, None)));
    }
    push_decl(methods, "refresh_lines", " Force refresh of line display", None, ps, out);
    let ps = vec![param("label", ty_path("String", None)), param("prompt_type", ty_path("String", None))];
    let out: Option<TypeModel> = Some(ty_path("bool", None));
    proof {
        assert(params_view(ps@) =~~= seq![("label"@, tpath("String"@, None)), ("prompt_type"@, tpath("String"@, None))]);
        assert(opt_type_view(out) == Some(tpath("bool"@, None)));
    }
    push_decl(methods, "start_prompt", " Start an interactive prompt", None, ps, out);
    let ps = vec![param("label", ty_path("String", None)), param("prompt_type", ty_path("String", None)), param("initial_value", ty_path("String", None))];
    let out: Option<TypeModel> = Some(ty_path("bool", None));
    proof {
        assert(params_view(ps@) =~~= seq![("label"@, tpath("String"@, None)), ("prompt_type"@, tpath("String"@, None)), ("initial_value"@, tpath("String"@, None))]);
        assert(opt_type_view(out) == Some(tpath("bool"@, None)));
    }
    push_decl(methods, "start_prompt_with_initial", " Start a prompt with initial value", None, ps, out);
    let ps = vec![param("suggestions_json", ty_path("String", None))];
    let out: Option<TypeModel> = Some(ty_path("bool", None));
    proof {
        assert(params_view(ps@) =~~= seq![("suggestions_json"@, tpath("String"@, None))]);
        assert(opt_type_view(out) == Some(tpath("bool"@, None)));
    }
    push_decl(methods, "set_prompt_suggestions", " Set suggestions for the current prompt (takes JSON)", None, ps, out);
    let ps = vec![param("plugin_name", ty_path("String", None)), param("name", ty_path("String", None)), param("description", ty_path("String", None)), param("handler_name", ty_path("String", None)), param("context", ty_path("Option", Some(ty_path("String", None))))];
    let out: Option<TypeModel> = Some(ty_path("bool", None));
    proof {
        assert(params_view(ps@) =~~= seq![("plugin_name"@, tpath("String"@, None)), ("name"@, tpath("String"@, None)), ("description"@, tpath("String"@, None)), ("handler_name"@, tpath("String"@, None)), ("context"@, tpath("Option"@, Some(tpath("String"@, None))))]);
        assert(opt_type_view(out) == Some(tpath("bool"@, None)));
    }
    push_decl(methods, "register_command_internal", " Register a custom command (internal)", Some("js_name = \"_registerCommandInternal\""), ps, out);
    let ps = vec![param("name", ty_path("String", None))];
    let out: Option<TypeModel> = Some(ty_path("bool", None));
    proof {
        assert(params_view(ps@) =~~= seq![("name"@, tpath("String"@, None))]);
        assert(opt_type_view(out) == Some(tpath("bool"@, None)));
    }
    push_decl(methods, "unregister_command", " Unregister a command", None, ps, out);
    let ps = vec![param("name", ty_path("String", None)), param("active", ty_path("bool", None))];
    let out: Option<TypeModel> = Some(ty_path("bool", None));
    proof {
        assert(params_view(ps@) =~~= seq![("name"@, tpath("String"@, None)), ("active"@, tpath("bool"@, None))]);
        assert(opt_type_view(out) == Some(tpath("bool"@, None)));
    }
    push_decl(methods, "set_context", " Set a custom context", None, ps, out);
    proof {
        assert(methods@.map_values(|d: MethodDecl| decl_view(d)) =~= start + api_decls_9());
    }
}


/// Declarations 73 to 80 of the editor API.
pub open spec fn api_decls_10() -> Seq<MethodDeclView> {
    seq![
        decl("execute_action"@, " Execute a built-in action"@, Seq::empty(),
            seq![("action_name"@, tpath("String"@, None))],
            Some(tpath("bool"@, None))),
        decl("execute_actions"@, " Execute multiple actions (takes JSON)"@, Seq::empty(),
            seq![("actions_json"@, tpath("String"@, None))],
            Some(tpath("bool"@, None))),
        decl("set_editor_mode"@, " Set the global editor mode"@, Seq::empty(),
            seq![("mode"@, tpath("Option"@, Some(tpath("String"@, None))))],
            Some(tpath("bool"@, None))),
        decl("define_mode"@, " Define a buffer mode (takes JSON for bindings)"@, Seq::empty(),
            seq![("name"@, tpath("String"@, None)), ("parent"@, tpath("Option"@, Some(tpath("String"@, None)))), ("bindings_json"@, tpath("String"@, None))],
            Some(tpath("bool"@, None))),
        decl("on"@, " Subscribe to an editor event"@, Seq::empty(),
            seq![("event_name"@, tpath("String"@, None)), ("handler_name"@, tpath("String"@, None))],
            Some(tpath("bool"@, None))),
        decl("off"@, " Unsubscribe from an event"@, Seq::empty(),
            seq![("event_name"@, tpath("String"@, None)), ("handler_name"@, tpath("String"@, None))],
            Some(tpath("bool"@, None))),
        decl("get_handlers"@, " Get list of handlers for an event"@, Seq::empty(),
            seq![("event_name"@, tpath("String"@, None))],
            Some(tpath("Vec"@, Some(tpath("String"@, None))))),
        decl("get_env"@, " Get environment variable"@, Seq::empty(),
            seq![("name"@, tpath("String"@, None))],
            Some(tpath("Option"@, Some(tpath("String"@, None))))),
    ]
}

fn method_decls_10(methods: &mut Vec<MethodDecl>)
    ensures
        final(methods)@.map_values(|d: MethodDecl| decl_view(d)) == old(methods)@.map_values(
            |d: MethodDecl| decl_view(d)) + api_decls_10(),
{
    let ghost start = methods@.map_values(|d: MethodDecl| decl_view(d));
    let ps = vec![param("action_name", ty_path("String", None))];
    let out: Option<TypeModel> = Some(ty_path("bool", None));
    proof {
        assert(params_view(ps@) =~~= seq![("action_name"@, tpath("String"@, None))]);
        assert(opt_type_view(out) == Some(tpath("bool"@, None)));
    }
    push_decl(methods, "execute_action", " Execute a built-in action", None, ps, out);
    let ps = vec![param("actions_json", ty_path("String", None))];
    let out: Option<TypeModel> = Some(ty_path("bool", None));
    proof {
        assert(params_view(ps@) =~~= seq![("actions_json"@, tpath("String"@, None))]);
        assert(opt_type_view(out) == Some(tpath("bool"@, None)));
    }
    push_decl(methods, "execute_actions", " Execute multiple actions (takes JSON)", None, ps, out);
    let ps = vec![param("mode", ty_path("Option", Some(ty_path("String", None))))];
    let out: Option<TypeModel> = Some(ty_path("bool", None));
    proof {
        assert(params_view(ps@) =~~= seq![("mode"@, tpath("Option"@, Some(tpath("String"@, None))))]);
        assert(opt_type_view(out) == Some(tpath("bool"@, None)));
    }
    push_decl(methods, "set_editor_mode", " Set the global editor mode", None, ps, out);
    let ps = vec![param("name", ty_path("String", None)), param("parent", ty_path("Option", Some(ty_path("String", None)))), param("bindings_json", ty_path("String", None))];
    let out: Option<TypeModel> = Some(ty_path("bool", None));
    proof {
        assert(params_view(ps@) =~~= seq![("name"@, tpath("String"@, None)), ("parent"@, tpath("Option"@, Some(tpath("String"@, None)))), ("bindings_json"@, tpath("String"@, None))]);
        assert(opt_type_view(out) == Some(tpath("bool"@, None)));
    }
    push_decl(methods, "define_mode", " Define a buffer mode (takes JSON for bindings)", None, ps, out);
    let ps = vec![param("event_name", ty_path("String", None)), param("handler_name", ty_path("String", None))];
    let out: Option<TypeModel> = Some(ty_path("bool", None));
    proof {
        assert(params_view(ps@) =~~= seq![("event_name"@, tpath("String"@, None)), ("handler_name"@, tpath("String"@, None))]);
        assert(opt_type_view(out) == Some(tpath("bool"@, None)));
    }
    push_decl(methods, "on", " Subscribe to an editor event", None, ps, out);
    let ps = vec![param("event_name", ty_path("String", None)), param("handler_name", ty_path("String", None))];
    let out: Option<TypeModel> = Some(ty_path("bool", None));
    proof {
        assert(params_view(ps@) =~~= seq![("event_name"@, tpath("String"@, None)), ("handler_name"@, tpath("String"@, None))]);
        assert(opt_type_view(out) == Some(tpath("bool"@, None)));
    }
    push_decl(methods, "off", " Unsubscribe from an event", None, ps, out);
    let ps = vec![param("event_name", ty_path("String", None))];
    let out: Option<TypeModel> = Some(ty_path("Vec", Some(ty_path("String", None))));
    proof {
        assert(params_view(ps@) =~~= seq![("event_name"@, tpath("String"@, None))]);
        assert(opt_type_view(out) == Some(tpath("Vec"@, Some(tpath("String"@, None)))));
    }
    push_decl(methods, "get_handlers", " Get list of handlers for an event", None, ps, out);
    let ps = vec![param("name", ty_path("String", None))];
    let out: Option<TypeModel> = Some(ty_path("Option", Some(ty_path("String", None))));
    proof {
        assert(params_view(ps@) =~~= seq![("name"@, tpath("String"@, None))]);
        assert(opt_type_view(out) == Some(tpath("Option"@, Some(tpath("String"@, None)))));
    }
    push_decl(methods, "get_env", " Get environment variable", None, ps, out);
    proof {
        assert(methods@.map_values(|d: MethodDecl| decl_view(d)) =~= start + api_decls_10());
    }
}


/// Declarations 81 to 88 of the editor API.
pub open spec fn api_decls_11() -> Seq<MethodDeclView> {
    seq![
        decl("get_cwd"@, " Get current working directory"@, Seq::empty(),
            Seq::empty(),
            Some(tpath("String"@, None))),
        decl("path_join"@, " Join path segments"@, Seq::empty(),
            seq![("parts"@, tpath("Vec"@, Some(tpath("String"@, None))))],
            Some(tpath("String"@, None))),
        decl("path_dirname"@, " Get directory name"@, Seq::empty(),
            seq![("path"@, tpath("String"@, None))],
            Some(tpath("String"@, None))),
        decl("path_basename"@, " Get base name"@, Seq::empty(),
            seq![("path"@, tpath("String"@, None))],
            Some(tpath("String"@, None))),
        decl("path_extname"@, " Get file extension"@, Seq::empty(),
            seq![("path"@, tpath("String"@, None))],
            Some(tpath("String"@, None))),
        decl("path_is_absolute"@, " Check if path is absolute"@, Seq::empty(),
            seq![("path"@, tpath("String"@, None))],
            Some(tpath("bool"@, None))),
        decl("file_exists"@, " Check if file exists"@, Seq::empty(),
            seq![("path"@, tpath("String"@, None))],
            Some(tpath("bool"@, None))),
        decl("read_file_sync"@, " Read file contents (sync)"@, Seq::empty(),
            seq![("path"@, tpath("String"@, None))],
            Some(tpath("Option"@, Some(tpath("String"@, None))))),
    ]
}

fn method_decls_11(methods: &mut Vec<MethodDecl>)
    ensures
        final(methods)@.map_values(|d: MethodDecl| decl_view(d)) == old(methods)@.map_values(
            |d: MethodDecl| decl_view(d)) + api_decls_11(),
{
    let ghost start = methods@.map_values(|d: MethodDecl| decl_view(d));
    let ps = Vec::new();
    let out: Option<TypeModel> = Some(ty_path("String", None));
    proof {
        assert(params_view(ps@) =~~= Seq::<(Seq<char>, TypeView)>::empty());
        assert(opt_type_view(out) == Some(tpath("String"@, None)));
    }
    push_decl(methods, "get_cwd", " Get current working directory", None, ps, out);
    let ps = vec![param("parts", ty_path("Vec", Some(ty_path("String", None))))];
    let out: Option<TypeModel> = Some(ty_path("String", None));
    proof {
        assert(params_view(ps@) =~~= seq![("parts"@, tpath("Vec"@, Some(tpath("String"@, None))))]);
        assert(opt_type_view(out) == Some(tpath("String"@, None)));
    }
    push_decl(methods, "path_join", " Join path segments", None, ps, out);
    let ps = vec![param("path", ty_path("String", None))];
    let out: Option<TypeModel> = Some(ty_path("String", None));
    proof {
        assert(params_view(ps@) =~~= seq![("path"@, tpath("String"@, None))]);
        assert(opt_type_view(out) == Some(tpath("String"@, None)));
    }
    push_decl(methods, "path_dirname", " Get directory name", None, ps, out);
    let ps = vec![param("path", ty_path("String", None))];
    let out: Option<TypeModel> = Some(ty_path("String", None));
    proof {
        assert(params_view(ps@) =~~= seq![("path"@, tpath("String"@, None))]);
        assert(opt_type_view(out) == Some(tpath("String"@, None)));
    }
    push_decl(methods, "path_basename", " Get base name", None, ps, out);
    let ps = vec![param("path", ty_path("String", None))];
    let out: Option<TypeModel> = Some(ty_path("String", None));
    proof {
        assert(params_view(ps@) =~~= seq![("path"@, tpath("String"@, None))]);
        assert(opt_type_view(out) == Some(tpath("String"@, None)));
    }
    push_decl(methods, "path_extname", " Get file extension", None, ps, out);
    let ps = vec![param("path", ty_path("String", None))];
    let out: Option<TypeModel> = Some(ty_path("bool", None));
    proof {
        assert(params_view(ps@) =~~= seq![("path"@, tpath("String"@, None))]);
        assert(opt_type_view(out) == Some(tpath("bool"@, None)));
    }
    push_decl(methods, "path_is_absolute", " Check if path is absolute", None, ps, out);
    let ps = vec![param("path", ty_path("String", None))];
    let out: Option<TypeModel> = Some(ty_path("bool", None));
    proof {
        assert(params_view(ps@) =~~= seq![("path"@, tpath("String"@, None))]);
        assert(opt_type_view(out) == Some(tpath("bool"@, None)));
    }
    push_decl(methods, "file_exists", " Check if file exists", None, ps, out);
    let ps = vec![param("path", ty_path("String", None))];
    let out: Option<TypeModel> = Some(ty_path("Option", Some(ty_path("String", None))));
    proof {
        assert(params_view(ps@) =~~= seq![("path"@, tpath("String"@, None))]);
        assert(opt_type_view(out) == Some(tpath("Option"@, Some(tpath("String"@, None)))));
    }
    push_decl(methods, "read_file_sync", " Read file contents (sync)", None, ps, out);
    proof {
        assert(methods@.map_values(|d: MethodDecl| decl_view(d)) =~= start + api_decls_11());
    }
}


/// Declarations 89 to 96 of the editor API.
pub open spec fn api_decls_12() -> Seq<MethodDeclView> {
    seq![
        decl("write_file_sync"@, " Write file contents (sync)"@, Seq::empty(),
            seq![("path"@, tpath("String"@, None)), ("content"@, tpath("String"@, None))],
            Some(tpath("bool"@, None))),
        decl("read_dir"@, " Read directory contents as JSON"@, Seq::empty(),
            seq![("path"@, tpath("String"@, None))],
            Some(tpath("String"@, None))),
        decl("file_stat"@, " Get file stat info as JSON"@, Seq::empty(),
            seq![("path"@, tpath("String"@, None))],
            Some(tpath("String"@, None))),
        decl("plugin_translate"@, " Translate a plugin string (internal)"@, seq!["js_name = \"_pluginTranslate\""@],
            seq![("plugin_name"@, tpath("String"@, None)), ("key"@, tpath("String"@, None)), ("args_json"@, tpath("String"@, None))],
            Some(tpath("String"@, None))),
        decl("create_scroll_sync_group"@, " Create a scroll sync group"@, Seq::empty(),
            seq![("group_id"@, tpath("u32"@, None)), ("left_split"@, tpath("u32"@, None)), ("right_split"@, tpath("u32"@, None))],
            Some(tpath("bool"@, None))),
        decl("set_scroll_sync_anchors"@, " Set scroll sync anchors (takes JSON)"@, Seq::empty(),
            seq![("group_id"@, tpath("u32"@, None)), ("anchors_json"@, tpath("String"@, None))],
            Some(tpath("bool"@, None))),
        decl("remove_scroll_sync_group"@, " Remove a scroll sync group"@, Seq::empty(),
            seq![("group_id"@, tpath("u32"@, None))],
            Some(tpath("bool"@, None))),
        decl("show_action_popup"@, " Show an action popup (takes JSON)"@, Seq::empty(),
            seq![("options_json"@, tpath("String"@, None))],
            Some(tpath("bool"@, None))),
    ]
}

fn method_decls_12(methods: &mut Vec<MethodDecl>)
    ensures
        final(methods)@.map_values(|d: MethodDecl| decl_view(d)) == old(methods)@.map_values(
            |d: MethodDecl| decl_view(d)) + api_decls_12(),
{
    let ghost start = methods@.map_values(|d: MethodDecl| decl_view(d));
    let ps = vec![param("path", ty_path("String", None)), param("content", ty_path("String", None))];
    let out: Option<TypeModel> = Some(ty_path("bool", None));
    proof {
        assert(params_view(ps@) =~~= seq![("path"@, tpath("String"@, None)), ("content"@, tpath("String"@, None))]);
        assert(opt_type_view(out) == Some(tpath("bool"@, None)));
    }
    push_decl(methods, "write_file_sync", " Write file contents (sync)", None, ps, out);
    let ps = vec![param("path", ty_path("String", None))];
    let out: Option<TypeModel> = Some(ty_path("String", None));
    proof {
        assert(params_view(ps@) =~~= seq![("path"@, tpath("String"@, None))]);
        assert(opt_type_view(out) == Some(tpath("String"@, None)));
    }
    push_decl(methods, "read_dir", " Read directory contents as JSON", None, ps, out);
    let ps = vec![param("path", ty_path("String", None))];
    let out: Option<TypeModel> = Some(ty_path("String", None));
    proof {
        assert(params_view(ps@) =~~= seq![("path"@, tpath("String"@, None))]);
        assert(opt_type_view(out) == Some(tpath("String"@, None)));
    }
    push_decl(methods, "file_stat", " Get file stat info as JSON", None, ps, out);
    let ps = vec![param("plugin_name", ty_path("String", None)), param("key", ty_path("String", None)), param("args_json", ty_path("String", None))];
    let out: Option<TypeModel> = Some(ty_path("String", None));
    proof {
        assert(params_view(ps@) =~~= seq![("plugin_name"@, tpath("String"@, None)), ("key"@, tpath("String"@, None)), ("args_json"@, tpath("String"@, None))]);
        assert(opt_type_view(out) == Some(tpath("String"@, None)));
    }
    push_decl(methods, "plugin_translate", " Translate a plugin string (internal)", Some("js_name = \"_pluginTranslate\""), ps, out);
    let ps = vec![param("group_id", ty_path("u32", None)), param("left_split", ty_path("u32", None)), param("right_split", ty_path("u32", None))];
    let out: Option<TypeModel> = Some(ty_path("bool", None));
    proof {
        assert(params_view(ps@) =~~= seq![("group_id"@, tpath("u32"@, None)), ("left_split"@, tpath("u32"@, None)), ("right_split"@, tpath("u32"@, None))]);
        assert(opt_type_view(out) == Some(tpath("bool"@, None)));
    }
    push_decl(methods, "create_scroll_sync_group", " Create a scroll sync group", None, ps, out);
    let ps = vec![param("group_id", ty_path("u32", None)), param("anchors_json", ty_path("String", None))];
    let out: Option<TypeModel> = Some(ty_path("bool", None));
    proof {
        assert(params_view(ps@) =~~= seq![("group_id"@, tpath("u32"@, None)), ("anchors_json"@, tpath("String"@, None))]);
        assert(opt_type_view(out) == Some(tpath("bool"@, None)));
    }
    push_decl(methods, "set_scroll_sync_anchors", " Set scroll sync anchors (takes JSON)", None, ps, out);
    let ps = vec![param("group_id", ty_path("u32", None))];
    let out: Option<TypeModel> = Some(ty_path("bool", None));
    proof {
        assert(params_view(ps@) =~~= seq![("group_id"@, tpath("u32"@, None))]);
        assert(opt_type_view(out) == Some(tpath("bool"@, None)));
    }
    push_decl(methods, "remove_scroll_sync_group", " Remove a scroll sync group", None, ps, out);
    let ps = vec![param("options_json", ty_path("String", None))];
    let out: Option<TypeModel> = Some(ty_path("bool", None));
    proof {
        assert(params_view(ps@) =~~= seq![("options_json"@, tpath("String"@, None))]);
        assert(opt_type_view(out) == Some(tpath("bool"@, None)));
    }
    push_decl(methods, "show_action_popup", " Show an action popup (takes JSON)", None, ps, out);
    proof {
        assert(methods@.map_values(|d: MethodDecl| decl_view(d)) =~= start + api_decls_12());
    }
}


/// Declarations 97 to 104 of the editor API.
pub open spec fn api_decls_13() -> Seq<MethodDeclView> {
    seq![
        decl("disable_lsp_for_language"@, " Disable LSP for a language"@, Seq::empty(),
            seq![("language"@, tpath("String"@, None))],
            Some(tpath("bool"@, None))),
        decl("submit_view_transform"@, " Submit a view transform (takes JSON)"@, Seq::empty(),
            seq![("buffer_id"@, tpath("u32"@, None)), ("split_id"@, tpath("Option"@, Some(tpath("u32"@, None)))), ("start"@, tpath("u32"@, None)), ("end"@, tpath("u32"@, None)), ("tokens_json"@, tpath("String"@, None)), ("layout_hints_json"@, tpath("Option"@, Some(tpath("String"@, None))))],
            Some(tpath("bool"@, None))),
        decl("clear_view_transform"@, " Clear view transform"@, Seq::empty(),
            seq![("buffer_id"@, tpath("u32"@, None)), ("split_id"@, tpath("Option"@, Some(tpath("u32"@, None))))],
            Some(tpath("bool"@, None))),
        decl("delay"@, " Delay execution for specified milliseconds"@, Seq::empty(),
            seq![("callback_id"@, tpath("u64"@, None)), ("duration_ms"@, tpath("u64"@, None))],
            Some(tpath("Promise"@, Some(TypeView::Unit)))),
        decl("get_buffer_text"@, " Get text from a buffer range"@, Seq::empty(),
            seq![("callback_id"@, tpath("u64"@, None)), ("buffer_id"@, tpath("u32"@, None)), ("start"@, tpath("u32"@, None)), ("end"@, tpath("u32"@, None))],
            Some(tpath("Promise"@, Some(tpath("String"@, None))))),
        decl("read_file"@, " Read file contents (async)"@, Seq::empty(),
            seq![("callback_id"@, tpath("u64"@, None)), ("path"@, tpath("String"@, None))],
            Some(tpath("Promise"@, Some(tpath("String"@, None))))),
        decl("write_file"@, " Write file contents (async)"@, Seq::empty(),
            seq![("callback_id"@, tpath("u64"@, None)), ("path"@, tpath("String"@, None)), ("content"@, tpath("String"@, None))],
            Some(tpath("Promise"@, Some(TypeView::Unit)))),
        decl("delete_theme"@, " Delete a theme (async)"@, Seq::empty(),
            seq![("callback_id"@, tpath("u64"@, None)), ("name"@, tpath("String"@, None))],
            Some(tpath("Promise"@, Some(TypeView::Unit)))),
    ]
}

fn method_decls_13(methods: &mut Vec<MethodDecl>)
    ensures
        final(methods)@.map_values(|d: MethodDecl| decl_view(d)) == old(methods)@.map_values(
            |d: MethodDecl| decl_view(d)) + api_decls_13(),
{
    let ghost start = methods@.map_values(|d: MethodDecl| decl_view(d));
    let ps = vec![param("language", ty_path("String", None))];
    let out: Option<TypeModel> = Some(ty_path("bool", None));
    proof {
        assert(params_view(ps@) =~~= seq![("language"@, tpath("String"@, None))]);
        assert(opt_type_view(out) == Some(tpath("bool"@, None)));
    }
    push_decl(methods, "disable_lsp_for_language", " Disable LSP for a language", None, ps, out);
    let ps = vec![param("buffer_id", ty_path("u32", None)), param("split_id", ty_path("Option", Some(ty_path("u32", None)))), param("start", ty_path("u32", None)), param("end", ty_path("u32", None)), param("tokens_json", ty_path("String", None)), param("layout_hints_json", ty_path("Option", Some(ty_path("String", None))))];
    let out: Option<TypeModel> = Some(ty_path("bool", None));
    proof {
        assert(params_view(ps@) =~~= seq![("buffer_id"@, tpath("u32"@, None)), ("split_id"@, tpath("Option"@, Some(tpath("u32"@, None)))), ("start"@, tpath("u32"@, None)), ("end"@, tpath("u32"@, None)), ("tokens_json"@, tpath("String"@, None)), ("layout_hints_json"@, tpath("Option"@, Some(tpath("String"@, None))))]);
        assert(opt_type_view(out) == Some(tpath("bool"@, None)));
    }
    push_decl(methods, "submit_view_transform", " Submit a view transform (takes JSON)", None, ps, out);
    let ps = vec![param("buffer_id", ty_path("u32", None)), param("split_id", ty_path("Option", Some(ty_path("u32", None))))];
    let out: Option<TypeModel> = Some(ty_path("bool", None));
    proof {
        assert(params_view(ps@) =~~= seq![("buffer_id"@, tpath("u32"@, None)), ("split_id"@, tpath("Option"@, Some(tpath("u32"@, None))))]);
        assert(opt_type_view(out) == Some(tpath("bool"@, None)));
    }
    push_decl(methods, "clear_view_transform", " Clear view transform", None, ps, out);
    let ps = vec![param("callback_id", ty_path("u64", None)), param("duration_ms", ty_path("u64", None))];
    let out: Option<TypeModel> = Some(ty_path("Promise", Some(TypeModel::Unit)));
    proof {
        assert(params_view(ps@) =~~= seq![("callback_id"@, tpath("u64"@, None)), ("duration_ms"@, tpath("u64"@, None))]);
        assert(opt_type_view(out) == Some(tpath("Promise"@, Some(TypeView::Unit))));
    }
    push_decl(methods, "delay", " Delay execution for specified milliseconds", None, ps, out);
    let ps = vec![param("callback_id", ty_path("u64", None)), param("buffer_id", ty_path("u32", None)), param("start", ty_path("u32", None)), param("end", ty_path("u32", None))];
    let out: Option<TypeModel> = Some(ty_path("Promise", Some(ty_path("String", None))));
    proof {
        assert(params_view(ps@) =~~= seq![("callback_id"@, tpath("u64"@, None)), ("buffer_id"@, tpath("u32"@, None)), ("start"@, tpath("u32"@, None)), ("end"@, tpath("u32"@, None))]);
        assert(opt_type_view(out) == Some(tpath("Promise"@, Some(tpath("String"@, None)))));
    }
    push_decl(methods, "get_buffer_text", " Get text from a buffer range", None, ps, out);
    let ps = vec![param("callback_id", ty_path("u64", None)), param("path", ty_path("String", None))];
    let out: Option<TypeModel> = Some(ty_path("Promise", Some(ty_path("String", None))));
    proof {
        assert(params_view(ps@) =~~= seq![("callback_id"@, tpath("u64"@, None)), ("path"@, tpath("String"@, None))]);
        assert(opt_type_view(out) == Some(tpath("Promise"@, Some(tpath("String"@, None)))));
    }
    push_decl(methods, "read_file", " Read file contents (async)", None, ps, out);
    let ps = vec![param("callback_id", ty_path("u64", None)), param("path", ty_path("String", None)), param("content", ty_path("String", None))];
    let out: Option<TypeModel> = Some(ty_path("Promise", Some(TypeModel::Unit)));
    proof {
        assert(params_view(ps@) =~~= seq![("callback_id"@, tpath("u64"@, None)), ("path"@, tpath("String"@, None)), ("content"@, tpath("String"@, None))]);
        assert(opt_type_view(out) == Some(tpath("Promise"@, Some(TypeView::Unit))));
    }
    push_decl(methods, "write_file", " Write file contents (async)", None, ps, out);
    let ps = vec![param("callback_id", ty_path("u64", None)), param("name", ty_path("String", None))];
    let out: Option<TypeModel> = Some(ty_path("Promise", Some(TypeModel::Unit)));
    proof {
        assert(params_view(ps@) =~~= seq![("callback_id"@, tpath("u64"@, None)), ("name"@, tpath("String"@, None))]);
        assert(opt_type_view(out) == Some(tpath("Promise"@, Some(TypeView::Unit))));
    }
    push_decl(methods, "delete_theme", " Delete a theme (async)", None, ps, out);
    proof {
        assert(methods@.map_values(|d: MethodDecl| decl_view(d)) =~= start + api_decls_13());
    }
}


/// Declarations 105 to 112 of the editor API.
pub open spec fn api_decls_14() -> Seq<MethodDeclView> {
    seq![
        decl("send_lsp_request"@, " Send an LSP request"@, Seq::empty(),
            seq![("callback_id"@, tpath("u64"@, None)), ("language"@, tpath("String"@, None)), ("method"@, tpath("String"@, None)), ("params_json"@, tpath("Option"@, Some(tpath("String"@, None))))],
            Some(tpath("Promise"@, Some(tpath("String"@, None))))),
        decl("get_highlights"@, " Get syntax highlights for a range"@, Seq::empty(),
            seq![("callback_id"@, tpath("u64"@, None)), ("buffer_id"@, tpath("u32"@, None)), ("start"@, tpath("u32"@, None)), ("end"@, tpath("u32"@, None))],
            Some(tpath("Promise"@, Some(tpath("String"@, None))))),
        decl("kill_process"@, " Kill a background process"@, Seq::empty(),
            seq![("callback_id"@, tpath("u64"@, None)), ("process_id"@, tpath("u64"@, None))],
            Some(tpath("Promise"@, Some(tpath("bool"@, None))))),
        decl("spawn_process_wait"@, " Wait for a spawned process"@, Seq::empty(),
            seq![("callback_id"@, tpath("u64"@, None)), ("process_id"@, tpath("u64"@, None))],
            Some(tpath("Promise"@, Some(tpath("String"@, None))))),
        decl("create_virtual_buffer"@, " Create a virtual buffer in current split (takes JSON options)"@, Seq::empty(),
            seq![("callback_id"@, tpath("u64"@, None)), ("options_json"@, tpath("String"@, None))],
            Some(tpath("Promise"@, Some(tpath("u32"@, None))))),
        decl("create_virtual_buffer_in_split"@, " Create a virtual buffer in a new split (takes JSON options)"@, Seq::empty(),
            seq![("callback_id"@, tpath("u64"@, None)), ("options_json"@, tpath("String"@, None))],
            Some(tpath("Promise"@, Some(tpath("String"@, None))))),
        decl("create_virtual_buffer_in_existing_split"@, " Create a virtual buffer in an existing split (takes JSON options)"@, Seq::empty(),
            seq![("callback_id"@, tpath("u64"@, None)), ("options_json"@, tpath("String"@, None))],
            Some(tpath("Promise"@, Some(tpath("u32"@, None))))),
        decl("set_virtual_buffer_content"@, " Set virtual buffer content (takes JSON entries)"@, Seq::empty(),
            seq![("buffer_id"@, tpath("u32"@, None)), ("entries_json"@, tpath("String"@, None))],
            Some(tpath("bool"@, None))),
    ]
}

fn method_decls_14(methods: &mut Vec<MethodDecl>)
    ensures
        final(methods)@.map_values(|d: MethodDecl| decl_view(d)) == old(methods)@.map_values(
            |d: MethodDecl| decl_view(d)) + api_decls_14(),
{
    let ghost start = methods@.map_values(|d: MethodDecl| decl_view(d));
    let ps = vec![param("callback_id", ty_path("u64", None)), param("language", ty_path("String", None)), param("method", ty_path("String", None)), param("params_json", ty_path("Option", Some(ty_path("String", None))))];
    let out: Option<TypeModel> = Some(ty_path("Promise", Some(ty_path("String", None))));
    proof {
        assert(params_view(ps@) =~~= seq![("callback_id"@, tpath("u64"@, None)), ("language"@, tpath("String"@, None)), ("method"@, tpath("String"@, None)), ("params_json"@, tpath("Option"@, Some(tpath("String"@, None))))]);
        assert(opt_type_view(out) == Some(tpath("Promise"@, Some(tpath("String"@, None)))));
    }
    push_decl(methods, "send_lsp_request", " Send an LSP request", None, ps, out);
    let ps = vec![param("callback_id", ty_path("u64", None)), param("buffer_id", ty_path("u32", None)), param("start", ty_path("u32", None)), param("end", ty_path("u32", None))];
    let out: Option<TypeModel> = Some(ty_path("Promise", Some(ty_path("String", None))));
    proof {
        assert(params_view(ps@) =~~= seq![("callback_id"@, tpath("u64"@, None)), ("buffer_id"@, tpath("u32"@, None)), ("start"@, tpath("u32"@, None)), ("end"@, tpath("u32"@, None))]);
        assert(opt_type_view(out) == Some(tpath("Promise"@, Some(tpath("String"@, None)))));
    }
    push_decl(methods, "get_highlights", " Get syntax highlights for a range", None, ps, out);
    let ps = vec![param("callback_id", ty_path("u64", None)), param("process_id", ty_path("u64", None))];
    let out: Option<TypeModel> = Some(ty_path("Promise", Some(ty_path("bool", None))));
    proof {
        assert(params_view(ps@) =~~= seq![("callback_id"@, tpath("u64"@, None)), ("process_id"@, tpath("u64"@, None))]);
        assert(opt_type_view(out) == Some(tpath("Promise"@, Some(tpath("bool"@, None)))));
    }
    push_decl(methods, "kill_process", " Kill a background process", None, ps, out);
    let ps = vec![param("callback_id", ty_path("u64", None)), param("process_id", ty_path("u64", None))];
    let out: Option<TypeModel> = Some(ty_path("Promise", Some(ty_path("String", None))));
    proof {
        assert(params_view(ps@) =~~= seq![("callback_id"@, tpath("u64"@, None)), ("process_id"@, tpath("u64"@, None))]);
        assert(opt_type_view(out) == Some(tpath("Promise"@, Some(tpath("String"@, None)))));
    }
    push_decl(methods, "spawn_process_wait", " Wait for a spawned process", None, ps, out);
    let ps = vec![param("callback_id", ty_path("u64", None)), param("options_json", ty_path("String", None))];
    let out: Option<TypeModel> = Some(ty_path("Promise", Some(ty_path("u32", None))));
    proof {
        assert(params_view(ps@) =~~= seq![("callback_id"@, tpath("u64"@, None)), ("options_json"@, tpath("String"@, None))]);
        assert(opt_type_view(out) == Some(tpath("Promise"@, Some(tpath("u32"@, None)))));
    }
    push_decl(methods, "create_virtual_buffer", " Create a virtual buffer in current split (takes JSON options)", None, ps, out);
    let ps = vec![param("callback_id", ty_path("u64", None)), param("options_json", ty_path("String", None))];
    let out: Option<TypeModel> = Some(ty_path("Promise", Some(ty_path("String", None))));
    proof {
        assert(params_view(ps@) =~~= seq![("callback_id"@, tpath("u64"@, None)), ("options_json"@, tpath("String"@, None))]);
        assert(opt_type_view(out) == Some(tpath("Promise"@, Some(tpath("String"@, None)))));
    }
    push_decl(methods, "create_virtual_buffer_in_split", " Create a virtual buffer in a new split (takes JSON options)", None, ps, out);
    let ps = vec![param("callback_id", ty_path("u64", None)), param("options_json", ty_path("String", None))];
    let out: Option<TypeModel> = Some(ty_path("Promise", Some(ty_path("u32", None))));
    proof {
        assert(params_view(ps@) =~~= seq![("callback_id"@, tpath("u64"@, None)), ("options_json"@, tpath("String"@, None))]);
        assert(opt_type_view(out) == Some(tpath("Promise"@, Some(tpath("u32"@, None)))));
    }
    push_decl(methods, "create_virtual_buffer_in_existing_split", " Create a virtual buffer in an existing split (takes JSON options)", None, ps, out);
    let ps = vec![param("buffer_id", ty_path("u32", None)), param("entries_json", ty_path("String", None))];
    let out: Option<TypeModel> = Some(ty_path("bool", None));
    proof {
        assert(params_view(ps@) =~~= seq![("buffer_id"@, tpath("u32"@, None)), ("entries_json"@, tpath("String"@, None))]);
        assert(opt_type_view(out) == Some(tpath("bool"@, None)));
    }
    push_decl(methods, "set_virtual_buffer_content", " Set virtual buffer content (takes JSON entries)", None, ps, out);
    proof {
        assert(methods@.map_values(|d: MethodDecl| decl_view(d)) =~= start + api_decls_14());
    }
}


/// Declarations 113 to 117 of the editor API.
pub open spec fn api_decls_15() -> Seq<MethodDeclView> {
    seq![
        decl("create_composite_buffer"@, " Create a composite buffer (takes JSON options)"@, Seq::empty(),
            seq![("callback_id"@, tpath("u64"@, None)), ("options_json"@, tpath("String"@, None))],
            Some(tpath("Promise"@, Some(tpath("u32"@, None))))),
        decl("update_composite_alignment"@, " Update composite buffer alignment (takes JSON hunks)"@, Seq::empty(),
            seq![("buffer_id"@, tpath("u32"@, None)), ("hunks_json"@, tpath("String"@, None))],
            Some(tpath("bool"@, None))),
        decl("close_composite_buffer"@, " Close a composite buffer"@, Seq::empty(),
            seq![("buffer_id"@, tpath("u32"@, None))],
            Some(tpath("bool"@, None))),
        decl("spawn_process"@, " Spawn a process (cancellable)"@, Seq::empty(),
            seq![("callback_id"@, tpath("u64"@, None)), ("command"@, tpath("String"@, None)), ("args"@, tpath("Vec"@, Some(tpath("String"@, None)))), ("cwd"@, tpath("Option"@, Some(tpath("String"@, None))))],
            Some(tpath("Thenable"@, Some(tpath("String"@, None))))),
        decl("spawn_background_process"@, " Spawn a background process (cancellable)"@, Seq::empty(),
            seq![("callback_id"@, tpath("u64"@, None)), ("command"@, tpath("String"@, None)), ("args"@, tpath("Vec"@, Some(tpath("String"@, None)))), ("cwd"@, tpath("Option"@, Some(tpath("String"@, None))))],
            Some(tpath("Thenable"@, Some(tpath("String"@, None))))),
    ]
}

fn method_decls_15(methods: &mut Vec<MethodDecl>)
    ensures
        final(methods)@.map_values(|d: MethodDecl| decl_view(d)) == old(methods)@.map_values(
            |d: MethodDecl| decl_view(d)) + api_decls_15(),
{
    let ghost start = methods@.map_values(|d: MethodDecl| decl_view(d));
    let ps = vec![param("callback_id", ty_path("u64", None)), param("options_json", ty_path("String", None))];
    let out: Option<TypeModel> = Some(ty_path("Promise", Some(ty_path("u32", None))));
    proof {
        assert(params_view(ps@) =~~= seq![("callback_id"@, tpath("u64"@, None)), ("options_json"@, tpath("String"@, None))]);
        assert(opt_type_view(out) == Some(tpath("Promise"@, Some(tpath("u32"@, None)))));
    }
    push_decl(methods, "create_composite_buffer", " Create a composite buffer (takes JSON options)", None, ps, out);
    let ps = vec![param("buffer_id", ty_path("u32", None)), param("hunks_json", ty_path("String", None))];
    let out: Option<TypeModel> = Some(ty_path("bool", None));
    proof {
        assert(params_view(ps@) =~~= seq![("buffer_id"@, tpath("u32"@, None)), ("hunks_json"@, tpath("String"@, None))]);
        assert(opt_type_view(out) == Some(tpath("bool"@, None)));
    }
    push_decl(methods, "update_composite_alignment", " Update composite buffer alignment (takes JSON hunks)", None, ps, out);
    let ps = vec![param("buffer_id", ty_path("u32", None))];
    let out: Option<TypeModel> = Some(ty_path("bool", None));
    proof {
        assert(params_view(ps@) =~~= seq![("buffer_id"@, tpath("u32"@, None))]);
        assert(opt_type_view(out) == Some(tpath("bool"@, None)));
    }
    push_decl(methods, "close_composite_buffer", " Close a composite buffer", None, ps, out);
    let ps = vec![param("callback_id", ty_path("u64", None)), param("command", ty_path("String", None)), param("args", ty_path("Vec", Some(ty_path("String", None)))), param("cwd", ty_path("Option", Some(ty_path("String", None))))];
    let out: Option<TypeModel> = Some(ty_path("Thenable", Some(ty_path("String", None))));
    proof {
        assert(params_view(ps@) =~~= seq![("callback_id"@, tpath("u64"@, None)), ("command"@, tpath("String"@, None)), ("args"@, tpath("Vec"@, Some(tpath("String"@, None)))), ("cwd"@, tpath("Option"@, Some(tpath("String"@, None))))]);
        assert(opt_type_view(out) == Some(tpath("Thenable"@, Some(tpath("String"@, None)))));
    }
    push_decl(methods, "spawn_process", " Spawn a process (cancellable)", None, ps, out);
    let ps = vec![param("callback_id", ty_path("u64", None)), param("command", ty_path("String", None)), param("args", ty_path("Vec", Some(ty_path("String", None)))), param("cwd", ty_path("Option", Some(ty_path("String", None))))];
    let out: Option<TypeModel> = Some(ty_path("Thenable", Some(ty_path("String", None))));
    proof {
        assert(params_view(ps@) =~~= seq![("callback_id"@, tpath("u64"@, None)), ("command"@, tpath("String"@, None)), ("args"@, tpath("Vec"@, Some(tpath("String"@, None)))), ("cwd"@, tpath("Option"@, Some(tpath("String"@, None))))]);
        assert(opt_type_view(out) == Some(tpath("Thenable"@, Some(tpath("String"@, None)))));
    }
    push_decl(methods, "spawn_background_process", " Spawn a background process (cancellable)", None, ps, out);
    proof {
        assert(methods@.map_values(|d: MethodDecl| decl_view(d)) =~= start + api_decls_15());
    }
}


/// The declared methods of the editor API, in declaration order.
pub open spec fn spec_editor_api() -> Seq<MethodDeclView> {
    api_decls_1() + api_decls_2() + api_decls_3() + api_decls_4() + api_decls_5() + api_decls_6() + api_decls_7() + api_decls_8() + api_decls_9() + api_decls_10() + api_decls_11() + api_decls_12() + api_decls_13() + api_decls_14() + api_decls_15()
}

/// The declared methods of the editor API, in declaration order.
pub fn editor_api_method_decls() -> (r: Vec<MethodDecl>)
    ensures
        r@.map_values(|d: MethodDecl| decl_view(d)) == spec_editor_api(),
{
    let mut methods: Vec<MethodDecl> = Vec::new();
    proof {
        assert(methods@.map_values(|d: MethodDecl| decl_view(d)) =~= Seq::<MethodDeclView>::empty());
    }
    method_decls_1(&mut methods);
    method_decls_2(&mut methods);
    method_decls_3(&mut methods);
    method_decls_4(&mut methods);
    method_decls_5(&mut methods);
    method_decls_6(&mut methods);
    method_decls_7(&mut methods);
    method_decls_8(&mut methods);
    method_decls_9(&mut methods);
    method_decls_10(&mut methods);
    method_decls_11(&mut methods);
    method_decls_12(&mut methods);
    method_decls_13(&mut methods);
    method_decls_14(&mut methods);
    method_decls_15(&mut methods);
    proof {
        assert(Seq::<MethodDeclView>::empty() + api_decls_1() + api_decls_2() + api_decls_3() + api_decls_4() + api_decls_5() + api_decls_6() + api_decls_7() + api_decls_8() + api_decls_9() + api_decls_10() + api_decls_11() + api_decls_12() + api_decls_13() + api_decls_14() + api_decls_15() =~= spec_editor_api());
    }
    methods
}

/// The parsed methods of the editor API.
pub open spec fn spec_editor_api_methods() -> Seq<ApiMethodView> {
    spec_parse_decls(spec_editor_api())
}

/// TypeScript definitions for the plugin API (the full .d.ts content).
pub fn editorapi_typescript_definitions() -> (r: String)
    ensures
        r@ == spec_typescript_definitions(spec_editor_api_methods()),
{
    let decls = editor_api_method_decls();
    let methods = parse_methods(&decls);
    proof {
        lemma_parse_methods_view(decls@);
    }
    typescript_definitions(&methods)
}

/// All JavaScript method names of the plugin API, in declaration order.
pub fn editorapi_js_methods() -> (r: Vec<String>)
    ensures
        r@.map_values(|s: String| s@) == spec_editor_api_methods().map_values(|m: ApiMethodView| m.js_name),
{
    let decls = editor_api_method_decls();
    let methods = parse_methods(&decls);
    proof {
        lemma_parse_methods_view(decls@);
    }
    js_method_names(&methods)
}

/// JavaScript wrapper code for the async methods of the plugin API.
pub fn editorapi_js_async_wrappers() -> (r: String)
    ensures
        r@ == spec_js_async_wrappers(spec_editor_api_methods()),
{
    let decls = editor_api_method_decls();
    let methods = parse_methods(&decls);
    proof {
        lemma_parse_methods_view(decls@);
    }
    js_async_wrappers(&methods)
}

} // verus!
