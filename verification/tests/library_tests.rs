use fresh::ansi::{contains_ansi_codes, visible_char_count};
use fresh::api_macros::{determine_api_kind, rust_type_to_typescript, to_camel_case, ApiKind, TypeModel};
use fresh::draw::{decimal_chars, Color};
use fresh::event_adapter::{modifiers_from_keys, WasmKeyCode, WasmKeyEvent, WasmKeyModifiers};
use fresh::multi_cursor::{add_cursor_above, add_cursor_at_next_match, add_cursor_below, AddCursorResult};
use fresh::overlay::{Overlay, OverlayFace, OverlayHandle, OverlayManager, OverlayNamespace};
use fresh::state::{ByteCursor, EditorState};
use fresh::text_buffer::Buffer;
use fresh::transpile::{import_candidates, is_local_import, resolve_import};
use fresh::validate::{
    classify_error, format_path, invalid_json_result, make_schema_strict, validation_result_from_errors, JsonValue,
    ValidationErrorKind,
};
use fresh::wasm_editor::{EditorBuffer, WasmEditorState};

fn path(name: &str, inner: Option<TypeModel>) -> TypeModel {
    TypeModel::Path(name.to_string(), inner.map(Box::new))
}

#[test]
fn camel_case_of_snake_names() {
    assert_eq!(to_camel_case("get_buffer_text"), "getBufferText");
    assert_eq!(to_camel_case("simple"), "simple");
    assert_eq!(to_camel_case("a_b_c"), "aBC");
}

#[test]
fn typescript_types_of_rust_types() {
    assert_eq!(rust_type_to_typescript(&path("u32", None)), "number");
    assert_eq!(rust_type_to_typescript(&path("String", None)), "string");
    assert_eq!(rust_type_to_typescript(&path("bool", None)), "boolean");
    assert_eq!(rust_type_to_typescript(&path("Option", Some(path("u8", None)))), "number | null");
    assert_eq!(rust_type_to_typescript(&path("Vec", Some(path("String", None)))), "string[]");
    assert_eq!(rust_type_to_typescript(&TypeModel::Unit), "void");
    assert_eq!(rust_type_to_typescript(&path("BufferInfo", None)), "BufferInfo");
}

#[test]
fn api_kind_from_return_type() {
    assert_eq!(determine_api_kind(&None).0, ApiKind::Sync);
    let (k, inner) = determine_api_kind(&Some(path("Promise", Some(path("u32", None)))));
    assert_eq!(k, ApiKind::AsyncPromise);
    assert_eq!(rust_type_to_typescript(&inner.unwrap()), "number");
    assert_eq!(determine_api_kind(&Some(path("Thenable", Some(path("u32", None))))).0, ApiKind::AsyncThenable);
    assert_eq!(determine_api_kind(&Some(path("u32", None))).0, ApiKind::Sync);
}

#[test]
fn validation_errors_are_classified_by_message() {
    assert_eq!(classify_error("Additional properties are not allowed ('x' was unexpected)"), ValidationErrorKind::UnknownField);
    assert_eq!(classify_error("3 is not of type \"string\""), ValidationErrorKind::TypeMismatch);
    assert_eq!(classify_error("\"name\" is a required property"), ValidationErrorKind::MissingField);
    assert_eq!(classify_error("something else"), ValidationErrorKind::Other);
}

#[test]
fn json_paths_are_dotted() {
    assert_eq!(format_path(""), "(root)");
    assert_eq!(format_path("/"), "(root)");
    assert_eq!(format_path("/editor/bg"), "editor.bg");
    assert_eq!(format_path("//a"), "a");
}

#[test]
fn validation_results_from_reported_errors() {
    let r = validation_result_from_errors(vec![]);
    assert!(r.is_valid);
    let r = validation_result_from_errors(vec![("/ui/x".to_string(), "Additional properties are not allowed".to_string())]);
    assert!(!r.is_valid);
    assert_eq!(r.errors[0].path, "ui.x");
    assert_eq!(r.errors[0].kind, ValidationErrorKind::UnknownField);
    let r = invalid_json_result("EOF while parsing");
    assert!(!r.is_valid);
    assert_eq!(r.errors[0].path, "(root)");
    assert_eq!(r.errors[0].message, "Invalid JSON: EOF while parsing");
    assert_eq!(r.errors[0].kind, ValidationErrorKind::Other);
}

fn obj(entries: Vec<(&str, JsonValue)>) -> JsonValue {
    JsonValue::Object(entries.into_iter().map(|(k, v)| (k.to_string(), v)).collect())
}

fn has_false_additional(v: &JsonValue) -> bool {
    match v {
        JsonValue::Object(es) => es.iter().any(|(k, v)| k == "additionalProperties" && matches!(v, JsonValue::Bool(false))),
        _ => false,
    }
}

#[test]
fn strict_schema_closes_object_types() {
    let mut schema = obj(vec![
        ("type", JsonValue::String("object".to_string())),
        ("properties", obj(vec![("inner", obj(vec![("type", JsonValue::String("object".to_string()))]))])),
        ("$ref", obj(vec![("type", JsonValue::String("object".to_string()))])),
    ]);
    make_schema_strict(&mut schema);
    assert!(has_false_additional(&schema));
    if let JsonValue::Object(es) = &schema {
        let props = &es.iter().find(|(k, _)| k == "properties").unwrap().1;
        if let JsonValue::Object(ps) = props {
            assert!(has_false_additional(&ps[0].1));
        } else {
            panic!("properties");
        }
        let r = &es.iter().find(|(k, _)| k == "$ref").unwrap().1;
        assert!(!has_false_additional(r));
    } else {
        panic!("object");
    }
    // a schema that already says something keeps it
    let mut open = obj(vec![("type", JsonValue::String("object".to_string())), ("additionalProperties", JsonValue::Bool(true))]);
    make_schema_strict(&mut open);
    if let JsonValue::Object(es) = &open {
        assert_eq!(es.len(), 2);
    }
}

#[test]
fn ansi_codes_are_not_visible() {
    assert_eq!(visible_char_count("\x1b[31mred\x1b[0m"), 3);
    assert_eq!(visible_char_count("plain"), 5);
    assert!(contains_ansi_codes("a\x1b[1mb"));
    assert!(!contains_ansi_codes("ab"));
}

#[test]
fn key_modifier_bits() {
    let m = modifiers_from_keys(true, false, true);
    assert!(m.contains(WasmKeyModifiers::control()));
    assert!(m.contains(WasmKeyModifiers::shift()));
    assert!(!m.contains(WasmKeyModifiers::alt()));
    assert_eq!(modifiers_from_keys(false, false, false), WasmKeyModifiers::none());
}

#[test]
fn typing_then_backspace_restores_the_text() {
    let mut b = EditorBuffer::from_content("ab\ncd", None);
    b.cursor = (1, 1);
    let before = b.content();
    b.insert_char('x');
    assert_eq!(b.content(), "ab\ncxd");
    assert_eq!(b.cursor, (1, 2));
    b.delete_char();
    assert_eq!(b.content(), before);
    assert_eq!(b.cursor, (1, 1));
    b.cursor = (1, 0);
    b.delete_char();
    assert_eq!(b.content(), "abcd");
    assert_eq!(b.cursor, (0, 2));
}

#[test]
fn editor_keys_edit_and_move() {
    let mut st = WasmEditorState::new(40, 10);
    st.handle_key(WasmKeyEvent::new(WasmKeyCode::Char('h'), WasmKeyModifiers::none()));
    st.handle_key(WasmKeyEvent::new(WasmKeyCode::Char('i'), WasmKeyModifiers::none()));
    st.handle_key(WasmKeyEvent::new(WasmKeyCode::Enter, WasmKeyModifiers::none()));
    assert_eq!(st.buffer.content(), "hi\n");
    assert_eq!(st.buffer.cursor, (1, 0));
    assert!(st.buffer.modified);
    st.handle_key(WasmKeyEvent::new(WasmKeyCode::Up, WasmKeyModifiers::none()));
    assert_eq!(st.buffer.cursor, (0, 0));
    st.handle_key(WasmKeyEvent::new(WasmKeyCode::End, WasmKeyModifiers::none()));
    assert_eq!(st.buffer.cursor, (0, 2));
}

fn state_with(text: &str, cursor: ByteCursor) -> EditorState {
    let mut s = EditorState::new(Buffer::from_bytes(text.as_bytes().to_vec()));
    s.cursors[0] = cursor;
    s
}

#[test]
fn next_match_adds_a_selected_cursor() {
    let mut s = state_with("foo bar foo", ByteCursor::with_selection(0, 3));
    match add_cursor_at_next_match(&mut s) {
        AddCursorResult::Success { cursor, total_cursors } => {
            assert_eq!(cursor, ByteCursor { position: 11, anchor: Some(8) });
            assert_eq!(total_cursors, 2);
        }
        AddCursorResult::Failed { .. } => panic!("expected a match"),
    }
    let mut s = state_with("foo bar", ByteCursor::with_selection(0, 3));
    assert!(matches!(add_cursor_at_next_match(&mut s), AddCursorResult::Failed { message } if message == "No more matches"));
    let mut s = state_with("foo", ByteCursor::new(1));
    assert!(matches!(add_cursor_at_next_match(&mut s), AddCursorResult::Failed { message } if message == "No selection to match"));
}

#[test]
fn cursors_above_and_below_keep_the_column() {
    let mut s = state_with("abcd\nxy\nlonger", ByteCursor::new(6));
    match add_cursor_above(&mut s) {
        AddCursorResult::Success { cursor, .. } => assert_eq!(cursor.position, 1),
        _ => panic!("expected a line above"),
    }
    match add_cursor_below(&mut s) {
        AddCursorResult::Success { cursor, .. } => assert_eq!(cursor.position, 9),
        _ => panic!("expected a line below"),
    }
    let mut s = state_with("abcd\nxy", ByteCursor::new(2));
    assert!(matches!(add_cursor_above(&mut s), AddCursorResult::Failed { .. }));
}

#[test]
fn overlays_are_added_and_removed_by_handle_and_namespace() {
    let mut m = OverlayManager::new();
    let o = |ns: &str, s: usize| Overlay {
        handle: OverlayHandle(99),
        namespace: Some(OverlayNamespace::from_string(ns.to_string())),
        start: s,
        end: s + 1,
        face: OverlayFace::Background { color: Color::Yellow },
        priority: 0,
        message: None,
    };
    let h0 = m.add(o("a", 0));
    let h1 = m.add(o("b", 1));
    let h2 = m.add(o("a", 2));
    assert_eq!((h0, h1, h2), (OverlayHandle(0), OverlayHandle(1), OverlayHandle(2)));
    m.remove_by_handle(h1);
    assert_eq!(m.all().iter().map(|o| o.start).collect::<Vec<_>>(), vec![0, 2]);
    m.add(o("b", 5));
    m.clear_namespace(&OverlayNamespace::from_string("a".to_string()));
    assert_eq!(m.all().iter().map(|o| o.start).collect::<Vec<_>>(), vec![5]);
    assert_eq!(m.all()[0].handle, OverlayHandle(3));
}

#[test]
fn imports_resolve_to_the_first_existing_candidate() {
    let c = import_candidates("./util", "/p");
    assert_eq!(c, vec!["/p/./util", "/p/./util.ts", "/p/./util.js", "/p/./util/index.ts", "/p/./util/index.js"]);
    assert_eq!(resolve_import("./util", "/p", |p: &String| p.ends_with(".js")), Ok("/p/./util.js".to_string()));
    assert_eq!(resolve_import("./util", "/p", |p: &String| p.ends_with("index.ts")), Ok("/p/./util/index.ts".to_string()));
    assert_eq!(
        resolve_import("./util", "/p", |_p: &String| false),
        Err("Cannot resolve import './util' from /p".to_string())
    );
    assert!(is_local_import("../x"));
    assert!(!is_local_import("lodash"));
}

#[test]
fn buffer_line_numbers_and_counts() {
    let b = Buffer::from_bytes(b"a\nbc\n\nd".to_vec());
    assert_eq!(b.line_count(), Some(4));
    assert_eq!(b.get_line_number(0), 0);
    assert_eq!(b.get_line_number(2), 1);
    assert_eq!(b.get_line_number(6), 3);
    assert_eq!(b.get_line_number(100), 3);
    assert_eq!(Buffer::from_bytes(vec![]).line_count(), Some(1));
}

#[test]
fn decimal_digits_of_numbers() {
    assert_eq!(decimal_chars(0).iter().collect::<String>(), "0");
    assert_eq!(decimal_chars(907).iter().collect::<String>(), "907");
    assert_eq!(decimal_chars(usize::MAX).len(), usize::MAX.to_string().len());
}

#[test]
fn view_position_display_and_column_moves() {
    let p = fresh::cursor::ViewPosition { view_line: 3, column: 7, source_byte: Some(42) };
    assert_eq!(p.to_display_string(), "3:7 (@42)");
    let q = fresh::cursor::ViewPosition { source_byte: None, ..p };
    assert_eq!(q.to_display_string(), "3:7");
    let mut r = p;
    r.add_assign_columns(5);
    assert_eq!(r.column, 12);
    r.sub_assign_columns(20);
    assert_eq!(r.column, 0);
    assert_eq!(r.view_line, 3);
    let e = fresh::event::ViewEventPosition { view_line: 1, column: 2, source_byte: None };
    let v: fresh::cursor::ViewPosition = e.into();
    assert_eq!((v.view_line, v.column, v.source_byte), (1, 2, None));
}

#[test]
fn removing_the_overlay_just_added_restores_the_overlays() {
    let mut m = OverlayManager::new();
    let o = |s: usize| Overlay {
        handle: OverlayHandle(0),
        namespace: None,
        start: s,
        end: s + 2,
        face: OverlayFace::Foreground { color: Color::Red },
        priority: 1,
        message: None,
    };
    m.add(o(1));
    m.add(o(4));
    let before: Vec<(u64, usize)> = m.all().iter().map(|x| (x.handle.0, x.start)).collect();
    let h = m.add(o(9));
    m.remove_by_handle(h);
    let after: Vec<(u64, usize)> = m.all().iter().map(|x| (x.handle.0, x.start)).collect();
    assert_eq!(before, after);
}

