use fresh::draw::{Color, Rect, ThemeColor};
use fresh::wasm_editor::WasmEditorState;

#[test]
fn text_area_shows_lines_then_tildes() {
    let mut st = WasmEditorState::new(20, 6);
    st.buffer = fresh::wasm_editor::EditorBuffer::from_content("ab\ncd", None);
    st.buffer.cursor = (1, 1);
    let plan = st.render_text_area(Rect { x: 0, y: 0, width: 20, height: 4 });
    let texts: Vec<String> = plan.lines.iter().map(|s| s.text.clone()).collect();
    assert_eq!(texts, vec!["ab", "cd", "~", "~"]);
    assert_eq!(plan.lines[2].style.fg, Some(Color::Theme(ThemeColor::SyntaxComment)));
    assert_eq!(plan.cursor, Some((1, 1)));
    assert_eq!(plan.style.bg, Some(Color::Theme(ThemeColor::EditorBg)));
}

#[test]
fn status_bar_shows_name_message_and_position() {
    let mut st = WasmEditorState::new(30, 6);
    st.buffer = fresh::wasm_editor::EditorBuffer::from_content("hello", None);
    st.buffer.cursor = (0, 4);
    st.status_message = None;
    let bar = st.render_status_bar(Rect { x: 0, y: 5, width: 30, height: 1 });
    assert_eq!(bar.text, format!(" [No Name]  {} 1:5 ", " ".repeat(30 - 12 - 5)));
    assert_eq!(bar.style.fg, Some(Color::Theme(ThemeColor::EditorBg)));
    st.buffer.filename = Some("a.rs".to_string());
    st.buffer.modified = true;
    st.status_message = Some("saved".to_string());
    let bar = st.render_status_bar(Rect { x: 0, y: 5, width: 30, height: 1 });
    assert_eq!(bar.text, format!(" a.rs [+] saved{} 1:5 ", " ".repeat(30 - 10 - 5 - 5)));
}

#[test]
fn render_scrolls_to_the_cursor() {
    let mut st = WasmEditorState::new(20, 4);
    st.buffer = fresh::wasm_editor::EditorBuffer::from_content("0\n1\n2\n3\n4\n5", None);
    st.buffer.cursor = (5, 0);
    let size = Rect { x: 0, y: 0, width: 20, height: 4 };
    let (text, bar) = st.render(size, Rect { x: 0, y: 0, width: 20, height: 3 }, Rect { x: 0, y: 3, width: 20, height: 1 });
    // two rows are kept visible: lines 4 and 5 from the top
    assert_eq!(st.buffer.viewport_top, 4);
    let texts: Vec<String> = text.lines.iter().map(|s| s.text.clone()).collect();
    assert_eq!(texts, vec!["4", "5", "~"]);
    assert_eq!(text.cursor, Some((0, 1)));
    assert!(bar.text.ends_with(" 6:1 "));
}

#[test]
fn load_content_sets_buffer_status_and_highlighter() {
    let mut st = WasmEditorState::new(40, 10);
    st.load_content("fn main() {}\n", Some("src/main.rs".to_string()));
    assert_eq!(st.get_content(), "fn main() {}\n");
    assert!(!st.is_modified());
    assert_eq!(st.status_message.as_deref(), Some("Loaded: src/main.rs"));
    assert_eq!(st.highlighter.as_ref().map(|h| h.syntax_name().to_string()), Some("Rust".to_string()));
    st.load_content("x", None);
    assert_eq!(st.status_message.as_deref(), Some("Loaded: [No Name]"));
    // without a name the highlighter is kept
    assert!(st.highlighter.is_some());
    st.load_content("x", Some("notes.unknownext".to_string()));
    assert!(st.highlighter.is_none());
}
