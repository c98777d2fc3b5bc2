use fresh::action::Action;
use fresh::composite_buffer::SplitId;
use fresh::cursor::{Cursor, Cursors, ViewPosition};
use fresh::editor::{BufferMetadata, Editor, SplitView};
use fresh::event::Event;
use fresh::state::EditorState;
use fresh::text_buffer::Buffer;
use fresh::view_pipeline::{Layout, ViewTokenWire, ViewTokenWireKind};
use fresh::viewport::Viewport;

fn simple_layout(text: &str) -> Layout {
    let token = ViewTokenWire {
        source_offset: Some(0),
        kind: ViewTokenWireKind::Text(text.to_string()),
        style: None,
    };
    Layout::from_tokens(&[token], 0..text.len())
}

fn editor_with_view(text: &str, position: ViewPosition) -> Editor {
    let mut e = Editor::new();
    let mut state = EditorState::new(Buffer::from_bytes(text.as_bytes().to_vec()));
    *state.view_cursors.primary_mut() = Cursor::new(position);
    state.viewport = Viewport::new(80, 24);
    let meta = BufferMetadata::virtual_buffer("t".to_string(), "m".to_string(), false);
    let id = e.add_buffer(state, meta);
    e.set_active_buffer(id);
    let view = SplitView { cursors: Cursors::new(), viewport: Viewport::new(1, 1), layout: simple_layout(text) };
    e.split_view_states.push((SplitId(0), view));
    e
}

#[test]
fn editor_action_syncs_cursor_from_layout_before_inserting() {
    // The cursor's line and column are stale; its source byte 4 is the 'd' of "cd".
    let mut e = editor_with_view("ab\ncd\n", ViewPosition { view_line: 0, column: 0, source_byte: Some(4) });
    let events = e.action_to_events(Action::InsertChar('x')).expect("an insert");
    assert_eq!(events.len(), 1);
    match &events[0] {
        Event::Insert { position, text, .. } => {
            assert_eq!(position.view_line, 1);
            assert_eq!(position.column, 1);
            assert_eq!(position.source_byte, Some(4));
            assert_eq!(text, "x");
        }
        other => panic!("unexpected event {:?}", other),
    }
    let view = &e.split_view_states[0].1;
    assert_eq!(view.cursors.primary().position.view_line, 1);
    assert_eq!(view.cursors.primary().position.column, 1);
    assert_eq!((view.viewport.width, view.viewport.height), (80, 24));
    // The synced cursors and the viewport go back to the buffer.
    let state = &e.buffers[0].1;
    assert_eq!(state.view_cursors.primary().position.view_line, 1);
    assert_eq!(state.view_cursors.primary().position.column, 1);
    assert_eq!((state.viewport.width, state.viewport.height), (80, 24));
}

#[test]
fn editor_action_without_active_view_gives_none() {
    let mut e = editor_with_view("ab\n", ViewPosition { view_line: 0, column: 0, source_byte: Some(0) });
    e.active_split = SplitId(7);
    assert!(e.action_to_events(Action::InsertChar('x')).is_none());
}

#[test]
fn suggestions_popup_sits_above_the_prompt() {
    let r = fresh::editor::suggestions_popup_area(3, 80, 23);
    assert_eq!((r.x, r.y, r.width, r.height), (0, 18, 80, 5));
    let tall = fresh::editor::suggestions_popup_area(40, 100, 23);
    assert_eq!((tall.y, tall.height), (8, 15));
    let cut = fresh::editor::suggestions_popup_area(10, 20, 4);
    assert_eq!((cut.y, cut.height), (0, 12));
}
