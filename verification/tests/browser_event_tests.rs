use fresh::event_adapter::{
    key_event_from_name, mouse_event_from_name, WasmKeyCode, WasmKeyModifiers, WasmMouseButton, WasmMouseEventKind,
};

#[test]
fn key_names_map_to_key_codes() {
    let e = key_event_from_name("ArrowLeft", false, false, false).unwrap();
    assert_eq!(e.code, WasmKeyCode::Left);
    assert_eq!(e.modifiers.bits(), 0);
    let e = key_event_from_name("q", true, false, true).unwrap();
    assert_eq!(e.code, WasmKeyCode::Char('q'));
    assert!(e.modifiers.contains(WasmKeyModifiers::control()));
    assert!(e.modifiers.contains(WasmKeyModifiers::shift()));
    assert!(!e.modifiers.contains(WasmKeyModifiers::alt()));
    assert_eq!(key_event_from_name("Escape", false, true, false).unwrap().code, WasmKeyCode::Esc);
    // unknown names and non-ASCII single characters stand for no key
    assert!(key_event_from_name("F13", false, false, false).is_none());
    assert!(key_event_from_name("é", false, false, false).is_none());
    assert!(key_event_from_name("", false, false, false).is_none());
}

#[test]
fn mouse_names_map_to_mouse_events() {
    let e = mouse_event_from_name("mousedown", 3, 7).unwrap();
    assert_eq!(e.kind, WasmMouseEventKind::Down(WasmMouseButton::Left));
    assert_eq!((e.row, e.column), (3, 7));
    assert_eq!(e.modifiers.bits(), 0);
    assert_eq!(mouse_event_from_name("scrollup", 0, 0).unwrap().kind, WasmMouseEventKind::ScrollUp);
    assert_eq!(mouse_event_from_name("wheel_down", 0, 0).unwrap().kind, WasmMouseEventKind::ScrollDown);
    assert!(mouse_event_from_name("click", 0, 0).is_none());
}
