use fresh::draw::{Color, ThemeColor};
use fresh::lsp_diagnostics::{
    apply_diagnostics_to_state, apply_diagnostics_to_state_cached, compute_diagnostic_hash, diagnostic_to_overlay,
    lsp_diagnostic_namespace, Diagnostic, DiagnosticSeverity, Position, Range,
};
use fresh::overlay::{Overlay, OverlayFace, OverlayHandle, OverlayNamespace};
use fresh::state::EditorState;
use fresh::text_buffer::Buffer;
use fresh::theme::Theme;

fn buffer(text: &str) -> Buffer {
    Buffer::from_bytes(text.as_bytes().to_vec())
}

#[test]
fn diagnostic_hash_changes_with_content() {
    let diag1 = Diagnostic {
        range: Range {
            start: Position::new(0, 0),
            end: Position::new(0, 1),
        },
        severity: Some(DiagnosticSeverity::ERROR),
        message: "err".to_string(),
        ..Default::default()
    };
    let mut diag2 = diag1.clone();
    diag2.message = "other".to_string();
    assert_ne!(compute_diagnostic_hash(&[diag1]), compute_diagnostic_hash(&[diag2]));
}

#[test]
fn diagnostic_to_overlay_maps_range() {
    let buffer = buffer("hello\nworld");
    let diagnostic = Diagnostic {
        range: Range {
            start: Position::new(0, 1),
            end: Position::new(0, 3),
        },
        severity: Some(DiagnosticSeverity::WARNING),
        message: "warn".to_string(),
        ..Default::default()
    };

    let (view_range, source_range, _face, _priority) =
        diagnostic_to_overlay(&diagnostic, &buffer, &Theme::default()).unwrap();
    assert_eq!(view_range.start.source_byte, Some(1));
    assert_eq!(view_range.end.source_byte, Some(3));
    assert_eq!(source_range, Some(1..3));
}

#[test]
fn severities_choose_face_and_priority() {
    let b = buffer("abc\ndef\n");
    let mut d = Diagnostic { range: Range { start: Position::new(1, 0), end: Position::new(1, 9) }, ..Default::default() };
    let cases = [
        (Some(DiagnosticSeverity::ERROR), ThemeColor::DiagnosticErrorBg, 100),
        (Some(DiagnosticSeverity::WARNING), ThemeColor::DiagnosticWarningBg, 50),
        (Some(DiagnosticSeverity::INFORMATION), ThemeColor::DiagnosticInfoBg, 30),
        (Some(DiagnosticSeverity::HINT), ThemeColor::DiagnosticHintBg, 10),
        (None, ThemeColor::DiagnosticHintBg, 10),
    ];
    for (sev, color, prio) in cases {
        d.severity = sev;
        let (_, range, face, priority) = diagnostic_to_overlay(&d, &b, &Theme::default()).unwrap();
        assert_eq!(face, OverlayFace::Background { color: Color::Theme(color) });
        assert_eq!(priority, prio);
        // line 1 starts at byte 4; its content ends before the newline at byte 7
        assert_eq!(range, Some(4..7));
    }
    d.severity = Some(7);
    assert!(diagnostic_to_overlay(&d, &b, &Theme::default()).is_none());
}

#[test]
fn positions_past_the_text_clamp() {
    let b = buffer("ab");
    assert_eq!(b.lsp_position_to_byte(0, 1), 1);
    assert_eq!(b.lsp_position_to_byte(0, 9), 2);
    assert_eq!(b.lsp_position_to_byte(5, 0), 2);
}

#[test]
fn applying_diagnostics_replaces_only_their_namespace() {
    let mut state = EditorState::new(buffer("hello\nworld\n"));
    let other = Overlay {
        handle: OverlayHandle(0),
        namespace: Some(OverlayNamespace::from_string("search".to_string())),
        start: 0,
        end: 1,
        face: OverlayFace::Foreground { color: Color::Red },
        priority: 1,
        message: None,
    };
    state.overlays.add(other);
    let diags = vec![
        Diagnostic { range: Range { start: Position::new(0, 0), end: Position::new(0, 2) }, severity: Some(DiagnosticSeverity::ERROR), message: "e".to_string(), source: None },
        Diagnostic { range: Range { start: Position::new(1, 1), end: Position::new(1, 3) }, severity: Some(99), message: "x".to_string(), source: None },
        Diagnostic { range: Range { start: Position::new(1, 1), end: Position::new(1, 3) }, severity: None, message: "h".to_string(), source: None },
    ];
    apply_diagnostics_to_state(&mut state, &diags, &Theme::default());
    let all = state.overlays.all();
    assert_eq!(all.len(), 3);
    assert_eq!(all[0].handle, OverlayHandle(0));
    assert_eq!(all[1].start, 0);
    assert_eq!(all[1].end, 2);
    assert_eq!(all[1].priority, 100);
    assert_eq!(all[1].message.as_deref(), Some("e"));
    assert_eq!(all[2].start, 7);
    assert_eq!(all[2].end, 9);
    assert_eq!(all[2].namespace.as_ref().unwrap().name, lsp_diagnostic_namespace().name);
    // applying again replaces the diagnostic overlays
    apply_diagnostics_to_state(&mut state, &diags[..1], &Theme::default());
    assert_eq!(state.overlays.all().len(), 2);
}

#[test]
fn cached_application_skips_unchanged_diagnostics() {
    let mut state = EditorState::new(buffer("hello\n"));
    let diags = vec![Diagnostic { range: Range { start: Position::new(0, 0), end: Position::new(0, 2) }, severity: None, message: "m".to_string(), source: None }];
    let mut cache = None;
    apply_diagnostics_to_state_cached(&mut cache, &mut state, &diags, &Theme::default());
    assert!(cache.is_some());
    assert_eq!(state.overlays.all().len(), 1);
    let handle = state.overlays.all()[0].handle;
    apply_diagnostics_to_state_cached(&mut cache, &mut state, &diags, &Theme::default());
    assert_eq!(state.overlays.all()[0].handle, handle);
    assert_eq!(state.overlays.all().len(), 1);
}
