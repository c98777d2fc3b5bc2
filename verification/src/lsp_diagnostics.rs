//! Showing language-server diagnostics as overlays on a buffer.

use vstd::prelude::*;
use std::collections::hash_map::DefaultHasher;
use std::hash::Hasher;
use crate::draw::{Color, ThemeColor};
use crate::event::{ViewEventPosition, ViewEventRange};
use crate::overlay::{Overlay, OverlayFace, OverlayHandle, OverlayNamespace, namespace_name, outside_namespace};
use crate::state::EditorState;
use crate::text_buffer::{Buffer, lsp_byte};
use crate::theme::Theme;

verus! {

/// A position in a document: line and character, both 0-based.
#[derive(Clone, Copy, Debug, Default, PartialEq, Eq, Structural)]
pub struct Position {
    pub line: u32,
    pub character: u32,
}

impl Position {
    pub fn new(line: u32, character: u32) -> (r: Self)
        ensures
            r == (Position { line, character }),
    {
        Position { line, character }
    }
}

/// A range of a document, from `start` to `end`.
#[derive(Clone, Copy, Debug, Default, PartialEq, Eq, Structural)]
pub struct Range {
    pub start: Position,
    pub end: Position,
}

/// Severity levels of a diagnostic, by their protocol numbers.
pub struct DiagnosticSeverity;

impl DiagnosticSeverity {
    pub const ERROR: i32 = 1;
    pub const WARNING: i32 = 2;
    pub const INFORMATION: i32 = 3;
    pub const HINT: i32 = 4;
}

/// A diagnostic reported by a language server.
#[derive(Clone, Debug)]
pub struct Diagnostic {
    pub range: Range,
    /// The protocol number of the severity, if given.
    pub severity: Option<i32>,
    pub message: String,
    pub source: Option<String>,
}

impl Default for Diagnostic {
    fn default() -> (r: Self)
        ensures
            r.range == (Range { start: Position { line: 0, character: 0 }, end: Position { line: 0, character: 0 } }),
            r.severity is None,
            r.message@.len() == 0,
            r.source is None,
    {
        Diagnostic {
            range: Range { start: Position { line: 0, character: 0 }, end: Position { line: 0, character: 0 } },
            severity: None,
            message: String::new(),
            source: None,
        }
    }
}

/// The namespace of the overlays that show diagnostics.
pub open spec fn diagnostic_namespace_name() -> Seq<char> {
    "lsp-diagnostic"@
}

pub fn lsp_diagnostic_namespace() -> (r: OverlayNamespace)
    ensures
        r.name@ == diagnostic_namespace_name(),
{
    OverlayNamespace::from_string("lsp-diagnostic".to_string())
}

/// Face and priority of a diagnostic's overlay by severity (`None` for an
/// unknown severity number).
pub open spec fn severity_face(severity: Option<i32>) -> Option<(OverlayFace, i32)> {
    match severity {
        Some(1) => Some((OverlayFace::Background { color: Color::Theme(ThemeColor::DiagnosticErrorBg) }, 100)),
        Some(2) => Some((OverlayFace::Background { color: Color::Theme(ThemeColor::DiagnosticWarningBg) }, 50)),
        Some(3) => Some((OverlayFace::Background { color: Color::Theme(ThemeColor::DiagnosticInfoBg) }, 30)),
        Some(4) | None => Some((OverlayFace::Background { color: Color::Theme(ThemeColor::DiagnosticHintBg) }, 10)),
        _ => None,
    }
}

/// Source bytes of a diagnostic's start and end in `text`.
pub open spec fn diagnostic_bytes(text: Seq<u8>, d: Diagnostic) -> (int, int) {
    (lsp_byte(text, d.range.start.line as nat, d.range.start.character as nat),
        lsp_byte(text, d.range.end.line as nat, d.range.end.character as nat))
}

fn face_for_severity(severity: Option<i32>) -> (r: Option<(OverlayFace, i32)>)
    ensures
        r == severity_face(severity),
{
    match severity {
        Some(1) => Some((OverlayFace::Background { color: Color::Theme(ThemeColor::DiagnosticErrorBg) }, 100)),
        Some(2) => Some((OverlayFace::Background { color: Color::Theme(ThemeColor::DiagnosticWarningBg) }, 50)),
        Some(3) => Some((OverlayFace::Background { color: Color::Theme(ThemeColor::DiagnosticInfoBg) }, 30)),
        Some(4) | None => Some((OverlayFace::Background { color: Color::Theme(ThemeColor::DiagnosticHintBg) }, 10)),
        _ => None,
    }
}

/// The overlay a diagnostic becomes: its view range and source byte range,
/// its face and priority; `None` for an unknown severity.
pub fn diagnostic_to_overlay(diagnostic: &Diagnostic, buffer: &Buffer, theme: &Theme)
    -> (r: Option<(ViewEventRange, Option<std::ops::Range<usize>>, OverlayFace, i32)>)
    ensures
        match r {
            Some((view_range, source_range, face, priority)) => {
                let (s, e) = diagnostic_bytes(buffer@, *diagnostic);
                &&& severity_face(diagnostic.severity) == Some((face, priority))
                &&& source_range matches Some(sr) && sr.start == s && sr.end == e
                &&& view_range.start == (ViewEventPosition { view_line: 0, column: s as usize, source_byte: Some(s as usize) })
                &&& view_range.end == (ViewEventPosition { view_line: 0, column: e as usize, source_byte: Some(e as usize) })
            },
            None => severity_face(diagnostic.severity) is None,
        },
{
    let start_byte = buffer.lsp_position_to_byte(diagnostic.range.start.line as usize, diagnostic.range.start.character as usize);
    let end_byte = buffer.lsp_position_to_byte(diagnostic.range.end.line as usize, diagnostic.range.end.character as usize);
    let (face, priority) = match face_for_severity(diagnostic.severity) {
        Some(fp) => fp,
        None => return None,
    };
    let view_range = ViewEventRange::from_source_range(start_byte..end_byte);
    Some((view_range, Some(start_byte..end_byte), face, priority))
}

/// The abstract form of an overlay.
pub open spec fn overlay_view(o: Overlay) -> (OverlayHandle, Option<Seq<char>>, usize, usize, OverlayFace, i32, Option<Seq<char>>) {
    (o.handle, namespace_name(o.namespace), o.start, o.end, o.face, o.priority, match o.message { Some(m) => Some(m@), None => None })
}

pub open spec fn overlays_view(s: Seq<Overlay>) -> Seq<(OverlayHandle, Option<Seq<char>>, usize, usize, OverlayFace, i32, Option<Seq<char>>)> {
    s.map_values(|o: Overlay| overlay_view(o))
}

/// The overlays that `diagnostics` become, handles counted from `next`.
pub open spec fn diagnostic_overlays(text: Seq<u8>, diagnostics: Seq<Diagnostic>, next: int)
    -> Seq<(OverlayHandle, Option<Seq<char>>, usize, usize, OverlayFace, i32, Option<Seq<char>>)>
    decreases diagnostics.len(),
{
    if diagnostics.len() == 0 {
        Seq::empty()
    } else {
        let d = diagnostics[0];
        match severity_face(d.severity) {
            Some((face, priority)) => {
                let (s, e) = diagnostic_bytes(text, d);
                seq![(OverlayHandle(next as u64), Some(diagnostic_namespace_name()), s as usize, e as usize, face, priority, Some(d.message@))]
                    + diagnostic_overlays(text, diagnostics.drop_first(), next + 1)
            },
            None => diagnostic_overlays(text, diagnostics.drop_first(), next),
        }
    }
}

proof fn lemma_diagnostic_overlays_len(text: Seq<u8>, diagnostics: Seq<Diagnostic>, next: int)
    ensures
        diagnostic_overlays(text, diagnostics, next).len() <= diagnostics.len(),
    decreases diagnostics.len(),
{
    if diagnostics.len() > 0 {
        lemma_diagnostic_overlays_len(text, diagnostics.drop_first(), next + 1);
        lemma_diagnostic_overlays_len(text, diagnostics.drop_first(), next);
    }
}

/// Replace the buffer's diagnostic overlays by those of `diagnostics`, in order.
pub fn apply_diagnostics_to_state(state: &mut EditorState, diagnostics: &[Diagnostic], theme: &Theme)
    requires
        old(state).overlays.next_handle + diagnostics@.len() <= u64::MAX,
    ensures
        overlays_view(final(state).overlays.overlays@) == overlays_view(
            outside_namespace(old(state).overlays.overlays@, diagnostic_namespace_name()))
            + diagnostic_overlays(old(state).buffer@, diagnostics@, old(state).overlays.next_handle as int),
        final(state).buffer == old(state).buffer,
        final(state).cursors == old(state).cursors,
        final(state).primary == old(state).primary,
{
    let ns = lsp_diagnostic_namespace();
    state.overlays.clear_namespace(&ns);
    let ghost base = overlays_view(state.overlays.overlays@);
    let ghost h0 = state.overlays.next_handle as int;
    let n = diagnostics.len();
    let mut i: usize = 0;
    proof {
        assert(diagnostics@.skip(0) =~= diagnostics@);
        assert(overlays_view(state.overlays.overlays@) =~= base + Seq::empty());
    }
    while i < n
        invariant
            n == diagnostics@.len(),
            i <= n,
            ns.name@ == diagnostic_namespace_name(),
            state.buffer == old(state).buffer,
            state.cursors == old(state).cursors,
            state.primary == old(state).primary,
            h0 == old(state).overlays.next_handle,
            h0 + n <= u64::MAX,
            state.overlays.next_handle <= h0 + i,
            base + diagnostic_overlays(state.buffer@, diagnostics@, h0)
                == overlays_view(state.overlays.overlays@) + diagnostic_overlays(state.buffer@, diagnostics@.skip(i as int), state.overlays.next_handle as int),
        decreases n - i,
    {
        let d = &diagnostics[i];
        proof {
            let rest = diagnostics@.skip(i as int);
            assert(rest[0] == *d);
            assert(rest.drop_first() =~= diagnostics@.skip(i + 1));
        }
        match diagnostic_to_overlay(d, &state.buffer, theme) {
            Some((_view_range, source_range, face, priority)) => {
                let (start, end) = match source_range {
                    Some(r) => (r.start, r.end),
                    None => (0, 0),
                };
                let overlay = Overlay {
                    handle: OverlayHandle(0),
                    namespace: Some(OverlayNamespace::from_string("lsp-diagnostic".to_string())),
                    start,
                    end,
                    face,
                    priority,
                    message: Some(d.message.clone()),
                };
                let ghost before = state.overlays.overlays@;
                let _h = state.overlays.add(overlay);
                proof {
                    assert(overlays_view(state.overlays.overlays@) =~= overlays_view(before).push(overlay_view(state.overlays.overlays@.last())));
                }
            },
            None => {},
        }
        i += 1;
    }
    proof {
        assert(diagnostics@.skip(n as int) =~= Seq::<Diagnostic>::empty());
    }
}

/// `Hash::hash` of a `usize` into a `DefaultHasher`. Nothing is stated of the
/// hasher's state afterwards: the bytes fed depend on the platform's byte
/// order and word size.
#[verifier::external_body]
fn hash_usize(hasher: &mut DefaultHasher, v: usize) {
    std::hash::Hash::hash(&v, hasher)
}

/// `Hash::hash` of a `u32` into a `DefaultHasher`. Nothing is stated of the
/// hasher's state afterwards: the bytes fed depend on the platform's byte
/// order and word size.
#[verifier::external_body]
fn hash_u32(hasher: &mut DefaultHasher, v: u32) {
    std::hash::Hash::hash(&v, hasher)
}

/// `Hash::hash` of an `i32` into a `DefaultHasher`. Nothing is stated of the
/// hasher's state afterwards: the bytes fed depend on the platform's byte
/// order and word size.
#[verifier::external_body]
fn hash_i32(hasher: &mut DefaultHasher, v: i32) {
    std::hash::Hash::hash(&v, hasher)
}

/// `Hash::hash` of a string into a `DefaultHasher`. Nothing is stated of the
/// hasher's state afterwards: `DefaultHasher` does not document the bytes a
/// string feeds.
#[verifier::external_body]
fn hash_string(hasher: &mut DefaultHasher, v: &String) {
    std::hash::Hash::hash(v, hasher)
}

/// The protocol number a severity hashes as (0 when absent, -1 when unknown).
pub open spec fn severity_value(severity: Option<i32>) -> i32 {
    match severity {
        Some(1) => 1,
        Some(2) => 2,
        Some(3) => 3,
        Some(4) => 4,
        None => 0,
        _ => -1i32,
    }
}

fn severity_value_of(severity: Option<i32>) -> (r: i32)
    ensures
        r == severity_value(severity),
{
    match severity {
        Some(1) => 1,
        Some(2) => 2,
        Some(3) => 3,
        Some(4) => 4,
        None => 0,
        _ => -1,
    }
}

/// A hash of the diagnostics' ranges, severities, messages and sources,
/// used to skip re-applying an unchanged set.
pub fn compute_diagnostic_hash(diagnostics: &[Diagnostic]) -> u64 {
    let mut hasher = DefaultHasher::new();
    hash_usize(&mut hasher, diagnostics.len());
    let n = diagnostics.len();
    let mut i: usize = 0;
    while i < n
        invariant
            n == diagnostics@.len(),
            i <= n,
        decreases n - i,
    {
        let diag = &diagnostics[i];
        hash_u32(&mut hasher, diag.range.start.line);
        hash_u32(&mut hasher, diag.range.start.character);
        hash_u32(&mut hasher, diag.range.end.line);
        hash_u32(&mut hasher, diag.range.end.character);
        hash_i32(&mut hasher, severity_value_of(diag.severity));
        hash_string(&mut hasher, &diag.message);
        match &diag.source {
            Some(source) => hash_string(&mut hasher, source),
            None => {},
        }
        i += 1;
    }
    hasher.finish()
}

/// Apply `diagnostics` unless their hash equals the last one applied
/// (kept in `cache`), then remember the hash.
pub fn apply_diagnostics_to_state_cached(cache: &mut Option<u64>, state: &mut EditorState, diagnostics: &[Diagnostic], theme: &Theme)
    requires
        old(state).overlays.next_handle + diagnostics@.len() <= u64::MAX,
    ensures
        (*final(cache)) is Some,
        ({
            ||| (*final(state) == *old(state) && *final(cache) == *old(cache) && (*old(cache)) is Some)
            ||| (overlays_view(final(state).overlays.overlays@) == overlays_view(
                outside_namespace(old(state).overlays.overlays@, diagnostic_namespace_name()))
                + diagnostic_overlays(old(state).buffer@, diagnostics@, old(state).overlays.next_handle as int)
                && *final(cache) != *old(cache))
        }),
        final(state).buffer == old(state).buffer,
        final(state).cursors == old(state).cursors,
        final(state).primary == old(state).primary,
{
    let new_hash = compute_diagnostic_hash(diagnostics);
    match *cache {
        Some(cached) => {
            if cached == new_hash {
                return;
            }
        },
        None => {},
    }
    apply_diagnostics_to_state(state, diagnostics, theme);
    *cache = Some(new_hash);
}

} // verus!
