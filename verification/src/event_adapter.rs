//! Key and mouse events of the browser build, in the editor's own terms.

use vstd::prelude::*;
use crate::text_util::str_chars;

verus! {

/// Key modifiers as bit flags: shift, control, alt.
#[derive(Debug, Clone, Copy, PartialEq, Eq, Structural)]
pub struct WasmKeyModifiers {
    bits: u8,
}

/// Bit of the shift modifier.
pub const SHIFT_BIT: u8 = 1;
/// Bit of the control modifier.
pub const CONTROL_BIT: u8 = 2;
/// Bit of the alt modifier.
pub const ALT_BIT: u8 = 4;

impl WasmKeyModifiers {
    /// The flag bits.
    pub closed spec fn spec_bits(&self) -> u8 {
        self.bits
    }

    /// No modifier.
    pub fn none() -> (r: Self)
        ensures
            r.spec_bits() == 0,
    {
        WasmKeyModifiers { bits: 0 }
    }

    /// Shift alone.
    pub fn shift() -> (r: Self)
        ensures
            r.spec_bits() == SHIFT_BIT,
    {
        WasmKeyModifiers { bits: SHIFT_BIT }
    }

    /// Control alone.
    pub fn control() -> (r: Self)
        ensures
            r.spec_bits() == CONTROL_BIT,
    {
        WasmKeyModifiers { bits: CONTROL_BIT }
    }

    /// Alt alone.
    pub fn alt() -> (r: Self)
        ensures
            r.spec_bits() == ALT_BIT,
    {
        WasmKeyModifiers { bits: ALT_BIT }
    }

    /// The flag bits.
    pub fn bits(&self) -> (r: u8)
        ensures
            r == self.spec_bits(),
    {
        self.bits
    }

    /// The modifiers of both.
    pub fn union(&self, other: Self) -> (r: Self)
        ensures
            r.spec_bits() == self.spec_bits() | other.spec_bits(),
    {
        WasmKeyModifiers { bits: self.bits | other.bits }
    }

    /// Whether all modifiers of `other` are set.
    pub fn contains(&self, other: Self) -> (r: bool)
        ensures
            r == (self.spec_bits() & other.spec_bits() == other.spec_bits()),
    {
        self.bits & other.bits == other.bits
    }
}

/// The modifier flags of a key or mouse event with the given keys held.
pub open spec fn spec_modifier_bits(ctrl: bool, alt: bool, shift: bool) -> u8 {
    ((if ctrl { CONTROL_BIT } else { 0u8 }) | (if alt { ALT_BIT } else { 0u8 })) | (if shift { SHIFT_BIT } else { 0u8 })
}

/// The modifiers of an event with the given keys held.
pub fn modifiers_from_keys(ctrl: bool, alt: bool, shift: bool) -> (r: WasmKeyModifiers)
    ensures
        r.spec_bits() == spec_modifier_bits(ctrl, alt, shift),
{
    let mut modifiers = WasmKeyModifiers::none();
    if ctrl {
        modifiers = modifiers.union(WasmKeyModifiers::control());
    }
    if alt {
        modifiers = modifiers.union(WasmKeyModifiers::alt());
    }
    if shift {
        modifiers = modifiers.union(WasmKeyModifiers::shift());
    }
    proof {
        assert(0u8 | 0u8 == 0u8) by (bit_vector);
        assert(0u8 | CONTROL_BIT == CONTROL_BIT) by (bit_vector);
        assert(0u8 | ALT_BIT == ALT_BIT) by (bit_vector);
        assert(0u8 | SHIFT_BIT == SHIFT_BIT) by (bit_vector);
        assert(CONTROL_BIT | 0u8 == CONTROL_BIT) by (bit_vector);
        assert(ALT_BIT | 0u8 == ALT_BIT) by (bit_vector);
        assert(forall|x: u8| #[trigger] (x | 0u8) == x) by (bit_vector);
        assert(forall|x: u8| #[trigger] (0u8 | x) == x) by (bit_vector);
    }
    modifiers
}

/// Key code of the browser build
#[derive(Debug, Clone, Copy, PartialEq, Eq, Structural)]
pub enum WasmKeyCode {
    Char(char),
    Enter,
    Tab,
    Backspace,
    Delete,
    Esc,
    Up,
    Down,
    Left,
    Right,
    Home,
    End,
    PageUp,
    PageDown,
    Insert,
    F(u8),
}

/// Key event of the browser build
#[derive(Debug, Clone, Copy, PartialEq, Eq, Structural)]
pub struct WasmKeyEvent {
    pub code: WasmKeyCode,
    pub modifiers: WasmKeyModifiers,
}

impl WasmKeyEvent {
    pub fn new(code: WasmKeyCode, modifiers: WasmKeyModifiers) -> (r: Self)
        ensures
            r == (WasmKeyEvent { code, modifiers }),
    {
        Self { code, modifiers }
    }
}

/// Mouse button of the browser build
#[derive(Debug, Clone, Copy, PartialEq, Eq, Structural)]
pub enum WasmMouseButton {
    Left,
    Right,
    Middle,
}

/// Mouse event kind of the browser build
#[derive(Debug, Clone, Copy, PartialEq, Eq, Structural)]
pub enum WasmMouseEventKind {
    Down(WasmMouseButton),
    Up(WasmMouseButton),
    Drag(WasmMouseButton),
    Moved,
    ScrollUp,
    ScrollDown,
}

/// Mouse event of the browser build
#[derive(Debug, Clone, Copy, PartialEq, Eq, Structural)]
pub struct WasmMouseEvent {
    pub kind: WasmMouseEventKind,
    pub column: u16,
    pub row: u16,
    pub modifiers: WasmKeyModifiers,
}

/// The key a browser key name stands for: a named key, the character of a
/// one-character ASCII name, or nothing.
pub open spec fn spec_key_code_from_name(name: Seq<char>) -> Option<WasmKeyCode> {
    if name == "Enter"@ { Some(WasmKeyCode::Enter) }
    else if name == "Tab"@ { Some(WasmKeyCode::Tab) }
    else if name == "Backspace"@ { Some(WasmKeyCode::Backspace) }
    else if name == "Delete"@ { Some(WasmKeyCode::Delete) }
    else if name == "Escape"@ { Some(WasmKeyCode::Esc) }
    else if name == "ArrowUp"@ { Some(WasmKeyCode::Up) }
    else if name == "ArrowDown"@ { Some(WasmKeyCode::Down) }
    else if name == "ArrowLeft"@ { Some(WasmKeyCode::Left) }
    else if name == "ArrowRight"@ { Some(WasmKeyCode::Right) }
    else if name == "Home"@ { Some(WasmKeyCode::Home) }
    else if name == "End"@ { Some(WasmKeyCode::End) }
    else if name == "PageUp"@ { Some(WasmKeyCode::PageUp) }
    else if name == "PageDown"@ { Some(WasmKeyCode::PageDown) }
    else if name.len() == 1 && (name[0] as u32) < 0x80 { Some(WasmKeyCode::Char(name[0])) }
    else { None }
}

fn same_chars(a: &Vec<char>, b: &str) -> (r: bool)
    ensures
        r == (a@ == b@),
{
    let bc = str_chars(b);
    if a.len() != bc.len() {
        return false;
    }
    let n = a.len();
    let mut i: usize = 0;
    while i < n
        invariant
            n == a@.len(),
            n == bc@.len(),
            bc@ == b@,
            i <= n,
            forall|j: int| 0 <= j < i ==> a@[j] == bc@[j],
        decreases n - i,
    {
        if a[i] != bc[i] {
            return false;
        }
        i += 1;
    }
    proof {
        assert(a@ =~= bc@);
    }
    true
}

/// The key code of a browser key name.
pub fn key_code_from_name(key: &str) -> (r: Option<WasmKeyCode>)
    ensures
        r == spec_key_code_from_name(key@),
{
    let k = str_chars(key);
    if same_chars(&k, "Enter") { Some(WasmKeyCode::Enter) }
    else if same_chars(&k, "Tab") { Some(WasmKeyCode::Tab) }
    else if same_chars(&k, "Backspace") { Some(WasmKeyCode::Backspace) }
    else if same_chars(&k, "Delete") { Some(WasmKeyCode::Delete) }
    else if same_chars(&k, "Escape") { Some(WasmKeyCode::Esc) }
    else if same_chars(&k, "ArrowUp") { Some(WasmKeyCode::Up) }
    else if same_chars(&k, "ArrowDown") { Some(WasmKeyCode::Down) }
    else if same_chars(&k, "ArrowLeft") { Some(WasmKeyCode::Left) }
    else if same_chars(&k, "ArrowRight") { Some(WasmKeyCode::Right) }
    else if same_chars(&k, "Home") { Some(WasmKeyCode::Home) }
    else if same_chars(&k, "End") { Some(WasmKeyCode::End) }
    else if same_chars(&k, "PageUp") { Some(WasmKeyCode::PageUp) }
    else if same_chars(&k, "PageDown") { Some(WasmKeyCode::PageDown) }
    else if k.len() == 1 && (k[0] as u32) < 0x80 { Some(WasmKeyCode::Char(k[0])) }
    else { None }
}

/// The key event of a browser key name with the given keys held, or none for
/// a name that stands for no key.
pub fn key_event_from_name(key: &str, ctrl: bool, alt: bool, shift: bool) -> (r: Option<WasmKeyEvent>)
    ensures
        match spec_key_code_from_name(key@) {
            Some(code) => r matches Some(e) && e.code == code
                && e.modifiers.spec_bits() == spec_modifier_bits(ctrl, alt, shift),
            None => r is None,
        },
{
    match key_code_from_name(key) {
        Some(code) => Some(WasmKeyEvent { code, modifiers: modifiers_from_keys(ctrl, alt, shift) }),
        None => None,
    }
}

/// The mouse event kind a browser event name stands for.
pub open spec fn spec_mouse_kind_from_name(name: Seq<char>) -> Option<WasmMouseEventKind> {
    if name == "mousedown"@ { Some(WasmMouseEventKind::Down(WasmMouseButton::Left)) }
    else if name == "mouseup"@ { Some(WasmMouseEventKind::Up(WasmMouseButton::Left)) }
    else if name == "mousemove"@ { Some(WasmMouseEventKind::Moved) }
    else if name == "wheel_up"@ || name == "scrollup"@ { Some(WasmMouseEventKind::ScrollUp) }
    else if name == "wheel_down"@ || name == "scrolldown"@ { Some(WasmMouseEventKind::ScrollDown) }
    else { None }
}

/// The mouse event of a browser event name at a cell, with no modifier, or
/// none for a name that stands for no mouse event.
pub fn mouse_event_from_name(kind: &str, row: u16, column: u16) -> (r: Option<WasmMouseEvent>)
    ensures
        match spec_mouse_kind_from_name(kind@) {
            Some(k) => r matches Some(e) && e.kind == k && e.row == row && e.column == column
                && e.modifiers.spec_bits() == 0,
            None => r is None,
        },
{
    let k = str_chars(kind);
    let mk = if same_chars(&k, "mousedown") { WasmMouseEventKind::Down(WasmMouseButton::Left) }
    else if same_chars(&k, "mouseup") { WasmMouseEventKind::Up(WasmMouseButton::Left) }
    else if same_chars(&k, "mousemove") { WasmMouseEventKind::Moved }
    else if same_chars(&k, "wheel_up") || same_chars(&k, "scrollup") { WasmMouseEventKind::ScrollUp }
    else if same_chars(&k, "wheel_down") || same_chars(&k, "scrolldown") { WasmMouseEventKind::ScrollDown }
    else { return None; };
    Some(WasmMouseEvent { kind: mk, column, row, modifiers: WasmKeyModifiers::none() })
}

} // verus!
