//! Input events, as the viewer reads them: plain values that a driver fills
//! in from what the terminal reports.

use vstd::prelude::*;

verus! {

/// The key that an event is about.
#[derive(Debug, Clone, Copy, PartialEq, Eq, Structural)]
pub enum KeyCode {
    Backspace,
    Enter,
    Left,
    Right,
    Up,
    Down,
    Home,
    End,
    PageUp,
    PageDown,
    Tab,
    BackTab,
    Delete,
    Insert,
    /// A function key, by its number.
    F(u8),
    /// A character key.
    Char(char),
    Null,
    Esc,
    /// Any key that has no variant of its own here.
    Other,
}

/// What happened to the key.
#[derive(Debug, Clone, Copy, PartialEq, Eq, Structural)]
pub enum KeyEventKind {
    Press,
    Repeat,
    Release,
}

/// The modifier keys held down with a key, one bit for each.
#[derive(Debug, Clone, Copy, PartialEq, Eq, Structural)]
pub struct KeyModifiers {
    pub bits: u8,
}

/// No modifier.
pub const NONE: u8 = 0;

/// The bit of the shift key.
pub const SHIFT: u8 = 1;

/// The bit of the control key.
pub const CONTROL: u8 = 2;

/// The bit of the alt key.
pub const ALT: u8 = 4;

/// The bit of the super key.
pub const SUPER: u8 = 8;

/// The bit of the hyper key.
pub const HYPER: u8 = 16;

/// The bit of the meta key.
pub const META: u8 = 32;

impl KeyModifiers {
    /// Whether every modifier whose bit is set in `flags` is among these.
    pub open spec fn spec_contains(&self, flags: u8) -> bool {
        self.bits & flags == flags
    }

    /// Whether every modifier whose bit is set in `flags` is among these.
    #[verifier::when_used_as_spec(spec_contains)]
    pub fn contains(&self, flags: u8) -> (held: bool)
        ensures
            held == self.spec_contains(flags),
    {
        self.bits & flags == flags
    }
}

/// A key event: which key, with which modifiers, and what happened to it.
#[derive(Debug, Clone, Copy, PartialEq, Eq, Structural)]
pub struct KeyEvent {
    pub code: KeyCode,
    pub modifiers: KeyModifiers,
    pub kind: KeyEventKind,
}

/// An input event.
#[derive(Debug, Clone, Copy, PartialEq, Eq, Structural)]
pub enum Event {
    /// The terminal gained the focus.
    FocusGained,
    /// The terminal lost the focus.
    FocusLost,
    /// Something happened to a key.
    Key(KeyEvent),
    /// Something happened to the mouse.
    Mouse,
    /// Text was pasted.
    Paste,
    /// The terminal changed its extent, to these columns and rows.
    Resize(u16, u16),
}

} // verus!
