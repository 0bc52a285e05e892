//! Key events as the library reads them: a key code and modifier bits.

use vstd::prelude::*;

verus! {

/// Modifier bits of a key event.
pub const NO_MODIFIERS: u8 = 0;
/// The Shift modifier bit.
pub const SHIFT: u8 = 1;
/// The Control modifier bit.
pub const CONTROL: u8 = 2;
/// The Alt modifier bit.
pub const ALT: u8 = 4;
/// The Super modifier bit.
pub const SUPER: u8 = 8;
/// The Hyper modifier bit.
pub const HYPER: u8 = 16;
/// The Meta modifier bit.
pub const META: u8 = 32;

/// Whether a widget used a key press.
#[derive(Clone, Copy, Debug, PartialEq, Eq, Structural)]
pub enum KeyResult {
    /// The key was handled; it should not reach anything else.
    Consumed,
    /// The key means nothing here; the caller may pass it on.
    Ignored,
}

/// The key of a key event.
#[derive(Clone, Copy, Debug, PartialEq, Eq, Structural)]
pub enum KeyCode {
    Char(char),
    Esc,
    Enter,
    Backspace,
    Delete,
    Left,
    Right,
    Up,
    Down,
    Home,
    End,
    PageUp,
    PageDown,
    Tab,
    BackTab,
    /// Any other key.
    Other,
}

/// A key press: its code and the modifier bits held.
#[derive(Clone, Copy, Debug, PartialEq, Eq, Structural)]
pub struct KeyEvent {
    pub code: KeyCode,
    pub modifiers: u8,
}

impl KeyEvent {
    /// A key event with the given code and modifiers.
    pub fn new(code: KeyCode, modifiers: u8) -> (k: Self)
        ensures
            k == (KeyEvent { code, modifiers }),
    {
        KeyEvent { code, modifiers }
    }
}

} // verus!
