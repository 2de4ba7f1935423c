//! Key presses as the editing logic reads them: which key, and which
//! modifier keys were held. The names and bit values follow the terminal
//! event model of `crossterm`, so a terminal event converts one for one.

use vstd::prelude::*;

verus! {

/// A key on the keyboard.
#[derive(Debug, Clone, Copy, PartialEq, Eq, Hash, Structural)]
pub enum KeyCode {
    Backspace,
    Enter,
    Left,
    Right,
    Up,
    Down,
    Home,
    End,
    PageUp,
    PageDown,
    Tab,
    BackTab,
    Delete,
    Insert,
    /// A function key, `F(1)` being F1.
    F(u8),
    /// A character key.
    Char(char),
    Null,
    Esc,
    CapsLock,
    ScrollLock,
    NumLock,
    PrintScreen,
    Pause,
    Menu,
    KeypadBegin,
    /// A media key (which one is not kept: no editing action reads it).
    Media,
    /// A lone modifier key (which one is not kept: no editing action reads it).
    Modifier,
}

/// The modifier keys held during a key press form a bit set in a `u8`;
/// these are its bits.
pub struct KeyModifiers;

impl KeyModifiers {
    pub const SHIFT: u8 = 0b0000_0001;
    pub const CONTROL: u8 = 0b0000_0010;
    pub const ALT: u8 = 0b0000_0100;
    pub const SUPER: u8 = 0b0000_1000;
    pub const HYPER: u8 = 0b0001_0000;
    pub const META: u8 = 0b0010_0000;
    pub const NONE: u8 = 0b0000_0000;
}

/// Every modifier bit of `flag` is set in `modifiers`.
pub open spec fn has_modifier(modifiers: u8, flag: u8) -> bool {
    modifiers & flag == flag
}

/// Whether every modifier bit of `flag` is set in `modifiers`.
pub fn contains_modifier(modifiers: u8, flag: u8) -> (r: bool)
    ensures
        r == has_modifier(modifiers, flag),
{
    modifiers & flag == flag
}

/// One key press.
#[derive(Debug, Clone, Copy, PartialEq, Eq, Hash, Structural)]
pub struct KeyEvent {
    /// The key itself.
    pub code: KeyCode,
    /// The modifier keys held, as bits of [`KeyModifiers`].
    pub modifiers: u8,
}

impl KeyEvent {
    /// A key press of `code` with `modifiers` held.
    pub fn new(code: KeyCode, modifiers: u8) -> (r: KeyEvent)
        ensures
            r.code == code,
            r.modifiers == modifiers,
    {
        KeyEvent { code, modifiers }
    }
}

} // verus!
