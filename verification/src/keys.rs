//! Key presses as the interactive screens see them.
//!
//! The terminal layer converts its own key events into these values; every
//! screen decides on them alone.
use vstd::prelude::*;

verus! {

/// The key that was pressed.
#[derive(Debug, Clone, Copy, PartialEq, Eq, Structural)]
pub enum Key {
    /// A printable character.
    Char(char),
    Enter,
    Esc,
    Tab,
    Backspace,
    Delete,
    Left,
    Right,
    Up,
    Down,
    Home,
    End,
    PageUp,
    PageDown,
    /// A function key, by number.
    F(u8),
    /// Any other key.
    Other,
}

/// A key together with the modifiers held while it was pressed.
#[derive(Debug, Clone, Copy, PartialEq, Eq, Structural)]
pub struct KeyPress {
    pub key: Key,
    /// The Control modifier was held.
    pub control: bool,
    /// Some modifier other than Control (Shift, Alt, ...) was held.
    pub other_modifiers: bool,
}

impl KeyPress {
    /// No modifier at all was held.
    pub open spec fn is_plain(self) -> bool {
        !self.control && !self.other_modifiers
    }

    /// A key pressed without modifiers.
    pub fn plain(key: Key) -> (k: KeyPress)
        ensures
            k.key == key,
            k.is_plain(),
    {
        KeyPress { key, control: false, other_modifiers: false }
    }

    /// A key pressed with Control held (and nothing else).
    pub fn ctrl(key: Key) -> (k: KeyPress)
        ensures
            k.key == key,
            k.control,
            !k.other_modifiers,
    {
        KeyPress { key, control: true, other_modifiers: false }
    }
}

} // verus!
