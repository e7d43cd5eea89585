//! Keys of the terminal.

use vstd::prelude::*;

verus! {

/// A key.
#[derive(Debug, Clone, Copy, PartialEq, Eq, Structural)]
pub enum KeyCode {
    Char(char),
    Enter,
    Tab,
    BackTab,
    Backspace,
    Delete,
    Left,
    Right,
    Up,
    Down,
    Home,
    End,
    PageUp,
    PageDown,
    Esc,
    Other,
}

/// What happened to a key.
#[derive(Debug, Clone, Copy, PartialEq, Eq, Structural)]
pub enum KeyKind {
    Press,
    Repeat,
    Release,
}

/// The keys that are held down along with a key.
#[derive(Debug, Clone, Copy, PartialEq, Eq, Structural)]
pub struct KeyModifiers {
    pub control: bool,
    pub alt: bool,
    pub shift: bool,
    pub command: bool,
}

/// An event of the keyboard.
#[derive(Debug, Clone, Copy, PartialEq, Eq, Structural)]
pub struct KeyEvent {
    pub code: KeyCode,
    pub modifiers: KeyModifiers,
    pub kind: KeyKind,
}

impl KeyEvent {
    /// Neither of the keys that turn a character into a command is held down.
    pub open spec fn is_bare(self) -> bool {
        !self.modifiers.control && !self.modifiers.alt
    }

    /// A key that is pressed without any other.
    pub fn plain(code: KeyCode) -> (event: KeyEvent)
        ensures
            event.code == code,
            event.is_bare(),
            !event.modifiers.shift,
            !event.modifiers.command,
            event.kind == KeyKind::Press,
    {
        KeyEvent {
            code,
            modifiers: KeyModifiers { control: false, alt: false, shift: false, command: false },
            kind: KeyKind::Press,
        }
    }

    /// Neither of the keys that turn a character into a command is held down.
    pub fn bare(self) -> (bare: bool)
        ensures
            bare == self.is_bare(),
    {
        !self.modifiers.control && !self.modifiers.alt
    }
}

} // verus!
