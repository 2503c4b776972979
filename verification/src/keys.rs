//! Key presses as plain values, as the terminal front end delivers them.

use vstd::prelude::*;

verus! {

/// The key that was pressed.
#[derive(Clone, Copy, Debug, PartialEq, Eq, Structural)]
pub enum KeyCode {
    Char(char),
    Enter,
    Esc,
    Tab,
    BackTab,
    Backspace,
    Up,
    Down,
    Left,
    Right,
    PageUp,
    PageDown,
    Other,
}

/// The modifier keys held with it.
#[derive(Clone, Copy, Debug, PartialEq, Eq, Structural)]
pub struct KeyModifiers {
    pub shift: bool,
    pub control: bool,
    pub alt: bool,
    pub other: bool,
}

/// A key press.
#[derive(Clone, Copy, Debug, PartialEq, Eq, Structural)]
pub struct KeyInput {
    pub code: KeyCode,
    pub modifiers: KeyModifiers,
}

impl KeyModifiers {
    /// No modifier held.
    pub fn none() -> (r: Self)
        ensures
            !r.shift && !r.control && !r.alt && !r.other,
    {
        KeyModifiers { shift: false, control: false, alt: false, other: false }
    }

    /// Control alone.
    pub open spec fn is_control_only(self) -> bool {
        self.control && !self.shift && !self.alt && !self.other
    }
}

impl KeyInput {
    /// A press of `code` with no modifier.
    pub fn plain(code: KeyCode) -> (r: Self)
        ensures
            r.code == code,
            !r.modifiers.control && !r.modifiers.shift && !r.modifiers.alt && !r.modifiers.other,
    {
        KeyInput { code, modifiers: KeyModifiers::none() }
    }

    /// A press of `code` with Control held.
    pub fn ctrl(code: KeyCode) -> (r: Self)
        ensures
            r.code == code,
            r.modifiers.is_control_only(),
    {
        KeyInput { code, modifiers: KeyModifiers { shift: false, control: true, alt: false, other: false } }
    }

    /// Control-C.
    pub open spec fn is_ctrl_c(self) -> bool {
        self.modifiers.control && self.code == KeyCode::Char('c')
    }

    pub fn is_ctrl_char(&self, c: char) -> (r: bool)
        ensures
            r == (self.modifiers.control && self.code == KeyCode::Char(c)),
    {
        self.modifiers.control && self.code == KeyCode::Char(c)
    }
}

} // verus!
