//! Keyboard and mouse events, as the application state machine reads them.

use vstd::prelude::*;

verus! {

/// A key on the keyboard.
#[derive(Clone, Copy, Debug, PartialEq, Eq, Structural)]
pub enum KeyCode {
    Backspace,
    Enter,
    Left,
    Right,
    Up,
    Down,
    Home,
    End,
    PageUp,
    PageDown,
    Tab,
    BackTab,
    Delete,
    Insert,
    F(u8),
    Char(char),
    Null,
    Esc,
    /// Any other key (caps lock, media keys, lone modifier keys, ...).
    Other,
}

/// The modifier keys held with a key.
#[derive(Clone, Copy, Debug, PartialEq, Eq, Structural)]
pub struct KeyModifiers {
    pub shift: bool,
    pub control: bool,
    pub alt: bool,
    /// Super, hyper or meta.
    pub other: bool,
}

impl KeyModifiers {
    /// No modifier held.
    pub fn none() -> (r: KeyModifiers)
        ensures
            r.none_held(),
    {
        KeyModifiers { shift: false, control: false, alt: false, other: false }
    }

    /// Only Control held.
    pub fn control() -> (r: KeyModifiers)
        ensures
            r.control && !r.shift && !r.alt && !r.other,
    {
        KeyModifiers { shift: false, control: true, alt: false, other: false }
    }

    /// Only Alt held.
    pub fn alt() -> (r: KeyModifiers)
        ensures
            r.alt && !r.shift && !r.control && !r.other,
    {
        KeyModifiers { shift: false, control: false, alt: true, other: false }
    }

    /// Only Shift held.
    pub fn shift() -> (r: KeyModifiers)
        ensures
            r.shift && !r.control && !r.alt && !r.other,
    {
        KeyModifiers { shift: true, control: false, alt: false, other: false }
    }

    /// Whether no modifier is held.
    pub open spec fn none_held(self) -> bool {
        !self.shift && !self.control && !self.alt && !self.other
    }

    /// Whether no modifier is held.
    pub fn is_empty(&self) -> (r: bool)
        ensures
            r == self.none_held(),
    {
        !self.shift && !self.control && !self.alt && !self.other
    }

    /// Whether Control is held (possibly with other modifiers).
    pub fn contains_control(&self) -> (r: bool)
        ensures
            r == self.control,
    {
        self.control
    }
}

/// A key press: the key and the modifiers held with it.
#[derive(Clone, Copy, Debug, PartialEq, Eq, Structural)]
pub struct KeyEvent {
    pub code: KeyCode,
    pub modifiers: KeyModifiers,
}

impl KeyEvent {
    /// A key press of `code` with `modifiers`.
    pub fn new(code: KeyCode, modifiers: KeyModifiers) -> (r: KeyEvent)
        ensures
            r.code == code,
            r.modifiers == modifiers,
    {
        KeyEvent { code, modifiers }
    }
}

/// A mouse button.
#[derive(Clone, Copy, Debug, PartialEq, Eq, Structural)]
pub enum MouseButton {
    Left,
    Right,
    Middle,
}

/// What the mouse did.
#[derive(Clone, Copy, Debug, PartialEq, Eq, Structural)]
pub enum MouseEventKind {
    Down(MouseButton),
    Up(MouseButton),
    Drag(MouseButton),
    Moved,
    ScrollDown,
    ScrollUp,
    ScrollLeft,
    ScrollRight,
}

} // verus!
