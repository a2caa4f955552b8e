use vstd::prelude::*;

verus! {

/// One normalized input event: a printable character or a named control key.
///
/// A `Key` is an immutable value compared by structural equality; it is
/// produced by the backend's input reader and consumed by exactly one prompt
/// state machine at a time.
#[derive(Clone, Copy, PartialEq, Eq, Structural, Debug)]
pub enum Key {
    /// A printable character, including `' '`.
    Char(char),
    /// A character pressed together with the control modifier.
    Ctrl(char),
    Enter,
    Escape,
    Backspace,
    Delete,
    Tab,
    Up,
    Down,
    Left,
    Right,
    Home,
    End,
    PageUp,
    PageDown,
}

} // verus!
