//! Keys as the overlays read them.

use vstd::prelude::*;

verus! {

/// A key as an overlay reads it.
#[derive(Clone, Copy, PartialEq, Eq, Debug, Structural)]
pub enum Key {
    /// A character, bare or shifted.
    Char(char),
    /// A character with Alt held.
    Alt(char),
    /// A character with Ctrl held.
    Ctrl(char),
    Up,
    Down,
    Left,
    Right,
    PageUp,
    PageDown,
    Home,
    End,
    Enter,
    Esc,
    Backspace,
    Tab,
    /// Tab with Ctrl held; `back` when Shift is held too.
    CtrlTab { back: bool },
    Other,
}

} // verus!
