//! The crate's own picture of one terminal key press: the keys the editor
//! reacts to, plus the control modifier and whether the event is a press.
//! The terminal driver translates its raw events into this type at the edge.
use vstd::prelude::*;

verus! {

/// A key the editor distinguishes.  `Other` stands for every key the editor
/// ignores.
#[derive(Clone, Copy, Debug, PartialEq, Eq, Structural)]
pub enum Key {
    Right,
    Left,
    Up,
    Down,
    Home,
    End,
    Char(char),
    Enter,
    Backspace,
    Tab,
    Delete,
    Esc,
    Function(u8),
    Other,
}

/// One key event: the key, whether control is held, and whether this is a
/// press (everything else, such as a release, is ignored).
#[derive(Clone, Copy, Debug, PartialEq, Eq, Structural)]
pub struct KeyPress {
    pub code: Key,
    pub ctrl: bool,
    pub press: bool,
}

} // verus!
