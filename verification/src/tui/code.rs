//! The keystrokes the widgets understand and the responses they hand
//! back to the event loop around them.

use vstd::prelude::*;

verus! {

/// One keystroke, reduced to what the widgets distinguish.
#[derive(Clone, Copy, Debug, PartialEq, Eq, Structural)]
pub enum Key {
    /// A printable character was typed.
    Char(char),
    Enter,
    Backspace,
    Left,
    Right,
    Up,
    Down,
    /// Any other keystroke.
    Other,
}

/// What a widget asks the event loop to do after a keystroke.
#[derive(Debug, PartialEq, Eq)]
pub enum TerminalCode {
    /// The keystroke is consumed; nothing further to do.
    Idle,
    /// Leave the program.
    Exit,
    /// Return to the previous scene.
    PreviousScene,
    /// Return to the previous scene and focus the input at the index.
    PreviousSceneWithFocus(usize),
    /// Switch to the named scene, remembering the current one.
    GoToScene(String),
    /// Switch to the named scene in place.
    ReplaceCurrentScene(String),
    /// Focus the input at the index.
    Focus(usize),
    /// Focus the input at the position.
    FocusAt((u16, u16)),
    /// The keystroke was not consumed.
    UnhandledKey(Key),
}

} // verus!
