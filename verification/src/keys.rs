//! The key input model and the closed command vocabulary.

use vstd::prelude::*;

verus! {

/// A pressed key, reduced to what the command translation reads.
#[derive(Clone, Copy, Debug, PartialEq, Eq, Structural)]
pub enum KeyCode {
    Backspace,
    Char(char),
    Down,
    End,
    Enter,
    Esc,
    Home,
    Left,
    Other,
    PageDown,
    PageUp,
    Right,
    Up,
}

/// A key press with the modifiers the translation cares about.
#[derive(Clone, Copy, Debug, PartialEq, Eq, Structural)]
pub struct KeyEvent {
    pub code: KeyCode,
    pub ctrl: bool,
    pub alt: bool,
    pub sup: bool,
}

impl KeyEvent {
    /// A plain key press without modifiers.
    pub fn new(code: KeyCode) -> (r: KeyEvent)
        ensures
            r.code == code,
            !r.ctrl && !r.alt && !r.sup,
    {
        KeyEvent { code, ctrl: false, alt: false, sup: false }
    }

    /// A key press with the control modifier held.
    pub fn with_ctrl(code: KeyCode) -> (r: KeyEvent)
        ensures
            r.code == code,
            r.ctrl && !r.alt && !r.sup,
    {
        KeyEvent { code, ctrl: true, alt: false, sup: false }
    }
}

/// Everything the user can ask of the core, plus `Noop` for keys that
/// mean nothing in the current mode.
#[derive(Clone, Copy, Debug, PartialEq, Eq, Structural)]
pub enum Command {
    CancelSearch,
    CloseComments,
    HideHelp,
    Noop,
    OpenComments,
    OpenCommentLink,
    OpenCurrentInBrowser,
    PageDown,
    PageUp,
    Quit,
    SelectFirst,
    SelectNext,
    SelectPrevious,
    ShowHelp,
    StartSearch,
    SubmitSearch,
    SwitchTabLeft,
    SwitchTabRight,
    ToggleBookmark,
}

} // verus!
