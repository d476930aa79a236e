//! Key presses to user actions, with the two-key `g g` sequence.
use vstd::prelude::*;

verus! {

/// What the user asked for.
#[derive(Debug, Clone, Copy, PartialEq, Eq, Structural)]
pub enum Action {
    MoveDown,
    MoveUp,
    PageDown,
    PageUp,
    GoTop,
    GoBottom,
    ToggleHelp,
    Enter,
    OpenComments,
    OpenPrimaryBrowser,
    OpenSecondaryBrowser,
    BackOrQuit,
    Collapse,
    Expand,
    ToggleCollapse,
    Refresh,
}

/// The key of a key press.
#[derive(Debug, Clone, Copy, PartialEq, Eq, Structural)]
pub enum KeyCode {
    Char(char),
    Up,
    Down,
    Left,
    Right,
    Enter,
    Esc,
    Other,
}

/// The modifier keys held during a key press.
#[derive(Debug, Clone, Copy, PartialEq, Eq, Structural)]
pub enum Modifiers {
    Plain,
    Shift,
    Control,
    /// Any other combination.
    Other,
}

/// A key press.
#[derive(Debug, Clone, Copy, PartialEq, Eq)]
pub struct KeyInput {
    pub code: KeyCode,
    pub modifiers: Modifiers,
}

/// Remembers a pending first `g`.
#[derive(Debug, Clone, Copy, PartialEq, Eq)]
pub struct KeyState {
    pub pending_g: bool,
}

/// The action of a key press other than a plain `g`.
pub open spec fn single_key_action(key: KeyInput) -> Option<Action> {
    match (key.code, key.modifiers) {
        (KeyCode::Char('?'), _) => Some(Action::ToggleHelp),
        (KeyCode::Char('j'), Modifiers::Plain) | (KeyCode::Down, _) => Some(Action::MoveDown),
        (KeyCode::Char('k'), Modifiers::Plain) | (KeyCode::Up, _) => Some(Action::MoveUp),
        (KeyCode::Char('d'), Modifiers::Control) => Some(Action::PageDown),
        (KeyCode::Char('u'), Modifiers::Control) => Some(Action::PageUp),
        (KeyCode::Char('G'), Modifiers::Shift) | (KeyCode::Char('G'), Modifiers::Plain) => Some(
            Action::GoBottom,
        ),
        (KeyCode::Enter, _) => Some(Action::Enter),
        (KeyCode::Char(' '), Modifiers::Plain) => Some(Action::OpenComments),
        (KeyCode::Char('o'), Modifiers::Plain) => Some(Action::OpenPrimaryBrowser),
        (KeyCode::Char('O'), Modifiers::Shift) | (KeyCode::Char('O'), Modifiers::Plain) => Some(
            Action::OpenSecondaryBrowser,
        ),
        (KeyCode::Char('q'), Modifiers::Plain) | (KeyCode::Esc, _) => Some(Action::BackOrQuit),
        (KeyCode::Char('h'), Modifiers::Plain) | (KeyCode::Left, _) => Some(Action::Collapse),
        (KeyCode::Char('l'), Modifiers::Plain) | (KeyCode::Right, _) => Some(Action::Expand),
        (KeyCode::Char('c'), Modifiers::Plain) => Some(Action::ToggleCollapse),
        (KeyCode::Char('r'), Modifiers::Plain) => Some(Action::Refresh),
        (KeyCode::Char('c'), Modifiers::Control) => Some(Action::BackOrQuit),
        _ => None,
    }
}

pub open spec fn is_plain_g(key: KeyInput) -> bool {
    key.code == KeyCode::Char('g') && key.modifiers == Modifiers::Plain
}

/// The action a key press gives in key state `st`.
pub open spec fn key_action_spec(st: KeyState, key: KeyInput) -> Option<Action> {
    if is_plain_g(key) {
        if st.pending_g { Some(Action::GoTop) } else { None }
    } else {
        single_key_action(key)
    }
}

/// The key state after a key press in key state `st`.
pub open spec fn key_state_spec(st: KeyState, key: KeyInput) -> KeyState {
    KeyState { pending_g: is_plain_g(key) && !st.pending_g }
}

impl KeyState {
    pub fn new() -> (r: KeyState)
        ensures
            !r.pending_g,
    {
        KeyState { pending_g: false }
    }

    /// Maps a key press to an action: a plain `g` waits for a second one
    /// (which goes to the top); any other key cancels the wait.
    pub fn on_key(&mut self, key: KeyInput) -> (r: Option<Action>)
        ensures
            is_plain_g(key) ==> final(self).pending_g == !old(self).pending_g && r == (if old(self).pending_g {
                Some(Action::GoTop)
            } else {
                None
            }),
            !is_plain_g(key) ==> !final(self).pending_g && r == single_key_action(key),
    {
        if let KeyCode::Char('g') = key.code {
            if let Modifiers::Plain = key.modifiers {
                if self.pending_g {
                    self.pending_g = false;
                    return Some(Action::GoTop);
                } else {
                    self.pending_g = true;
                    return None;
                }
            }
        }
        self.pending_g = false;
        match (key.code, key.modifiers) {
            (KeyCode::Char('?'), _) => Some(Action::ToggleHelp),
            (KeyCode::Char('j'), Modifiers::Plain) | (KeyCode::Down, _) => Some(Action::MoveDown),
            (KeyCode::Char('k'), Modifiers::Plain) | (KeyCode::Up, _) => Some(Action::MoveUp),
            (KeyCode::Char('d'), Modifiers::Control) => Some(Action::PageDown),
            (KeyCode::Char('u'), Modifiers::Control) => Some(Action::PageUp),
            (KeyCode::Char('G'), Modifiers::Shift) | (KeyCode::Char('G'), Modifiers::Plain) => Some(
                Action::GoBottom,
            ),
            (KeyCode::Enter, _) => Some(Action::Enter),
            (KeyCode::Char(' '), Modifiers::Plain) => Some(Action::OpenComments),
            (KeyCode::Char('o'), Modifiers::Plain) => Some(Action::OpenPrimaryBrowser),
            (KeyCode::Char('O'), Modifiers::Shift) | (KeyCode::Char('O'), Modifiers::Plain) => Some(
                Action::OpenSecondaryBrowser,
            ),
            (KeyCode::Char('q'), Modifiers::Plain) | (KeyCode::Esc, _) => Some(Action::BackOrQuit),
            (KeyCode::Char('h'), Modifiers::Plain) | (KeyCode::Left, _) => Some(Action::Collapse),
            (KeyCode::Char('l'), Modifiers::Plain) | (KeyCode::Right, _) => Some(Action::Expand),
            (KeyCode::Char('c'), Modifiers::Plain) => Some(Action::ToggleCollapse),
            (KeyCode::Char('r'), Modifiers::Plain) => Some(Action::Refresh),
            (KeyCode::Char('c'), Modifiers::Control) => Some(Action::BackOrQuit),
            _ => None,
        }
    }
}

} // verus!
