//! What a key means.
use vstd::prelude::*;

use super::app::Action;

verus! {

/// A key of the terminal, or a notch of the mouse wheel.
#[derive(Debug, Clone, Copy, PartialEq, Eq, Structural)]
pub enum Key {
    /// A character.
    Char(char),
    /// A function key.
    F(u8),
    /// Escape.
    Esc,
    /// Backspace.
    Backspace,
    /// Delete.
    Delete,
    /// Cursor left.
    Left,
    /// Cursor right.
    Right,
    /// Cursor up.
    Up,
    /// Cursor down.
    Down,
    /// Home.
    Home,
    /// End.
    End,
    /// Enter.
    Enter,
    /// Page up.
    PageUp,
    /// Page down.
    PageDown,
    /// The wheel, up.
    WheelUp,
    /// The wheel, down.
    WheelDown,
    /// Any other.
    Other,
}

/// What the terminal reported.
#[derive(Debug, Clone, Copy, PartialEq, Eq, Structural)]
pub struct KeyInput {
    /// The key.
    pub key: Key,
    /// Whether Control was held.
    pub ctrl: bool,
    /// Whether Alt was held.
    pub alt: bool,
    /// Whether the key was let go rather than pressed.
    pub released: bool,
}

/// What a key means: nothing when it is let go.
pub open spec fn meaning(input: KeyInput) -> Action {
    if input.released {
        Action::Ignore
    } else {
        match input.key {
            Key::Char(c) => if input.ctrl && (c == 'c' || c == 'q') {
                Action::Quit
            } else if !input.ctrl && !input.alt {
                Action::Insert(c)
            } else {
                Action::Ignore
            },
            Key::F(n) => if n == 1 {
                Action::ToggleHelp
            } else if n == 2 {
                Action::ToggleSession
            } else if n == 3 {
                Action::ToggleMute
            } else if n == 4 {
                Action::ToggleShare
            } else {
                Action::Ignore
            },
            Key::Esc => Action::Escape,
            Key::Backspace => Action::Backspace,
            Key::Delete => Action::Delete,
            Key::Left => Action::Left,
            Key::Right => Action::Right,
            Key::Up => Action::Up,
            Key::Down => Action::Down,
            Key::Home => Action::ScrollTop,
            Key::End => Action::ScrollBottom,
            Key::Enter => Action::Submit,
            Key::PageUp => Action::ScrollUp,
            Key::PageDown => Action::ScrollDown,
            Key::WheelUp => Action::ScrollLineUp,
            Key::WheelDown => Action::ScrollLineDown,
            Key::Other => Action::Ignore,
        }
    }
}

/// What a key means.
pub fn map(input: &KeyInput) -> (r: Action)
    ensures
        r == meaning(*input),
{
    if input.released {
        return Action::Ignore;
    }
    match input.key {
        Key::Char(c) => {
            if input.ctrl && (c == 'c' || c == 'q') {
                Action::Quit
            } else if !input.ctrl && !input.alt {
                Action::Insert(c)
            } else {
                Action::Ignore
            }
        },
        Key::F(n) => {
            if n == 1 {
                Action::ToggleHelp
            } else if n == 2 {
                Action::ToggleSession
            } else if n == 3 {
                Action::ToggleMute
            } else if n == 4 {
                Action::ToggleShare
            } else {
                Action::Ignore
            }
        },
        Key::Esc => Action::Escape,
        Key::Backspace => Action::Backspace,
        Key::Delete => Action::Delete,
        Key::Left => Action::Left,
        Key::Right => Action::Right,
        Key::Up => Action::Up,
        Key::Down => Action::Down,
        Key::Home => Action::ScrollTop,
        Key::End => Action::ScrollBottom,
        Key::Enter => Action::Submit,
        Key::PageUp => Action::ScrollUp,
        Key::PageDown => Action::ScrollDown,
        Key::WheelUp => Action::ScrollLineUp,
        Key::WheelDown => Action::ScrollLineDown,
        Key::Other => Action::Ignore,
    }
}

/// What each key does when it is pressed, and that none does anything when it is let go.
pub proof fn law_keys(c: char, n: u8, key: Key, ctrl: bool, alt: bool)
    ensures
        meaning(KeyInput { key, ctrl, alt, released: true }) is Ignore,
        meaning(KeyInput { key: Key::Char(c), ctrl: false, alt: false, released: false })
            == Action::Insert(c),
        meaning(KeyInput { key: Key::Char('c'), ctrl: true, alt, released: false }) is Quit,
        meaning(KeyInput { key: Key::Char('q'), ctrl: true, alt, released: false }) is Quit,
        c != 'c' && c != 'q' ==> meaning(
            KeyInput { key: Key::Char(c), ctrl: true, alt, released: false },
        ) is Ignore,
        meaning(KeyInput { key: Key::Char(c), ctrl: false, alt: true, released: false }) is Ignore,
        meaning(KeyInput { key: Key::F(1), ctrl, alt, released: false }) is ToggleHelp,
        meaning(KeyInput { key: Key::F(2), ctrl, alt, released: false }) is ToggleSession,
        meaning(KeyInput { key: Key::F(3), ctrl, alt, released: false }) is ToggleMute,
        meaning(KeyInput { key: Key::F(4), ctrl, alt, released: false }) is ToggleShare,
        n == 0 || n > 4 ==> meaning(KeyInput { key: Key::F(n), ctrl, alt, released: false }) is Ignore,
        meaning(KeyInput { key: Key::Esc, ctrl, alt, released: false }) is Escape,
        meaning(KeyInput { key: Key::Backspace, ctrl, alt, released: false }) is Backspace,
        meaning(KeyInput { key: Key::Delete, ctrl, alt, released: false }) is Delete,
        meaning(KeyInput { key: Key::Left, ctrl, alt, released: false }) is Left,
        meaning(KeyInput { key: Key::Right, ctrl, alt, released: false }) is Right,
        meaning(KeyInput { key: Key::Up, ctrl, alt, released: false }) is Up,
        meaning(KeyInput { key: Key::Down, ctrl, alt, released: false }) is Down,
        meaning(KeyInput { key: Key::Home, ctrl, alt, released: false }) is ScrollTop,
        meaning(KeyInput { key: Key::End, ctrl, alt, released: false }) is ScrollBottom,
        meaning(KeyInput { key: Key::Enter, ctrl, alt, released: false }) is Submit,
        meaning(KeyInput { key: Key::PageUp, ctrl, alt, released: false }) is ScrollUp,
        meaning(KeyInput { key: Key::PageDown, ctrl, alt, released: false }) is ScrollDown,
        meaning(KeyInput { key: Key::WheelUp, ctrl, alt, released: false }) is ScrollLineUp,
        meaning(KeyInput { key: Key::WheelDown, ctrl, alt, released: false }) is ScrollLineDown,
        meaning(KeyInput { key: Key::Other, ctrl, alt, released: false }) is Ignore,
{
}

} // verus!
