//! The keys the dashboard reacts to and the events they become.
use vstd::prelude::*;

verus! {

/// A key read from the terminal.
#[derive(Debug, Clone, Copy, PartialEq, Eq, Structural)]
pub enum Key {
    Up,
    Down,
    Left,
    Right,
    Char(char),
    /// Any other key.
    Other,
}

/// What the input reader hands the dashboard for one key.
#[derive(Debug, Clone, Copy, PartialEq, Eq, Structural)]
pub enum InputEvent {
    Exit,
    InputKey(Key),
}

impl InputEvent {
    /// `q` asks to quit; every other key passes through.
    pub fn from_key(key: Key) -> (r: InputEvent)
        ensures
            r == (if key == Key::Char('q') {
                InputEvent::Exit
            } else {
                InputEvent::InputKey(key)
            }),
    {
        if key == Key::Char('q') {
            InputEvent::Exit
        } else {
            InputEvent::InputKey(key)
        }
    }
}

} // verus!
