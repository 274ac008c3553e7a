//! The events that the multiplexer delivers to the foreground loop.

use vstd::prelude::*;

verus! {

/// A decoded keyboard key. `Other` stands for any key the application
/// does not react to (arrows, function keys, and so on).
#[derive(Clone, Copy, PartialEq, Eq, Structural, Debug)]
pub enum Key {
    Char(char),
    Backspace,
    Other,
}

/// One event of the merged input stream: a key press from the keyboard
/// producer, a tick from the timer producer, or the notice that the
/// keyboard source failed or closed and no further key will ever come.
#[derive(Clone, Copy, PartialEq, Eq, Structural, Debug)]
pub enum InputEvent {
    KeyPress(Key),
    Tick,
    SourceClosed,
}

impl InputEvent {
    /// True of the events the keyboard producer emits.
    pub open spec fn is_key_press(self) -> bool {
        self is KeyPress
    }

    /// True of the events the timer producer emits.
    pub open spec fn is_tick(self) -> bool {
        self is Tick
    }
}

} // verus!
