//! Detects that a key was pressed and let go, so that an app reacts once per press.
use vstd::prelude::*;

verus! {

/// Where a key is in its press cycle.
#[derive(Clone, Copy, PartialEq, Eq, Structural, Debug)]
pub enum KeyState {
    /// Nothing seen yet; the first reading decides.
    KeyUnknown,
    KeyDown,
    KeyUp,
    /// The key went up, then down again: one press completed.
    KeyReleased,
}

/// The state after reading the key as `current`.
pub open spec fn next_state(s: KeyState, current: bool) -> KeyState {
    match s {
        KeyState::KeyUnknown => if current {
            KeyState::KeyUp
        } else {
            KeyState::KeyDown
        },
        KeyState::KeyDown => if current {
            KeyState::KeyUp
        } else {
            KeyState::KeyDown
        },
        KeyState::KeyUp => if current {
            KeyState::KeyUp
        } else {
            KeyState::KeyReleased
        },
        KeyState::KeyReleased => if current {
            KeyState::KeyUnknown
        } else {
            KeyState::KeyDown
        },
    }
}

/// Follows one key through its readings and reports each completed press once.
#[derive(Clone, Copy, Debug)]
pub struct KeyReleaseEvent {
    state: KeyState,
    fired: bool,
}

impl KeyReleaseEvent {
    /// Where the key is in its cycle.
    pub closed spec fn state(&self) -> KeyState {
        self.state
    }

    /// A detector that has seen nothing yet.
    pub fn new() -> (r: KeyReleaseEvent)
        ensures
            r.state() == KeyState::KeyUnknown,
    {
        KeyReleaseEvent { state: KeyState::KeyUnknown, fired: false }
    }

    /// Forgets all readings.
    pub fn reset(&mut self)
        ensures
            final(self).state() == KeyState::KeyUnknown,
    {
        self.state = KeyState::KeyUnknown;
        self.fired = false;
    }

    /// Takes one reading of the key.
    pub fn update(&mut self, current_state: bool)
        ensures
            final(self).state() == next_state(old(self).state(), current_state),
    {
        self.state = match self.state {
            KeyState::KeyUnknown => if current_state {
                KeyState::KeyUp
            } else {
                KeyState::KeyDown
            },
            KeyState::KeyDown => if current_state {
                KeyState::KeyUp
            } else {
                KeyState::KeyDown
            },
            KeyState::KeyUp => if current_state {
                KeyState::KeyUp
            } else {
                KeyState::KeyReleased
            },
            KeyState::KeyReleased => if current_state {
                KeyState::KeyUnknown
            } else {
                KeyState::KeyDown
            },
        };
    }

    /// Whether the last reading completed a press.
    pub fn fired(&self) -> (r: bool)
        ensures
            r == (self.state() == KeyState::KeyReleased),
    {
        self.state == KeyState::KeyReleased
    }
}

} // verus!
