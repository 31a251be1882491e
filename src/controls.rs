//! The state of the buttons and the direction pad at one moment.
use vstd::prelude::*;

verus! {

/// Which buttons are pressed.
pub struct Controls {
    pub buttons_a: bool,
    pub buttons_b: bool,
    pub buttons_s: bool,
    pub dpad_up: bool,
    pub dpad_down: bool,
    pub dpad_left: bool,
    pub dpad_right: bool,
}

impl Controls {
    /// Collects the seven inputs.
    pub fn new(
        buttons_a: bool,
        buttons_b: bool,
        buttons_s: bool,
        dpad_up: bool,
        dpad_down: bool,
        dpad_left: bool,
        dpad_right: bool,
    ) -> (r: Controls)
        ensures
            r == (Controls {
                buttons_a,
                buttons_b,
                buttons_s,
                dpad_up,
                dpad_down,
                dpad_left,
                dpad_right,
            }),
    {
        Controls { buttons_a, buttons_b, buttons_s, dpad_up, dpad_down, dpad_left, dpad_right }
    }
}

} // verus!
