//! Streaming decoder for mono QOA audio, the pacing logic that plays it on a PWM output,
//! and the small input and text helpers used by the display front end.
use vstd::prelude::*;

pub mod lms;
pub mod qoa;
pub mod decoder;
pub mod playback;
pub mod controls;
pub mod key_release;
pub mod monitor;
pub mod string_buffer;

pub use controls::Controls;
pub use decoder::QoaDecoder;
pub use key_release::KeyReleaseEvent;
pub use lms::Lms;
pub use monitor::Monitor;
pub use qoa::QoaError;

verus! {

/// The sum of two numbers.
pub fn add(left: u64, right: u64) -> (r: u64)
    requires
        left + right <= u64::MAX,
    ensures
        r == left + right,
{
    left + right
}

} // verus!
