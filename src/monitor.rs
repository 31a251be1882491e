//! Counts rendered frames and reports the frame rate every few seconds.
use vstd::prelude::*;

verus! {

/// Frames that must pass before a report.
pub const FRAMES_RENDERED_MIN: u32 = 60;

/// Microseconds that must pass before a report.
pub const TIME_PASSED_MIN_US: u32 = 3_000_000;

/// Frames rendered since the last report, and when that report was.
#[derive(Debug)]
pub struct Monitor {
    last_update: u32,
    frames_rendered: u32,
}

impl Monitor {
    /// Time of the last report, in microseconds.
    pub closed spec fn last_update(&self) -> u32 {
        self.last_update
    }

    /// Frames rendered since the last report.
    pub closed spec fn frames_rendered(&self) -> u32 {
        self.frames_rendered
    }

    /// A monitor that has seen no frame, with its last report at time 0.
    pub fn new() -> (r: Monitor)
        ensures
            r.last_update() == 0,
            r.frames_rendered() == 0,
    {
        Monitor { last_update: 0, frames_rendered: 0 }
    }

    /// Counts a frame rendered at `t_us`. Once at least 60 frames and 3 seconds have passed
    /// since the last report, returns the frames per second over that span, rounded down, and
    /// starts counting anew from `t_us`.
    pub fn tick(&mut self, t_us: u32) -> (r: Option<u32>)
        ensures
            ({
                let frames = if old(self).frames_rendered() == u32::MAX {
                    u32::MAX as int
                } else {
                    old(self).frames_rendered() + 1
                };
                let dt = if t_us >= old(self).last_update() {
                    t_us - old(self).last_update()
                } else {
                    0
                };
                if frames < FRAMES_RENDERED_MIN || dt < TIME_PASSED_MIN_US {
                    &&& r is None
                    &&& final(self).frames_rendered() == frames
                    &&& final(self).last_update() == old(self).last_update()
                } else {
                    &&& r == Some((frames * 1000 / (dt / 1000)) as u32)
                    &&& final(self).frames_rendered() == 0
                    &&& final(self).last_update() == t_us
                }
            }),
    {
        self.frames_rendered = self.frames_rendered.saturating_add(1);
        let dt_us: u32 = if t_us >= self.last_update {
            t_us - self.last_update
        } else {
            0
        };
        if self.frames_rendered < FRAMES_RENDERED_MIN || dt_us < TIME_PASSED_MIN_US {
            return None;
        }
        let dt_ms: u32 = dt_us / 1000;
        let frames: u64 = self.frames_rendered as u64;
        proof {
            assert(frames * 1000 <= 4294967295u64 * 1000) by (nonlinear_arith)
                requires
                    frames <= 4294967295u64,
            ;
            let num: int = frames * 1000;
            let den: int = dt_ms as int;
            assert(num / den <= num / 3000) by (nonlinear_arith)
                requires
                    den >= 3000,
                    num >= 0,
            ;
        }
        let fps: u64 = frames * 1000 / (dt_ms as u64);
        self.frames_rendered = 0;
        self.last_update = t_us;
        Some(fps as u32)
    }
}

} // verus!
