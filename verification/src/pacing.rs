//! Frame pacing: when to simulate, when to wait, when to stop.

use crate::fixed::Fixed;
use vstd::prelude::*;

verus! {

/// The number of frames after which a run ends.
pub const FRAME_LIMIT: u64 = 10_000;

/// Microseconds in a second.
pub const SECOND: u64 = 1_000_000;

/// The pacing state between two calls of the event loop. Times are in
/// microseconds on a clock that never runs backwards.
#[derive(Clone, Copy, Debug, PartialEq, Eq, Structural)]
pub struct FramePacer {
    /// When the last frame ran.
    pub last_frame: u64,
    /// Shortest time between two frames, if a frame rate was asked for.
    pub target_rate: Option<u64>,
    /// Calls since the frame rate was last reported.
    pub frame_count: u32,
    /// Time since the frame rate was last reported.
    pub time_accum: u64,
    /// Frames run so far.
    pub count: u64,
}

/// What the event loop is to do next.
#[derive(Clone, Copy, Debug, PartialEq, Eq, Structural)]
pub enum FrameAction {
    /// Sleep until `target`; no frame runs.
    WaitUntil { target: u64, fps_report: Option<u32> },
    /// Run a frame over the elapsed time `dt`, in seconds, then leave the
    /// loop if `exit` is set.
    Run { dt: Fixed, fps_report: Option<u32>, exit: bool },
}

/// `a + b`, or the largest number where the sum does not fit.
pub open spec fn spec_saturating_sum(a: u64, b: u64) -> u64 {
    if a + b > u64::MAX {
        u64::MAX
    } else {
        (a + b) as u64
    }
}

/// The time from `earlier` to `later`, zero if `later` is not later.
pub open spec fn spec_elapsed(later: u64, earlier: u64) -> u64 {
    if later >= earlier {
        (later - earlier) as u64
    } else {
        0
    }
}

/// A time in microseconds as seconds.
pub open spec fn spec_seconds(micros: u64) -> Fixed {
    Fixed::spec_from_raw(micros as int)
}

impl FramePacer {
    /// The pacing state before the first frame at time `now`: the last frame
    /// counts as having run one frame interval ago.
    pub open spec fn spec_new(now: u64, target_rate_millis: Option<u64>) -> FramePacer {
        let target_rate = match target_rate_millis {
            Some(ms) => Some(
                if ms * 1000 > u64::MAX {
                    u64::MAX
                } else {
                    (ms * 1000) as u64
                },
            ),
            None => None,
        };
        FramePacer {
            last_frame: match target_rate {
                Some(t) => spec_elapsed(now, t),
                None => now,
            },
            target_rate,
            frame_count: 0,
            time_accum: 0,
            count: 0,
        }
    }

    /// The time since the last frame.
    pub open spec fn spec_dt(self, now: u64) -> u64 {
        spec_elapsed(now, self.last_frame)
    }

    /// The call counter after this call.
    pub open spec fn spec_counted(self) -> u32 {
        if self.frame_count == u32::MAX {
            u32::MAX
        } else {
            (self.frame_count + 1) as u32
        }
    }

    /// Whether this call reports the frame rate: more than a second has
    /// gone by since the last report.
    pub open spec fn spec_reports(self, now: u64) -> bool {
        spec_saturating_sum(self.time_accum, self.spec_dt(now)) > SECOND
    }

    /// When the next frame may run, if a frame rate was asked for.
    pub open spec fn spec_target(self) -> Option<u64> {
        match self.target_rate {
            Some(t) => Some(spec_saturating_sum(self.last_frame, t)),
            None => None,
        }
    }

    /// Whether this call has to wait: a frame rate was asked for and the
    /// next frame is not due.
    pub open spec fn spec_waits(self, now: u64) -> bool {
        self.spec_target() is Some && now < self.spec_target()->0
    }

    /// The state after the call at time `now`.
    pub open spec fn spec_next(self, now: u64) -> FramePacer {
        let reported = FramePacer {
            frame_count: if self.spec_reports(now) {
                0
            } else {
                self.spec_counted()
            },
            time_accum: if self.spec_reports(now) {
                0
            } else {
                spec_saturating_sum(self.time_accum, self.spec_dt(now))
            },
            ..self
        };
        if self.spec_waits(now) {
            reported
        } else {
            FramePacer {
                last_frame: now,
                count: spec_saturating_sum(self.count, 1),
                ..reported
            }
        }
    }

    /// What the call at time `now` asks of the event loop.
    pub open spec fn spec_action(self, now: u64) -> FrameAction {
        let fps_report = if self.spec_reports(now) {
            Some(self.spec_counted())
        } else {
            None
        };
        if self.spec_waits(now) {
            FrameAction::WaitUntil { target: self.spec_target()->0, fps_report }
        } else {
            FrameAction::Run {
                dt: spec_seconds(self.spec_dt(now)),
                fps_report,
                exit: spec_saturating_sum(self.count, 1) > FRAME_LIMIT,
            }
        }
    }

    /// Starts pacing at time `now`, with the frame interval in milliseconds
    /// if a frame rate was asked for.
    pub fn new(now: u64, target_rate_millis: Option<u64>) -> (r: FramePacer)
        ensures
            r == FramePacer::spec_new(now, target_rate_millis),
    {
        let target_rate = match target_rate_millis {
            Some(ms) => Some(
                if ms > u64::MAX / 1000 {
                    u64::MAX
                } else {
                    ms * 1000
                },
            ),
            None => None,
        };
        let last_frame = match target_rate {
            Some(t) => now.saturating_sub(t),
            None => now,
        };
        FramePacer { last_frame, target_rate, frame_count: 0, time_accum: 0, count: 0 }
    }

    /// Decides what the event loop does at time `now` and moves the pacing
    /// state on.
    pub fn about_to_wait(&mut self, now: u64) -> (action: FrameAction)
        ensures
            action == old(self).spec_action(now),
            *final(self) == old(self).spec_next(now),
    {
        let dt = now.saturating_sub(self.last_frame);
        let counted = self.frame_count.saturating_add(1);
        let accum = self.time_accum.saturating_add(dt);
        let fps_report = if accum > SECOND {
            self.frame_count = 0;
            self.time_accum = 0;
            Some(counted)
        } else {
            self.frame_count = counted;
            self.time_accum = accum;
            None
        };
        match self.target_rate {
            Some(rate) => {
                let target = self.last_frame.saturating_add(rate);
                if now < target {
                    return FrameAction::WaitUntil { target, fps_report };
                }
            },
            None => {},
        }
        self.last_frame = now;
        self.count = self.count.saturating_add(1);
        let seconds = if dt > i64::MAX as u64 {
            Fixed::from_raw(i64::MAX)
        } else {
            Fixed::from_raw(dt as i64)
        };
        FrameAction::Run { dt: seconds, fps_report, exit: self.count > FRAME_LIMIT }
    }
}

} // verus!
