//! Frame timing: the time between frames and a smoothed frame rate.
use crate::fixed::{fdiv, fits, fmul, from_int, of_int, real_div, real_mul, Real, ONE};
use vstd::prelude::*;

verus! {

/// The weight of the old average in each update, `0.99` in fixed point.
pub const KEEP: i64 = 1038090;

/// The weight of the newest frame in each update, `0.01` in fixed point.
pub const BLEND: i64 = 10485;

/// The longest frame, in milliseconds, that a clock can take in.
pub const MAX_FRAME_MS: u64 = 0x100_0000_0000;

/// The largest average frame duration, in fixed-point milliseconds.
pub const MAX_AVERAGE: i64 = 0x1000_0000_0000_0000;

/// What a clock holds, as the contracts speak of it. Times are in milliseconds.
pub struct TimingModel {
    pub frame_number: u64,
    pub last_frame_timestamp: u64,
    pub last_frame_duration: u64,
    pub is_paused: bool,
    pub average_frame_duration: Real,
    pub fps: Real,
}

/// The moving average after a frame of `ms` milliseconds.
pub open spec fn blended(average: int, ms: int) -> int {
    fmul(average, KEEP as int) + fmul(of_int(ms), BLEND as int)
}

/// The state after an update at time `now`: the frame is counted unless the
/// clock is paused, its duration is taken, and from the second frame on the
/// average is started with the first duration seen or else smoothed. Whenever
/// the new average is positive the frame rate becomes 1000 over it.
pub open spec fn updated(m: TimingModel, now: u64) -> TimingModel {
    let frame = if m.is_paused {
        m.frame_number
    } else {
        (m.frame_number + 1) as u64
    };
    let ms = (now - m.last_frame_timestamp) as u64;
    let base = TimingModel {
        frame_number: frame,
        last_frame_timestamp: now,
        last_frame_duration: ms,
        ..m
    };
    if frame <= 1 {
        base
    } else if m.average_frame_duration <= 0 {
        TimingModel {
            average_frame_duration: of_int(ms as int) as i64,
            fps: if ms > 0 {
                fdiv(of_int(1000), of_int(ms as int)) as i64
            } else {
                m.fps
            },
            ..base
        }
    } else {
        let a = blended(m.average_frame_duration as int, ms as int);
        TimingModel {
            average_frame_duration: a as i64,
            fps: if a > 0 {
                fdiv(of_int(1000), a) as i64
            } else {
                m.fps
            },
            ..base
        }
    }
}

/// Measures the time between frames.
pub struct Timing {
    frame_number: u64,
    last_frame_timestamp: u64,
    last_frame_duration: u64,
    is_paused: bool,
    average_frame_duration: Real,
    fps: Real,
}

impl View for Timing {
    type V = TimingModel;

    closed spec fn view(&self) -> TimingModel {
        TimingModel {
            frame_number: self.frame_number,
            last_frame_timestamp: self.last_frame_timestamp,
            last_frame_duration: self.last_frame_duration,
            is_paused: self.is_paused,
            average_frame_duration: self.average_frame_duration,
            fps: self.fps,
        }
    }
}

/// A smoothed average stays within the bound when both parts are within it.
proof fn lemma_blend_bounded(a: int, ms: int)
    requires
        0 < a <= MAX_AVERAGE,
        0 <= ms <= MAX_FRAME_MS,
    ensures
        0 <= blended(a, ms) <= MAX_AVERAGE,
        fits(fmul(a, KEEP as int)),
        fits(fmul(of_int(ms), BLEND as int)),
{
    let big = 0x1000_0000_0000_0000int;
    assert(0 <= a * 1038090 <= big * 1038090) by (nonlinear_arith)
        requires
            0 < a <= big,
    ;
    assert(0 <= (ms * 1048576) * 10485 <= 0x100_0000_0000 * 1048576 * 10485) by (nonlinear_arith)
        requires
            0 <= ms <= 0x100_0000_0000,
    ;
}

impl Timing {
    /// The clock's bounds: the last frame and the average are in range, and
    /// the average is never negative.
    pub open spec fn wf(&self) -> bool {
        &&& self@.last_frame_duration <= MAX_FRAME_MS
        &&& 0 <= self@.average_frame_duration <= MAX_AVERAGE
    }

    /// A clock started at `now` milliseconds, before its first frame.
    pub fn new(now: u64) -> (r: Timing)
        ensures
            r.wf(),
            r@ == (TimingModel {
                frame_number: 0,
                last_frame_timestamp: now,
                last_frame_duration: 0,
                is_paused: false,
                average_frame_duration: 0,
                fps: 0,
            }),
    {
        Timing {
            frame_number: 0,
            last_frame_timestamp: now,
            last_frame_duration: 0,
            is_paused: false,
            average_frame_duration: 0,
            fps: 0,
        }
    }

    /// Records a frame at time `now`, in milliseconds (see `updated`). The
    /// clock must not run backwards.
    pub fn update(&mut self, now: u64)
        requires
            old(self).wf(),
            now >= old(self)@.last_frame_timestamp,
            now - old(self)@.last_frame_timestamp <= MAX_FRAME_MS,
            !old(self)@.is_paused ==> old(self)@.frame_number < u64::MAX,
        ensures
            final(self).wf(),
            final(self)@ == updated(old(self)@, now),
    {
        if !self.is_paused {
            self.frame_number = self.frame_number + 1;
        }
        let ms = now - self.last_frame_timestamp;
        self.last_frame_duration = ms;
        self.last_frame_timestamp = now;
        if self.frame_number > 1 {
            if self.average_frame_duration <= 0 {
                self.average_frame_duration = from_int(ms as i64);
                if ms > 0 {
                    proof {
                        lemma_rate_fits(of_int(ms as int));
                    }
                    self.fps = real_div(from_int(1000), self.average_frame_duration);
                }
            } else {
                proof {
                    lemma_blend_bounded(self.average_frame_duration as int, ms as int);
                }
                let kept = real_mul(self.average_frame_duration, KEEP);
                let fresh = real_mul(from_int(ms as i64), BLEND);
                let a = kept + fresh;
                self.average_frame_duration = a;
                if a > 0 {
                    proof {
                        lemma_rate_fits(a as int);
                    }
                    self.fps = real_div(from_int(1000), a);
                }
            }
        }
    }

    /// Pauses or resumes the frame count.
    pub fn set_paused(&mut self, paused: bool)
        ensures
            final(self)@ == (TimingModel { is_paused: paused, ..old(self)@ }),
            old(self).wf() ==> final(self).wf(),
    {
        self.is_paused = paused;
    }

    /// The last frame's duration in seconds, never negative.
    pub fn get_duration(&self) -> (r: Real)
        requires
            self.wf(),
        ensures
            r == fdiv(of_int(self@.last_frame_duration as int), of_int(1000)),
            r >= 0,
    {
        proof {
            lemma_duration_fits(self.last_frame_duration as int);
        }
        real_div(from_int(self.last_frame_duration as i64), from_int(1000))
    }

    /// The smoothed frame rate, in frames per second.
    pub fn get_fps(&self) -> (r: Real)
        ensures
            r == self@.fps,
    {
        self.fps
    }

    /// The time of the last update, in milliseconds.
    pub fn get_last_frame_timestamp(&self) -> (r: u64)
        ensures
            r == self@.last_frame_timestamp,
    {
        self.last_frame_timestamp
    }

    /// The number of frames counted.
    pub fn get_frame_number(&self) -> (r: u64)
        ensures
            r == self@.frame_number,
    {
        self.frame_number
    }

    /// The smoothed frame duration, in milliseconds.
    pub fn get_average_frame_duration(&self) -> (r: Real)
        ensures
            r == self@.average_frame_duration,
    {
        self.average_frame_duration
    }
}

/// A rate of 1000 frames over a positive average fits in a `Real`.
proof fn lemma_rate_fits(a: int)
    requires
        a >= 1,
    ensures
        fits(fdiv(of_int(1000), a)),
        fdiv(of_int(1000), a) >= 0,
{
    let n = 1000int * 1048576int * 1048576int;
    vstd::arithmetic::div_mod::lemma_div_pos_is_pos(n, a);
    vstd::arithmetic::div_mod::lemma_div_nonincreasing(n, a);
}

/// A frame's duration in seconds fits in a `Real` and is not negative.
proof fn lemma_duration_fits(ms: int)
    requires
        0 <= ms <= MAX_FRAME_MS,
    ensures
        fits(fdiv(of_int(ms), of_int(1000))),
        fdiv(of_int(ms), of_int(1000)) >= 0,
{
    let n = ms * 1048576 * 1048576;
    assert(0 <= n <= 0x100_0000_0000 * 1048576 * 1048576) by (nonlinear_arith)
        requires
            0 <= ms <= 0x100_0000_0000,
            n == ms * 1048576 * 1048576,
    ;
    assert(fdiv(of_int(ms), of_int(1000)) == n / (1000int * 1048576int));
}

/// From the second frame on, an update that leaves the average positive
/// leaves the frame rate at 1000 over that average.
pub proof fn lemma_rate_follows_average(m: TimingModel, now: u64)
    requires
        now >= m.last_frame_timestamp,
        now - m.last_frame_timestamp <= MAX_FRAME_MS,
        0 <= m.average_frame_duration <= MAX_AVERAGE,
        updated(m, now).frame_number > 1,
        updated(m, now).average_frame_duration > 0,
    ensures
        updated(m, now).fps == fdiv(of_int(1000), updated(m, now).average_frame_duration as int) as i64,
{
    if m.average_frame_duration > 0 {
        lemma_blend_bounded(m.average_frame_duration as int, now - m.last_frame_timestamp);
    }
}

} // verus!
