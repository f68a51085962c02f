//! The fixed-timestep clock: how many physics steps a frame runs, and how far into the next
//! step it is shown.
//!
//! Time is accumulated in units of one microsecond divided by the step rate, so that a step
//! is exactly one million of them at any rate, and the leftover is the interpolation factor
//! in millionths.

use vstd::prelude::*;

use crate::protocol::SIM_HZ;
use crate::units::clamp_int;

verus! {

/// The length of one step, in clock units.
pub const STEP_UNITS: u64 = 1_000_000;

/// The most real time one frame takes in (microseconds).
pub const MAX_FRAME_MICROS: i64 = 100_000;

/// The most steps one frame runs: as many as a longest frame buys.
pub const MAX_SUBSTEPS: u32 = (100 * SIM_HZ + 999) / 1000;

/// The clock between frames.
pub struct Pacing {
    accumulator: u64,
    last_vsync: Option<i64>,
}

/// What a [`Pacing`] holds: time not yet stepped (clock units), and the last frame's time.
pub struct PacingView {
    pub accumulator: int,
    pub last_vsync: Option<i64>,
}

/// The real time a frame takes in: none for the first, never negative, never over the limit.
pub open spec fn frame_micros(last: Option<i64>, now: i64) -> int {
    match last {
        Some(prev) => clamp_int(now - prev, 0, MAX_FRAME_MICROS as int),
        None => 0,
    }
}

/// The steps that accumulated time buys, up to the cap.
pub open spec fn steps_for(accumulated: int) -> int {
    let whole = accumulated / (STEP_UNITS as int);
    if whole < MAX_SUBSTEPS {
        whole
    } else {
        MAX_SUBSTEPS as int
    }
}

/// The time left after those steps; a frame at the cap keeps none.
pub open spec fn left_after(accumulated: int) -> int {
    if steps_for(accumulated) == MAX_SUBSTEPS {
        0
    } else {
        accumulated - steps_for(accumulated) * STEP_UNITS
    }
}

impl PacingView {
    /// Less than a step is ever left over.
    pub open spec fn wf(self) -> bool {
        0 <= self.accumulator < STEP_UNITS
    }

    /// The time to step in a frame at `now`.
    pub open spec fn accumulated(self, now: i64) -> int {
        self.accumulator + frame_micros(self.last_vsync, now) * SIM_HZ
    }

    /// The steps a frame at `now` runs.
    pub open spec fn steps(self, now: i64) -> int {
        steps_for(self.accumulated(now))
    }

    /// The clock after that frame.
    pub open spec fn next(self, now: i64) -> PacingView {
        PacingView { accumulator: left_after(self.accumulated(now)), last_vsync: Some(now) }
    }
}

impl View for Pacing {
    type V = PacingView;

    closed spec fn view(&self) -> PacingView {
        PacingView { accumulator: self.accumulator as int, last_vsync: self.last_vsync }
    }
}

impl Pacing {
    pub fn new() -> (r: Self)
        ensures
            r@ == (PacingView { accumulator: 0, last_vsync: None }),
            r@.wf(),
    {
        Pacing { accumulator: 0, last_vsync: None }
    }

    /// Takes in a frame at the time `now` (microseconds) and returns how many steps it runs.
    pub fn advance(&mut self, now: i64) -> (steps: u32)
        requires
            old(self)@.wf(),
        ensures
            steps == old(self)@.steps(now),
            final(self)@ == old(self)@.next(now),
            final(self)@.wf(),
    {
        let frame: u64 = match self.last_vsync {
            Some(prev) => {
                let gap: i128 = now as i128 - prev as i128;
                if gap < 0 {
                    0
                } else if gap > MAX_FRAME_MICROS as i128 {
                    MAX_FRAME_MICROS as u64
                } else {
                    gap as u64
                }
            },
            None => 0,
        };
        self.last_vsync = Some(now);
        let accumulated: u64 = self.accumulator + frame * SIM_HZ as u64;
        let whole: u64 = accumulated / STEP_UNITS;
        if whole >= MAX_SUBSTEPS as u64 {
            self.accumulator = 0;
            MAX_SUBSTEPS
        } else {
            self.accumulator = accumulated - whole * STEP_UNITS;
            whole as u32
        }
    }

    /// How far the shown moment lies between the last two steps (millionths).
    pub fn alpha(&self) -> (r: u64)
        ensures
            r == self@.accumulator,
    {
        self.accumulator
    }
}

/// The cap at a rate: the steps that a longest frame buys, rounded up.
pub open spec fn max_substeps_at(hz: int) -> int {
    (100 * hz + 999) / 1000
}

/// The cap follows the rate: at any rate it is the least number of steps that covers a longest
/// frame.
pub proof fn the_cap_follows_the_rate(hz: int)
    requires
        0 < hz,
    ensures
        max_substeps_at(hz) * STEP_UNITS >= MAX_FRAME_MICROS * hz,
        (max_substeps_at(hz) - 1) * STEP_UNITS < MAX_FRAME_MICROS * hz,
        MAX_SUBSTEPS == max_substeps_at(SIM_HZ as int),
{
    let (n, m, u) = (max_substeps_at(hz), MAX_FRAME_MICROS as int, STEP_UNITS as int);
    assert(1000 * n >= 100 * hz && 1000 * (n - 1) < 100 * hz);
    assert(n * u == 1000 * (1000 * n) && (n - 1) * u == 1000 * (1000 * (n - 1)))
        by (nonlinear_arith)
        requires
            u == 1_000_000,
    ;
    assert(m * hz == 1000 * (100 * hz)) by (nonlinear_arith)
        requires
            m == 100_000,
    ;
}

/// The interpolation factor is always below one.
pub proof fn alpha_is_a_fraction(p: PacingView, now: i64)
    requires
        p.wf(),
    ensures
        p.next(now).wf(),
{
}

/// Catch-up is bounded: no frame runs more than [`MAX_SUBSTEPS`] steps.
pub proof fn catch_up_is_bounded(p: PacingView, now: i64)
    requires
        p.wf(),
    ensures
        0 <= p.steps(now) <= MAX_SUBSTEPS,
{
}

/// The cap covers a longest frame: it never costs a whole step, only a leftover fraction.
pub proof fn the_cap_costs_no_whole_step(p: PacingView, now: i64)
    requires
        p.wf(),
    ensures
        p.accumulated(now) - p.steps(now) * STEP_UNITS < STEP_UNITS,
        p.steps(now) == p.accumulated(now) / STEP_UNITS as int,
{
    let f = frame_micros(p.last_vsync, now);
    assert(0 <= f * SIM_HZ <= 24_000_000);
}

/// Time is neither made nor lost in a frame below the cap: what was left over plus what
/// passed is what was stepped plus what is left over.
pub proof fn a_frame_conserves_time(p: PacingView, now: i64)
    requires
        p.wf(),
        p.steps(now) < MAX_SUBSTEPS,
    ensures
        p.accumulator + frame_micros(p.last_vsync, now) * SIM_HZ == p.steps(now) * STEP_UNITS
            + p.next(now).accumulator,
{
}

/// The clock after a run of frames.
pub open spec fn pacing_after(p: PacingView, frames: Seq<i64>) -> PacingView
    decreases frames.len(),
{
    if frames.len() == 0 {
        p
    } else {
        pacing_after(p, frames.drop_last()).next(frames.last())
    }
}

/// The steps of a run of frames.
pub open spec fn total_steps(p: PacingView, frames: Seq<i64>) -> int
    decreases frames.len(),
{
    if frames.len() == 0 {
        0
    } else {
        total_steps(p, frames.drop_last()) + pacing_after(p, frames.drop_last()).steps(
            frames.last(),
        )
    }
}

/// No frame of the run reaches the cap, and each one follows the last within the frame limit.
pub open spec fn runs_freely(p: PacingView, frames: Seq<i64>) -> bool
    decreases frames.len(),
{
    frames.len() == 0 || {
        let before = pacing_after(p, frames.drop_last());
        &&& runs_freely(p, frames.drop_last())
        &&& before.steps(frames.last()) < MAX_SUBSTEPS
        &&& before.last_vsync matches Some(prev) && 0 <= frames.last() - prev <= MAX_FRAME_MICROS
    }
}

/// The simulation runs as many steps as elapsed real time has bought, at any display rate:
/// however a stretch of time is cut into frames, the steps run in it are the whole steps
/// that fit into it together with what was left over before.
pub proof fn steps_follow_real_time(p: PacingView, start: i64, frames: Seq<i64>)
    requires
        p.wf(),
        p.last_vsync == Some(start),
        frames.len() > 0,
        runs_freely(p, frames),
    ensures
        total_steps(p, frames) == (p.accumulator + (frames.last() - start) * SIM_HZ)
            / STEP_UNITS as int,
{
    elapsed_is_accounted_for(p, start, frames);
    let left = pacing_after(p, frames).accumulator;
    let n = total_steps(p, frames);
    let all = p.accumulator + (frames.last() - start) * SIM_HZ;
    assert(all == n * 1_000_000 + left);
    assert(all / 1_000_000 == n);
}

proof fn elapsed_is_accounted_for(p: PacingView, start: i64, frames: Seq<i64>)
    requires
        p.wf(),
        p.last_vsync == Some(start),
        runs_freely(p, frames),
    ensures
        pacing_after(p, frames).wf(),
        pacing_after(p, frames).last_vsync == Some(
            if frames.len() == 0 {
                start
            } else {
                frames.last()
            },
        ),
        p.accumulator + ((if frames.len() == 0 {
            start
        } else {
            frames.last()
        }) - start) * SIM_HZ == total_steps(p, frames) * STEP_UNITS + pacing_after(
            p,
            frames,
        ).accumulator,
    decreases frames.len(),
{
    if frames.len() > 0 {
        let rest = frames.drop_last();
        elapsed_is_accounted_for(p, start, rest);
        let before = pacing_after(p, rest);
        a_frame_conserves_time(before, frames.last());
    }
}

/// A frame steps the time since the last one, at 240 steps per second: none for the first frame or
/// where the clock went back, and a tenth of a second where more has passed. What is less than a
/// step is left for the next frame, but a frame that runs 24 steps leaves nothing.
pub proof fn a_frame_steps_the_time_since_the_last(p: PacingView, now: i64)
    requires
        p.wf(),
    ensures
        ({
            let passed = match p.last_vsync {
                None => 0int,
                Some(last) => if now < last {
                    0int
                } else if now - last > 100_000 {
                    100_000int
                } else {
                    now - last
                },
            };
            let time = p.accumulator + 240 * passed;
            let n = p.steps(now);
            &&& 1_000_000 * n <= time < 1_000_000 * (n + 1)
            &&& n < 24 ==> p.next(now).accumulator == time - 1_000_000 * n
            &&& n >= 24 ==> n == 24 && p.next(now).accumulator == 0
            &&& p.next(now).last_vsync == Some(now)
        }),
{
    assert(MAX_SUBSTEPS == 24);
}

} // verus!
