//! The stats window: what the frame loop measured, smoothed and reported about once a second.

use vstd::prelude::*;

use crate::protocol::StatsMsg;
use crate::units::{div_round, held, hold, round_div};

verus! {

/// How much of a new sample goes into a smoothed value (hundredths).
pub const STATS_EMA_PERCENT: i64 = 35;

/// Frames that are presented before counting starts.
pub const STATS_WARMUP_FRAMES: u32 = 60;

/// The shortest window that is reported (microseconds).
pub const STATS_WINDOW_MICROS: i64 = 1_000_000;

/// The frame loop's running totals and smoothed values.
pub struct StatsAcc {
    window_t0: i64,
    frames: u32,
    steps: u32,
    frame_micros: u64,
    step_micros: u64,
    warmed: u32,
    fps_ema: Option<i64>,
    sps_ema: Option<i64>,
    frame_ms_ema: Option<i64>,
    step_ms_ema: Option<i64>,
}

/// What a [`StatsAcc`] holds: when its window began, what was counted in it, how many frames
/// of the warmup have passed, and the smoothed values of the last report.
pub struct StatsView {
    pub window_t0: i64,
    pub frames: u32,
    pub steps: u32,
    pub frame_micros: u64,
    pub step_micros: u64,
    pub warmed: u32,
    pub fps: Option<i64>,
    pub sps: Option<i64>,
    pub frame_ms: Option<i64>,
    pub step_ms: Option<i64>,
}

/// `a + b`, or the largest value where that is larger.
pub open spec fn sat(a: int, b: int, max: int) -> int {
    if a + b > max {
        max
    } else {
        a + b
    }
}

/// Events per second, in millionths, of `count` events in `micros` microseconds.
pub open spec fn rate(count: int, micros: int) -> int {
    count * 1_000_000_000_000 / micros
}

/// The mean of `count` durations that add up to `micros`, in millionths of a millisecond, as
/// far as 64 bits reach; zero of none.
pub open spec fn mean_ms(micros: int, count: int) -> i64 {
    if count > 0 {
        held(micros * 1000 / count)
    } else {
        0
    }
}

/// A smoothed value after a new sample: the first sample itself, then a step towards each.
pub open spec fn smoothed(last: Option<i64>, v: i64) -> i64 {
    match last {
        Some(e) => (e + div_round((v - e) * STATS_EMA_PERCENT, 100)) as i64,
        None => v,
    }
}

/// No measurement is below zero.
pub open spec fn in_report(v: Option<i64>) -> bool {
    v matches Some(e) ==> 0 <= e
}

impl StatsView {
    /// No smoothed value is below zero.
    pub open spec fn wf(self) -> bool {
        &&& in_report(self.fps)
        &&& in_report(self.sps)
        &&& in_report(self.frame_ms)
        &&& in_report(self.step_ms)
    }

    /// An empty window from `now` on.
    pub open spec fn restarted(self, now: i64) -> StatsView {
        StatsView { window_t0: now, frames: 0, steps: 0, frame_micros: 0, step_micros: 0, ..self }
    }

    /// The window with one more frame in it.
    pub open spec fn counted(self, frame: u64, substeps: u32, step: u64) -> StatsView {
        StatsView {
            frames: sat(self.frames as int, 1, u32::MAX as int) as u32,
            steps: sat(self.steps as int, substeps as int, u32::MAX as int) as u32,
            frame_micros: sat(self.frame_micros as int, frame as int, u64::MAX as int) as u64,
            step_micros: sat(self.step_micros as int, step as int, u64::MAX as int) as u64,
            ..self
        }
    }

    /// Whether a frame at `now` closes the window.
    pub open spec fn due(self, now: i64) -> bool {
        now - self.window_t0 >= STATS_WINDOW_MICROS
    }

    /// The smoothed values with the window's own taken in.
    pub open spec fn sampled(self, now: i64) -> StatsView {
        let dt = now - self.window_t0;
        StatsView {
            fps: Some(smoothed(self.fps, rate(self.frames as int, dt) as i64)),
            sps: Some(smoothed(self.sps, rate(self.steps as int, dt) as i64)),
            frame_ms: Some(
                smoothed(self.frame_ms, mean_ms(self.frame_micros as int, self.frames as int)),
            ),
            step_ms: Some(
                smoothed(self.step_ms, mean_ms(self.step_micros as int, self.steps as int)),
            ),
            ..self
        }
    }

    /// The stats after a frame.
    pub open spec fn next(self, now: i64, frame: u64, substeps: u32, step: u64) -> StatsView {
        if self.warmed < STATS_WARMUP_FRAMES {
            StatsView { warmed: (self.warmed + 1) as u32, ..self.restarted(now) }
        } else {
            let w = self.counted(frame, substeps, step);
            if w.due(now) {
                w.sampled(now).restarted(now)
            } else {
                w
            }
        }
    }

    /// What is reported after a frame.
    pub open spec fn report(
        self,
        now: i64,
        frame: u64,
        substeps: u32,
        step: u64,
        balls: u32,
    ) -> Option<StatsMsg> {
        if self.warmed >= STATS_WARMUP_FRAMES && self.due(now) {
            let s = self.next(now, frame, substeps, step);
            Some(
                StatsMsg {
                    fps: s.fps->0,
                    frame_ms: s.frame_ms->0,
                    step_ms: s.step_ms->0,
                    sps: s.sps->0,
                    balls,
                },
            )
        } else {
            None
        }
    }
}

impl View for StatsAcc {
    type V = StatsView;

    closed spec fn view(&self) -> StatsView {
        StatsView {
            window_t0: self.window_t0,
            frames: self.frames,
            steps: self.steps,
            frame_micros: self.frame_micros,
            step_micros: self.step_micros,
            warmed: self.warmed,
            fps: self.fps_ema,
            sps: self.sps_ema,
            frame_ms: self.frame_ms_ema,
            step_ms: self.step_ms_ema,
        }
    }
}

/// A smoothed value lies between the last one and the new sample.
pub proof fn smoothing_stays_between(e: i64, v: i64)
    requires
        0 <= e,
        0 <= v,
    ensures
        e <= v ==> e <= smoothed(Some(e), v) <= v,
        v <= e ==> v <= smoothed(Some(e), v) <= e,
{
    let p = STATS_EMA_PERCENT;
    assert((v - e) * p == 35 * (v - e)) by (nonlinear_arith)
        requires
            p == 35,
    ;
    let d = v - e;
    let way = (2 * (35 * d) + 100) / 200;
    assert(div_round((v - e) * p, 100) == way);
    assert(d >= 0 ==> 0 <= way <= d);
    assert(d <= 0 ==> d <= way <= 0);
    assert(smoothed(Some(e), v) == e + way);
}

fn smooth(last: Option<i64>, v: i64) -> (r: i64)
    requires
        in_report(last),
        0 <= v,
    ensures
        r == smoothed(last, v),
        0 <= r,
{
    match last {
        Some(e) => {
            proof {
                smoothing_stays_between(e, v);
                let p = STATS_EMA_PERCENT;
                assert((v - e) * p == 35 * (v - e)) by (nonlinear_arith)
                    requires
                        p == 35,
                ;
            }
            let way: i128 = round_div((v - e) as i128 * STATS_EMA_PERCENT as i128, 100);
            assert(way == (2 * (35 * (v - e)) + 100) / 200);
            e + way as i64
        },
        None => v,
    }
}

fn rate_of(count: u32, micros: u128) -> (r: i64)
    requires
        STATS_WINDOW_MICROS <= micros,
    ensures
        r == rate(count as int, micros as int),
        0 <= r,
{
    let n: u128 = count as u128 * 1_000_000_000_000;
    proof {
        let (a, d) = (n as int, micros as int);
        assert(0 <= a / d <= 0x1_0000_0000 * 1_000_000) by (nonlinear_arith)
            requires
                0 <= a <= 0x1_0000_0000 * 1_000_000_000_000,
                1_000_000 <= d,
        ;
    }
    (n / micros) as i64
}

fn mean_of(micros: u64, count: u32) -> (r: i64)
    ensures
        r == mean_ms(micros as int, count as int),
        0 <= r,
{
    if count > 0 {
        let n: u128 = micros as u128 * 1000 / count as u128;
        hold(n as i128)
    } else {
        0
    }
}

impl StatsAcc {
    pub fn new(now: i64) -> (r: Self)
        ensures
            r@.wf(),
            r@ == (StatsView {
                window_t0: now,
                frames: 0,
                steps: 0,
                frame_micros: 0,
                step_micros: 0,
                warmed: 0,
                fps: None,
                sps: None,
                frame_ms: None,
                step_ms: None,
            }),
    {
        StatsAcc {
            window_t0: now,
            frames: 0,
            steps: 0,
            frame_micros: 0,
            step_micros: 0,
            warmed: 0,
            fps_ema: None,
            sps_ema: None,
            frame_ms_ema: None,
            step_ms_ema: None,
        }
    }

    fn restart(&mut self, now: i64)
        ensures
            final(self)@ == old(self)@.restarted(now),
    {
        self.window_t0 = now;
        self.frames = 0;
        self.steps = 0;
        self.frame_micros = 0;
        self.step_micros = 0;
    }

    /// Takes in a frame presented at `now`: how long it worked, how many steps it ran and how
    /// long those took (microseconds), and how many balls are in play. Returns a report where
    /// one is due.
    pub fn record(
        &mut self,
        now: i64,
        frame_micros: u64,
        substeps: u32,
        step_micros: u64,
        balls: u32,
    ) -> (r: Option<StatsMsg>)
        requires
            old(self)@.wf(),
        ensures
            final(self)@.wf(),
            final(self)@ == old(self)@.next(now, frame_micros, substeps, step_micros),
            r == old(self)@.report(now, frame_micros, substeps, step_micros, balls),
    {
        if self.warmed < STATS_WARMUP_FRAMES {
            self.warmed = self.warmed + 1;
            self.restart(now);
            return None;
        }
        self.frames = self.frames.saturating_add(1);
        self.steps = self.steps.saturating_add(substeps);
        self.frame_micros = self.frame_micros.saturating_add(frame_micros);
        self.step_micros = self.step_micros.saturating_add(step_micros);
        let dt: i128 = now as i128 - self.window_t0 as i128;
        if dt < STATS_WINDOW_MICROS as i128 {
            return None;
        }
        let fps: i64 = smooth(self.fps_ema, rate_of(self.frames, dt as u128));
        let sps: i64 = smooth(self.sps_ema, rate_of(self.steps, dt as u128));
        let frame_ms: i64 = smooth(self.frame_ms_ema, mean_of(self.frame_micros, self.frames));
        let step_ms: i64 = smooth(self.step_ms_ema, mean_of(self.step_micros, self.steps));
        self.fps_ema = Some(fps);
        self.sps_ema = Some(sps);
        self.frame_ms_ema = Some(frame_ms);
        self.step_ms_ema = Some(step_ms);
        self.restart(now);
        Some(StatsMsg { fps, frame_ms, step_ms, sps, balls })
    }
}

/// One frame's measurements.
pub struct FrameSample {
    pub now: i64,
    pub frame: u64,
    pub substeps: u32,
    pub step: u64,
    pub balls: u32,
}

/// The stats after a run of frames.
pub open spec fn stats_after(s: StatsView, frames: Seq<FrameSample>) -> StatsView
    decreases frames.len(),
{
    if frames.len() == 0 {
        s
    } else {
        let f = frames.last();
        stats_after(s, frames.drop_last()).next(f.now, f.frame, f.substeps, f.step)
    }
}

/// Boot frames are discarded: however the first [`STATS_WARMUP_FRAMES`] frames went, nothing
/// is reported and nothing of them is counted.
pub proof fn boot_frames_do_not_count(s: StatsView, frames: Seq<FrameSample>, f: FrameSample)
    requires
        s.warmed == 0,
        frames.len() < STATS_WARMUP_FRAMES,
    ensures
        stats_after(s, frames).report(f.now, f.frame, f.substeps, f.step, f.balls) is None,
        stats_after(s, frames.push(f)) == (StatsView {
            warmed: (frames.len() + 1) as u32,
            ..s.restarted(f.now)
        }),
    decreases frames.len(),
{
    assert(frames.push(f).drop_last() =~= frames);
    if frames.len() > 0 {
        boot_frames_do_not_count(s, frames.drop_last(), frames.last());
        assert(frames.drop_last().push(frames.last()) =~= frames);
    }
}

/// No frame of the run brings a report.
pub open spec fn silent(s: StatsView, frames: Seq<FrameSample>) -> bool
    decreases frames.len(),
{
    frames.len() == 0 || {
        let f = frames.last();
        &&& silent(s, frames.drop_last())
        &&& stats_after(s, frames.drop_last()).report(
            f.now,
            f.frame,
            f.substeps,
            f.step,
            f.balls,
        ) is None
    }
}

/// Reports are at least a window apart: when one was made with the frame `f`, and the frames
/// since then brought none, one with the frame `g` comes no earlier than a window later.
pub proof fn reports_are_a_window_apart(
    s: StatsView,
    f: FrameSample,
    frames: Seq<FrameSample>,
    g: FrameSample,
)
    requires
        s.report(f.now, f.frame, f.substeps, f.step, f.balls) is Some,
        silent(s.next(f.now, f.frame, f.substeps, f.step), frames),
    ensures
        stats_after(s.next(f.now, f.frame, f.substeps, f.step), frames).report(
            g.now,
            g.frame,
            g.substeps,
            g.step,
            g.balls,
        ) is Some ==> g.now - f.now >= STATS_WINDOW_MICROS,
{
    silence_keeps_the_window(s.next(f.now, f.frame, f.substeps, f.step), frames);
}

proof fn silence_keeps_the_window(s: StatsView, frames: Seq<FrameSample>)
    requires
        s.warmed >= STATS_WARMUP_FRAMES,
        silent(s, frames),
    ensures
        stats_after(s, frames).window_t0 == s.window_t0,
        stats_after(s, frames).warmed == s.warmed,
    decreases frames.len(),
{
    if frames.len() > 0 {
        silence_keeps_the_window(s, frames.drop_last());
    }
}

/// Whether a smoothed value went from the last one towards a sample by 35 hundredths of the way, to
/// the nearest unit; the first one is the sample itself.
pub open spec fn towards(result: i64, last: Option<i64>, sample: i64) -> bool {
    match last {
        Some(e) => -100 <= 2 * (100 * (result - e) - 35 * (sample - e)) <= 100,
        None => result == sample,
    }
}

/// Whether a rate is that of so many events in so many microseconds, in whole millionths of one per
/// second.
pub open spec fn is_rate(result: i64, count: int, micros: int) -> bool {
    result * micros <= count * 1_000_000_000_000 < (result + 1) * micros
}

/// Whether a mean is that of so many durations, in whole millionths of a millisecond, where 64 bits
/// hold it; none have a mean of zero.
pub open spec fn is_mean(result: i64, micros: int, count: int) -> bool {
    &&& count == 0 ==> result == 0
    &&& count > 0 && micros * 1000 < i64::MAX * count ==> result * count <= micros * 1000 < (result
        + 1) * count
}

proof fn quotients_are_whole(n: int, d: int)
    requires
        0 <= n,
        0 < d,
    ensures
        (n / d) * d <= n < (n / d + 1) * d,
        0 <= n / d <= n,
{
    let q = n / d;
    assert(q * d <= n < (q + 1) * d && 0 <= q <= n) by (nonlinear_arith)
        requires
            q == n / d,
            0 <= n,
            0 < d,
    ;
}

proof fn rates_and_means(count: u32, micros: u64, dt: int)
    requires
        1_000_000 <= dt,
    ensures
        is_rate(rate(count as int, dt) as i64, count as int, dt),
        0 <= rate(count as int, dt) <= i64::MAX,
        is_mean(mean_ms(micros as int, count as int), micros as int, count as int),
        0 <= mean_ms(micros as int, count as int),
{
    let n = count * 1_000_000_000_000;
    quotients_are_whole(n, dt);
    let q = n / dt;
    assert(q <= 0x1_0000_0000 * 1_000_000) by (nonlinear_arith)
        requires
            q * dt <= n,
            n <= 0x1_0000_0000 * 1_000_000_000_000,
            1_000_000 <= dt,
            0 <= q,
    ;
    if count > 0 {
        let m = micros * 1000;
        quotients_are_whole(m, count as int);
        let (k, c) = (m / count as int, count as int);
        if m < i64::MAX * c {
            assert(k < i64::MAX) by (nonlinear_arith)
                requires
                    k * c <= m,
                    m < i64::MAX * c,
                    0 < c,
            ;
        }
    }
}

proof fn smoothing_goes_towards(last: Option<i64>, v: i64)
    requires
        in_report(last),
        0 <= v,
    ensures
        towards(smoothed(last, v), last, v),
{
    if let Some(e) = last {
        smoothing_stays_between(e, v);
        let p = STATS_EMA_PERCENT;
        assert((v - e) * p == 35 * (v - e)) by (nonlinear_arith)
            requires
                p == 35,
        ;
        crate::units::div_round_is_nearest(35 * (v - e), 100);
    }
}

/// A report tells what was measured since the last one: frames and steps per second over the time
/// that passed, the mean length of a frame and of a step, each smoothed by itself, and the balls in
/// play. One is made once sixty frames have gone by and a second has passed.
pub proof fn a_report_tells_what_was_measured(
    s: StatsView,
    now: i64,
    frame: u64,
    substeps: u32,
    step: u64,
    balls: u32,
) -> (v: StatsMsg)
    requires
        s.wf(),
        s.frames < u32::MAX,
        s.steps + substeps <= u32::MAX,
        s.frame_micros + frame <= u64::MAX,
        s.step_micros + step <= u64::MAX,
    ensures
        s.report(now, frame, substeps, step, balls) is Some <==> s.warmed >= 60 && now - s.window_t0
            >= 1_000_000,
        s.report(now, frame, substeps, step, balls) matches Some(r) ==> {
            let dt = now - s.window_t0;
            &&& is_rate(v.fps, s.frames + 1, dt)
            &&& is_rate(v.sps, s.steps + substeps, dt)
            &&& is_mean(v.frame_ms, s.frame_micros + frame, s.frames + 1)
            &&& is_mean(v.step_ms, s.step_micros + step, s.steps + substeps)
            &&& towards(r.fps, s.fps, v.fps)
            &&& towards(r.sps, s.sps, v.sps)
            &&& towards(r.frame_ms, s.frame_ms, v.frame_ms)
            &&& towards(r.step_ms, s.step_ms, v.step_ms)
            &&& r.balls == balls
        },
{
    let dt = now - s.window_t0;
    let w = s.counted(frame, substeps, step);
    if s.warmed >= 60 && dt >= 1_000_000 {
        rates_and_means(w.frames, w.frame_micros, dt);
        rates_and_means(w.steps, w.step_micros, dt);
        let fps = rate(w.frames as int, dt) as i64;
        let sps = rate(w.steps as int, dt) as i64;
        let frame_ms = mean_ms(w.frame_micros as int, w.frames as int);
        let step_ms = mean_ms(w.step_micros as int, w.steps as int);
        smoothing_goes_towards(s.fps, fps);
        smoothing_goes_towards(s.sps, sps);
        smoothing_goes_towards(s.frame_ms, frame_ms);
        smoothing_goes_towards(s.step_ms, step_ms);
        StatsMsg { fps, frame_ms, step_ms, sps, balls }
    } else {
        StatsMsg { fps: 0, frame_ms: 0, step_ms: 0, sps: 0, balls }
    }
}

/// A frame after the warmup is counted: itself, its steps, and how long it and they took. A report
/// empties the window and begins a new one at its frame, and keeps what it reported.
pub proof fn frames_are_counted(
    s: StatsView,
    now: i64,
    frame: u64,
    substeps: u32,
    step: u64,
    balls: u32,
)
    requires
        s.warmed >= 60,
        s.frames < u32::MAX,
        s.steps + substeps <= u32::MAX,
        s.frame_micros + frame <= u64::MAX,
        s.step_micros + step <= u64::MAX,
    ensures
        ({
            let n = s.next(now, frame, substeps, step);
            &&& s.report(now, frame, substeps, step, balls) is None ==> n.frames == s.frames + 1
                && n.steps == s.steps + substeps && n.frame_micros == s.frame_micros + frame
                && n.step_micros == s.step_micros + step && n.window_t0 == s.window_t0 && n.fps
                == s.fps && n.sps == s.sps && n.frame_ms == s.frame_ms && n.step_ms == s.step_ms
            &&& s.report(now, frame, substeps, step, balls) matches Some(r) ==> n.frames == 0
                && n.steps == 0 && n.frame_micros == 0 && n.step_micros == 0 && n.window_t0 == now
                && n.fps == Some(r.fps) && n.sps == Some(r.sps) && n.frame_ms == Some(r.frame_ms)
                && n.step_ms == Some(r.step_ms)
            &&& n.warmed == s.warmed
        }),
{
}

} // verus!
