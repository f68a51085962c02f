//! The pointer: clicks drop balls, right drags orbit, touches fling or tap.

use vstd::prelude::*;

use crate::camera::{turn_yaw, turned_yaw};
use crate::protocol::{CameraMsg, DropMsg, InputMsg};
use crate::units::{div_round, held, hold, round_div};

verus! {

/// How far a touch travels before it is a swipe (CSS pixels); below it is a tap.
pub const TAP_SLOP_PX: i64 = 12;

/// How far back from its release a swipe's speed is measured (microseconds).
pub const FLING_WINDOW_MICROS: i64 = 120_000;

/// The button that orbits.
pub const ORBIT_BUTTON: i16 = 2;

/// A touch at a moment: its time (microseconds) and its place (CSS pixels).
#[derive(Debug, Clone, Copy, PartialEq, Eq, Structural)]
pub struct TouchSample {
    pub t: i64,
    pub x: i32,
    pub y: i32,
}

/// A touch that may become a fling.
pub struct Swipe {
    id: i32,
    origin: (i32, i32),
    samples: Vec<TouchSample>,
}

/// What a [`Swipe`] holds.
pub struct SwipeView {
    pub id: i32,
    pub origin: (i32, i32),
    pub samples: Seq<TouchSample>,
}

impl View for Swipe {
    type V = SwipeView;

    closed spec fn view(&self) -> SwipeView {
        SwipeView { id: self.id, origin: self.origin, samples: self.samples@ }
    }
}

/// What the pointer is doing.
pub struct PointerState {
    dragging: bool,
    suppress_click: bool,
    swipe: Option<Swipe>,
    yaw: i64,
}

/// What a [`PointerState`] holds.
pub struct PointerView {
    /// An orbit drag is under way.
    pub dragging: bool,
    /// The next click belongs to a swipe.
    pub suppress_click: bool,
    /// The touch that is followed.
    pub swipe: Option<SwipeView>,
    /// The camera's yaw, mirrored from the drags.
    pub yaw: i64,
}

impl View for PointerState {
    type V = PointerView;

    closed spec fn view(&self) -> PointerView {
        PointerView {
            dragging: self.dragging,
            suppress_click: self.suppress_click,
            swipe: match self.swipe {
                Some(s) => Some(s@),
                None => None,
            },
            yaw: self.yaw,
        }
    }
}

/// A pointer's place and time.
#[derive(Debug, Clone, Copy, PartialEq, Eq, Structural)]
pub struct PointerAt {
    pub id: i32,
    pub x: i32,
    pub y: i32,
    pub t: i64,
}

/// What a pointer move leads to.
#[derive(Debug, Clone, Copy)]
pub enum MoveAction {
    /// Nothing.
    Nothing,
    /// The followed touch moved: the page must not act on it.
    Follow,
    /// The camera orbits: the drag to post, and the yaw for the listener.
    Orbit { msg: CameraMsg, yaw: i64 },
}

/// Whole pixels in thousandths.
pub open spec fn milli(px: i32) -> i64 {
    (px * 1000) as i64
}

/// A click's place between the edges of a canvas, from minus one to one (millionths): x to
/// the right, y upwards. An empty canvas counts as one pixel.
pub open spec fn ndc(offset: (i32, i32), size: (i32, i32)) -> (int, int) {
    let w = if size.0 < 1 {
        1
    } else {
        size.0 as int
    };
    let h = if size.1 < 1 {
        1
    } else {
        size.1 as int
    };
    (
        div_round(offset.0 * 2_000_000, w) - 1_000_000,
        1_000_000 - div_round(offset.1 * 2_000_000, h),
    )
}

/// The samples that a swipe keeps at the time `t`: the oldest one goes as long as the second
/// is older than the window.
pub open spec fn recent(samples: Seq<TouchSample>, t: i64) -> Seq<TouchSample>
    decreases samples.len(),
{
    if samples.len() > 1 && t - samples[1].t > FLING_WINDOW_MICROS {
        recent(samples.remove(0), t)
    } else {
        samples
    }
}

/// The first sample from `from` on that lies within the window.
pub open spec fn within(samples: Seq<TouchSample>, t: i64, from: int) -> Option<int>
    decreases samples.len() - from,
{
    if from < 0 || from >= samples.len() {
        None
    } else if t - samples[from].t <= FLING_WINDOW_MICROS {
        Some(from)
    } else {
        within(samples, t, from + 1)
    }
}

/// The sample that a swipe's speed is measured from: the oldest within the window, or else
/// the oldest of all.
pub open spec fn base_sample(samples: Seq<TouchSample>, t: i64) -> TouchSample {
    match within(samples, t, 0) {
        Some(i) => samples[i],
        None => samples[0],
    }
}

/// The square of the way between two points.
pub open spec fn square_way(ax: i32, ay: i32, bx: i32, by: i32) -> int {
    (bx - ax) * (bx - ax) + (by - ay) * (by - ay)
}

/// Whether a touch that ends here was a tap.
pub open spec fn is_tap(s: SwipeView, at: PointerAt) -> bool {
    square_way(s.origin.0, s.origin.1, at.x, at.y) < TAP_SLOP_PX * TAP_SLOP_PX
}

/// Pixels over microseconds as ball speed: four thousandths of a metre per pixel, as far as 64
/// bits reach.
pub open spec fn ball_speed(px: int, micros: int) -> i64 {
    held(div_round(px * 4_000_000_000, micros))
}

/// Whether a way in a time is fast enough for a throw: a quarter of a metre per second of
/// ball speed.
pub open spec fn fast_enough(square: int, micros: int) -> bool {
    square * 256_000_000 >= micros * micros
}

/// The throw that a swipe ends in, where it ends in one.
pub open spec fn throw_of(s: SwipeView, at: PointerAt) -> Option<InputMsg> {
    let base = base_sample(s.samples, at.t);
    let dt = at.t - base.t;
    if !is_tap(s, at) && dt > 0 && fast_enough(square_way(base.x, base.y, at.x, at.y), dt) {
        Some(
            InputMsg::Fling {
                vx: ball_speed(at.x - base.x, dt),
                vz: ball_speed(at.y - base.y, dt),
            },
        )
    } else {
        None
    }
}

impl PointerView {
    /// A followed touch has a sample.
    pub open spec fn wf(self) -> bool {
        self.swipe matches Some(s) ==> s.samples.len() > 0
    }

    /// Whether the followed touch is this pointer's.
    pub open spec fn follows(self, id: i32) -> bool {
        self.swipe matches Some(s) && s.id == id
    }

    /// The state after a press.
    pub open spec fn pressed(self, button: i16, touch: bool, at: PointerAt) -> PointerView {
        PointerView {
            dragging: self.dragging || button == ORBIT_BUTTON,
            swipe: if touch && self.swipe is None {
                Some(
                    SwipeView {
                        id: at.id,
                        origin: (at.x, at.y),
                        samples: seq![TouchSample { t: at.t, x: at.x, y: at.y }],
                    },
                )
            } else {
                self.swipe
            },
            ..self
        }
    }

    /// The state after a move.
    pub open spec fn moved(self, at: PointerAt, movement: (i32, i32)) -> PointerView {
        match self.swipe {
            Some(s) => if s.id == at.id {
                PointerView {
                    swipe: Some(
                        SwipeView {
                            samples: recent(
                                s.samples.push(TouchSample { t: at.t, x: at.x, y: at.y }),
                                at.t,
                            ),
                            ..s
                        },
                    ),
                    ..self
                }
            } else {
                self
            },
            None => if self.dragging {
                PointerView { yaw: turned_yaw(self.yaw, milli(movement.0)), ..self }
            } else {
                self
            },
        }
    }

    /// What a move leads to.
    pub open spec fn move_action(self, at: PointerAt, movement: (i32, i32)) -> MoveAction {
        match self.swipe {
            Some(s) => if s.id == at.id {
                MoveAction::Follow
            } else {
                MoveAction::Nothing
            },
            None => if self.dragging {
                MoveAction::Orbit {
                    msg: CameraMsg::Orbit { dx: milli(movement.0), dy: milli(movement.1) },
                    yaw: turned_yaw(self.yaw, milli(movement.0)),
                }
            } else {
                MoveAction::Nothing
            },
        }
    }

    /// The state after a release.
    pub open spec fn released(self, at: PointerAt) -> PointerView {
        if self.follows(at.id) {
            PointerView {
                dragging: false,
                suppress_click: self.suppress_click || !is_tap(self.swipe->0, at),
                swipe: None,
                ..self
            }
        } else {
            PointerView { dragging: false, ..self }
        }
    }

    /// The throw a release leads to.
    pub open spec fn release_action(self, at: PointerAt) -> Option<InputMsg> {
        if self.follows(at.id) {
            throw_of(self.swipe->0, at)
        } else {
            None
        }
    }

    /// The state after a click: it is no longer a swipe's.
    pub open spec fn clicked(self) -> PointerView {
        PointerView { suppress_click: false, ..self }
    }

    /// Where a click drops a ball, unless it is a swipe's.
    pub open spec fn click_action(self, offset: (i32, i32), size: (i32, i32)) -> Option<
        (int, int),
    > {
        if self.suppress_click {
            None
        } else {
            Some(ndc(offset, size))
        }
    }

    /// The state after the browser took a pointer away.
    pub open spec fn cancelled(self, id: i32) -> PointerView {
        PointerView {
            dragging: false,
            swipe: if self.follows(id) {
                None
            } else {
                self.swipe
            },
            ..self
        }
    }
}

fn to_milli(px: i32) -> (r: i64)
    ensures
        r == milli(px),
{
    px as i64 * 1000
}

fn square_of_way(ax: i32, ay: i32, bx: i32, by: i32) -> (r: i128)
    ensures
        r == square_way(ax, ay, bx, by),
        0 <= r <= 0x2_0000_0000_0000_0000,
{
    let dx: i128 = bx as i128 - ax as i128;
    let dy: i128 = by as i128 - ay as i128;
    proof {
        square_is_small(dx as int);
        square_is_small(dy as int);
    }
    dx * dx + dy * dy
}

proof fn square_is_small(d: int)
    requires
        -0x1_0000_0000 <= d <= 0x1_0000_0000,
    ensures
        0 <= d * d <= 0x1_0000_0000_0000_0000,
{
    assert(0 <= d * d <= 0x1_0000_0000_0000_0000) by (nonlinear_arith)
        requires
            -0x1_0000_0000 <= d <= 0x1_0000_0000,
    ;
}

fn is_fast(square: i128, micros: i128) -> (r: bool)
    requires
        0 <= square <= 0x2_0000_0000_0000_0000,
        0 < micros <= 0x1_0000_0000_0000_0000,
    ensures
        r == fast_enough(square as int, micros as int),
{
    if micros >= 0x1000_0000_0000_0000 {
        proof {
            assert(micros * micros >= 0x1000_0000_0000_0000 * 0x1000_0000_0000_0000)
                by (nonlinear_arith)
                requires
                    micros >= 0x1000_0000_0000_0000,
            ;
        }
        return false;
    }
    proof {
        assert(0 <= micros * micros <= 0x1000_0000_0000_0000 * 0x1000_0000_0000_0000)
            by (nonlinear_arith)
            requires
                0 <= micros <= 0x1000_0000_0000_0000,
        ;
    }
    square * 256_000_000 >= micros * micros
}

fn to_ball_speed(px: i128, micros: i128) -> (r: i64)
    requires
        -0x1_0000_0000 <= px <= 0x1_0000_0000,
        0 < micros <= 0x1_0000_0000_0000_0000,
    ensures
        r == ball_speed(px as int, micros as int),
{
    hold(round_div(px * 4_000_000_000, micros))
}

impl Swipe {
    fn begin(at: PointerAt) -> (r: Self)
        ensures
            r@ == (SwipeView {
                id: at.id,
                origin: (at.x, at.y),
                samples: seq![TouchSample { t: at.t, x: at.x, y: at.y }],
            }),
    {
        let mut samples: Vec<TouchSample> = Vec::new();
        samples.push(TouchSample { t: at.t, x: at.x, y: at.y });
        assert(samples@ =~= seq![TouchSample { t: at.t, x: at.x, y: at.y }]);
        Swipe { id: at.id, origin: (at.x, at.y), samples }
    }

    fn follow(&mut self, at: PointerAt)
        ensures
            final(self)@ == (SwipeView {
                samples: recent(
                    old(self)@.samples.push(TouchSample { t: at.t, x: at.x, y: at.y }),
                    at.t,
                ),
                ..old(self)@
            }),
            final(self)@.samples.len() > 0,
    {
        self.samples.push(TouchSample { t: at.t, x: at.x, y: at.y });
        while self.samples.len() > 1 && at.t as i128 - self.samples[1].t as i128
            > FLING_WINDOW_MICROS as i128
            invariant
                self.samples@.len() > 0,
                self.id == old(self).id,
                self.origin == old(self).origin,
                recent(self.samples@, at.t) == recent(
                    old(self).samples@.push(TouchSample { t: at.t, x: at.x, y: at.y }),
                    at.t,
                ),
            decreases self.samples@.len(),
        {
            self.samples.remove(0);
        }
    }

    fn base(&self, t: i64) -> (r: TouchSample)
        requires
            self@.samples.len() > 0,
        ensures
            r == base_sample(self@.samples, t),
    {
        let mut i: usize = 0;
        while i < self.samples.len()
            invariant
                i <= self.samples@.len(),
                within(self.samples@, t, 0) == within(self.samples@, t, i as int),
            decreases self.samples@.len() - i,
        {
            if t as i128 - self.samples[i].t as i128 <= FLING_WINDOW_MICROS as i128 {
                return self.samples[i];
            }
            i = i + 1;
        }
        self.samples[0]
    }

    fn is_tap(&self, at: PointerAt) -> (r: bool)
        ensures
            r == is_tap(self@, at),
    {
        square_of_way(self.origin.0, self.origin.1, at.x, at.y) < (TAP_SLOP_PX * TAP_SLOP_PX) as i128
    }

    fn throw(&self, at: PointerAt) -> (r: Option<InputMsg>)
        requires
            self@.samples.len() > 0,
        ensures
            r == throw_of(self@, at),
    {
        if self.is_tap(at) {
            return None;
        }
        let base: TouchSample = self.base(at.t);
        let dt: i128 = at.t as i128 - base.t as i128;
        if dt <= 0 || !is_fast(square_of_way(base.x, base.y, at.x, at.y), dt) {
            return None;
        }
        Some(
            InputMsg::Fling {
                vx: to_ball_speed(at.x as i128 - base.x as i128, dt),
                vz: to_ball_speed(at.y as i128 - base.y as i128, dt),
            },
        )
    }
}

impl PointerState {
    pub fn new() -> (r: Self)
        ensures
            r@ == (PointerView { dragging: false, suppress_click: false, swipe: None, yaw: 0 }),
            r@.wf(),
    {
        PointerState { dragging: false, suppress_click: false, swipe: None, yaw: 0 }
    }

    /// The yaw mirrored from the drags.
    pub fn yaw(&self) -> (r: i64)
        ensures
            r == self@.yaw,
    {
        self.yaw
    }

    /// A click at an offset on a canvas of this size: the drop to post. None for a click that
    /// belongs to a swipe.
    pub fn click(&mut self, offset: (i32, i32), size: (i32, i32)) -> (r: Option<DropMsg>)
        ensures
            final(self)@ == (PointerView { suppress_click: false, ..old(self)@ }),
            match r {
                Some(DropMsg::Ball { ndc_x, ndc_y }) => !old(self)@.suppress_click && (
                    ndc_x as int,
                    ndc_y as int,
                ) == ndc(offset, size),
                None => old(self)@.suppress_click,
            },
            final(self)@ == old(self)@.clicked(),
            match r {
                Some(DropMsg::Ball { ndc_x, ndc_y }) => old(self)@.click_action(offset, size)
                    == Some((ndc_x as int, ndc_y as int)),
                None => old(self)@.click_action(offset, size) is None,
            },
    {
        if self.suppress_click {
            self.suppress_click = false;
            return None;
        }
        let w: i128 = if size.0 < 1 {
            1
        } else {
            size.0 as i128
        };
        let h: i128 = if size.1 < 1 {
            1
        } else {
            size.1 as i128
        };
        let x: i128 = round_div(offset.0 as i128 * 2_000_000, w);
        let y: i128 = round_div(offset.1 as i128 * 2_000_000, h);
        proof {
            small_quotient(offset.0 * 2_000_000, w as int);
            small_quotient(offset.1 * 2_000_000, h as int);
        }
        Some(DropMsg::Ball { ndc_x: (x - 1_000_000) as i64, ndc_y: (1_000_000 - y) as i64 })
    }

    /// A press: the orbit button begins a drag, a touch is followed unless one already is.
    pub fn down(&mut self, button: i16, touch: bool, at: PointerAt)
        requires
            old(self)@.wf(),
        ensures
            final(self)@ == old(self)@.pressed(button, touch, at),
            final(self)@.wf(),
    {
        if button == ORBIT_BUTTON {
            self.dragging = true;
        }
        if touch && self.swipe.is_none() {
            self.swipe = Some(Swipe::begin(at));
        }
    }

    /// A move: the followed touch is sampled; without one, a drag orbits.
    pub fn moved(&mut self, at: PointerAt, movement: (i32, i32)) -> (r: MoveAction)
        requires
            old(self)@.wf(),
        ensures
            final(self)@ == old(self)@.moved(at, movement),
            final(self)@.wf(),
            r == old(self)@.move_action(at, movement),
    {
        match self.swipe.take() {
            Some(s) => {
                let mut s = s;
                let ours: bool = s.id == at.id;
                if ours {
                    s.follow(at);
                }
                self.swipe = Some(s);
                if ours {
                    MoveAction::Follow
                } else {
                    MoveAction::Nothing
                }
            },
            None => {
                if !self.dragging {
                    return MoveAction::Nothing;
                }
                let dx: i64 = to_milli(movement.0);
                let dy: i64 = to_milli(movement.1);
                self.yaw = turn_yaw(self.yaw, dx);
                MoveAction::Orbit { msg: CameraMsg::Orbit { dx, dy }, yaw: self.yaw }
            },
        }
    }

    /// A release: it ends a drag, and makes the followed touch a tap or a swipe. Returns the
    /// throw to post.
    pub fn up(&mut self, at: PointerAt) -> (r: Option<InputMsg>)
        requires
            old(self)@.wf(),
        ensures
            final(self)@ == old(self)@.released(at),
            final(self)@.wf(),
            r == old(self)@.release_action(at),
    {
        self.dragging = false;
        match self.swipe.take() {
            Some(s) => {
                if s.id != at.id {
                    self.swipe = Some(s);
                    return None;
                }
                if !s.is_tap(at) {
                    self.suppress_click = true;
                }
                s.throw(at)
            },
            None => None,
        }
    }

    /// The browser took a pointer away: it ends a drag, and the followed touch is forgotten.
    pub fn cancel(&mut self, id: i32)
        requires
            old(self)@.wf(),
        ensures
            final(self)@ == old(self)@.cancelled(id),
            final(self)@.wf(),
    {
        self.dragging = false;
        match self.swipe.take() {
            Some(s) => {
                if s.id != id {
                    self.swipe = Some(s);
                }
            },
            None => {},
        }
    }
}

proof fn small_quotient(n: int, d: int)
    requires
        1 <= d,
        -0x10_0000_0000_0000 <= n <= 0x10_0000_0000_0000,
    ensures
        -0x10_0000_0000_0001 <= div_round(n, d) <= 0x10_0000_0000_0001,
{
    let q = div_round(n, d);
    crate::units::div_round_is_nearest(n, d);
    assert(-0x10_0000_0000_0001 <= q <= 0x10_0000_0000_0001) by (nonlinear_arith)
        requires
            1 <= d,
            -0x10_0000_0000_0000 <= n <= 0x10_0000_0000_0000,
            -d <= 2 * (q * d - n) <= d,
    ;
}

// ---------------------------------------------------------------------------------------
// Laws

/// A fling never also drops a ball: a release that throws, and any other that ends a swipe,
/// takes the click that follows it.
pub proof fn a_swipe_takes_its_click(p: PointerView, at: PointerAt)
    ensures
        p.release_action(at) is Some ==> p.released(at).suppress_click,
        p.follows(at.id) && !is_tap(p.swipe->0, at) ==> p.released(at).suppress_click,
{
}

/// A tap is left to its click: it throws nothing and takes no click.
pub proof fn a_tap_leaves_its_click(p: PointerView, at: PointerAt)
    requires
        p.follows(at.id),
        is_tap(p.swipe->0, at),
    ensures
        p.release_action(at) is None,
        p.released(at).suppress_click == p.suppress_click,
{
}

/// A touch that stays put is a tap, however long it rests and however often it is sampled.
pub proof fn a_still_touch_is_a_tap(p: PointerView, button: i16, at: PointerAt, later: i64)
    requires
        p.swipe is None,
    ensures
        is_tap(p.pressed(button, true, at).swipe->0, PointerAt { t: later, ..at }),
{
    assert((at.x - at.x) * (at.x - at.x) == 0) by (nonlinear_arith);
    assert((at.y - at.y) * (at.y - at.y) == 0) by (nonlinear_arith);
}

/// One touch is followed at a time: while it lasts, another finger changes nothing about it
/// and moves no camera.
pub proof fn one_touch_at_a_time(p: PointerView, button: i16, at: PointerAt, movement: (i32, i32))
    requires
        p.swipe is Some,
        !p.follows(at.id),
    ensures
        p.pressed(button, true, at).swipe == p.swipe,
        p.moved(at, movement) == p,
        p.move_action(at, movement) is Nothing,
        p.released(at).swipe == p.swipe,
        p.cancelled(at.id).swipe == p.swipe,
        p.release_action(at) is None,
{
}

/// Without a touch nothing is ever thrown.
pub proof fn a_mouse_never_throws(p: PointerView, at: PointerAt)
    requires
        p.swipe is None,
    ensures
        p.release_action(at) is None,
{
}

/// The least throw is a quarter of a metre per second: the square of a ball speed of four
/// thousandths of a metre per pixel reaches that of 250 000 micrometres per second.
pub proof fn the_least_throw(square: int, micros: int)
    ensures
        fast_enough(square, micros) <==> square * (4_000_000_000 * 4_000_000_000) >= (250_000
            * micros) * (250_000 * micros),
{
    assert((250_000 * micros) * (250_000 * micros) == 62_500_000_000 * (micros * micros))
        by (nonlinear_arith);
    let (a, b) = (square, micros * micros);
    assert(a * (4_000_000_000 * 4_000_000_000) == 62_500_000_000 * (a * 256_000_000))
        by (nonlinear_arith);
}

/// A swipe's speed is a recent one: at most its oldest sample lies outside the window.
pub proof fn only_one_sample_is_old(samples: Seq<TouchSample>, t: i64)
    requires
        samples.len() > 0,
    ensures
        recent(samples, t).len() > 0,
        recent(samples, t).len() > 1 ==> t - recent(samples, t)[1].t <= FLING_WINDOW_MICROS,
        recent(samples, t).last() == samples.last(),
    decreases samples.len(),
{
    if samples.len() > 1 && t - samples[1].t > FLING_WINDOW_MICROS {
        only_one_sample_is_old(samples.remove(0), t);
    }
}

/// A pointer move.
pub struct Move {
    pub at: PointerAt,
    pub movement: (i32, i32),
}

/// The pointer after a run of moves.
pub open spec fn moved_all(p: PointerView, moves: Seq<Move>) -> PointerView
    decreases moves.len(),
{
    if moves.len() == 0 {
        p
    } else {
        moved_all(p, moves.drop_last()).moved(moves.last().at, moves.last().movement)
    }
}

/// The drags that a run of moves posts.
pub open spec fn posted(p: PointerView, moves: Seq<Move>) -> Seq<CameraMsg>
    decreases moves.len(),
{
    if moves.len() == 0 {
        seq![]
    } else {
        let m = moves.last();
        match moved_all(p, moves.drop_last()).move_action(m.at, m.movement) {
            MoveAction::Orbit { msg, .. } => posted(p, moves.drop_last()).push(msg),
            _ => posted(p, moves.drop_last()),
        }
    }
}

/// The mirrored yaw is the camera's: after any run of moves it is what the posted drags make
/// of the yaw before, which is what a camera that started there has.
pub proof fn the_mirror_follows_the_posted_drags(p: PointerView, moves: Seq<Move>)
    ensures
        moved_all(p, moves).yaw == crate::camera::mirrored_yaw(p.yaw, posted(p, moves)),
    decreases moves.len(),
{
    if moves.len() > 0 {
        let m = moves.last();
        the_mirror_follows_the_posted_drags(p, moves.drop_last());
        if moved_all(p, moves.drop_last()).move_action(m.at, m.movement) is Orbit {
            assert(posted(p, moves).drop_last() =~= posted(p, moves.drop_last()));
        }
    }
}

/// The corners of a canvas are the corners of the view: its top left is at (-1, 1) and its
/// bottom right at (1, -1).
pub proof fn corners_are_corners(size: (i32, i32))
    requires
        size.0 >= 1,
        size.1 >= 1,
    ensures
        ndc((0, 0), size) == (-1_000_000int, 1_000_000int),
        ndc(size, size) == (1_000_000int, -1_000_000int),
{
    zero_quotient(size.0 as int);
    zero_quotient(size.1 as int);
    whole_side(size.0 as int);
    whole_side(size.1 as int);
}

proof fn zero_quotient(d: int)
    requires
        1 <= d,
    ensures
        div_round(0int * 2_000_000, d) == 0,
{
    assert(d / (2 * d) == 0) by (nonlinear_arith)
        requires
            1 <= d,
    ;
}

proof fn whole_side(d: int)
    requires
        1 <= d,
    ensures
        div_round(d * 2_000_000, d) == 2_000_000,
{
    assert((2 * (d * 2_000_000) + d) / (2 * d) == 2_000_000) by (nonlinear_arith)
        requires
            1 <= d,
    ;
}

/// Whether a swipe that ends at `t` is measured from the sample at `i`: the first that is no more
/// than 0.12 seconds old, or the very first where all are older.
pub open spec fn measured_from(samples: Seq<TouchSample>, t: i64, i: int) -> bool {
    &&& 0 <= i < samples.len()
    &&& t - samples[i].t <= 120_000 || i == 0
    &&& forall|j: int| 0 <= j < i ==> t - (#[trigger] samples[j]).t > 120_000
    &&& t - samples[i].t > 120_000 ==> forall|j: int|
        0 <= j < samples.len() ==> t - (#[trigger] samples[j]).t > 120_000
}

/// Whether a speed is that of a way of so many pixels in so many microseconds, at four thousandths
/// of a metre per pixel, to the nearest millionth of a metre per second as far as 64 bits reach, and
/// with its sign.
pub open spec fn thrown(v: i64, px: int, micros: int) -> bool {
    let full = 4_000_000_000 * px;
    &&& i64::MIN * micros <= full <= i64::MAX * micros ==> -micros <= 2 * (v * micros - full)
        <= micros
    &&& full > i64::MAX * micros ==> v == i64::MAX
    &&& full < i64::MIN * micros ==> v == i64::MIN
    &&& px == 0 ==> v == 0
    &&& px < 0 ==> v <= 0
    &&& px > 0 ==> v >= 0
    &&& px < 0 && micros < 8_000_000_000 ==> v < 0
    &&& px > 0 && micros < 8_000_000_000 ==> v > 0
}

proof fn speeds_are_those_of_their_way(px: int, micros: int)
    requires
        0 < micros,
    ensures
        thrown(ball_speed(px, micros), px, micros),
{
    let n = px * 4_000_000_000;
    let q = div_round(n, micros);
    crate::units::div_round_is_nearest(n, micros);
    assert(px == 0 ==> q == 0) by (nonlinear_arith)
        requires
            0 < micros,
            n == px * 4_000_000_000,
            q == (2 * n + micros) / (2 * micros),
    ;
    assert(px < 0 ==> q <= 0) by (nonlinear_arith)
        requires
            0 < micros,
            n == px * 4_000_000_000,
            -micros <= 2 * (q * micros - n) <= micros,
    ;
    assert(px > 0 ==> q >= 0) by (nonlinear_arith)
        requires
            0 < micros,
            n == px * 4_000_000_000,
            -micros <= 2 * (q * micros - n) <= micros,
    ;
    assert(px < 0 && micros < 8_000_000_000 ==> q < 0) by (nonlinear_arith)
        requires
            0 < micros,
            n == px * 4_000_000_000,
            -micros <= 2 * (q * micros - n) <= micros,
    ;
    assert(px > 0 && micros < 8_000_000_000 ==> q > 0) by (nonlinear_arith)
        requires
            0 < micros,
            n == px * 4_000_000_000,
            -micros <= 2 * (q * micros - n) <= micros,
    ;
    if i64::MIN * micros <= n <= i64::MAX * micros {
        let (lo, hi) = (i64::MIN as int, i64::MAX as int);
        assert(lo <= q <= hi) by (nonlinear_arith)
            requires
                0 < micros,
                lo * micros <= n <= hi * micros,
                -micros <= 2 * (q * micros - n) <= micros,
        ;
    }
    if n > i64::MAX * micros {
        let hi = i64::MAX as int;
        assert(q >= hi) by (nonlinear_arith)
            requires
                0 < micros,
                n > hi * micros,
                -micros <= 2 * (q * micros - n) <= micros,
        ;
    }
    if n < i64::MIN * micros {
        let lo = i64::MIN as int;
        assert(q <= lo) by (nonlinear_arith)
            requires
                0 < micros,
                n < lo * micros,
                -micros <= 2 * (q * micros - n) <= micros,
        ;
    }
}

proof fn the_base_is_measured_from(samples: Seq<TouchSample>, t: i64, from: int, i: int)
    requires
        0 <= from <= samples.len(),
        measured_from(samples, t, i),
        t - samples[i].t <= 120_000 ==> from <= i,
    ensures
        within(samples, t, from) == (if t - samples[i].t <= 120_000 {
            Some(i)
        } else {
            None
        }),
    decreases samples.len() - from,
{
    if from < samples.len() {
        assert(FLING_WINDOW_MICROS == 120_000);
        if t - samples[from].t > 120_000 {
            the_base_is_measured_from(samples, t, from + 1, i);
        }
    }
}

/// A swipe is measured from one of its samples, whichever way it went.
pub proof fn every_swipe_is_measured(samples: Seq<TouchSample>, t: i64) -> (i: int)
    requires
        samples.len() > 0,
    ensures
        measured_from(samples, t, i),
{
    first_recent(samples, t, 0)
}

proof fn first_recent(samples: Seq<TouchSample>, t: i64, from: int) -> (i: int)
    requires
        0 <= from <= samples.len(),
        samples.len() > 0,
        forall|j: int| 0 <= j < from ==> t - (#[trigger] samples[j]).t > 120_000,
    ensures
        measured_from(samples, t, i),
    decreases samples.len() - from,
{
    if from == samples.len() {
        0
    } else if t - samples[from].t <= 120_000 {
        from
    } else {
        first_recent(samples, t, from + 1)
    }
}

/// A throw has the velocity of its swipe, sign and size: to the right and left along x, down and
/// up the screen along z, measured over the last 0.12 seconds of the touch. A release throws where
/// the touch ended twelve pixels or more from where it began, took time, and was as fast as a
/// quarter of a metre per second of the ball.
pub proof fn throws_have_the_velocity_of_their_swipe(p: PointerView, at: PointerAt, i: int)
    requires
        p.follows(at.id),
        measured_from(p.swipe->0.samples, at.t, i),
    ensures
        ({
            let s = p.swipe->0;
            let base = s.samples[i];
            let (px, py, dt) = (at.x - base.x, at.y - base.y, at.t - base.t);
            let (ox, oy) = (at.x - s.origin.0, at.y - s.origin.1);
            &&& p.release_action(at) is Some <==> {
                &&& ox * ox + oy * oy >= 144
                &&& dt > 0
                &&& (px * px + py * py) * (4_000_000_000 * 4_000_000_000) >= (250_000 * dt) * (
                250_000 * dt)
            }
            &&& p.release_action(at) matches Some(msg) ==> (msg matches InputMsg::Fling { vx, vz }
                && thrown(vx, px, dt) && thrown(vz, py, dt))
        }),
{
    let s = p.swipe->0;
    let base = s.samples[i];
    let (px, py, dt) = (at.x - base.x, at.y - base.y, at.t - base.t);
    the_base_is_measured_from(s.samples, at.t, 0, i);
    assert(base_sample(s.samples, at.t) == base) by {
        if at.t - base.t > 120_000 {
            assert(i == 0);
        }
    }
    assert(TAP_SLOP_PX * TAP_SLOP_PX == 144) by {
        let slop = TAP_SLOP_PX;
        assert(slop * slop == 144) by (nonlinear_arith)
            requires
                slop == 12,
        ;
    }
    the_least_throw(square_way(base.x, base.y, at.x, at.y), dt);
    if dt > 0 {
        speeds_are_those_of_their_way(px, dt);
        speeds_are_those_of_their_way(py, dt);
    }
}

/// A touch is followed from where and when it began, by its own moves, and until it ends. Only the
/// orbit button begins a drag, and any release or loss of a pointer ends it.
pub proof fn a_touch_is_followed_from_its_press(
    p: PointerView,
    button: i16,
    touch: bool,
    at: PointerAt,
    movement: (i32, i32),
)
    ensures
        p.pressed(button, touch, at).dragging <==> p.dragging || button == 2,
        p.pressed(button, touch, at).yaw == p.yaw,
        p.pressed(button, touch, at).suppress_click == p.suppress_click,
        p.swipe is None && touch ==> (p.pressed(button, touch, at).swipe matches Some(s) && s.id
            == at.id && s.origin.0 == at.x && s.origin.1 == at.y && s.samples.len() == 1
            && s.samples[0].t == at.t && s.samples[0].x == at.x && s.samples[0].y == at.y),
        !touch ==> p.pressed(button, touch, at).swipe == p.swipe,
        p.follows(at.id) ==> (p.moved(at, movement).swipe matches Some(s) && s.id == at.id
            && s.origin == p.swipe->0.origin && s.samples.last().t == at.t && s.samples.last().x
            == at.x && s.samples.last().y == at.y),
        !p.released(at).dragging && !p.cancelled(at.id).dragging,
        p.follows(at.id) ==> p.released(at).swipe is None && p.cancelled(at.id).swipe is None,
        p.released(at).yaw == p.yaw && p.cancelled(at.id).yaw == p.yaw,
        p.cancelled(at.id).suppress_click == p.suppress_click,
{
    if p.follows(at.id) {
        let all = p.swipe->0.samples.push(TouchSample { t: at.t, x: at.x, y: at.y });
        only_one_sample_is_old(all, at.t);
    }
}

/// A swipe keeps its last moments: of all its samples some of the oldest go, and a sample goes
/// only while the one after it is more than 0.12 seconds old.
pub proof fn a_swipe_keeps_its_last_moments(samples: Seq<TouchSample>, t: i64) -> (gone: int)
    requires
        samples.len() > 0,
    ensures
        0 <= gone < samples.len(),
        recent(samples, t) == samples.skip(gone),
        forall|j: int| 1 <= j <= gone ==> t - (#[trigger] samples[j]).t > 120_000,
        gone + 1 < samples.len() ==> t - samples[gone + 1].t <= 120_000,
    decreases samples.len(),
{
    if samples.len() > 1 && t - samples[1].t > 120_000 {
        let rest = samples.remove(0);
        let gone = a_swipe_keeps_its_last_moments(rest, t);
        assert(rest.skip(gone) =~= samples.skip(gone + 1));
        assert forall|j: int| 1 <= j <= gone + 1 implies t - (#[trigger] samples[j]).t > 120_000 by {
            if j > 1 {
                assert(rest[j - 1] == samples[j]);
            }
        }
        gone + 1
    } else {
        assert(samples.skip(0) =~= samples);
        0
    }
}

/// A drag orbits by as far as the pointer moved: to the right and down count up, and the mirrored
/// yaw falls by five thousandths for every pixel to the right.
pub proof fn a_drag_orbits_by_its_way(p: PointerView, at: PointerAt, movement: (i32, i32))
    requires
        p.swipe is None,
        p.dragging,
        i64::MIN <= p.yaw - movement.0 * 5000 <= i64::MAX,
    ensures
        p.move_action(at, movement) matches MoveAction::Orbit { msg, yaw } && (
        msg matches CameraMsg::Orbit { dx, dy } && dx == movement.0 * 1000 && dy == movement.1
            * 1000) && yaw == p.yaw - movement.0 * 5000,
        p.moved(at, movement).yaw == p.yaw - movement.0 * 5000,
        p.moved(at, movement).dragging && p.moved(at, movement).swipe is None,
{
}

/// A click is where it was made: its offset from the left edge and from the top, as a share of the
/// canvas, to the nearest millionth. To the right is up in x, and down is down in y. A side without
/// a pixel counts as one.
pub proof fn clicks_are_where_they_were_made(offset: (i32, i32), size: (i32, i32))
    ensures
        ({
            let w = if size.0 >= 1 {
                size.0 as int
            } else {
                1
            };
            let h = if size.1 >= 1 {
                size.1 as int
            } else {
                1
            };
            let at = ndc(offset, size);
            &&& -w <= 2 * ((at.0 + 1_000_000) * w - 2_000_000 * offset.0) <= w
            &&& -h <= 2 * ((1_000_000 - at.1) * h - 2_000_000 * offset.1) <= h
        }),
{
    let w = if size.0 >= 1 {
        size.0 as int
    } else {
        1
    };
    let h = if size.1 >= 1 {
        size.1 as int
    } else {
        1
    };
    crate::units::div_round_is_nearest(offset.0 * 2_000_000, w);
    crate::units::div_round_is_nearest(offset.1 * 2_000_000, h);
}

/// A click drops a ball where it was made, unless a swipe took it, and a swipe takes one click
/// only: after it the next one drops again.
pub proof fn a_swipe_takes_one_click(
    p: PointerView,
    at: PointerAt,
    offset: (i32, i32),
    size: (i32, i32),
)
    ensures
        p.suppress_click ==> p.click_action(offset, size) is None,
        !p.suppress_click ==> p.click_action(offset, size) == Some(ndc(offset, size)),
        p.clicked().click_action(offset, size) == Some(ndc(offset, size)),
        p.clicked().swipe == p.swipe && p.clicked().dragging == p.dragging && p.clicked().yaw
            == p.yaw,
        p.release_action(at) is Some ==> p.released(at).click_action(offset, size) is None
            && p.released(at).clicked().click_action(offset, size) is Some,
{
}

} // verus!
