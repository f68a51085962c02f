//! How held keys, flings and speed limits change the ball's horizontal velocity.
//!
//! A heading is the sine and the cosine of the camera's yaw, in millionths. Velocities are
//! micrometres per second, x to the right and z towards the camera at yaw zero.

use vstd::prelude::*;

use crate::physics::{StepActions, FLING_MAX, JUMP_DV, MAX_SPEED, MOVE_ACCEL};
use crate::protocol::SIM_HZ;
use crate::units::{div_round, round_div};

verus! {

/// One over the root of two (millionths).
pub const ROOT_HALF: i64 = 707_107;

/// The velocity that one step's push along one axis adds.
pub const PUSH_STRAIGHT: i64 = ((2 * (MOVE_ACCEL as u64) + SIM_HZ as u64) / (2 * (
SIM_HZ as u64))) as i64;

/// The velocity that one step's push along both axes adds on each of them.
pub const PUSH_DIAGONAL: i64 = ((2 * (MOVE_ACCEL as u64) * 707_107 + SIM_HZ as u64 * 1_000_000) / (
2 * (SIM_HZ as u64 * 1_000_000))) as i64;

/// A direction of view on the ground.
#[derive(Debug, Clone, Copy, PartialEq, Eq, Structural)]
pub struct Heading {
    pub sin: i64,
    pub cos: i64,
}

impl Heading {
    /// No sine or cosine exceeds one, and the two belong to one angle, to within rounding.
    pub open spec fn wf(self) -> bool {
        &&& -1_000_000 <= self.sin <= 1_000_000
        &&& -1_000_000 <= self.cos <= 1_000_000
        &&& self.sin * self.sin + self.cos * self.cos <= 1_000_003_000_000
    }

    /// A camera-frame vector in the world frame, in millionths of its unit.
    pub open spec fn turned(self, x: int, z: int) -> (int, int) {
        (x * self.cos + z * self.sin, z * self.cos - x * self.sin)
    }

    /// A camera-frame vector in the world frame.
    pub open spec fn turned_round(self, x: int, z: int) -> (int, int) {
        (
            div_round(self.turned(x, z).0, 1_000_000),
            div_round(self.turned(x, z).1, 1_000_000),
        )
    }

    /// Turns a camera-frame vector into the world frame.
    pub fn turn(&self, x: i64, z: i64) -> (r: (i128, i128))
        requires
            self.wf(),
        ensures
            (r.0 as int, r.1 as int) == self.turned_round(x as int, z as int),
    {
        let (s, c): (i128, i128) = (self.sin as i128, self.cos as i128);
        let (wx, wz): (i128, i128) = (x as i128, z as i128);
        proof {
            small_product(wx as int, s as int, 0x8000_0000_0000_0000);
            small_product(wx as int, c as int, 0x8000_0000_0000_0000);
            small_product(wz as int, s as int, 0x8000_0000_0000_0000);
            small_product(wz as int, c as int, 0x8000_0000_0000_0000);
        }
        let rx: i128 = round_div(wx * c + wz * s, 1_000_000);
        let rz: i128 = round_div(wz * c - wx * s, 1_000_000);
        (rx, rz)
    }
}

proof fn small_product(v: int, unit: int, bound: int)
    requires
        -bound <= v <= bound,
        -1_000_000 <= unit <= 1_000_000,
    ensures
        -(bound * 1_000_000) <= v * unit <= bound * 1_000_000,
{
    assert(-(bound * 1_000_000) <= v * unit <= bound * 1_000_000) by (nonlinear_arith)
        requires
            -bound <= v <= bound,
            -1_000_000 <= unit <= 1_000_000,
    ;
}

/// Turning makes no component more than twice as long.
proof fn turned_is_small(h: Heading, x: int, z: int, bound: int)
    requires
        h.wf(),
        -bound <= x <= bound,
        -bound <= z <= bound,
    ensures
        -2 * bound <= h.turned_round(x, z).0 <= 2 * bound,
        -2 * bound <= h.turned_round(x, z).1 <= 2 * bound,
        -2 * bound * 1_000_000 <= h.turned(x, z).0 <= 2 * bound * 1_000_000,
        -2 * bound * 1_000_000 <= h.turned(x, z).1 <= 2 * bound * 1_000_000,
{
    small_product(x, h.sin as int, bound);
    small_product(x, h.cos as int, bound);
    small_product(z, h.sin as int, bound);
    small_product(z, h.cos as int, bound);
    millionth(h.turned(x, z).0);
    millionth(h.turned(x, z).1);
}

proof fn millionth(n: int)
    ensures
        -500_000 <= 1_000_000 * div_round(n, 1_000_000) - n <= 500_000,
{
    crate::units::div_round_is_nearest(n, 1_000_000);
}

/// The square of a quotient to the nearest millionth, against the square of what was divided.
proof fn rounded_square(n: int, most: int)
    requires
        -most <= n <= most,
    ensures
        1_000_000_000_000 * (div_round(n, 1_000_000) * div_round(n, 1_000_000)) <= n * n + 1_000_000
            * most + 250_000_000_000,
{
    let t = div_round(n, 1_000_000);
    let e = 1_000_000 * t - n;
    millionth(n);
    assert(1_000_000_000_000 * (t * t) == (n + e) * (n + e)) by (nonlinear_arith)
        requires
            1_000_000 * t == n + e,
    ;
    assert((n + e) * (n + e) == n * n + 2 * (n * e) + e * e) by (nonlinear_arith);
    assert(e * e <= 250_000_000_000) by (nonlinear_arith)
        requires
            -500_000 <= e <= 500_000,
    ;
    assert(n * e <= 500_000 * most) by (nonlinear_arith)
        requires
            -500_000 <= e <= 500_000,
            -most <= n <= most,
    ;
}

/// However long a vector of 64-bit components is, the square of its length fits 128 bits once
/// it is turned.
proof fn turned_square_fits(h: Heading, x: int, z: int)
    requires
        h.wf(),
        i64::MIN <= x <= i64::MAX,
        i64::MIN <= z <= i64::MAX,
    ensures
        h.turned_round(x, z).0 * h.turned_round(x, z).0 + h.turned_round(x, z).1 * h.turned_round(
            x,
            z,
        ).1 <= u128::MAX,
{
    let bound = 0x8000_0000_0000_0000int;
    turned_is_small(h, x, z, bound);
    turning_keeps_the_length(h, x, z);
    let n = h.turned(x, z);
    square_bound(x, bound);
    square_bound(z, bound);
    let (a, b) = (x * x + z * z, h.sin * h.sin + h.cos * h.cos);
    assert(0 <= h.sin * h.sin && 0 <= h.cos * h.cos) by (nonlinear_arith);
    assert(a * b <= 0x8000_0000_0000_0000_0000_0000_0000_0000 * 1_000_003_000_000)
        by (nonlinear_arith)
        requires
            0 <= a <= 0x8000_0000_0000_0000_0000_0000_0000_0000,
            0 <= b <= 1_000_003_000_000,
    ;
    rounded_square(n.0, 2 * bound * 1_000_000);
    rounded_square(n.1, 2 * bound * 1_000_000);
}

/// The velocity a camera-frame push adds in one step: the same whatever the direction, up to
/// rounding, and none without a direction.
pub open spec fn push_of(dir_x: int, dir_z: int, heading: Heading) -> (int, int) {
    let k = if dir_x != 0 && dir_z != 0 {
        PUSH_DIAGONAL as int
    } else {
        PUSH_STRAIGHT as int
    };
    heading.turned_round(dir_x * k, dir_z * k)
}

proof fn push_values()
    ensures
        PUSH_STRAIGHT == 112_500,
        PUSH_DIAGONAL == 79_550,
{
    let (a, hz) = (MOVE_ACCEL as u64, SIM_HZ as u64);
    assert(a == 27_000_000 && hz == 240);
    assert(2 * a + hz == 54_000_240 && 2 * hz == 480);
    assert(54_000_240int / 480 == 112_500);
    assert(2 * a * 707_107 + hz * 1_000_000 == 38_184_018_000_000);
    assert(2 * (hz * 1_000_000) == 480_000_000);
    assert(38_184_018_000_000int / 480_000_000 == 79_550);
}

/// The velocity a camera-frame push adds in one step.
pub fn push(dir_x: i32, dir_z: i32, heading: &Heading) -> (r: (i64, i64))
    requires
        heading.wf(),
        -1 <= dir_x <= 1,
        -1 <= dir_z <= 1,
    ensures
        (r.0 as int, r.1 as int) == push_of(dir_x as int, dir_z as int, *heading),
{
    proof {
        push_values();
    }
    let k: i64 = if dir_x != 0 && dir_z != 0 {
        PUSH_DIAGONAL
    } else {
        PUSH_STRAIGHT
    };
    assert(-k <= dir_x * k <= k) by (nonlinear_arith)
        requires
            -1 <= dir_x <= 1,
            k > 0,
    ;
    assert(-k <= dir_z * k <= k) by (nonlinear_arith)
        requires
            -1 <= dir_z <= 1,
            k > 0,
    ;
    proof {
        turned_is_small(*heading, dir_x * k, dir_z * k, k as int);
    }
    let t: (i128, i128) = heading.turn(dir_x as i64 * k, dir_z as i64 * k);
    (t.0 as i64, t.1 as i64)
}

/// Whether `r` is the least whole number whose square reaches `n`.
pub open spec fn is_root_up(n: int, r: int) -> bool {
    &&& 0 <= r
    &&& n <= r * r
    &&& r == 0 || (r - 1) * (r - 1) < n
}

/// The least whole number whose square reaches `n`.
pub open spec fn root_of(n: int) -> int {
    choose|r: int| is_root_up(n, r)
}

/// The length of a vector, rounded up.
pub open spec fn length_up(x: int, z: int) -> int {
    root_of(x * x + z * z)
}

/// The quotient without its fraction.
pub open spec fn div_trunc(n: int, d: int) -> int {
    if n >= 0 {
        n / d
    } else {
        -((-n) / d)
    }
}

/// A velocity held to a speed: left alone within it, else shortened to it.
pub open spec fn capped(x: int, z: int, max: int) -> (int, int) {
    if x * x + z * z <= max * max {
        (x, z)
    } else {
        (div_trunc(x * max, length_up(x, z)), div_trunc(z * max, length_up(x, z)))
    }
}

proof fn root_up_is_unique(n: int, a: int, b: int)
    requires
        is_root_up(n, a),
        is_root_up(n, b),
    ensures
        a == b,
{
    if a < b {
        assert(a * a <= (b - 1) * (b - 1)) by (nonlinear_arith)
            requires
                0 <= a <= b - 1,
        ;
    }
    if b < a {
        assert(b * b <= (a - 1) * (a - 1)) by (nonlinear_arith)
            requires
                0 <= b <= a - 1,
        ;
    }
}

proof fn square_bound(x: int, bound: int)
    requires
        -bound <= x <= bound,
    ensures
        0 <= x * x <= bound * bound,
{
    assert(0 <= x * x <= bound * bound) by (nonlinear_arith)
        requires
            -bound <= x <= bound,
    ;
}

/// The least whole number whose square reaches `n`.
fn root_up(n: u128) -> (r: u128)
    ensures
        is_root_up(n as int, r as int),
        r <= 0x1_0000_0000_0000_0000,
{
    if n == 0 {
        return 0;
    }
    let mut lo: u128 = 0;
    let mut hi: u128 = 0x1_0000_0000_0000_0000;
    while hi - lo > 1
        invariant
            0 <= lo < hi <= 0x1_0000_0000_0000_0000,
            lo * lo < n <= hi * hi,
        decreases hi - lo,
    {
        let mid: u128 = lo + (hi - lo) / 2;
        proof {
            square_bound(mid as int, 0xffff_ffff_ffff_ffff);
        }
        if mid * mid < n {
            lo = mid;
        } else {
            hi = mid;
        }
    }
    hi
}

fn trunc_div(n: i128, d: i128) -> (q: i128)
    requires
        0 < d,
        -0x4000_0000_0000_0000_0000_0000_0000_0000 <= n,
    ensures
        q == div_trunc(n as int, d as int),
{
    if n >= 0 {
        n / d
    } else {
        let m: i128 = -n;
        assert(0 <= m as int / d as int <= m) by (nonlinear_arith)
            requires
                0 <= m,
                0 < d,
        ;
        -(m / d)
    }
}

proof fn shortened(x: int, max: int, len: int)
    requires
        0 <= max,
        0 < len,
    ensures
        x * x <= len * len ==> -max <= div_trunc(x * max, len) <= max,
        div_trunc(x * max, len) * div_trunc(x * max, len) * (len * len) <= x * x * (max * max),
{
    let n = x * max;
    let a = if n >= 0 {
        n
    } else {
        -n
    };
    let q = a / len;
    let t = div_trunc(n, len);
    assert(0 <= q * len <= a && 0 <= q) by (nonlinear_arith)
        requires
            q == a / len,
            0 <= a,
            0 < len,
    ;
    assert(t * t == q * q) by (nonlinear_arith)
        requires
            t == q || t == -q,
    ;
    assert((q * len) * (q * len) <= a * a) by (nonlinear_arith)
        requires
            0 <= q * len <= a,
    ;
    assert((q * len) * (q * len) == q * q * (len * len)) by (nonlinear_arith);
    assert(a * a == x * x * (max * max)) by (nonlinear_arith)
        requires
            a == x * max || a == -(x * max),
    ;
    assert(t * t * (len * len) == q * q * (len * len)) by (nonlinear_arith)
        requires
            t * t == q * q,
    ;
    if x * x <= len * len {
        assert(x <= len && -x <= len) by (nonlinear_arith)
            requires
                x * x <= len * len,
                0 < len,
        ;
        assert(a <= max * len) by (nonlinear_arith)
            requires
                a == x * max || a == -(x * max),
                -len <= x <= len,
                0 <= max,
        ;
        assert(q <= max) by (nonlinear_arith)
            requires
                q * len <= a,
                a <= max * len,
                0 < len,
        ;
    }
}

/// Holds a velocity to a speed where the velocity may take more than 64 bits.
fn cap_wide(x: i128, z: i128, max: i64) -> (r: (i64, i64))
    requires
        0 <= max,
        x * x + z * z <= u128::MAX,
        -0x1_0000_0000_0000_0000 <= x <= 0x1_0000_0000_0000_0000,
        -0x1_0000_0000_0000_0000 <= z <= 0x1_0000_0000_0000_0000,
        -0x4000_0000_0000_0000_0000_0000_0000_0000 <= x * max
            <= 0x4000_0000_0000_0000_0000_0000_0000_0000,
        -0x4000_0000_0000_0000_0000_0000_0000_0000 <= z * max
            <= 0x4000_0000_0000_0000_0000_0000_0000_0000,
    ensures
        (r.0 as int, r.1 as int) == capped(x as int, z as int, max as int),
{
    let ux: u128 = if x < 0 {
        (-x) as u128
    } else {
        x as u128
    };
    let uz: u128 = if z < 0 {
        (-z) as u128
    } else {
        z as u128
    };
    let m: u128 = max as u128;
    proof {
        assert(ux * ux == x * x) by (nonlinear_arith)
            requires
                ux == x || ux == -x,
        ;
        assert(uz * uz == z * z) by (nonlinear_arith)
            requires
                uz == z || uz == -z,
        ;
        assert(0 <= x * x && 0 <= z * z) by (nonlinear_arith);
        square_bound(m as int, 0x7fff_ffff_ffff_ffff);
        assert(m * m == max * max) by (nonlinear_arith)
            requires
                m == max,
        ;
    }
    let square: u128 = ux * ux + uz * uz;
    if square <= m * m {
        proof {
            within_root(x as int, z as int, max as int);
        }
        return (x as i64, z as i64);
    }
    let len: i128 = root_up(square) as i128;
    proof {
        let n = x * x + z * z;
        root_up_is_unique(n, len as int, length_up(x as int, z as int));
        assert(len > 0) by {
            if len <= 0 {
                assert(len * len == 0) by (nonlinear_arith)
                    requires
                        len == 0,
                ;
            }
        }
        shortened(x as int, max as int, len as int);
        shortened(z as int, max as int, len as int);
    }
    let rx: i128 = trunc_div(x * max as i128, len);
    let rz: i128 = trunc_div(z * max as i128, len);
    (rx as i64, rz as i64)
}

proof fn within_root(x: int, z: int, max: int)
    requires
        0 <= max,
        x * x + z * z <= max * max,
    ensures
        -max <= x <= max,
        -max <= z <= max,
{
    assert(0 <= x * x && 0 <= z * z) by (nonlinear_arith);
    assert(-max <= x <= max) by (nonlinear_arith)
        requires
            0 <= max,
            x * x <= max * max,
    ;
    assert(-max <= z <= max) by (nonlinear_arith)
        requires
            0 <= max,
            z * z <= max * max,
    ;
}

proof fn reach(v: int, max: int, wide: int, top: int)
    requires
        -wide <= v <= wide,
        0 <= max <= top,
    ensures
        -(wide * top) <= v * max <= wide * top,
{
    assert(-(wide * top) <= v * max <= wide * top) by (nonlinear_arith)
        requires
            -wide <= v <= wide,
            0 <= max <= top,
    ;
}

/// Holds a velocity to a speed, keeping its direction.
pub fn cap_speed(x: i64, z: i64, max: i64) -> (r: (i64, i64))
    requires
        0 <= max,
    ensures
        (r.0 as int, r.1 as int) == capped(x as int, z as int, max as int),
{
    proof {
        square_bound(x as int, 0x8000_0000_0000_0000);
        square_bound(z as int, 0x8000_0000_0000_0000);
        reach(x as int, max as int, 0x8000_0000_0000_0000, 0x8000_0000_0000_0000);
        reach(z as int, max as int, 0x8000_0000_0000_0000, 0x8000_0000_0000_0000);
    }
    cap_wide(x as i128, z as i128, max)
}

/// The velocity a fling throws the ball at: turned into the world frame, then held to
/// [`FLING_MAX`].
pub open spec fn throw_of(vx: int, vz: int, heading: Heading) -> (int, int) {
    let t = heading.turned_round(vx, vz);
    capped(t.0, t.1, FLING_MAX as int)
}

/// The horizontal velocity a fling throws the ball at.
pub fn throw(vx: i64, vz: i64, heading: &Heading) -> (r: (i64, i64))
    requires
        heading.wf(),
    ensures
        (r.0 as int, r.1 as int) == throw_of(vx as int, vz as int, *heading),
{
    let t: (i128, i128) = heading.turn(vx, vz);
    proof {
        turned_square_fits(*heading, vx as int, vz as int);
        turned_is_small(*heading, vx as int, vz as int, 0x8000_0000_0000_0000);
        reach(t.0 as int, FLING_MAX as int, 0x1_0000_0000_0000_0000, 0x100_0000);
        reach(t.1 as int, FLING_MAX as int, 0x1_0000_0000_0000_0000, 0x100_0000);
    }
    cap_wide(t.0, t.1, FLING_MAX)
}

/// The horizontal velocity of a ball that keys push: held to [`MAX_SPEED`].
pub fn rolling_velocity(vx: i64, vz: i64) -> (r: (i64, i64))
    ensures
        (r.0 as int, r.1 as int) == capped(vx as int, vz as int, MAX_SPEED as int),
{
    cap_speed(vx, vz, MAX_SPEED)
}

impl StepActions {
    /// A key pushes the ball.
    pub open spec fn pushes(self) -> bool {
        self.dir_x != 0 || self.dir_z != 0
    }

    /// The velocity that the keys add before a step; none without a push.
    pub fn push(&self, heading: &Heading) -> (r: Option<(i64, i64)>)
        requires
            heading.wf(),
            -1 <= self.dir_x <= 1,
            -1 <= self.dir_z <= 1,
        ensures
            match r {
                Some(v) => self.pushes() && (v.0 as int, v.1 as int) == push_of(
                    self.dir_x as int,
                    self.dir_z as int,
                    *heading,
                ),
                None => !self.pushes(),
            },
    {
        if self.dir_x == 0 && self.dir_z == 0 {
            None
        } else {
            Some(push(self.dir_x, self.dir_z, heading))
        }
    }

    /// The horizontal velocity to set once the push has been added, where one is set.
    pub open spec fn rolled(self, vx: int, vz: int) -> Option<(int, int)> {
        if self.pushes() && vx * vx + vz * vz > MAX_SPEED * MAX_SPEED {
            Some(capped(vx, vz, MAX_SPEED as int))
        } else {
            None
        }
    }

    /// The horizontal velocity to set once the push has been added, given the one the ball then
    /// has: only a push that took it over [`MAX_SPEED`] sets one.
    pub fn roll(&self, vx: i64, vz: i64) -> (r: Option<(i64, i64)>)
        ensures
            match r {
                Some(v) => self.pushes() && vx * vx + vz * vz > MAX_SPEED * MAX_SPEED && (
                    v.0 as int,
                    v.1 as int,
                ) == capped(vx as int, vz as int, MAX_SPEED as int),
                None => !self.pushes() || vx * vx + vz * vz <= MAX_SPEED * MAX_SPEED,
            },
            match r {
                Some(v) => self.rolled(vx as int, vz as int) == Some((v.0 as int, v.1 as int)),
                None => self.rolled(vx as int, vz as int) is None,
            },
    {
        if self.dir_x == 0 && self.dir_z == 0 {
            return None;
        }
        let v: (i64, i64) = rolling_velocity(vx, vz);
        proof {
            caps_hold(vx as int, vz as int, MAX_SPEED as int);
        }
        if v.0 == vx && v.1 == vz {
            None
        } else {
            Some(v)
        }
    }

    /// The horizontal velocity that a fling sets, whatever the ball had; none without one.
    pub fn throw(&self, heading: &Heading) -> (r: Option<(i64, i64)>)
        requires
            heading.wf(),
        ensures
            match self.fling {
                Some(f) => r matches Some(v) && (v.0 as int, v.1 as int) == throw_of(
                    f.0 as int,
                    f.1 as int,
                    *heading,
                ),
                None => r is None,
            },
    {
        match self.fling {
            Some(f) => Some(throw(f.0, f.1, heading)),
            None => None,
        }
    }
}

/// Something for the engine to do with the player's ball before a step.
#[derive(Debug, Clone, Copy, PartialEq, Eq, Structural)]
pub enum Order {
    /// Add a horizontal velocity.
    Push { vx: i64, vz: i64 },
    /// Set the horizontal velocity to what [`StepActions::roll`] makes of it.
    Hold,
    /// Add an upward velocity.
    Jump { vy: i64 },
    /// Set the horizontal velocity.
    Throw { vx: i64, vz: i64 },
}

impl StepActions {
    /// What the engine is to do, in order: the push and the hold on its speed, the jump, the
    /// throw. So a throw stands whatever the keys do, and is held by its own limit alone.
    pub open spec fn in_order(self, heading: Heading) -> Seq<Order> {
        let push = push_of(self.dir_x as int, self.dir_z as int, heading);
        let pushed = if self.pushes() {
            seq![Order::Push { vx: push.0 as i64, vz: push.1 as i64 }, Order::Hold]
        } else {
            seq![]
        };
        let jumped = if self.jump {
            seq![Order::Jump { vy: JUMP_DV }]
        } else {
            seq![]
        };
        let thrown = match self.fling {
            Some(f) => {
                let v = throw_of(f.0 as int, f.1 as int, heading);
                seq![Order::Throw { vx: v.0 as i64, vz: v.1 as i64 }]
            },
            None => seq![],
        };
        pushed + jumped + thrown
    }

    /// What the engine is to do before a step, in order.
    pub fn orders(&self, heading: &Heading) -> (r: Vec<Order>)
        requires
            heading.wf(),
            -1 <= self.dir_x <= 1,
            -1 <= self.dir_z <= 1,
        ensures
            r@ == self.in_order(*heading),
    {
        let mut r: Vec<Order> = Vec::new();
        if let Some((vx, vz)) = self.push(heading) {
            r.push(Order::Push { vx, vz });
            r.push(Order::Hold);
        }
        if self.jump {
            r.push(Order::Jump { vy: JUMP_DV });
        }
        if let Some((vx, vz)) = self.throw(heading) {
            r.push(Order::Throw { vx, vz });
        }
        assert(r@ =~= self.in_order(*heading));
        r
    }
}

/// The velocity that one step's push along one axis adds at a given step rate.
pub open spec fn straight_at(hz: int) -> int {
    div_round(MOVE_ACCEL as int, hz)
}

/// The velocity that one step's push along both axes adds on each of them at a given step
/// rate.
pub open spec fn diagonal_at(hz: int) -> int {
    div_round(MOVE_ACCEL * ROOT_HALF, hz * 1_000_000)
}

/// A second of pushing adds [`MOVE_ACCEL`] at any step rate, to within half a millionth of a
/// metre per second and step. A diagonal push is as strong as a straight one: on each axis it
/// adds that much over the root of two, to the nearest millionth of the root.
pub proof fn pushes_are_equally_strong(hz: int)
    requires
        0 < hz,
    ensures
        PUSH_STRAIGHT == straight_at(SIM_HZ as int),
        PUSH_DIAGONAL == diagonal_at(SIM_HZ as int),
        -hz <= 2 * (straight_at(hz) * hz - MOVE_ACCEL) <= hz,
        -(hz * 1_000_000) <= 2 * (diagonal_at(hz) * (hz * 1_000_000) - MOVE_ACCEL * ROOT_HALF)
            <= hz * 1_000_000,
        (2 * ROOT_HALF - 1) * (2 * ROOT_HALF - 1) < 2_000_000_000_000 < (2 * ROOT_HALF + 1) * (2
            * ROOT_HALF + 1),
{
    crate::units::div_round_is_nearest(MOVE_ACCEL as int, hz);
    crate::units::div_round_is_nearest(MOVE_ACCEL * ROOT_HALF, hz * 1_000_000);
    assert((2 * 707_107int - 1) * (2 * 707_107int - 1) < 2_000_000_000_000 < (2 * 707_107int + 1)
        * (2 * 707_107int + 1)) by (nonlinear_arith);
    assert(ROOT_HALF == 707_107);
    assert(MOVE_ACCEL == 27_000_000 && SIM_HZ == 240);
    assert(27_000_000int * 707_107 == 19_091_889_000_000) by (nonlinear_arith);
    assert(MOVE_ACCEL * ROOT_HALF == 19_091_889_000_000);
    push_values();
    assert(54_000_240int / 480 == 112_500);
    assert((2 * 19_091_889_000_000int + 240_000_000) / 480_000_000 == 79_550);
    assert(straight_at(240) == 112_500);
    assert(diagonal_at(240) == 79_550);
}

/// With the camera at yaw zero the camera frame is the world frame.
pub proof fn yaw_zero_turns_nothing(x: int, z: int)
    ensures
        (Heading { sin: 0, cos: 1_000_000 }).turned_round(x, z) == (x, z),
{
    assert(x * 1_000_000 + z * 0 == 1_000_000 * x) by (nonlinear_arith);
    assert(z * 1_000_000 - x * 0 == 1_000_000 * z) by (nonlinear_arith);
    assert((2 * (1_000_000 * x) + 1_000_000) / 2_000_000 == x);
    assert((2 * (1_000_000 * z) + 1_000_000) / 2_000_000 == z);
}

/// Turning keeps a vector's length: its square grows by exactly that of the heading.
pub proof fn turning_keeps_the_length(h: Heading, x: int, z: int)
    ensures
        h.turned(x, z).0 * h.turned(x, z).0 + h.turned(x, z).1 * h.turned(x, z).1 == (x * x + z
            * z) * (h.sin * h.sin + h.cos * h.cos),
{
    let (s, c) = (h.sin as int, h.cos as int);
    let (xc, zs, zc, xs) = (x * c, z * s, z * c, x * s);
    assert((xc + zs) * (xc + zs) == xc * xc + 2 * (xc * zs) + zs * zs) by (nonlinear_arith);
    assert((zc - xs) * (zc - xs) == zc * zc - 2 * (zc * xs) + xs * xs) by (nonlinear_arith);
    assert(xc * zs == zc * xs) by (nonlinear_arith)
        requires
            xc == x * c,
            zs == z * s,
            zc == z * c,
            xs == x * s,
    ;
    assert(xc * xc == x * x * (c * c)) by (nonlinear_arith)
        requires
            xc == x * c,
    ;
    assert(zs * zs == z * z * (s * s)) by (nonlinear_arith)
        requires
            zs == z * s,
    ;
    assert(zc * zc == z * z * (c * c)) by (nonlinear_arith)
        requires
            zc == z * c,
    ;
    assert(xs * xs == x * x * (s * s)) by (nonlinear_arith)
        requires
            xs == x * s,
    ;
    let (x2, z2, s2, c2) = (x * x, z * z, s * s, c * c);
    assert((x2 + z2) * (s2 + c2) == x2 * s2 + x2 * c2 + z2 * s2 + z2 * c2) by (nonlinear_arith);
}

/// Pushing forward drives the ball straight away from the camera, at any yaw: the eye sits
/// towards (sin, cos), and the push is the opposite.
pub proof fn forward_is_away_from_the_camera(h: Heading)
    ensures
        h.turned(0, -1) == (-h.sin as int, -h.cos as int),
{
    let (s, c) = (h.sin as int, h.cos as int);
    assert(0 * c + (-1) * s == -s) by (nonlinear_arith);
    assert((-1) * c - 0 * s == -c) by (nonlinear_arith);
}

/// A capped velocity never exceeds the cap.
pub proof fn caps_hold(x: int, z: int, max: int)
    requires
        0 <= max,
    ensures
        capped(x, z, max).0 * capped(x, z, max).0 + capped(x, z, max).1 * capped(x, z, max).1
            <= max * max,
{
    let n = x * x + z * z;
    if n > max * max {
        root_up_exists(n);
        let len = length_up(x, z);
        assert(is_root_up(n, len));
        assert(0 <= max * max) by (nonlinear_arith);
        assert(len > 0) by {
            if len <= 0 {
                assert(len * len == 0) by (nonlinear_arith)
                    requires
                        len == 0,
                ;
            }
        }
        shortened(x, max, len);
        shortened(z, max, len);
        let (a, b) = capped(x, z, max);
        assert(a * a + b * b <= max * max) by (nonlinear_arith)
            requires
                a * a * (len * len) <= x * x * (max * max),
                b * b * (len * len) <= z * z * (max * max),
                x * x + z * z <= len * len,
                0 < len,
        {
            let (l, m) = (len * len, max * max);
            assert((a * a + b * b) * l == a * a * l + b * b * l);
            assert((x * x + z * z) * m == x * x * m + z * z * m);
            assert(m >= 0 && l > 0);
            assert((x * x + z * z) * m <= l * m);
            assert((a * a + b * b) * l <= m * l);
        }
    }
}

proof fn root_up_exists(n: int)
    requires
        0 <= n,
    ensures
        exists|r: int| is_root_up(n, r),
    decreases n,
{
    if n == 0 {
        assert(is_root_up(0, 0));
    } else {
        root_up_exists(n - 1);
        let r = root_of(n - 1);
        if n <= r * r {
            assert(is_root_up(n, r));
        } else {
            assert(n <= (r + 1) * (r + 1)) by (nonlinear_arith)
                requires
                    n - 1 <= r * r,
                    0 <= r,
            ;
            assert(r + 1 - 1 == r);
            assert(is_root_up(n, r + 1));
        }
    }
}

/// A velocity within the cap is left alone, so capping twice is capping once.
pub proof fn capping_twice_is_capping_once(x: int, z: int, max: int)
    requires
        0 <= max,
    ensures
        capped(capped(x, z, max).0, capped(x, z, max).1, max) == capped(x, z, max),
{
    caps_hold(x, z, max);
}

/// However hard it was flicked and however the camera stands, a throw never exceeds
/// [`FLING_MAX`].
pub proof fn throws_are_bounded(vx: int, vz: int, heading: Heading)
    ensures
        throw_of(vx, vz, heading).0 * throw_of(vx, vz, heading).0 + throw_of(vx, vz, heading).1
            * throw_of(vx, vz, heading).1 <= FLING_MAX * FLING_MAX,
{
    let t = heading.turned_round(vx, vz);
    caps_hold(t.0, t.1, FLING_MAX as int);
}

/// A turned vector is the sum of what it has to the right of the camera and towards it, each along
/// its own direction in the world, to the nearest unit: to the right is (cos, -sin), and towards
/// the camera is (sin, cos).
pub proof fn turning_follows_the_heading(h: Heading, x: int, z: int)
    ensures
        h.turned(1, 0) == (h.cos as int, -h.sin as int),
        h.turned(0, 1) == (h.sin as int, h.cos as int),
        -500_000 <= 1_000_000 * h.turned_round(x, z).0 - (x * h.cos + z * h.sin) <= 500_000,
        -500_000 <= 1_000_000 * h.turned_round(x, z).1 - (z * h.cos - x * h.sin) <= 500_000,
{
    millionth(x * h.cos + z * h.sin);
    millionth(z * h.cos - x * h.sin);
    let (s, c) = (h.sin as int, h.cos as int);
    assert(1 * c + 0 * s == c && 0 * c - 1 * s == -s) by (nonlinear_arith);
    assert(0 * c + 1 * s == s && 1 * c - 0 * s == c) by (nonlinear_arith);
}

/// A push goes the way of its keys: the camera's right for a push to the right, the camera's own
/// side for one towards it, and both for two keys, by 0.1125 metres per second along one axis and
/// 0.07955 along each of two. Without a key nothing is pushed.
pub proof fn a_push_goes_the_way_of_its_keys(dir_x: int, dir_z: int, h: Heading)
    requires
        -1 <= dir_x <= 1,
        -1 <= dir_z <= 1,
    ensures
        ({
            let p = push_of(dir_x, dir_z, h);
            let k: int = if dir_x == 0 || dir_z == 0 {
                112_500
            } else {
                79_550
            };
            &&& -500_000 <= 1_000_000 * p.0 - k * (dir_x * h.cos + dir_z * h.sin) <= 500_000
            &&& -500_000 <= 1_000_000 * p.1 - k * (dir_z * h.cos - dir_x * h.sin) <= 500_000
            &&& h.sin == 0 && h.cos == 1_000_000 ==> p == (k * dir_x, k * dir_z)
            &&& dir_x == 0 && dir_z == 0 ==> p == (0int, 0int)
        }),
{
    push_values();
    let k: int = if dir_x == 0 || dir_z == 0 {
        112_500
    } else {
        79_550
    };
    let (s, c) = (h.sin as int, h.cos as int);
    turning_follows_the_heading(h, dir_x * k, dir_z * k);
    assert((dir_x * k) * c + (dir_z * k) * s == k * (dir_x * c + dir_z * s)) by (nonlinear_arith);
    assert((dir_z * k) * c - (dir_x * k) * s == k * (dir_z * c - dir_x * s)) by (nonlinear_arith);
    assert(dir_x * k == k * dir_x && dir_z * k == k * dir_z) by (nonlinear_arith);
    if s == 0 && c == 1_000_000 {
        yaw_zero_turns_nothing(k * dir_x, k * dir_z);
        assert(h == (Heading { sin: 0, cos: 1_000_000 }));
    }
    if dir_x == 0 && dir_z == 0 {
        assert(0 * c + 0 * s == 0 && 0 * c - 0 * s == 0) by (nonlinear_arith);
        assert((2 * 0 + 1_000_000) / 2_000_000 == 0);
    }
}

/// Whether a component is what remains of another once a vector of that length is held to `max`:
/// of the same sign, and as much of it as `max` is of the length, without a fraction.
pub open spec fn shortened_to(part: int, whole: int, len: int, max: int) -> bool {
    &&& whole >= 0 ==> 0 <= part && part * len <= whole * max < (part + 1) * len
    &&& whole <= 0 ==> part <= 0 && (-part) * len <= (-whole) * max < (-part + 1) * len
}

proof fn truncating_shortens(whole: int, len: int, max: int)
    requires
        0 < len,
        0 <= max,
    ensures
        shortened_to(div_trunc(whole * max, len), whole, len, max),
{
    let n = whole * max;
    assert(whole >= 0 ==> n >= 0) by (nonlinear_arith)
        requires
            n == whole * max,
            0 <= max,
    ;
    assert(whole <= 0 ==> n <= 0) by (nonlinear_arith)
        requires
            n == whole * max,
            0 <= max,
    ;
    let a = if n >= 0 {
        n
    } else {
        -n
    };
    let q = a / len;
    assert(0 <= q && q * len <= a < (q + 1) * len) by (nonlinear_arith)
        requires
            q == a / len,
            0 <= a,
            0 < len,
    ;
    assert((-whole) * max == -n) by (nonlinear_arith)
        requires
            n == whole * max,
    ;
    if n == 0 {
        assert(q == 0) by (nonlinear_arith)
            requires
                0 <= q,
                q * len <= 0,
                0 < len,
        ;
        assert(0 * len == 0 && (0 + 1) * len == len) by (nonlinear_arith);
    }
}

/// Holding a velocity to a speed keeps its direction: within the speed it stays as it is, and over
/// it each component is shortened by the same share, which brings its length to that speed.
pub proof fn holding_a_velocity_keeps_its_direction(x: int, z: int, max: int) -> (len: int)
    requires
        0 <= max,
    ensures
        x * x + z * z <= max * max ==> capped(x, z, max) == (x, z),
        x * x + z * z > max * max ==> {
            &&& len > 0
            &&& (len - 1) * (len - 1) < x * x + z * z <= len * len
            &&& shortened_to(capped(x, z, max).0, x, len, max)
            &&& shortened_to(capped(x, z, max).1, z, len, max)
        },
{
    let n = x * x + z * z;
    if n > max * max {
        assert(0 <= max * max) by (nonlinear_arith);
        root_up_exists(n);
        let len = length_up(x, z);
        assert(is_root_up(n, len));
        if len <= 0 {
            assert(len * len == 0) by (nonlinear_arith)
                requires
                    len == 0,
            ;
        }
        truncating_shortens(x, len, max);
        truncating_shortens(z, len, max);
        len
    } else {
        0
    }
}

/// A throw goes the way of its swipe: the swipe's velocity turned into the world, to the nearest
/// unit, where that is no more than nine metres per second, and else held to that in its own
/// direction. A ball is held to six metres per second while it is pushed, in its own direction too.
pub proof fn a_throw_goes_the_way_of_its_swipe(vx: int, vz: int, h: Heading) -> (len: int)
    ensures
        ({
            let (x, z) = h.turned_round(vx, vz);
            let thrown = throw_of(vx, vz, h);
            &&& -500_000 <= 1_000_000 * x - (vx * h.cos + vz * h.sin) <= 500_000
            &&& -500_000 <= 1_000_000 * z - (vz * h.cos - vx * h.sin) <= 500_000
            &&& x * x + z * z <= 9_000_000 * 9_000_000 ==> thrown == (x, z)
            &&& x * x + z * z > 9_000_000 * 9_000_000 ==> len > 0 && (len - 1) * (len - 1) < x * x
                + z * z <= len * len && shortened_to(thrown.0, x, len, 9_000_000) && shortened_to(
                thrown.1,
                z,
                len,
                9_000_000,
            )
        }),
        MAX_SPEED == 6_000_000,
        FLING_MAX == 9_000_000,
{
    let (x, z) = h.turned_round(vx, vz);
    turning_follows_the_heading(h, vx, vz);
    holding_a_velocity_keeps_its_direction(x, z, 9_000_000)
}

/// The engine is told what the input calls for, and in turn: a push comes first and its hold right
/// after it, then the jump, upwards at 3.2 metres per second, and a throw comes last. What the
/// input does not call for is not among them.
pub proof fn orders_come_in_turn(a: StepActions, h: Heading)
    requires
        h.wf(),
        -1 <= a.dir_x <= 1,
        -1 <= a.dir_z <= 1,
    ensures
        ({
            let o = a.in_order(h);
            let pushed: int = if a.dir_x == 0 && a.dir_z == 0 {
                0
            } else {
                2
            };
            let jumped: int = if a.jump {
                1
            } else {
                0
            };
            let thrown: int = if a.fling is Some {
                1
            } else {
                0
            };
            &&& o.len() == pushed + jumped + thrown
            &&& pushed == 2 ==> (o[0] matches Order::Push { vx, vz } && (vx as int, vz as int)
                == push_of(a.dir_x as int, a.dir_z as int, h)) && o[1] is Hold
            &&& a.jump ==> o[pushed] == (Order::Jump { vy: 3_200_000 })
            &&& a.fling matches Some(f) ==> (o.last() matches Order::Throw { vx, vz } && (
            vx as int,
            vz as int,
            ) == throw_of(f.0 as int, f.1 as int, h))
        }),
{
    push_values();
    let k = if a.dir_x != 0 && a.dir_z != 0 {
        PUSH_DIAGONAL
    } else {
        PUSH_STRAIGHT
    };
    let (px, pz) = (a.dir_x * k, a.dir_z * k);
    assert(-112_500 <= px <= 112_500) by (nonlinear_arith)
        requires
            px == a.dir_x * k,
            -1 <= a.dir_x <= 1,
            0 <= k <= 112_500,
    ;
    assert(-112_500 <= pz <= 112_500) by (nonlinear_arith)
        requires
            pz == a.dir_z * k,
            -1 <= a.dir_z <= 1,
            0 <= k <= 112_500,
    ;
    turned_is_small(h, px, pz, 112_500);
    if let Some(f) = a.fling {
        let t = throw_of(f.0 as int, f.1 as int, h);
        throws_are_bounded(f.0 as int, f.1 as int, h);
        within_root(t.0, t.1, FLING_MAX as int);
    }
}

/// Keys speed a ball up to six metres per second and no further: where a push takes it over that,
/// its velocity is set to that speed in its own direction, and else it is left as it is.
pub proof fn keys_speed_up_to_a_limit(a: StepActions, vx: int, vz: int) -> (len: int)
    ensures
        ({
            let pushed = a.dir_x != 0 || a.dir_z != 0;
            let over = vx * vx + vz * vz > 6_000_000 * 6_000_000;
            &&& a.rolled(vx, vz) is Some <==> pushed && over
            &&& a.rolled(vx, vz) matches Some(v) ==> {
                &&& v.0 * v.0 + v.1 * v.1 <= 6_000_000 * 6_000_000
                &&& len > 0 && (len - 1) * (len - 1) < vx * vx + vz * vz <= len * len
                &&& shortened_to(v.0, vx, len, 6_000_000)
                &&& shortened_to(v.1, vz, len, 6_000_000)
            }
        }),
{
    assert(MAX_SPEED == 6_000_000);
    assert(MAX_SPEED * MAX_SPEED == 6_000_000 * 6_000_000) by {
        let m = MAX_SPEED;
        assert(m * m == 6_000_000 * 6_000_000) by (nonlinear_arith)
            requires
                m == 6_000_000,
        ;
    }
    caps_hold(vx, vz, 6_000_000);
    holding_a_velocity_keeps_its_direction(vx, vz, 6_000_000)
}

} // verus!
