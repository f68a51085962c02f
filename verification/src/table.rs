//! Where on the table a click drops a ball.

use vstd::prelude::*;

use crate::units::{clamp_int, div_round, held, hold, round_div};

verus! {

/// How far from the rails a dropped ball keeps, beyond its radius (micrometres).
pub const DROP_MARGIN: i64 = 250_000;

/// The tabletop's box collider (micrometres).
#[derive(Debug, Clone, Copy, PartialEq, Eq)]
pub struct Table {
    pub half_extents: [i64; 3],
    pub translation: [i64; 3],
}

/// Whether 64 bits hold a number.
pub open spec fn representable(x: int) -> bool {
    i64::MIN <= x <= i64::MAX
}

/// Whether 64 bits hold a number.
fn is_representable(x: i128) -> (r: bool)
    ensures
        r == representable(x as int),
{
    i64::MIN as i128 <= x && x <= i64::MAX as i128
}

/// The way from zero.
pub open spec fn distance(x: int) -> int {
    if x < 0 {
        -x
    } else {
        x
    }
}

impl Table {
    /// The height of the felt.
    pub open spec fn top(self) -> int {
        self.translation@[1] + self.half_extents@[1]
    }

    /// The least coordinate along `axis` at which a ball may land.
    pub open spec fn least(self, axis: int, ball_radius: i64) -> int {
        self.translation@[axis] - self.half_extents@[axis] + (ball_radius + DROP_MARGIN)
    }

    /// The greatest coordinate along `axis` at which a ball may land.
    pub open spec fn greatest(self, axis: int, ball_radius: i64) -> int {
        self.translation@[axis] + self.half_extents@[axis] - (ball_radius + DROP_MARGIN)
    }

    /// A ball of this radius fits on the table.
    pub open spec fn fits(self, ball_radius: i64) -> bool {
        &&& self.least(0, ball_radius) <= self.greatest(0, ball_radius)
        &&& self.least(2, ball_radius) <= self.greatest(2, ball_radius)
    }

    /// The ray's ends and the felt are so near each other that 64 bits hold the ways between
    /// them.
    pub open spec fn reached_by(self, near: [i64; 3], far: [i64; 3]) -> bool {
        &&& representable(self.top() - near@[1])
        &&& representable(far@[0] - near@[0])
        &&& representable(far@[1] - near@[1])
        &&& representable(far@[2] - near@[2])
    }

    /// Whether the ray from `near` through `far` meets the plane of the felt in front of
    /// `near`.
    pub open spec fn met_by(self, near: [i64; 3], far: [i64; 3]) -> bool {
        let climb = far@[1] - near@[1];
        let rise = self.top() - near@[1];
        (climb > 0 && rise > 0) || (climb < 0 && rise < 0)
    }

    /// The ray's coordinate along `axis` at the height of the felt.
    pub open spec fn meeting(self, near: [i64; 3], far: [i64; 3], axis: int) -> int {
        near@[axis] + div_round(
            distance(self.top() - near@[1]) * (far@[axis] - near@[axis]),
            distance(far@[1] - near@[1]),
        )
    }

    /// Where a ball lands that is dropped along the ray: on the felt and inside the rails.
    pub open spec fn spot(self, near: [i64; 3], far: [i64; 3], ball_radius: i64) -> Option<
        (int, int),
    > {
        if self.met_by(near, far) {
            Some(
                (
                    clamp_int(
                        self.meeting(near, far, 0),
                        self.least(0, ball_radius),
                        self.greatest(0, ball_radius),
                    ),
                    clamp_int(
                        self.meeting(near, far, 2),
                        self.least(2, ball_radius),
                        self.greatest(2, ball_radius),
                    ),
                ),
            )
        } else {
            None
        }
    }

    fn low(&self, axis: usize, ball_radius: i64) -> (r: i128)
        requires
            axis < 3,
        ensures
            r == self.least(axis as int, ball_radius),
    {
        self.translation[axis] as i128 - self.half_extents[axis] as i128 + (ball_radius as i128
            + DROP_MARGIN as i128)
    }

    fn high(&self, axis: usize, ball_radius: i64) -> (r: i128)
        requires
            axis < 3,
        ensures
            r == self.greatest(axis as int, ball_radius),
    {
        self.translation[axis] as i128 + self.half_extents[axis] as i128 - (ball_radius as i128
            + DROP_MARGIN as i128)
    }

    fn rise(&self, near: &[i64; 3]) -> (r: i128)
        ensures
            r == self.top() - near@[1],
    {
        self.translation[1] as i128 + self.half_extents[1] as i128 - near[1] as i128
    }

    /// Whether a ball of this radius fits on the table.
    pub fn ball_fits(&self, ball_radius: i64) -> (r: bool)
        ensures
            r == self.fits(ball_radius),
    {
        self.low(0, ball_radius) <= self.high(0, ball_radius) && self.low(2, ball_radius)
            <= self.high(2, ball_radius)
    }

    /// Whether 64 bits hold the ways between the ray's ends and the felt.
    pub fn in_reach(&self, near: &[i64; 3], far: &[i64; 3]) -> (r: bool)
        ensures
            r == self.reached_by(*near, *far),
    {
        is_representable(self.rise(near)) && is_representable(far[0] as i128 - near[0] as i128)
            && is_representable(far[1] as i128 - near[1] as i128) && is_representable(
            far[2] as i128 - near[2] as i128,
        )
    }

    fn meet(&self, near: &[i64; 3], far: &[i64; 3], axis: usize, ball_radius: i64) -> (r: i64)
        requires
            axis == 0 || axis == 2,
            self.fits(ball_radius),
            self.reached_by(*near, *far),
            self.met_by(*near, *far),
        ensures
            r == held(
                clamp_int(
                    self.meeting(*near, *far, axis as int),
                    self.least(axis as int, ball_radius),
                    self.greatest(axis as int, ball_radius),
                ),
            ),
    {
        let rise: i128 = self.rise(near);
        let climb: i128 = far[1] as i128 - near[1] as i128;
        let across: i128 = far[axis] as i128 - near[axis] as i128;
        let up: i128 = if rise < 0 {
            -rise
        } else {
            rise
        };
        let per: i128 = if climb < 0 {
            -climb
        } else {
            climb
        };
        proof {
            assert(-0x4000_0000_0000_0000_0000_0000_0000_0000 <= up * across
                <= 0x4000_0000_0000_0000_0000_0000_0000_0000) by (nonlinear_arith)
                requires
                    0 <= up <= 0x8000_0000_0000_0000,
                    -0x8000_0000_0000_0000 <= across <= 0x8000_0000_0000_0000,
            ;
            quotient_is_small(up * across, per as int);
        }
        let at: i128 = near[axis] as i128 + round_div(up * across, per);
        let (lo, hi): (i128, i128) = (self.low(axis, ball_radius), self.high(axis, ball_radius));
        let kept: i128 = if at < lo {
            lo
        } else if at > hi {
            hi
        } else {
            at
        };
        hold(kept)
    }

    /// Where a ball lands that is dropped along the ray from `near` through `far`, as far as 64
    /// bits reach. None where the ray runs level or away from the table.
    pub fn unproject_to_table(&self, near: &[i64; 3], far: &[i64; 3], ball_radius: i64) -> (r:
        Option<(i64, i64)>)
        requires
            self.fits(ball_radius),
            self.reached_by(*near, *far),
        ensures
            match self.spot(*near, *far, ball_radius) {
                Some(s) => r matches Some(at) && at.0 == held(s.0) && at.1 == held(s.1),
                None => r is None,
            },
    {
        let climb: i128 = far[1] as i128 - near[1] as i128;
        let rise: i128 = self.rise(near);
        if !((climb > 0 && rise > 0) || (climb < 0 && rise < 0)) {
            return None;
        }
        Some((self.meet(near, far, 0, ball_radius), self.meet(near, far, 2, ball_radius)))
    }
}

proof fn quotient_is_small(n: int, d: int)
    requires
        0 < d,
        -0x4000_0000_0000_0000_0000_0000_0000_0000 <= n
            <= 0x4000_0000_0000_0000_0000_0000_0000_0000,
    ensures
        -0x4000_0000_0000_0000_0000_0000_0000_0001 <= div_round(n, d)
            <= 0x4000_0000_0000_0000_0000_0000_0000_0001,
{
    let q = div_round(n, d);
    crate::units::div_round_is_nearest(n, d);
    assert(-0x4000_0000_0000_0000_0000_0000_0000_0001 <= q
        <= 0x4000_0000_0000_0000_0000_0000_0000_0001) by (nonlinear_arith)
        requires
            0 < d,
            -0x4000_0000_0000_0000_0000_0000_0000_0000 <= n
                <= 0x4000_0000_0000_0000_0000_0000_0000_0000,
            -d <= 2 * (q * d - n) <= d,
    ;
}

/// A dropped ball always lands on the felt, clear of the rails by its radius and the margin.
pub proof fn drops_land_inside_the_rails(
    table: Table,
    near: [i64; 3],
    far: [i64; 3],
    ball_radius: i64,
)
    requires
        table.fits(ball_radius),
    ensures
        table.spot(near, far, ball_radius) matches Some(s) ==> {
            &&& table.least(0, ball_radius) <= s.0 <= table.greatest(0, ball_radius)
            &&& table.least(2, ball_radius) <= s.1 <= table.greatest(2, ball_radius)
        },
{
}

/// A click on the sky drops nothing: from above the felt, a ray that does not descend never
/// meets it.
pub proof fn the_sky_drops_nothing(
    table: Table,
    near: [i64; 3],
    far: [i64; 3],
    ball_radius: i64,
)
    requires
        near@[1] >= table.top(),
        far@[1] >= near@[1],
    ensures
        table.spot(near, far, ball_radius) is None,
{
}

/// A click on the felt drops the ball there: where the ray's far end lies on the felt inside
/// the rails, that is the spot.
pub proof fn a_point_on_the_felt_is_its_own_spot(
    table: Table,
    near: [i64; 3],
    far: [i64; 3],
    ball_radius: i64,
)
    requires
        far@[1] == table.top(),
        near@[1] != far@[1],
        table.least(0, ball_radius) <= far@[0] <= table.greatest(0, ball_radius),
        table.least(2, ball_radius) <= far@[2] <= table.greatest(2, ball_radius),
    ensures
        table.spot(near, far, ball_radius) == Some((far@[0] as int, far@[2] as int)),
{
    let d = distance(far@[1] - near@[1]);
    assert(d > 0);
    whole_quotient(d, far@[0] - near@[0]);
    whole_quotient(d, far@[2] - near@[2]);
}

proof fn whole_quotient(d: int, a: int)
    requires
        0 < d,
    ensures
        div_round(d * a, d) == a,
{
    let q = div_round(d * a, d);
    crate::units::div_round_is_nearest(d * a, d);
    assert(2 * (q * d - d * a) == 2 * d * (q - a)) by (nonlinear_arith);
    assert(q == a || q == a + 1 || q == a - 1 || 2 * d * (q - a) > d || 2 * d * (q - a) < -d)
        by (nonlinear_arith)
        requires
            0 < d,
    ;
    assert(2 * d * 1 == 2 * d && 2 * d * (-1) == -2 * d);
}

/// Whether a coordinate is where a ray is at the height of the felt, to the nearest micrometre, or
/// as near to it as the rails allow. The ray starts at `near` and goes `across` while it goes
/// `climb` up, and the felt is `rise` above its start.
pub open spec fn on_the_ray(
    at: int,
    near: int,
    across: int,
    rise: int,
    climb: int,
    lo: int,
    hi: int,
) -> bool {
    let (up, per) = if climb < 0 {
        (-rise, -climb)
    } else {
        (rise, climb)
    };
    &&& lo <= at <= hi
    &&& at > lo ==> 2 * ((at - near) * per - up * across) <= per
    &&& at < hi ==> -per <= 2 * ((at - near) * per - up * across)
}

/// A ball drops where the ray of the click meets the felt, in x and in z, and otherwise as near to
/// that as its radius and a quarter of a metre keep it off the rails. Only a ray that goes on to
/// the felt's height from where it starts meets it.
pub proof fn drops_land_where_the_ray_meets_the_felt(
    table: Table,
    near: [i64; 3],
    far: [i64; 3],
    ball_radius: i64,
)
    requires
        table.fits(ball_radius),
    ensures
        ({
            let (half, middle) = (table.half_extents@, table.translation@);
            let rise = middle[1] + half[1] - near@[1];
            let climb = far@[1] - near@[1];
            let off = ball_radius + 250_000;
            &&& table.spot(near, far, ball_radius) is Some <==> (rise > 0 && climb > 0) || (rise < 0
                && climb < 0)
            &&& table.spot(near, far, ball_radius) matches Some(s) ==> on_the_ray(
                s.0,
                near@[0] as int,
                far@[0] - near@[0],
                rise,
                climb,
                middle[0] - half[0] + off,
                middle[0] + half[0] - off,
            ) && on_the_ray(
                s.1,
                near@[2] as int,
                far@[2] - near@[2],
                rise,
                climb,
                middle[2] - half[2] + off,
                middle[2] + half[2] - off,
            )
        }),
{
    if table.met_by(near, far) {
        meetings_are_on_the_ray(table, near, far, 0);
        meetings_are_on_the_ray(table, near, far, 2);
        let per = distance(far@[1] - near@[1]);
        let up = distance(table.top() - near@[1]);
        let s = table.spot(near, far, ball_radius)->0;
        nearer_is_no_farther(
            s.0 - near@[0],
            table.meeting(near, far, 0) - near@[0],
            per,
            up * (far@[0] - near@[0]),
        );
        nearer_is_no_farther(
            s.1 - near@[2],
            table.meeting(near, far, 2) - near@[2],
            per,
            up * (far@[2] - near@[2]),
        );
    }
}

proof fn meetings_are_on_the_ray(table: Table, near: [i64; 3], far: [i64; 3], axis: int)
    requires
        table.met_by(near, far),
    ensures
        ({
            let per = distance(far@[1] - near@[1]);
            let n = distance(table.top() - near@[1]) * (far@[axis] - near@[axis]);
            -per <= 2 * ((table.meeting(near, far, axis) - near@[axis]) * per - n) <= per
        }),
{
    let per = distance(far@[1] - near@[1]);
    let n = distance(table.top() - near@[1]) * (far@[axis] - near@[axis]);
    crate::units::div_round_is_nearest(n, per);
}

proof fn nearer_is_no_farther(at: int, met: int, per: int, n: int)
    requires
        0 < per,
        -per <= 2 * (met * per - n) <= per,
    ensures
        at <= met ==> 2 * (at * per - n) <= per,
        at >= met ==> -per <= 2 * (at * per - n),
{
    assert(at <= met ==> at * per <= met * per) by (nonlinear_arith)
        requires
            0 < per,
    ;
    assert(at >= met ==> at * per >= met * per) by (nonlinear_arith)
        requires
            0 < per,
    ;
}

} // verus!
