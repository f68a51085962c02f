//! What the engine is told to build: the shapes of colliders, and how each kind of body moves,
//! bounces and reports.

use vstd::prelude::*;

use crate::protocol::{ColliderShapeMsg, ROLE_BALL};
use crate::units::{div_round, held, hold};

verus! {

/// Gravity along y (micrometres per second squared).
pub const GRAVITY: i64 = -9_810_000;

/// The engine's own iterations per step.
pub const SUB_STEPS: i32 = 1;

/// How many threads the engine steps on: one takes its serial path.
pub const WORKER_COUNT: u32 = 1;

/// The density of every ball (millionths of the engine's unit).
pub const BALL_DENSITY: i64 = 1_000_000;

/// How many sides the engine gives to what is round in one direction.
pub const HULL_SIDES: i32 = 16;

/// A shape as the engine builds it, upright in its body's frame (micrometres).
#[derive(Debug, Clone, Copy, PartialEq, Eq)]
pub enum EngineShape {
    BoxHull { half_extents: [i64; 3] },
    /// Around the body's origin.
    Sphere { radius: i64 },
    /// Between two points on the y axis.
    Capsule { low: i64, high: i64, radius: i64 },
    /// From `offset` upwards.
    Cylinder { height: i64, radius: i64, offset: i64, sides: i32 },
    /// From the body's origin upwards.
    Cone { height: i64, base: i64, apex: i64, sides: i32 },
}

/// The engine's shape for a collider: capsules and cylinders stand centred, and a cone, which
/// the engine does not bring to a point, ends at a twentieth of its base.
pub open spec fn built_from(shape: ColliderShapeMsg) -> EngineShape {
    match shape {
        ColliderShapeMsg::Cuboid { half_extents } => EngineShape::BoxHull { half_extents },
        ColliderShapeMsg::Ball { radius } => EngineShape::Sphere { radius },
        ColliderShapeMsg::Capsule { half_height, radius } => EngineShape::Capsule {
            low: held(-half_height),
            high: half_height,
            radius,
        },
        ColliderShapeMsg::Cylinder { half_height, radius } => EngineShape::Cylinder {
            height: held(2 * half_height),
            radius,
            offset: held(-half_height),
            sides: HULL_SIDES,
        },
        ColliderShapeMsg::Cone { half_height, radius } => EngineShape::Cone {
            height: held(2 * half_height),
            base: radius,
            apex: div_round(radius as int, 20) as i64,
            sides: HULL_SIDES,
        },
    }
}

/// The engine's shape for a collider.
pub fn engine_shape(shape: &ColliderShapeMsg) -> (r: EngineShape)
    ensures
        r == built_from(*shape),
{
    match *shape {
        ColliderShapeMsg::Cuboid { half_extents } => EngineShape::BoxHull { half_extents },
        ColliderShapeMsg::Ball { radius } => EngineShape::Sphere { radius },
        ColliderShapeMsg::Capsule { half_height, radius } => EngineShape::Capsule {
            low: hold(-(half_height as i128)),
            high: half_height,
            radius,
        },
        ColliderShapeMsg::Cylinder { half_height, radius } => EngineShape::Cylinder {
            height: hold(2 * half_height as i128),
            radius,
            offset: hold(-(half_height as i128)),
            sides: HULL_SIDES,
        },
        ColliderShapeMsg::Cone { half_height, radius } => EngineShape::Cone {
            height: hold(2 * half_height as i128),
            base: radius,
            apex: crate::units::round_div(radius as i128, 20) as i64,
            sides: HULL_SIDES,
        },
    }
}

/// How a body moves, bounces and reports (friction, restitution and damping in millionths).
/// What is none is left as the engine has it.
#[derive(Debug, Clone, Copy, PartialEq, Eq)]
pub struct BodyPlan {
    pub dynamic: bool,
    /// It never passes through thin things, however fast.
    pub bullet: bool,
    /// Whether it may be left alone once it rests.
    pub sleeps: Option<bool>,
    /// By which the engine finds its mass.
    pub density: Option<i64>,
    /// Linear and angular damping.
    pub damping: Option<(i64, i64)>,
    pub friction: i64,
    pub restitution: i64,
    /// One of the `ROLE_*` values; hits are told apart by it.
    pub role: u8,
    /// Whether its touches are reported.
    pub touch_events: Option<bool>,
    /// Whether its hits are reported.
    pub hit_events: Option<bool>,
}

/// The table and the walls: fixed, and no reporters of touches.
pub open spec fn fixed_plan(role: u8) -> BodyPlan {
    BodyPlan {
        dynamic: false,
        bullet: false,
        sleeps: None,
        density: None,
        damping: None,
        friction: 900_000,
        restitution: 500_000,
        role,
        touch_events: Some(false),
        hit_events: None,
    }
}

/// The player's ball: it never sleeps or tunnels, and its touches and hits are followed.
pub open spec fn player_plan(role: u8) -> BodyPlan {
    BodyPlan {
        dynamic: true,
        bullet: true,
        sleeps: Some(false),
        density: Some(BALL_DENSITY),
        damping: Some((100_000, 400_000)),
        friction: 900_000,
        restitution: 600_000,
        role,
        touch_events: Some(true),
        hit_events: Some(true),
    }
}

/// A dropped ball: as bouncy as the player's, cheaper to run, and its hits are followed.
pub open spec fn dropped_plan() -> BodyPlan {
    BodyPlan {
        bullet: false,
        sleeps: None,
        touch_events: None,
        ..player_plan(ROLE_BALL)
    }
}

/// The plan of the table or a wall.
pub fn fixed_body(role: u8) -> (r: BodyPlan)
    ensures
        r == fixed_plan(role),
{
    BodyPlan {
        dynamic: false,
        bullet: false,
        sleeps: None,
        density: None,
        damping: None,
        friction: 900_000,
        restitution: 500_000,
        role,
        touch_events: Some(false),
        hit_events: None,
    }
}

/// The plan of the player's ball.
pub fn player_body(role: u8) -> (r: BodyPlan)
    ensures
        r == player_plan(role),
{
    BodyPlan {
        dynamic: true,
        bullet: true,
        sleeps: Some(false),
        density: Some(BALL_DENSITY),
        damping: Some((100_000, 400_000)),
        friction: 900_000,
        restitution: 600_000,
        role,
        touch_events: Some(true),
        hit_events: Some(true),
    }
}

/// The plan of a dropped ball.
pub fn dropped_body() -> (r: BodyPlan)
    ensures
        r == dropped_plan(),
{
    BodyPlan {
        dynamic: true,
        bullet: false,
        sleeps: None,
        density: Some(BALL_DENSITY),
        damping: Some((100_000, 400_000)),
        friction: 900_000,
        restitution: 600_000,
        role: ROLE_BALL,
        touch_events: None,
        hit_events: Some(true),
    }
}

/// Capsules and cylinders stand centred on their node: as far below it as above.
pub proof fn uprights_are_centred(half_height: i64, radius: i64)
    requires
        -0x4000_0000_0000_0000 <= half_height < 0x4000_0000_0000_0000,
    ensures
        built_from(ColliderShapeMsg::Capsule { half_height, radius }) matches EngineShape::Capsule {
            low,
            high,
            radius: _,
        } && low + high == 0 && high - low == 2 * half_height,
        built_from(
            ColliderShapeMsg::Cylinder { half_height, radius },
        ) matches EngineShape::Cylinder { height, radius: _, offset, sides: _ } && offset + (
        offset + height) == 0 && height == 2 * half_height,
{
}

/// A collider is built in its own measures: a box by its half extents, a ball by its radius, and a
/// capsule, a cylinder and a cone by their radius and twice their half height. A cone ends at a
/// twentieth of its base, to the nearest micrometre.
pub proof fn colliders_are_built_in_their_measures(shape: ColliderShapeMsg)
    ensures
        match shape {
            ColliderShapeMsg::Cuboid { half_extents: h } => built_from(
                shape,
            ) matches EngineShape::BoxHull { half_extents } && half_extents@[0] == h@[0]
                && half_extents@[1] == h@[1] && half_extents@[2] == h@[2],
            ColliderShapeMsg::Ball { radius: r } => built_from(
                shape,
            ) matches EngineShape::Sphere { radius } && radius == r,
            ColliderShapeMsg::Capsule { half_height, radius: r } => built_from(
                shape,
            ) matches EngineShape::Capsule { low, high, radius } && radius == r && high
                == half_height && (half_height > i64::MIN ==> low == -half_height),
            ColliderShapeMsg::Cylinder { half_height, radius: r } => built_from(
                shape,
            ) matches EngineShape::Cylinder { height, radius, offset, sides } && radius == r && (
            i64::MIN <= 2 * half_height <= i64::MAX ==> height == 2 * half_height) && (half_height
                > i64::MIN ==> offset == -half_height) && sides == 16,
            ColliderShapeMsg::Cone { half_height, radius } => built_from(
                shape,
            ) matches EngineShape::Cone { height, base, apex, sides } && base == radius && (
            i64::MIN <= 2 * half_height <= i64::MAX ==> height == 2 * half_height) && -20 <= 2 * (20
                * apex - radius) <= 20 && sides == 16,
        },
{
    if let ColliderShapeMsg::Cone { half_height, radius } = shape {
        crate::units::div_round_is_nearest(radius as int, 20);
    }
}

/// Balls move and what they roll on does not. The player's ball never tunnels and never sleeps, and
/// tells of its touches and its hits; a dropped one tells of its hits, and is as heavy, as rough
/// and as bouncy. Every body has the role it was given, and a dropped ball that of a ball.
pub proof fn balls_move_and_the_table_does_not(role: u8)
    ensures
        ({
            let (fixed, player, dropped) = (fixed_plan(role), player_plan(role), dropped_plan());
            &&& !fixed.dynamic && player.dynamic && dropped.dynamic
            &&& player.bullet && player.sleeps == Some(false)
            &&& player.touch_events == Some(true) && player.hit_events == Some(true)
            &&& dropped.hit_events == Some(true) && !dropped.bullet && dropped.sleeps is None
            &&& fixed.touch_events == Some(false) && fixed.density is None
            &&& player.role == role && fixed.role == role && dropped.role == ROLE_BALL
            &&& player.friction == 900_000 && dropped.friction == 900_000 && fixed.friction
                == 900_000
            &&& player.restitution == 600_000 && dropped.restitution == 600_000 && fixed.restitution
                == 500_000
            &&& player.density == Some(1_000_000i64) && dropped.density == player.density
            &&& player.damping == Some((100_000i64, 400_000i64)) && dropped.damping == player.damping
            &&& GRAVITY == -9_810_000
        }),
{
}

} // verus!
