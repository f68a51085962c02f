//! The physics world's own bookkeeping: what the engine is told before each fixed step, and
//! what becomes of its report afterwards.
//!
//! The engine itself is outside. Around each step the caller asks [`World::step_actions`]
//! what the input calls for, lets the engine advance, reads every body's pose, puts the fallen
//! bodies back as [`World::player_respawn`] and [`World::ball_respawn`] say, and hands what it
//! has read to [`World::step`].

pub mod bodies;
pub mod laws;
pub mod motion;

use std::collections::HashMap;

use vstd::prelude::*;

use crate::box3d::{b3BodyId, b3ContactBeginTouchEvent, b3ContactEndTouchEvent, b3ShapeId, b3WorldId};
use crate::protocol::{
    AudioMsg, ColliderInit, ColliderShapeMsg, Input, InputView, HELD_BACK, HELD_FORWARD, HELD_LEFT,
    HELD_RIGHT, MAX_BALLS, ROLE_FLOOR, ROLE_WALL, SIM_HZ,
};
use crate::units::{
    clamp_int, div_round, div_round_is_nearest, micros_from, micros_of, number, round_div,
};

verus! {

broadcast use vstd::std_specs::hash::group_hash_axioms;

/// How far above its authored position a ball starts, so that it drops in.
pub const DROP_HEIGHT: i64 = 2_000_000;

/// Rolling acceleration while a movement key is held (micrometres per second squared).
pub const MOVE_ACCEL: i64 = 27_000_000;

/// The horizontal speed that a held key cannot exceed, and full rolling loudness.
pub const MAX_SPEED: i64 = 6_000_000;

/// The speed a jump adds.
pub const JUMP_DV: i64 = 3_200_000;

/// The horizontal speed that a fling cannot exceed.
pub const FLING_MAX: i64 = 9_000_000;

/// The approach speed of a full-intensity landing.
pub const LAND_FULL_SPEED: i64 = 6_500_000;

/// The approach speed below which a contact is no impact; the engine applies it.
pub const HIT_MIN_SPEED: i64 = 800_000;

/// The softest impact that sounds (millionths of full intensity).
pub const MIN_INTENSITY: i64 = 120_000;

/// Below this fraction of [`MAX_SPEED`] the ball counts as still.
pub const ROLL_FLOOR: i64 = 40_000;

/// A ball below this height has left the table.
pub const FALL_LIMIT: i64 = -2_000_000;

/// The ball radius where the moving collider is no ball.
pub const DEFAULT_RADIUS: i64 = 500_000;

/// Rolling cues per second, as near as whole steps allow.
pub const ROLL_CUE_HZ: u32 = 20;

/// Steps between rolling cues.
pub const ROLL_EVERY: u32 = (2 * SIM_HZ + 20) / 40;

/// Hundredths of a second between impacts of one kind, as near as whole steps allow.
pub const IMPACT_COOLDOWN_CENTIS: u32 = 13;

/// Steps between impacts of one kind.
pub const IMPACT_COOLDOWN: u32 = (26 * SIM_HZ + 100) / 200;

/// Steps between rolling cues at a given step rate.
pub open spec fn roll_every_at(hz: int) -> int {
    div_round(hz, ROLL_CUE_HZ as int)
}

/// Steps between impacts of one kind at a given step rate.
pub open spec fn impact_cooldown_at(hz: int) -> int {
    div_round(IMPACT_COOLDOWN_CENTIS * hz, 100)
}

/// The step rate is the only knob: the cue period and the impact debounce are the fixed
/// times in the constants' names, to within half a step, at any step rate.
pub proof fn tick_counts_follow_the_rate(hz: int)
    requires
        0 < hz,
    ensures
        ROLL_EVERY == roll_every_at(SIM_HZ as int),
        IMPACT_COOLDOWN == impact_cooldown_at(SIM_HZ as int),
        -(ROLL_CUE_HZ as int) <= 2 * (roll_every_at(hz) * ROLL_CUE_HZ - hz) <= ROLL_CUE_HZ,
        -100 <= 2 * (impact_cooldown_at(hz) * 100 - IMPACT_COOLDOWN_CENTIS * hz) <= 100,
{
    div_round_is_nearest(hz, ROLL_CUE_HZ as int);
    div_round_is_nearest(IMPACT_COOLDOWN_CENTIS * hz, 100);
}

// ---------------------------------------------------------------------------------------
// Building the world

/// Why a world could not be built.
#[derive(Debug, Clone, Copy, PartialEq, Eq, Structural)]
pub enum WorldError {
    /// The engine made no world.
    CreateFailed,
    /// No collider moves.
    NoBall,
    /// The ball's mass is not a positive finite number.
    NoMass,
}

impl WorldError {
    /// The error in words.
    pub fn message(&self) -> (r: &'static str)
        ensures
            r@ == match self {
                WorldError::CreateFailed => "physics: b3CreateWorld failed"@,
                WorldError::NoBall => "physics: no dynamic collider (ball) in scene"@,
                WorldError::NoMass => "physics: ball has no mass"@,
            },
    {
        match self {
            WorldError::CreateFailed => "physics: b3CreateWorld failed",
            WorldError::NoBall => "physics: no dynamic collider (ball) in scene",
            WorldError::NoMass => "physics: ball has no mass",
        }
    }
}

/// The position of the first moving collider from `from` on.
pub open spec fn first_dynamic(colliders: Seq<ColliderInit>, from: int) -> Option<int>
    decreases colliders.len() - from,
{
    if from >= colliders.len() {
        None
    } else if colliders[from].dynamic {
        Some(from)
    } else {
        first_dynamic(colliders, from + 1)
    }
}

/// Finds the collider that becomes the player's ball: the first that moves.
pub fn ball_collider(colliders: &Vec<ColliderInit>) -> (r: Option<usize>)
    ensures
        match r {
            Some(i) => first_dynamic(colliders@, 0) == Some(i as int),
            None => first_dynamic(colliders@, 0) is None,
        },
{
    let mut i: usize = 0;
    while i < colliders.len()
        invariant
            i <= colliders@.len(),
            first_dynamic(colliders@, 0) == first_dynamic(colliders@, i as int),
        decreases colliders@.len() - i,
    {
        if colliders[i].dynamic {
            return Some(i);
        }
        i = i + 1;
    }
    None
}

/// The first moving collider is the one found: it moves, and none before it does.
pub proof fn first_dynamic_is_first(colliders: Seq<ColliderInit>, from: int)
    requires
        0 <= from,
    ensures
        match first_dynamic(colliders, from) {
            Some(i) => from <= i < colliders.len() && colliders[i].dynamic && (forall|j: int|
                from <= j < i ==> !colliders[j].dynamic),
            None => forall|j: int| from <= j < colliders.len() ==> !colliders[j].dynamic,
        },
    decreases colliders.len() - from,
{
    if from < colliders.len() && !colliders[from].dynamic {
        first_dynamic_is_first(colliders, from + 1);
    }
}

/// The positions of the fixed colliders, in order.
pub open spec fn static_positions(colliders: Seq<ColliderInit>) -> Seq<int>
    decreases colliders.len(),
{
    if colliders.len() == 0 {
        seq![]
    } else {
        let before = static_positions(colliders.drop_last());
        if colliders.last().dynamic {
            before
        } else {
            before.push(colliders.len() - 1)
        }
    }
}

/// Lists the fixed colliders, in order: each becomes one fixed body.
pub fn static_colliders(colliders: &Vec<ColliderInit>) -> (r: Vec<usize>)
    ensures
        r@.map_values(|i: usize| i as int) == static_positions(colliders@),
{
    let mut r: Vec<usize> = Vec::new();
    let mut i: usize = 0;
    assert(r@.map_values(|i: usize| i as int) =~= seq![]);
    while i < colliders.len()
        invariant
            i <= colliders@.len(),
            r@.map_values(|i: usize| i as int) == static_positions(colliders@.take(i as int)),
        decreases colliders@.len() - i,
    {
        let ghost before = r@;
        if !colliders[i].dynamic {
            r.push(i);
        }
        proof {
            let t = colliders@.take(i + 1);
            assert(t.drop_last() =~= colliders@.take(i as int));
            assert(t.last() == colliders@[i as int]);
            assert(before.push(i).map_values(|i: usize| i as int) =~= before.map_values(
                |i: usize| i as int,
            ).push(i as int));
        }
        i = i + 1;
    }
    assert(colliders@.take(colliders@.len() as int) =~= colliders@);
    r
}

/// The radius of a collider: its own where it is a ball, else [`DEFAULT_RADIUS`].
pub open spec fn radius_of(shape: ColliderShapeMsg) -> i64 {
    match shape {
        ColliderShapeMsg::Ball { radius } => radius,
        _ => DEFAULT_RADIUS,
    }
}

/// The radius of the player's ball, which every dropped ball shares; [`DEFAULT_RADIUS`] where
/// nothing moves.
pub fn ball_radius(colliders: &Vec<ColliderInit>) -> (r: i64)
    ensures
        r == match first_dynamic(colliders@, 0) {
            Some(i) => radius_of(colliders@[i].shape),
            None => DEFAULT_RADIUS,
        },
{
    proof {
        first_dynamic_is_first(colliders@, 0);
    }
    match ball_collider(colliders) {
        Some(i) => match colliders[i].shape {
            ColliderShapeMsg::Ball { radius } => radius,
            _ => DEFAULT_RADIUS,
        },
        None => DEFAULT_RADIUS,
    }
}

/// The point [`DROP_HEIGHT`] above another, as far as heights reach.
pub open spec fn above(x: i64, y: i64, z: i64) -> [i64; 3] {
    [
        x,
        if y + DROP_HEIGHT > i64::MAX {
            i64::MAX
        } else {
            (y + DROP_HEIGHT) as i64
        },
        z,
    ]
}

/// Where a ball starts that is dropped over this point.
pub fn raised(p: [i64; 3]) -> (r: [i64; 3])
    ensures
        r == above(p@[0], p@[1], p@[2]),
{
    let y: i64 = if p[1] > i64::MAX - DROP_HEIGHT {
        i64::MAX
    } else {
        p[1] + DROP_HEIGHT
    };
    [p[0], y, p[2]]
}

/// The bits of an IEEE single-precision number that is finite and above zero.
pub open spec fn positive_finite_bits(bits: u32) -> bool {
    0 < bits < 0x7f80_0000
}

/// A body's pose as the engine has it: the bits of single-precision numbers, a position in
/// metres and a quaternion.
#[derive(Debug, Clone, Copy, PartialEq, Eq)]
pub struct Pose {
    pub position: [u32; 3],
    pub rotation: [u32; 4],
}

/// Where a pose is (micrometres).
pub open spec fn place_of(pose: Pose) -> [i64; 3] {
    [
        micros_of(number(pose.position@[0])),
        micros_of(number(pose.position@[1])),
        micros_of(number(pose.position@[2])),
    ]
}

fn place(pose: &Pose) -> (r: [i64; 3])
    ensures
        r == place_of(*pose),
{
    [
        micros_from(pose.position[0]),
        micros_from(pose.position[1]),
        micros_from(pose.position[2]),
    ]
}

/// Whether a body in this pose has left the table.
pub open spec fn fallen(pose: Pose) -> bool {
    place_of(pose)@[1] < FALL_LIMIT
}

/// How a body stands: unturned at the place it starts from, or as the engine reported it.
#[derive(Debug, Clone, Copy, PartialEq, Eq)]
pub enum Stance {
    Start([i64; 3]),
    Reported(Pose),
}

impl Stance {
    /// Where the body is.
    pub open spec fn place(self) -> [i64; 3] {
        match self {
            Stance::Start(place) => place,
            Stance::Reported(pose) => place_of(pose),
        }
    }
}

/// How a body is put back: where, turned how, and moving how (micrometres, quaternion components
/// in millionths, micrometres and microradians per second).
#[derive(Debug, Clone, Copy, PartialEq, Eq)]
pub struct Respawn {
    pub body: b3BodyId,
    pub place: [i64; 3],
    pub rotation: [i64; 4],
    pub velocity: [i64; 3],
    pub spin: [i64; 3],
}

/// A body put back to a place: unturned and at rest.
pub open spec fn put_back(body: b3BodyId, place: [i64; 3]) -> Respawn {
    Respawn {
        body,
        place,
        rotation: [0, 0, 0, 1_000_000],
        velocity: [0, 0, 0],
        spin: [0, 0, 0],
    }
}

/// How a body in this pose is put back, where it has left the table.
fn respawn(body: b3BodyId, place: [i64; 3], pose: &Pose) -> (r: Option<Respawn>)
    ensures
        r == (if fallen(*pose) {
            Some(put_back(body, place))
        } else {
            None
        }),
{
    if fell_off(pose) {
        Some(
            Respawn {
                body,
                place,
                rotation: [0, 0, 0, 1_000_000],
                velocity: [0, 0, 0],
                spin: [0, 0, 0],
            },
        )
    } else {
        None
    }
}

/// A click-dropped ball: its body, the place it was dropped at (and is put back to when it
/// falls off), and how it stood after the last two steps.
#[derive(Debug, Clone, Copy)]
pub struct DroppedBall {
    pub body: b3BodyId,
    pub spawn: [i64; 3],
    pub prev: Stance,
    pub curr: Stance,
}

/// The engine's names for what the world is made of.
#[derive(Debug, Clone, Copy, PartialEq, Eq, Structural)]
pub struct WorldIds {
    pub world: b3WorldId,
    pub ball_body: b3BodyId,
    pub ball_shape: b3ShapeId,
}

/// The steps at which each kind of impact last sounded.
#[derive(Debug, Clone, Copy, PartialEq, Eq, Structural)]
pub struct Debounce {
    pub wall: u32,
    pub land: u32,
    pub clack: u32,
}

/// The bookkeeping of one world.
pub struct World {
    ids: WorldIds,
    ball_radius: i64,
    base_y: i64,
    spawn: [i64; 3],
    drops: Vec<DroppedBall>,
    player_prev: Stance,
    player_curr: Stance,
    contacts: HashMap<i32, u8>,
    last_jump_seq: u32,
    last_fling_seq: u32,
    tick: u32,
    debounce: Debounce,
}

/// What a [`World`] holds.
pub struct WorldView {
    pub ids: WorldIds,
    pub ball_radius: i64,
    /// The height that balls are dropped over.
    pub base_y: i64,
    /// Where the player's ball starts, and is put back to when it falls off.
    pub spawn: [i64; 3],
    pub drops: Seq<DroppedBall>,
    pub player_prev: Stance,
    pub player_curr: Stance,
    /// The shapes the player's ball touches, by slot, with their roles.
    pub contacts: Map<i32, u8>,
    pub last_jump_seq: u32,
    pub last_fling_seq: u32,
    pub tick: u32,
    pub debounce: Debounce,
}

impl View for World {
    type V = WorldView;

    closed spec fn view(&self) -> WorldView {
        WorldView {
            ids: self.ids,
            ball_radius: self.ball_radius,
            base_y: self.base_y,
            spawn: self.spawn,
            drops: self.drops@,
            player_prev: self.player_prev,
            player_curr: self.player_curr,
            contacts: self.contacts@,
            last_jump_seq: self.last_jump_seq,
            last_fling_seq: self.last_fling_seq,
            tick: self.tick,
            debounce: self.debounce,
        }
    }
}

/// A freshly built world: the ball at rest [`DROP_HEIGHT`] above its authored place, nothing
/// dropped, nothing touched.
pub open spec fn new_world(ids: WorldIds, radius: i64, authored: [i64; 3]) -> WorldView {
    let spawn = above(authored@[0], authored@[1], authored@[2]);
    WorldView {
        ids,
        ball_radius: radius,
        base_y: authored@[1],
        spawn,
        drops: seq![],
        player_prev: Stance::Start(spawn),
        player_curr: Stance::Start(spawn),
        contacts: Map::empty(),
        last_jump_seq: 0,
        last_fling_seq: 0,
        tick: 0,
        debounce: Debounce { wall: 0, land: 0, clack: 0 },
    }
}

// ---------------------------------------------------------------------------------------
// What the input calls for

/// What the engine is to do before a step.
#[derive(Debug, Clone, Copy, PartialEq, Eq)]
pub struct StepActions {
    /// Camera-frame push, each axis -1, 0 or 1 (x right, z towards the camera).
    pub dir_x: i32,
    pub dir_z: i32,
    pub jump: bool,
    /// A camera-frame velocity to throw the ball at.
    pub fling: Option<(i64, i64)>,
}

/// Whether a held bit is set.
pub open spec fn holds(held: u32, bit: u32) -> bool {
    held & bit != 0
}

/// One axis of the push: opposite keys cancel.
pub open spec fn axis(held: u32, plus: u32, minus: u32) -> int {
    (if holds(held, plus) {
        1int
    } else {
        0
    }) - (if holds(held, minus) {
        1int
    } else {
        0
    })
}

/// Whether a body in this pose has left the table.
pub fn fell_off(pose: &Pose) -> (r: bool)
    ensures
        r == fallen(*pose),
{
    place(pose)[1] < FALL_LIMIT
}

// ---------------------------------------------------------------------------------------
// What the engine reports

/// A begin-touch event with both shapes' roles.
#[derive(Debug, Clone, Copy)]
pub struct TouchBegin {
    pub event: b3ContactBeginTouchEvent,
    pub role_a: u8,
    pub role_b: u8,
}

/// A hit: both shapes' roles, where, and how fast they met.
#[derive(Debug, Clone, Copy)]
pub struct HitEvent {
    pub role_a: u8,
    pub role_b: u8,
    pub point: [i64; 3],
    pub approach_speed: i64,
}

/// Everything read from the engine after a step, before any body is put back.
pub struct StepReport {
    pub player: Pose,
    /// The player's horizontal speed.
    pub horizontal_speed: i64,
    pub begins: Vec<TouchBegin>,
    pub ends: Vec<b3ContactEndTouchEvent>,
    pub hits: Vec<HitEvent>,
    /// One per dropped ball, in drop order.
    pub balls: Vec<Pose>,
}

/// The contacts once a touch has begun: one more if the ball is a party to it.
pub open spec fn touch(contacts: Map<i32, u8>, ball: b3ShapeId, t: TouchBegin) -> Map<i32, u8> {
    if t.event.shapeIdA == ball {
        contacts.insert(t.event.shapeIdB.index1, t.role_b)
    } else if t.event.shapeIdB == ball {
        contacts.insert(t.event.shapeIdA.index1, t.role_a)
    } else {
        contacts
    }
}

/// The contacts once a touch has ended.
pub open spec fn untouch(
    contacts: Map<i32, u8>,
    ball: b3ShapeId,
    e: b3ContactEndTouchEvent,
) -> Map<i32, u8> {
    if e.shapeIdA == ball {
        contacts.remove(e.shapeIdB.index1)
    } else if e.shapeIdB == ball {
        contacts.remove(e.shapeIdA.index1)
    } else {
        contacts
    }
}

pub open spec fn touch_all(
    contacts: Map<i32, u8>,
    ball: b3ShapeId,
    begins: Seq<TouchBegin>,
) -> Map<i32, u8>
    decreases begins.len(),
{
    if begins.len() == 0 {
        contacts
    } else {
        touch(touch_all(contacts, ball, begins.drop_last()), ball, begins.last())
    }
}

pub open spec fn untouch_all(
    contacts: Map<i32, u8>,
    ball: b3ShapeId,
    ends: Seq<b3ContactEndTouchEvent>,
) -> Map<i32, u8>
    decreases ends.len(),
{
    if ends.len() == 0 {
        contacts
    } else {
        untouch(untouch_all(contacts, ball, ends.drop_last()), ball, ends.last())
    }
}

/// The ball is on something other than a rail.
pub open spec fn grounded(contacts: Map<i32, u8>) -> bool {
    exists|k: i32| #[trigger] contacts.contains_key(k) && contacts[k] != ROLE_WALL
}

/// What an impact is voiced as.
#[derive(Debug, Clone, Copy, PartialEq, Eq, Structural)]
pub enum Surface {
    Wall,
    Floor,
    Ball,
}

/// A rail if either shape is one, else the floor if either is, else two balls.
pub open spec fn surface_of(role_a: u8, role_b: u8) -> Surface {
    if role_a == ROLE_WALL || role_b == ROLE_WALL {
        Surface::Wall
    } else if role_a == ROLE_FLOOR || role_b == ROLE_FLOOR {
        Surface::Floor
    } else {
        Surface::Ball
    }
}

/// Impact loudness: the approach speed as a fraction of `full`, at least the softest and at
/// most full (millionths).
pub open spec fn intensity_of(approach_speed: int, full: int) -> int {
    clamp_int(div_round(approach_speed * 1_000_000, full), MIN_INTENSITY as int, 1_000_000)
}

impl Debounce {
    /// The step at which this kind of impact last sounded.
    pub open spec fn last(self, s: Surface) -> u32 {
        match s {
            Surface::Wall => self.wall,
            Surface::Floor => self.land,
            Surface::Ball => self.clack,
        }
    }

    pub open spec fn sounded(self, s: Surface, tick: u32) -> Debounce {
        match s {
            Surface::Wall => Debounce { wall: tick, ..self },
            Surface::Floor => Debounce { land: tick, ..self },
            Surface::Ball => Debounce { clack: tick, ..self },
        }
    }

    /// Enough steps have passed since this kind of impact last sounded.
    pub open spec fn ready(self, s: Surface, tick: u32) -> bool {
        ticks_since(self.last(s), tick) >= IMPACT_COOLDOWN
    }
}

/// Steps from `then` to `now` on the wrapping step counter.
pub open spec fn ticks_since(then: u32, now: u32) -> int {
    if now >= then {
        now - then
    } else {
        now - then + 0x1_0000_0000
    }
}

/// The cue for a hit.
pub open spec fn hit_cue(h: HitEvent) -> AudioMsg {
    let (x, y, z) = (h.point[0], h.point[1], h.point[2]);
    match surface_of(h.role_a, h.role_b) {
        Surface::Wall => AudioMsg::WallHit {
            x,
            y,
            z,
            intensity: intensity_of(h.approach_speed as int, MAX_SPEED as int) as i64,
        },
        Surface::Floor => AudioMsg::Land {
            x,
            y,
            z,
            intensity: intensity_of(h.approach_speed as int, LAND_FULL_SPEED as int) as i64,
        },
        Surface::Ball => AudioMsg::BallClack {
            x,
            y,
            z,
            intensity: intensity_of(h.approach_speed as int, MAX_SPEED as int) as i64,
        },
    }
}

/// Whether a hit sounds at this step.
pub open spec fn hit_sounds(d: Debounce, tick: u32, h: HitEvent) -> bool {
    d.ready(surface_of(h.role_a, h.role_b), tick)
}

/// The debounce state after the hits of one step.
pub open spec fn after_hits(d: Debounce, tick: u32, hits: Seq<HitEvent>) -> Debounce
    decreases hits.len(),
{
    if hits.len() == 0 {
        d
    } else {
        let before = after_hits(d, tick, hits.drop_last());
        if hit_sounds(before, tick, hits.last()) {
            before.sounded(surface_of(hits.last().role_a, hits.last().role_b), tick)
        } else {
            before
        }
    }
}

/// The cues of the hits of one step: those that sound, in order.
pub open spec fn hit_cues(d: Debounce, tick: u32, hits: Seq<HitEvent>) -> Seq<AudioMsg>
    decreases hits.len(),
{
    if hits.len() == 0 {
        seq![]
    } else {
        let before = hit_cues(d, tick, hits.drop_last());
        if hit_sounds(after_hits(d, tick, hits.drop_last()), tick, hits.last()) {
            before.push(hit_cue(hits.last()))
        } else {
            before
        }
    }
}

/// Rolling loudness: silent in the air and below [`ROLL_FLOOR`], full from [`MAX_SPEED`] on.
pub open spec fn roll_speed(on_ground: bool, horizontal_speed: int) -> int {
    if !on_ground || horizontal_speed * 1_000_000 < ROLL_FLOOR * MAX_SPEED {
        0
    } else {
        clamp_int(div_round(horizontal_speed * 1_000_000, MAX_SPEED as int), 0, 1_000_000)
    }
}

/// The rolling cue of a step, on every [`ROLL_EVERY`]th.
pub open spec fn roll_cue(tick: u32, on_ground: bool, speed: i64, at: [i64; 3]) -> Seq<AudioMsg> {
    if tick as int % ROLL_EVERY as int == 0 {
        seq![
            AudioMsg::Roll {
                speed: roll_speed(on_ground, speed as int) as i64,
                x: at@[0],
                y: at@[1],
                z: at@[2],
            },
        ]
    } else {
        seq![]
    }
}

/// How a body stands after a step that left it in a pose: so, unless it has left the table and
/// is put back to where it starts from.
pub open spec fn rolled_curr(spawn: [i64; 3], pose: Pose) -> Stance {
    if fallen(pose) {
        Stance::Start(spawn)
    } else {
        Stance::Reported(pose)
    }
}

/// How a body counts as having stood before that step: as it did, unless it is put back, which
/// nothing is blended across.
pub open spec fn rolled_prev(spawn: [i64; 3], before: Stance, pose: Pose) -> Stance {
    if fallen(pose) {
        Stance::Start(spawn)
    } else {
        before
    }
}

/// A dropped ball after a step.
pub open spec fn rolled_ball(ball: DroppedBall, pose: Pose) -> DroppedBall {
    DroppedBall {
        prev: rolled_prev(ball.spawn, ball.curr, pose),
        curr: rolled_curr(ball.spawn, pose),
        ..ball
    }
}

fn roll_on(spawn: [i64; 3], before: Stance, pose: &Pose) -> (r: (Stance, Stance))
    ensures
        r == (rolled_prev(spawn, before, *pose), rolled_curr(spawn, *pose)),
{
    if fell_off(pose) {
        (Stance::Start(spawn), Stance::Start(spawn))
    } else {
        (before, Stance::Reported(*pose))
    }
}

/// The step counter after one more step.
pub open spec fn next_tick(tick: u32) -> u32 {
    if tick == u32::MAX {
        0
    } else {
        (tick + 1) as u32
    }
}

impl WorldView {
    /// What the input calls for before the next step.
    pub open spec fn actions(self, input: InputView) -> StepActions {
        StepActions {
            dir_x: axis(input.held, HELD_RIGHT, HELD_LEFT) as i32,
            dir_z: axis(input.held, HELD_BACK, HELD_FORWARD) as i32,
            jump: input.jump_seq != self.last_jump_seq,
            fling: input.pending_fling(self.last_fling_seq),
        }
    }

    /// How the player's ball, which a step left in this pose, is put back, where it is.
    pub open spec fn player_back(self, pose: Pose) -> Option<Respawn> {
        if fallen(pose) {
            Some(put_back(self.ids.ball_body, self.spawn))
        } else {
            None
        }
    }

    /// How a dropped ball, which a step left in this pose, is put back, where it is.
    pub open spec fn ball_back(self, index: int, pose: Pose) -> Option<Respawn> {
        if fallen(pose) {
            Some(put_back(self.drops[index].body, self.drops[index].spawn))
        } else {
            None
        }
    }

    /// What the ball touches after a step: nothing is left over from before a fall.
    pub open spec fn contacts_after(self, r: StepReport) -> Map<i32, u8> {
        let kept = if fallen(r.player) {
            Map::empty()
        } else {
            self.contacts
        };
        untouch_all(touch_all(kept, self.ids.ball_shape, r.begins@), self.ids.ball_shape, r.ends@)
    }

    /// The cues of the next step: its impacts, then its rolling cue.
    pub open spec fn cues_of(self, r: StepReport) -> Seq<AudioMsg> {
        let tick = next_tick(self.tick);
        hit_cues(self.debounce, tick, r.hits@) + roll_cue(
            tick,
            grounded(self.contacts_after(r)),
            if fallen(r.player) {
                0
            } else {
                r.horizontal_speed
            },
            rolled_curr(self.spawn, r.player).place(),
        )
    }

    /// The world after a step in which the engine reported `r`.
    pub open spec fn stepped(self, input: InputView, r: StepReport) -> WorldView {
        WorldView {
            drops: Seq::new(self.drops.len(), |i: int| rolled_ball(self.drops[i], r.balls@[i])),
            player_prev: rolled_prev(self.spawn, self.player_curr, r.player),
            player_curr: rolled_curr(self.spawn, r.player),
            contacts: self.contacts_after(r),
            last_jump_seq: input.jump_seq,
            last_fling_seq: input.fling_seq,
            tick: next_tick(self.tick),
            debounce: after_hits(self.debounce, next_tick(self.tick), r.hits@),
            ..self
        }
    }

    /// The world with one more ball, at rest [`DROP_HEIGHT`] above a point of the table, or as
    /// it was once [`MAX_BALLS`] have been dropped.
    pub open spec fn dropped(self, body: b3BodyId, x: i64, z: i64) -> WorldView {
        if self.drops.len() < MAX_BALLS {
            let spawn = above(x, self.base_y, z);
            WorldView {
                drops: self.drops.push(
                    DroppedBall {
                        body,
                        spawn,
                        prev: Stance::Start(spawn),
                        curr: Stance::Start(spawn),
                    },
                ),
                ..self
            }
        } else {
            self
        }
    }
}

/// Impact loudness as a fraction of `full` (millionths).
pub fn intensity(approach_speed: i64, full: i64) -> (r: i64)
    requires
        0 < full,
    ensures
        r == intensity_of(approach_speed as int, full as int),
{
    let n: i128 = approach_speed as i128 * 1_000_000;
    let q: i128 = round_div(n, full as i128);
    if q < MIN_INTENSITY as i128 {
        MIN_INTENSITY
    } else if q > 1_000_000 {
        1_000_000
    } else {
        q as i64
    }
}

/// What an impact between these two roles is voiced as.
pub fn surface(role_a: u8, role_b: u8) -> (r: Surface)
    ensures
        r == surface_of(role_a, role_b),
{
    if role_a == ROLE_WALL || role_b == ROLE_WALL {
        Surface::Wall
    } else if role_a == ROLE_FLOOR || role_b == ROLE_FLOOR {
        Surface::Floor
    } else {
        Surface::Ball
    }
}

/// Rolling loudness (millionths).
pub fn rolling_speed(on_ground: bool, horizontal_speed: i64) -> (r: i64)
    ensures
        r == roll_speed(on_ground, horizontal_speed as int),
{
    let n: i128 = horizontal_speed as i128 * 1_000_000;
    proof {
        let (floor, max) = (ROLL_FLOOR, MAX_SPEED);
        assert(floor * max == 240_000_000_000) by (nonlinear_arith)
            requires
                floor == 40_000,
                max == 6_000_000,
        ;
    }
    if !on_ground || n < ROLL_FLOOR as i128 * MAX_SPEED as i128 {
        return 0;
    }
    let q: i128 = round_div(n, MAX_SPEED as i128);
    if q < 0 {
        0
    } else if q > 1_000_000 {
        1_000_000
    } else {
        q as i64
    }
}

/// Voices one hit: pushes its cue where its kind is ready, and notes the step.
fn voice_hit(d: &mut Debounce, tick: u32, h: &HitEvent, cues: &mut Vec<AudioMsg>)
    ensures
        *final(d) == (if hit_sounds(*old(d), tick, *h) {
            old(d).sounded(surface_of(h.role_a, h.role_b), tick)
        } else {
            *old(d)
        }),
        final(cues)@ == (if hit_sounds(*old(d), tick, *h) {
            old(cues)@.push(hit_cue(*h))
        } else {
            old(cues)@
        }),
{
    let s: Surface = surface(h.role_a, h.role_b);
    let last: u32 = match s {
        Surface::Wall => d.wall,
        Surface::Floor => d.land,
        Surface::Ball => d.clack,
    };
    if tick.wrapping_sub(last) < IMPACT_COOLDOWN {
        return;
    }
    let (x, y, z) = (h.point[0], h.point[1], h.point[2]);
    match s {
        Surface::Wall => {
            d.wall = tick;
            let intensity: i64 = intensity(h.approach_speed, MAX_SPEED);
            cues.push(AudioMsg::WallHit { x, y, z, intensity });
        },
        Surface::Floor => {
            d.land = tick;
            let intensity: i64 = intensity(h.approach_speed, LAND_FULL_SPEED);
            cues.push(AudioMsg::Land { x, y, z, intensity });
        },
        Surface::Ball => {
            d.clack = tick;
            let intensity: i64 = intensity(h.approach_speed, MAX_SPEED);
            cues.push(AudioMsg::BallClack { x, y, z, intensity });
        },
    }
}

/// Whether the ball is on something other than a rail.
fn is_grounded(contacts: &HashMap<i32, u8>) -> (r: bool)
    ensures
        r == grounded(contacts@),
{
    for role in it: contacts.values()
        invariant
            it.seq().unref().to_set() == contacts@.values(),
            forall|i: int| 0 <= i < it.index() ==> *#[trigger] it.seq()[i] == ROLE_WALL,
    {
        if *role != ROLE_WALL {
            proof {
                assert(it.seq().unref()[it.index()] == *role);
                assert(contacts@.values().contains(*role));
                let k = choose|k: i32| #[trigger] contacts@.contains_key(k) && contacts@[k] == *role;
                assert(contacts@.contains_key(k));
            }
            return true;
        }
    }
    proof {
        assert forall|k: i32| #[trigger] contacts@.contains_key(k) implies contacts@[k]
            == ROLE_WALL by {
            assert(contacts@.values().contains(contacts@[k]));
        }
    }
    false
}

/// Books the touches that began.
fn begin_touches(contacts: &mut HashMap<i32, u8>, ball: b3ShapeId, begins: &Vec<TouchBegin>)
    ensures
        final(contacts)@ == touch_all(old(contacts)@, ball, begins@),
{
    let mut i: usize = 0;
    while i < begins.len()
        invariant
            i <= begins@.len(),
            contacts@ == touch_all(old(contacts)@, ball, begins@.take(i as int)),
        decreases begins@.len() - i,
    {
        let t: TouchBegin = begins[i];
        if t.event.shapeIdA == ball {
            contacts.insert(t.event.shapeIdB.index1, t.role_b);
        } else if t.event.shapeIdB == ball {
            contacts.insert(t.event.shapeIdA.index1, t.role_a);
        }
        assert(begins@.take(i + 1).drop_last() =~= begins@.take(i as int));
        i = i + 1;
    }
    assert(begins@.take(begins@.len() as int) =~= begins@);
}

/// Books the touches that ended.
fn end_touches(
    contacts: &mut HashMap<i32, u8>,
    ball: b3ShapeId,
    ends: &Vec<b3ContactEndTouchEvent>,
)
    ensures
        final(contacts)@ == untouch_all(old(contacts)@, ball, ends@),
{
    let mut i: usize = 0;
    while i < ends.len()
        invariant
            i <= ends@.len(),
            contacts@ == untouch_all(old(contacts)@, ball, ends@.take(i as int)),
        decreases ends@.len() - i,
    {
        let e: b3ContactEndTouchEvent = ends[i];
        let ghost was = contacts@;
        if e.shapeIdA == ball {
            contacts.remove(&e.shapeIdB.index1);
            assert(contacts@ =~= was.remove(e.shapeIdB.index1));
        } else if e.shapeIdB == ball {
            contacts.remove(&e.shapeIdA.index1);
            assert(contacts@ =~= was.remove(e.shapeIdA.index1));
        }
        assert(ends@.take(i + 1).drop_last() =~= ends@.take(i as int));
        i = i + 1;
    }
    assert(ends@.take(ends@.len() as int) =~= ends@);
}

/// Voices the hits of one step, in order.
fn voice_hits(d: &mut Debounce, tick: u32, hits: &Vec<HitEvent>, cues: &mut Vec<AudioMsg>)
    ensures
        *final(d) == after_hits(*old(d), tick, hits@),
        final(cues)@ == old(cues)@ + hit_cues(*old(d), tick, hits@),
{
    let mut i: usize = 0;
    assert(cues@ =~= old(cues)@ + hit_cues(*old(d), tick, hits@.take(0)));
    while i < hits.len()
        invariant
            i <= hits@.len(),
            *d == after_hits(*old(d), tick, hits@.take(i as int)),
            cues@ == old(cues)@ + hit_cues(*old(d), tick, hits@.take(i as int)),
        decreases hits@.len() - i,
    {
        voice_hit(d, tick, &hits[i], cues);
        assert(hits@.take(i + 1).drop_last() =~= hits@.take(i as int));
        assert(cues@ =~= old(cues)@ + hit_cues(*old(d), tick, hits@.take(i + 1)));
        i = i + 1;
    }
    assert(hits@.take(hits@.len() as int) =~= hits@);
}

/// Moves every dropped ball on to its reported pose.
fn roll_balls(drops: &mut Vec<DroppedBall>, reports: &Vec<Pose>)
    requires
        reports@.len() == old(drops)@.len(),
    ensures
        final(drops)@ == Seq::new(
            old(drops)@.len(),
            |i: int| rolled_ball(old(drops)@[i], reports@[i]),
        ),
{
    let mut i: usize = 0;
    while i < drops.len()
        invariant
            i <= drops@.len(),
            drops@.len() == old(drops)@.len() == reports@.len(),
            forall|j: int|
                0 <= j < i ==> #[trigger] drops@[j] == rolled_ball(old(drops)@[j], reports@[j]),
            forall|j: int| i <= j < drops@.len() ==> #[trigger] drops@[j] == old(drops)@[j],
        decreases drops@.len() - i,
    {
        let ball: DroppedBall = drops[i];
        let (prev, curr) = roll_on(ball.spawn, ball.curr, &reports[i]);
        drops.set(i, DroppedBall { body: ball.body, spawn: ball.spawn, prev, curr });
        i = i + 1;
    }
}

/// Why a world cannot be built, where it cannot: the engine's failure goes first, then that
/// nothing moves, then the ball's mass.
pub open spec fn build_fault(colliders: Seq<ColliderInit>, valid: bool, mass_bits: u32) -> Option<
    WorldError,
> {
    if !valid {
        Some(WorldError::CreateFailed)
    } else if first_dynamic(colliders, 0) is None {
        Some(WorldError::NoBall)
    } else if !positive_finite_bits(mass_bits) {
        Some(WorldError::NoMass)
    } else {
        None
    }
}

impl World {
    /// The most balls are never exceeded.
    pub closed spec fn wf(&self) -> bool {
        self.drops@.len() <= MAX_BALLS
    }

    /// Takes over a world that the engine has built from `colliders`: the ball's authored
    /// place, whether the world is valid, its ids, and the IEEE bits of the ball's mass. The
    /// engine has started the ball at [`raised`] of its authored place.
    pub fn new(
        colliders: &Vec<ColliderInit>,
        authored: [i64; 3],
        valid: bool,
        ids: WorldIds,
        mass_bits: u32,
    ) -> (r: Result<World, WorldError>)
        ensures
            match r {
                Ok(w) => valid && first_dynamic(colliders@, 0) is Some && positive_finite_bits(
                    mass_bits,
                ) && w.wf() && w@ == new_world(
                    ids,
                    radius_of(colliders@[first_dynamic(colliders@, 0)->0].shape),
                    authored,
                ),
                Err(WorldError::CreateFailed) => !valid,
                Err(WorldError::NoBall) => valid && first_dynamic(colliders@, 0) is None,
                Err(WorldError::NoMass) => valid && first_dynamic(colliders@, 0) is Some
                    && !positive_finite_bits(mass_bits),
            },
            match build_fault(colliders@, valid, mass_bits) {
                Some(e) => r == Err::<World, WorldError>(e),
                None => r is Ok,
            },
    {
        if !valid {
            return Err(WorldError::CreateFailed);
        }
        if ball_collider(colliders).is_none() {
            return Err(WorldError::NoBall);
        }
        if mass_bits == 0 || mass_bits >= 0x7f80_0000 {
            return Err(WorldError::NoMass);
        }
        let ball_radius: i64 = ball_radius(colliders);
        let spawn: [i64; 3] = raised(authored);
        let w = World {
            ids,
            ball_radius,
            base_y: authored[1],
            spawn,
            drops: Vec::new(),
            player_prev: Stance::Start(spawn),
            player_curr: Stance::Start(spawn),
            contacts: HashMap::new(),
            last_jump_seq: 0,
            last_fling_seq: 0,
            tick: 0,
            debounce: Debounce { wall: 0, land: 0, clack: 0 },
        };
        assert(w@.drops =~= seq![]);
        assert(w@.contacts =~= Map::empty());
        Ok(w)
    }

    /// Where a ball starts that is dropped over a point of the table.
    pub fn drop_point(&self, x: i64, z: i64) -> (r: [i64; 3])
        ensures
            r == above(x, self@.base_y, z),
    {
        raised([x, self.base_y, z])
    }

    /// Whether another ball may be dropped.
    pub fn can_drop(&self) -> (r: bool)
        requires
            self.wf(),
        ensures
            r == (self@.drops.len() < MAX_BALLS),
    {
        self.drops.len() < MAX_BALLS
    }

    /// Takes over a ball that the engine has started at [`World::drop_point`] of a point of the
    /// table. Returns `false`, and does nothing, once [`MAX_BALLS`] have been dropped.
    pub fn drop_ball(&mut self, body: b3BodyId, x: i64, z: i64) -> (r: bool)
        requires
            old(self).wf(),
        ensures
            final(self).wf(),
            r == (old(self)@.drops.len() < MAX_BALLS),
            final(self)@ == old(self)@.dropped(body, x, z),
    {
        if self.drops.len() >= MAX_BALLS {
            return false;
        }
        let spawn: [i64; 3] = self.drop_point(x, z);
        self.drops.push(
            DroppedBall { body, spawn, prev: Stance::Start(spawn), curr: Stance::Start(spawn) },
        );
        true
    }

    /// What the engine is to do before the next step.
    pub fn step_actions(&self, input: &Input) -> (r: StepActions)
        ensures
            r == self@.actions(input@),
    {
        let held: u32 = input.held();
        let mut dir_x: i32 = 0;
        let mut dir_z: i32 = 0;
        if held & HELD_FORWARD != 0 {
            dir_z = dir_z - 1;
        }
        if held & HELD_BACK != 0 {
            dir_z = dir_z + 1;
        }
        if held & HELD_LEFT != 0 {
            dir_x = dir_x - 1;
        }
        if held & HELD_RIGHT != 0 {
            dir_x = dir_x + 1;
        }
        let mut seen: u32 = self.last_fling_seq;
        let fling = input.poll_fling(&mut seen);
        StepActions { dir_x, dir_z, jump: input.jump_seq() != self.last_jump_seq, fling }
    }

    /// Books one fixed step: the input that was acted on, and what the engine reported. Pushes
    /// the step's cues.
    pub fn step(&mut self, input: &Input, report: &StepReport, cues: &mut Vec<AudioMsg>)
        requires
            old(self).wf(),
            report.balls@.len() == old(self)@.drops.len(),
        ensures
            final(self).wf(),
            final(self)@ == old(self)@.stepped(input@, *report),
            final(cues)@ == old(cues)@ + old(self)@.cues_of(*report),
    {
        self.tick = self.tick.wrapping_add(1);
        self.last_jump_seq = input.jump_seq();
        self.last_fling_seq = input.fling_seq();

        let fell: bool = fell_off(&report.player);
        let (prev, curr) = roll_on(self.spawn, self.player_curr, &report.player);
        if fell {
            self.contacts.clear();
        }
        begin_touches(&mut self.contacts, self.ids.ball_shape, &report.begins);
        end_touches(&mut self.contacts, self.ids.ball_shape, &report.ends);

        voice_hits(&mut self.debounce, self.tick, &report.hits, cues);

        if self.tick.is_multiple_of(ROLL_EVERY) {
            let on_ground: bool = is_grounded(&self.contacts);
            let speed: i64 = if fell {
                0
            } else {
                report.horizontal_speed
            };
            let at: [i64; 3] = if fell {
                self.spawn
            } else {
                place(&report.player)
            };
            cues.push(
                AudioMsg::Roll {
                    speed: rolling_speed(on_ground, speed),
                    x: at[0],
                    y: at[1],
                    z: at[2],
                },
            );
        }
        assert(cues@ =~= old(cues)@ + old(self)@.cues_of(*report));
        self.player_prev = prev;
        self.player_curr = curr;
        roll_balls(&mut self.drops, &report.balls);
    }

    /// How the player's ball stood after the last two steps.
    pub fn player_poses(&self) -> (r: (Stance, Stance))
        ensures
            r == (self@.player_prev, self@.player_curr),
    {
        (self.player_prev, self.player_curr)
    }

    /// How many balls have been dropped.
    pub fn ball_count(&self) -> (r: usize)
        ensures
            r == self@.drops.len(),
            self.wf() ==> r <= MAX_BALLS,
    {
        self.drops.len()
    }

    /// How a dropped ball stood after the last two steps.
    pub fn ball_poses(&self, index: usize) -> (r: (Stance, Stance))
        requires
            index < self@.drops.len(),
        ensures
            r == (self@.drops[index as int].prev, self@.drops[index as int].curr),
    {
        (self.drops[index].prev, self.drops[index].curr)
    }

    /// A dropped ball's body.
    pub fn ball_body(&self, index: usize) -> (r: b3BodyId)
        requires
            index < self@.drops.len(),
        ensures
            r == self@.drops[index as int].body,
    {
        self.drops[index].body
    }

    /// How a dropped ball that a step left in this pose is put back, where it has left the
    /// table: to where it was dropped, unturned and at rest.
    pub fn ball_respawn(&self, index: usize, pose: &Pose) -> (r: Option<Respawn>)
        requires
            index < self@.drops.len(),
        ensures
            r == (if fallen(*pose) {
                Some(put_back(self@.drops[index as int].body, self@.drops[index as int].spawn))
            } else {
                None
            }),
            r == self@.ball_back(index as int, *pose),
    {
        respawn(self.drops[index].body, self.drops[index].spawn, pose)
    }

    /// How the player's ball, which a step left in this pose, is put back, where it has left the
    /// table: to where it started, unturned and at rest.
    pub fn player_respawn(&self, pose: &Pose) -> (r: Option<Respawn>)
        ensures
            r == (if fallen(*pose) {
                Some(put_back(self@.ids.ball_body, self@.spawn))
            } else {
                None
            }),
            r == self@.player_back(*pose),
    {
        respawn(self.ids.ball_body, self.spawn, pose)
    }

    /// The engine's names for what the world is made of.
    pub fn ids(&self) -> (r: WorldIds)
        ensures
            r == self@.ids,
    {
        self.ids
    }

    /// The radius of the player's ball, which every dropped ball shares.
    pub fn ball_radius(&self) -> (r: i64)
        ensures
            r == self@.ball_radius,
    {
        self.ball_radius
    }
}

} // verus!
