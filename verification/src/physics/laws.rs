//! What holds of the physics bookkeeping as a whole.

use vstd::prelude::*;

use crate::box3d::{b3BodyId, b3ContactEndTouchEvent, b3ShapeId};
use crate::physics::{
    after_hits, axis, build_fault, fallen, grounded, hit_cue, hit_cues, hit_sounds, holds, intensity_of,
    new_world, next_tick, place_of, positive_finite_bits, put_back, radius_of, roll_speed, rolled_curr, static_positions,
    surface_of, ticks_since, touch_all, untouch_all, Debounce, HitEvent, Pose, Stance, StepReport,
    Surface, TouchBegin, WorldError, WorldIds, WorldView, DROP_HEIGHT, IMPACT_COOLDOWN, MAX_SPEED,
    MIN_INTENSITY, ROLL_EVERY, ROLL_FLOOR,
};
use crate::protocol::{
    AudioMsg, ColliderInit, ColliderShapeMsg, InputView, HELD_BACK, HELD_FORWARD, HELD_LEFT,
    HELD_RIGHT, MAX_BALLS, ROLE_FLOOR, ROLE_WALL,
};
use crate::units::{micros_of, number};

verus! {

/// One press is one action: whatever the input called for before a step, the same input
/// calls for no second jump and no second fling after it.
pub proof fn one_press_is_one_action(w: WorldView, input: InputView, r: StepReport)
    ensures
        !w.stepped(input, r).actions(input).jump,
        w.stepped(input, r).actions(input).fling is None,
{
}

/// A press after a step is acted on before the next one.
pub proof fn a_new_press_acts(
    w: WorldView,
    input: InputView,
    r: StepReport,
    vx: i64,
    vz: i64,
)
    ensures
        w.stepped(input, r).actions(input.with_jump()).jump,
        w.stepped(input, r).actions(input.with_fling(vx, vz)).fling == Some((vx, vz)),
{
}

/// Opposite keys cancel, and a key pushes along one axis only.
pub proof fn opposite_keys_cancel(held: u32, plus: u32, minus: u32)
    ensures
        holds(held, plus) == holds(held, minus) ==> axis(held, plus, minus) == 0,
        holds(held, plus) && !holds(held, minus) ==> axis(held, plus, minus) == 1,
        !holds(held, plus) && holds(held, minus) ==> axis(held, plus, minus) == -1,
{
}

/// Rendering blends the poses of two consecutive steps, and never across a respawn: the
/// earlier pose is the one known before the step, except that a body that fell off stands both
/// times at the place it is put back to, unturned.
pub proof fn poses_roll_without_jumps(
    w: WorldView,
    input: InputView,
    r: StepReport,
    i: int,
)
    requires
        0 <= i < w.drops.len(),
        r.balls@.len() == w.drops.len(),
    ensures
        ({
            let next = w.stepped(input, r);
            let ball = next.drops[i];
            &&& !fallen(r.player) ==> next.player_curr == Stance::Reported(r.player)
                && next.player_prev == w.player_curr
            &&& fallen(r.player) ==> next.player_curr == Stance::Start(w.spawn)
                && next.player_prev == next.player_curr
            &&& !fallen(r.balls@[i]) ==> ball.curr == Stance::Reported(r.balls@[i]) && ball.prev
                == w.drops[i].curr
            &&& fallen(r.balls@[i]) ==> ball.curr == Stance::Start(w.drops[i].spawn) && ball.prev
                == ball.curr
        }),
{
}

/// A ball is put back exactly where it has left the table: unturned, at rest, and at the place
/// where it then counts as standing. The others stay as they are.
pub proof fn a_fallen_ball_stands_where_it_is_put_back(body: b3BodyId, spawn: [i64; 3], pose: Pose)
    ensures
        put_back(body, spawn).body == body,
        put_back(body, spawn).rotation@ =~= seq![0i64, 0i64, 0i64, 1_000_000i64],
        put_back(body, spawn).velocity@ =~= seq![0i64, 0i64, 0i64],
        put_back(body, spawn).spin@ =~= seq![0i64, 0i64, 0i64],
        fallen(pose) ==> rolled_curr(spawn, pose) == Stance::Start(put_back(body, spawn).place),
        !fallen(pose) ==> rolled_curr(spawn, pose).place() == place_of(pose),
{
}

/// A fall forgets what the ball touched before it.
pub proof fn a_fall_forgets_contacts(w: WorldView, v: WorldView, r: StepReport)
    requires
        fallen(r.player),
        w.ids == v.ids,
    ensures
        w.contacts_after(r) == v.contacts_after(r),
{
}

/// The slot that the ball touches by an event between two shapes.
pub open spec fn other_slot(ball: b3ShapeId, a: b3ShapeId, b: b3ShapeId) -> Option<i32> {
    if a == ball {
        Some(b.index1)
    } else if b == ball {
        Some(a.index1)
    } else {
        None
    }
}

/// Whether the ball began to touch a slot.
pub open spec fn began(ball: b3ShapeId, begins: Seq<TouchBegin>, slot: i32) -> bool {
    exists|i: int|
        0 <= i < begins.len() && #[trigger] other_slot(
            ball,
            begins[i].event.shapeIdA,
            begins[i].event.shapeIdB,
        ) == Some(slot)
}

/// Whether the ball ceased to touch a slot.
pub open spec fn ended(ball: b3ShapeId, ends: Seq<b3ContactEndTouchEvent>, slot: i32) -> bool {
    exists|i: int|
        0 <= i < ends.len() && #[trigger] other_slot(ball, ends[i].shapeIdA, ends[i].shapeIdB)
            == Some(slot)
}

proof fn touching_adds(
    contacts: Map<i32, u8>,
    ball: b3ShapeId,
    begins: Seq<TouchBegin>,
    slot: i32,
)
    ensures
        touch_all(contacts, ball, begins).contains_key(slot) <==> contacts.contains_key(slot)
            || began(ball, begins, slot),
    decreases begins.len(),
{
    if begins.len() > 0 {
        let rest = begins.drop_last();
        touching_adds(contacts, ball, rest, slot);
        let last = begins.last().event;
        if began(ball, rest, slot) {
            let i = choose|i: int|
                0 <= i < rest.len() && #[trigger] other_slot(
                    ball,
                    rest[i].event.shapeIdA,
                    rest[i].event.shapeIdB,
                ) == Some(slot);
            assert(begins[i] == rest[i]);
            assert(other_slot(ball, begins[i].event.shapeIdA, begins[i].event.shapeIdB) == Some(
                slot,
            ));
        }
        if other_slot(ball, last.shapeIdA, last.shapeIdB) == Some(slot) {
            let i = begins.len() - 1;
            assert(other_slot(ball, begins[i].event.shapeIdA, begins[i].event.shapeIdB) == Some(
                slot,
            ));
        } else if began(ball, begins, slot) {
            let i = choose|i: int|
                0 <= i < begins.len() && #[trigger] other_slot(
                    ball,
                    begins[i].event.shapeIdA,
                    begins[i].event.shapeIdB,
                ) == Some(slot);
            assert(rest[i] == begins[i]);
            assert(other_slot(ball, rest[i].event.shapeIdA, rest[i].event.shapeIdB) == Some(slot));
        }
    }
}

proof fn parting_removes(
    contacts: Map<i32, u8>,
    ball: b3ShapeId,
    ends: Seq<b3ContactEndTouchEvent>,
    slot: i32,
)
    ensures
        untouch_all(contacts, ball, ends).contains_key(slot) <==> contacts.contains_key(slot)
            && !ended(ball, ends, slot),
    decreases ends.len(),
{
    if ends.len() > 0 {
        let rest = ends.drop_last();
        parting_removes(contacts, ball, rest, slot);
        let last = ends.last();
        if ended(ball, rest, slot) {
            let i = choose|i: int|
                0 <= i < rest.len() && #[trigger] other_slot(
                    ball,
                    rest[i].shapeIdA,
                    rest[i].shapeIdB,
                ) == Some(slot);
            assert(ends[i] == rest[i]);
            assert(other_slot(ball, ends[i].shapeIdA, ends[i].shapeIdB) == Some(slot));
        }
        if other_slot(ball, last.shapeIdA, last.shapeIdB) == Some(slot) {
            let i = ends.len() - 1;
            assert(other_slot(ball, ends[i].shapeIdA, ends[i].shapeIdB) == Some(slot));
        } else if ended(ball, ends, slot) {
            let i = choose|i: int|
                0 <= i < ends.len() && #[trigger] other_slot(
                    ball,
                    ends[i].shapeIdA,
                    ends[i].shapeIdB,
                ) == Some(slot);
            assert(rest[i] == ends[i]);
            assert(other_slot(ball, rest[i].shapeIdA, rest[i].shapeIdB) == Some(slot));
        }
    }
}

/// The ball is taken to touch exactly what it touches: after a step, what it touched before,
/// unless it fell, and what it began to touch, without what it ceased to touch.
pub proof fn contacts_follow_the_events(w: WorldView, r: StepReport, slot: i32)
    ensures
        w.contacts_after(r).contains_key(slot) <==> {
            &&& !ended(w.ids.ball_shape, r.ends@, slot)
            &&& began(w.ids.ball_shape, r.begins@, slot) || (!fallen(r.player)
                && w.contacts.contains_key(slot))
        },
{
    let kept = if fallen(r.player) {
        Map::empty()
    } else {
        w.contacts
    };
    touching_adds(kept, w.ids.ball_shape, r.begins@, slot);
    parting_removes(
        touch_all(kept, w.ids.ball_shape, r.begins@),
        w.ids.ball_shape,
        r.ends@,
        slot,
    );
}

/// Stepping drops, loses and reorders no ball, and moves no spawn.
pub proof fn a_step_keeps_the_balls(w: WorldView, input: InputView, r: StepReport)
    ensures
        w.stepped(input, r).drops.len() == w.drops.len(),
        w.stepped(input, r).ids == w.ids,
        w.stepped(input, r).spawn == w.spawn,
        forall|i: int|
            0 <= i < w.drops.len() ==> #[trigger] w.stepped(input, r).drops[i].body
                == w.drops[i].body && w.stepped(input, r).drops[i].spawn == w.drops[i].spawn,
{
}

/// No number of drops passes the cap, and a refused drop changes nothing.
pub proof fn drops_stop_at_the_cap(w: WorldView, body: b3BodyId, x: i64, z: i64)
    requires
        w.drops.len() <= MAX_BALLS,
    ensures
        w.dropped(body, x, z).drops.len() <= MAX_BALLS,
        w.drops.len() == MAX_BALLS ==> w.dropped(body, x, z) == w,
        w.drops.len() < MAX_BALLS ==> w.dropped(body, x, z).drops.len() == w.drops.len() + 1,
        MAX_BALLS == 200,
        forall|i: int|
            0 <= i < w.drops.len() ==> #[trigger] w.dropped(body, x, z).drops[i] == w.drops[i],
{
}

/// A ball is dropped over the point it was dropped at, from as high above the player's authored
/// place as the player's ball starts, and it starts at rest there.
pub proof fn balls_start_where_they_are_dropped(
    ids: WorldIds,
    radius: i64,
    authored: [i64; 3],
    body: b3BodyId,
    x: i64,
    z: i64,
)
    ensures
        ({
            let w = new_world(ids, radius, authored);
            let ball = w.dropped(body, x, z).drops[0];
            &&& ball.spawn@[0] == x && ball.spawn@[2] == z && ball.spawn@[1] == w.spawn@[1]
            &&& w.spawn@[0] == authored@[0] && w.spawn@[2] == authored@[2]
            &&& authored@[1] + DROP_HEIGHT <= i64::MAX ==> w.spawn@[1] == authored@[1] + DROP_HEIGHT
            &&& ball.prev == Stance::Start(ball.spawn) && ball.curr == ball.prev
            &&& w.player_prev == Stance::Start(w.spawn) && w.player_curr == w.player_prev
        }),
{
}

/// An impact's loudness lies between the softest and full, grows with the approach speed,
/// and is full from `full` on.
pub proof fn intensity_is_bounded_and_monotone(slow: int, fast: int, full: int)
    requires
        slow <= fast,
        0 < full,
    ensures
        MIN_INTENSITY <= intensity_of(slow, full) <= 1_000_000,
        intensity_of(slow, full) <= intensity_of(fast, full),
        fast >= full ==> intensity_of(fast, full) == 1_000_000,
{
    let (a, b) = (slow * 1_000_000, fast * 1_000_000);
    vstd::arithmetic::div_mod::lemma_div_is_ordered(2 * a + full, 2 * b + full, 2 * full);
    if fast >= full {
        let n = 1_000_000 * (2 * full);
        vstd::arithmetic::div_mod::lemma_div_is_ordered(n, 2 * b + full, 2 * full);
        vstd::arithmetic::div_mod::lemma_div_multiples_vanish(1_000_000, 2 * full);
        assert(n == 2 * full * 1_000_000);
    }
}

/// The rolling loudness is a fraction, silent in the air and at rest, full at top speed.
pub proof fn rolling_is_bounded(on_ground: bool, speed: int)
    ensures
        0 <= roll_speed(on_ground, speed) <= 1_000_000,
        !on_ground ==> roll_speed(on_ground, speed) == 0,
        roll_speed(on_ground, 0) == 0,
        on_ground && speed >= MAX_SPEED ==> roll_speed(on_ground, speed) == 1_000_000,
{
    assert(crate::units::div_round(speed * 1_000_000, 6_000_000) == (2 * (speed * 1_000_000)
        + 6_000_000) / 12_000_000);
    assert((2 * (0int * 1_000_000) + 6_000_000) / 12_000_000 == 0);
}

/// Among any [`ROLL_EVERY`] consecutive steps exactly one brings a rolling cue, until the
/// step counter starts over.
pub proof fn rolling_cues_are_evenly_spaced(tick: u32) -> (j: int)
    requires
        tick + ROLL_EVERY <= u32::MAX,
    ensures
        1 <= j <= ROLL_EVERY,
        (tick + j) % ROLL_EVERY as int == 0,
        forall|k: int|
            1 <= k <= ROLL_EVERY && #[trigger] ((tick + k) % ROLL_EVERY as int) == 0 ==> k == j,
{
    assert(ROLL_EVERY == 12);
    let j = 12 - tick as int % 12;
    assert((tick + j) % 12 == 0);
    assert forall|k: int|
        1 <= k <= ROLL_EVERY && #[trigger] ((tick + k) % ROLL_EVERY as int) == 0 implies k == j by {
        assert((tick + k) % 12 == 0);
    }
    j
}

/// The kind of impact a cue voices.
pub open spec fn kind_of(cue: AudioMsg) -> Option<Surface> {
    match cue {
        AudioMsg::Roll { .. } => None,
        AudioMsg::WallHit { .. } => Some(Surface::Wall),
        AudioMsg::Land { .. } => Some(Surface::Floor),
        AudioMsg::BallClack { .. } => Some(Surface::Ball),
    }
}

/// How many cues voice this kind of impact.
pub open spec fn count_kind(cues: Seq<AudioMsg>, s: Surface) -> nat
    decreases cues.len(),
{
    if cues.len() == 0 {
        0
    } else {
        count_kind(cues.drop_last(), s) + (if kind_of(cues.last()) == Some(s) {
            1nat
        } else {
            0nat
        })
    }
}

/// Whether some hit is of this kind.
pub open spec fn any_of_kind(hits: Seq<HitEvent>, s: Surface) -> bool {
    exists|i: int| 0 <= i < hits.len() && #[trigger] surface_of(hits[i].role_a, hits[i].role_b) == s
}

/// In one step each kind of impact sounds once if one occurred and its own debounce allows,
/// and not at all otherwise. So a rail knock and a clack in the same instant both sound, and
/// no number of hits makes either sound twice.
pub proof fn each_kind_sounds_on_its_own(
    d: Debounce,
    tick: u32,
    hits: Seq<HitEvent>,
    s: Surface,
)
    ensures
        count_kind(hit_cues(d, tick, hits), s) == (if d.ready(s, tick) && any_of_kind(hits, s) {
            1nat
        } else {
            0nat
        }),
        after_hits(d, tick, hits).last(s) == (if d.ready(s, tick) && any_of_kind(hits, s) {
            tick
        } else {
            d.last(s)
        }),
    decreases hits.len(),
{
    if hits.len() == 0 {
    } else {
        let rest = hits.drop_last();
        each_kind_sounds_on_its_own(d, tick, rest, s);
        let h = hits.last();
        let kind = surface_of(h.role_a, h.role_b);
        let before = after_hits(d, tick, rest);
        if any_of_kind(rest, s) {
            let i = choose|i: int|
                0 <= i < rest.len() && #[trigger] surface_of(rest[i].role_a, rest[i].role_b) == s;
            assert(hits[i] == rest[i]);
            assert(surface_of(hits[i].role_a, hits[i].role_b) == s);
            assert(any_of_kind(hits, s));
        }
        if kind == s {
            assert(surface_of(hits[hits.len() - 1].role_a, hits[hits.len() - 1].role_b) == s);
            assert(any_of_kind(hits, s));
        } else if any_of_kind(hits, s) {
            let i = choose|i: int|
                0 <= i < hits.len() && #[trigger] surface_of(hits[i].role_a, hits[i].role_b) == s;
            assert(rest[i] == hits[i]);
            assert(any_of_kind(rest, s));
        }
        if hit_sounds(before, tick, h) {
            let cues = hit_cues(d, tick, rest);
            assert(cues.push(hit_cue(h)).drop_last() =~= cues);
            assert(kind_of(hit_cue(h)) == Some(kind));
        }
    }
}

/// The step counter after `n` steps.
pub open spec fn tick_after(tick: u32, n: nat) -> u32
    decreases n,
{
    if n == 0 {
        tick
    } else {
        next_tick(tick_after(tick, (n - 1) as nat))
    }
}

proof fn tick_after_value(tick: u32, n: nat)
    ensures
        tick_after(tick, n) == (tick + n) % 0x1_0000_0000,
    decreases n,
{
    if n > 0 {
        tick_after_value(tick, (n - 1) as nat);
        crate::units::counting_starts_over(tick + n - 1);
    }
}

proof fn ticks_apart(tick: u32, a: nat, b: nat)
    requires
        a <= b < a + 0x1_0000_0000,
    ensures
        ticks_since(tick_after(tick, a), tick_after(tick, b)) == b - a,
{
    tick_after_value(tick, a);
    tick_after_value(tick, b);
    let (x, y) = ((tick + a) % 0x1_0000_0000, (tick + b) % 0x1_0000_0000);
    assert(y - x == b - a || y - x == b - a - 0x1_0000_0000);
}

/// The debounce state after some steps, each with its hits.
pub open spec fn debounce_after(d: Debounce, tick: u32, steps: Seq<Seq<HitEvent>>) -> Debounce
    decreases steps.len(),
{
    if steps.len() == 0 {
        d
    } else {
        after_hits(
            debounce_after(d, tick, steps.drop_last()),
            tick_after(tick, steps.len()),
            steps.last(),
        )
    }
}

/// Whether a kind of impact sounds at step `i`.
pub open spec fn sounds_at(
    d: Debounce,
    tick: u32,
    steps: Seq<Seq<HitEvent>>,
    i: int,
    s: Surface,
) -> bool {
    count_kind(
        hit_cues(debounce_after(d, tick, steps.take(i)), tick_after(tick, (i + 1) as nat), steps[i]),
        s,
    ) > 0
}

/// The latest step from `i` on and before `m` at which the kind sounded.
proof fn latest_sound(
    d: Debounce,
    tick: u32,
    steps: Seq<Seq<HitEvent>>,
    i: int,
    m: int,
    s: Surface,
) -> (e: int)
    requires
        0 <= i < m <= steps.len(),
        sounds_at(d, tick, steps, i, s),
    ensures
        i <= e < m,
        debounce_after(d, tick, steps.take(m)).last(s) == tick_after(tick, (e + 1) as nat),
    decreases m - i,
{
    let before = debounce_after(d, tick, steps.take(m - 1));
    let t = tick_after(tick, m as nat);
    assert(steps.take(m).drop_last() =~= steps.take(m - 1));
    each_kind_sounds_on_its_own(before, t, steps[m - 1], s);
    if m == i + 1 {
        i
    } else {
        let e = latest_sound(d, tick, steps, i, m - 1, s);
        if before.ready(s, t) && any_of_kind(steps[m - 1], s) {
            m - 1
        } else {
            e
        }
    }
}

/// Impacts of one kind never machine-gun: two steps at which the same kind sounds are at
/// least [`IMPACT_COOLDOWN`] steps apart, whatever was hit in between. (The step counter
/// repeats after 2^32 steps; the law is about shorter stretches.)
pub proof fn impacts_are_spaced(
    d: Debounce,
    tick: u32,
    steps: Seq<Seq<HitEvent>>,
    i: int,
    j: int,
    s: Surface,
)
    requires
        0 <= i < j < steps.len(),
        j - i < 0x1_0000_0000,
        sounds_at(d, tick, steps, i, s),
        sounds_at(d, tick, steps, j, s),
    ensures
        j - i >= IMPACT_COOLDOWN,
{
    let e = latest_sound(d, tick, steps, i, j, s);
    let before = debounce_after(d, tick, steps.take(j));
    let now = tick_after(tick, (j + 1) as nat);
    each_kind_sounds_on_its_own(before, now, steps[j], s);
    ticks_apart(tick, (e + 1) as nat, (j + 1) as nat);
    assert(ticks_since(before.last(s), now) == j - e);
}

// ---------------------------------------------------------------------------------------
// Keys

/// Each direction key, held alone, pushes its own way: left and right along x, forward away from
/// the camera and back towards it. Opposite keys held together push neither way, and the keys of
/// one axis never change the other.
pub proof fn keys_push_their_own_way(w: WorldView, input: InputView, other: InputView)
    ensures
        input.held == HELD_LEFT ==> w.actions(input).dir_x == -1 && w.actions(input).dir_z == 0,
        input.held == HELD_RIGHT ==> w.actions(input).dir_x == 1 && w.actions(input).dir_z == 0,
        input.held == HELD_FORWARD ==> w.actions(input).dir_x == 0 && w.actions(input).dir_z == -1,
        input.held == HELD_BACK ==> w.actions(input).dir_x == 0 && w.actions(input).dir_z == 1,
        (input.held & HELD_LEFT == 0) == (input.held & HELD_RIGHT == 0) ==> w.actions(input).dir_x
            == 0,
        (input.held & HELD_FORWARD == 0) == (input.held & HELD_BACK == 0) ==> w.actions(input).dir_z
            == 0,
        input.held & HELD_LEFT != 0 && input.held & HELD_RIGHT == 0 ==> w.actions(input).dir_x
            == -1,
        input.held & HELD_RIGHT != 0 && input.held & HELD_LEFT == 0 ==> w.actions(input).dir_x == 1,
        input.held & HELD_FORWARD != 0 && input.held & HELD_BACK == 0 ==> w.actions(input).dir_z
            == -1,
        input.held & HELD_BACK != 0 && input.held & HELD_FORWARD == 0 ==> w.actions(input).dir_z
            == 1,
        input.held & HELD_LEFT == other.held & HELD_LEFT && input.held & HELD_RIGHT == other.held
            & HELD_RIGHT ==> w.actions(input).dir_x == w.actions(other).dir_x,
        input.held & HELD_FORWARD == other.held & HELD_FORWARD && input.held & HELD_BACK
            == other.held & HELD_BACK ==> w.actions(input).dir_z == w.actions(other).dir_z,
{
    assert(4u32 & 4u32 != 0 && 4u32 & 8u32 == 0 && 4u32 & 1u32 == 0 && 4u32 & 2u32 == 0 && 8u32
        & 8u32 != 0 && 8u32 & 4u32 == 0 && 8u32 & 1u32 == 0 && 8u32 & 2u32 == 0 && 1u32 & 1u32 != 0
        && 1u32 & 2u32 == 0 && 1u32 & 4u32 == 0 && 1u32 & 8u32 == 0 && 2u32 & 2u32 != 0 && 2u32
        & 1u32 == 0 && 2u32 & 4u32 == 0 && 2u32 & 8u32 == 0) by (bit_vector);
}

/// The ball is pushed by the keys that are down now, jumps where one more press came than it was
/// told of, and is thrown at the velocity of the latest fling it was not told of.
pub proof fn actions_come_from_the_input(w: WorldView, input: InputView)
    ensures
        w.actions(input).jump <==> input.jump_seq != w.last_jump_seq,
        input.fling_seq == w.last_fling_seq ==> w.actions(input).fling is None,
        input.fling_seq != w.last_fling_seq ==> w.actions(input).fling == Some(
            (input.fling.0, input.fling.1),
        ),
        -1 <= w.actions(input).dir_x <= 1,
        -1 <= w.actions(input).dir_z <= 1,
{
}

// ---------------------------------------------------------------------------------------
// Impacts

/// A rail was hit.
pub open spec fn rail(h: HitEvent) -> bool {
    h.role_a == ROLE_WALL || h.role_b == ROLE_WALL
}

/// The table was hit, and no rail.
pub open spec fn felt(h: HitEvent) -> bool {
    !rail(h) && (h.role_a == ROLE_FLOOR || h.role_b == ROLE_FLOOR)
}

/// Two hits are voiced alike.
pub open spec fn alike(a: HitEvent, b: HitEvent) -> bool {
    rail(a) == rail(b) && felt(a) == felt(b)
}

/// A loudness is what an approach speed has of `full`, to the nearest millionth: never below
/// 0.12, and one from `full` on.
pub open spec fn as_loud(intensity: i64, speed: i64, full: int) -> bool {
    &&& 120_000 <= intensity <= 1_000_000
    &&& speed >= full ==> intensity == 1_000_000
    &&& speed * 1_000_000 <= full * 120_000 ==> intensity == 120_000
    &&& full * 120_000 <= speed * 1_000_000 <= full * 1_000_000 ==> -full <= 2 * (intensity * full
        - speed * 1_000_000) <= full
}

/// A cue is that of a hit: of its kind, from its point, each coordinate in its own place, and as
/// loud as it was fast.
pub open spec fn voices(cue: AudioMsg, h: HitEvent) -> bool {
    match cue {
        AudioMsg::WallHit { x, y, z, intensity } => rail(h) && x == h.point@[0] && y == h.point@[1]
            && z == h.point@[2] && as_loud(intensity, h.approach_speed, 6_000_000),
        AudioMsg::Land { x, y, z, intensity } => felt(h) && x == h.point@[0] && y == h.point@[1]
            && z == h.point@[2] && as_loud(intensity, h.approach_speed, 6_500_000),
        AudioMsg::BallClack { x, y, z, intensity } => !rail(h) && !felt(h) && x == h.point@[0] && y
            == h.point@[1] && z == h.point@[2] && as_loud(intensity, h.approach_speed, 6_000_000),
        AudioMsg::Roll { .. } => false,
    }
}

/// At least 31 steps have passed, at this one, since the last hit that was voiced as this one
/// would be.
pub open spec fn rested(d: Debounce, tick: int, h: HitEvent) -> bool {
    let last = if rail(h) {
        d.wall
    } else if felt(h) {
        d.land
    } else {
        d.clack
    };
    (tick - last) % 0x1_0000_0000 >= 31
}

/// No hit before this one is voiced as it is.
pub open spec fn first_alike(hits: Seq<HitEvent>, j: int) -> bool {
    forall|i: int| 0 <= i < j ==> !alike(#[trigger] hits[i], hits[j])
}

/// An impact's loudness is its approach speed as a share of full speed, to the nearest millionth,
/// between 0.12 and one.
pub proof fn loudness_is_nearest(speed: i64, full: int)
    requires
        0 < full,
    ensures
        as_loud(intensity_of(speed as int, full) as i64, speed, full),
{
    let n = speed * 1_000_000;
    let q = crate::units::div_round(n, full);
    crate::units::div_round_is_nearest(n, full);
    intensity_is_bounded_and_monotone(speed as int, speed as int, full);
    if n <= full * 120_000 {
        assert(q <= 120_000) by (nonlinear_arith)
            requires
                -full <= 2 * (q * full - n) <= full,
                n <= full * 120_000,
                0 < full,
        ;
    }
    if full * 120_000 <= n <= full * 1_000_000 {
        assert(120_000 <= q <= 1_000_000) by (nonlinear_arith)
            requires
                -full <= 2 * (q * full - n) <= full,
                full * 120_000 <= n <= full * 1_000_000,
                0 < full,
        ;
    }
}

proof fn a_cue_is_its_hits(h: HitEvent)
    ensures
        voices(hit_cue(h), h),
{
    loudness_is_nearest(h.approach_speed, 6_000_000);
    loudness_is_nearest(h.approach_speed, 6_500_000);
}

proof fn cues_follow_the_hits(d: Debounce, tick: u32, hits: Seq<HitEvent>) -> (at: Seq<int>)
    ensures
        at.len() == hit_cues(d, tick, hits).len(),
        forall|k: int| 0 <= k < at.len() ==> 0 <= #[trigger] at[k] < hits.len(),
        forall|k: int, l: int| 0 <= k < l < at.len() ==> #[trigger] at[k] < #[trigger] at[l],
        forall|j: int|
            0 <= j < hits.len() ==> (#[trigger] at.contains(j) <==> rested(d, tick as int, hits[j])
                && first_alike(hits, j)),
        forall|k: int|
            0 <= k < at.len() ==> voices(hit_cues(d, tick, hits)[k], hits[#[trigger] at[k]]),
    decreases hits.len(),
{
    if hits.len() == 0 {
        assert(hit_cues(d, tick, hits) =~= seq![]);
        seq![]
    } else {
        let (rest, last) = (hits.drop_last(), hits.len() - 1);
        let h = hits[last];
        let s = surface_of(h.role_a, h.role_b);
        let front = cues_follow_the_hits(d, tick, rest);
        each_kind_sounds_on_its_own(d, tick, rest, s);
        a_cue_is_its_hits(h);
        let sounds = hit_sounds(after_hits(d, tick, rest), tick, h);
        assert(d.ready(s, tick) == rested(d, tick as int, h));
        assert(any_of_kind(rest, s) == !first_alike(hits, last)) by {
            if any_of_kind(rest, s) {
                let i = choose|i: int|
                    0 <= i < rest.len() && #[trigger] surface_of(rest[i].role_a, rest[i].role_b)
                        == s;
                assert(alike(hits[i], h));
            }
            if !first_alike(hits, last) {
                let i = choose|i: int| 0 <= i < last && alike(#[trigger] hits[i], hits[last]);
                assert(rest[i] == hits[i]);
                assert(surface_of(rest[i].role_a, rest[i].role_b) == s);
            }
        }
        assert(sounds <==> rested(d, tick as int, h) && first_alike(hits, last));
        let at = if sounds {
            front.push(last)
        } else {
            front
        };
        assert forall|j: int| 0 <= j < hits.len() implies (#[trigger] at.contains(j) <==> rested(
            d,
            tick as int,
            hits[j],
        ) && first_alike(hits, j)) by {
            if j < last {
                assert(rest[j] == hits[j]);
                assert(first_alike(rest, j) == first_alike(hits, j)) by {
                    if first_alike(rest, j) {
                        assert forall|i: int| 0 <= i < j implies !alike(
                            #[trigger] hits[i],
                            hits[j],
                        ) by {
                            assert(!alike(rest[i], rest[j]));
                        }
                    }
                    if first_alike(hits, j) {
                        assert forall|i: int| 0 <= i < j implies !alike(
                            #[trigger] rest[i],
                            rest[j],
                        ) by {
                            assert(!alike(hits[i], hits[j]));
                        }
                    }
                }
                assert(front.contains(j) <==> rested(d, tick as int, rest[j]) && first_alike(
                    rest,
                    j,
                ));
                if front.contains(j) {
                    let k = choose|k: int| 0 <= k < front.len() && front[k] == j;
                    assert(at[k] == j);
                }
                if at.contains(j) {
                    let k = choose|k: int| 0 <= k < at.len() && at[k] == j;
                    assert(front[k] == j);
                }
            } else {
                if at.contains(last) {
                    let k = choose|k: int| 0 <= k < at.len() && at[k] == last;
                    if k < front.len() {
                        assert(front[k] < rest.len());
                    }
                }
                if sounds {
                    assert(at[front.len() as int] == last);
                }
            }
        }
        assert forall|k: int| 0 <= k < at.len() implies voices(
            hit_cues(d, tick, hits)[k],
            hits[#[trigger] at[k]],
        ) by {
            if k < front.len() {
                assert(voices(hit_cues(d, tick, rest)[k], rest[front[k]]));
                assert(rest[front[k]] == hits[front[k]]);
                assert(hit_cues(d, tick, hits)[k] == hit_cues(d, tick, rest)[k]);
            }
        }
        at
    }
}

/// An impact sounds from where it happened, as what was hit, and as loud as it was fast: the cues
/// of a step are those of its hits, in order, and at most a rolling cue after them. Of each kind
/// the first hit of a step sounds, and it does where the kind has rested for 31 steps.
pub proof fn impacts_sound_from_where_they_happened(w: WorldView, r: StepReport) -> (at: Seq<int>)
    ensures
        at.len() <= w.cues_of(r).len() <= at.len() + 1,
        forall|k: int| 0 <= k < at.len() ==> 0 <= #[trigger] at[k] < r.hits@.len(),
        forall|k: int, l: int| 0 <= k < l < at.len() ==> #[trigger] at[k] < #[trigger] at[l],
        forall|j: int|
            0 <= j < r.hits@.len() ==> (#[trigger] at.contains(j) <==> rested(
                w.debounce,
                w.tick + 1,
                r.hits@[j],
            ) && first_alike(r.hits@, j)),
        forall|k: int|
            0 <= k < at.len() ==> voices(#[trigger] w.cues_of(r)[k], r.hits@[at[k]]),
        forall|k: int| at.len() <= k < w.cues_of(r).len() ==> #[trigger] w.cues_of(r)[k] is Roll,
{
    let tick = next_tick(w.tick);
    let at = cues_follow_the_hits(w.debounce, tick, r.hits@);
    let cues = hit_cues(w.debounce, tick, r.hits@);
    assert forall|j: int| 0 <= j < r.hits@.len() implies rested(
        w.debounce,
        tick as int,
        #[trigger] r.hits@[j],
    ) == rested(w.debounce, w.tick + 1, r.hits@[j]) by {}
    assert forall|k: int| 0 <= k < at.len() implies voices(
        #[trigger] w.cues_of(r)[k],
        r.hits@[at[k]],
    ) by {
        assert(w.cues_of(r)[k] == cues[k]);
        assert(voices(cues[k], r.hits@[at[k]]));
    }
    at
}

/// Every impact cue of a step has the place of a hit of its kind: x, y and z of the cue are the
/// first, second and third coordinate of the point of a hit of the step that is voiced so.
pub proof fn every_impact_cue_has_its_hit(w: WorldView, r: StepReport, k: int) -> (j: int)
    requires
        0 <= k < w.cues_of(r).len(),
        !(w.cues_of(r)[k] is Roll),
    ensures
        0 <= j < r.hits@.len(),
        voices(w.cues_of(r)[k], r.hits@[j]),
{
    let at = impacts_sound_from_where_they_happened(w, r);
    assert(k < at.len());
    at[k]
}

// ---------------------------------------------------------------------------------------
// Rolling

/// A rolling loudness is what a speed has of six metres per second, to the nearest millionth: none
/// below a twenty-fifth of that, and one from it on.
pub open spec fn as_rolling(loudness: i64, speed: i64) -> bool {
    &&& speed < 240_000 ==> loudness == 0
    &&& speed >= 6_000_000 ==> loudness == 1_000_000
    &&& 240_000 <= speed <= 6_000_000 ==> -6_000_000 <= 2 * (loudness * 6_000_000 - speed
        * 1_000_000) <= 6_000_000
}

/// Rolling is cued on every twelfth step, last, and from where the ball is: in each coordinate the
/// place of the pose the step left it in, or where it starts from once it has fallen. It is
/// silent after a fall and while the ball touches nothing but rails, and else as loud as the ball
/// is fast.
pub proof fn rolling_is_cued_from_where_the_ball_is(w: WorldView, r: StepReport)
    ensures
        ((w.tick + 1) % 0x1_0000_0000) % 12 != 0 ==> forall|k: int|
            0 <= k < w.cues_of(r).len() ==> !(#[trigger] w.cues_of(r)[k] is Roll),
        ((w.tick + 1) % 0x1_0000_0000) % 12 == 0 ==> w.cues_of(r).len() > 0 && (w.cues_of(
            r,
        ).last() matches AudioMsg::Roll { speed, x, y, z } && {
            let p = r.player.position@;
            let fell = micros_of(number(p[1])) < -2_000_000;
            let afloat = forall|slot: i32|
                w.contacts_after(r).contains_key(slot) ==> #[trigger] w.contacts_after(r)[slot]
                    == ROLE_WALL;
            &&& fell ==> x == w.spawn@[0] && y == w.spawn@[1] && z == w.spawn@[2] && speed == 0
            &&& !fell ==> x == micros_of(number(p[0])) && y == micros_of(number(p[1])) && z
                == micros_of(number(p[2]))
            &&& afloat ==> speed == 0
            &&& !fell && !afloat ==> as_rolling(speed, r.horizontal_speed)
        }),
{
    let tick = next_tick(w.tick);
    assert(tick == (w.tick + 1) % 0x1_0000_0000);
    let cues = hit_cues(w.debounce, tick, r.hits@);
    let at = cues_follow_the_hits(w.debounce, tick, r.hits@);
    assert(ROLL_EVERY == 12);
    let touched = w.contacts_after(r);
    if tick as int % 12 != 0 {
        assert forall|k: int| 0 <= k < w.cues_of(r).len() implies !(#[trigger] w.cues_of(
            r,
        )[k] is Roll) by {
            assert(w.cues_of(r)[k] == cues[k]);
            assert(voices(cues[k], r.hits@[at[k]]));
        }
    } else {
        assert(w.cues_of(r).last() is Roll);
        let afloat = forall|slot: i32|
            touched.contains_key(slot) ==> #[trigger] touched[slot] == ROLE_WALL;
        if !afloat {
            let slot = choose|slot: i32|
                touched.contains_key(slot) && #[trigger] touched[slot] != ROLE_WALL;
            assert(touched.contains_key(slot));
            assert(grounded(touched));
        } else if grounded(touched) {
            let slot = choose|slot: i32|
                #[trigger] touched.contains_key(slot) && touched[slot] != ROLE_WALL;
            assert(touched[slot] == ROLE_WALL);
        }
        rolling_loudness_is_nearest(grounded(touched), r.horizontal_speed);
        rolling_loudness_is_nearest(grounded(touched), 0);
    }
}

/// A ball on the ground rolls as loud as it is fast, and one in the air is silent.
pub proof fn rolling_loudness_is_nearest(on_ground: bool, speed: i64)
    ensures
        on_ground ==> as_rolling(roll_speed(on_ground, speed as int) as i64, speed),
        !on_ground ==> roll_speed(on_ground, speed as int) == 0,
        speed == 0 ==> roll_speed(on_ground, speed as int) == 0,
{
    let n = speed * 1_000_000;
    crate::units::div_round_is_nearest(n, 6_000_000);
    assert(ROLL_FLOOR * MAX_SPEED == 240_000_000_000) by {
        let (floor, max) = (ROLL_FLOOR, MAX_SPEED);
        assert(floor * max == 240_000_000_000) by (nonlinear_arith)
            requires
                floor == 40_000,
                max == 6_000_000,
        ;
    }
}

// ---------------------------------------------------------------------------------------
// Contacts

/// The role that a touch brings the ball: that of the other shape.
pub open spec fn other_role(ball: b3ShapeId, t: TouchBegin) -> u8 {
    if t.event.shapeIdA == ball {
        t.role_b
    } else {
        t.role_a
    }
}

/// What the ball touches counts as what it is: the shape of a touch that began in the step, by
/// the latest such touch, has the other shape's role, and every other the role it had.
pub proof fn contacts_have_the_other_shapes_roles(w: WorldView, r: StepReport, slot: i32, i: int)
    requires
        w.contacts_after(r).contains_key(slot),
        -1 <= i < r.begins@.len(),
        0 <= i ==> other_slot(
            w.ids.ball_shape,
            r.begins@[i].event.shapeIdA,
            r.begins@[i].event.shapeIdB,
        ) == Some(slot),
        forall|j: int|
            i < j < r.begins@.len() ==> #[trigger] other_slot(
                w.ids.ball_shape,
                r.begins@[j].event.shapeIdA,
                r.begins@[j].event.shapeIdB,
            ) != Some(slot),
    ensures
        w.contacts_after(r)[slot] == (if i < 0 {
            w.contacts[slot]
        } else {
            other_role(w.ids.ball_shape, r.begins@[i])
        }),
{
    let ball = w.ids.ball_shape;
    let kept = if fallen(r.player) {
        Map::empty()
    } else {
        w.contacts
    };
    let touched = touch_all(kept, ball, r.begins@);
    parting_keeps_roles(touched, ball, r.ends@, slot);
    parting_removes(touched, ball, r.ends@, slot);
    touching_gives_roles(kept, ball, r.begins@, slot, i);
    touching_adds(kept, ball, r.begins@, slot);
    if i < 0 && began(ball, r.begins@, slot) {
        let j = choose|j: int|
            0 <= j < r.begins@.len() && #[trigger] other_slot(
                ball,
                r.begins@[j].event.shapeIdA,
                r.begins@[j].event.shapeIdB,
            ) == Some(slot);
        assert(false);
    }
}

proof fn touching_gives_roles(
    contacts: Map<i32, u8>,
    ball: b3ShapeId,
    begins: Seq<TouchBegin>,
    slot: i32,
    i: int,
)
    requires
        -1 <= i < begins.len(),
        0 <= i ==> other_slot(ball, begins[i].event.shapeIdA, begins[i].event.shapeIdB) == Some(
            slot,
        ),
        forall|j: int|
            i < j < begins.len() ==> #[trigger] other_slot(
                ball,
                begins[j].event.shapeIdA,
                begins[j].event.shapeIdB,
            ) != Some(slot),
    ensures
        0 <= i ==> touch_all(contacts, ball, begins)[slot] == other_role(ball, begins[i]),
        i < 0 && contacts.contains_key(slot) ==> touch_all(contacts, ball, begins)[slot]
            == contacts[slot],
    decreases begins.len(),
{
    if begins.len() > 0 && i < begins.len() - 1 {
        let rest = begins.drop_last();
        let last = begins.len() - 1;
        assert(other_slot(ball, begins[last].event.shapeIdA, begins[last].event.shapeIdB) != Some(
            slot,
        ));
        assert forall|j: int| i < j < rest.len() implies #[trigger] other_slot(
            ball,
            rest[j].event.shapeIdA,
            rest[j].event.shapeIdB,
        ) != Some(slot) by {
            assert(rest[j] == begins[j]);
            assert(other_slot(ball, begins[j].event.shapeIdA, begins[j].event.shapeIdB) != Some(
                slot,
            ));
        }
        touching_gives_roles(contacts, ball, rest, slot, i);
    }
}

proof fn parting_keeps_roles(
    contacts: Map<i32, u8>,
    ball: b3ShapeId,
    ends: Seq<b3ContactEndTouchEvent>,
    slot: i32,
)
    ensures
        untouch_all(contacts, ball, ends).contains_key(slot) ==> untouch_all(contacts, ball, ends)[slot]
            == contacts[slot],
    decreases ends.len(),
{
    if ends.len() > 0 {
        parting_keeps_roles(contacts, ball, ends.drop_last(), slot);
    }
}

// ---------------------------------------------------------------------------------------
// Places

/// A pose is where its position says, coordinate by coordinate, and a ball has left the table once
/// it is more than two metres below the origin.
pub proof fn poses_are_where_they_say(pose: Pose)
    ensures
        place_of(pose)@[0] == micros_of(number(pose.position@[0])),
        place_of(pose)@[1] == micros_of(number(pose.position@[1])),
        place_of(pose)@[2] == micros_of(number(pose.position@[2])),
        fallen(pose) <==> micros_of(number(pose.position@[1])) < -2_000_000,
{
}

/// A ball is put back where it came from: the player's at its start, a dropped one where it was
/// dropped, and then that is where it stands.
pub proof fn balls_are_put_back_where_they_came_from(body: b3BodyId, spawn: [i64; 3])
    ensures
        put_back(body, spawn).place@[0] == spawn@[0],
        put_back(body, spawn).place@[1] == spawn@[1],
        put_back(body, spawn).place@[2] == spawn@[2],
{
}

/// Whether a height is two metres above another, or as high as heights go.
pub open spec fn raised_by_two(height: i64, from: i64) -> bool {
    &&& from + 2_000_000 <= i64::MAX ==> height == from + 2_000_000
    &&& from + 2_000_000 > i64::MAX ==> height == i64::MAX
}

/// The player's ball starts two metres above its authored place, and a dropped one two metres
/// above the authored height, over the point it is dropped at, behind those dropped before it.
pub proof fn balls_start_two_metres_up(
    w: WorldView,
    ids: WorldIds,
    radius: i64,
    authored: [i64; 3],
    body: b3BodyId,
    x: i64,
    z: i64,
)
    requires
        w.drops.len() < MAX_BALLS,
    ensures
        ({
            let new = new_world(ids, radius, authored);
            let drops = w.dropped(body, x, z).drops;
            let ball = drops[w.drops.len() as int];
            &&& new.spawn@[0] == authored@[0] && raised_by_two(new.spawn@[1], authored@[1])
                && new.spawn@[2] == authored@[2]
            &&& new.player_prev == Stance::Start(new.spawn) && new.player_curr == new.player_prev
            &&& new.base_y == authored@[1] && new.ball_radius == radius && new.ids == ids
            &&& new.drops.len() == 0 && new.contacts == Map::<i32, u8>::empty()
            &&& drops.len() == w.drops.len() + 1
            &&& ball.body == body
            &&& ball.spawn@[0] == x && raised_by_two(ball.spawn@[1], w.base_y) && ball.spawn@[2]
                == z
            &&& ball.prev == Stance::Start(ball.spawn) && ball.curr == Stance::Start(ball.spawn)
        }),
{
}

/// A ball's mass counts as one where it is above zero and finite.
pub proof fn masses_are_positive_and_finite(bits: u32)
    ensures
        positive_finite_bits(bits) <==> bits != 0 && bits < 0x8000_0000 && crate::units::exponent(
            bits,
        ) < 255,
{
}

/// A ball's radius is its collider's, and half a metre where that is no ball.
pub proof fn balls_are_as_large_as_their_collider(shape: ColliderShapeMsg)
    ensures
        shape matches ColliderShapeMsg::Ball { radius } ==> radius_of(shape) == radius,
        !(shape is Ball) ==> radius_of(shape) == 500_000,
{
}

/// Every collider that does not move becomes a fixed body, in order, and no other does.
pub proof fn fixed_colliders_are_those_that_do_not_move(colliders: Seq<ColliderInit>)
    ensures
        forall|k: int|
            0 <= k < static_positions(colliders).len() ==> 0 <= #[trigger] static_positions(
                colliders,
            )[k] < colliders.len() && !colliders[static_positions(colliders)[k]].dynamic,
        forall|k: int, l: int|
            0 <= k < l < static_positions(colliders).len() ==> #[trigger] static_positions(
                colliders,
            )[k] < #[trigger] static_positions(colliders)[l],
        forall|i: int|
            0 <= i < colliders.len() && !(#[trigger] colliders[i]).dynamic ==> static_positions(
                colliders,
            ).contains(i),
    decreases colliders.len(),
{
    if colliders.len() > 0 {
        let (rest, last) = (colliders.drop_last(), colliders.len() - 1);
        fixed_colliders_are_those_that_do_not_move(rest);
        let (before, all) = (static_positions(rest), static_positions(colliders));
        assert forall|k: int| 0 <= k < all.len() implies 0 <= #[trigger] all[k] < colliders.len()
            && !colliders[all[k]].dynamic by {
            if k < before.len() {
                assert(all[k] == before[k]);
                assert(rest[before[k]] == colliders[before[k]]);
            }
        }
        assert forall|k: int, l: int| 0 <= k < l < all.len() implies #[trigger] all[k]
            < #[trigger] all[l] by {
            assert(all[k] == before[k]);
            if l < before.len() {
                assert(all[l] == before[l]);
            }
        }
        assert forall|i: int|
            0 <= i < colliders.len() && !(#[trigger] colliders[i]).dynamic implies all.contains(
            i,
        ) by {
            if i < last {
                assert(rest[i] == colliders[i]);
                let k = choose|k: int| 0 <= k < before.len() && before[k] == i;
                assert(all[k] == i);
            } else {
                assert(all[all.len() - 1] == last);
            }
        }
    }
}

/// A step counts once, notes the presses it was told of, and keeps what a step does not touch.
pub proof fn a_step_counts_once(w: WorldView, input: InputView, r: StepReport)
    ensures
        w.stepped(input, r).tick == (w.tick + 1) % 0x1_0000_0000,
        w.stepped(input, r).last_jump_seq == input.jump_seq,
        w.stepped(input, r).last_fling_seq == input.fling_seq,
        w.stepped(input, r).ball_radius == w.ball_radius,
        w.stepped(input, r).base_y == w.base_y,
{
}

/// A ball is put back where it has left the table, and only there: the player's to its start, a
/// dropped one to where it was dropped, its own body each time, unturned and at rest.
pub proof fn only_fallen_balls_are_put_back(w: WorldView, index: int, pose: Pose)
    requires
        0 <= index < w.drops.len(),
    ensures
        ({
            let fell = micros_of(number(pose.position@[1])) < -2_000_000;
            &&& w.player_back(pose) is Some <==> fell
            &&& w.ball_back(index, pose) is Some <==> fell
            &&& w.player_back(pose) matches Some(r) ==> r.body == w.ids.ball_body && r.place@
                =~= w.spawn@ && r.rotation@ =~= seq![0i64, 0i64, 0i64, 1_000_000i64] && r.velocity@
                =~= seq![0i64, 0i64, 0i64] && r.spin@ =~= seq![0i64, 0i64, 0i64]
            &&& w.ball_back(index, pose) matches Some(r) ==> r.body == w.drops[index].body
                && r.place@ =~= w.drops[index].spawn@ && r.rotation@ =~= seq![
                0i64,
                0i64,
                0i64,
                1_000_000i64,
            ] && r.velocity@ =~= seq![0i64, 0i64, 0i64] && r.spin@ =~= seq![0i64, 0i64, 0i64]
        }),
{
}

/// A world is refused for one reason at a time: that the engine made none, else that no collider
/// moves, else that the ball's mass is not above zero and finite.
pub proof fn worlds_are_refused_for_one_reason(
    colliders: Seq<ColliderInit>,
    valid: bool,
    mass_bits: u32,
)
    ensures
        ({
            let moves = exists|i: int| 0 <= i < colliders.len() && (#[trigger] colliders[i]).dynamic;
            let heavy = 0 < mass_bits < 0x7f80_0000;
            let fault = build_fault(colliders, valid, mass_bits);
            &&& !valid <==> fault == Some(WorldError::CreateFailed)
            &&& valid && !moves <==> fault == Some(WorldError::NoBall)
            &&& valid && moves && !heavy <==> fault == Some(WorldError::NoMass)
            &&& valid && moves && heavy <==> fault is None
        }),
{
    crate::physics::first_dynamic_is_first(colliders, 0);
}

} // verus!
