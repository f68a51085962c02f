use single_player_game_physics::box3d::{
    b3BodyId, b3ContactBeginTouchEvent, b3ContactEndTouchEvent, b3ContactId, b3ShapeId, b3WorldId,
};
use single_player_game_physics::physics::{
    ball_collider, ball_radius, fell_off, intensity, raised, rolling_speed, static_colliders,
    surface, HitEvent, Pose, Respawn, Stance, StepReport, Surface, TouchBegin, World, WorldError, WorldIds,
    IMPACT_COOLDOWN, MAX_SPEED, ROLL_EVERY,
};
use single_player_game_physics::physics::motion::{Heading, Order, PUSH_DIAGONAL};
use single_player_game_physics::protocol::{
    AudioMsg, ColliderInit, ColliderShapeMsg, Input, HELD_BACK, HELD_FORWARD, HELD_RIGHT,
    MAX_BALLS, ROLE_BALL, ROLE_FLOOR, ROLE_WALL,
};

fn collider(shape: ColliderShapeMsg, dynamic: bool, role: u8) -> ColliderInit {
    ColliderInit {
        shape,
        translation: [0, 0, 0],
        rotation: [0, 0, 0, 1_000_000],
        dynamic,
        role,
    }
}

fn scene() -> Vec<ColliderInit> {
    vec![
        collider(
            ColliderShapeMsg::Cuboid { half_extents: [3_000_000, 100_000, 2_000_000] },
            false,
            ROLE_FLOOR,
        ),
        collider(ColliderShapeMsg::Ball { radius: 200_000 }, true, ROLE_BALL),
    ]
}

fn shape(index1: i32) -> b3ShapeId {
    b3ShapeId { index1, world0: 0, generation: 0 }
}

fn ids() -> WorldIds {
    WorldIds {
        world: b3WorldId { index1: 1, generation: 0 },
        ball_body: b3BodyId { index1: 2, world0: 0, generation: 0 },
        ball_shape: shape(2),
    }
}

const MASS: u32 = 0x3f80_0000;

fn world() -> World {
    match World::new(&scene(), [0, 600_000, 0], true, ids(), MASS) {
        Ok(w) => w,
        Err(_) => panic!("a good scene makes a world"),
    }
}

fn pose(height: f32, mark: f32) -> Pose {
    Pose {
        position: [mark, height, -0.5].map(f32::to_bits),
        rotation: [0.0, 1.0, 0.0, 0.0].map(f32::to_bits),
    }
}

fn quiet(height: f32, mark: f32) -> StepReport {
    StepReport {
        player: pose(height, mark),
        horizontal_speed: 0,
        begins: vec![],
        ends: vec![],
        hits: vec![],
        balls: vec![],
    }
}

fn put_back(body: b3BodyId, place: [i64; 3]) -> Option<Respawn> {
    Some(Respawn {
        body,
        place,
        rotation: [0, 0, 0, 1_000_000],
        velocity: [0, 0, 0],
        spin: [0, 0, 0],
    })
}

fn hit(role_a: u8, role_b: u8, approach_speed: i64) -> HitEvent {
    HitEvent { role_a, role_b, point: [1, 2, 3], approach_speed }
}

#[test]
fn the_step_counts_at_the_default_rate() {
    assert_eq!(ROLL_EVERY, 12);
    assert_eq!(IMPACT_COOLDOWN, 31);
}

#[test]
fn each_world_error_has_its_input() {
    let err = |c: &Vec<ColliderInit>, valid: bool, mass: u32| {
        World::new(c, [0, 0, 0], valid, ids(), mass).err()
    };
    assert_eq!(err(&scene(), false, MASS), Some(WorldError::CreateFailed));
    assert_eq!(err(&vec![scene()[0].clone()], true, MASS), Some(WorldError::NoBall));
    assert_eq!(err(&scene(), true, 0.0f32.to_bits()), Some(WorldError::NoMass));
    assert_eq!(err(&scene(), true, (-1.0f32).to_bits()), Some(WorldError::NoMass));
    assert_eq!(err(&scene(), true, f32::INFINITY.to_bits()), Some(WorldError::NoMass));
    assert_eq!(err(&scene(), true, f32::NAN.to_bits()), Some(WorldError::NoMass));
    assert_eq!(err(&scene(), true, 4.2f32.to_bits()), None);
    assert_eq!(err(&vec![], false, 0), Some(WorldError::CreateFailed));
    assert_eq!(WorldError::CreateFailed.message(), "physics: b3CreateWorld failed");
    assert_eq!(WorldError::NoBall.message(), "physics: no dynamic collider (ball) in scene");
    assert_eq!(WorldError::NoMass.message(), "physics: ball has no mass");
}

#[test]
fn colliders_are_told_apart() {
    assert_eq!(ball_collider(&scene()), Some(1));
    assert_eq!(static_colliders(&scene()), vec![0]);
    assert_eq!(ball_radius(&scene()), 200_000);
    let capsule = vec![collider(
        ColliderShapeMsg::Capsule { half_height: 1, radius: 9 },
        true,
        ROLE_BALL,
    )];
    assert_eq!(ball_radius(&capsule), 500_000);
}

#[test]
fn a_new_world_stands_at_its_spawn() {
    let w = world();
    let start = Stance::Start([0, 2_600_000, 0]);
    assert_eq!(w.player_poses(), (start, start));
    assert_eq!(w.ball_count(), 0);
    assert_eq!(w.ball_radius(), 200_000);
    assert_eq!(w.ids(), ids());
    assert_eq!(raised([1, 600_000, 3]), [1, 2_600_000, 3]);
    assert_eq!(w.drop_point(5, 6), [5, 2_600_000, 6]);
}

#[test]
fn drops_stop_at_two_hundred() {
    let mut w = world();
    for i in 0..MAX_BALLS {
        assert!(w.can_drop());
        let body = b3BodyId { index1: 10 + i as i32, world0: 0, generation: 0 };
        assert!(w.drop_ball(body, i as i64, -5));
    }
    assert!(!w.can_drop());
    assert!(!w.drop_ball(b3BodyId::default(), -1, -1));
    assert_eq!(w.ball_count(), MAX_BALLS);
    let start = Stance::Start([199, 2_600_000, -5]);
    assert_eq!(w.ball_poses(199), (start, start));
    assert_eq!(w.ball_body(3).index1, 13);
    assert_eq!(w.ball_respawn(3, &pose(-9.0, 0.0)), put_back(w.ball_body(3), [3, 2_600_000, -5]));
    assert_eq!(w.ball_respawn(3, &pose(9.0, 0.0)), None);
}

#[test]
fn keys_jump_and_fling_act_once() {
    let mut w = world();
    let mut input = Input::new();
    input.set_held(HELD_FORWARD, true);
    input.set_held(HELD_RIGHT, true);
    input.bump_jump();
    input.bump_fling(4, 5);
    let a = w.step_actions(&input);
    assert_eq!((a.dir_x, a.dir_z, a.jump, a.fling), (1, -1, true, Some((4, 5))));
    let mut cues = vec![];
    w.step(&input, &quiet(0.0, 8.0), &mut cues);
    let b = w.step_actions(&input);
    assert_eq!((b.dir_x, b.dir_z, b.jump, b.fling), (1, -1, false, None));
    input.set_held(HELD_BACK, true);
    assert_eq!(w.step_actions(&input).dir_z, 0);
    let ahead = Heading { sin: 0, cos: 1_000_000 };
    assert_eq!(a.push(&ahead), Some((PUSH_DIAGONAL, -PUSH_DIAGONAL)));
    assert_eq!(a.roll(-12_000_000, 0), Some((-6_000_000, 0)));
    assert_eq!(a.roll(6_000_000, 0), None);
    assert_eq!((a.throw(&ahead), b.throw(&ahead)), (Some((4, 5)), None));
    let orders = vec![
        Order::Push { vx: PUSH_DIAGONAL, vz: -PUSH_DIAGONAL },
        Order::Hold,
        Order::Jump { vy: 3_200_000 },
        Order::Throw { vx: 4, vz: 5 },
    ];
    assert_eq!(a.orders(&ahead), orders);
    assert_eq!(b.orders(&ahead), orders[..2].to_vec());
    let idle = world().step_actions(&Input::new());
    assert!(idle.orders(&ahead).is_empty());
    assert_eq!((idle.push(&ahead), idle.roll(i64::MAX, 0)), (None, None));
}

#[test]
fn poses_roll_and_snap_on_a_fall() {
    let mut w = world();
    let input = Input::new();
    let mut cues = vec![];
    w.step(&input, &quiet(0.0, 8.0), &mut cues);
    let (start, eight) = (Stance::Start([0, 2_600_000, 0]), Stance::Reported(pose(0.0, 8.0)));
    assert_eq!(w.player_poses(), (start, eight));
    w.step(&input, &quiet(0.0, 9.0), &mut cues);
    assert_eq!(w.player_poses(), (eight, Stance::Reported(pose(0.0, 9.0))));
    let low = quiet(-2.000_01, 7.0);
    assert_eq!(w.player_respawn(&low.player), put_back(ids().ball_body, [0, 2_600_000, 0]));
    w.step(&input, &low, &mut cues);
    assert_eq!(w.player_poses(), (start, start));
    assert!(fell_off(&pose(-2.000_01, 0.0)));
    assert!(!fell_off(&pose(-2.0, 0.0)));
    assert!(!fell_off(&pose(f32::NAN, 0.0)));
    assert_eq!(w.player_respawn(&pose(-2.0, 0.0)), None);
}

#[test]
fn dropped_balls_roll_on_their_own() {
    let mut w = world();
    w.drop_ball(b3BodyId::default(), 50, 60);
    let input = Input::new();
    let mut cues = vec![];
    let mut r = quiet(0.0, 8.0);
    r.balls = vec![pose(0.0, 51.0)];
    w.step(&input, &r, &mut cues);
    let start = Stance::Start([50, 2_600_000, 60]);
    assert_eq!(w.ball_poses(0), (start, Stance::Reported(pose(0.0, 51.0))));
    r.balls = vec![pose(-3.0, 50.0)];
    w.step(&input, &r, &mut cues);
    assert_eq!(w.ball_poses(0), (start, start));
}

#[test]
fn impacts_are_voiced_by_surface_and_debounced() {
    let mut w = world();
    let input = Input::new();
    let mut first_wall = None;
    let mut second_wall = None;
    for step in 1..=100u32 {
        let mut cues = vec![];
        let mut r = quiet(0.0, 8.0);
        r.hits = vec![
            hit(ROLE_BALL, ROLE_WALL, MAX_SPEED),
            hit(ROLE_BALL, ROLE_FLOOR, 3_250_000),
            hit(ROLE_BALL, ROLE_BALL, 10),
        ];
        w.step(&input, &r, &mut cues);
        let impacts: Vec<AudioMsg> =
            cues.into_iter().filter(|c| !matches!(c, AudioMsg::Roll { .. })).collect();
        if !impacts.is_empty() {
            assert_eq!(impacts.len(), 3);
            assert!(matches!(impacts[0], AudioMsg::WallHit { intensity: 1_000_000, .. }));
            assert!(matches!(impacts[1], AudioMsg::Land { intensity: 500_000, .. }));
            assert!(matches!(impacts[2], AudioMsg::BallClack { intensity: 120_000, .. }));
            if first_wall.is_none() {
                first_wall = Some(step);
            } else if second_wall.is_none() {
                second_wall = Some(step);
            }
        }
    }
    assert_eq!(first_wall, Some(31));
    assert_eq!(second_wall, Some(62));
}

#[test]
fn the_rolling_cue_needs_ground() {
    let mut w = world();
    let input = Input::new();
    let mut cues = vec![];
    for step in 1..=36u32 {
        let mut r = quiet(0.0, 8.0);
        r.horizontal_speed = 3_000_000;
        if step == 13 {
            r.begins = vec![TouchBegin {
                event: b3ContactBeginTouchEvent {
                    shapeIdA: shape(2),
                    shapeIdB: shape(5),
                    contactId: b3ContactId::default(),
                },
                role_a: ROLE_BALL,
                role_b: ROLE_FLOOR,
            }];
        }
        if step == 25 {
            r.ends = vec![b3ContactEndTouchEvent {
                shapeIdA: shape(5),
                shapeIdB: shape(2),
                contactId: b3ContactId::default(),
            }];
        }
        w.step(&input, &r, &mut cues);
    }
    let speeds: Vec<i64> = cues
        .iter()
        .map(|c| match c {
            AudioMsg::Roll { speed, x: 8_000_000, y: 0, z: -500_000 } => *speed,
            _ => panic!("only rolling cues"),
        })
        .collect();
    assert_eq!(speeds, vec![0, 500_000, 0]);
}

#[test]
fn a_fall_is_silent_and_cued_where_the_ball_is_put_back() {
    let mut w = world();
    let mut cues = vec![];
    for _ in 0..11 {
        w.step(&Input::new(), &quiet(0.0, 8.0), &mut cues);
    }
    let mut r = quiet(-5.0, 8.0);
    r.horizontal_speed = 6_000_000;
    r.begins = vec![TouchBegin {
        event: b3ContactBeginTouchEvent {
            shapeIdA: shape(2),
            shapeIdB: shape(5),
            contactId: b3ContactId::default(),
        },
        role_a: ROLE_BALL,
        role_b: ROLE_FLOOR,
    }];
    w.step(&Input::new(), &r, &mut cues);
    assert_eq!(cues, vec![AudioMsg::Roll { speed: 0, x: 0, y: 2_600_000, z: 0 }]);
}

#[test]
fn the_loudness_formulas() {
    assert_eq!(intensity(3_000_000, MAX_SPEED), 500_000);
    assert_eq!(intensity(0, MAX_SPEED), 120_000);
    assert_eq!(intensity(90_000_000, MAX_SPEED), 1_000_000);
    assert_eq!(rolling_speed(true, 6_000_000), 1_000_000);
    assert_eq!(rolling_speed(true, 239_999), 0);
    assert_eq!(rolling_speed(true, 240_000), 40_000);
    assert_eq!(rolling_speed(true, 3_000_005), 500_001);
    assert_eq!(intensity(i64::MIN, i64::MAX), 120_000);
    assert_eq!(rolling_speed(false, 6_000_000), 0);
    assert!(matches!(surface(ROLE_BALL, ROLE_WALL), Surface::Wall));
    assert!(matches!(surface(ROLE_FLOOR, ROLE_WALL), Surface::Wall));
    assert!(matches!(surface(ROLE_FLOOR, ROLE_BALL), Surface::Floor));
    assert!(matches!(surface(ROLE_BALL, ROLE_BALL), Surface::Ball));
}
