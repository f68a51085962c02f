use single_player_game_physics::physics::bodies::{
    dropped_body, engine_shape, fixed_body, player_body, EngineShape, WORKER_COUNT,
};
use single_player_game_physics::physics::motion::{
    cap_speed, push, rolling_velocity, throw, Heading, PUSH_DIAGONAL, PUSH_STRAIGHT,
};
use single_player_game_physics::protocol::{ColliderShapeMsg, ROLE_BALL, ROLE_FLOOR};

const AHEAD: Heading = Heading { sin: 0, cos: 1_000_000 };
const QUARTER: Heading = Heading { sin: 1_000_000, cos: 0 };

#[test]
fn pushes_are_view_relative() {
    assert_eq!((PUSH_STRAIGHT, PUSH_DIAGONAL), (112_500, 79_550));
    assert_eq!(push(0, -1, &AHEAD), (0, -PUSH_STRAIGHT));
    assert_eq!(push(1, 0, &AHEAD), (PUSH_STRAIGHT, 0));
    assert_eq!(push(0, -1, &QUARTER), (-PUSH_STRAIGHT, 0));
    assert_eq!(push(1, 0, &QUARTER), (0, -PUSH_STRAIGHT));
    assert_eq!(push(1, 1, &AHEAD), (PUSH_DIAGONAL, PUSH_DIAGONAL));
    assert_eq!(push(0, 0, &AHEAD), (0, 0));
}

#[test]
fn speeds_are_capped_along_their_direction() {
    assert_eq!(cap_speed(3_000_000, 4_000_000, 5_000_000), (3_000_000, 4_000_000));
    assert_eq!(cap_speed(6_000_000, 8_000_000, 5_000_000), (3_000_000, 4_000_000));
    assert_eq!(cap_speed(-6_000_000, 8_000_000, 5_000_000), (-3_000_000, 4_000_000));
    assert_eq!(rolling_velocity(12_000_000, 0), (6_000_000, 0));
    assert_eq!(rolling_velocity(5_999_999, 0), (5_999_999, 0));
    assert_eq!(rolling_velocity(i64::MIN, 0), (-6_000_000, 0));
    assert_eq!(
        cap_speed(i64::MAX, i64::MIN, i64::MAX),
        (6521908912666391104, -6521908912666391105)
    );
}

#[test]
fn throws_turn_with_the_camera_and_are_capped() {
    assert_eq!(throw(1_000_000, 2_000_000, &AHEAD), (1_000_000, 2_000_000));
    assert_eq!(throw(0, -2_000_000, &QUARTER), (-2_000_000, 0));
    assert_eq!(throw(0, -20_000_000, &AHEAD), (0, -9_000_000));
    assert_eq!(throw(0, 0, &AHEAD), (0, 0));
    assert_eq!(throw(8_000_000_000_000_000, 4_000_000_000_000, &AHEAD), (8999998, 4499));
    assert_eq!(throw(i64::MAX, 0, &QUARTER), (0, -9_000_000));
}

#[test]
fn turning_rounds_to_the_nearest() {
    let h = Heading { sin: 600_000, cos: 800_000 };
    assert_eq!(h.turn(10, 0), (8, -6));
    assert_eq!(h.turn(0, 10), (6, 8));
    assert_eq!(h.turn(1, 1), (1, 0));
}

#[test]
fn shapes_stand_as_the_engine_builds_them() {
    assert_eq!(
        engine_shape(&ColliderShapeMsg::Cuboid { half_extents: [1, 2, 3] }),
        EngineShape::BoxHull { half_extents: [1, 2, 3] }
    );
    assert_eq!(engine_shape(&ColliderShapeMsg::Ball { radius: 5 }), EngineShape::Sphere { radius: 5 });
    assert_eq!(
        engine_shape(&ColliderShapeMsg::Capsule { half_height: 7, radius: 2 }),
        EngineShape::Capsule { low: -7, high: 7, radius: 2 }
    );
    assert_eq!(
        engine_shape(&ColliderShapeMsg::Cylinder { half_height: 7, radius: 2 }),
        EngineShape::Cylinder { height: 14, radius: 2, offset: -7, sides: 16 }
    );
    assert_eq!(
        engine_shape(&ColliderShapeMsg::Cone { half_height: 7, radius: 100 }),
        EngineShape::Cone { height: 14, base: 100, apex: 5, sides: 16 }
    );
}

#[test]
fn bodies_report_what_is_voiced() {
    let table = fixed_body(ROLE_FLOOR);
    assert!(!table.dynamic && table.touch_events == Some(false) && table.hit_events.is_none());
    assert_eq!((table.friction, table.restitution, table.role), (900_000, 500_000, ROLE_FLOOR));
    let player = player_body(ROLE_BALL);
    assert!(player.dynamic && player.bullet && player.sleeps == Some(false));
    assert_eq!((player.touch_events, player.hit_events), (Some(true), Some(true)));
    let dropped = dropped_body();
    assert!(dropped.dynamic && !dropped.bullet && dropped.sleeps.is_none());
    assert_eq!((dropped.touch_events, dropped.hit_events), (None, Some(true)));
    assert_eq!((dropped.role, dropped.restitution), (ROLE_BALL, 600_000));
    assert_eq!(dropped.damping, Some((100_000, 400_000)));
    assert_eq!((table.density, player.density), (None, Some(1_000_000)));
    assert_eq!((dropped.density, WORKER_COUNT), (Some(1_000_000), 1));
}
