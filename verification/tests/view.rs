use single_player_game_physics::camera::{
    turn_yaw, OrbitCamera, MAX_RADIUS, MIN_RADIUS, PITCH_MAX, PITCH_MIN,
};
use single_player_game_physics::physics::motion::Heading;
use single_player_game_physics::protocol::CameraMsg;
use single_player_game_physics::table::Table;

fn camera() -> OrbitCamera {
    OrbitCamera::new([0, 400_000, 0], 9_000_000, 0, 460_000)
}

#[test]
fn a_drag_turns_and_tilts() {
    let mut c = camera();
    c.orbit(10_000, 4_000);
    assert_eq!((c.yaw, c.pitch), (-50_000, 440_000));
    c.apply(CameraMsg::Orbit { dx: -10_000, dy: -4_000 });
    assert_eq!((c.yaw, c.pitch), (0, 460_000));
    c.orbit(0, 1_000_000);
    assert_eq!(c.pitch, PITCH_MIN);
    c.orbit(0, -1_000_000);
    assert_eq!(c.pitch, PITCH_MAX);
}

#[test]
fn the_wheel_dollies_within_limits() {
    let mut c = camera();
    c.zoom(100_000);
    assert_eq!(c.radius, 9_900_000);
    c.apply(CameraMsg::Zoom { dy: -2_000_000 });
    assert_eq!(c.radius, MIN_RADIUS);
    for _ in 0..40 {
        c.zoom(120_000);
    }
    assert_eq!(c.radius, MAX_RADIUS);
    assert_eq!(c.look_at, [0, 400_000, 0]);
    let mut far_off = OrbitCamera::new([0, 0, 0], i64::MIN, 0, 0);
    far_off.zoom(i64::MIN);
    assert_eq!(far_off.radius, MAX_RADIUS);
}

#[test]
fn a_mirror_keeps_the_camera_yaw() {
    let mut c = camera();
    let mut mirror = 0;
    for (dx, dy) in [(3_000, 9_000), (-77_000, 5), (12_345, -4_000), (0, 1)] {
        c.apply(CameraMsg::Orbit { dx, dy });
        c.apply(CameraMsg::Zoom { dy });
        mirror = turn_yaw(mirror, dx);
        assert_eq!(c.yaw, mirror);
    }
    assert_eq!(turn_yaw(i64::MAX, -1), i64::MAX);
    assert_eq!(turn_yaw(i64::MIN, 1), i64::MIN);
    assert_eq!(turn_yaw(0, i64::MIN), i64::MAX);
}

#[test]
fn the_eye_sits_on_its_sphere() {
    let c = camera();
    let level = Heading { sin: 0, cos: 1_000_000 };
    let tilted = Heading { sin: 600_000, cos: 800_000 };
    assert_eq!(c.eye(&level, &tilted), [0, 5_800_000, 7_200_000]);
    let quarter = Heading { sin: 1_000_000, cos: 0 };
    assert_eq!(c.eye(&quarter, &tilted), [7_200_000, 5_800_000, 0]);
    let edge = OrbitCamera::new([i64::MAX, i64::MIN, 7], -5_000_000, 0, 0);
    assert_eq!(edge.eye(&quarter, &tilted), [i64::MAX - 4_000_000, i64::MIN, 7]);
}

const TABLE: Table =
    Table { half_extents: [3_000_000, 100_000, 2_000_000], translation: [0, 0, 0] };

#[test]
fn a_click_lands_on_the_felt() {
    assert!(TABLE.ball_fits(200_000));
    let spot = TABLE.unproject_to_table(
        &[0, 2_100_000, 4_000_000],
        &[1_000_000, -1_900_000, -2_000_000],
        200_000,
    );
    assert_eq!(spot, Some((500_000, 1_000_000)));
    let near = [500_000, 5_000_000, 0];
    assert_eq!(
        TABLE.unproject_to_table(&near, &[1_250_000, 100_000, -750_000], 200_000),
        Some((1_250_000, -750_000))
    );
}

#[test]
fn a_click_beyond_the_rails_is_pulled_in() {
    let far_out = [90_000_000, -1_000_000, -90_000_000];
    assert_eq!(
        TABLE.unproject_to_table(&[0, 2_000_000, 0], &far_out, 200_000),
        Some((2_550_000, -1_550_000))
    );
    let far_table = Table {
        half_extents: [4_000_000_000_000_000_000, 0, 4_000_000_000_000_000_000],
        translation: [0, 0, 0],
    };
    assert_eq!(
        far_table.unproject_to_table(
            &[0, 2_000_000_000_000_000_000, 0],
            &[3_000_000_000_000_000_000, -2_000_000_000_000_000_000, -5],
            200_000,
        ),
        Some((1_500_000_000_000_000_000, -2))
    );
}

#[test]
fn the_sky_and_the_horizon_drop_nothing() {
    let eye = [0, 2_000_000, 4_000_000];
    assert_eq!(TABLE.unproject_to_table(&eye, &[0, 3_000_000, -4_000_000], 200_000), None);
    assert_eq!(TABLE.unproject_to_table(&eye, &[0, 2_000_000, -4_000_000], 200_000), None);
    assert!(!TABLE.ball_fits(1_800_000));
    assert!(TABLE.ball_fits(1_750_000));
    assert!(TABLE.in_reach(&eye, &[i64::MAX, 0, 0]));
    assert!(!TABLE.in_reach(&[0, i64::MIN, 0], &[0, 0, 0]));
}
