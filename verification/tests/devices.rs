use single_player_game_physics::keyboard::{key_down, key_mask, key_up};
use single_player_game_physics::pointer::{MoveAction, PointerAt, PointerState};
use single_player_game_physics::protocol::{
    CameraMsg, DropMsg, InputMsg, HELD_BACK, HELD_FORWARD, HELD_LEFT, HELD_RIGHT,
};

fn at(id: i32, x: i32, y: i32, ms: i64) -> PointerAt {
    PointerAt { id, x, y, t: ms * 1000 }
}

fn fling(msg: Option<InputMsg>) -> Option<(i64, i64)> {
    match msg {
        Some(InputMsg::Fling { vx, vz }) => Some((vx, vz)),
        Some(_) => panic!("only flings"),
        None => None,
    }
}

fn drop_at(msg: Option<DropMsg>) -> Option<(i64, i64)> {
    msg.map(|DropMsg::Ball { ndc_x, ndc_y }| (ndc_x, ndc_y))
}

#[test]
fn a_swipe_throws_and_takes_its_click() {
    let mut p = PointerState::new();
    p.down(0, true, at(1, 0, 0, 0));
    assert!(matches!(p.moved(at(1, 50, 0, 50), (50, 0)), MoveAction::Follow));
    assert_eq!(fling(p.up(at(1, 100, 0, 100))), Some((4_000_000, 0)));
    assert_eq!(drop_at(p.click((5, 5), (10, 10))), None);
    assert_eq!(drop_at(p.click((5, 5), (10, 10))), Some((0, 0)));
}

#[test]
fn a_tap_drops_a_ball() {
    let mut p = PointerState::new();
    p.down(0, true, at(1, 100, 100, 0));
    assert_eq!(fling(p.up(at(1, 111, 100, 80))), None);
    assert_eq!(drop_at(p.click((0, 0), (10, 20))), Some((-1_000_000, 1_000_000)));
    p.down(0, true, at(1, 100, 100, 0));
    assert!(fling(p.up(at(1, 112, 100, 80))).is_some());
    assert_eq!(drop_at(p.click((0, 0), (10, 20))), None);
}

#[test]
fn a_slow_drag_is_no_throw() {
    let mut p = PointerState::new();
    p.down(0, true, at(1, 0, 0, 0));
    assert_eq!(fling(p.up(at(1, 20, 0, 1_000))), None);
    assert_eq!(drop_at(p.click((0, 0), (1, 1))), None);
    p.down(0, true, at(1, 0, 0, 0));
    assert_eq!(fling(p.up(at(1, 20, 0, 0))), None);
}

#[test]
fn the_least_throw_is_a_quarter_metre_per_second() {
    let mut p = PointerState::new();
    p.down(0, true, at(1, 0, 0, 0));
    assert_eq!(fling(p.up(at(1, 0, 25, 400))), Some((0, 250_000)));
    p.down(0, true, at(1, 0, 0, 0));
    assert_eq!(fling(p.up(at(1, 0, 25, 401))), None);
}

#[test]
fn a_throw_is_measured_over_the_last_moments() {
    let mut p = PointerState::new();
    p.down(0, true, at(7, 0, 0, 0));
    for i in 1..=10i64 {
        p.moved(at(7, 0, 0, i * 100), (0, 0));
    }
    p.moved(at(7, 100, 0, 1_050), (0, 0));
    assert_eq!(fling(p.up(at(7, 200, 0, 1_100))), Some((8_000_000, 0)));
}

#[test]
fn a_second_finger_is_ignored() {
    let mut p = PointerState::new();
    p.down(0, true, at(1, 0, 0, 0));
    p.down(0, true, at(2, 500, 500, 10));
    assert!(matches!(p.moved(at(2, 600, 500, 20), (100, 0)), MoveAction::Nothing));
    assert_eq!(fling(p.up(at(2, 600, 500, 30))), None);
    assert_eq!(fling(p.up(at(1, 50, 0, 50))), Some((4_000_000, 0)));
}

#[test]
fn a_right_drag_orbits_and_mirrors_the_yaw() {
    let mut p = PointerState::new();
    assert!(matches!(p.moved(at(1, 0, 0, 0), (3, 4)), MoveAction::Nothing));
    p.down(2, false, at(1, 0, 0, 0));
    match p.moved(at(1, 3, 4, 1), (3, -4)) {
        MoveAction::Orbit { msg: CameraMsg::Orbit { dx, dy }, yaw } => {
            assert_eq!((dx, dy, yaw), (3_000, -4_000, -15_000));
        }
        _ => panic!("a drag orbits"),
    }
    assert_eq!(p.yaw(), -15_000);
    match p.moved(at(1, 3, 4, 1), (i32::MAX, i32::MIN)) {
        MoveAction::Orbit { msg: CameraMsg::Orbit { dx, dy }, yaw } => {
            assert_eq!((dx, dy), (2_147_483_647_000, -2_147_483_648_000));
            assert_eq!(yaw, -15_000 - 5 * 2_147_483_647_000);
        }
        _ => panic!("a drag orbits"),
    }
    assert_eq!(fling(p.up(at(1, 3, 4, 2))), None);
    assert!(matches!(p.moved(at(1, 0, 0, 3), (3, 4)), MoveAction::Nothing));
    p.down(2, false, at(1, 0, 0, 0));
    p.cancel(1);
    assert!(matches!(p.moved(at(1, 0, 0, 3), (3, 4)), MoveAction::Nothing));
}

#[test]
fn a_cancelled_touch_is_forgotten() {
    let mut p = PointerState::new();
    p.down(0, true, at(1, 0, 0, 0));
    p.cancel(2);
    assert!(matches!(p.moved(at(1, 9, 0, 9), (9, 0)), MoveAction::Follow));
    p.cancel(1);
    assert_eq!(fling(p.up(at(1, 900, 0, 90))), None);
    assert_eq!(drop_at(p.click((10, 10), (0, 0))), Some((19_000_000, -19_000_000)));
}

#[test]
fn keys_and_their_bits() {
    for (keys, mask) in [
        (["w", "W", "ArrowUp"], HELD_FORWARD),
        (["s", "S", "ArrowDown"], HELD_BACK),
        (["a", "A", "ArrowLeft"], HELD_LEFT),
        (["d", "D", "ArrowRight"], HELD_RIGHT),
    ] {
        for key in keys {
            assert_eq!(key_mask(key), Some(mask));
            assert!(matches!(key_up(key), Some(InputMsg::Held { mask: m, down: false }) if m == mask));
            let press = key_down(key, false);
            assert!(matches!(press.send, Some(InputMsg::Held { mask: m, down: true }) if m == mask));
            assert!(!press.prevent_default);
        }
    }
    assert_eq!(key_mask("q"), None);
    assert!(key_up("q").is_none() && key_down("Enter", false).send.is_none());
}

#[test]
fn the_space_bar_jumps_once() {
    for key in [" ", "Spacebar"] {
        let first = key_down(key, false);
        assert!(matches!(first.send, Some(InputMsg::Jump)) && first.prevent_default);
        let again = key_down(key, true);
        assert!(again.send.is_none() && again.prevent_default);
        assert!(key_up(key).is_none());
    }
}

#[test]
fn a_swipe_of_any_speed_keeps_its_direction() {
    let mut p = PointerState::new();
    p.down(0, true, PointerAt { id: 1, x: 0, y: 0, t: 0 });
    let release = PointerAt { id: 1, x: 2_000_000, y: 1_000, t: 1 };
    assert_eq!(fling(p.up(release)), Some((8_000_000_000_000_000, 4_000_000_000_000)));
    p.down(0, true, PointerAt { id: 1, x: i32::MIN, y: 0, t: 0 });
    let release = PointerAt { id: 1, x: i32::MAX, y: 0, t: 1 };
    assert_eq!(fling(p.up(release)), Some((i64::MAX, 0)));
}
