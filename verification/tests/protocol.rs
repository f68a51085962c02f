use single_player_game_physics::protocol::{
    Input, HELD_BACK, HELD_FORWARD, HELD_LEFT, HELD_RIGHT, MAX_BALLS, SIM_HZ,
};

#[test]
fn the_rates_and_limits() {
    assert_eq!(SIM_HZ, 240);
    assert_eq!(MAX_BALLS, 200);
    assert_eq!((HELD_FORWARD, HELD_BACK, HELD_LEFT, HELD_RIGHT), (1, 2, 4, 8));
}

#[test]
fn held_keys_are_set_and_cleared() {
    let mut input = Input::new();
    input.set_held(HELD_FORWARD, true);
    input.set_held(HELD_LEFT, true);
    assert_eq!(input.held(), HELD_FORWARD | HELD_LEFT);
    input.set_held(HELD_FORWARD, false);
    assert_eq!(input.held(), HELD_LEFT);
    input.set_held(HELD_FORWARD, false);
    assert_eq!(input.held(), HELD_LEFT);
}

#[test]
fn a_fling_is_polled_once() {
    let mut input = Input::new();
    let mut seen = 0;
    assert_eq!(input.poll_fling(&mut seen), None);
    input.bump_fling(1_500_000, -2_000_000);
    assert_eq!(input.poll_fling(&mut seen), Some((1_500_000, -2_000_000)));
    assert_eq!(seen, 1);
    assert_eq!(input.poll_fling(&mut seen), None);
    input.bump_fling(1, 2);
    input.bump_fling(3, 4);
    assert_eq!(input.poll_fling(&mut seen), Some((3, 4)));
    assert_eq!(input.fling_seq(), 3);
}

#[test]
fn every_jump_counts() {
    let mut input = Input::default();
    input.bump_jump();
    input.bump_jump();
    assert_eq!(input.jump_seq(), 2);
    assert_eq!(input.held(), 0);
    assert_eq!(input.fling_seq(), 0);
}
