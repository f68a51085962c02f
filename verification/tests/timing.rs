use single_player_game_physics::pacing::{Pacing, MAX_SUBSTEPS};
use single_player_game_physics::protocol::StatsMsg;
use single_player_game_physics::stats::StatsAcc;

#[test]
fn the_first_frame_runs_no_step() {
    let mut p = Pacing::new();
    assert_eq!(p.advance(5_000_000), 0);
    assert_eq!(p.alpha(), 0);
}

#[test]
fn sixty_frames_a_second_run_four_steps_each() {
    let mut p = Pacing::new();
    let mut total = 0;
    for frame in 0..=60i64 {
        total += p.advance(frame * 1_000_000 / 60);
    }
    assert_eq!(total, 240);
    let mut q = Pacing::new();
    q.advance(0);
    assert_eq!(q.advance(16_667), 4);
    assert_eq!(q.alpha(), 80);
}

#[test]
fn any_display_rate_runs_the_same_steps() {
    for hz in [30i64, 59, 60, 75, 144, 240, 500] {
        let mut p = Pacing::new();
        let mut total = 0;
        for frame in 0..=2 * hz {
            total += p.advance(frame * 1_000_000 / hz);
        }
        assert_eq!(total, 480, "at {hz} Hz");
    }
}

#[test]
fn a_hitch_is_capped_and_time_never_runs_back() {
    let mut p = Pacing::new();
    p.advance(0);
    assert_eq!(MAX_SUBSTEPS, 24);
    assert_eq!(p.advance(60_000_000), 24);
    assert_eq!(p.alpha(), 0);
    assert_eq!(p.advance(50_000_000), 0);
    assert_eq!(p.advance(50_002_000), 0);
    assert_eq!(p.alpha(), 480_000);
}

fn warmed(t0: i64) -> StatsAcc {
    let mut s = StatsAcc::new(0);
    for _ in 0..60 {
        assert_eq!(s.record(t0, 9_999_999, 99, 9_999_999, 1), None);
    }
    s
}

#[test]
fn stats_wait_for_the_warmup_and_the_window() {
    let mut s = warmed(1_000_000);
    for i in 1..60i64 {
        assert_eq!(s.record(1_000_000 + i * 16_666, 4_000, 4, 800, 5), None);
    }
    assert_eq!(
        s.record(2_000_000, 4_000, 4, 800, 5),
        Some(StatsMsg {
            fps: 60_000_000,
            frame_ms: 4_000_000,
            step_ms: 200_000,
            sps: 240_000_000,
            balls: 5,
        })
    );
    assert_eq!(s.record(2_999_999, 1, 1, 1, 5), None);
}

#[test]
fn large_figures_are_reported_in_full() {
    let mut s = warmed(0);
    assert_eq!(
        s.record(1_000_000, u64::MAX, u32::MAX, u64::MAX, 0),
        Some(StatsMsg {
            fps: 1_000_000,
            frame_ms: i64::MAX,
            step_ms: 4_294_967_297_000,
            sps: 4_294_967_295_000_000,
            balls: 0,
        })
    );
}

#[test]
fn stats_are_smoothed() {
    let mut s = warmed(0);
    assert_eq!(s.record(1_000_000, 10_000, 0, 0, 0).map(|m| m.frame_ms), Some(10_000_000));
    let second = s.record(2_000_000, 20_000, 0, 7, 2);
    assert_eq!(
        second,
        Some(StatsMsg {
            fps: 1_000_000,
            frame_ms: 13_500_000,
            step_ms: 0,
            sps: 0,
            balls: 2,
        })
    );
}
