use single_player_game_physics::pointer::{MoveAction, PointerAt, PointerState};
use single_player_game_physics::protocol::{
    CameraMsg, DropMsg, InputMsg, QualityMsg, RenderMsg, ResizeMsg, HELD_LEFT,
};
use single_player_game_physics::worker::{
    aa_config, aa_finished, bundle_base, gpu_info, player_variant, scene_url, AaStage, FrameLoop,
    FrameStep, ProgressLines, WorkerMsg, WorkerState,
};

#[test]
fn messages_reach_what_they_are_for() {
    let mut s = WorkerState::new(640, 480);
    s.apply(WorkerMsg::Input(InputMsg::Held { mask: HELD_LEFT, down: true }));
    s.apply(WorkerMsg::Input(InputMsg::Jump));
    s.apply(WorkerMsg::Input(InputMsg::Fling { vx: 1, vz: 2 }));
    assert_eq!((s.input().held(), s.input().jump_seq(), s.input().fling_seq()), (4, 1, 1));
    s.apply(WorkerMsg::Camera(CameraMsg::Orbit { dx: 1_000, dy: 0 }));
    assert_eq!(s.camera().yaw, -5_000);
    assert_eq!(s.camera().look_at, [0, 400_000, 0]);
    assert_eq!((s.camera().radius, s.camera().pitch), (9_000_000, 460_000));
    let size = |width, height| WorkerMsg::Resize(ResizeMsg::Canvas { width, height });
    assert_eq!(s.apply(WorkerMsg::Input(InputMsg::Jump)), None);
    assert_eq!(s.apply(size(0, 9)), None);
    assert_eq!(s.canvas(), (640, 480));
    assert_eq!(s.apply(size(8, 9)), Some((8, 9)));
    assert_eq!(s.apply(size(8, 9)), Some((8, 9)));
    assert_eq!(s.canvas(), (8, 9));
}

#[test]
fn clicks_wait_in_order_for_a_floor() {
    let mut s = WorkerState::new(1, 1);
    for i in 0..3 {
        s.apply(WorkerMsg::Drop(DropMsg::Ball { ndc_x: i, ndc_y: -i }));
    }
    assert!(s.take_drops(false).is_empty());
    assert_eq!(s.take_drops(true), vec![(0, 0), (1, -1), (2, -2)]);
    assert!(s.take_drops(true).is_empty());
}

#[test]
fn a_change_of_anti_aliasing_takes_the_renderer_away() {
    let mut s = WorkerState::new(1, 1);
    let mut l = FrameLoop::new();
    assert_eq!(l.begin(&mut s, true), FrameStep::Render);
    assert_eq!(l.begin(&mut s, false), FrameStep::Skip);
    s.apply(WorkerMsg::Quality(QualityMsg::AntiAlias { msaa: true, smaa: true }));
    s.apply(WorkerMsg::Quality(QualityMsg::AntiAlias { msaa: false, smaa: true }));
    assert_eq!(l.begin(&mut s, true), FrameStep::Reconfigure { msaa: false, smaa: true });
    s.apply(WorkerMsg::Quality(QualityMsg::AntiAlias { msaa: true, smaa: false }));
    assert_eq!(l.begin(&mut s, true), FrameStep::Skip);
    l.reconfigured();
    assert_eq!(l.begin(&mut s, true), FrameStep::Reconfigure { msaa: true, smaa: false });
    l.reconfigured();
    assert_eq!(l.begin(&mut s, true), FrameStep::Render);
}

#[test]
fn the_third_frame_is_the_ready_one() {
    let mut l = FrameLoop::new();
    let told: Vec<bool> = (0..6).map(|_| l.presented()).collect();
    assert_eq!(told, vec![false, false, true, false, false, false]);
}

#[test]
fn the_renderer_gets_four_samples_or_none() {
    assert_eq!(aa_config(true, false).msaa_sample_count, Some(4));
    assert_eq!(aa_config(false, true).msaa_sample_count, None);
    assert!(aa_config(false, true).smaa && aa_config(false, false).mipmap);
}

#[test]
fn a_change_always_ends_in_done() {
    assert!(matches!(aa_finished(None)[..], [RenderMsg::AaCompileDone]));
    let failed = aa_finished(Some((AaStage::Pipelines, "oom".to_string())));
    assert!(matches!(&failed[0], RenderMsg::Error { message } if message == "anti-aliasing pipelines: oom"));
    assert!(matches!(failed[1], RenderMsg::AaCompileDone));
    let refused = aa_finished(Some((AaStage::Change, "no".to_string())));
    assert!(matches!(&refused[0], RenderMsg::Error { message } if message == "anti-aliasing change: no"));
}

#[test]
fn the_adapter_or_safe_values() {
    assert!(matches!(
        gpu_info(Some((true, 4096))),
        RenderMsg::GpuInfo { is_fallback: true, max_texture_dim: 4096 }
    ));
    assert!(matches!(
        gpu_info(None),
        RenderMsg::GpuInfo { is_fallback: false, max_texture_dim: 8192 }
    ));
}

#[test]
fn repeated_progress_is_held_back() {
    let mut p = ProgressLines::new();
    let news: Vec<bool> = ["a", "a", "b", "a", "a"].iter().map(|l| p.offer(l)).collect();
    assert_eq!(news, vec![true, false, true, true, false]);
    assert!(!ProgressLines::new().offer(""));
}

#[test]
fn addresses_have_one_slash() {
    assert_eq!(bundle_base("https://x.y//"), "https://x.y/bundle");
    assert_eq!(scene_url("https://x.y"), "https://x.y/bundle/scene.toml");
}

#[test]
fn the_red_ball_is_the_players() {
    let names = vec!["Plain".to_string(), "Ball_Player_Red".to_string()];
    assert_eq!(player_variant(&names), Some(1));
    assert_eq!(player_variant(&vec!["Ball_Player".to_string()]), None);
}

#[test]
fn picture_and_sound_share_a_yaw() {
    let mut p = PointerState::new();
    let mut s = WorkerState::new(1, 1);
    let here = PointerAt { id: 1, x: 0, y: 0, t: 0 };
    p.down(2, false, here);
    for (dx, dy) in [(5, 1), (-80, 200), (33, -7)] {
        if let MoveAction::Orbit { msg, .. } = p.moved(here, (dx, dy)) {
            s.apply(WorkerMsg::Camera(msg));
            s.apply(WorkerMsg::Camera(CameraMsg::Zoom { dy: 40_000 }));
        }
        assert_eq!(s.camera().yaw, p.yaw());
    }
    assert_eq!(p.yaw(), 210_000);
}
