use single_player_game_physics::protocol::{QualityMsg, RenderMsg, ResizeMsg, StatsMsg};
use single_player_game_physics::settings::{
    bool_text, hold_scale, initial_scale, pct_of, reset_keys, scale_text, stats_start_open,
    stored_bool, Display, Layout, ResState, StorageKey, Stored,
};
use single_player_game_physics::shell::{
    decimal_text, format_stats, on_render, overlay, page_base, LoadingLog, OverlayEvent, UiAction,
    MAX_LOG_LINES,
};
use single_player_game_physics::text::{contains, directory_of, joined, same, trim_slashes};

const FRESH: Stored = Stored { scale: None, msaa: None, smaa: None };
const LAYOUT: Layout = Layout { css_w: 800_000_000, css_h: 600_000_000, dpr: 2_000_000 };

fn size(d: &Display) -> (u32, u32) {
    match d.resize() {
        ResizeMsg::Canvas { width, height } => (width, height),
    }
}

#[test]
fn the_backing_store_follows_scale_and_density() {
    let res = ResState {
        scale: 600_000,
        max_tex: 8192,
        css_w: 1_000_500_000,
        css_h: 1_000_000,
        dpr: 1_500_000,
    };
    assert_eq!(res.backing(), (900, 1));
    let small = ResState { max_tex: 256, ..res };
    assert_eq!(small.backing(), (256, 1));
    let faint = ResState { scale: 1, dpr: 1, ..res };
    assert_eq!(faint.backing(), (10, 1));
    let native = ResState { scale: 1_000_000, dpr: 1_000_000, css_w: 1_234_000_000, ..res };
    assert_eq!(native.backing(), (1234, 1));
    let none = ResState { css_w: 0, ..res };
    assert_eq!(none.backing(), (1, 1));
}

#[test]
fn scales_and_percents() {
    assert_eq!(pct_of(600_000), 60);
    assert_eq!(pct_of(555_000), 56);
    assert_eq!(hold_scale(10), 500_000);
    assert_eq!(hold_scale(2_000_000), 1_000_000);
    assert_eq!(initial_scale(Some(700_000), true), 700_000);
    assert_eq!(initial_scale(Some(-1), false), 500_000);
    assert_eq!(initial_scale(None, true), 600_000);
    assert_eq!(initial_scale(None, false), 1_000_000);
}

#[test]
fn a_fresh_desktop_and_a_fresh_phone() {
    let desk = Display::new(FRESH, false, LAYOUT);
    assert_eq!((desk.toggles(), desk.scale(), desk.is_reduced()), ((true, true), 1_000_000, false));
    assert_eq!(size(&desk), (1600, 1200));
    let phone = Display::new(FRESH, true, LAYOUT);
    assert_eq!((phone.toggles(), phone.scale(), phone.is_reduced()), ((false, false), 600_000, true));
    let chosen = Stored { scale: Some(800_000), msaa: Some(true), smaa: Some(false) };
    let kept = Display::new(chosen, true, LAYOUT);
    assert_eq!((kept.toggles(), kept.scale(), kept.is_reduced()), ((true, false), 800_000, false));
}

#[test]
fn a_software_adapter_never_overrides_the_player() {
    let mut d = Display::new(FRESH, false, LAYOUT);
    assert!(d.on_gpu_info(true, 1000));
    assert_eq!((d.scale(), size(&d)), (500_000, (800, 600)));
    assert!(!d.on_gpu_info(true, 0));
    assert_eq!(size(&d), (1, 1));
    let mut e = Display::new(FRESH, false, LAYOUT);
    e.slide(Some(75_000_000));
    assert_eq!((e.scale(), pct_of(e.scale())), (750_000, 75));
    assert!(!e.on_gpu_info(true, 8192));
    assert_eq!(e.scale(), 750_000);
    e.slide(None);
    assert_eq!(e.scale(), 1_000_000);
    e.slide(Some(5_000_000));
    assert_eq!(e.scale(), 500_000);
}

#[test]
fn a_toggle_posts_the_current_pair() {
    let mut d = Display::new(FRESH, false, LAYOUT);
    assert!(matches!(d.set_msaa(false), QualityMsg::AntiAlias { msaa: false, smaa: true }));
    assert!(matches!(d.set_smaa(false), QualityMsg::AntiAlias { msaa: false, smaa: false }));
    assert!(matches!(d.set_msaa(true), QualityMsg::AntiAlias { msaa: true, smaa: false }));
    d.relayout(Layout { css_w: 0, css_h: 10_000_000, dpr: 1 });
    assert_eq!(size(&d), (1, 10));
}

#[test]
fn toggles_are_stored_as_digits() {
    for val in [true, false] {
        assert_eq!(stored_bool(Some(bool_text(val))), Some(val));
    }
    assert_eq!(bool_text(true), "1");
    assert_eq!(stored_bool(Some("true")), None);
    assert_eq!(stored_bool(None), None);
    assert!(stats_start_open(false, Some(true)));
    assert!(!stats_start_open(true, Some(true)));
    assert!(!stats_start_open(false, None));
}

#[test]
fn a_reset_forgets_every_key() {
    let names: Vec<&str> = reset_keys().iter().map(|k| k.name()).collect();
    assert_eq!(names, vec!["awsm_res_scale", "awsm_msaa", "awsm_smaa", "awsm_stats"]);
    assert!(reset_keys().contains(&StorageKey::Stats));
}

#[test]
fn the_loading_log_keeps_the_latest_lines() {
    let mut log = LoadingLog::new();
    let gone: usize = (0..20).map(|i| log.add_line(&format!("line {i}"))).sum();
    assert_eq!(MAX_LOG_LINES, 14);
    assert_eq!(gone, 6);
}

#[test]
fn overlays_open_and_close() {
    assert!(overlay(false, OverlayEvent::Button));
    assert!(!overlay(true, OverlayEvent::Backdrop));
    assert!(!overlay(true, OverlayEvent::Close));
    assert!(!overlay(true, OverlayEvent::Escape));
    for open in [true, false] {
        assert_eq!(overlay(open, OverlayEvent::Inside), open);
        assert_eq!(overlay(open, OverlayEvent::OtherKey), open);
    }
}

#[test]
fn media_come_from_the_first_place_that_is_set() {
    let page = |asked, built| page_base(asked, built, "https://h/", "/repo/index.html");
    assert_eq!(page(Some("http://m//"), Some("http://b/")), "http://m");
    assert_eq!(page(Some(""), Some("http://b/")), "http://b");
    assert_eq!(page(None, Some("")), "https://h/repo");
    assert_eq!(page_base(None, None, "https://h", "/"), "https://h");
    assert_eq!(page_base(None, None, "https://h", "x"), "https://hx");
    assert_eq!(page_base(None, None, "https://h", "/a//"), "https://h/a");
    assert_eq!(page_base(None, None, "https://h//", "////"), "https://h");
}

#[test]
fn the_panel_rounds_its_numbers() {
    let text = format_stats(&StatsMsg {
        fps: 59_500_000,
        frame_ms: 4_249_999,
        step_ms: 205_000,
        sps: 239_400_000,
        balls: 12,
    });
    assert_eq!(
        text,
        "engine\n  fps           60\n  frame time    4.2 ms\n  physics time  0.20 ms\n  \
         physics       239 steps/s\n\nballs dropped  12"
    );
    let ties = format_stats(&StatsMsg {
        fps: 60_500_000,
        frame_ms: 250_000,
        step_ms: -1_125_000,
        sps: -400_000,
        balls: 0,
    });
    assert_eq!(
        ties,
        "engine\n  fps           60\n  frame time    0.2 ms\n  physics time  -1.12 ms\n  \
         physics       -0 steps/s\n\nballs dropped  0"
    );
    assert_eq!(ties, format!(
        "engine\n  fps           {:.0}\n  frame time    {:.1} ms\n  physics time  {:.2} ms\n  \
         physics       {:.0} steps/s\n\nballs dropped  {}",
        60.5f64, 0.25f64, -1.125f64, -0.4f64, 0
    ));
    for pct in 50..=100u32 {
        assert_eq!(scale_text(pct * 10_000), format!("{:.2}", f64::from(pct) / 100.0));
    }
    assert_eq!(decimal_text(0), "0");
    assert_eq!(decimal_text(u64::MAX), "18446744073709551615");
}

fn log_of(a: &UiAction) -> &str {
    match a {
        UiAction::Log(s) => s,
        _ => panic!("a log line"),
    }
}

#[test]
fn reports_lead_to_page_actions() {
    let mut d = Display::new(FRESH, true, LAYOUT);
    let progress = on_render(&mut d, RenderMsg::Progress { message: "x".to_string() });
    assert_eq!((progress.len(), log_of(&progress[0])), (1, "x"));
    let ready = on_render(&mut d, RenderMsg::Ready);
    assert_eq!(ready.len(), 4);
    assert_eq!(log_of(&ready[0]), "first frames rendered — ready");
    assert!(matches!(ready[1], UiAction::LoadingDone));
    assert!(matches!(ready[3], UiAction::OpenNotice));
    let error = on_render(&mut d, RenderMsg::Error { message: "bad".to_string() });
    assert_eq!(log_of(&error[0]), "ERROR: bad");
    assert!(matches!(&error[1], UiAction::Status(s) if s == "worker error: bad"));
    assert!(on_render(&mut d, RenderMsg::AaCompileDone).is_empty());
}

#[test]
fn a_software_adapter_is_reported_and_answered() {
    let mut d = Display::new(FRESH, false, LAYOUT);
    let r = on_render(&mut d, RenderMsg::GpuInfo { is_fallback: true, max_texture_dim: 4096 });
    assert!(matches!(r[0], UiAction::Percent(50)));
    assert_eq!(log_of(&r[1]), "software GPU detected — starting at 50% resolution");
    assert!(matches!(r[2], UiAction::Resize(ResizeMsg::Canvas { width: 800, height: 600 })));
    let again = on_render(&mut d, RenderMsg::GpuInfo { is_fallback: false, max_texture_dim: 64 });
    assert!(matches!(again[..], [UiAction::Resize(ResizeMsg::Canvas { width: 64, height: 64 })]));
    assert_eq!(on_render(&mut Display::new(FRESH, false, LAYOUT), RenderMsg::Ready).len(), 3);
}

#[test]
fn small_text_questions() {
    assert!(contains("North_Wall_1", "Wall") && contains("abc", ""));
    assert!(!contains("wall", "Wall") && !contains("Wal", "Wall"));
    assert!(same("é", "é") && !same("é", "e") && !same("a", "aa"));
    assert_eq!(trim_slashes("///"), "");
    assert_eq!(trim_slashes("a/b"), "a/b");
    assert_eq!(directory_of("/a/b/c"), "/a/b");
    assert_eq!(directory_of("abc"), "abc");
    assert_eq!(joined("ab", "c"), "abc");
}
