use single_player_game_physics::audio::export::parse_library;
use single_player_game_physics::audio::{
    listener, module_url, project_url, stage_pos, voice_spec, AudioCommand, AudioController,
    GraphNode, Library, Param, SampleSpec, Setting, Tone, VoiceError,
};
use single_player_game_physics::noise::{
    bounce_count, Lcg, VoiceSeeds, Xorshift, FIRST_VOICE_SEED, ROLL_SEED,
};
use single_player_game_physics::physics::motion::Heading;
use single_player_game_physics::protocol::AudioMsg;
use single_player_game_physics::wasm_shim::{
    alloc_size, b3Hash, free_layout, header_address, header_of, place, set_shim_log, ShimLog,
};

fn label(text: &str) -> GraphNode {
    GraphNode { label: Some(text.to_string()), worklet: false }
}

fn worklet() -> GraphNode {
    GraphNode { label: None, worklet: true }
}

fn sample(name: &str, nodes: Vec<GraphNode>) -> SampleSpec {
    SampleSpec { name: name.to_string(), nodes }
}

fn library(clack: bool) -> Library {
    let mut samples = vec![
        sample("sfx_ball_roll", vec![worklet(), label("roll_LEVEL"), label("a roll_PANNER b")]),
        sample("sfx_wall_hit", vec![label("hit_LEVEL"), label("hit_PANNER"), label("hit_FILTER")]),
        sample("sfx_land", vec![label("land_FILTER"), label("land_LEVEL"), label("land_PANNER")]),
    ];
    if clack {
        samples.push(sample(
            "sfx_ball_clack",
            vec![label("clack_LEVEL"), label("clack_PANNER"), worklet()],
        ));
    }
    Library { samples, wasm_modules: vec!["m".to_string()] }
}

fn controller(clack: bool) -> AudioController<u32> {
    match AudioController::load(&library(clack)) {
        Ok(c) => c,
        Err(e) => panic!("{}", e.message()),
    }
}

fn fired(commands: &[AudioCommand<u32>]) -> (usize, Vec<Setting>) {
    match commands.last() {
        Some(AudioCommand::Fire { sample, overrides }) => (*sample, overrides.clone()),
        _ => panic!("a voice is fired"),
    }
}

fn set(node: usize, param: Param, value: i64) -> Setting {
    Setting { node, param, value }
}

#[test]
fn each_voice_error_has_its_export() {
    let err = |lib: &Library| match AudioController::<u32>::load(lib) {
        Ok(_) => String::new(),
        Err(e) => e.message(),
    };
    assert_eq!(err(&library(false)), "");
    let bare = Library { samples: library(true).samples, wasm_modules: vec![] };
    assert_eq!(err(&bare), "audio: no wasm worklet in export");
    let mut lib = library(true);
    lib.samples.remove(1);
    assert_eq!(err(&lib), "audio: no sample 'sfx_wall_hit'");
    let mut lib = library(true);
    lib.samples[2].nodes.remove(0);
    assert_eq!(err(&lib), "audio: no node 'land_FILTER'");
    let mut lib = library(true);
    lib.samples[0].nodes.remove(1);
    assert_eq!(err(&lib), "audio: no node 'roll_LEVEL'");
    let mut lib = library(true);
    lib.samples[0].nodes.remove(0);
    assert_eq!(err(&lib), "audio: roll has no worklet node");
    let r = voice_spec(&vec![], "s", "l", "p", Tone::Worklet);
    assert!(matches!(r, Err(VoiceError::NoSample(name)) if name == "s"));
}

#[test]
fn control_nodes_are_found_by_label() {
    let v = match voice_spec(
        &library(true).samples,
        "sfx_land",
        "land_LEVEL",
        "land_PANNER",
        Tone::Filter("land_FILTER"),
    ) {
        Ok(v) => v,
        Err(e) => panic!("{}", e.message()),
    };
    assert_eq!((v.sample, v.level, v.panner, v.tone), (2, 1, 2, Some(0)));
}

#[test]
fn nothing_sounds_before_a_gesture() {
    let mut c = controller(true);
    let hit = AudioMsg::WallHit { x: 0, y: 0, z: 0, intensity: 1_000_000 };
    assert!(c.on_audio(hit, 0).is_empty());
    let start = c.ensure_started();
    assert_eq!(start.len(), 4);
    assert!(matches!(start[0], AudioCommand::Resume));
    assert!(matches!(start[1], AudioCommand::PlayLoop { sample: 0 }));
    assert!(matches!(start[2], AudioCommand::Live { sample: 0, setting, glide: 0 } if setting == set(1, Param::Gain, 0)));
    assert!(matches!(start[3], AudioCommand::Live { sample: 0, setting, glide: 0 } if setting == set(0, Param::Speed, 0)));
    assert!(c.ensure_started().is_empty());
    assert_eq!(c.on_audio(hit, 0).len(), 1);
}

#[test]
fn rolling_is_nudged_live() {
    let mut c = controller(true);
    c.ensure_started();
    let r = c.on_audio(AudioMsg::Roll { speed: 300_000, x: 9_000_000, y: 5, z: -1_000_000 }, 0);
    let settings: Vec<Setting> = r
        .iter()
        .map(|c| match c {
            AudioCommand::Live { sample: 0, setting, glide: 50_000 } => *setting,
            _ => panic!("only live changes"),
        })
        .collect();
    assert_eq!(
        settings,
        vec![
            set(1, Param::Gain, 300_000),
            set(0, Param::Speed, 300_000),
            set(2, Param::PositionX, 3_000_000),
            set(2, Param::PositionY, 0),
            set(2, Param::PositionZ, -1_000_000),
        ]
    );
}

#[test]
fn impacts_fire_voices_of_their_own() {
    let mut c = controller(true);
    c.ensure_started();
    let (sample, o) =
        fired(&c.on_audio(AudioMsg::WallHit { x: 1, y: 2, z: 3, intensity: 500_000 }, 0));
    assert_eq!(sample, 1);
    assert_eq!(
        o,
        vec![
            set(0, Param::Gain, 500_000),
            set(1, Param::PositionX, 1),
            set(1, Param::PositionY, 0),
            set(1, Param::PositionZ, 3),
            set(2, Param::Frequency, 600_000_000),
        ]
    );
    let (sample, o) =
        fired(&c.on_audio(AudioMsg::Land { x: 0, y: 0, z: 0, intensity: 1_000_000 }, 0));
    assert_eq!((sample, o[4]), (2, set(0, Param::Frequency, 1_050_000_000)));
    let (sample, o) =
        fired(&c.on_audio(AudioMsg::BallClack { x: 0, y: 0, z: 0, intensity: 700_000 }, 0));
    assert_eq!((sample, o[4]), (3, set(2, Param::Intensity, 700_000)));
}

#[test]
fn an_old_export_knocks_instead_of_clacking() {
    let mut c = controller(false);
    c.ensure_started();
    let (sample, o) =
        fired(&c.on_audio(AudioMsg::BallClack { x: 0, y: 0, z: 0, intensity: 500_000 }, 0));
    assert_eq!((sample, o[4]), (1, set(2, Param::Frequency, 2_100_000_000)));
}

#[test]
fn voices_are_stopped_when_their_tail_is_over() {
    let mut c = controller(true);
    c.ensure_started();
    c.track_voice(Some(1), 0);
    c.track_voice(None, 0);
    c.track_voice(Some(2), 100_000);
    c.track_voice(Some(3), 0);
    let stops = |r: Vec<AudioCommand<u32>>| -> Vec<u32> {
        r.iter()
            .filter_map(|c| match c {
                AudioCommand::Stop { voice } => Some(*voice),
                _ => None,
            })
            .collect()
    };
    let rest = AudioMsg::Roll { speed: 0, x: 0, y: 0, z: 0 };
    assert!(stops(c.on_audio(rest, 599_999)).is_empty());
    assert_eq!(stops(c.on_audio(rest, 600_000)), vec![1, 3]);
    assert_eq!(stops(c.on_audio(rest, 700_000)), vec![2]);
    assert!(stops(c.on_audio(rest, 9_000_000)).is_empty());
}

#[test]
fn the_stage_and_the_listener() {
    assert_eq!(stage_pos(-9_000_000, 2_500_000), [-3_000_000, 0, 2_000_000]);
    assert_eq!(stage_pos(5, -7), [5, 0, -7]);
    let l = listener(&Heading { sin: 600_000, cos: 800_000 });
    assert_eq!(l.position, [600_000, 900_000, 800_000]);
    assert_eq!(l.forward, [-600_000, 0, -800_000]);
    assert_eq!(controller(true).set_camera_yaw(&Heading { sin: 600_000, cos: 800_000 }), l);
    assert_eq!(project_url("http://h/"), "http://h/audio/project.toml");
    assert_eq!(module_url("http://h", "id"), "http://h/audio/assets/id.wasm");
    let names: Vec<&str> = [Param::Gain, Param::Speed, Param::PositionX, Param::Frequency]
        .iter()
        .map(|p| p.name())
        .collect();
    assert_eq!(names, vec!["gain", "speed", "positionX", "frequency"]);
}

#[test]
fn the_noise_streams() {
    let mut x = Xorshift::new(1);
    assert_eq!(x.rand_u(), 270_369);
    assert_eq!(x.rand_u(), 67_634_689);
    let mut roll = Xorshift::new(ROLL_SEED);
    for _ in 0..1000 {
        assert!(roll.rand_f() < 1 << 24);
        assert_ne!(roll.rand_u(), 0);
    }
    let mut l = Lcg::new(0);
    assert_eq!(l.next_bi(), (1_013_904_223u32 >> 8) as i32 - 8_388_608);
    let mut seeds = VoiceSeeds::new();
    assert_eq!(seeds.take(), FIRST_VOICE_SEED);
    assert_eq!(seeds.take(), 0x0b62_f3ae);
    let mut later: Vec<u32> = (0..1000).map(|_| seeds.take()).collect();
    later.sort_unstable();
    later.dedup();
    assert_eq!(later.len(), 1000);
}

#[test]
fn hard_collisions_rattle() {
    let counts: Vec<usize> =
        [-1, 0, 222_222, 222_223, 500_000, 888_889, 1_000_000, 9_000_000]
            .iter()
            .map(|i| bounce_count(*i))
            .collect();
    assert_eq!(counts, vec![0, 0, 0, 1, 2, 4, 4, 4]);
}

#[test]
fn the_hash_takes_eight_bytes_at_a_time() {
    assert_eq!(b3Hash(5381, &[]), 5381);
    assert_eq!(b3Hash(5381, b"a"), 5381 * 33 + 97);
    let data: Vec<u8> = (0u8..21).collect();
    let mut expected = 5381u32;
    for word in [0x0302_0100u32, 0x0706_0504, 0x0b0a_0908, 0x0f0e_0d0c] {
        expected = expected.wrapping_mul(33).wrapping_add(word);
    }
    for byte in 16u32..21 {
        expected = expected.wrapping_mul(33).wrapping_add(byte);
    }
    assert_eq!(b3Hash(5381, &data), expected);
    assert_eq!(b3Hash(b3Hash(5381, &data[..16]), &data[16..]), expected);
}

#[test]
fn blocks_are_aligned_and_give_back_what_they_took() {
    assert_eq!(alloc_size(0, 0), 25);
    assert_eq!(alloc_size(100, 64), 172);
    for (base, size, align) in [(16, 1, 1), (48, 100, 64), (4096, 7, 4096), (1000, 0, 32)] {
        let b = place(base, size, align);
        let a = if align < 16 { 16 } else { align };
        assert_eq!(b.user % a, 0);
        assert!(header_address(b.user) >= b.base);
        assert!(b.user + size.max(1) <= b.base + b.total);
        assert_eq!(free_layout(b.user, header_of(&b)), Some((base, alloc_size(size, align))));
    }
    assert_eq!(free_layout(0, (1, 2)), None);
}

#[test]
fn messages_go_where_they_were_sent() {
    let mut log = ShimLog::new();
    assert_eq!(log.route(true), None);
    set_shim_log(&mut log, 0x40);
    assert_eq!(log.route(true), Some(0x40));
    assert_eq!(log.route(false), None);
    set_shim_log(&mut log, 0x80);
    assert_eq!(log.route(true), Some(0x80));
}

const ID: &str = "00000000-0000-0000-0000-0000000000aa";

fn written(name: &str, nodes: &[&str]) -> String {
    let mut text = format!("[[library.samples]]\nid = \"{ID}\"\nname = \"{name}\"\n[library.samples.graph]\n");
    for label in nodes {
        text += &format!("[[library.samples.graph.nodes]]\nid = \"{ID}\"\n");
        text += &if label.is_empty() {
            "kind = { kind = \"audio_worklet\", props = {} }\n".to_string()
        } else {
            format!("label = \"{label}\"\nkind = {{ kind = \"gain\", props = {{ gain = {{ value = 1.0 }} }} }}\n")
        };
    }
    text
}

#[test]
fn a_project_file_gives_its_sounds() {
    let text = format!(
        "pan_x = 3.0\nzoom = 1.0\n[library]\nversion = 1\n{}{}{}\
         [[library.assets.wasm_modules]]\nid = \"{ID}\"\nsource = {{ kind = \"url\", data = \"x\" }}\n",
        written("sfx_land", &["land_FILTER", "land_LEVEL", "land_PANNER"]),
        written("sfx_ball_roll", &["the roll_PANNER", "", "roll_LEVEL"]),
        written("sfx_wall_hit", &["hit_LEVEL", "hit_PANNER", "hit_FILTER"]),
    );
    let (lib, seen) = match parse_library(&text) {
        Ok(parsed) => parsed,
        Err(e) => panic!("{e}"),
    };
    assert_eq!((lib.samples.len(), lib.samples[0].graph.nodes.len()), (3, 3));
    assert_eq!(seen.wasm_modules, vec![ID.to_string()]);
    let names: Vec<&str> = seen.samples.iter().map(|s| s.name.as_str()).collect();
    assert_eq!(names, vec!["sfx_land", "sfx_ball_roll", "sfx_wall_hit"]);
    let roll: Vec<(Option<&str>, bool)> =
        seen.samples[1].nodes.iter().map(|n| (n.label.as_deref(), n.worklet)).collect();
    assert_eq!(
        roll,
        vec![(Some("the roll_PANNER"), false), (None, true), (Some("roll_LEVEL"), false)]
    );
    match voice_spec(&seen.samples, "sfx_ball_roll", "roll_LEVEL", "roll_PANNER", Tone::Worklet) {
        Ok(v) => assert_eq!((v.sample, v.level, v.panner, v.tone), (1, 2, 0, Some(1))),
        Err(e) => panic!("{}", e.message()),
    }
    assert!(AudioController::<u32>::load(&seen).is_ok());
}

#[test]
fn a_text_that_is_no_project_says_why() {
    let line = |text: &str| parse_library(text).err().unwrap_or_default();
    for text in ["", "library = 3", "[library", "[library]\nsamples = 1"] {
        let line = line(text);
        assert!(line.starts_with("audio: parse project.toml: "), "{line}");
        assert!(line.len() > "audio: parse project.toml: ".len());
    }
    assert!(line("").contains("library"));
}
