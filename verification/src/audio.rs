//! The sounds: which nodes of the exported graphs are driven, and what each cue does to them.
//!
//! Gains, speeds and intensities are millionths, frequencies microhertz, positions
//! micrometres, times microseconds. A node is named by its position in its sample's graph.

pub mod export;

use vstd::prelude::*;
use vstd::string::*;

use crate::physics::motion::Heading;
use crate::protocol::AudioMsg;
use crate::text::{contains, joined, occurs, same, texts, trim_slashes, trimmed};
use crate::units::{clamp_i64, clamp_int, div_round, held, hold, round_div};

verus! {

/// The tabletop's half width: no sound leaves it.
pub const TABLE_HALF_X: i64 = 3_000_000;

/// The tabletop's half depth.
pub const TABLE_HALF_Z: i64 = 2_000_000;

/// How far from the table's centre the listener circles.
pub const LISTENER_ORBIT_RADIUS: i64 = 1_000_000;

/// How high the listener hovers.
pub const LISTENER_HEIGHT: i64 = 900_000;

/// The most impact voices that sound at once.
pub const MAX_IMPACT_VOICES: usize = 8;

/// How long an impact voice lives.
pub const IMPACT_VOICE_TTL: u64 = 600_000;

/// How long a live change of the rolling sound takes.
pub const GLIDE: u64 = 50_000;

// ---------------------------------------------------------------------------------------
// The export

/// A node of a sample's graph, as far as the game asks.
pub struct GraphNode {
    pub label: Option<String>,
    pub worklet: bool,
}

/// A sample of the export.
pub struct SampleSpec {
    pub name: String,
    pub nodes: Vec<GraphNode>,
}

/// The exported sounds: the samples, and the ids of the worklet modules they run.
pub struct Library {
    pub samples: Vec<SampleSpec>,
    pub wasm_modules: Vec<String>,
}

/// What a [`GraphNode`] holds.
pub struct GraphView {
    pub label: Option<Seq<char>>,
    pub worklet: bool,
}

/// What a [`SampleSpec`] holds.
pub struct SampleView {
    pub name: Seq<char>,
    pub nodes: Seq<GraphView>,
}

/// What a [`Library`] holds.
pub struct LibraryView {
    pub samples: Seq<SampleView>,
    pub wasm_modules: Seq<Seq<char>>,
}

impl View for GraphNode {
    type V = GraphView;

    open spec fn view(&self) -> GraphView {
        GraphView {
            label: match self.label {
                Some(l) => Some(l@),
                None => None,
            },
            worklet: self.worklet,
        }
    }
}

/// What nodes hold.
pub open spec fn graph_views(nodes: Seq<GraphNode>) -> Seq<GraphView> {
    nodes.map_values(|n: GraphNode| n@)
}

impl View for SampleSpec {
    type V = SampleView;

    open spec fn view(&self) -> SampleView {
        SampleView { name: self.name@, nodes: graph_views(self.nodes@) }
    }
}

/// What samples hold.
pub open spec fn sample_views(samples: Seq<SampleSpec>) -> Seq<SampleView> {
    samples.map_values(|s: SampleSpec| s@)
}

impl View for Library {
    type V = LibraryView;

    open spec fn view(&self) -> LibraryView {
        LibraryView {
            samples: sample_views(self.samples@),
            wasm_modules: texts(self.wasm_modules@),
        }
    }
}

/// A sound that is driven: its sample and its control nodes.
#[derive(Debug, Clone, Copy, PartialEq, Eq)]
pub struct VoiceSpec {
    pub sample: usize,
    /// The gain at its end.
    pub level: usize,
    /// Its place.
    pub panner: usize,
    /// The worklet or the filter that colours it.
    pub tone: Option<usize>,
}

/// What colours a sound.
#[derive(Debug, Clone, Copy)]
pub enum Tone {
    Worklet,
    Filter(&'static str),
}

/// Why an export cannot be driven.
#[derive(Debug, Clone)]
pub enum VoiceError {
    /// The export runs no worklet.
    NoModule,
    NoSample(String),
    NoNode(String),
    NoWorklet,
}

/// A [`VoiceError`] in words.
pub open spec fn error_words(e: VoiceError) -> Seq<char> {
    match e {
        VoiceError::NoModule => "audio: no wasm worklet in export"@,
        VoiceError::NoSample(name) => "audio: no sample '"@ + name@ + "'"@,
        VoiceError::NoNode(label) => "audio: no node '"@ + label@ + "'"@,
        VoiceError::NoWorklet => "audio: roll has no worklet node"@,
    }
}

impl VoiceError {
    /// The error in words.
    pub fn message(&self) -> (r: String)
        ensures
            r@ == error_words(*self),
    {
        match self {
            VoiceError::NoModule => "audio: no wasm worklet in export".to_owned(),
            VoiceError::NoSample(name) => {
                let mut r: String = joined("audio: no sample '", name.as_str());
                r.append("'");
                r
            },
            VoiceError::NoNode(label) => {
                let mut r: String = joined("audio: no node '", label.as_str());
                r.append("'");
                r
            },
            VoiceError::NoWorklet => "audio: roll has no worklet node".to_owned(),
        }
    }
}

/// Whether a node's label holds `needle`.
pub open spec fn labelled(n: GraphView, needle: Seq<char>) -> bool {
    n.label matches Some(l) && occurs(l, needle)
}

/// The first node from `from` on whose label holds `needle`.
pub open spec fn label_at(nodes: Seq<GraphView>, needle: Seq<char>, from: int) -> Option<int>
    decreases nodes.len() - from,
{
    if from < 0 || from >= nodes.len() {
        None
    } else if labelled(nodes[from], needle) {
        Some(from)
    } else {
        label_at(nodes, needle, from + 1)
    }
}

/// The first worklet node from `from` on.
pub open spec fn worklet_at(nodes: Seq<GraphView>, from: int) -> Option<int>
    decreases nodes.len() - from,
{
    if from < 0 || from >= nodes.len() {
        None
    } else if nodes[from].worklet {
        Some(from)
    } else {
        worklet_at(nodes, from + 1)
    }
}

/// The first sample from `from` on with this name.
pub open spec fn sample_at(samples: Seq<SampleView>, name: Seq<char>, from: int) -> Option<int>
    decreases samples.len() - from,
{
    if from < 0 || from >= samples.len() {
        None
    } else if samples[from].name == name {
        Some(from)
    } else {
        sample_at(samples, name, from + 1)
    }
}

/// The first node whose label holds `needle`.
pub fn node_by_label(nodes: &Vec<GraphNode>, needle: &str) -> (r: Option<usize>)
    ensures
        match r {
            Some(i) => label_at(graph_views(nodes@), needle@, 0) == Some(i as int),
            None => label_at(graph_views(nodes@), needle@, 0) is None,
        },
{
    let mut i: usize = 0;
    while i < nodes.len()
        invariant
            i <= nodes@.len(),
            label_at(graph_views(nodes@), needle@, 0) == label_at(graph_views(nodes@), needle@, i as int),
        decreases nodes@.len() - i,
    {
        assert(graph_views(nodes@)[i as int] == nodes@[i as int]@);
        let hit: bool = match &nodes[i].label {
            Some(l) => contains(l.as_str(), needle),
            None => false,
        };
        if hit {
            return Some(i);
        }
        i = i + 1;
    }
    None
}

/// The first worklet node.
pub fn worklet_node(nodes: &Vec<GraphNode>) -> (r: Option<usize>)
    ensures
        match r {
            Some(i) => worklet_at(graph_views(nodes@), 0) == Some(i as int),
            None => worklet_at(graph_views(nodes@), 0) is None,
        },
{
    let mut i: usize = 0;
    while i < nodes.len()
        invariant
            i <= nodes@.len(),
            worklet_at(graph_views(nodes@), 0) == worklet_at(graph_views(nodes@), i as int),
        decreases nodes@.len() - i,
    {
        assert(graph_views(nodes@)[i as int] == nodes@[i as int]@);
        if nodes[i].worklet {
            return Some(i);
        }
        i = i + 1;
    }
    None
}

fn sample_by_name(samples: &Vec<SampleSpec>, name: &str) -> (r: Option<usize>)
    ensures
        match r {
            Some(i) => sample_at(sample_views(samples@), name@, 0) == Some(i as int) && i < samples@.len(),
            None => sample_at(sample_views(samples@), name@, 0) is None,
        },
{
    let mut i: usize = 0;
    while i < samples.len()
        invariant
            i <= samples@.len(),
            sample_at(sample_views(samples@), name@, 0) == sample_at(sample_views(samples@), name@, i as int),
        decreases samples@.len() - i,
    {
        assert(sample_views(samples@)[i as int] == samples@[i as int]@);
        if same(samples[i].name.as_str(), name) {
            return Some(i);
        }
        i = i + 1;
    }
    None
}

/// The node that colours a sound.
pub open spec fn tone_at(nodes: Seq<GraphView>, tone: Tone) -> Option<int> {
    match tone {
        Tone::Worklet => worklet_at(nodes, 0),
        Tone::Filter(label) => label_at(nodes, label@, 0),
    }
}

/// Whether a voice names the sample and the nodes that it should.
pub open spec fn resolves(
    samples: Seq<SampleView>,
    name: Seq<char>,
    level: Seq<char>,
    panner: Seq<char>,
    tone: Tone,
    v: VoiceSpec,
) -> bool {
    &&& sample_at(samples, name, 0) == Some(v.sample as int)
    &&& label_at(samples[v.sample as int].nodes, level, 0) == Some(v.level as int)
    &&& label_at(samples[v.sample as int].nodes, panner, 0) == Some(v.panner as int)
    &&& v.tone matches Some(t) && tone_at(samples[v.sample as int].nodes, tone) == Some(t as int)
}

/// The first thing that is missing for a voice: the sample, the gain, the panner, or what
/// colours it, in this order.
pub open spec fn missing(
    samples: Seq<SampleView>,
    name: Seq<char>,
    level: Seq<char>,
    panner: Seq<char>,
    tone: Tone,
) -> Option<Seq<char>> {
    match sample_at(samples, name, 0) {
        None => Some("audio: no sample '"@ + name + "'"@),
        Some(i) => {
            let nodes = samples[i].nodes;
            if label_at(nodes, level, 0) is None {
                Some("audio: no node '"@ + level + "'"@)
            } else if label_at(nodes, panner, 0) is None {
                Some("audio: no node '"@ + panner + "'"@)
            } else if tone_at(nodes, tone) is None {
                match tone {
                    Tone::Worklet => Some("audio: roll has no worklet node"@),
                    Tone::Filter(label) => Some("audio: no node '"@ + label@ + "'"@),
                }
            } else {
                None
            }
        },
    }
}

/// A node that is found by its label is the first that has it, wherever it stands, and none is
/// found only where no node has it.
pub proof fn labels_find_their_nodes(nodes: Seq<GraphView>, needle: Seq<char>, from: int)
    requires
        0 <= from,
    ensures
        match label_at(nodes, needle, from) {
            Some(i) => from <= i < nodes.len() && labelled(nodes[i], needle) && forall|j: int|
                from <= j < i ==> !labelled(#[trigger] nodes[j], needle),
            None => forall|j: int|
                from <= j < nodes.len() ==> !labelled(#[trigger] nodes[j], needle),
        },
    decreases nodes.len() - from,
{
    if from < nodes.len() && !labelled(nodes[from], needle) {
        labels_find_their_nodes(nodes, needle, from + 1);
    }
}

/// A worklet node that is found is the first, and none is found only where there is none.
pub proof fn worklets_are_found_by_kind(nodes: Seq<GraphView>, from: int)
    requires
        0 <= from,
    ensures
        match worklet_at(nodes, from) {
            Some(i) => from <= i < nodes.len() && nodes[i].worklet && forall|j: int|
                from <= j < i ==> !(#[trigger] nodes[j]).worklet,
            None => forall|j: int| from <= j < nodes.len() ==> !(#[trigger] nodes[j]).worklet,
        },
    decreases nodes.len() - from,
{
    if from < nodes.len() && !nodes[from].worklet {
        worklets_are_found_by_kind(nodes, from + 1);
    }
}

/// A voice's control nodes are what the sound asks for: they stand in a sample of its name, and
/// carry its labels, or are a worklet.
pub proof fn control_nodes_carry_their_labels(
    samples: Seq<SampleView>,
    name: Seq<char>,
    level: Seq<char>,
    panner: Seq<char>,
    tone: Tone,
    v: VoiceSpec,
)
    requires
        resolves(samples, name, level, panner, tone, v),
    ensures
        v.sample < samples.len(),
        samples[v.sample as int].name == name,
        ({
            let nodes = samples[v.sample as int].nodes;
            &&& v.level < nodes.len() && labelled(nodes[v.level as int], level)
            &&& v.panner < nodes.len() && labelled(nodes[v.panner as int], panner)
            &&& v.tone matches Some(t) && t < nodes.len() && match tone {
                Tone::Worklet => nodes[t as int].worklet,
                Tone::Filter(label) => labelled(nodes[t as int], label@),
            }
        }),
{
    samples_are_found_by_name(samples, name, 0);
    let nodes = samples[v.sample as int].nodes;
    labels_find_their_nodes(nodes, level, 0);
    labels_find_their_nodes(nodes, panner, 0);
    match tone {
        Tone::Worklet => worklets_are_found_by_kind(nodes, 0),
        Tone::Filter(label) => labels_find_their_nodes(nodes, label@, 0),
    }
}

proof fn samples_are_found_by_name(samples: Seq<SampleView>, name: Seq<char>, from: int)
    requires
        0 <= from,
    ensures
        sample_at(samples, name, from) matches Some(i) ==> from <= i < samples.len()
            && samples[i].name == name,
    decreases samples.len() - from,
{
    if from < samples.len() && samples[from].name != name {
        samples_are_found_by_name(samples, name, from + 1);
    }
}

/// Finds a sound's sample by name and its control nodes by label.
pub fn voice_spec(
    samples: &Vec<SampleSpec>,
    sample_name: &str,
    level_label: &str,
    panner_label: &str,
    tone: Tone,
) -> (r: Result<VoiceSpec, VoiceError>)
    ensures
        match missing(sample_views(samples@), sample_name@, level_label@, panner_label@, tone) {
            None => r matches Ok(v) && resolves(
                sample_views(samples@),
                sample_name@,
                level_label@,
                panner_label@,
                tone,
                v,
            ),
            Some(words) => r matches Err(e) && error_words(e) == words,
        },
{
    let sample: usize = match sample_by_name(samples, sample_name) {
        Some(i) => i,
        None => {
            return Err(VoiceError::NoSample(sample_name.to_owned()));
        },
    };
    assert(sample_views(samples@)[sample as int] == samples@[sample as int]@);
    let nodes = &samples[sample].nodes;
    let level: usize = match node_by_label(nodes, level_label) {
        Some(i) => i,
        None => {
            return Err(VoiceError::NoNode(level_label.to_owned()));
        },
    };
    let panner: usize = match node_by_label(nodes, panner_label) {
        Some(i) => i,
        None => {
            return Err(VoiceError::NoNode(panner_label.to_owned()));
        },
    };
    let tone_node: usize = match tone {
        Tone::Worklet => match worklet_node(nodes) {
            Some(i) => i,
            None => {
                return Err(VoiceError::NoWorklet);
            },
        },
        Tone::Filter(label) => match node_by_label(nodes, label) {
            Some(i) => i,
            None => {
                return Err(VoiceError::NoNode(label.to_owned()));
            },
        },
    };
    Ok(VoiceSpec { sample, level, panner, tone: Some(tone_node) })
}

/// The address of the sound project.
pub fn project_url(base: &str) -> (r: String)
    ensures
        r@ == trimmed(base@) + "/audio/project.toml"@,
{
    joined(trim_slashes(base).as_str(), "/audio/project.toml")
}

/// The address of a worklet module.
pub fn module_url(base: &str, id: &str) -> (r: String)
    ensures
        r@ == trimmed(base@) + "/audio/assets/"@ + id@ + ".wasm"@,
{
    let mut r: String = joined(trim_slashes(base).as_str(), "/audio/assets/");
    r.append(id);
    r.append(".wasm");
    r
}

// ---------------------------------------------------------------------------------------
// Driving the sounds

/// A parameter that is driven.
#[derive(Debug, Clone, Copy, PartialEq, Eq, Structural)]
pub enum Param {
    Gain,
    Speed,
    PositionX,
    PositionY,
    PositionZ,
    Frequency,
    Intensity,
}

impl Param {
    /// The name the player knows a parameter by.
    pub fn name(&self) -> (r: &'static str)
        ensures
            r@ == match self {
                Param::Gain => "gain"@,
                Param::Speed => "speed"@,
                Param::PositionX => "positionX"@,
                Param::PositionY => "positionY"@,
                Param::PositionZ => "positionZ"@,
                Param::Frequency => "frequency"@,
                Param::Intensity => "intensity"@,
            },
    {
        match self {
            Param::Gain => "gain",
            Param::Speed => "speed",
            Param::PositionX => "positionX",
            Param::PositionY => "positionY",
            Param::PositionZ => "positionZ",
            Param::Frequency => "frequency",
            Param::Intensity => "intensity",
        }
    }
}

/// A value for a node's parameter.
#[derive(Debug, Clone, Copy, PartialEq, Eq, Structural)]
pub struct Setting {
    pub node: usize,
    pub param: Param,
    pub value: i64,
}

/// What the player is to do.
#[derive(Debug, Clone)]
pub enum AudioCommand<H> {
    /// Let the context run.
    Resume,
    /// Start a sample, looping.
    PlayLoop { sample: usize },
    /// Change a parameter of a sample that loops over a time.
    Live { sample: usize, setting: Setting, glide: u64 },
    /// Stop a voice.
    Stop { voice: H },
    /// Play a sample once as a voice of its own, with these values from its first moment on.
    /// The voice is to be handed to [`AudioController::track_voice`].
    Fire { sample: usize, overrides: Vec<Setting> },
}

/// An [`AudioCommand`] with its settings.
pub enum CommandView<H> {
    Resume,
    PlayLoop { sample: usize },
    Live { sample: usize, setting: Setting, glide: u64 },
    Stop { voice: H },
    Fire { sample: usize, overrides: Seq<Setting> },
}

impl<H> View for AudioCommand<H> {
    type V = CommandView<H>;

    open spec fn view(&self) -> CommandView<H> {
        match self {
            AudioCommand::Resume => CommandView::Resume,
            AudioCommand::PlayLoop { sample } => CommandView::PlayLoop { sample: *sample },
            AudioCommand::Live { sample, setting, glide } => CommandView::Live {
                sample: *sample,
                setting: *setting,
                glide: *glide,
            },
            AudioCommand::Stop { voice } => CommandView::Stop { voice: *voice },
            AudioCommand::Fire { sample, overrides } => CommandView::Fire {
                sample: *sample,
                overrides: overrides@,
            },
        }
    }
}

/// The commands of a list.
pub open spec fn commands<H>(v: Seq<AudioCommand<H>>) -> Seq<CommandView<H>> {
    v.map_values(|c: AudioCommand<H>| c@)
}

/// Where a sound at a place on the table comes from: on the felt, and on the table.
pub open spec fn on_stage(x: int, z: int) -> (int, int, int) {
    (
        clamp_int(x, -TABLE_HALF_X as int, TABLE_HALF_X as int),
        0,
        clamp_int(z, -TABLE_HALF_Z as int, TABLE_HALF_Z as int),
    )
}

/// Where a sound at a place on the table comes from.
pub fn stage_pos(x: i64, z: i64) -> (r: [i64; 3])
    ensures
        (r@[0] as int, r@[1] as int, r@[2] as int) == on_stage(x as int, z as int),
{
    [clamp_i64(x, -TABLE_HALF_X, TABLE_HALF_X), 0, clamp_i64(z, -TABLE_HALF_Z, TABLE_HALF_Z)]
}

/// The filter frequency of an impact: a base, and more the harder it is (whole hertz), as far
/// as 64 bits reach.
pub open spec fn frequency(base_hz: int, span_hz: int, intensity: i64) -> i64 {
    held(base_hz * 1_000_000 + intensity * span_hz)
}

fn tone_frequency(base_hz: i64, span_hz: i64, intensity: i64) -> (r: i64)
    requires
        0 <= base_hz <= 100_000,
        0 <= span_hz <= 100_000,
    ensures
        r == frequency(base_hz as int, span_hz as int, intensity),
{
    let (i, s): (i128, i128) = (intensity as i128, span_hz as i128);
    proof {
        assert(-0x100_0000_0000_0000_0000_0000 < i * s < 0x100_0000_0000_0000_0000_0000)
            by (nonlinear_arith)
            requires
                -0x8000_0000_0000_0000 <= i <= 0x8000_0000_0000_0000,
                0 <= s <= 100_000,
        ;
    }
    hold(base_hz as i128 * 1_000_000 + i * s)
}

/// The values an impact voice starts with: its loudness, its place, and its colour.
pub open spec fn impact(
    v: VoiceSpec,
    intensity: i64,
    param: Param,
    value: i64,
    x: i64,
    z: i64,
) -> Seq<Setting> {
    let s = on_stage(x as int, z as int);
    let common = seq![
        Setting { node: v.level, param: Param::Gain, value: intensity },
        Setting { node: v.panner, param: Param::PositionX, value: s.0 as i64 },
        Setting { node: v.panner, param: Param::PositionY, value: s.1 as i64 },
        Setting { node: v.panner, param: Param::PositionZ, value: s.2 as i64 },
    ];
    match v.tone {
        Some(t) => common.push(Setting { node: t, param, value }),
        None => common,
    }
}

/// The command that plays an impact.
fn trigger<H>(v: &VoiceSpec, intensity: i64, param: Param, value: i64, x: i64, z: i64) -> (r:
    AudioCommand<H>)
    ensures
        r@ == (CommandView::<H>::Fire {
            sample: v.sample,
            overrides: impact(*v, intensity, param, value, x, z),
        }),
{
    let s = stage_pos(x, z);
    let mut overrides: Vec<Setting> = Vec::new();
    overrides.push(Setting { node: v.level, param: Param::Gain, value: intensity });
    overrides.push(Setting { node: v.panner, param: Param::PositionX, value: s[0] });
    overrides.push(Setting { node: v.panner, param: Param::PositionY, value: s[1] });
    overrides.push(Setting { node: v.panner, param: Param::PositionZ, value: s[2] });
    if let Some(t) = v.tone {
        overrides.push(Setting { node: t, param, value });
    }
    assert(overrides@ =~= impact(*v, intensity, param, value, x, z));
    AudioCommand::Fire { sample: v.sample, overrides }
}

/// The sounds and the voices that are sounding.
pub struct AudioController<H> {
    roll: VoiceSpec,
    hit: VoiceSpec,
    land: VoiceSpec,
    clack: Option<VoiceSpec>,
    started: bool,
    pending: Vec<(H, u64)>,
}

/// What an [`AudioController`] holds.
pub struct AudioView<H> {
    pub roll: VoiceSpec,
    pub hit: VoiceSpec,
    pub land: VoiceSpec,
    /// An export without this sound plays the wall hit instead.
    pub clack: Option<VoiceSpec>,
    /// The player has made a gesture.
    pub started: bool,
    /// Impact voices, each with the time at which it is to be stopped.
    pub pending: Seq<(H, u64)>,
}

impl<H> View for AudioController<H> {
    type V = AudioView<H>;

    closed spec fn view(&self) -> AudioView<H> {
        AudioView {
            roll: self.roll,
            hit: self.hit,
            land: self.land,
            clack: self.clack,
            started: self.started,
            pending: self.pending@,
        }
    }
}

/// The voices whose time has come.
pub open spec fn spent<H>(pending: Seq<(H, u64)>, now: u64) -> Seq<CommandView<H>>
    decreases pending.len(),
{
    if pending.len() == 0 {
        seq![]
    } else if pending[0].1 <= now {
        seq![CommandView::Stop { voice: pending[0].0 }] + spent(pending.remove(0), now)
    } else {
        spent(pending.remove(0), now)
    }
}

/// The voices that sound on.
pub open spec fn sounding<H>(pending: Seq<(H, u64)>, now: u64) -> Seq<(H, u64)>
    decreases pending.len(),
{
    if pending.len() == 0 {
        seq![]
    } else if pending[0].1 <= now {
        sounding(pending.remove(0), now)
    } else {
        seq![pending[0]] + sounding(pending.remove(0), now)
    }
}

/// A live change of the rolling sound.
pub open spec fn live<H>(
    sample: usize,
    node: usize,
    param: Param,
    value: i64,
    glide: u64,
) -> CommandView<H> {
    CommandView::Live { sample, setting: Setting { node, param, value }, glide }
}

impl<H> AudioView<H> {
    /// What the first gesture does: the rolling sound starts, and starts silent.
    pub open spec fn start_commands(self) -> Seq<CommandView<H>> {
        if self.started {
            seq![]
        } else {
            let first = seq![
                CommandView::Resume,
                CommandView::PlayLoop { sample: self.roll.sample },
                live(self.roll.sample, self.roll.level, Param::Gain, 0, 0),
            ];
            match self.roll.tone {
                Some(t) => first.push(live(self.roll.sample, t, Param::Speed, 0, 0)),
                None => first,
            }
        }
    }

    /// What a cue does to the rolling sound.
    pub open spec fn roll_commands(self, speed: i64, x: i64, z: i64) -> Seq<CommandView<H>> {
        let s = on_stage(x as int, z as int);
        let loudness = seq![live(self.roll.sample, self.roll.level, Param::Gain, speed, GLIDE)];
        let coloured = match self.roll.tone {
            Some(t) => loudness.push(live(self.roll.sample, t, Param::Speed, speed, GLIDE)),
            None => loudness,
        };
        coloured + seq![
            live(self.roll.sample, self.roll.panner, Param::PositionX, s.0 as i64, GLIDE),
            live(self.roll.sample, self.roll.panner, Param::PositionY, s.1 as i64, GLIDE),
            live(self.roll.sample, self.roll.panner, Param::PositionZ, s.2 as i64, GLIDE),
        ]
    }

    /// What a cue does.
    pub open spec fn cue_commands(self, msg: AudioMsg) -> Seq<CommandView<H>> {
        match msg {
            AudioMsg::Roll { speed, x, y: _, z } => self.roll_commands(speed, x, z),
            AudioMsg::WallHit { x, y: _, z, intensity } => seq![
                CommandView::Fire {
                    sample: self.hit.sample,
                    overrides: impact(
                        self.hit,
                        intensity,
                        Param::Frequency,
                        frequency(300, 600, intensity),
                        x,
                        z,
                    ),
                },
            ],
            AudioMsg::Land { x, y: _, z, intensity } => seq![
                CommandView::Fire {
                    sample: self.land.sample,
                    overrides: impact(
                        self.land,
                        intensity,
                        Param::Frequency,
                        frequency(250, 800, intensity),
                        x,
                        z,
                    ),
                },
            ],
            AudioMsg::BallClack { x, y: _, z, intensity } => seq![
                match self.clack {
                    Some(clack) => CommandView::Fire {
                        sample: clack.sample,
                        overrides: impact(clack, intensity, Param::Intensity, intensity, x, z),
                    },
                    None => CommandView::Fire {
                        sample: self.hit.sample,
                        overrides: impact(
                            self.hit,
                            intensity,
                            Param::Frequency,
                            frequency(700, 2800, intensity),
                            x,
                            z,
                        ),
                    },
                },
            ],
        }
    }
}

impl<H> AudioView<H> {
    /// What a cue leads to at the context's time `now`: nothing before the first gesture.
    pub open spec fn heard(self, msg: AudioMsg, now: u64) -> Seq<CommandView<H>> {
        if self.started {
            spent(self.pending, now) + self.cue_commands(msg)
        } else {
            seq![]
        }
    }

    /// The sounds after that.
    pub open spec fn after_cue(self, now: u64) -> AudioView<H> {
        if self.started {
            AudioView { pending: sounding(self.pending, now), ..self }
        } else {
            self
        }
    }

    /// The sounds with one more voice, fired at `now`, where there is one.
    pub open spec fn tracked_at(self, handle: Option<H>, now: u64) -> AudioView<H> {
        match handle {
            Some(h) => AudioView { pending: self.pending.push((h, stop_time(now))), ..self },
            None => self,
        }
    }
}

/// What an export lacks for being driven, where it lacks something.
pub open spec fn library_fault(lib: LibraryView) -> Option<Seq<char>> {
    let roll = missing(
        lib.samples,
        "sfx_ball_roll"@,
        "roll_LEVEL"@,
        "roll_PANNER"@,
        Tone::Worklet,
    );
    let hit = missing(
        lib.samples,
        "sfx_wall_hit"@,
        "hit_LEVEL"@,
        "hit_PANNER"@,
        Tone::Filter("hit_FILTER"),
    );
    let land = missing(
        lib.samples,
        "sfx_land"@,
        "land_LEVEL"@,
        "land_PANNER"@,
        Tone::Filter("land_FILTER"),
    );
    if lib.wasm_modules.len() == 0 {
        Some("audio: no wasm worklet in export"@)
    } else if roll is Some {
        roll
    } else if hit is Some {
        hit
    } else {
        land
    }
}

/// Whether a controller drives the sounds of an export.
pub open spec fn drives<H>(c: AudioView<H>, lib: LibraryView) -> bool {
    &&& resolves(
        lib.samples,
        "sfx_ball_roll"@,
        "roll_LEVEL"@,
        "roll_PANNER"@,
        Tone::Worklet,
        c.roll,
    )
    &&& resolves(
        lib.samples,
        "sfx_wall_hit"@,
        "hit_LEVEL"@,
        "hit_PANNER"@,
        Tone::Filter("hit_FILTER"),
        c.hit,
    )
    &&& resolves(
        lib.samples,
        "sfx_land"@,
        "land_LEVEL"@,
        "land_PANNER"@,
        Tone::Filter("land_FILTER"),
        c.land,
    )
    &&& match c.clack {
        Some(v) => resolves(
            lib.samples,
            "sfx_ball_clack"@,
            "clack_LEVEL"@,
            "clack_PANNER"@,
            Tone::Worklet,
            v,
        ),
        None => missing(
            lib.samples,
            "sfx_ball_clack"@,
            "clack_LEVEL"@,
            "clack_PANNER"@,
            Tone::Worklet,
        ) is Some,
    }
}

impl<H: Copy> AudioController<H> {
    /// Finds the sounds of an export and their control nodes. Nothing sounds yet.
    pub fn load(lib: &Library) -> (r: Result<AudioController<H>, VoiceError>)
        ensures
            match library_fault(lib@) {
                Some(words) => r matches Err(e) && error_words(e) == words,
                None => r matches Ok(c) && drives(c@, lib@) && !c@.started && c@.pending.len() == 0,
            },
    {
        if lib.wasm_modules.len() == 0 {
            return Err(VoiceError::NoModule);
        }
        let roll: VoiceSpec = match voice_spec(
            &lib.samples,
            "sfx_ball_roll",
            "roll_LEVEL",
            "roll_PANNER",
            Tone::Worklet,
        ) {
            Ok(v) => v,
            Err(e) => {
                return Err(e);
            },
        };
        let hit: VoiceSpec = match voice_spec(
            &lib.samples,
            "sfx_wall_hit",
            "hit_LEVEL",
            "hit_PANNER",
            Tone::Filter("hit_FILTER"),
        ) {
            Ok(v) => v,
            Err(e) => {
                return Err(e);
            },
        };
        let land: VoiceSpec = match voice_spec(
            &lib.samples,
            "sfx_land",
            "land_LEVEL",
            "land_PANNER",
            Tone::Filter("land_FILTER"),
        ) {
            Ok(v) => v,
            Err(e) => {
                return Err(e);
            },
        };
        let clack: Option<VoiceSpec> = match voice_spec(
            &lib.samples,
            "sfx_ball_clack",
            "clack_LEVEL",
            "clack_PANNER",
            Tone::Worklet,
        ) {
            Ok(v) => Some(v),
            Err(_) => None,
        };
        Ok(AudioController { roll, hit, land, clack, started: false, pending: Vec::new() })
    }

    /// The player made a gesture: the first one starts the sound.
    pub fn ensure_started(&mut self) -> (r: Vec<AudioCommand<H>>)
        ensures
            final(self)@ == (AudioView { started: true, ..old(self)@ }),
            commands(r@) == old(self)@.start_commands(),
    {
        let mut r: Vec<AudioCommand<H>> = Vec::new();
        if !self.started {
            r.push(AudioCommand::Resume);
            r.push(AudioCommand::PlayLoop { sample: self.roll.sample });
            r.push(
                AudioCommand::Live {
                    sample: self.roll.sample,
                    setting: Setting { node: self.roll.level, param: Param::Gain, value: 0 },
                    glide: 0,
                },
            );
            if let Some(t) = self.roll.tone {
                r.push(
                    AudioCommand::Live {
                        sample: self.roll.sample,
                        setting: Setting { node: t, param: Param::Speed, value: 0 },
                        glide: 0,
                    },
                );
            }
            self.started = true;
        }
        assert(commands(r@) =~= old(self)@.start_commands());
        r
    }

    fn reap_voices(&mut self, now: u64, out: &mut Vec<AudioCommand<H>>)
        ensures
            final(self)@ == (AudioView {
                pending: sounding(old(self)@.pending, now),
                ..old(self)@
            }),
            commands(final(out)@) == commands(old(out)@) + spent(old(self)@.pending, now),
    {
        let mut i: usize = 0;
        let ghost before = self.pending@;
        let ghost said = commands(out@);
        assert(self.pending@.subrange(0, 0) =~= seq![]);
        assert(self.pending@.subrange(0, self.pending@.len() as int) =~= self.pending@);
        assert(said =~= commands(out@) + seq![]);
        while i < self.pending.len()
            invariant
                i <= self.pending@.len(),
                self.roll == old(self).roll,
                self.hit == old(self).hit,
                self.land == old(self).land,
                self.clack == old(self).clack,
                self.started == old(self).started,
                sounding(before, now) == self.pending@.subrange(0, i as int) + sounding(
                    self.pending@.subrange(i as int, self.pending@.len() as int),
                    now,
                ),
                said + spent(before, now) == commands(out@) + spent(
                    self.pending@.subrange(i as int, self.pending@.len() as int),
                    now,
                ),
            decreases self.pending@.len() - i,
        {
            let ghost rest = self.pending@.subrange(i as int, self.pending@.len() as int);
            let ghost front = self.pending@.subrange(0, i as int);
            assert(rest[0] == self.pending@[i as int]);
            assert(rest.remove(0) =~= self.pending@.subrange(i + 1, self.pending@.len() as int));
            if self.pending[i].1 <= now {
                let ghost spoken = commands(out@);
                let (handle, _): (H, u64) = self.pending.remove(i);
                out.push(AudioCommand::Stop { voice: handle });
                assert(self.pending@.subrange(i as int, self.pending@.len() as int)
                    =~= rest.remove(0));
                assert(self.pending@.subrange(0, i as int) =~= front);
                assert(commands(out@) =~= spoken + seq![CommandView::Stop { voice: rest[0].0 }]);
                assert(spoken + (seq![CommandView::Stop { voice: rest[0].0 }] + spent(
                    rest.remove(0),
                    now,
                )) =~= commands(out@) + spent(rest.remove(0), now));
            } else {
                assert(self.pending@.subrange(0, i + 1) =~= front + seq![rest[0]]);
                assert(front + (seq![rest[0]] + sounding(rest.remove(0), now)) =~= (front
                    + seq![rest[0]]) + sounding(rest.remove(0), now));
                i = i + 1;
            }
        }
        assert(self.pending@.subrange(i as int, self.pending@.len() as int) =~= seq![]);
        assert(self.pending@.subrange(0, i as int) =~= self.pending@);
        assert(self.pending@ =~= sounding(before, now));
        assert(commands(out@) =~= said + spent(before, now));
    }

    /// Takes in a cue at the context's time `now`: spent voices stop, then the cue plays.
    /// Before the first gesture nothing happens.
    pub fn on_audio(&mut self, msg: AudioMsg, now: u64) -> (r: Vec<AudioCommand<H>>)
        ensures
            !old(self)@.started ==> r@.len() == 0 && final(self)@ == old(self)@,
            old(self)@.started ==> {
                &&& final(self)@ == (AudioView {
                    pending: sounding(old(self)@.pending, now),
                    ..old(self)@
                })
                &&& commands(r@) == spent(old(self)@.pending, now) + old(self)@.cue_commands(msg)
            },
            commands(r@) == old(self)@.heard(msg, now),
            final(self)@ == old(self)@.after_cue(now),
    {
        let mut out: Vec<AudioCommand<H>> = Vec::new();
        assert(commands(out@) =~= seq![]);
        if !self.started {
            return out;
        }
        self.reap_voices(now, &mut out);
        let ghost stops = commands(out@);
        assert(stops =~= spent(old(self)@.pending, now));
        match msg {
            AudioMsg::Roll { speed, x, y: _, z } => {
                out.push(
                    AudioCommand::Live {
                        sample: self.roll.sample,
                        setting: Setting {
                            node: self.roll.level,
                            param: Param::Gain,
                            value: speed,
                        },
                        glide: GLIDE,
                    },
                );
                if let Some(t) = self.roll.tone {
                    out.push(
                        AudioCommand::Live {
                            sample: self.roll.sample,
                            setting: Setting { node: t, param: Param::Speed, value: speed },
                            glide: GLIDE,
                        },
                    );
                }
                let s = stage_pos(x, z);
                self.move_roll(Param::PositionX, s[0], &mut out);
                self.move_roll(Param::PositionY, s[1], &mut out);
                self.move_roll(Param::PositionZ, s[2], &mut out);
            },
            AudioMsg::WallHit { x, y: _, z, intensity } => {
                let f: i64 = tone_frequency(300, 600, intensity);
                out.push(trigger(&self.hit, intensity, Param::Frequency, f, x, z));
            },
            AudioMsg::Land { x, y: _, z, intensity } => {
                let f: i64 = tone_frequency(250, 800, intensity);
                out.push(trigger(&self.land, intensity, Param::Frequency, f, x, z));
            },
            AudioMsg::BallClack { x, y: _, z, intensity } => match &self.clack {
                Some(clack) => {
                    out.push(trigger(clack, intensity, Param::Intensity, intensity, x, z));
                },
                None => {
                    let f: i64 = tone_frequency(700, 2800, intensity);
                    out.push(trigger(&self.hit, intensity, Param::Frequency, f, x, z));
                },
            },
        }
        assert(commands(out@) =~= stops + old(self)@.cue_commands(msg));
        out
    }

    fn move_roll(&self, param: Param, value: i64, out: &mut Vec<AudioCommand<H>>)
        ensures
            commands(final(out)@) == commands(old(out)@).push(
                live(self@.roll.sample, self@.roll.panner, param, value, GLIDE),
            ),
    {
        out.push(
            AudioCommand::Live {
                sample: self.roll.sample,
                setting: Setting { node: self.roll.panner, param, value },
                glide: GLIDE,
            },
        );
        assert(commands(out@) =~= commands(old(out)@).push(
            live(self@.roll.sample, self@.roll.panner, param, value, GLIDE),
        ));
    }

    /// The camera turned: where the ears are from now on, for every voice that sounds.
    pub fn set_camera_yaw(&self, heading: &Heading) -> (r: Listener)
        requires
            heading.wf(),
        ensures
            r == listener_at(*heading),
    {
        listener(heading)
    }

    /// Takes in a voice that was fired at the context's time `now`; one that could not be
    /// fired is not followed.
    pub fn track_voice(&mut self, handle: Option<H>, now: u64)
        ensures
            final(self)@ == (match handle {
                Some(h) => AudioView {
                    pending: old(self)@.pending.push((h, stop_time(now))),
                    ..old(self)@
                },
                None => old(self)@,
            }),
            final(self)@ == old(self)@.tracked_at(handle, now),
    {
        if let Some(h) = handle {
            self.pending.push((h, now.saturating_add(IMPACT_VOICE_TTL)));
        }
    }
}

/// When a voice fired at `now` is to be stopped.
pub open spec fn stop_time(now: u64) -> u64 {
    if now + IMPACT_VOICE_TTL > u64::MAX {
        u64::MAX
    } else {
        (now + IMPACT_VOICE_TTL) as u64
    }
}

// ---------------------------------------------------------------------------------------
// The listener

/// The ears: where they are, and where they face.
#[derive(Debug, Clone, Copy, PartialEq, Eq)]
pub struct Listener {
    pub position: [i64; 3],
    pub forward: [i64; 3],
}

/// The listener at a camera's heading: on the camera's side of the table, low, and facing its
/// centre.
pub open spec fn listener_at(heading: Heading) -> Listener {
    Listener {
        position: [
            orbit_point(heading).0 as i64,
            LISTENER_HEIGHT,
            orbit_point(heading).1 as i64,
        ],
        forward: [(-heading.sin) as i64, 0, (-heading.cos) as i64],
    }
}

/// The listener at a camera's heading.
pub fn listener(heading: &Heading) -> (r: Listener)
    requires
        heading.wf(),
    ensures
        r == listener_at(*heading),
{
    proof {
        whole_turn(heading.sin as int);
        whole_turn(heading.cos as int);
    }
    let x: i64 = round_div(LISTENER_ORBIT_RADIUS as i128 * heading.sin as i128, 1_000_000) as i64;
    let z: i64 = round_div(LISTENER_ORBIT_RADIUS as i128 * heading.cos as i128, 1_000_000) as i64;
    Listener {
        position: [x, LISTENER_HEIGHT, z],
        forward: [-heading.sin, 0, -heading.cos],
    }
}

/// The point of the listener's circle towards a heading.
pub open spec fn orbit_point(heading: Heading) -> (int, int) {
    (
        div_round(LISTENER_ORBIT_RADIUS * heading.sin, 1_000_000),
        div_round(LISTENER_ORBIT_RADIUS * heading.cos, 1_000_000),
    )
}

proof fn whole_turn(unit: int)
    requires
        -1_000_000 <= unit <= 1_000_000,
    ensures
        -1_000_000_000_000 <= LISTENER_ORBIT_RADIUS * unit <= 1_000_000_000_000,
        div_round(LISTENER_ORBIT_RADIUS * unit, 1_000_000) == unit,
{
    let r = LISTENER_ORBIT_RADIUS;
    assert(r * unit == 1_000_000 * unit) by (nonlinear_arith)
        requires
            r == 1_000_000,
    ;
    assert((2 * (1_000_000 * unit) + 1_000_000) / 2_000_000 == unit);
}

// ---------------------------------------------------------------------------------------
// Laws

/// However often the player makes a gesture, the sound starts once.
pub proof fn starting_twice_is_starting_once<H>(a: AudioView<H>)
    ensures
        (AudioView { started: true, ..a }).start_commands().len() == 0,
{
}

/// Every voice is stopped once, on time and never early: of the voices that were sounding,
/// those whose time has come are stopped, and all the others, and no more, sound on.
pub proof fn voices_stop_on_time<H>(pending: Seq<(H, u64)>, now: u64)
    ensures
        spent(pending, now).len() + sounding(pending, now).len() == pending.len(),
        forall|i: int|
            0 <= i < sounding(pending, now).len() ==> (#[trigger] sounding(pending, now)[i]).1 > now,
        forall|v: (H, u64)|
            #[trigger] sounding(pending, now).contains(v) <==> pending.contains(v) && v.1 > now,
        forall|h: H|
            #[trigger] spent(pending, now).contains(CommandView::Stop { voice: h }) <==> exists|
                t: u64|
                #[trigger] pending.contains((h, t)) && t <= now,
    decreases pending.len(),
{
    if pending.len() == 0 {
        assert(sounding(pending, now) =~= seq![]);
        assert(spent(pending, now) =~= seq![]);
    } else {
        let (head, rest) = (pending[0], pending.remove(0));
        voices_stop_on_time(rest, now);
        assert(pending =~= seq![head] + rest);
        assert forall|v: (H, u64)| pending.contains(v) <==> (v == head || rest.contains(v)) by {
            if pending.contains(v) {
                let i = choose|i: int| 0 <= i < pending.len() && pending[i] == v;
                if i > 0 {
                    assert(rest[i - 1] == v);
                }
            }
            if v == head {
                assert(pending[0] == v);
            } else if rest.contains(v) {
                let i = choose|i: int| 0 <= i < rest.len() && rest[i] == v;
                assert(pending[i + 1] == v);
            }
        }
        if head.1 <= now {
            let stop = CommandView::Stop { voice: head.0 };
            let tail = spent(rest, now);
            assert forall|h: H|
                #[trigger] spent(pending, now).contains(
                    CommandView::Stop { voice: h },
                ) <==> exists|t: u64| #[trigger] pending.contains((h, t)) && t <= now by {
                in_front(stop, tail, CommandView::Stop { voice: h });
                if h == head.0 {
                    assert(pending.contains((h, head.1)));
                }
                if tail.contains(CommandView::Stop { voice: h }) {
                    let t = choose|t: u64| #[trigger] rest.contains((h, t)) && t <= now;
                    assert(pending.contains((h, t)));
                }
                if exists|t: u64| #[trigger] pending.contains((h, t)) && t <= now {
                    let t = choose|t: u64| #[trigger] pending.contains((h, t)) && t <= now;
                    if (h, t) != head {
                        assert(rest.contains((h, t)));
                    }
                }
            }
        } else {
            let tail = sounding(rest, now);
            assert forall|v: (H, u64)|
                #[trigger] sounding(pending, now).contains(v) <==> pending.contains(v) && v.1
                    > now by {
                in_front(head, tail, v);
            }
            assert forall|h: H|
                #[trigger] spent(pending, now).contains(
                    CommandView::Stop { voice: h },
                ) <==> exists|t: u64| #[trigger] pending.contains((h, t)) && t <= now by {
                if exists|t: u64| #[trigger] pending.contains((h, t)) && t <= now {
                    let t = choose|t: u64| #[trigger] pending.contains((h, t)) && t <= now;
                    assert(rest.contains((h, t)));
                }
                if exists|t: u64| #[trigger] rest.contains((h, t)) && t <= now {
                    let t = choose|t: u64| #[trigger] rest.contains((h, t)) && t <= now;
                    assert(pending.contains((h, t)));
                }
            }
        }
    }
}

proof fn in_front<A>(head: A, tail: Seq<A>, v: A)
    ensures
        (seq![head] + tail).contains(v) <==> v == head || tail.contains(v),
{
    let all = seq![head] + tail;
    if all.contains(v) {
        let i = choose|i: int| 0 <= i < all.len() && all[i] == v;
        if i > 0 {
            assert(tail[i - 1] == v);
        }
    }
    if v == head {
        assert(all[0] == v);
    } else if tail.contains(v) {
        let i = choose|i: int| 0 <= i < tail.len() && tail[i] == v;
        assert(all[i + 1] == v);
    }
}

/// A voice lives its full time: a cue before it is over leaves it sounding.
pub proof fn a_voice_lives_its_time<H>(a: AudioView<H>, h: H, fired: u64, now: u64)
    requires
        fired + IMPACT_VOICE_TTL <= u64::MAX,
        now < fired + IMPACT_VOICE_TTL,
    ensures
        sounding(a.pending.push((h, stop_time(fired))), now).contains((h, stop_time(fired))),
{
    let all = a.pending.push((h, stop_time(fired)));
    voices_stop_on_time(all, now);
    assert(all[all.len() - 1] == (h, stop_time(fired)));
}

/// A harder impact is never duller.
pub proof fn harder_is_brighter(base_hz: int, span_hz: int, a: i64, b: i64)
    requires
        0 <= span_hz,
        a <= b,
    ensures
        frequency(base_hz, span_hz, a) <= frequency(base_hz, span_hz, b),
{
    assert(a * span_hz <= b * span_hz) by (nonlinear_arith)
        requires
            0 <= span_hz,
            a <= b,
    ;
}

/// Sounds stay on the table, and a sound on the table comes from where it is.
pub proof fn sounds_stay_on_stage(x: int, z: int)
    ensures
        -TABLE_HALF_X <= on_stage(x, z).0 <= TABLE_HALF_X,
        -TABLE_HALF_Z <= on_stage(x, z).2 <= TABLE_HALF_Z,
        -TABLE_HALF_X <= x <= TABLE_HALF_X && -TABLE_HALF_Z <= z <= TABLE_HALF_Z ==> on_stage(
            x,
            z,
        ) == (x, 0int, z),
{
}

/// A ball at rest is silent.
pub proof fn rest_is_silent<H>(a: AudioView<H>, x: i64, z: i64)
    ensures
        a.roll_commands(0, x, z)[0] == live::<H>(a.roll.sample, a.roll.level, Param::Gain, 0, GLIDE),
{
}

/// The listener faces the table's centre from the camera's side: its place and its gaze are
/// opposite.
pub proof fn the_listener_faces_the_table(heading: Heading)
    requires
        heading.wf(),
    ensures
        orbit_point(heading) == (heading.sin as int, heading.cos as int),
{
    whole_turn(heading.sin as int);
    whole_turn(heading.cos as int);
}

/// Whether a coordinate has come out as it was, or at the edge of the table that it lay beyond.
pub open spec fn kept_on(result: i64, at: i64, edge: int) -> bool {
    &&& -edge <= at <= edge ==> result == at
    &&& at > edge ==> result == edge
    &&& at < -edge ==> result == -edge
}

/// Whether settings make a voice sound so loud, from that place on the felt: its gain, then where
/// its panner is along x, y and z, and last what colours it.
pub open spec fn sounds_from(
    settings: Seq<Setting>,
    v: VoiceSpec,
    loudness: i64,
    x: i64,
    z: i64,
    param: Param,
    colour: int,
) -> bool {
    &&& settings.len() == (if v.tone is Some {
        5int
    } else {
        4int
    })
    &&& settings[0] == (Setting { node: v.level, param: Param::Gain, value: loudness })
    &&& settings[1].node == v.panner && settings[1].param == Param::PositionX && kept_on(
        settings[1].value,
        x,
        3_000_000,
    )
    &&& settings[2] == (Setting { node: v.panner, param: Param::PositionY, value: 0 })
    &&& settings[3].node == v.panner && settings[3].param == Param::PositionZ && kept_on(
        settings[3].value,
        z,
        2_000_000,
    )
    &&& v.tone matches Some(t) ==> {
        &&& settings[4].node == t && settings[4].param == param
        &&& i64::MIN <= colour <= i64::MAX ==> settings[4].value == colour
        &&& colour > i64::MAX ==> settings[4].value == i64::MAX
        &&& colour < i64::MIN ==> settings[4].value == i64::MIN
    }
}

/// Each impact plays its own sound, once: a knock on a rail, a landing, and a clack of two balls,
/// as loud as it was hard, from where it happened, and coloured by how hard it was. An export
/// without a clack knocks instead, brighter.
pub proof fn impacts_play_their_own_sounds<H>(
    a: AudioView<H>,
    x: i64,
    y: i64,
    z: i64,
    intensity: i64,
)
    ensures
        ({
            let knock = a.cue_commands(AudioMsg::WallHit { x, y, z, intensity });
            let land = a.cue_commands(AudioMsg::Land { x, y, z, intensity });
            let clack = a.cue_commands(AudioMsg::BallClack { x, y, z, intensity });
            &&& knock.len() == 1 && (knock[0] matches CommandView::Fire { sample, overrides }
                && sample == a.hit.sample && sounds_from(
                overrides,
                a.hit,
                intensity,
                x,
                z,
                Param::Frequency,
                300_000_000 + 600 * intensity,
            ))
            &&& land.len() == 1 && (land[0] matches CommandView::Fire { sample, overrides }
                && sample == a.land.sample && sounds_from(
                overrides,
                a.land,
                intensity,
                x,
                z,
                Param::Frequency,
                250_000_000 + 800 * intensity,
            ))
            &&& clack.len() == 1 && (clack[0] matches CommandView::Fire { sample, overrides }
                && match a.clack {
                Some(v) => sample == v.sample && sounds_from(
                    overrides,
                    v,
                    intensity,
                    x,
                    z,
                    Param::Intensity,
                    intensity as int,
                ),
                None => sample == a.hit.sample && sounds_from(
                    overrides,
                    a.hit,
                    intensity,
                    x,
                    z,
                    Param::Frequency,
                    700_000_000 + 2800 * intensity,
                ),
            })
        }),
{
}

/// Rolling is one sound that follows the ball: every cue moves its gain and its colour to the
/// ball's speed and its place to the ball's, over 0.05 seconds, and changes no other sound.
pub proof fn rolling_follows_the_ball<H>(a: AudioView<H>, speed: i64, x: i64, y: i64, z: i64)
    ensures
        ({
            let c = a.cue_commands(AudioMsg::Roll { speed, x, y, z });
            let n = c.len();
            let s = a.roll.sample;
            &&& n == (if a.roll.tone is Some {
                5int
            } else {
                4int
            })
            &&& c[0] matches CommandView::Live { sample, setting, glide } && sample == s && glide
                == 50_000 && setting == (Setting {
                node: a.roll.level,
                param: Param::Gain,
                value: speed,
            })
            &&& a.roll.tone matches Some(t) ==> (c[1] matches CommandView::Live {
                sample,
                setting,
                glide,
            } && sample == s && glide == 50_000 && setting == (Setting {
                node: t,
                param: Param::Speed,
                value: speed,
            }))
            &&& c[n - 3] matches CommandView::Live { sample, setting, glide } && sample == s && glide
                == 50_000 && setting.node == a.roll.panner && setting.param == Param::PositionX
                && kept_on(setting.value, x, 3_000_000)
            &&& c[n - 2] matches CommandView::Live { sample, setting, glide } && sample == s && glide
                == 50_000 && setting == (Setting {
                node: a.roll.panner,
                param: Param::PositionY,
                value: 0,
            })
            &&& c[n - 1] matches CommandView::Live { sample, setting, glide } && sample == s && glide
                == 50_000 && setting.node == a.roll.panner && setting.param == Param::PositionZ
                && kept_on(setting.value, z, 2_000_000)
        }),
{
}

/// The first gesture lets the context run and starts the rolling sound in a loop, and it starts
/// silent and still. A later one does nothing.
pub proof fn the_first_gesture_starts_the_roll_silently<H>(a: AudioView<H>)
    ensures
        a.started ==> a.start_commands().len() == 0,
        !a.started ==> {
            let c = a.start_commands();
            &&& c.len() == (if a.roll.tone is Some {
                4int
            } else {
                3int
            })
            &&& c[0] is Resume
            &&& c[1] matches CommandView::PlayLoop { sample } && sample == a.roll.sample
            &&& c[2] matches CommandView::Live { sample, setting, glide } && sample == a.roll.sample
                && glide == 0 && setting == (Setting {
                node: a.roll.level,
                param: Param::Gain,
                value: 0,
            })
            &&& a.roll.tone matches Some(t) ==> (c[3] matches CommandView::Live {
                sample,
                setting,
                glide,
            } && sample == a.roll.sample && glide == 0 && setting == (Setting {
                node: t,
                param: Param::Speed,
                value: 0,
            }))
        },
{
}

/// The ears are a metre from the middle of the table on the side that the camera looks from, 0.9
/// metres up, and face the middle.
pub proof fn the_ears_are_on_the_cameras_side(heading: Heading)
    requires
        heading.wf(),
    ensures
        ({
            let l = listener_at(heading);
            &&& l.position@[0] == heading.sin && l.position@[1] == 900_000 && l.position@[2]
                == heading.cos
            &&& l.forward@[0] == -heading.sin && l.forward@[1] == 0 && l.forward@[2]
                == -heading.cos
        }),
{
    whole_turn(heading.sin as int);
    whole_turn(heading.cos as int);
}

/// An impact voice is stopped 0.6 seconds after it was fired.
pub proof fn voices_are_stopped_after_their_time(fired: u64)
    requires
        fired + 600_000 <= u64::MAX,
    ensures
        stop_time(fired) == fired + 600_000,
{
}

/// Voices keep their order: of two that sound on the earlier fired stays first, and of two that
/// are stopped the earlier fired is stopped first.
pub proof fn voices_keep_their_order<H>(pending: Seq<(H, u64)>, now: u64)
    ensures
        sounding(pending, now) == pending.filter(|v: (H, u64)| v.1 > now),
        spent(pending, now) == pending.filter(|v: (H, u64)| v.1 <= now).map_values(
            |v: (H, u64)| CommandView::Stop { voice: v.0 },
        ),
    decreases pending.len(),
{
    let on = |v: (H, u64)| v.1 > now;
    let over = |v: (H, u64)| v.1 <= now;
    let stop = |v: (H, u64)| CommandView::Stop { voice: v.0 };
    reveal(Seq::filter);
    if pending.len() > 0 {
        let (head, rest) = (pending[0], pending.remove(0));
        voices_keep_their_order(rest, now);
        assert(pending =~= seq![head] + rest);
        Seq::filter_distributes_over_add(seq![head], rest, on);
        Seq::filter_distributes_over_add(seq![head], rest, over);
        assert(seq![head].drop_last() =~= seq![]);
        assert(Seq::<(H, u64)>::empty().filter(on) =~= seq![]);
        assert(Seq::<(H, u64)>::empty().filter(over) =~= seq![]);
        assert(seq![head].filter(on) =~= (if head.1 > now {
            seq![head]
        } else {
            seq![]
        }));
        assert(seq![head].filter(over) =~= (if head.1 <= now {
            seq![head]
        } else {
            seq![]
        }));
        assert(sounding(pending, now) =~= pending.filter(on));
        assert(spent(pending, now) =~= pending.filter(over).map_values(stop));
    } else {
        assert(sounding(pending, now) =~= pending.filter(on));
        assert(spent(pending, now) =~= pending.filter(over).map_values(stop));
    }
}

/// Whether `i` is the first sample of a name.
pub open spec fn first_named(samples: Seq<SampleView>, name: Seq<char>, i: int) -> bool {
    &&& 0 <= i < samples.len()
    &&& samples[i].name == name
    &&& forall|j: int| 0 <= j < i ==> (#[trigger] samples[j]).name != name
}

/// Whether `i` is the first node with a label.
pub open spec fn first_labelled(nodes: Seq<GraphView>, label: Seq<char>, i: int) -> bool {
    &&& 0 <= i < nodes.len()
    &&& nodes[i].label matches Some(l) && occurs(l, label)
    &&& forall|j: int|
        0 <= j < i ==> !((#[trigger] nodes[j]).label matches Some(l) && occurs(l, label))
}

/// Whether `i` is the first worklet among nodes.
pub open spec fn first_worklet(nodes: Seq<GraphView>, i: int) -> bool {
    &&& 0 <= i < nodes.len()
    &&& nodes[i].worklet
    &&& forall|j: int| 0 <= j < i ==> !(#[trigger] nodes[j]).worklet
}

proof fn samples_are_first_of_their_name(samples: Seq<SampleView>, name: Seq<char>, from: int)
    requires
        0 <= from,
    ensures
        match sample_at(samples, name, from) {
            Some(i) => from <= i < samples.len() && samples[i].name == name && forall|j: int|
                from <= j < i ==> (#[trigger] samples[j]).name != name,
            None => forall|j: int|
                from <= j < samples.len() ==> (#[trigger] samples[j]).name != name,
        },
    decreases samples.len() - from,
{
    if from < samples.len() && samples[from].name != name {
        samples_are_first_of_their_name(samples, name, from + 1);
    }
}

/// A voice drives the first sample of its name and, in it, the first nodes with its labels. What
/// colours it is the first worklet or the first node with the filter's label.
pub proof fn voices_drive_the_first_of_each(
    samples: Seq<SampleView>,
    name: Seq<char>,
    level: Seq<char>,
    panner: Seq<char>,
    tone: Tone,
    v: VoiceSpec,
)
    requires
        resolves(samples, name, level, panner, tone, v),
    ensures
        first_named(samples, name, v.sample as int),
        first_labelled(samples[v.sample as int].nodes, level, v.level as int),
        first_labelled(samples[v.sample as int].nodes, panner, v.panner as int),
        v.tone matches Some(t) && match tone {
            Tone::Worklet => first_worklet(samples[v.sample as int].nodes, t as int),
            Tone::Filter(label) => first_labelled(
                samples[v.sample as int].nodes,
                label@,
                t as int,
            ),
        },
{
    samples_are_first_of_their_name(samples, name, 0);
    let nodes = samples[v.sample as int].nodes;
    labels_find_their_nodes(nodes, level, 0);
    labels_find_their_nodes(nodes, panner, 0);
    match tone {
        Tone::Worklet => worklets_are_found_by_kind(nodes, 0),
        Tone::Filter(label) => labels_find_their_nodes(nodes, label@, 0),
    }
}

/// A controller drives the export's sounds by their names: the rolling, the knock on a rail, the
/// landing, and the clack of two balls where the export has it, each by its own gain and its own
/// panner, and by its worklet or its filter.
pub proof fn each_sound_is_driven_by_its_name<H>(c: AudioView<H>, lib: LibraryView)
    requires
        drives(c, lib),
    ensures
        ({
            let s = lib.samples;
            let (roll, hit, land) = (
                s[c.roll.sample as int].nodes,
                s[c.hit.sample as int].nodes,
                s[c.land.sample as int].nodes,
            );
            &&& first_named(s, "sfx_ball_roll"@, c.roll.sample as int)
            &&& first_labelled(roll, "roll_LEVEL"@, c.roll.level as int)
            &&& first_labelled(roll, "roll_PANNER"@, c.roll.panner as int)
            &&& c.roll.tone matches Some(t) && first_worklet(roll, t as int)
            &&& first_named(s, "sfx_wall_hit"@, c.hit.sample as int)
            &&& first_labelled(hit, "hit_LEVEL"@, c.hit.level as int)
            &&& first_labelled(hit, "hit_PANNER"@, c.hit.panner as int)
            &&& c.hit.tone matches Some(t) && first_labelled(hit, "hit_FILTER"@, t as int)
            &&& first_named(s, "sfx_land"@, c.land.sample as int)
            &&& first_labelled(land, "land_LEVEL"@, c.land.level as int)
            &&& first_labelled(land, "land_PANNER"@, c.land.panner as int)
            &&& c.land.tone matches Some(t) && first_labelled(land, "land_FILTER"@, t as int)
            &&& c.clack matches Some(v) ==> {
                let clack = s[v.sample as int].nodes;
                &&& first_named(s, "sfx_ball_clack"@, v.sample as int)
                &&& first_labelled(clack, "clack_LEVEL"@, v.level as int)
                &&& first_labelled(clack, "clack_PANNER"@, v.panner as int)
                &&& v.tone matches Some(t) && first_worklet(clack, t as int)
            }
        }),
{
    let s = lib.samples;
    voices_drive_the_first_of_each(
        s,
        "sfx_ball_roll"@,
        "roll_LEVEL"@,
        "roll_PANNER"@,
        Tone::Worklet,
        c.roll,
    );
    voices_drive_the_first_of_each(
        s,
        "sfx_wall_hit"@,
        "hit_LEVEL"@,
        "hit_PANNER"@,
        Tone::Filter("hit_FILTER"),
        c.hit,
    );
    voices_drive_the_first_of_each(
        s,
        "sfx_land"@,
        "land_LEVEL"@,
        "land_PANNER"@,
        Tone::Filter("land_FILTER"),
        c.land,
    );
    if let Some(v) = c.clack {
        voices_drive_the_first_of_each(
            s,
            "sfx_ball_clack"@,
            "clack_LEVEL"@,
            "clack_PANNER"@,
            Tone::Worklet,
            v,
        );
    }
}

/// Whether a sound can be driven: its first sample has nodes with its labels, and a worklet where
/// it asks for one.
pub open spec fn complete(
    samples: Seq<SampleView>,
    name: Seq<char>,
    labels: Seq<Seq<char>>,
    worklet: bool,
) -> bool {
    exists|i: int|
        {
            &&& #[trigger] first_named(samples, name, i)
            &&& forall|k: int|
                0 <= k < labels.len() ==> exists|n: int|
                    #[trigger] first_labelled(samples[i].nodes, #[trigger] labels[k], n)
            &&& worklet ==> exists|n: int| #[trigger] first_worklet(samples[i].nodes, n)
        }
}

/// The labels that a sound with a worklet, or one with a filter, looks for.
spec fn labels_for(level: Seq<char>, panner: Seq<char>, tone: Tone) -> Seq<Seq<char>> {
    match tone {
        Tone::Worklet => seq![level, panner],
        Tone::Filter(label) => seq![level, panner, label@],
    }
}

proof fn nothing_is_missing_where_a_sound_is_complete(
    samples: Seq<SampleView>,
    name: Seq<char>,
    level: Seq<char>,
    panner: Seq<char>,
    tone: Tone,
)
    ensures
        missing(samples, name, level, panner, tone) is None <==> complete(
            samples,
            name,
            labels_for(level, panner, tone),
            tone is Worklet,
        ),
{
    let labels = labels_for(level, panner, tone);
    samples_are_first_of_their_name(samples, name, 0);
    if let Some(i) = sample_at(samples, name, 0) {
        let nodes = samples[i].nodes;
        assert(first_named(samples, name, i));
        assert forall|j: int| #[trigger] first_named(samples, name, j) implies j == i by {
            if j < i {
                assert(samples[j].name != name);
            }
            if i < j {
                assert(samples[i].name != name);
            }
        }
        labels_exist_where_found(nodes, level);
        labels_exist_where_found(nodes, panner);
        assert(labels[0] == level && labels[1] == panner);
        match tone {
            Tone::Worklet => {
                worklets_are_found_by_kind(nodes, 0);
                if let Some(n) = worklet_at(nodes, 0) {
                    assert(first_worklet(nodes, n));
                }
            },
            Tone::Filter(label) => {
                assert(labels[2] == label@);
                labels_exist_where_found(nodes, label@);
            },
        }
    }
}

proof fn labels_exist_where_found(nodes: Seq<GraphView>, label: Seq<char>)
    ensures
        label_at(nodes, label, 0) is Some <==> exists|n: int|
            #[trigger] first_labelled(nodes, label, n),
{
    labels_find_their_nodes(nodes, label, 0);
    if let Some(n) = label_at(nodes, label, 0) {
        assert(labelled(nodes[n], label));
        assert forall|j: int| 0 <= j < n implies !((#[trigger] nodes[j]).label matches Some(l)
            && occurs(l, label)) by {
            assert(!labelled(nodes[j], label));
        }
        assert(first_labelled(nodes, label, n));
    }
}

/// An export is driven where it has what the sounds need, and refused else: a module to run, and
/// the rolling, the knock and the landing in full. The clack is driven where it is there in full.
pub proof fn an_export_needs_three_sounds<H>(lib: LibraryView, c: AudioView<H>)
    ensures
        library_fault(lib) is None <==> {
            &&& lib.wasm_modules.len() > 0
            &&& complete(lib.samples, "sfx_ball_roll"@, seq!["roll_LEVEL"@, "roll_PANNER"@], true)
            &&& complete(
                lib.samples,
                "sfx_wall_hit"@,
                seq!["hit_LEVEL"@, "hit_PANNER"@, "hit_FILTER"@],
                false,
            )
            &&& complete(
                lib.samples,
                "sfx_land"@,
                seq!["land_LEVEL"@, "land_PANNER"@, "land_FILTER"@],
                false,
            )
        },
        drives(c, lib) ==> (c.clack is Some <==> complete(
            lib.samples,
            "sfx_ball_clack"@,
            seq!["clack_LEVEL"@, "clack_PANNER"@],
            true,
        )),
{
    let s = lib.samples;
    nothing_is_missing_where_a_sound_is_complete(
        s,
        "sfx_ball_roll"@,
        "roll_LEVEL"@,
        "roll_PANNER"@,
        Tone::Worklet,
    );
    nothing_is_missing_where_a_sound_is_complete(
        s,
        "sfx_wall_hit"@,
        "hit_LEVEL"@,
        "hit_PANNER"@,
        Tone::Filter("hit_FILTER"),
    );
    nothing_is_missing_where_a_sound_is_complete(
        s,
        "sfx_land"@,
        "land_LEVEL"@,
        "land_PANNER"@,
        Tone::Filter("land_FILTER"),
    );
    nothing_is_missing_where_a_sound_is_complete(
        s,
        "sfx_ball_clack"@,
        "clack_LEVEL"@,
        "clack_PANNER"@,
        Tone::Worklet,
    );
}

/// A sound that cannot be driven is refused for the first thing it lacks: its sample, its gain, its
/// panner, or what colours it, by its name.
pub proof fn faults_name_what_is_missing(
    samples: Seq<SampleView>,
    name: Seq<char>,
    level: Seq<char>,
    panner: Seq<char>,
    tone: Tone,
    i: int,
)
    ensures
        (forall|j: int| 0 <= j < samples.len() ==> (#[trigger] samples[j]).name != name) ==> missing(
            samples,
            name,
            level,
            panner,
            tone,
        ) == Some("audio: no sample '"@ + name + "'"@),
        first_named(samples, name, i) ==> {
            let nodes = samples[i].nodes;
            let gain = exists|n: int| #[trigger] first_labelled(nodes, level, n);
            let place = exists|n: int| #[trigger] first_labelled(nodes, panner, n);
            let fault = missing(samples, name, level, panner, tone);
            &&& !gain ==> fault == Some("audio: no node '"@ + level + "'"@)
            &&& gain && !place ==> fault == Some("audio: no node '"@ + panner + "'"@)
            &&& gain && place ==> match tone {
                Tone::Worklet => (forall|n: int|
                    0 <= n < nodes.len() ==> !(#[trigger] nodes[n]).worklet) ==> fault == Some(
                    "audio: roll has no worklet node"@,
                ),
                Tone::Filter(label) => !(exists|n: int| #[trigger] first_labelled(nodes, label@, n))
                    ==> fault == Some("audio: no node '"@ + label@ + "'"@),
            }
        },
{
    samples_are_first_of_their_name(samples, name, 0);
    if let Some(k) = sample_at(samples, name, 0) {
        assert(samples[k].name == name);
        if first_named(samples, name, i) {
            if k < i {
                assert(samples[k].name != name);
            }
            if i < k {
                assert(samples[i].name != name);
            }
            let nodes = samples[i].nodes;
            labels_exist_where_found(nodes, level);
            labels_exist_where_found(nodes, panner);
            worklets_are_found_by_kind(nodes, 0);
            if let Tone::Filter(label) = tone {
                labels_exist_where_found(nodes, label@);
            }
        }
    } else if first_named(samples, name, i) {
        assert(samples[i].name != name);
    }
}

/// Before the first gesture a cue does nothing. After it spent voices are stopped first, and then
/// the cue plays; the voices that are left are those that were not spent, and nothing else changes.
pub proof fn cues_wait_for_the_first_gesture<H>(a: AudioView<H>, msg: AudioMsg, now: u64)
    ensures
        !a.started ==> a.heard(msg, now).len() == 0 && a.after_cue(now) == a,
        a.started ==> {
            let n = a.pending.len() - a.after_cue(now).pending.len();
            &&& n >= 0
            &&& a.heard(msg, now).len() == n + a.cue_commands(msg).len()
            &&& forall|i: int| 0 <= i < n ==> #[trigger] a.heard(msg, now)[i] is Stop
            &&& forall|i: int|
                0 <= i < a.cue_commands(msg).len() ==> #[trigger] a.cue_commands(msg)[i] == a.heard(
                    msg,
                    now,
                )[n + i]
            &&& forall|v: (H, u64)|
                #[trigger] a.after_cue(now).pending.contains(v) <==> a.pending.contains(v) && v.1
                    > now
            &&& a.after_cue(now).started && a.after_cue(now).roll == a.roll && a.after_cue(now).hit
                == a.hit && a.after_cue(now).land == a.land && a.after_cue(now).clack == a.clack
        },
{
    voices_stop_on_time(a.pending, now);
    voices_keep_their_order(a.pending, now);
}

/// A voice that was fired is followed, behind those that are already, until 0.6 seconds after it
/// was; one that could not be fired is not.
pub proof fn fired_voices_are_followed<H>(a: AudioView<H>, h: H, now: u64)
    ensures
        a.tracked_at(None, now) == a,
        ({
            let after = a.tracked_at(Some(h), now).pending;
            &&& after.len() == a.pending.len() + 1
            &&& after.drop_last() == a.pending
            &&& after.last().0 == h
            &&& now + 600_000 <= u64::MAX ==> after.last().1 == now + 600_000
            &&& now + 600_000 > u64::MAX ==> after.last().1 == u64::MAX
        }),
{
    assert(a.tracked_at(Some(h), now).pending.drop_last() =~= a.pending);
}

} // verus!
