//! The game worker: what main's messages change, what a frame does, and what goes back.

use vstd::prelude::*;
use vstd::string::*;

use crate::camera::{drags_in, OrbitCamera};
use crate::pointer::{moved_all, posted, Move, PointerView};
use crate::protocol::{
    CameraMsg, DropMsg, Input, InputMsg, InputView, QualityMsg, RenderMsg, ResizeMsg,
};
use crate::text::{find_name, joined, position, same, texts, trim_slashes, trimmed};

verus! {

// ---------------------------------------------------------------------------------------
// Messages from main

/// A message that main posts to the worker.
pub enum WorkerMsg {
    Input(InputMsg),
    Camera(CameraMsg),
    Drop(DropMsg),
    Resize(ResizeMsg),
    Quality(QualityMsg),
}

/// What the messages act on and the frames read.
pub struct WorkerState {
    input: Input,
    camera: OrbitCamera,
    drops: Vec<(i64, i64)>,
    pending_aa: Option<(bool, bool)>,
    canvas: (u32, u32),
}

/// What a [`WorkerState`] holds: the input, the camera, the clicks that wait for a frame, an
/// anti-aliasing change that waits for one, and the size of the canvas.
pub struct WorkerView {
    pub input: InputView,
    pub camera: OrbitCamera,
    pub drops: Seq<(i64, i64)>,
    pub pending_aa: Option<(bool, bool)>,
    pub canvas: (u32, u32),
}

/// The size that a message gives the canvas: none without a size, or where a side is empty.
pub open spec fn new_size(msg: WorkerMsg) -> Option<(u32, u32)> {
    match msg {
        WorkerMsg::Resize(ResizeMsg::Canvas { width, height }) => if width > 0 && height > 0 {
            Some((width, height))
        } else {
            None
        },
        _ => None,
    }
}

/// The camera's first framing: head-on, tilted down, aimed above the table.
pub open spec fn first_framing() -> OrbitCamera {
    OrbitCamera { look_at: [0, 400_000, 0], radius: 9_000_000, yaw: 0, pitch: 460_000 }
}

impl WorkerView {
    /// The state after a message.
    pub open spec fn applied(self, msg: WorkerMsg) -> WorkerView {
        match msg {
            WorkerMsg::Input(m) => WorkerView {
                input: match m {
                    InputMsg::Held { mask, down } => self.input.with_held(mask, down),
                    InputMsg::Jump => self.input.with_jump(),
                    InputMsg::Fling { vx, vz } => self.input.with_fling(vx, vz),
                },
                ..self
            },
            WorkerMsg::Camera(m) => WorkerView { camera: self.camera.moved(m), ..self },
            WorkerMsg::Drop(DropMsg::Ball { ndc_x, ndc_y }) => WorkerView {
                drops: self.drops.push((ndc_x, ndc_y)),
                ..self
            },
            WorkerMsg::Resize(ResizeMsg::Canvas { width, height }) => if width > 0 && height > 0 {
                WorkerView { canvas: (width, height), ..self }
            } else {
                self
            },
            WorkerMsg::Quality(QualityMsg::AntiAlias { msaa, smaa }) => WorkerView {
                pending_aa: Some((msaa, smaa)),
                ..self
            },
        }
    }
}

impl WorkerView {
    /// The clicks that are handed out: all that wait, on a scene with a tabletop.
    pub open spec fn handed_out(self, has_floor: bool) -> Seq<(i64, i64)> {
        if has_floor {
            self.drops
        } else {
            seq![]
        }
    }

    /// The state after that.
    pub open spec fn after_drops(self, has_floor: bool) -> WorkerView {
        if has_floor {
            WorkerView { drops: seq![], ..self }
        } else {
            self
        }
    }
}

impl View for WorkerState {
    type V = WorkerView;

    closed spec fn view(&self) -> WorkerView {
        WorkerView {
            input: self.input@,
            camera: self.camera,
            drops: self.drops@,
            pending_aa: self.pending_aa,
            canvas: self.canvas,
        }
    }
}

impl WorkerState {
    /// A worker's state for a canvas of this size.
    pub fn new(width: u32, height: u32) -> (r: Self)
        ensures
            r@.input == (InputView { held: 0, jump_seq: 0, fling_seq: 0, fling: (0, 0) }),
            r@.camera == first_framing(),
            r@.camera.wf(),
            r@.drops.len() == 0,
            r@.pending_aa is None,
            r@.canvas == (width, height),
    {
        WorkerState {
            input: Input::new(),
            camera: OrbitCamera::new([0, 400_000, 0], 9_000_000, 0, 460_000),
            drops: Vec::new(),
            pending_aa: None,
            canvas: (width, height),
        }
    }

    /// Applies a message from main. Returns the size to give the canvas, where it brings one.
    pub fn apply(&mut self, msg: WorkerMsg) -> (r: Option<(u32, u32)>)
        ensures
            final(self)@ == old(self)@.applied(msg),
            r == new_size(msg),
    {
        let size: Option<(u32, u32)> = match msg {
            WorkerMsg::Resize(ResizeMsg::Canvas { width, height }) => if width > 0 && height > 0 {
                Some((width, height))
            } else {
                None
            },
            _ => None,
        };
        match msg {
            WorkerMsg::Input(m) => match m {
                InputMsg::Held { mask, down } => self.input.set_held(mask, down),
                InputMsg::Jump => self.input.bump_jump(),
                InputMsg::Fling { vx, vz } => self.input.bump_fling(vx, vz),
            },
            WorkerMsg::Camera(m) => self.camera.apply(m),
            WorkerMsg::Drop(DropMsg::Ball { ndc_x, ndc_y }) => self.drops.push((ndc_x, ndc_y)),
            WorkerMsg::Resize(_) => {
                if let Some(s) = size {
                    self.canvas = s;
                }
            },
            WorkerMsg::Quality(QualityMsg::AntiAlias { msaa, smaa }) => {
                self.pending_aa = Some((msaa, smaa));
            },
        }
        size
    }

    /// Hands out the clicks that wait, oldest first. On a scene without a tabletop they keep
    /// waiting.
    pub fn take_drops(&mut self, has_floor: bool) -> (r: Vec<(i64, i64)>)
        ensures
            has_floor ==> r@ == old(self)@.drops && final(self)@ == (WorkerView {
                drops: seq![],
                ..old(self)@
            }),
            !has_floor ==> r@.len() == 0 && final(self)@ == old(self)@,
            r@ == old(self)@.handed_out(has_floor),
            final(self)@ == old(self)@.after_drops(has_floor),
    {
        let mut out: Vec<(i64, i64)> = Vec::new();
        if has_floor {
            out.append(&mut self.drops);
            assert(out@ =~= old(self)@.drops);
            assert(self@.drops =~= seq![]);
        }
        out
    }

    /// The player's input.
    pub fn input(&self) -> (r: &Input)
        ensures
            r@ == self@.input,
    {
        &self.input
    }

    /// The camera.
    pub fn camera(&self) -> (r: OrbitCamera)
        ensures
            r == self@.camera,
    {
        self.camera
    }

    /// The canvas's width and height.
    pub fn canvas(&self) -> (r: (u32, u32))
        ensures
            r == self@.canvas,
    {
        self.canvas
    }
}

/// The state after a run of messages.
pub open spec fn applied_all(s: WorkerView, msgs: Seq<WorkerMsg>) -> WorkerView
    decreases msgs.len(),
{
    if msgs.len() == 0 {
        s
    } else {
        applied_all(s, msgs.drop_last()).applied(msgs.last())
    }
}

/// The clicks in a run of messages.
pub open spec fn clicks_in(msgs: Seq<WorkerMsg>) -> Seq<(i64, i64)>
    decreases msgs.len(),
{
    if msgs.len() == 0 {
        seq![]
    } else {
        match msgs.last() {
            WorkerMsg::Drop(DropMsg::Ball { ndc_x, ndc_y }) => clicks_in(msgs.drop_last()).push(
                (ndc_x, ndc_y),
            ),
            _ => clicks_in(msgs.drop_last()),
        }
    }
}

/// The camera gestures in a run of messages.
pub open spec fn gestures_in(msgs: Seq<WorkerMsg>) -> Seq<CameraMsg>
    decreases msgs.len(),
{
    if msgs.len() == 0 {
        seq![]
    } else {
        match msgs.last() {
            WorkerMsg::Camera(m) => gestures_in(msgs.drop_last()).push(m),
            _ => gestures_in(msgs.drop_last()),
        }
    }
}

/// No click is lost or repeated: whatever else is posted in between, every click waits in the
/// order in which it came.
pub proof fn every_click_waits(s: WorkerView, msgs: Seq<WorkerMsg>)
    ensures
        applied_all(s, msgs).drops == s.drops + clicks_in(msgs),
    decreases msgs.len(),
{
    if msgs.len() > 0 {
        every_click_waits(s, msgs.drop_last());
    }
    assert(applied_all(s, msgs).drops =~= s.drops + clicks_in(msgs));
}

/// The worker's camera follows the gestures alone, so that its yaw is the one that main
/// mirrors from the drags it posts.
pub proof fn the_camera_follows_the_gestures(s: WorkerView, msgs: Seq<WorkerMsg>)
    ensures
        applied_all(s, msgs).camera == crate::camera::camera_after(s.camera, gestures_in(msgs)),
        applied_all(s, msgs).camera.yaw == crate::camera::mirrored_yaw(
            s.camera.yaw,
            gestures_in(msgs),
        ),
    decreases msgs.len(),
{
    if msgs.len() > 0 {
        the_camera_follows_the_gestures(s, msgs.drop_last());
        if let WorkerMsg::Camera(m) = msgs.last() {
            assert(gestures_in(msgs).drop_last() =~= gestures_in(msgs.drop_last()));
        }
    }
    crate::camera::yaw_stays_in_lockstep(s.camera, gestures_in(msgs));
}

/// No message takes the camera out of its limits.
pub proof fn the_camera_stays_within_limits(s: WorkerView, msgs: Seq<WorkerMsg>)
    requires
        s.camera.wf(),
    ensures
        applied_all(s, msgs).camera.wf(),
{
    the_camera_follows_the_gestures(s, msgs);
    crate::camera::the_table_stays_in_frame(s.camera, gestures_in(msgs));
}

/// Picture and sound agree without exchanging the angle: however the pointer moved, and
/// whatever else was posted in between, once the worker has had the drags that the pointer
/// posted, its camera's yaw is the one that main mirrors for the listener.
pub proof fn picture_and_sound_agree(
    p: PointerView,
    moves: Seq<Move>,
    s: WorkerView,
    msgs: Seq<WorkerMsg>,
)
    requires
        s.camera.yaw == p.yaw,
        drags_in(gestures_in(msgs)) == posted(p, moves),
    ensures
        applied_all(s, msgs).camera.yaw == moved_all(p, moves).yaw,
{
    the_camera_follows_the_gestures(s, msgs);
    crate::camera::only_drags_turn(p.yaw, gestures_in(msgs));
    crate::pointer::the_mirror_follows_the_posted_drags(p, moves);
}

/// The canvas never gets an empty side.
pub proof fn the_canvas_is_never_empty(s: WorkerView, msgs: Seq<WorkerMsg>)
    requires
        s.canvas.0 > 0,
        s.canvas.1 > 0,
    ensures
        applied_all(s, msgs).canvas.0 > 0,
        applied_all(s, msgs).canvas.1 > 0,
    decreases msgs.len(),
{
    if msgs.len() > 0 {
        the_canvas_is_never_empty(s, msgs.drop_last());
    }
}

// ---------------------------------------------------------------------------------------
// Frames

/// The frame on which main learns that the game is on screen.
pub const READY_FRAME: u32 = 3;

/// Where the frame loop stands.
pub struct FrameLoop {
    reconfiguring: bool,
    frame_count: u32,
}

/// What a [`FrameLoop`] holds.
pub struct LoopView {
    /// The renderer is away being reconfigured.
    pub reconfiguring: bool,
    /// Frames that were shown.
    pub frame_count: u32,
}

/// What a frame does.
#[derive(Debug, Clone, Copy, PartialEq, Eq, Structural)]
pub enum FrameStep {
    /// Take the renderer away and change its anti-aliasing.
    Reconfigure { msaa: bool, smaa: bool },
    /// Nothing.
    Skip,
    /// Step and show the world.
    Render,
}

impl View for FrameLoop {
    type V = LoopView;

    closed spec fn view(&self) -> LoopView {
        LoopView { reconfiguring: self.reconfiguring, frame_count: self.frame_count }
    }
}

impl LoopView {
    /// What a frame does, given a waiting anti-aliasing change and whether the renderer is
    /// there.
    pub open spec fn step(self, pending: Option<(bool, bool)>, renderer: bool) -> FrameStep {
        if self.reconfiguring {
            FrameStep::Skip
        } else {
            match pending {
                Some((msaa, smaa)) => FrameStep::Reconfigure { msaa, smaa },
                None => if renderer {
                    FrameStep::Render
                } else {
                    FrameStep::Skip
                },
            }
        }
    }
}

impl LoopView {
    /// The loop after a frame of this kind has begun.
    pub open spec fn begun(self, step: FrameStep) -> LoopView {
        LoopView { reconfiguring: self.reconfiguring || step is Reconfigure, ..self }
    }

    /// The loop after one more frame was shown.
    pub open spec fn shown(self) -> LoopView {
        LoopView {
            frame_count: if self.frame_count == u32::MAX {
                0
            } else {
                (self.frame_count + 1) as u32
            },
            ..self
        }
    }

    /// Whether the frame shown last is the one on which main learns that the game is on screen.
    pub open spec fn is_ready(self) -> bool {
        self.frame_count == READY_FRAME
    }
}

impl WorkerView {
    /// The state after a frame of this kind has begun.
    pub open spec fn begun(self, step: FrameStep) -> WorkerView {
        if step is Reconfigure {
            WorkerView { pending_aa: None, ..self }
        } else {
            self
        }
    }
}

impl FrameLoop {
    pub fn new() -> (r: Self)
        ensures
            r@ == (LoopView { reconfiguring: false, frame_count: 0 }),
    {
        FrameLoop { reconfiguring: false, frame_count: 0 }
    }

    /// Begins a frame. A waiting anti-aliasing change is taken up unless one is under way.
    pub fn begin(&mut self, state: &mut WorkerState, renderer: bool) -> (r: FrameStep)
        ensures
            r == old(self)@.step(old(state)@.pending_aa, renderer),
            r is Reconfigure ==> {
                &&& final(self)@ == (LoopView { reconfiguring: true, ..old(self)@ })
                &&& final(state)@ == (WorkerView { pending_aa: None, ..old(state)@ })
            },
            !(r is Reconfigure) ==> final(self)@ == old(self)@ && final(state)@ == old(state)@,
            final(self)@ == old(self)@.begun(r),
            final(state)@ == old(state)@.begun(r),
    {
        if self.reconfiguring {
            return FrameStep::Skip;
        }
        match state.pending_aa.take() {
            Some((msaa, smaa)) => {
                self.reconfiguring = true;
                FrameStep::Reconfigure { msaa, smaa }
            },
            None => if renderer {
                FrameStep::Render
            } else {
                FrameStep::Skip
            },
        }
    }

    /// The renderer is back.
    pub fn reconfigured(&mut self)
        ensures
            final(self)@ == (LoopView { reconfiguring: false, ..old(self)@ }),
    {
        self.reconfiguring = false;
    }

    /// A frame was shown. Returns whether main is to be told that the game is ready.
    pub fn presented(&mut self) -> (r: bool)
        ensures
            final(self)@.reconfiguring == old(self)@.reconfiguring,
            final(self)@.frame_count == (if old(self)@.frame_count == u32::MAX {
                0
            } else {
                old(self)@.frame_count + 1
            }),
            r == (final(self)@.frame_count == READY_FRAME),
            final(self)@ == old(self)@.shown(),
            r == old(self)@.shown().is_ready(),
    {
        self.frame_count = self.frame_count.wrapping_add(1);
        self.frame_count == READY_FRAME
    }
}

/// While the renderer is away no frame touches it, whatever change is asked for meanwhile.
pub proof fn changes_wait_for_the_renderer(l: LoopView, s: WorkerView, renderer: bool)
    requires
        l.reconfiguring,
    ensures
        l.step(s.pending_aa, renderer) == FrameStep::Skip,
{
}

/// Of several changes asked for before a frame, the last one is taken up.
pub proof fn the_last_change_wins(s: WorkerView, l: LoopView, a: (bool, bool), b: (bool, bool))
    requires
        !l.reconfiguring,
    ensures
        l.step(
            s.applied(
                WorkerMsg::Quality(QualityMsg::AntiAlias { msaa: a.0, smaa: a.1 }),
            ).applied(WorkerMsg::Quality(QualityMsg::AntiAlias { msaa: b.0, smaa: b.1 })).pending_aa,
            true,
        ) == (FrameStep::Reconfigure { msaa: b.0, smaa: b.1 }),
{
}

// ---------------------------------------------------------------------------------------
// Anti-aliasing

/// The renderer's anti-aliasing settings.
#[derive(Debug, Clone, Copy, PartialEq, Eq)]
pub struct AntiAliasing {
    pub msaa_sample_count: Option<u32>,
    pub smaa: bool,
    pub mipmap: bool,
}

/// The renderer's settings for the two toggles.
pub open spec fn aa_settings(msaa: bool, smaa: bool) -> AntiAliasing {
    AntiAliasing {
        msaa_sample_count: if msaa {
            Some(4u32)
        } else {
            None
        },
        smaa,
        mipmap: true,
    }
}

/// The renderer's settings for the two toggles: four samples or none, mipmaps always.
pub fn aa_config(msaa: bool, smaa: bool) -> (r: AntiAliasing)
    ensures
        r == aa_settings(msaa, smaa),
        r == (AntiAliasing {
            msaa_sample_count: if msaa {
                Some(4u32)
            } else {
                None
            },
            smaa,
            mipmap: true,
        }),
{
    AntiAliasing {
        msaa_sample_count: if msaa {
            Some(4)
        } else {
            None
        },
        smaa,
        mipmap: true,
    }
}

/// Where an anti-aliasing change failed.
#[derive(Debug, Clone, Copy, PartialEq, Eq, Structural)]
pub enum AaStage {
    /// The renderer refused the settings.
    Change,
    /// Its pipelines did not compile.
    Pipelines,
}

/// The words before a fault.
pub open spec fn stage_words(stage: AaStage) -> Seq<char> {
    match stage {
        AaStage::Change => "anti-aliasing change: "@,
        AaStage::Pipelines => "anti-aliasing pipelines: "@,
    }
}

/// What main is told at the end of an anti-aliasing change: a fault where there was one, and
/// always, last of all, that it is over.
pub fn aa_finished(fault: Option<(AaStage, String)>) -> (r: Vec<RenderMsg>)
    ensures
        match fault {
            Some((stage, text)) => {
                &&& r@.len() == 2
                &&& r@[0] matches RenderMsg::Error { message } && message@ == stage_words(stage)
                    + text@
            },
            None => r@.len() == 1,
        },
        r@.last() is AaCompileDone,
{
    let mut r: Vec<RenderMsg> = Vec::new();
    if let Some((stage, text)) = fault {
        let words = match stage {
            AaStage::Change => "anti-aliasing change: ",
            AaStage::Pipelines => "anti-aliasing pipelines: ",
        };
        r.push(RenderMsg::Error { message: joined(words, text.as_str()) });
    }
    r.push(RenderMsg::AaCompileDone);
    r
}

// ---------------------------------------------------------------------------------------
// Reports

/// What main is told of the graphics adapter.
pub open spec fn adapter_report(adapter: Option<(bool, u32)>) -> RenderMsg {
    match adapter {
        Some((is_fallback, max_texture_dim)) => RenderMsg::GpuInfo { is_fallback, max_texture_dim },
        None => RenderMsg::GpuInfo { is_fallback: false, max_texture_dim: 8192 },
    }
}

/// What main is told of the graphics adapter: whether it is a software one and its largest
/// texture, or safe values where there is none.
pub fn gpu_info(adapter: Option<(bool, u32)>) -> (r: RenderMsg)
    ensures
        r == adapter_report(adapter),
        r == (match adapter {
            Some((is_fallback, max_texture_dim)) => RenderMsg::GpuInfo {
                is_fallback,
                max_texture_dim,
            },
            None => RenderMsg::GpuInfo { is_fallback: false, max_texture_dim: 8192 },
        }),
{
    match adapter {
        Some((is_fallback, max_texture_dim)) => RenderMsg::GpuInfo { is_fallback, max_texture_dim },
        None => RenderMsg::GpuInfo { is_fallback: false, max_texture_dim: 8192 },
    }
}

/// Holds back progress lines that repeat the last one.
pub struct ProgressLines {
    last: String,
}

impl ProgressLines {
    /// The line that was let through last.
    pub closed spec fn last_line(&self) -> Seq<char> {
        self.last@
    }

    pub fn new() -> (r: Self)
        ensures
            r.last_line() == Seq::<char>::empty(),
    {
        ProgressLines { last: String::new() }
    }

    /// Whether a line is news.
    pub fn offer(&mut self, line: &str) -> (r: bool)
        ensures
            r == (line@ != old(self).last_line()),
            final(self).last_line() == line@,
    {
        if same(self.last.as_str(), line) {
            false
        } else {
            self.last = line.to_owned();
            true
        }
    }
}

/// The lines of a run that are let through after `last`.
pub open spec fn let_through(last: Seq<char>, lines: Seq<Seq<char>>) -> Seq<Seq<char>>
    decreases lines.len(),
{
    if lines.len() == 0 {
        seq![]
    } else {
        let before = let_through(last, lines.drop_last());
        if lines.last() != last_offered(last, lines.drop_last()) {
            before.push(lines.last())
        } else {
            before
        }
    }
}

/// The last line of a run, or the one before it where it is empty.
pub open spec fn last_offered(last: Seq<char>, lines: Seq<Seq<char>>) -> Seq<char> {
    if lines.len() == 0 {
        last
    } else {
        lines.last()
    }
}

/// No two lines that are let through one after the other are the same.
pub proof fn no_line_repeats(last: Seq<char>, lines: Seq<Seq<char>>)
    ensures
        forall|i: int|
            0 <= i < let_through(last, lines).len() - 1 ==> #[trigger] let_through(last, lines)[i]
                != let_through(last, lines)[i + 1],
    decreases lines.len(),
{
    if lines.len() > 0 {
        no_line_repeats(last, lines.drop_last());
        the_last_one_through(last, lines.drop_last());
        let before = let_through(last, lines.drop_last());
        let all = let_through(last, lines);
        assert forall|i: int| 0 <= i < all.len() - 1 implies #[trigger] all[i] != all[i + 1] by {
            if i + 1 < before.len() {
                assert(all[i] == before[i] && all[i + 1] == before[i + 1]);
            } else {
                assert(all[i] == before.last());
            }
        }
    }
}

proof fn the_last_one_through(last: Seq<char>, lines: Seq<Seq<char>>)
    ensures
        let_through(last, lines).len() > 0 ==> let_through(last, lines).last() == last_offered(
            last,
            lines,
        ),
    decreases lines.len(),
{
    if lines.len() > 0 {
        the_last_one_through(last, lines.drop_last());
    }
}

/// The base address of the scene's files.
pub open spec fn bundle_address(origin: Seq<char>) -> Seq<char> {
    trimmed(origin) + "/bundle"@
}

/// The base address of the scene's files.
pub fn bundle_base(origin: &str) -> (r: String)
    ensures
        r@ == bundle_address(origin@),
{
    joined(trim_slashes(origin).as_str(), "/bundle")
}

/// The address of the scene file.
pub fn scene_url(origin: &str) -> (r: String)
    ensures
        r@ == bundle_address(origin@) + "/scene.toml"@,
{
    joined(bundle_base(origin).as_str(), "/scene.toml")
}

/// The material variant of the ball that the player's gets, among the names of all of them.
pub fn player_variant(names: &Vec<String>) -> (r: Option<usize>)
    ensures
        match r {
            Some(i) => position(texts(names@), "Ball_Player_Red"@, 0) == Some(i as int),
            None => position(texts(names@), "Ball_Player_Red"@, 0) is None,
        },
{
    find_name(names, "Ball_Player_Red")
}

/// Every message changes what it is for, and nothing else: input the input, a gesture the camera, a
/// click the clicks that wait, a size the canvas, and a change of anti-aliasing the one that waits.
pub proof fn messages_change_what_they_are_for(s: WorkerView, msg: WorkerMsg)
    ensures
        ({
            let after = s.applied(msg);
            &&& !(msg is Input) ==> after.input == s.input
            &&& !(msg is Camera) ==> after.camera == s.camera
            &&& !(msg is Drop) ==> after.drops == s.drops
            &&& !(msg is Resize) ==> after.canvas == s.canvas && new_size(msg) is None
            &&& !(msg is Quality) ==> after.pending_aa == s.pending_aa
            &&& msg matches WorkerMsg::Drop(DropMsg::Ball { ndc_x, ndc_y }) ==> after.drops.len()
                == s.drops.len() + 1 && after.drops.last().0 == ndc_x && after.drops.last().1
                == ndc_y && after.drops.drop_last() == s.drops
            &&& msg matches WorkerMsg::Resize(ResizeMsg::Canvas { width, height }) ==> {
                &&& width > 0 && height > 0 ==> after.canvas.0 == width && after.canvas.1 == height
                    && new_size(msg) == Some((width, height))
                &&& width == 0 || height == 0 ==> after.canvas == s.canvas && new_size(msg) is None
            }
            &&& msg matches WorkerMsg::Quality(QualityMsg::AntiAlias { msaa, smaa })
                ==> after.pending_aa == Some((msaa, smaa))
        }),
{
    if msg is Drop {
        assert(s.applied(msg).drops.drop_last() =~= s.drops);
    }
}

/// Input does to the player's input what it says: a key that goes down holds its bits and one that
/// goes up frees them, a jump is one more press, and a fling is one more throw at its velocity.
pub proof fn input_does_what_it_says(s: WorkerView, mask: u32, vx: i64, vz: i64)
    ensures
        ({
            let down = s.applied(WorkerMsg::Input(InputMsg::Held { mask, down: true })).input;
            let up = s.applied(WorkerMsg::Input(InputMsg::Held { mask, down: false })).input;
            let jump = s.applied(WorkerMsg::Input(InputMsg::Jump)).input;
            let fling = s.applied(WorkerMsg::Input(InputMsg::Fling { vx, vz })).input;
            &&& down.held & mask == mask && down.held & !mask == s.input.held & !mask
            &&& up.held & mask == 0 && up.held & !mask == s.input.held & !mask
            &&& down.jump_seq == s.input.jump_seq && down.fling_seq == s.input.fling_seq
            &&& up.jump_seq == s.input.jump_seq && up.fling_seq == s.input.fling_seq
            &&& jump.jump_seq == (s.input.jump_seq + 1) % 0x1_0000_0000 && jump.held == s.input.held
                && jump.fling_seq == s.input.fling_seq
            &&& fling.fling_seq == (s.input.fling_seq + 1) % 0x1_0000_0000 && fling.fling.0 == vx
                && fling.fling.1 == vz && fling.held == s.input.held && fling.jump_seq
                == s.input.jump_seq
        }),
{
    let h = s.input.held;
    assert((h | mask) & mask == mask && (h & !mask) & mask == 0 && (h | mask) & !mask == h & !mask
        && (h & !mask) & !mask == h & !mask) by (bit_vector);
}

/// A frame takes up a change that waits, where none is under way, and else shows the world where
/// the renderer is there.
pub proof fn frames_take_up_changes_first(l: LoopView, pending: Option<(bool, bool)>, renderer: bool)
    ensures
        l.reconfiguring ==> l.step(pending, renderer) is Skip,
        !l.reconfiguring ==> (pending matches Some(aa) ==> (l.step(
            pending,
            renderer,
        ) matches FrameStep::Reconfigure { msaa, smaa } && msaa == aa.0 && smaa == aa.1)),
        !l.reconfiguring && pending is None && renderer ==> l.step(pending, renderer) is Render,
        !l.reconfiguring && pending is None && !renderer ==> l.step(pending, renderer) is Skip,
{
}

/// The camera starts in front of the table, nine metres away and tilted down by 0.46, and looks at
/// a point 0.4 above its middle.
pub proof fn the_camera_starts_in_front()
    ensures
        first_framing().yaw == 0,
        first_framing().pitch == 460_000,
        first_framing().radius == 9_000_000,
        first_framing().look_at@ =~= seq![0i64, 400_000i64, 0i64],
{
}

/// The scene's files stand in their directory below the origin, whatever slashes that ends in.
pub proof fn bundles_stand_below_the_origin(origin: Seq<char>, n: nat)
    requires
        origin.len() > 0,
        origin.last() != '/',
    ensures
        bundle_address(origin + Seq::new(n, |i: int| '/')) == origin + "/bundle"@,
    decreases n,
{
    let slashes = Seq::new(n, |i: int| '/');
    let all = origin + slashes;
    if n > 0 {
        let fewer = Seq::new((n - 1) as nat, |i: int| '/');
        bundles_stand_below_the_origin(origin, (n - 1) as nat);
        assert(all.drop_last() =~= origin + fewer);
        assert(all.last() == '/');
    } else {
        assert(all =~= origin);
    }
}

/// Clicks are handed out all together and once, on a scene with a tabletop, and keep waiting on
/// one without. Nothing else changes.
pub proof fn clicks_are_handed_out_once(s: WorkerView, has_floor: bool)
    ensures
        has_floor ==> s.handed_out(has_floor) == s.drops && s.after_drops(has_floor).drops.len()
            == 0,
        !has_floor ==> s.handed_out(has_floor).len() == 0 && s.after_drops(has_floor).drops
            == s.drops,
        s.after_drops(has_floor).input == s.input && s.after_drops(has_floor).camera == s.camera
            && s.after_drops(has_floor).canvas == s.canvas && s.after_drops(has_floor).pending_aa
            == s.pending_aa,
{
}

/// A frame that takes up a change has the renderer away until it is back, and the change no longer
/// waits. Any other frame changes nothing.
pub proof fn a_change_is_taken_up_once(l: LoopView, s: WorkerView, renderer: bool)
    ensures
        ({
            let step = l.step(s.pending_aa, renderer);
            &&& step is Reconfigure ==> l.begun(step).reconfiguring && s.begun(step).pending_aa
                is None && s.begun(step).input == s.input && s.begun(step).drops == s.drops
                && s.begun(step).camera == s.camera && s.begun(step).canvas == s.canvas
            &&& !(step is Reconfigure) ==> l.begun(step) == l && s.begun(step) == s
            &&& l.begun(step).frame_count == l.frame_count
        }),
{
}

/// The loop after `n` more frames were shown.
pub open spec fn shown_all(l: LoopView, n: nat) -> LoopView
    decreases n,
{
    if n == 0 {
        l
    } else {
        shown_all(l, (n - 1) as nat).shown()
    }
}

/// Main learns that the game is on screen on the third frame, and on no other before the count
/// starts over.
pub proof fn the_game_is_ready_on_its_third_frame(l: LoopView, n: nat)
    requires
        l.frame_count == 0,
        0 < n < 0x1_0000_0000,
    ensures
        shown_all(l, n).is_ready() <==> n == 3,
        shown_all(l, n).reconfiguring == l.reconfiguring,
{
    frames_are_counted(l, n);
}

proof fn frames_are_counted(l: LoopView, n: nat)
    requires
        l.frame_count == 0,
        n < 0x1_0000_0000,
    ensures
        shown_all(l, n).frame_count == n,
        shown_all(l, n).reconfiguring == l.reconfiguring,
    decreases n,
{
    if n > 0 {
        frames_are_counted(l, (n - 1) as nat);
    }
}

/// The renderer samples four times with multisampling and not without, filters edges where asked,
/// and always uses mipmaps. Main is told of the adapter what is known of it, or that it is a real
/// one with textures of 8192.
pub proof fn the_renderer_is_told_the_toggles(msaa: bool, smaa: bool, adapter: Option<(bool, u32)>)
    ensures
        msaa ==> aa_settings(msaa, smaa).msaa_sample_count == Some(4u32),
        !msaa ==> aa_settings(msaa, smaa).msaa_sample_count is None,
        aa_settings(msaa, smaa).smaa == smaa,
        aa_settings(msaa, smaa).mipmap,
        adapter_report(adapter) matches RenderMsg::GpuInfo { is_fallback, max_texture_dim } && (
        adapter matches Some(a) ==> is_fallback == a.0 && max_texture_dim == a.1) && (adapter
            is None ==> !is_fallback && max_texture_dim == 8192),
{
}

} // verus!
