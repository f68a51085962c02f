//! What the two threads tell each other, and the player input the worker holds.
//!
//! The main thread owns the page, the pointer, the keyboard and the audio graph; the
//! worker owns the renderer and the physics world. They share no memory: every value
//! below crosses as a copy.

use vstd::prelude::*;

verus! {

/// Fixed physics steps per second of real time. Every tick count in this crate derives
/// from it.
pub const SIM_HZ: u32 = 240;

/// The most balls a session can drop.
pub const MAX_BALLS: usize = 200;

/// Held-movement bits of [`Input`].
pub const HELD_FORWARD: u32 = 1;

pub const HELD_BACK: u32 = 2;

pub const HELD_LEFT: u32 = 4;

pub const HELD_RIGHT: u32 = 8;

/// Collider roles, by which impacts are classified: the tabletop, a rail, a ball.
pub const ROLE_FLOOR: u8 = 0;

pub const ROLE_WALL: u8 = 1;

pub const ROLE_BALL: u8 = 2;

/// Microradians of camera yaw per thousandth of a CSS pixel of horizontal drag. The
/// camera and the audio listener both turn by it, so that neither needs the other's angle.
pub const CAMERA_ORBIT_SENSITIVITY: i64 = 5;

/// The player's live input as the physics step polls it.
///
/// The discrete actions are counters: a reader acts when a counter differs from the value
/// it saw last, so that one press is one action however often it polls.
pub struct Input {
    held: u32,
    jump_seq: u32,
    fling_seq: u32,
    fling_x: i64,
    fling_z: i64,
}

/// What an [`Input`] holds: the held bits, the two action counters, and the camera-frame
/// velocity of the latest fling (micrometres per second; x right, z towards the camera).
pub struct InputView {
    pub held: u32,
    pub jump_seq: u32,
    pub fling_seq: u32,
    pub fling: (i64, i64),
}

impl InputView {
    /// One held bit set or cleared.
    pub open spec fn with_held(self, mask: u32, down: bool) -> InputView {
        InputView {
            held: if down {
                self.held | mask
            } else {
                self.held & !mask
            },
            ..self
        }
    }

    /// One more jump press.
    pub open spec fn with_jump(self) -> InputView {
        InputView { jump_seq: next_seq(self.jump_seq), ..self }
    }

    /// One more fling, at the given velocity.
    pub open spec fn with_fling(self, vx: i64, vz: i64) -> InputView {
        InputView { fling_seq: next_seq(self.fling_seq), fling: (vx, vz), ..self }
    }

    /// What a reader that saw `last` gets: the velocity where the counter has moved on.
    pub open spec fn pending_fling(self, last: u32) -> Option<(i64, i64)> {
        if self.fling_seq == last {
            None
        } else {
            Some(self.fling)
        }
    }
}

/// The counter value after one more press; it starts over after the largest.
pub open spec fn next_seq(seq: u32) -> u32 {
    if seq == u32::MAX {
        0
    } else {
        (seq + 1) as u32
    }
}

impl View for Input {
    type V = InputView;

    closed spec fn view(&self) -> InputView {
        InputView {
            held: self.held,
            jump_seq: self.jump_seq,
            fling_seq: self.fling_seq,
            fling: (self.fling_x, self.fling_z),
        }
    }
}

impl Input {
    /// No key held, nothing pressed yet.
    pub fn new() -> (r: Self)
        ensures
            r@ == (InputView { held: 0, jump_seq: 0, fling_seq: 0, fling: (0, 0) }),
    {
        Input { held: 0, jump_seq: 0, fling_seq: 0, fling_x: 0, fling_z: 0 }
    }

    /// Sets or clears held-key bits.
    pub fn set_held(&mut self, mask: u32, down: bool)
        ensures
            final(self)@ == old(self)@.with_held(mask, down),
    {
        let cur: u32 = self.held;
        self.held = if down {
            cur | mask
        } else {
            cur & !mask
        };
    }

    /// The bits of the keys that are held.
    pub fn held(&self) -> (r: u32)
        ensures
            r == self@.held,
    {
        self.held
    }

    /// Registers one jump press.
    pub fn bump_jump(&mut self)
        ensures
            final(self)@ == old(self)@.with_jump(),
    {
        self.jump_seq = self.jump_seq.wrapping_add(1);
    }

    /// The jump counter.
    pub fn jump_seq(&self) -> (r: u32)
        ensures
            r == self@.jump_seq,
    {
        self.jump_seq
    }

    /// Publishes one fling with its camera-frame velocity.
    pub fn bump_fling(&mut self, vx: i64, vz: i64)
        ensures
            final(self)@ == old(self)@.with_fling(vx, vz),
    {
        self.fling_x = vx;
        self.fling_z = vz;
        self.fling_seq = self.fling_seq.wrapping_add(1);
    }

    /// The fling counter.
    pub fn fling_seq(&self) -> (r: u32)
        ensures
            r == self@.fling_seq,
    {
        self.fling_seq
    }

    /// Consumes a pending fling: its velocity where the counter differs from `last_seq`,
    /// which then catches up.
    pub fn poll_fling(&self, last_seq: &mut u32) -> (r: Option<(i64, i64)>)
        ensures
            r == self@.pending_fling(*old(last_seq)),
            *final(last_seq) == self@.fling_seq,
    {
        let seq: u32 = self.fling_seq;
        if seq == *last_seq {
            return None;
        }
        *last_seq = seq;
        Some((self.fling_x, self.fling_z))
    }
}

impl Default for Input {
    fn default() -> (r: Self)
        ensures
            r@ == (InputView { held: 0, jump_seq: 0, fling_seq: 0, fling: (0, 0) }),
    {
        Input::new()
    }
}

/// Press `n` more times.
pub open spec fn seq_after(seq: u32, n: nat) -> u32
    decreases n,
{
    if n == 0 {
        seq
    } else {
        next_seq(seq_after(seq, (n - 1) as nat))
    }
}

proof fn seq_after_value(seq: u32, n: nat)
    ensures
        seq_after(seq, n) == (seq + n) % 0x1_0000_0000,
    decreases n,
{
    if n > 0 {
        seq_after_value(seq, (n - 1) as nat);
        crate::units::counting_starts_over(seq + n - 1);
    }
}

/// A reader notices every run of presses that it has not polled yet, up to a full turn of
/// the counter: the counter differs from what the reader saw after any number of presses
/// from one to `u32::MAX`.
pub proof fn presses_are_noticed(seq: u32, n: nat)
    requires
        0 < n <= u32::MAX,
    ensures
        seq_after(seq, n) != seq,
{
    seq_after_value(seq, n);
}

/// One fling is one throw: the reader that was up to date gets the flung velocity once, and
/// nothing on the next poll.
pub proof fn one_fling_is_one_throw(input: InputView, vx: i64, vz: i64)
    ensures
        input.with_fling(vx, vz).pending_fling(input.fling_seq) == Some((vx, vz)),
        input.with_fling(vx, vz).pending_fling(input.with_fling(vx, vz).fling_seq) is None,
{
}

/// Of two flings before a poll the later one is the one thrown.
pub proof fn the_latest_fling_wins(input: InputView, ax: i64, az: i64, bx: i64, bz: i64)
    ensures
        input.with_fling(ax, az).with_fling(bx, bz).pending_fling(input.fling_seq) == Some(
            (bx, bz),
        ),
{
}

/// Pressing a key holds its bits, releasing it frees them, and neither touches the others.
pub proof fn held_bits_are_independent(input: InputView, mask: u32, other: u32)
    requires
        mask & other == 0,
    ensures
        input.with_held(mask, true).held & mask == mask,
        input.with_held(mask, false).held & mask == 0,
        input.with_held(mask, true).held & other == input.held & other,
        input.with_held(mask, false).held & other == input.held & other,
{
    let h = input.held;
    assert((h | mask) & mask == mask) by (bit_vector);
    assert((h & !mask) & mask == 0) by (bit_vector);
    assert(mask & other == 0 ==> (h | mask) & other == h & other) by (bit_vector);
    assert(mask & other == 0 ==> (h & !mask) & other == h & other) by (bit_vector);
}

/// Jumping and flinging leave each other, and the held keys, alone.
pub proof fn actions_are_independent(input: InputView, mask: u32, down: bool, vx: i64, vz: i64)
    ensures
        input.with_jump().pending_fling(input.fling_seq) is None,
        input.with_fling(vx, vz).jump_seq == input.jump_seq,
        input.with_held(mask, down).jump_seq == input.jump_seq,
        input.with_held(mask, down).fling_seq == input.fling_seq,
        input.with_jump().held == input.held,
        input.with_fling(vx, vz).held == input.held,
{
}

/// A collider in world space, as the physics engine takes it (micrometres; quaternion
/// components in millionths).
#[derive(Debug, Clone)]
pub struct ColliderInit {
    pub shape: ColliderShapeMsg,
    pub translation: [i64; 3],
    pub rotation: [i64; 4],
    /// The ball moves; everything else is fixed.
    pub dynamic: bool,
    /// One of the `ROLE_*` values.
    pub role: u8,
}

/// The shapes the physics side builds (micrometres).
#[derive(Debug, Clone, Copy)]
pub enum ColliderShapeMsg {
    Cuboid { half_extents: [i64; 3] },
    Ball { radius: i64 },
    Capsule { half_height: i64, radius: i64 },
    Cylinder { half_height: i64, radius: i64 },
    Cone { half_height: i64, radius: i64 },
}

/// Worker to main: what sounds, where (micrometres), and how loud (millionths).
#[derive(Debug, Clone, Copy, PartialEq, Eq, Structural)]
pub enum AudioMsg {
    /// The rolling state of the player's ball.
    Roll { speed: i64, x: i64, y: i64, z: i64 },
    /// A ball struck a rail.
    WallHit { x: i64, y: i64, z: i64, intensity: i64 },
    /// A ball landed on the table.
    Land { x: i64, y: i64, z: i64, intensity: i64 },
    /// Two balls collided.
    BallClack { x: i64, y: i64, z: i64, intensity: i64 },
}

/// Main to worker: a player-input event.
#[derive(Debug, Clone, Copy, PartialEq, Eq, Structural)]
pub enum InputMsg {
    /// A movement key went down or up.
    Held { mask: u32, down: bool },
    /// One jump press.
    Jump,
    /// A swipe, with its camera-frame velocity (micrometres per second).
    Fling { vx: i64, vz: i64 },
}

/// Main to worker: a camera gesture (thousandths of a CSS pixel).
#[derive(Debug, Clone, Copy, PartialEq, Eq, Structural)]
pub enum CameraMsg {
    /// A drag: yaw from `dx`, pitch from `dy`.
    Orbit { dx: i64, dy: i64 },
    /// A wheel turn.
    Zoom { dy: i64 },
}

/// Main to worker: a click, in millionths of normalized device coordinates (x right, y up).
#[derive(Debug, Clone, Copy, PartialEq, Eq, Structural)]
pub enum DropMsg {
    Ball { ndc_x: i64, ndc_y: i64 },
}

/// Main to worker: the canvas backing size changed (device pixels).
#[derive(Debug, Clone, Copy, PartialEq, Eq, Structural)]
pub enum ResizeMsg {
    Canvas { width: u32, height: u32 },
}

/// Main to worker: an anti-aliasing change.
#[derive(Debug, Clone, Copy, PartialEq, Eq, Structural)]
pub enum QualityMsg {
    AntiAlias { msaa: bool, smaa: bool },
}

/// Worker to main: load progress, life cycle, and what main must know of the GPU.
#[derive(Debug, Clone)]
pub enum RenderMsg {
    /// A line for the loading screen.
    Progress { message: String },
    /// The first few frames are on screen.
    Ready,
    /// Posted once, before the scene loads.
    GpuInfo { is_fallback: bool, max_texture_dim: u32 },
    /// Something failed in the worker.
    Error { message: String },
    /// An anti-aliasing change has begun to compile.
    AaCompileStart { msaa: bool, smaa: bool },
    /// A line about that compilation.
    AaCompileProgress { message: String },
    /// That compilation is over, whether it worked or not.
    AaCompileDone,
}

/// Worker to main: sampled engine statistics (millionths of a frame or step per second, and
/// of a millisecond).
#[derive(Debug, Clone, Copy, PartialEq, Eq, Structural)]
pub struct StatsMsg {
    pub fps: i64,
    pub frame_ms: i64,
    pub step_ms: i64,
    pub sps: i64,
    pub balls: u32,
}

} // verus!
