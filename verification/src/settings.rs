//! The graphics settings: the resolution scale, anti-aliasing, and what is remembered of them.
//!
//! A scale and a device pixel ratio are millionths, a CSS size is millionths of a pixel.

use vstd::prelude::*;

use crate::protocol::{QualityMsg, ResizeMsg};
use crate::shell::{decimal, hundredths, hundredths_text, last_digits};
use crate::text::same;
use crate::units::{clamp_i64, clamp_int, div_round};

verus! {

/// Half of native resolution: the slider's lower end.
pub const MIN_SCALE: i64 = 500_000;

/// Native resolution: the slider's upper end.
pub const MAX_SCALE: i64 = 1_000_000;

/// Where a touch device starts.
pub const COARSE_START_SCALE: i64 = 600_000;

/// Where a software adapter starts.
pub const FALLBACK_START_SCALE: i64 = 500_000;

/// The largest texture side until the worker reports the real one.
pub const DEFAULT_MAX_TEX: u32 = 8192;

/// The least factor from CSS to device pixels, in millionths of millionths.
pub const LEAST_FACTOR: u64 = 10_000_000_000;

/// One, in millionths of millionths of millionths.
pub const MICRO_CUBED: u128 = 1_000_000_000_000_000_000;

/// Everything that sizes the canvas's backing store.
#[derive(Debug, Clone, Copy, PartialEq, Eq, Structural)]
pub struct ResState {
    pub scale: u32,
    pub max_tex: u32,
    pub css_w: u64,
    pub css_h: u64,
    pub dpr: u32,
}

impl ResState {
    /// A backing store can be made.
    pub open spec fn wf(self) -> bool {
        self.max_tex >= 1
    }

    /// The factor from CSS to device pixels, in millionths of millionths.
    pub open spec fn factor(self) -> int {
        if self.dpr * self.scale < LEAST_FACTOR {
            LEAST_FACTOR as int
        } else {
            self.dpr * self.scale
        }
    }

    /// One side of the backing store, in device pixels: what the factor makes of the CSS
    /// side, at least one and at most the largest texture.
    pub open spec fn side(self, css: u64) -> int {
        clamp_int(div_round(css * self.factor(), 1_000_000_000_000_000_000), 1, self.max_tex as int)
    }

    fn one_side(&self, css: u64) -> (r: u32)
        requires
            self.wf(),
        ensures
            r == self.side(css),
    {
        proof {
            product_fits(self.dpr, self.scale);
        }
        let product: u64 = self.dpr as u64 * self.scale as u64;
        let factor: u64 = if product < LEAST_FACTOR {
            LEAST_FACTOR
        } else {
            product
        };
        proof {
            wide_product_fits(css, factor);
        }
        let n: u128 = css as u128 * factor as u128;
        let whole: u128 = n / MICRO_CUBED;
        let rest: u128 = n % MICRO_CUBED;
        let rounded: u128 = if rest >= 500_000_000_000_000_000 {
            whole + 1
        } else {
            whole
        };
        proof {
            assert(MICRO_CUBED == 1_000_000_000_000_000_000);
            let m = n as int;
            assert(m == 1_000_000_000_000_000_000 * whole + rest);
            assert(rounded == (2 * m + 1_000_000_000_000_000_000) / 2_000_000_000_000_000_000);
        }
        if rounded < 1 {
            1
        } else if rounded > self.max_tex as u128 {
            self.max_tex
        } else {
            rounded as u32
        }
    }

    /// The backing store's width and height in device pixels.
    pub fn backing(&self) -> (r: (u32, u32))
        requires
            self.wf(),
        ensures
            r.0 == self.side(self.css_w),
            r.1 == self.side(self.css_h),
    {
        (self.one_side(self.css_w), self.one_side(self.css_h))
    }
}

proof fn product_fits(a: u32, b: u32)
    ensures
        0 <= a * b <= 0xffff_fffe_0000_0001,
{
    assert(0 <= a * b <= 0xffff_fffe_0000_0001) by (nonlinear_arith)
        requires
            0 <= a <= 0xffff_ffff,
            0 <= b <= 0xffff_ffff,
    ;
}

proof fn wide_product_fits(a: u64, b: u64)
    ensures
        0 <= a * b <= u128::MAX,
{
    assert(0 <= a * b <= 0xffff_ffff_ffff_ffff * 0xffff_ffff_ffff_ffff) by (nonlinear_arith)
        requires
            0 <= a <= 0xffff_ffff_ffff_ffff,
            0 <= b <= 0xffff_ffff_ffff_ffff,
    ;
}

/// A scale in percent.
pub open spec fn percent(scale: u32) -> int {
    div_round(scale as int, 10_000)
}

/// A scale in percent, the slider's unit.
pub fn pct_of(scale: u32) -> (r: u32)
    ensures
        r == percent(scale),
{
    proof {
        let s = scale as int;
        assert((2 * s + 10_000) / 20_000 == (s + 5_000) / 10_000);
    }
    ((scale as u64 + 5_000) / 10_000) as u32
}

/// A scale held to the slider's range.
pub open spec fn held_scale(raw: i64) -> u32 {
    clamp_int(raw as int, MIN_SCALE as int, MAX_SCALE as int) as u32
}

/// Holds a scale to the slider's range.
pub fn hold_scale(raw: i64) -> (r: u32)
    ensures
        r == held_scale(raw),
        MIN_SCALE <= r <= MAX_SCALE,
{
    clamp_i64(raw, MIN_SCALE, MAX_SCALE) as u32
}

/// The text under which a scale is stored: a decimal fraction with two places.
pub fn scale_text(scale: u32) -> (r: String)
    ensures
        r@ == hundredths(scale as i64),
{
    hundredths_text(scale as i64)
}

/// The scale to start at: the stored choice, else a lower one on a touch device, else native.
pub open spec fn starting_scale(stored: Option<i64>, coarse: bool) -> u32 {
    match stored {
        Some(raw) => held_scale(raw),
        None => if coarse {
            COARSE_START_SCALE as u32
        } else {
            MAX_SCALE as u32
        },
    }
}

/// The scale to start at.
pub fn initial_scale(stored: Option<i64>, coarse: bool) -> (r: u32)
    ensures
        r == starting_scale(stored, coarse),
        MIN_SCALE <= r <= MAX_SCALE,
{
    match stored {
        Some(raw) => hold_scale(raw),
        None => if coarse {
            COARSE_START_SCALE as u32
        } else {
            MAX_SCALE as u32
        },
    }
}

// ---------------------------------------------------------------------------------------
// What is remembered

/// A setting that the browser remembers.
#[derive(Debug, Clone, Copy, PartialEq, Eq, Structural)]
pub enum StorageKey {
    ResScale,
    Msaa,
    Smaa,
    Stats,
}

impl StorageKey {
    /// The name a setting is stored under.
    pub open spec fn stored_as(self) -> Seq<char> {
        match self {
            StorageKey::ResScale => "awsm_res_scale"@,
            StorageKey::Msaa => "awsm_msaa"@,
            StorageKey::Smaa => "awsm_smaa"@,
            StorageKey::Stats => "awsm_stats"@,
        }
    }

    /// The name a setting is stored under.
    pub fn name(&self) -> (r: &'static str)
        ensures
            r@ == self.stored_as(),
    {
        match self {
            StorageKey::ResScale => "awsm_res_scale",
            StorageKey::Msaa => "awsm_msaa",
            StorageKey::Smaa => "awsm_smaa",
            StorageKey::Stats => "awsm_stats",
        }
    }
}

/// The settings that a reset forgets: all of them.
pub fn reset_keys() -> (r: Vec<StorageKey>)
    ensures
        r@ == seq![StorageKey::ResScale, StorageKey::Msaa, StorageKey::Smaa, StorageKey::Stats],
        forall|k: StorageKey| #[trigger] r@.contains(k),
{
    let mut r: Vec<StorageKey> = Vec::new();
    r.push(StorageKey::ResScale);
    r.push(StorageKey::Msaa);
    r.push(StorageKey::Smaa);
    r.push(StorageKey::Stats);
    proof {
        assert forall|k: StorageKey| #[trigger] r@.contains(k) by {
            let i = match k {
                StorageKey::ResScale => 0int,
                StorageKey::Msaa => 1int,
                StorageKey::Smaa => 2int,
                StorageKey::Stats => 3int,
            };
            assert(r@[i] == k);
        }
    }
    r
}

/// The toggle that a stored text stands for.
pub open spec fn toggle_of(text: Seq<char>) -> Option<bool> {
    if text == "1"@ {
        Some(true)
    } else if text == "0"@ {
        Some(false)
    } else {
        None
    }
}

/// The text that a toggle is stored as.
pub open spec fn toggle_stored_as(val: bool) -> Seq<char> {
    if val {
        "1"@
    } else {
        "0"@
    }
}

/// A stored toggle: none where nothing is stored, or something else.
pub fn stored_bool(text: Option<&str>) -> (r: Option<bool>)
    ensures
        r == (match text {
            Some(t) => toggle_of(t@),
            None => None,
        }),
{
    match text {
        Some(t) => if same(t, "1") {
            Some(true)
        } else if same(t, "0") {
            Some(false)
        } else {
            None
        },
        None => None,
    }
}

/// The text that a toggle is stored as.
pub fn bool_text(val: bool) -> (r: &'static str)
    ensures
        r@ == toggle_stored_as(val),
{
    if val {
        "1"
    } else {
        "0"
    }
}

/// Whether the stats panel starts open.
pub open spec fn starts_open(coarse: bool, stored: Option<bool>) -> bool {
    !coarse && stored == Some(true)
}

/// Whether the stats panel starts open: where it was left open, but never on a touch device.
pub fn stats_start_open(coarse: bool, stored: Option<bool>) -> (r: bool)
    ensures
        r == starts_open(coarse, stored),
        r == (!coarse && stored == Some(true)),
{
    !coarse && match stored {
        Some(open) => open,
        None => false,
    }
}

// ---------------------------------------------------------------------------------------
// The settings while playing

/// The graphics settings of a running game.
pub struct Display {
    res: ResState,
    user_pref: bool,
    msaa: bool,
    smaa: bool,
    reduced: bool,
}

/// What a [`Display`] holds.
pub struct DisplayView {
    pub res: ResState,
    /// The player chose the scale.
    pub user_pref: bool,
    pub msaa: bool,
    pub smaa: bool,
    /// A touch device's lower quality was chosen for the player.
    pub reduced: bool,
}

/// What the browser remembers.
#[derive(Debug, Clone, Copy)]
pub struct Stored {
    pub scale: Option<i64>,
    pub msaa: Option<bool>,
    pub smaa: Option<bool>,
}

/// The canvas's place on the page.
#[derive(Debug, Clone, Copy)]
pub struct Layout {
    pub css_w: u64,
    pub css_h: u64,
    pub dpr: u32,
}

/// At least one whole pixel.
pub open spec fn at_least_one(css: u64) -> u64 {
    if css < 1_000_000 {
        1_000_000
    } else {
        css
    }
}

/// At least native density.
pub open spec fn at_least_native(dpr: u32) -> u32 {
    if dpr < 1_000_000 {
        1_000_000
    } else {
        dpr
    }
}

/// A toggle's value: the stored one, else on, but off on a touch device.
pub open spec fn toggle_start(stored: Option<bool>, coarse: bool) -> bool {
    match stored {
        Some(v) => v,
        None => !coarse,
    }
}

/// The settings at the start.
pub open spec fn display_start(stored: Stored, coarse: bool, layout: Layout) -> DisplayView {
    DisplayView {
        res: ResState {
            scale: starting_scale(stored.scale, coarse),
            max_tex: DEFAULT_MAX_TEX,
            css_w: at_least_one(layout.css_w),
            css_h: at_least_one(layout.css_h),
            dpr: at_least_native(layout.dpr),
        },
        user_pref: stored.scale is Some,
        msaa: toggle_start(stored.msaa, coarse),
        smaa: toggle_start(stored.smaa, coarse),
        reduced: coarse && (stored.scale is None || stored.msaa is None || stored.smaa is None),
    }
}

impl View for Display {
    type V = DisplayView;

    closed spec fn view(&self) -> DisplayView {
        DisplayView {
            res: self.res,
            user_pref: self.user_pref,
            msaa: self.msaa,
            smaa: self.smaa,
            reduced: self.reduced,
        }
    }
}

impl DisplayView {
    /// The scale is in range, and a backing store can be made.
    pub open spec fn wf(self) -> bool {
        &&& self.res.wf()
        &&& MIN_SCALE <= self.res.scale <= MAX_SCALE
    }

    /// The settings with multisampling switched.
    pub open spec fn with_msaa(self, on: bool) -> DisplayView {
        DisplayView { msaa: on, ..self }
    }

    /// The settings with the edge filter switched.
    pub open spec fn with_smaa(self, on: bool) -> DisplayView {
        DisplayView { smaa: on, ..self }
    }

    /// The pair of toggles to post.
    pub open spec fn toggle_pair(self) -> QualityMsg {
        QualityMsg::AntiAlias { msaa: self.msaa, smaa: self.smaa }
    }

    /// Whether a software adapter lowers the scale: only where the player has not chosen one.
    pub open spec fn lowered_by(self, is_fallback: bool) -> bool {
        is_fallback && !self.user_pref && self.res.scale > FALLBACK_START_SCALE
    }

    /// The settings once the adapter is known.
    pub open spec fn with_adapter(self, is_fallback: bool, max_texture_dim: u32) -> DisplayView {
        DisplayView {
            res: ResState {
                max_tex: if max_texture_dim < 1 {
                    1
                } else {
                    max_texture_dim
                },
                scale: if self.lowered_by(is_fallback) {
                    FALLBACK_START_SCALE as u32
                } else {
                    self.res.scale
                },
                ..self.res
            },
            ..self
        }
    }

    /// The settings once the canvas was laid out anew.
    pub open spec fn with_layout(self, layout: Layout) -> DisplayView {
        DisplayView {
            res: ResState {
                css_w: at_least_one(layout.css_w),
                css_h: at_least_one(layout.css_h),
                dpr: at_least_native(layout.dpr),
                ..self.res
            },
            ..self
        }
    }

    /// The settings once the player moved the slider to a percentage (millionths of one).
    pub open spec fn with_slider(self, pct: Option<i64>) -> DisplayView {
        DisplayView {
            res: ResState {
                scale: held_scale(
                    match pct {
                        Some(p) => div_round(p as int, 100) as i64,
                        None => 1_000_000,
                    },
                ),
                ..self.res
            },
            user_pref: true,
            ..self
        }
    }
}

fn one_pixel(css: u64) -> (r: u64)
    ensures
        r == at_least_one(css),
{
    if css < 1_000_000 {
        1_000_000
    } else {
        css
    }
}

fn native(dpr: u32) -> (r: u32)
    ensures
        r == at_least_native(dpr),
{
    if dpr < 1_000_000 {
        1_000_000
    } else {
        dpr
    }
}

fn start_toggle(stored: Option<bool>, coarse: bool) -> (r: bool)
    ensures
        r == toggle_start(stored, coarse),
{
    match stored {
        Some(v) => v,
        None => !coarse,
    }
}

impl Display {
    /// The settings at the start, from what is stored, the kind of pointer, and the layout.
    pub fn new(stored: Stored, coarse: bool, layout: Layout) -> (r: Self)
        ensures
            r@ == display_start(stored, coarse, layout),
            r@.wf(),
    {
        Display {
            res: ResState {
                scale: initial_scale(stored.scale, coarse),
                max_tex: DEFAULT_MAX_TEX,
                css_w: one_pixel(layout.css_w),
                css_h: one_pixel(layout.css_h),
                dpr: native(layout.dpr),
            },
            user_pref: stored.scale.is_some(),
            msaa: start_toggle(stored.msaa, coarse),
            smaa: start_toggle(stored.smaa, coarse),
            reduced: coarse && (stored.scale.is_none() || stored.msaa.is_none()
                || stored.smaa.is_none()),
        }
    }

    /// Takes in what the worker says of the adapter. Returns whether the scale was lowered.
    pub fn on_gpu_info(&mut self, is_fallback: bool, max_texture_dim: u32) -> (r: bool)
        requires
            old(self)@.wf(),
        ensures
            final(self)@ == old(self)@.with_adapter(is_fallback, max_texture_dim),
            final(self)@.wf(),
            r == old(self)@.lowered_by(is_fallback),
    {
        self.res.max_tex = if max_texture_dim < 1 {
            1
        } else {
            max_texture_dim
        };
        if is_fallback && !self.user_pref && self.res.scale as i64 > FALLBACK_START_SCALE {
            self.res.scale = FALLBACK_START_SCALE as u32;
            true
        } else {
            false
        }
    }

    /// Takes in a new layout.
    pub fn relayout(&mut self, layout: Layout)
        requires
            old(self)@.wf(),
        ensures
            final(self)@ == old(self)@.with_layout(layout),
            final(self)@.wf(),
    {
        self.res.css_w = one_pixel(layout.css_w);
        self.res.css_h = one_pixel(layout.css_h);
        self.res.dpr = native(layout.dpr);
    }

    /// The player moved the slider to a percentage (millionths of one); what is no number
    /// counts as all of it.
    pub fn slide(&mut self, pct: Option<i64>)
        requires
            old(self)@.wf(),
        ensures
            final(self)@ == old(self)@.with_slider(pct),
            final(self)@.wf(),
    {
        let raw: i64 = match pct {
            Some(p) => crate::units::round_div(p as i128, 100) as i64,
            None => 1_000_000,
        };
        self.res.scale = hold_scale(raw);
        self.user_pref = true;
    }

    /// The player switched multisampling. Returns the pair to post.
    pub fn set_msaa(&mut self, on: bool) -> (r: QualityMsg)
        requires
            old(self)@.wf(),
        ensures
            final(self)@ == (DisplayView { msaa: on, ..old(self)@ }),
            final(self)@.wf(),
            r == (QualityMsg::AntiAlias { msaa: on, smaa: old(self)@.smaa }),
            final(self)@ == old(self)@.with_msaa(on),
            r == old(self)@.with_msaa(on).toggle_pair(),
    {
        self.msaa = on;
        QualityMsg::AntiAlias { msaa: on, smaa: self.smaa }
    }

    /// The player switched the edge filter. Returns the pair to post.
    pub fn set_smaa(&mut self, on: bool) -> (r: QualityMsg)
        requires
            old(self)@.wf(),
        ensures
            final(self)@ == (DisplayView { smaa: on, ..old(self)@ }),
            final(self)@.wf(),
            r == (QualityMsg::AntiAlias { msaa: old(self)@.msaa, smaa: on }),
            final(self)@ == old(self)@.with_smaa(on),
            r == old(self)@.with_smaa(on).toggle_pair(),
    {
        self.smaa = on;
        QualityMsg::AntiAlias { msaa: self.msaa, smaa: on }
    }

    /// The two toggles.
    pub fn toggles(&self) -> (r: (bool, bool))
        ensures
            r == (self@.msaa, self@.smaa),
    {
        (self.msaa, self.smaa)
    }

    /// Whether the player is to be told that quality was lowered.
    pub fn is_reduced(&self) -> (r: bool)
        ensures
            r == self@.reduced,
    {
        self.reduced
    }

    /// The scale in millionths.
    pub fn scale(&self) -> (r: u32)
        ensures
            r == self@.res.scale,
    {
        self.res.scale
    }

    /// The size to post to the worker.
    pub fn resize(&self) -> (r: ResizeMsg)
        requires
            self@.wf(),
        ensures
            r matches ResizeMsg::Canvas { width, height } && width == self@.res.side(
                self@.res.css_w,
            ) && height == self@.res.side(self@.res.css_h),
    {
        let (width, height): (u32, u32) = self.res.backing();
        ResizeMsg::Canvas { width, height }
    }
}

// ---------------------------------------------------------------------------------------
// Laws

/// A backing store is never empty and never larger than a texture can be.
pub proof fn backing_fits_a_texture(res: ResState, css: u64)
    requires
        res.wf(),
    ensures
        1 <= res.side(css) <= res.max_tex,
{
}

/// More scale never gives a smaller backing store.
pub proof fn more_scale_is_no_smaller(res: ResState, scale: u32, css: u64)
    requires
        res.wf(),
        res.scale <= scale,
    ensures
        res.side(css) <= (ResState { scale, ..res }).side(css),
{
    let more = ResState { scale, ..res };
    assert(res.dpr * res.scale <= res.dpr * scale) by (nonlinear_arith)
        requires
            res.scale <= scale,
    ;
    let (a, b) = (res.factor(), more.factor());
    assert(css * a <= css * b) by (nonlinear_arith)
        requires
            a <= b,
            0 <= css,
    ;
    let d = 1_000_000_000_000_000_000int;
    vstd::arithmetic::div_mod::lemma_div_is_ordered(2 * (css * a) + d, 2 * (css * b) + d, 2 * d);
    assert(div_round(css * a, d) <= div_round(css * b, d));
}

/// At native scale and density a whole CSS size is kept, as far as textures reach.
pub proof fn native_is_pixel_for_pixel(res: ResState, px: u32)
    requires
        res.scale == MAX_SCALE,
        res.dpr == 1_000_000,
        1 <= px <= res.max_tex,
    ensures
        res.side((px * 1_000_000) as u64) == px,
{
    assert(res.dpr * res.scale == 1_000_000_000_000) by (nonlinear_arith)
        requires
            res.scale == 1_000_000,
            res.dpr == 1_000_000,
    ;
    let css = (px * 1_000_000) as u64;
    assert(res.factor() == 1_000_000_000_000);
    assert(css * res.factor() == 1_000_000_000_000_000_000 * px) by (nonlinear_arith)
        requires
            css == px * 1_000_000,
            res.factor() == 1_000_000_000_000,
    ;
    let p = px as int;
    assert((2 * (1_000_000_000_000_000_000 * p) + 1_000_000_000_000_000_000)
        / 2_000_000_000_000_000_000 == p);
}

/// What the worker finds out never overrides the player's choice of scale.
pub proof fn the_players_choice_stands(d: DisplayView, is_fallback: bool, max_texture_dim: u32)
    requires
        d.user_pref,
    ensures
        d.with_adapter(is_fallback, max_texture_dim).res.scale == d.res.scale,
        d.with_adapter(is_fallback, max_texture_dim).user_pref,
{
}

/// Without anything stored a desktop starts at full quality, and a touch device lower and with
/// a notice.
pub proof fn fresh_starts(layout: Layout)
    ensures
        ({
            let fresh = Stored { scale: None, msaa: None, smaa: None };
            let desk = display_start(fresh, false, layout);
            let touch = display_start(fresh, true, layout);
            &&& desk.res.scale == MAX_SCALE && desk.msaa && desk.smaa && !desk.reduced
            &&& touch.res.scale == COARSE_START_SCALE && !touch.msaa && !touch.smaa
                && touch.reduced
        }),
{
}

/// A player who has chosen everything sees no notice, and finds every choice kept.
pub proof fn choices_are_kept(scale: u32, msaa: bool, smaa: bool, coarse: bool, layout: Layout)
    requires
        MIN_SCALE <= scale <= MAX_SCALE,
    ensures
        ({
            let d = display_start(
                Stored { scale: Some(scale as i64), msaa: Some(msaa), smaa: Some(smaa) },
                coarse,
                layout,
            );
            &&& d.res.scale == scale && d.msaa == msaa && d.smaa == smaa && !d.reduced
            &&& d.user_pref
        }),
{
}

/// A toggle that was stored reads back as it was.
pub proof fn toggles_read_back(val: bool)
    ensures
        toggle_of(toggle_stored_as(val)) == Some(val),
{
    reveal_strlit("1");
    reveal_strlit("0");
    assert("0"@[0] == '0' && "1"@[0] == '1');
}

/// No two settings share a name.
pub proof fn names_are_distinct(a: StorageKey, b: StorageKey)
    requires
        a.stored_as() == b.stored_as(),
    ensures
        a == b,
{
    reveal_strlit("awsm_res_scale");
    reveal_strlit("awsm_msaa");
    reveal_strlit("awsm_smaa");
    reveal_strlit("awsm_stats");
    assert("awsm_res_scale"@.len() == 14 && "awsm_stats"@.len() == 10);
    assert("awsm_msaa"@[5] == 'm' && "awsm_smaa"@[5] == 's');
    assert("awsm_msaa"@.len() == 9 && "awsm_smaa"@.len() == 9);
}

/// The slider's percentage is that of the scale: in range, each step of it comes back.
pub proof fn slider_steps_come_back(d: DisplayView, pct: int)
    requires
        50 <= pct <= 100,
    ensures
        percent(d.with_slider(Some((pct * 1_000_000) as i64)).res.scale) == pct,
{
    assert((2 * (pct * 1_000_000) + 100) / 200 == pct * 10_000);
    assert((2 * (pct * 10_000) + 10_000) / 20_000 == pct);
}

/// Every step of the slider is stored in full: the text of its scale holds the percentage.
pub proof fn slider_steps_are_stored_in_full(pct: nat)
    requires
        50 <= pct <= 100,
    ensures
        hundredths((pct * 10_000) as i64) == decimal(pct / 100) + "."@ + last_digits(pct, 2),
{
    let n = (pct * 10_000) as i64;
    assert(crate::shell::div_even(crate::shell::size(n), 10_000) == pct);
    assert(crate::shell::sign(n) + decimal(pct / 100) =~= decimal(pct / 100));
}

/// A side of the backing store has as many device pixels as its CSS size, the device's density and
/// the scale call for, to the nearest one, but at least one and at most what a texture holds. The
/// density and the scale together count for no less than a hundredth.
pub proof fn a_side_has_its_share_of_pixels(res: ResState, css: u64)
    requires
        res.wf(),
    ensures
        ({
            let unit = 1_000_000_000_000_000_000int;
            let factor = if res.dpr * res.scale < 10_000_000_000 {
                10_000_000_000
            } else {
                res.dpr * res.scale
            };
            let full = css * factor;
            &&& unit <= full <= res.max_tex * unit ==> -unit <= 2 * (res.side(css) * unit - full)
                <= unit
            &&& full <= unit ==> res.side(css) == 1
            &&& full >= res.max_tex * unit ==> res.side(css) == res.max_tex
        }),
{
    let unit = 1_000_000_000_000_000_000int;
    let (full, most) = (css * res.factor(), res.max_tex as int);
    let q = div_round(full, unit);
    crate::units::div_round_is_nearest(full, unit);
    assert(full >= 0) by (nonlinear_arith)
        requires
            full == css * res.factor(),
            res.factor() >= 0,
            css >= 0,
    ;
}

/// The canvas gets its own sides: at native scale and density its width and its height in pixels
/// are those of the page, as far as textures reach.
pub proof fn the_canvas_is_as_wide_as_it_is_laid_out(d: DisplayView, layout: Layout, w: u32, h: u32)
    requires
        d.wf(),
        d.res.scale == 1_000_000,
        layout.dpr == 1_000_000,
        layout.css_w == w * 1_000_000,
        layout.css_h == h * 1_000_000,
        1 <= w <= d.res.max_tex,
        1 <= h <= d.res.max_tex,
    ensures
        crate::shell::size_of(d.with_layout(layout)) == (ResizeMsg::Canvas { width: w, height: h }),
{
    native_is_pixel_for_pixel(d.with_layout(layout).res, w);
    native_is_pixel_for_pixel(d.with_layout(layout).res, h);
}

/// A layout is taken over as it is, but for sides below a pixel and densities below one, and
/// changes nothing else. At the start it is taken over in the same way.
pub proof fn layouts_are_taken_over(d: DisplayView, layout: Layout, stored: Stored, coarse: bool)
    ensures
        ({
            let after = d.with_layout(layout);
            let start = display_start(stored, coarse, layout);
            &&& layout.css_w >= 1_000_000 ==> after.res.css_w == layout.css_w && start.res.css_w
                == layout.css_w
            &&& layout.css_w < 1_000_000 ==> after.res.css_w == 1_000_000 && start.res.css_w
                == 1_000_000
            &&& layout.css_h >= 1_000_000 ==> after.res.css_h == layout.css_h && start.res.css_h
                == layout.css_h
            &&& layout.css_h < 1_000_000 ==> after.res.css_h == 1_000_000 && start.res.css_h
                == 1_000_000
            &&& layout.dpr >= 1_000_000 ==> after.res.dpr == layout.dpr && start.res.dpr
                == layout.dpr
            &&& layout.dpr < 1_000_000 ==> after.res.dpr == 1_000_000 && start.res.dpr == 1_000_000
            &&& after.res.scale == d.res.scale && after.res.max_tex == d.res.max_tex
            &&& after.msaa == d.msaa && after.smaa == d.smaa && after.user_pref == d.user_pref
                && after.reduced == d.reduced
            &&& start.res.max_tex == 8192
        }),
{
}

/// The slider's percentage is the scale, to the nearest millionth and from a half to one, and
/// moving it is a choice of the player's. What is no number counts as all of it. Nothing else
/// changes.
pub proof fn the_slider_sets_the_scale(d: DisplayView, pct: i64)
    ensures
        ({
            let after = d.with_slider(Some(pct));
            &&& 50_000_000 <= pct <= 100_000_000 ==> -100 <= 2 * (after.res.scale * 100 - pct)
                <= 100
            &&& pct <= 50_000_000 ==> after.res.scale == 500_000
            &&& pct >= 100_000_000 ==> after.res.scale == 1_000_000
            &&& d.with_slider(None).res.scale == 1_000_000
            &&& after.user_pref && d.with_slider(None).user_pref
            &&& after.res.css_w == d.res.css_w && after.res.css_h == d.res.css_h && after.res.dpr
                == d.res.dpr && after.res.max_tex == d.res.max_tex
            &&& after.msaa == d.msaa && after.smaa == d.smaa && after.reduced == d.reduced
        }),
{
    crate::units::div_round_is_nearest(pct as int, 100);
}

/// The percentage that is shown is the scale's, to the nearest one.
pub proof fn the_percentage_is_the_scales(scale: u32)
    ensures
        -10_000 <= 2 * (percent(scale) * 10_000 - scale) <= 10_000,
{
    crate::units::div_round_is_nearest(scale as int, 10_000);
}

/// What is known of the adapter sets how large a texture can be, at least one, and lowers the
/// scale to a half on a software adapter where the player has chosen none and it is higher. It
/// changes nothing else.
pub proof fn the_adapter_sets_its_limits(d: DisplayView, is_fallback: bool, max_texture_dim: u32)
    ensures
        ({
            let after = d.with_adapter(is_fallback, max_texture_dim);
            &&& max_texture_dim >= 1 ==> after.res.max_tex == max_texture_dim
            &&& max_texture_dim == 0 ==> after.res.max_tex == 1
            &&& is_fallback && !d.user_pref && d.res.scale > 500_000 ==> after.res.scale == 500_000
                && d.lowered_by(is_fallback)
            &&& !is_fallback || d.user_pref || d.res.scale <= 500_000 ==> after.res.scale
                == d.res.scale && !d.lowered_by(is_fallback)
            &&& after.res.css_w == d.res.css_w && after.res.css_h == d.res.css_h && after.res.dpr
                == d.res.dpr
            &&& after.user_pref == d.user_pref && after.msaa == d.msaa && after.smaa == d.smaa
                && after.reduced == d.reduced
        }),
{
}

/// A game starts with what is stored: a stored scale from a half to one, a stored toggle as it
/// was. Without them a touch device starts at 0.6 and with the toggle off, any other at one and on.
/// The player is told of a lower quality exactly where one of them was chosen for a touch device.
pub proof fn games_start_with_what_is_stored(stored: Stored, coarse: bool, layout: Layout)
    ensures
        ({
            let d = display_start(stored, coarse, layout);
            &&& stored.scale matches Some(s) ==> (500_000 <= s <= 1_000_000 ==> d.res.scale == s)
                && (s < 500_000 ==> d.res.scale == 500_000) && (s > 1_000_000 ==> d.res.scale
                == 1_000_000) && d.user_pref
            &&& stored.scale is None ==> !d.user_pref && (coarse ==> d.res.scale == 600_000) && (
            !coarse ==> d.res.scale == 1_000_000)
            &&& stored.msaa matches Some(v) ==> d.msaa == v
            &&& stored.msaa is None ==> d.msaa == !coarse
            &&& stored.smaa matches Some(v) ==> d.smaa == v
            &&& stored.smaa is None ==> d.smaa == !coarse
            &&& d.reduced <==> coarse && !(stored.scale is Some && stored.msaa is Some
                && stored.smaa is Some)
        }),
{
}

/// A toggle is stored as a one or a zero, and nothing else reads as a toggle.
pub proof fn toggles_are_ones_and_zeros(text: Seq<char>)
    ensures
        toggle_of(text) == Some(true) <==> text == "1"@,
        toggle_of(text) == Some(false) <==> text == "0"@,
        toggle_stored_as(true) == "1"@,
        toggle_stored_as(false) == "0"@,
{
    reveal_strlit("1");
    reveal_strlit("0");
    assert("0"@[0] == '0' && "1"@[0] == '1');
}

/// A switch sets its own toggle and leaves the other, and what is posted is the pair as it then is.
/// The stats panel starts open where it was left open and the device has no touch screen.
pub proof fn switches_set_their_own_toggle(
    d: DisplayView,
    on: bool,
    coarse: bool,
    stored: Option<bool>,
)
    ensures
        d.with_msaa(on).toggle_pair() == (QualityMsg::AntiAlias { msaa: on, smaa: d.smaa }),
        d.with_smaa(on).toggle_pair() == (QualityMsg::AntiAlias { msaa: d.msaa, smaa: on }),
        d.with_msaa(on).res == d.res && d.with_msaa(on).smaa == d.smaa && d.with_msaa(on).user_pref
            == d.user_pref && d.with_msaa(on).reduced == d.reduced,
        d.with_smaa(on).res == d.res && d.with_smaa(on).msaa == d.msaa && d.with_smaa(on).user_pref
            == d.user_pref && d.with_smaa(on).reduced == d.reduced,
        coarse || stored is None || !stored->0 ==> !starts_open(coarse, stored),
        !coarse && stored is Some && stored->0 ==> starts_open(coarse, stored),
{
}

} // verus!
