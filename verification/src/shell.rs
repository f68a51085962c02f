//! The app shell on the main thread: the loading log, the stats panel, the overlays, where the
//! media come from, and what the worker's reports lead to.

use vstd::prelude::*;
use vstd::string::*;

use crate::protocol::{RenderMsg, ResizeMsg, StatsMsg};
use crate::settings::{pct_of, percent, Display, DisplayView, FALLBACK_START_SCALE};
use crate::text::{directory, directory_of, joined, trim_slashes, trimmed};

verus! {

// ---------------------------------------------------------------------------------------
// The loading log

/// The most lines the loading screen shows.
pub const MAX_LOG_LINES: usize = 14;

/// The lines on the loading screen.
pub struct LoadingLog {
    lines: Vec<String>,
}

/// The last lines of a list, as many as the screen shows.
pub open spec fn shown(lines: Seq<Seq<char>>) -> Seq<Seq<char>> {
    if lines.len() > MAX_LOG_LINES {
        lines.subrange(lines.len() - MAX_LOG_LINES, lines.len() as int)
    } else {
        lines
    }
}

impl View for LoadingLog {
    type V = Seq<Seq<char>>;

    closed spec fn view(&self) -> Seq<Seq<char>> {
        crate::text::texts(self.lines@)
    }
}

impl LoadingLog {
    pub fn new() -> (r: Self)
        ensures
            r@.len() == 0,
    {
        LoadingLog { lines: Vec::new() }
    }

    /// Adds a line at the end. Lines beyond what the screen shows go at the top; returns how
    /// many.
    pub fn add_line(&mut self, message: &str) -> (r: usize)
        requires
            old(self)@.len() <= MAX_LOG_LINES,
        ensures
            final(self)@ == shown(old(self)@.push(message@)),
            final(self)@.len() <= MAX_LOG_LINES,
            r == old(self)@.len() + 1 - final(self)@.len(),
    {
        self.lines.push(message.to_owned());
        assert(self@ =~= old(self)@.push(message@));
        if self.lines.len() > MAX_LOG_LINES {
            self.lines.remove(0);
            assert(self@ =~= shown(old(self)@.push(message@)));
            1
        } else {
            0
        }
    }
}

/// The log after a run of lines.
pub open spec fn logged(lines: Seq<Seq<char>>) -> Seq<Seq<char>>
    decreases lines.len(),
{
    if lines.len() == 0 {
        seq![]
    } else {
        shown(logged(lines.drop_last()).push(lines.last()))
    }
}

/// The screen shows the latest lines: after any run it holds the last of them, as many as it
/// shows.
pub proof fn the_latest_lines_are_shown(lines: Seq<Seq<char>>)
    ensures
        logged(lines) == shown(lines),
    decreases lines.len(),
{
    if lines.len() > 0 {
        the_latest_lines_are_shown(lines.drop_last());
        assert(logged(lines) =~= shown(lines));
    }
}

// ---------------------------------------------------------------------------------------
// Overlays

/// What happens around an overlay.
#[derive(Debug, Clone, Copy, PartialEq, Eq, Structural)]
pub enum OverlayEvent {
    /// Its button was clicked.
    Button,
    /// The backdrop around it was clicked.
    Backdrop,
    /// It was clicked inside.
    Inside,
    /// Its close button was clicked.
    Close,
    /// The escape key was pressed.
    Escape,
    /// Another key was pressed.
    OtherKey,
}

/// Whether an overlay is open after an event.
pub open spec fn overlay_after(open: bool, event: OverlayEvent) -> bool {
    match event {
        OverlayEvent::Button => true,
        OverlayEvent::Backdrop | OverlayEvent::Close | OverlayEvent::Escape => false,
        OverlayEvent::Inside | OverlayEvent::OtherKey => open,
    }
}

/// Whether an overlay is open after an event.
pub fn overlay(open: bool, event: OverlayEvent) -> (r: bool)
    ensures
        r == overlay_after(open, event),
{
    match event {
        OverlayEvent::Button => true,
        OverlayEvent::Backdrop => false,
        OverlayEvent::Close => false,
        OverlayEvent::Escape => false,
        OverlayEvent::Inside => open,
        OverlayEvent::OtherKey => open,
    }
}

// ---------------------------------------------------------------------------------------
// Where the media come from

/// The base address of the media: the one the page was asked for, else the one that was built
/// in, else the directory the page came from. It has no trailing slash.
pub open spec fn media_base(
    asked: Option<Seq<char>>,
    built_in: Option<Seq<char>>,
    origin: Seq<char>,
    path: Seq<char>,
) -> Seq<char> {
    if asked matches Some(a) && a.len() > 0 {
        trimmed(asked->0)
    } else if built_in matches Some(b) && b.len() > 0 {
        trimmed(built_in->0)
    } else {
        trimmed(trimmed(origin) + directory(path))
    }
}

/// The text of an optional string.
pub open spec fn text_of(s: Option<&str>) -> Option<Seq<char>> {
    match s {
        Some(t) => Some(t@),
        None => None,
    }
}

/// The base address of the media.
pub fn page_base(asked: Option<&str>, built_in: Option<&str>, origin: &str, path: &str) -> (r:
    String)
    ensures
        r@ == media_base(text_of(asked), text_of(built_in), origin@, path@),
{
    if let Some(a) = asked {
        if !a.is_empty() {
            return trim_slashes(a);
        }
    }
    if let Some(b) = built_in {
        if !b.is_empty() {
            return trim_slashes(b);
        }
    }
    trim_slashes(joined(trim_slashes(origin).as_str(), directory_of(path).as_str()).as_str())
}

/// The base address of the media never ends in a slash.
pub proof fn media_bases_end_in_no_slash(
    asked: Option<Seq<char>>,
    built_in: Option<Seq<char>>,
    origin: Seq<char>,
    path: Seq<char>,
)
    ensures
        media_base(asked, built_in, origin, path).len() == 0 || media_base(
            asked,
            built_in,
            origin,
            path,
        ).last() != '/',
{
    if asked is Some {
        crate::text::trimming_takes_trailing_slashes(asked->0);
    }
    if built_in is Some {
        crate::text::trimming_takes_trailing_slashes(built_in->0);
    }
    crate::text::trimming_takes_trailing_slashes(trimmed(origin) + directory(path));
}

// ---------------------------------------------------------------------------------------
// The stats panel

/// A digit's character.
pub open spec fn digit(d: int) -> char {
    if d == 0 {
        '0'
    } else if d == 1 {
        '1'
    } else if d == 2 {
        '2'
    } else if d == 3 {
        '3'
    } else if d == 4 {
        '4'
    } else if d == 5 {
        '5'
    } else if d == 6 {
        '6'
    } else if d == 7 {
        '7'
    } else if d == 8 {
        '8'
    } else {
        '9'
    }
}

/// A number in decimal.
pub open spec fn decimal(n: nat) -> Seq<char>
    decreases n,
{
    if n < 10 {
        seq![digit(n as int)]
    } else {
        decimal(n / 10).push(digit((n % 10) as int))
    }
}

/// The last `places` digits of a number.
pub open spec fn last_digits(n: nat, places: nat) -> Seq<char>
    decreases places,
{
    if places == 0 {
        seq![]
    } else {
        last_digits(n / 10, (places - 1) as nat).push(digit((n % 10) as int))
    }
}

fn digit_text(d: u64) -> (r: &'static str)
    requires
        d < 10,
    ensures
        r@ == seq![digit(d as int)],
{
    proof {
        reveal_strlit("0");
        reveal_strlit("1");
        reveal_strlit("2");
        reveal_strlit("3");
        reveal_strlit("4");
        reveal_strlit("5");
        reveal_strlit("6");
        reveal_strlit("7");
        reveal_strlit("8");
        reveal_strlit("9");
        assert("0"@ =~= seq!['0'] && "1"@ =~= seq!['1'] && "2"@ =~= seq!['2']);
        assert("3"@ =~= seq!['3'] && "4"@ =~= seq!['4'] && "5"@ =~= seq!['5']);
        assert("6"@ =~= seq!['6'] && "7"@ =~= seq!['7'] && "8"@ =~= seq!['8']);
        assert("9"@ =~= seq!['9']);
    }
    if d == 0 {
        "0"
    } else if d == 1 {
        "1"
    } else if d == 2 {
        "2"
    } else if d == 3 {
        "3"
    } else if d == 4 {
        "4"
    } else if d == 5 {
        "5"
    } else if d == 6 {
        "6"
    } else if d == 7 {
        "7"
    } else if d == 8 {
        "8"
    } else {
        "9"
    }
}

/// A number in decimal.
pub fn decimal_text(n: u64) -> (r: String)
    ensures
        r@ == decimal(n as nat),
    decreases n,
{
    if n < 10 {
        digit_text(n).to_owned()
    } else {
        let mut r: String = decimal_text(n / 10);
        r.append(digit_text(n % 10));
        assert(r@ =~= decimal(n as nat));
        r
    }
}

fn last_digits_text(n: u64, places: u32) -> (r: String)
    ensures
        r@ == last_digits(n as nat, places as nat),
    decreases places,
{
    if places == 0 {
        let r: String = String::new();
        assert(r@ =~= last_digits(n as nat, 0));
        r
    } else {
        let mut r: String = last_digits_text(n / 10, places - 1);
        r.append(digit_text(n % 10));
        assert(r@ =~= last_digits(n as nat, places as nat));
        r
    }
}

/// The integer nearest to `n / d` of what is not below zero; a half goes to the even one.
pub open spec fn div_even(n: int, d: int) -> int {
    let (q, rest) = (n / d, n % d);
    if 2 * rest < d || (2 * rest == d && q % 2 == 0) {
        q
    } else {
        q + 1
    }
}

/// A number without its sign.
pub open spec fn size(x: i64) -> int {
    if x < 0 {
        -x
    } else {
        x as int
    }
}

/// A number's sign: a minus below zero, else nothing.
pub open spec fn sign(x: i64) -> Seq<char> {
    if x < 0 {
        "-"@
    } else {
        seq![]
    }
}

/// A quantity in millionths, rounded to whole units.
pub open spec fn whole(micros: i64) -> Seq<char> {
    sign(micros) + decimal(div_even(size(micros), 1_000_000) as nat)
}

/// A quantity in millionths, rounded to tenths.
pub open spec fn tenths(micros: i64) -> Seq<char> {
    let n = div_even(size(micros), 100_000) as nat;
    sign(micros) + decimal(n / 10) + "."@ + last_digits(n, 1)
}

/// A quantity in millionths, rounded to hundredths.
pub open spec fn hundredths(micros: i64) -> Seq<char> {
    let n = div_even(size(micros), 10_000) as nat;
    sign(micros) + decimal(n / 100) + "."@ + last_digits(n, 2)
}

fn rounded(micros: i64, unit: u64) -> (r: u64)
    requires
        2 <= unit <= 1_000_000,
    ensures
        r == div_even(size(micros), unit as int),
{
    let n: u64 = if micros < 0 {
        (-(micros as i128)) as u64
    } else {
        micros as u64
    };
    let (q, rest): (u64, u64) = (n / unit, n % unit);
    proof {
        let (a, d) = (n as int, unit as int);
        assert(a / d <= a / 2) by (nonlinear_arith)
            requires
                0 <= a,
                2 <= d,
        ;
    }
    if 2 * rest < unit || (2 * rest == unit && q % 2 == 0) {
        q
    } else {
        q + 1
    }
}

fn sign_text(micros: i64) -> (r: String)
    ensures
        r@ == sign(micros),
{
    if micros < 0 {
        "-".to_owned()
    } else {
        let r: String = String::new();
        assert(r@ =~= sign(micros));
        r
    }
}

fn whole_text(micros: i64) -> (r: String)
    ensures
        r@ == whole(micros),
{
    joined(sign_text(micros).as_str(), decimal_text(rounded(micros, 1_000_000)).as_str())
}

fn tenths_text(micros: i64) -> (r: String)
    ensures
        r@ == tenths(micros),
{
    let n: u64 = rounded(micros, 100_000);
    let mut r: String = joined(sign_text(micros).as_str(), decimal_text(n / 10).as_str());
    r.append(".");
    r.append(last_digits_text(n, 1).as_str());
    r
}

/// A quantity in millionths, rounded to hundredths.
pub fn hundredths_text(micros: i64) -> (r: String)
    ensures
        r@ == hundredths(micros),
{
    let n: u64 = rounded(micros, 10_000);
    let mut r: String = joined(sign_text(micros).as_str(), decimal_text(n / 100).as_str());
    r.append(".");
    r.append(last_digits_text(n, 2).as_str());
    r
}

/// Rounding with halves to the even neighbour moves a quotient by at most half of its divisor,
/// and a half does end at an even number.
pub proof fn div_even_is_nearest(n: int, d: int)
    requires
        0 <= n,
        0 < d,
    ensures
        -d <= 2 * (div_even(n, d) * d - n) <= d,
        2 * (n % d) == d ==> div_even(n, d) % 2 == 0,
{
    let (q, rest) = (n / d, n % d);
    vstd::arithmetic::div_mod::lemma_fundamental_div_mod(n, d);
    assert(d * q == q * d) by (nonlinear_arith);
    assert((q + 1) * d == q * d + d) by (nonlinear_arith);
}

/// The stats panel's text.
pub open spec fn panel(s: StatsMsg) -> Seq<char> {
    "engine\n  fps           "@ + whole(s.fps) + "\n  frame time    "@ + tenths(s.frame_ms)
        + " ms\n  physics time  "@ + hundredths(s.step_ms) + " ms\n  physics       "@ + whole(s.sps)
        + " steps/s\n\nballs dropped  "@ + decimal(s.balls as nat)
}

/// The stats panel's text.
pub fn format_stats(s: &StatsMsg) -> (r: String)
    ensures
        r@ == panel(*s),
{
    let mut r: String = joined("engine\n  fps           ", whole_text(s.fps).as_str());
    r.append("\n  frame time    ");
    r.append(tenths_text(s.frame_ms).as_str());
    r.append(" ms\n  physics time  ");
    r.append(hundredths_text(s.step_ms).as_str());
    r.append(" ms\n  physics       ");
    r.append(whole_text(s.sps).as_str());
    r.append(" steps/s\n\nballs dropped  ");
    r.append(decimal_text(s.balls as u64).as_str());
    r
}

// ---------------------------------------------------------------------------------------
// What the worker's reports lead to

/// Something for the page to do.
pub enum UiAction {
    /// Add a line to the loading log.
    Log(String),
    /// Take the loading screen away.
    LoadingDone,
    /// Show a status.
    Status(String),
    /// Say that quality was lowered.
    OpenNotice,
    /// Show a resolution on the slider.
    Percent(u32),
    /// Post a size to the worker.
    Resize(ResizeMsg),
}

/// A [`UiAction`] with its text.
pub enum UiView {
    Log(Seq<char>),
    LoadingDone,
    Status(Seq<char>),
    OpenNotice,
    Percent(u32),
    Resize(ResizeMsg),
}

impl View for UiAction {
    type V = UiView;

    open spec fn view(&self) -> UiView {
        match self {
            UiAction::Log(s) => UiView::Log(s@),
            UiAction::LoadingDone => UiView::LoadingDone,
            UiAction::Status(s) => UiView::Status(s@),
            UiAction::OpenNotice => UiView::OpenNotice,
            UiAction::Percent(p) => UiView::Percent(*p),
            UiAction::Resize(m) => UiView::Resize(*m),
        }
    }
}

/// The actions of a list.
pub open spec fn actions(v: Seq<UiAction>) -> Seq<UiView> {
    v.map_values(|a: UiAction| a@)
}

/// The size that goes to the worker.
pub open spec fn size_of(d: DisplayView) -> ResizeMsg {
    ResizeMsg::Canvas {
        width: d.res.side(d.res.css_w) as u32,
        height: d.res.side(d.res.css_h) as u32,
    }
}

/// What a report leads to, given the settings before it.
pub open spec fn reaction(d: DisplayView, msg: RenderMsg) -> Seq<UiView> {
    match msg {
        RenderMsg::Progress { message } => seq![UiView::Log(message@)],
        RenderMsg::Ready => {
            let first = seq![
                UiView::Log("first frames rendered — ready"@),
                UiView::LoadingDone,
                UiView::Status(
                    "playing — roll · Space jump · click drops a ball · right-drag orbit"@,
                ),
            ];
            if d.reduced {
                first.push(UiView::OpenNotice)
            } else {
                first
            }
        },
        RenderMsg::GpuInfo { is_fallback, max_texture_dim } => {
            let size = UiView::Resize(size_of(d.with_adapter(is_fallback, max_texture_dim)));
            if d.lowered_by(is_fallback) {
                let p = percent(FALLBACK_START_SCALE as u32) as u32;
                seq![
                    UiView::Percent(p),
                    UiView::Log(
                        "software GPU detected — starting at "@ + decimal(p as nat)
                            + "% resolution"@,
                    ),
                    size,
                ]
            } else {
                seq![size]
            }
        },
        RenderMsg::Error { message } => seq![
            UiView::Log("ERROR: "@ + message@),
            UiView::Status("worker error: "@ + message@),
        ],
        _ => seq![],
    }
}

/// The settings after a report.
pub open spec fn settings_after(d: DisplayView, msg: RenderMsg) -> DisplayView {
    match msg {
        RenderMsg::GpuInfo { is_fallback, max_texture_dim } => d.with_adapter(
            is_fallback,
            max_texture_dim,
        ),
        _ => d,
    }
}

/// Takes in a report from the worker. Returns what the page is to do, in order.
pub fn on_render(display: &mut Display, msg: RenderMsg) -> (r: Vec<UiAction>)
    requires
        old(display)@.wf(),
    ensures
        final(display)@ == settings_after(old(display)@, msg),
        final(display)@.wf(),
        actions(r@) == reaction(old(display)@, msg),
{
    let mut r: Vec<UiAction> = Vec::new();
    match msg {
        RenderMsg::Progress { message } => {
            r.push(UiAction::Log(message));
        },
        RenderMsg::Ready => {
            r.push(UiAction::Log("first frames rendered — ready".to_owned()));
            r.push(UiAction::LoadingDone);
            r.push(
                UiAction::Status(
                    "playing — roll · Space jump · click drops a ball · right-drag orbit".to_owned(),
                ),
            );
            if display.is_reduced() {
                r.push(UiAction::OpenNotice);
            }
        },
        RenderMsg::GpuInfo { is_fallback, max_texture_dim } => {
            if display.on_gpu_info(is_fallback, max_texture_dim) {
                let p: u32 = pct_of(FALLBACK_START_SCALE as u32);
                r.push(UiAction::Percent(p));
                let mut line: String = joined(
                    "software GPU detected — starting at ",
                    decimal_text(p as u64).as_str(),
                );
                line.append("% resolution");
                r.push(UiAction::Log(line));
            }
            r.push(UiAction::Resize(display.resize()));
        },
        RenderMsg::Error { message } => {
            r.push(UiAction::Log(joined("ERROR: ", message.as_str())));
            r.push(UiAction::Status(joined("worker error: ", message.as_str())));
        },
        RenderMsg::AaCompileStart { .. } => {},
        RenderMsg::AaCompileProgress { .. } => {},
        RenderMsg::AaCompileDone => {},
    }
    assert(actions(r@) =~= reaction(old(display)@, msg));
    r
}

/// The number that a decimal stands for.
pub open spec fn value_of(text: Seq<char>) -> int
    decreases text.len(),
{
    if text.len() == 0 {
        0
    } else {
        10 * value_of(text.drop_last()) + (text.last() as int - '0' as int)
    }
}

/// A number's decimal reads back as the number.
pub proof fn decimals_read_back(n: nat)
    ensures
        value_of(decimal(n)) == n,
    decreases n,
{
    let text = decimal(n);
    if n < 10 {
        assert(text.drop_last() =~= seq![]);
        assert(value_of(Seq::<char>::empty()) == 0);
    } else {
        decimals_read_back(n / 10);
        assert(text.drop_last() =~= decimal(n / 10));
    }
}

/// Whatever the worker reports, only what it says of the adapter changes the settings, and a
/// size goes back exactly then.
pub proof fn sizes_answer_adapters(d: DisplayView, msg: RenderMsg)
    ensures
        !(msg is GpuInfo) ==> settings_after(d, msg) == d,
        msg is GpuInfo ==> reaction(d, msg).last() == UiView::Resize(
            size_of(settings_after(d, msg)),
        ),
        !(msg is GpuInfo) ==> forall|i: int|
            0 <= i < reaction(d, msg).len() ==> !(#[trigger] reaction(d, msg)[i] is Resize),
{
}

/// The screen shows as many of the last lines as it holds, fourteen, in order.
pub proof fn the_screen_shows_the_last_fourteen(lines: Seq<Seq<char>>)
    ensures
        lines.len() <= 14 ==> shown(lines) == lines,
        lines.len() > 14 ==> shown(lines).len() == 14 && forall|i: int|
            0 <= i < 14 ==> #[trigger] shown(lines)[i] == lines[lines.len() - 14 + i],
{
}

/// An overlay opens by its button and by nothing else, closes by its close button, its backdrop and
/// the escape key, and stays as it is for what happens inside it and for other keys.
pub proof fn overlays_open_by_their_button(open: bool, event: OverlayEvent)
    ensures
        event is Button ==> overlay_after(open, event),
        event is Backdrop || event is Close || event is Escape ==> !overlay_after(open, event),
        event is Inside || event is OtherKey ==> overlay_after(open, event) == open,
{
}

/// The media come from where the page was asked to take them, else from where the build says, else
/// from the directory of the page: its origin, and its path up to the last slash. An empty address
/// counts as none.
pub proof fn an_asked_for_base_goes_first(
    asked: Option<Seq<char>>,
    built_in: Option<Seq<char>>,
    origin: Seq<char>,
    path: Seq<char>,
    dir: Seq<char>,
    page: Seq<char>,
)
    requires
        path == dir + seq!['/'] + page,
        !page.contains('/'),
        origin.len() > 0,
        origin.last() != '/',
        dir.len() == 0 || dir.last() != '/',
    ensures
        asked matches Some(a) && a.len() > 0 ==> media_base(asked, built_in, origin, path)
            == trimmed(asked->0),
        (asked is None || asked->0.len() == 0) && (built_in matches Some(b) && b.len() > 0)
            ==> media_base(asked, built_in, origin, path) == trimmed(built_in->0),
        (asked is None || asked->0.len() == 0) && (built_in is None || built_in->0.len() == 0)
            ==> media_base(asked, built_in, origin, path) == origin + dir,
{
    crate::text::directories_end_before_the_last_slash(dir, page);
    if dir.len() == 0 {
        assert(origin + dir =~= origin);
    } else {
        assert((origin + dir).last() == dir.last());
    }
}

/// The number that the last digits of a decimal stand for.
pub open spec fn tens(places: nat) -> nat
    decreases places,
{
    if places == 0 {
        1
    } else {
        10 * tens((places - 1) as nat)
    }
}

/// The last digits of a number are so many, and read back as what it leaves of that many tens.
pub proof fn last_digits_read_back(n: nat, places: nat)
    ensures
        last_digits(n, places).len() == places,
        tens(places) > 0,
        value_of(last_digits(n, places)) == n % tens(places),
    decreases places,
{
    if places > 0 {
        let p = (places - 1) as nat;
        last_digits_read_back(n / 10, p);
        assert(last_digits(n, places).drop_last() =~= last_digits(n / 10, p));
        let (t, m) = (tens(p) as int, n as int);
        assert(10 * ((m / 10) % t) + m % 10 == m % (10 * t)) by {
            vstd::arithmetic::div_mod::lemma_breakdown(m, 10, t);
        }
    } else {
        assert(n % 1 == 0);
    }
}

/// A decimal has digits only, and no needless zero in front.
pub proof fn decimals_have_no_needless_zeros(n: nat)
    ensures
        decimal(n).len() > 0,
        forall|i: int| 0 <= i < decimal(n).len() ==> '0' <= #[trigger] decimal(n)[i] <= '9',
        n > 0 ==> decimal(n)[0] != '0',
        n < 10 ==> decimal(n).len() == 1,
    decreases n,
{
    if n >= 10 {
        decimals_have_no_needless_zeros(n / 10);
        assert forall|i: int| 0 <= i < decimal(n).len() implies '0' <= #[trigger] decimal(n)[i]
            <= '9' by {
            if i < decimal(n / 10).len() {
                assert(decimal(n)[i] == decimal(n / 10)[i]);
            }
        }
    }
}

/// Whether a text is a quantity with so many places: a minus below zero, the digits of a whole
/// number without needless zeros, a point, and the places, which together read as the quantity to
/// the nearest unit of the last place.
pub open spec fn reads_as(text: Seq<char>, micros: i64, places: nat, unit: int) -> bool {
    exists|n: nat|
        {
            &&& -unit <= 2 * (n * unit - (if micros < 0 {
                -micros
            } else {
                micros as int
            })) <= unit
            &&& text == (if micros < 0 {
                "-"@
            } else {
                seq![]
            }) + #[trigger] decimal(n / tens(places)) + (if places == 0 {
                seq![]
            } else {
                "."@ + last_digits(n, places)
            })
        }
}

/// A quantity is shown as it is, to the nearest unit, tenth or hundredth.
pub proof fn quantities_are_shown_to_the_nearest(micros: i64)
    ensures
        reads_as(whole(micros), micros, 0, 1_000_000),
        reads_as(tenths(micros), micros, 1, 100_000),
        reads_as(hundredths(micros), micros, 2, 10_000),
{
    let s = size(micros);
    div_even_is_nearest(s, 1_000_000);
    div_even_is_nearest(s, 100_000);
    div_even_is_nearest(s, 10_000);
    reveal_with_fuel(tens, 3);
    let (a, b, c) = (
        div_even(s, 1_000_000) as nat,
        div_even(s, 100_000) as nat,
        div_even(s, 10_000) as nat,
    );
    let one = tens(0);
    assert(a / one == a) by (nonlinear_arith)
        requires
            one == 1,
    ;
    let minus = if micros < 0 {
        "-"@
    } else {
        seq![]
    };
    assert(whole(micros) =~= minus + decimal(a / tens(0)) + seq![]);
    assert(tenths(micros) =~= minus + decimal(b / tens(1)) + ("."@ + last_digits(b, 1)));
    assert(hundredths(micros) =~= minus + decimal(c / tens(2)) + ("."@ + last_digits(c, 2)));
}

/// The stats panel names each quantity and shows it behind its name: the frames per second, the
/// frame time to a tenth of a millisecond and the physics time to a hundredth, the steps per
/// second, and the balls.
pub proof fn the_panel_shows_each_quantity_by_its_name(s: StatsMsg)
    ensures
        stands_in(panel(s), "engine\n  fps           "@ + whole(s.fps)),
        stands_in(panel(s), "\n  frame time    "@ + tenths(s.frame_ms)),
        stands_in(panel(s), " ms\n  physics time  "@ + hundredths(s.step_ms)),
        stands_in(panel(s), " ms\n  physics       "@ + whole(s.sps)),
        stands_in(panel(s), " steps/s\n\nballs dropped  "@ + decimal(s.balls as nat)),
{
    let a = "engine\n  fps           "@ + whole(s.fps);
    let b = "\n  frame time    "@ + tenths(s.frame_ms);
    let c = " ms\n  physics time  "@ + hundredths(s.step_ms);
    let d = " ms\n  physics       "@ + whole(s.sps);
    let e = " steps/s\n\nballs dropped  "@ + decimal(s.balls as nat);
    let none = Seq::<char>::empty();
    assert(panel(s) =~= none + a + (b + c + d + e));
    assert(panel(s) =~= a + b + (c + d + e));
    assert(panel(s) =~= (a + b) + c + (d + e));
    assert(panel(s) =~= (a + b + c) + d + e);
    assert(panel(s) =~= (a + b + c + d) + e + none);
    a_part_stands_in(none, a, b + c + d + e);
    a_part_stands_in(a, b, c + d + e);
    a_part_stands_in(a + b, c, d + e);
    a_part_stands_in(a + b + c, d, e);
    a_part_stands_in(a + b + c + d, e, none);
}

/// Whether a text stands somewhere in another.
pub open spec fn stands_in(text: Seq<char>, part: Seq<char>) -> bool {
    exists|i: int|
        0 <= i <= text.len() - part.len() && #[trigger] text.subrange(i, i + part.len()) == part
}

proof fn a_part_stands_in(before: Seq<char>, part: Seq<char>, after: Seq<char>)
    ensures
        stands_in(before + part + after, part),
{
    let (all, i) = (before + part + after, before.len() as int);
    assert(all.subrange(i, i + part.len()) =~= part);
}

/// The page is told what the worker reports: a progress line is logged, the first frames take the
/// loading screen away, with a notice where quality was lowered, and a fault is logged and shown.
pub proof fn reports_reach_the_page(d: DisplayView, msg: RenderMsg)
    ensures
        msg matches RenderMsg::Progress { message } ==> reaction(d, msg).len() == 1 && reaction(
            d,
            msg,
        )[0] == UiView::Log(message@),
        msg is Ready ==> reaction(d, msg).len() == (if d.reduced {
            4int
        } else {
            3int
        }) && reaction(d, msg)[1] is LoadingDone && reaction(d, msg)[2] is Status && (d.reduced
            ==> reaction(d, msg)[3] is OpenNotice),
        msg matches RenderMsg::Error { message } ==> reaction(d, msg).len() == 2 && reaction(
            d,
            msg,
        )[0] == UiView::Log("ERROR: "@ + message@) && reaction(d, msg)[1] == UiView::Status(
            "worker error: "@ + message@,
        ),
        msg matches RenderMsg::GpuInfo { is_fallback, .. } ==> {
            let lowered = is_fallback && !d.user_pref && d.res.scale > 500_000;
            &&& reaction(d, msg).len() == (if lowered {
                3int
            } else {
                1int
            })
            &&& lowered ==> reaction(d, msg)[0] == UiView::Percent(50) && reaction(d, msg)[1]
                == UiView::Log(
                "software GPU detected — starting at "@ + decimal(50) + "% resolution"@,
            )
        },
        msg is AaCompileStart || msg is AaCompileProgress || msg is AaCompileDone ==> reaction(
            d,
            msg,
        ).len() == 0,
{
    assert((2 * 500_000int + 10_000) / 20_000 == 50);
}

} // verus!
