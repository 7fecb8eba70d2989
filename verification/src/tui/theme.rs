//! The palette: fixed colors, those that can be configured, and the glow of the status dot.
use vstd::prelude::*;
use vstd::string::*;

use crate::config::TerminalCfg;
use crate::session::event::{AppState, ConnectionStatus};

verus! {

/// A color of the terminal.
#[derive(Debug, Clone, Copy, PartialEq, Eq, Structural)]
pub enum Color {
    /// The terminal's own.
    Reset,
    /// Red, green and blue.
    Rgb(u8, u8, u8),
}

/// A fixed color of the palette.
#[derive(Debug, Clone, Copy, PartialEq, Eq, Structural)]
pub enum Tone {
    /// The accent where none is configured.
    DefaultAccent,
    /// Lines of a frame.
    Line,
    /// Soft lines.
    LineSoft,
    /// Text.
    Fg,
    /// Dim text.
    FgDim,
    /// Faint text.
    FgFaint,
    /// Danger.
    Danger,
    /// Warning.
    Warn,
    /// The agent speaks.
    Speak,
    /// The agent thinks.
    Think,
    /// The session in use.
    Current,
    /// What the status dot fades to.
    GlowFloor,
}

impl Tone {
    /// The color.
    pub open spec fn shade(self) -> Color {
        match self {
            Tone::DefaultAccent => Color::Rgb(0x9a, 0xed, 0xe4),
            Tone::Line => Color::Rgb(0x44, 0x50, 0x5f),
            Tone::LineSoft => Color::Rgb(0x2c, 0x35, 0x42),
            Tone::Fg => Color::Rgb(0xf7, 0xf9, 0xfb),
            Tone::FgDim => Color::Rgb(0xcd, 0xd6, 0xe0),
            Tone::FgFaint => Color::Rgb(0x9a, 0xa4, 0xb0),
            Tone::Danger => Color::Rgb(0xe0, 0x8c, 0x8c),
            Tone::Warn => Color::Rgb(0xd8, 0xc0, 0x8a),
            Tone::Speak => Color::Rgb(0xc3, 0xb6, 0xe6),
            Tone::Think => Color::Rgb(0x93, 0xb2, 0xd6),
            Tone::Current => Color::Rgb(0x8f, 0xd6, 0x9f),
            Tone::GlowFloor => Color::Rgb(0x07, 0x09, 0x0c),
        }
    }

    /// The color.
    pub fn color(self) -> (r: Color)
        ensures
            r == self.shade(),
    {
        match self {
            Tone::DefaultAccent => Color::Rgb(0x9a, 0xed, 0xe4),
            Tone::Line => Color::Rgb(0x44, 0x50, 0x5f),
            Tone::LineSoft => Color::Rgb(0x2c, 0x35, 0x42),
            Tone::Fg => Color::Rgb(0xf7, 0xf9, 0xfb),
            Tone::FgDim => Color::Rgb(0xcd, 0xd6, 0xe0),
            Tone::FgFaint => Color::Rgb(0x9a, 0xa4, 0xb0),
            Tone::Danger => Color::Rgb(0xe0, 0x8c, 0x8c),
            Tone::Warn => Color::Rgb(0xd8, 0xc0, 0x8a),
            Tone::Speak => Color::Rgb(0xc3, 0xb6, 0xe6),
            Tone::Think => Color::Rgb(0x93, 0xb2, 0xd6),
            Tone::Current => Color::Rgb(0x8f, 0xd6, 0x9f),
            Tone::GlowFloor => Color::Rgb(0x07, 0x09, 0x0c),
        }
    }
}

/// The colors that can be configured.
#[derive(Debug, Clone, Copy, PartialEq, Eq, Structural)]
pub struct Theme {
    /// Background.
    pub background: Color,
    /// Accent.
    pub accent: Color,
    /// A tool block.
    pub tool_accent: Color,
    /// A tool's details.
    pub tool_text: Color,
    /// A tool that succeeded.
    pub tool_success: Color,
    /// A tool that was denied.
    pub tool_denied: Color,
    /// A tool that failed.
    pub tool_failed: Color,
}

/// The value of a hexadecimal digit.
pub open spec fn hex_digit(c: char) -> Option<int> {
    if '0' <= c <= '9' {
        Some(c as int - '0' as int)
    } else if 'a' <= c <= 'f' {
        Some(c as int - 'a' as int + 10)
    } else if 'A' <= c <= 'F' {
        Some(c as int - 'A' as int + 10)
    } else {
        None
    }
}

/// The value of two characters: two hexadecimal digits, or a plus sign and one.
pub open spec fn hex_pair(a: char, b: char) -> Option<int> {
    match hex_digit(b) {
        None => None,
        Some(low) => if a == '+' {
            Some(low)
        } else {
            match hex_digit(a) {
                Some(high) => Some(16 * high + low),
                None => None,
            }
        },
    }
}

/// The characters of a color: a text without the white space around it and without one leading `#`.
pub open spec fn color_text(s: Seq<char>) -> Seq<char> {
    let t = crate::text::trimmed(s);
    if t.len() > 0 && t[0] == '#' {
        t.skip(1)
    } else {
        t
    }
}

/// The color that a text writes as `#rrggbb` or `rrggbb`.
pub open spec fn hex_color(s: Seq<char>) -> Option<Color> {
    let h = color_text(s);
    if h.len() != 6 {
        None
    } else {
        match (hex_pair(h[0], h[1]), hex_pair(h[2], h[3]), hex_pair(h[4], h[5])) {
            (Some(r), Some(g), Some(b)) => Some(Color::Rgb(r as u8, g as u8, b as u8)),
            _ => None,
        }
    }
}

/// Whether a text names the terminal's own background.
pub open spec fn is_own_background(s: Seq<char>) -> bool {
    let t = crate::text::ascii_lowered(crate::text::trimmed(s));
    t == ""@ || t == "transparent"@ || t == "default"@ || t == "terminal"@ || t == "none"@
}

/// A color that is written, or another.
pub open spec fn color_or(s: Seq<char>, other: Color) -> Color {
    match hex_color(s) {
        Some(c) => c,
        None => other,
    }
}

fn digit_of(c: char) -> (r: Option<u8>)
    ensures
        r is Some == hex_digit(c) is Some,
        r is Some ==> r->0 == hex_digit(c)->0 && r->0 < 16,
{
    let n: u32 = c as u32;
    if 48 <= n && n <= 57 {
        Some((n - 48) as u8)
    } else if 97 <= n && n <= 102 {
        Some((n - 87) as u8)
    } else if 65 <= n && n <= 70 {
        Some((n - 55) as u8)
    } else {
        None
    }
}

fn pair_of(a: char, b: char) -> (r: Option<u8>)
    ensures
        r is Some == hex_pair(a, b) is Some,
        r is Some ==> r->0 == hex_pair(a, b)->0,
{
    match digit_of(b) {
        None => None,
        Some(low) => {
            if a == '+' {
                return Some(low);
            }
            match digit_of(a) {
                Some(high) => Some(16 * high + low),
                None => None,
            }
        },
    }
}

/// The color that a text writes as `#rrggbb` or `rrggbb`.
pub fn parse_hex(s: &str) -> (r: Option<Color>)
    ensures
        r == hex_color(s@),
{
    let t: String = crate::text::trim(s);
    let chars: Vec<char> = crate::text::to_chars(t.as_str());
    let from: usize = if chars.len() > 0 && chars[0] == '#' {
        1
    } else {
        0
    };
    let ghost h = color_text(s@);
    assert(h =~= chars@.skip(from as int));
    if chars.len() - from != 6 {
        return None;
    }
    assert(h[0] == chars@[from as int] && h[1] == chars@[from + 1] && h[2] == chars@[from + 2]);
    assert(h[3] == chars@[from + 3] && h[4] == chars@[from + 4] && h[5] == chars@[from + 5]);
    match pair_of(chars[from], chars[from + 1]) {
        None => None,
        Some(red) => match pair_of(chars[from + 2], chars[from + 3]) {
            None => None,
            Some(green) => match pair_of(chars[from + 4], chars[from + 5]) {
                None => None,
                Some(blue) => Some(Color::Rgb(red, green, blue)),
            },
        },
    }
}

fn hex_or(s: &str, other: Color) -> (r: Color)
    ensures
        r == color_or(s@, other),
{
    match parse_hex(s) {
        Some(c) => c,
        None => other,
    }
}

impl Theme {
    /// The colors where none is configured.
    pub open spec fn spec_default() -> Theme {
        Theme {
            background: Color::Reset,
            accent: Tone::DefaultAccent.shade(),
            tool_accent: Tone::Speak.shade(),
            tool_text: Tone::FgFaint.shade(),
            tool_success: Tone::Current.shade(),
            tool_denied: Tone::Warn.shade(),
            tool_failed: Tone::Warn.shade(),
        }
    }

    /// The colors that a configuration gives.
    pub open spec fn configured(cfg: TerminalCfg) -> Theme {
        let d = Theme::spec_default();
        Theme {
            background: if is_own_background(cfg.background@) {
                Color::Reset
            } else {
                color_or(cfg.background@, Color::Reset)
            },
            accent: color_or(cfg.accent@, d.accent),
            tool_accent: color_or(cfg.tool_accent@, d.tool_accent),
            tool_text: color_or(cfg.tool_text@, d.tool_text),
            tool_success: color_or(cfg.tool_success@, d.tool_success),
            tool_denied: color_or(cfg.tool_denied@, d.tool_denied),
            tool_failed: color_or(cfg.tool_failed@, d.tool_failed),
        }
    }

    /// The colors that a configuration gives: the terminal's own background by name, and the default
    /// for what is not a color.
    #[must_use]
    pub fn from_config(cfg: &TerminalCfg) -> (r: Self)
        ensures
            r == Theme::configured(*cfg),
    {
        let d: Theme = Theme::default();
        let shown: String = crate::text::trim(cfg.background.as_str());
        let low: String = crate::text::to_ascii_lower(shown.as_str());
        let background: Color = if crate::text::same(low.as_str(), "") || crate::text::same(
            low.as_str(),
            "transparent",
        ) || crate::text::same(low.as_str(), "default") || crate::text::same(
            low.as_str(),
            "terminal",
        ) || crate::text::same(low.as_str(), "none") {
            Color::Reset
        } else {
            hex_or(cfg.background.as_str(), Color::Reset)
        };
        Theme {
            background,
            accent: hex_or(cfg.accent.as_str(), d.accent),
            tool_accent: hex_or(cfg.tool_accent.as_str(), d.tool_accent),
            tool_text: hex_or(cfg.tool_text.as_str(), d.tool_text),
            tool_success: hex_or(cfg.tool_success.as_str(), d.tool_success),
            tool_denied: hex_or(cfg.tool_denied.as_str(), d.tool_denied),
            tool_failed: hex_or(cfg.tool_failed.as_str(), d.tool_failed),
        }
    }
}

impl Default for Theme {
    fn default() -> (r: Self)
        ensures
            r == Theme::spec_default(),
    {
        Theme {
            background: Color::Reset,
            accent: Tone::DefaultAccent.color(),
            tool_accent: Tone::Speak.color(),
            tool_text: Tone::FgFaint.color(),
            tool_success: Tone::Current.color(),
            tool_denied: Tone::Warn.color(),
            tool_failed: Tone::Warn.color(),
        }
    }
}

/// The color of a lifecycle state.
pub open spec fn color_of_state(state: AppState, accent: Color) -> Color {
    match state {
        AppState::Stopped => Tone::FgFaint.shade(),
        AppState::Connecting => Tone::Warn.shade(),
        AppState::Reconnecting => Tone::Warn.shade(),
        AppState::Listening => accent,
        AppState::Thinking => Tone::Think.shade(),
        AppState::Speaking => Tone::Speak.shade(),
        AppState::Error => Tone::Danger.shade(),
    }
}

/// The color of a lifecycle state.
pub fn state_color(state: AppState, accent: Color) -> (r: Color)
    ensures
        r == color_of_state(state, accent),
{
    match state {
        AppState::Stopped => Tone::FgFaint.color(),
        AppState::Connecting => Tone::Warn.color(),
        AppState::Reconnecting => Tone::Warn.color(),
        AppState::Listening => accent,
        AppState::Thinking => Tone::Think.color(),
        AppState::Speaking => Tone::Speak.color(),
        AppState::Error => Tone::Danger.color(),
    }
}

/// The color of a connection status.
pub open spec fn color_of_connection(status: ConnectionStatus, accent: Color) -> Color {
    match status {
        ConnectionStatus::Disconnected => Tone::FgFaint.shade(),
        ConnectionStatus::Connecting => Tone::Warn.shade(),
        ConnectionStatus::Reconnecting => Tone::Warn.shade(),
        ConnectionStatus::Connected => accent,
    }
}

/// The color of a connection status.
pub fn connection_color(status: ConnectionStatus, accent: Color) -> (r: Color)
    ensures
        r == color_of_connection(status, accent),
{
    match status {
        ConnectionStatus::Disconnected => Tone::FgFaint.color(),
        ConnectionStatus::Connecting => Tone::Warn.color(),
        ConnectionStatus::Reconnecting => Tone::Warn.color(),
        ConnectionStatus::Connected => accent,
    }
}

/// How far the dot fades toward the floor.
#[derive(Debug, Clone, Copy, PartialEq, Eq, Structural)]
pub enum Depth {
    /// By 55 hundredths.
    Calm,
    /// By 78 hundredths.
    Lively,
}

impl Depth {
    /// The hundredths.
    pub open spec fn hundredths(self) -> int {
        match self {
            Depth::Calm => 55,
            Depth::Lively => 78,
        }
    }

    /// Whether a half is rounded down, given the difference of two channels and a hundred times the
    /// channel between them. The factor 0.55 has no exact binary form; its nearest double lies above
    /// it, and from the middle of each binade of the product on, the product shows that. What is
    /// left of the channel shows it too, unless it lies in a higher binade than the product.
    pub open spec fn half_goes_down(self, difference: int, sum: int) -> bool {
        self == Depth::Calm && ((40 <= difference < 58 && sum < 3_200) || (80 <= difference < 116
            && sum < 6_400) || (160 <= difference < 232 && sum < 12_800))
    }
}

/// A channel of a color faded toward a floor, to the nearest integer.
pub open spec fn faded(x: int, floor: int, depth: Depth) -> int {
    let sum = 100 * x + (floor - x) * depth.hundredths();
    if sum % 100 == 50 && depth.half_goes_down(x - floor, sum) {
        sum / 100
    } else {
        (sum + 50) / 100
    }
}

/// A channel between two others, `num / den` of the way, to the nearest integer, halves up.
pub open spec fn between(x: int, y: int, num: int, den: int) -> int {
    (2 * (x * den + (y - x) * num) + den) / (2 * den)
}

/// The channels of a color; the terminal's own counts as white.
pub open spec fn channels(c: Color) -> (u8, u8, u8) {
    match c {
        Color::Rgb(r, g, b) => (r, g, b),
        Color::Reset => (0xff, 0xff, 0xff),
    }
}

/// How far a wave of `period` ticks stands from full brightness, in `period` parts: it grows from
/// nothing to all of them and falls back.
pub open spec fn wave(tick: u64, period: int) -> int {
    let p = tick as int % period;
    if 2 * p < period {
        2 * p
    } else {
        2 * period - 2 * p
    }
}

/// One channel of a glow.
pub open spec fn glow_channel(x: int, floor: int, depth: Depth, tick: u64, period: int) -> int {
    between(x, faded(x, floor, depth), wave(tick, period), period)
}

/// A color that pulses between itself and its faded form.
pub open spec fn glow_of(base: Color, depth: Depth, tick: u64, period: int) -> Color {
    let c = channels(base);
    Color::Rgb(
        glow_channel(c.0 as int, 0x07, depth, tick, period) as u8,
        glow_channel(c.1 as int, 0x09, depth, tick, period) as u8,
        glow_channel(c.2 as int, 0x0c, depth, tick, period) as u8,
    )
}

/// The color of the status dot at a tick: it pulses while the session does anything, and is steady
/// otherwise.
pub open spec fn dot_color(state: AppState, tick: u64, accent: Color) -> Color {
    match state {
        AppState::Stopped => Tone::FgFaint.shade(),
        AppState::Error => Tone::Danger.shade(),
        AppState::Connecting => glow_of(Tone::Warn.shade(), Depth::Calm, tick, 12),
        AppState::Reconnecting => glow_of(Tone::Warn.shade(), Depth::Calm, tick, 12),
        AppState::Listening => glow_of(accent, Depth::Calm, tick, 26),
        AppState::Thinking => glow_of(Tone::Think.shade(), Depth::Calm, tick, 14),
        AppState::Speaking => glow_of(Tone::Speak.shade(), Depth::Lively, tick, 11),
    }
}

proof fn lemma_faded_range(x: int, floor: int, depth: Depth)
    requires
        0 <= x <= 255,
        0 <= floor <= 255,
    ensures
        0 <= faded(x, floor, depth) <= 255,
        0 <= 100 * x + (floor - x) * depth.hundredths() <= 25_500,
{
    match depth {
        Depth::Calm => {
            assert(100 * x + (floor - x) * 55 == 45 * x + 55 * floor);
        },
        Depth::Lively => {
            assert(100 * x + (floor - x) * 78 == 22 * x + 78 * floor);
        },
    }
}

proof fn lemma_between_range(x: int, y: int, num: int, den: int)
    requires
        0 <= x <= 255,
        0 <= y <= 255,
        0 <= num <= den,
        2 <= den <= 100,
    ensures
        0 <= between(x, y, num, den) <= 255,
        0 <= x * den + (y - x) * num <= 255 * den,
{
    let rest = den - num;
    assert(x * den + (y - x) * num == x * rest + y * num) by (nonlinear_arith)
        requires
            rest == den - num,
    ;
    assert(0 <= x * rest <= 255 * rest) by (nonlinear_arith)
        requires
            0 <= x <= 255,
            0 <= rest,
    ;
    assert(0 <= y * num <= 255 * num) by (nonlinear_arith)
        requires
            0 <= y <= 255,
            0 <= num,
    ;
    let t = 2 * (x * den + (y - x) * num) + den;
    assert(0 <= t < 512 * den);
    assert(0 <= t / (2 * den) <= 255) by (nonlinear_arith)
        requires
            0 <= t < 512 * den,
            den > 0,
    ;
}

fn fade(x: u8, floor: u8, depth: Depth) -> (r: u8)
    ensures
        r == faded(x as int, floor as int, depth),
{
    proof {
        lemma_faded_range(x as int, floor as int, depth);
    }
    let h: i32 = match depth {
        Depth::Calm => 55,
        Depth::Lively => 78,
    };
    let d: i32 = x as i32 - floor as i32;
    assert(-255 * 78 <= d * h <= 255 * 78) by (nonlinear_arith)
        requires
            -255 <= d <= 255,
            0 <= h <= 78,
    ;
    assert(100 * x - d * h == 100 * x + (floor - x) * h) by (nonlinear_arith)
        requires
            d == x - floor,
    ;
    let sum: i32 = 100 * (x as i32) - d * h;
    let calm: bool = match depth {
        Depth::Calm => true,
        Depth::Lively => false,
    };
    let down: bool = calm && ((40 <= d && d < 58 && sum < 3_200) || (80 <= d && d < 116 && sum < 6_400)
        || (160 <= d && d < 232 && sum < 12_800));
    if sum % 100 == 50 && down {
        (sum / 100) as u8
    } else {
        ((sum + 50) / 100) as u8
    }
}

fn mix(x: u8, y: u8, num: u32, den: u32) -> (r: u8)
    requires
        num <= den,
        2 <= den <= 100,
    ensures
        r == between(x as int, y as int, num as int, den as int),
{
    proof {
        lemma_between_range(x as int, y as int, num as int, den as int);
    }
    assert(0 <= x * den <= 25_500 && 0 <= y * num <= 25_500 && 0 <= x * num <= 25_500)
        by (nonlinear_arith)
        requires
            x <= 255,
            y <= 255,
            num <= den <= 100,
    ;
    assert(x * den + y * num - x * num == x * den + (y - x) * num) by (nonlinear_arith);
    let sum: u32 = x as u32 * den + y as u32 * num - x as u32 * num;
    ((2 * sum + den) / (2 * den)) as u8
}

fn glow(base: Color, depth: Depth, tick: u64, period: u32) -> (r: Color)
    requires
        2 <= period <= 100,
    ensures
        r == glow_of(base, depth, tick, period as int),
{
    let (red, green, blue): (u8, u8, u8) = match base {
        Color::Rgb(r, g, b) => (r, g, b),
        Color::Reset => (0xff, 0xff, 0xff),
    };
    let p: u32 = (tick % (period as u64)) as u32;
    let num: u32 = if 2 * p < period {
        2 * p
    } else {
        2 * period - 2 * p
    };
    Color::Rgb(
        mix(red, fade(red, 0x07, depth), num, period),
        mix(green, fade(green, 0x09, depth), num, period),
        mix(blue, fade(blue, 0x0c, depth), num, period),
    )
}

/// The color of the status dot at a tick.
pub fn status_dot(state: AppState, tick: u64, accent: Color) -> (r: Color)
    ensures
        r == dot_color(state, tick, accent),
{
    match state {
        AppState::Stopped => Tone::FgFaint.color(),
        AppState::Error => Tone::Danger.color(),
        AppState::Connecting => glow(Tone::Warn.color(), Depth::Calm, tick, 12),
        AppState::Reconnecting => glow(Tone::Warn.color(), Depth::Calm, tick, 12),
        AppState::Listening => glow(accent, Depth::Calm, tick, 26),
        AppState::Thinking => glow(Tone::Think.color(), Depth::Calm, tick, 14),
        AppState::Speaking => glow(Tone::Speak.color(), Depth::Lively, tick, 11),
    }
}

/// At the start of its period a glow shows its color as it is.
pub proof fn law_glow_starts_at_full_brightness(r: u8, g: u8, b: u8, depth: Depth, tick: u64, period: int)
    requires
        2 <= period <= 100,
        tick as int % period == 0,
    ensures
        glow_of(Color::Rgb(r, g, b), depth, tick, period) == Color::Rgb(r, g, b),
{
    lemma_no_way(r as int, faded(r as int, 0x07, depth), period);
    lemma_no_way(g as int, faded(g as int, 0x09, depth), period);
    lemma_no_way(b as int, faded(b as int, 0x0c, depth), period);
}

proof fn lemma_no_way(x: int, y: int, den: int)
    requires
        den > 0,
    ensures
        between(x, y, 0, den) == x,
{
    assert((y - x) * 0 == 0);
    assert((2 * (x * den) + den) / (2 * den) == x) by (nonlinear_arith)
        requires
            den > 0,
    ;
}

/// A glow comes back after its period.
pub proof fn law_glow_is_periodic(base: Color, depth: Depth, tick: u64, period: u64)
    requires
        2 <= period <= 100,
        tick + period <= u64::MAX,
    ensures
        glow_of(base, depth, (tick + period) as u64, period as int) == glow_of(
            base,
            depth,
            tick,
            period as int,
        ),
{
    vstd::arithmetic::div_mod::lemma_mod_add_multiples_vanish(tick as int, period as int);
}

/// A stopped or failed session's dot does not move.
pub proof fn law_idle_dot_is_steady(state: AppState, a: u64, b: u64, accent: Color)
    requires
        state == AppState::Stopped || state == AppState::Error,
    ensures
        dot_color(state, a, accent) == dot_color(state, b, accent),
{
}

/// The fixed colors.
pub proof fn law_fixed_colors()
    ensures
        Tone::DefaultAccent.shade() == Color::Rgb(154, 237, 228),
        Tone::Line.shade() == Color::Rgb(68, 80, 95),
        Tone::LineSoft.shade() == Color::Rgb(44, 53, 66),
        Tone::Fg.shade() == Color::Rgb(247, 249, 251),
        Tone::FgDim.shade() == Color::Rgb(205, 214, 224),
        Tone::FgFaint.shade() == Color::Rgb(154, 164, 176),
        Tone::Danger.shade() == Color::Rgb(224, 140, 140),
        Tone::Warn.shade() == Color::Rgb(216, 192, 138),
        Tone::Speak.shade() == Color::Rgb(195, 182, 230),
        Tone::Think.shade() == Color::Rgb(147, 178, 214),
        Tone::Current.shade() == Color::Rgb(143, 214, 159),
        Tone::GlowFloor.shade() == Color::Rgb(7, 9, 12),
{
}

/// The digits of a hexadecimal number, in either case of letters, and nothing else.
pub proof fn law_hexadecimal_digits(c: char)
    ensures
        48 <= c as int <= 57 ==> hex_digit(c) == Some(c as int - 48),
        97 <= c as int <= 102 ==> hex_digit(c) == Some(c as int - 87),
        65 <= c as int <= 70 ==> hex_digit(c) == Some(c as int - 55),
        !(48 <= c as int <= 57 || 97 <= c as int <= 102 || 65 <= c as int <= 70) ==> hex_digit(c) is None,
{
}

/// A color is six hexadecimal digits, with or without a `#` before them: two for each of red, green and
/// blue, the higher one first. Anything of another length is none, nor is what holds another character.
pub proof fn law_written_color(s: Seq<char>, h: Seq<char>)
    requires
        crate::text::trimmed(s) == seq!['#'] + h || (crate::text::trimmed(s) == h && (h.len() == 0
            || h[0] != '#')),
    ensures
        h.len() != 6 ==> hex_color(s) is None,
        h.len() == 6 && (forall|i: int| 0 <= i < 6 ==> hex_digit(#[trigger] h[i]) is Some)
            ==> hex_color(s) == Some(
            Color::Rgb(
                (16 * hex_digit(h[0])->0 + hex_digit(h[1])->0) as u8,
                (16 * hex_digit(h[2])->0 + hex_digit(h[3])->0) as u8,
                (16 * hex_digit(h[4])->0 + hex_digit(h[5])->0) as u8,
            ),
        ),
        h.len() == 6 && (hex_digit(h[1]) is None || hex_digit(h[3]) is None || hex_digit(
            h[5],
        ) is None) ==> hex_color(s) is None,
        h.len() == 6 && h[0] != '+' && hex_digit(h[0]) is None ==> hex_color(s) is None,
        h.len() == 6 && h[2] != '+' && hex_digit(h[2]) is None ==> hex_color(s) is None,
        h.len() == 6 && h[4] != '+' && hex_digit(h[4]) is None ==> hex_color(s) is None,
{
    if crate::text::trimmed(s) == seq!['#'] + h {
        assert((seq!['#'] + h).skip(1) =~= h);
        assert((seq!['#'] + h)[0] == '#');
    }
    assert(color_text(s) == h);
    if h.len() == 6 {
        assert(hex_digit(h[0]) is Some ==> h[0] != '+');
        assert(hex_digit(h[2]) is Some ==> h[2] != '+');
        assert(hex_digit(h[4]) is Some ==> h[4] != '+');
    }
}

/// The colors of a configuration: each that is written, and the usual one where what is written is no
/// color; the background is the terminal's own under four names, or under none.
pub proof fn law_configured_colors(cfg: TerminalCfg)
    ensures
        hex_color(cfg.accent@) matches Some(c) ==> Theme::configured(cfg).accent == c,
        hex_color(cfg.accent@) is None ==> Theme::configured(cfg).accent == Color::Rgb(154, 237, 228),
        hex_color(cfg.tool_accent@) matches Some(c) ==> Theme::configured(cfg).tool_accent == c,
        hex_color(cfg.tool_accent@) is None ==> Theme::configured(cfg).tool_accent == Color::Rgb(
            195,
            182,
            230,
        ),
        hex_color(cfg.tool_text@) matches Some(c) ==> Theme::configured(cfg).tool_text == c,
        hex_color(cfg.tool_text@) is None ==> Theme::configured(cfg).tool_text == Color::Rgb(
            154,
            164,
            176,
        ),
        hex_color(cfg.tool_success@) matches Some(c) ==> Theme::configured(cfg).tool_success == c,
        hex_color(cfg.tool_success@) is None ==> Theme::configured(cfg).tool_success == Color::Rgb(
            143,
            214,
            159,
        ),
        hex_color(cfg.tool_denied@) matches Some(c) ==> Theme::configured(cfg).tool_denied == c,
        hex_color(cfg.tool_denied@) is None ==> Theme::configured(cfg).tool_denied == Color::Rgb(
            216,
            192,
            138,
        ),
        hex_color(cfg.tool_failed@) matches Some(c) ==> Theme::configured(cfg).tool_failed == c,
        hex_color(cfg.tool_failed@) is None ==> Theme::configured(cfg).tool_failed == Color::Rgb(
            216,
            192,
            138,
        ),
        is_own_background(cfg.background@) ==> Theme::configured(cfg).background is Reset,
        !is_own_background(cfg.background@) ==> (hex_color(cfg.background@) matches Some(c)
            ==> Theme::configured(cfg).background == c) && (hex_color(cfg.background@) is None
            ==> Theme::configured(cfg).background is Reset),
        is_own_background(cfg.background@) == set![
            ""@,
            "default"@,
            "none"@,
            "terminal"@,
            "transparent"@,
        ].contains(crate::text::ascii_lowered(crate::text::trimmed(cfg.background@))),
{
}

/// The colors of the states and of the connection.
pub proof fn law_colors_of_states(accent: Color)
    ensures
        color_of_state(AppState::Listening, accent) == accent,
        color_of_state(AppState::Stopped, accent) == Color::Rgb(154, 164, 176),
        color_of_state(AppState::Connecting, accent) == Color::Rgb(216, 192, 138),
        color_of_state(AppState::Reconnecting, accent) == Color::Rgb(216, 192, 138),
        color_of_state(AppState::Thinking, accent) == Color::Rgb(147, 178, 214),
        color_of_state(AppState::Speaking, accent) == Color::Rgb(195, 182, 230),
        color_of_state(AppState::Error, accent) == Color::Rgb(224, 140, 140),
        color_of_connection(ConnectionStatus::Connected, accent) == accent,
        color_of_connection(ConnectionStatus::Disconnected, accent) == Color::Rgb(154, 164, 176),
        color_of_connection(ConnectionStatus::Connecting, accent) == Color::Rgb(216, 192, 138),
        color_of_connection(ConnectionStatus::Reconnecting, accent) == Color::Rgb(216, 192, 138),
{
}

/// A wave begins at nothing, grows by two parts with each tick to its middle, and falls back the same
/// way.
pub proof fn law_wave_rises_and_falls(tick: u64, period: int)
    requires
        period >= 2,
    ensures
        tick as int % period == 0 ==> wave(tick, period) == 0,
        2 * (tick as int % period) <= period ==> wave(tick, period) == 2 * (tick as int % period),
        2 * (tick as int % period) > period ==> wave(tick, period) == 2 * (period - tick as int % period),
        0 <= wave(tick, period) <= period,
{
    assert(0 <= tick as int % period < period) by (nonlinear_arith)
        requires
            period >= 2,
            tick >= 0,
    ;
}

/// A channel faded toward a floor has gone its hundredths of the way, to the nearest integer; one on the
/// way between two others is the first at the start and the second at the end.
pub proof fn law_faded_channels(x: u8, floor: u8, depth: Depth, y: int, den: int)
    requires
        den >= 1,
    ensures
        ({
            let way = 100 * x - (x - floor) * (match depth {
                Depth::Calm => 55int,
                Depth::Lively => 78int,
            });
            way - 50 <= 100 * faded(x as int, floor as int, depth) <= way + 50
        }),
        between(x as int, y, 0, den) == x,
        between(x as int, y, den, den) == y,
{
    let d = depth.hundredths();
    let (a, b) = (x as int, floor as int);
    assert((b - a) * 55 == -((a - b) * 55) && (b - a) * 78 == -((a - b) * 78)) by (nonlinear_arith);
    assert((y - a) * 0 == 0);
    assert((2 * (a * den) + den) / (2 * den) == a) by (nonlinear_arith)
        requires
            den >= 1,
    ;
    assert((y - a) * den == y * den - a * den) by (nonlinear_arith);
    assert((2 * (y * den) + den) / (2 * den) == y) by (nonlinear_arith)
        requires
            den >= 1,
    ;
}

/// While a session does anything its dot begins each period in the color of its state; an idle one has it
/// all the time.
pub proof fn law_dot_has_the_color_of_its_state(state: AppState, r: u8, g: u8, b: u8, tick: u64)
    ensures
        tick == 0 ==> dot_color(state, tick, Color::Rgb(r, g, b)) == color_of_state(
            state,
            Color::Rgb(r, g, b),
        ),
        state is Stopped || state is Error ==> dot_color(state, tick, Color::Rgb(r, g, b))
            == color_of_state(state, Color::Rgb(r, g, b)),
        state is Connecting && tick as int % 12 == 0 ==> dot_color(state, tick, Color::Rgb(r, g, b))
            == Tone::Warn.shade(),
        state is Listening && tick as int % 26 == 0 ==> dot_color(state, tick, Color::Rgb(r, g, b))
            == Color::Rgb(r, g, b),
        state is Thinking && tick as int % 14 == 0 ==> dot_color(state, tick, Color::Rgb(r, g, b))
            == Tone::Think.shade(),
        state is Speaking && tick as int % 11 == 0 ==> dot_color(state, tick, Color::Rgb(r, g, b))
            == Tone::Speak.shade(),
{
    if tick as int % 12 == 0 {
        law_glow_starts_at_full_brightness(0xd8, 0xc0, 0x8a, Depth::Calm, tick, 12);
    }
    if tick as int % 26 == 0 {
        law_glow_starts_at_full_brightness(r, g, b, Depth::Calm, tick, 26);
    }
    if tick as int % 14 == 0 {
        law_glow_starts_at_full_brightness(0x93, 0xb2, 0xd6, Depth::Calm, tick, 14);
    }
    if tick as int % 11 == 0 {
        law_glow_starts_at_full_brightness(0xc3, 0xb6, 0xe6, Depth::Lively, tick, 11);
    }
}

/// In the middle of a period of even length a glow is at its faintest: every channel has faded toward the
/// floor, which is nearly black.
pub proof fn law_glow_is_faintest_in_the_middle(r: u8, g: u8, b: u8, depth: Depth, tick: u64, half: int)
    requires
        1 <= half <= 50,
        tick as int % (2 * half) == half,
    ensures
        glow_of(Color::Rgb(r, g, b), depth, tick, 2 * half) == Color::Rgb(
            faded(r as int, 7, depth) as u8,
            faded(g as int, 9, depth) as u8,
            faded(b as int, 12, depth) as u8,
        ),
{
    law_faded_channels(r, 7, depth, faded(r as int, 7, depth), 2 * half);
    law_faded_channels(g, 9, depth, faded(g as int, 9, depth), 2 * half);
    law_faded_channels(b, 12, depth, faded(b as int, 12, depth), 2 * half);
    assert(wave(tick, 2 * half) == 2 * half);
}

/// A channel on the way between two others has gone its part of the way, to the nearest integer.
pub proof fn law_channel_on_the_way(x: int, y: int, num: int, den: int)
    requires
        den >= 1,
    ensures
        2 * (x * (den - num) + y * num) - den < 2 * (between(x, y, num, den) * den) <= 2 * (x * (den
            - num) + y * num) + den,
{
    let n = x * den + (y - x) * num;
    assert(n == x * (den - num) + y * num) by (nonlinear_arith)
        requires
            n == x * den + (y - x) * num,
    ;
    let q = (2 * n + den) / (2 * den);
    assert(q * (2 * den) <= 2 * n + den < (q + 1) * (2 * den)) by (nonlinear_arith)
        requires
            q == (2 * n + den) / (2 * den),
            den >= 1,
    ;
    assert(q * (2 * den) == 2 * (q * den) && (q + 1) * (2 * den) == 2 * (q * den) + 2 * den)
        by (nonlinear_arith);
}

/// Where none are configured, the background is the terminal's own and the other colors are those of the
/// palette; a configuration that holds no color at all gives the same.
pub proof fn law_usual_colors(cfg: TerminalCfg)
    requires
        hex_color(cfg.background@) is None,
        hex_color(cfg.accent@) is None,
        hex_color(cfg.tool_accent@) is None,
        hex_color(cfg.tool_text@) is None,
        hex_color(cfg.tool_success@) is None,
        hex_color(cfg.tool_denied@) is None,
        hex_color(cfg.tool_failed@) is None,
    ensures
        Theme::configured(cfg) == Theme::spec_default(),
        Theme::spec_default() == (Theme {
            background: Color::Reset,
            accent: Color::Rgb(154, 237, 228),
            tool_accent: Color::Rgb(195, 182, 230),
            tool_text: Color::Rgb(154, 164, 176),
            tool_success: Color::Rgb(143, 214, 159),
            tool_denied: Color::Rgb(216, 192, 138),
            tool_failed: Color::Rgb(216, 192, 138),
        }),
{
}

/// In the middle of its period a dot is at its faintest. Connecting takes twelve ticks, listening
/// twenty-six and thinking fourteen; speaking takes eleven and fades deeper.
pub proof fn law_dot_at_its_faintest(tick: u64, r: u8, g: u8, b: u8)
    ensures
        tick as int % 12 == 6 ==> dot_color(AppState::Connecting, tick, Color::Rgb(r, g, b))
            == Color::Rgb(
            faded(216, 7, Depth::Calm) as u8,
            faded(192, 9, Depth::Calm) as u8,
            faded(138, 12, Depth::Calm) as u8,
        ),
        dot_color(AppState::Reconnecting, tick, Color::Rgb(r, g, b)) == dot_color(
            AppState::Connecting,
            tick,
            Color::Rgb(r, g, b),
        ),
        tick as int % 26 == 13 ==> dot_color(AppState::Listening, tick, Color::Rgb(r, g, b))
            == Color::Rgb(
            faded(r as int, 7, Depth::Calm) as u8,
            faded(g as int, 9, Depth::Calm) as u8,
            faded(b as int, 12, Depth::Calm) as u8,
        ),
        tick as int % 14 == 7 ==> dot_color(AppState::Thinking, tick, Color::Rgb(r, g, b))
            == Color::Rgb(
            faded(147, 7, Depth::Calm) as u8,
            faded(178, 9, Depth::Calm) as u8,
            faded(214, 12, Depth::Calm) as u8,
        ),
        dot_color(AppState::Speaking, tick, Color::Rgb(r, g, b)) == glow_of(
            Color::Rgb(195, 182, 230),
            Depth::Lively,
            tick,
            11,
        ),
{
    if tick as int % 12 == 6 {
        law_glow_is_faintest_in_the_middle(216, 192, 138, Depth::Calm, tick, 6);
    }
    if tick as int % 26 == 13 {
        law_glow_is_faintest_in_the_middle(r, g, b, Depth::Calm, tick, 13);
    }
    if tick as int % 14 == 7 {
        law_glow_is_faintest_in_the_middle(147, 178, 214, Depth::Calm, tick, 7);
    }
}

/// A glow goes its part of the way from its color to the faded one in every channel; the terminal's own
/// color glows as white.
pub proof fn law_glow_goes_its_way(r: u8, g: u8, b: u8, depth: Depth, tick: u64, period: int)
    requires
        2 <= period <= 100,
    ensures
        glow_of(Color::Rgb(r, g, b), depth, tick, period) == Color::Rgb(
            between(r as int, faded(r as int, 7, depth), wave(tick, period), period) as u8,
            between(g as int, faded(g as int, 9, depth), wave(tick, period), period) as u8,
            between(b as int, faded(b as int, 12, depth), wave(tick, period), period) as u8,
        ),
        glow_of(Color::Reset, depth, tick, period) == glow_of(
            Color::Rgb(255, 255, 255),
            depth,
            tick,
            period,
        ),
{
}

} // verus!
