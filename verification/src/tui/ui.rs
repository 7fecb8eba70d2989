//! What stands in each part of the screen: texts with their colors, and where the view is.
use vstd::prelude::*;
use vstd::string::*;

use crate::session::event::{AppState, ConnectionStatus, Reachability};

use super::app::{AppModel, ModelView};
use super::theme::{Color, Theme, Tone};
use super::transcript::{Entry, EntryView, LineKind};

verus! {

/// A piece of a line in one color.
#[derive(Debug, PartialEq, Eq)]
pub struct Span {
    /// The text.
    pub text: String,
    /// Its color, or the default one.
    pub color: Option<Color>,
}

/// A [`Span`] with its text as a sequence of characters.
pub struct SpanView {
    /// The text.
    pub text: Seq<char>,
    /// Its color.
    pub color: Option<Color>,
}

impl View for Span {
    type V = SpanView;

    open spec fn view(&self) -> SpanView {
        SpanView { text: self.text@, color: self.color }
    }
}

/// A piece in a color.
pub open spec fn painted(text: Seq<char>, color: Color) -> SpanView {
    SpanView { text, color: Some(color) }
}

/// A piece in the default color.
pub open spec fn plain(text: Seq<char>) -> SpanView {
    SpanView { text, color: None }
}

fn paint(text: &str, color: Color) -> (r: Span)
    ensures
        r@ == painted(text@, color),
{
    Span { text: text.to_owned(), color: Some(color) }
}

fn bare(text: &str) -> (r: Span)
    ensures
        r@ == plain(text@),
{
    Span { text: text.to_owned(), color: None }
}

/// A rectangle of cells.
#[derive(Debug, Clone, Copy, PartialEq, Eq, Structural)]
pub struct Area {
    /// Left edge.
    pub x: u16,
    /// Top edge.
    pub y: u16,
    /// Width.
    pub width: u16,
    /// Height.
    pub height: u16,
}

/// Where a stretch of `want` cells begins when it is centered in `have`.
pub open spec fn centered_at(have: u16, want: u16) -> int {
    if have >= want {
        (have - want) / 2
    } else {
        0
    }
}

/// The smaller of two numbers.
pub open spec fn smaller(a: u16, b: u16) -> u16 {
    if a <= b {
        a
    } else {
        b
    }
}

/// A rectangle of the given size in the middle of another, cut to fit.
pub fn centered_rect(area: Area, w: u16, h: u16) -> (r: Area)
    requires
        area.x + area.width <= u16::MAX,
        area.y + area.height <= u16::MAX,
    ensures
        r.x == area.x + centered_at(area.width, w),
        r.y == area.y + centered_at(area.height, h),
        r.width == smaller(w, area.width),
        r.height == smaller(h, area.height),
        r.x + r.width <= area.x + area.width,
        r.y + r.height <= area.y + area.height,
{
    let dx: u16 = if area.width >= w {
        (area.width - w) / 2
    } else {
        0
    };
    let dy: u16 = if area.height >= h {
        (area.height - h) / 2
    } else {
        0
    };
    Area {
        x: area.x + dx,
        y: area.y + dy,
        width: if w <= area.width {
            w
        } else {
            area.width
        },
        height: if h <= area.height {
            h
        } else {
            area.height
        },
    }
}

/// A bracket at a corner.
#[derive(Debug, Clone, Copy, PartialEq, Eq, Structural)]
pub struct Corner {
    /// Column.
    pub x: u16,
    /// Row.
    pub y: u16,
    /// The bracket.
    pub symbol: char,
}

/// The last cell of a stretch: the one before its end, where the end is not past the largest number.
pub open spec fn last_cell(start: u16, len: u16) -> u16 {
    let end = super::app::plus(start, len);
    super::app::less(end, 1)
}

fn last_cell_of(start: u16, len: u16) -> (r: u16)
    ensures
        r == last_cell(start, len),
{
    let end: u16 = if start <= u16::MAX - len {
        start + len
    } else {
        u16::MAX
    };
    if end >= 1 {
        end - 1
    } else {
        0
    }
}

/// The brackets at the four corners of an area.
pub fn corners(area: Area) -> (r: Vec<Corner>)
    ensures
        r@ == seq![
            Corner { x: area.x, y: area.y, symbol: '\u{231c}' },
            Corner { x: last_cell(area.x, area.width), y: area.y, symbol: '\u{231d}' },
            Corner { x: area.x, y: last_cell(area.y, area.height), symbol: '\u{231e}' },
            Corner {
                x: last_cell(area.x, area.width),
                y: last_cell(area.y, area.height),
                symbol: '\u{231f}',
            },
        ],
{
    let right: u16 = last_cell_of(area.x, area.width);
    let bottom: u16 = last_cell_of(area.y, area.height);
    let mut r: Vec<Corner> = Vec::new();
    r.push(Corner { x: area.x, y: area.y, symbol: '\u{231c}' });
    r.push(Corner { x: right, y: area.y, symbol: '\u{231d}' });
    r.push(Corner { x: area.x, y: bottom, symbol: '\u{231e}' });
    r.push(Corner { x: right, y: bottom, symbol: '\u{231f}' });
    r
}

/// The name on the frame.
pub fn brand(model: &AppModel) -> (r: Span)
    ensures
        r@ == painted(" JOI "@, model.theme.accent),
{
    paint(" JOI ", model.theme.accent)
}

/// A rule of the given width.
pub fn divider(width: u16) -> (r: Span)
    ensures
        r@ == painted(Seq::new(width as nat, |i: int| '\u{2500}'), Tone::LineSoft.shade()),
{
    let mut text: String = String::new();
    let mut i: u16 = 0;
    while i < width
        invariant
            i <= width,
            text@ =~= Seq::new(i as nat, |k: int| '\u{2500}'),
        decreases width - i,
    {
        text.push('\u{2500}');
        i = i + 1;
    }
    assert(text@ =~= Seq::new(width as nat, |i: int| '\u{2500}'));
    Span { text, color: Some(Tone::LineSoft.color()) }
}

/// The keys and what they do.
pub open spec fn help_table() -> Seq<(Seq<char>, Seq<char>)> {
    seq![
        ("F2"@, "start / stop session"@),
        ("F3"@, "mute / unmute mic"@),
        ("F4"@, "share / stop screen"@),
        ("Enter"@, "send message"@),
        ("PgUp / PgDn"@, "scroll (or mouse wheel)"@),
        ("Home / End"@, "oldest / newest"@),
        ("F1 / Esc"@, "toggle help / clear"@),
        ("Ctrl+C / Ctrl+Q"@, "quit"@),
    ]
}

/// How wide the keys stand in the help.
pub const HELP_KEY_WIDTH: usize = 17;

/// A text filled up with spaces to a width.
pub open spec fn filled(text: Seq<char>, width: int) -> Seq<char> {
    if text.len() < width {
        text + Seq::new((width - text.len()) as nat, |i: int| ' ')
    } else {
        text
    }
}

fn fill(text: &str, width: usize) -> (r: String)
    ensures
        r@ == filled(text@, width as int),
{
    let chars: Vec<char> = crate::text::to_chars(text);
    let mut out: String = text.to_owned();
    let mut n: usize = chars.len();
    let ghost total = chars.len() as int;
    while n < width
        invariant
            total == text@.len(),
            n >= total,
            n <= width || n == total,
            out@ =~= text@ + Seq::new((n - total) as nat, |i: int| ' '),
        decreases width - n,
    {
        out.push(' ');
        n = n + 1;
    }
    assert(total >= width ==> out@ =~= text@);
    assert(out@ =~= filled(text@, width as int));
    out
}

/// A row of the help: the key, filled up, and what it does.
pub open spec fn help_row(key: Seq<char>, does: Seq<char>, accent: Color) -> Seq<SpanView> {
    seq![
        painted(" "@ + filled(key, HELP_KEY_WIDTH as int), accent),
        painted(does, Tone::FgDim.shade()),
    ]
}

fn help_row_of(key: &str, does: &str, accent: Color) -> (r: Vec<Span>)
    ensures
        crate::text::views(r@) == help_row(key@, does@, accent),
{
    let k: String = fill(key, HELP_KEY_WIDTH);
    let padded: String = crate::text::join2(" ", k.as_str());
    let mut r: Vec<Span> = Vec::new();
    r.push(paint(padded.as_str(), accent));
    r.push(paint(does, Tone::FgDim.color()));
    assert(crate::text::views(r@) =~= help_row(key@, does@, accent));
    r
}

/// The rows of the help, as views.
pub open spec fn row_views(rows: Seq<Vec<Span>>) -> Seq<Seq<SpanView>> {
    rows.map_values(|r: Vec<Span>| crate::text::views(r@))
}

/// The rows of the help.
pub fn help_rows(accent: Color) -> (r: Vec<Vec<Span>>)
    ensures
        row_views(r@) == help_table().map_values(
            |k: (Seq<char>, Seq<char>)| help_row(k.0, k.1, accent),
        ),
{
    let mut r: Vec<Vec<Span>> = Vec::new();
    r.push(help_row_of("F2", "start / stop session", accent));
    r.push(help_row_of("F3", "mute / unmute mic", accent));
    r.push(help_row_of("F4", "share / stop screen", accent));
    r.push(help_row_of("Enter", "send message", accent));
    r.push(help_row_of("PgUp / PgDn", "scroll (or mouse wheel)", accent));
    r.push(help_row_of("Home / End", "oldest / newest", accent));
    r.push(help_row_of("F1 / Esc", "toggle help / clear", accent));
    r.push(help_row_of("Ctrl+C / Ctrl+Q", "quit", accent));
    assert(row_views(r@) =~= help_table().map_values(
        |k: (Seq<char>, Seq<char>)| help_row(k.0, k.1, accent),
    ));
    r
}

/// The row of controls: the session, the microphone and the screen, each as it stands.
pub open spec fn controls_spans(m: ModelView) -> Seq<SpanView> {
    let running = super::app::is_live(m.state);
    seq![
        if running {
            painted("F2 \u{25a0} stop"@, Tone::Danger.shade())
        } else {
            painted("F2 \u{25b6} start"@, m.theme.accent)
        },
        plain("    "@),
        if m.mic_muted {
            painted("F3 \u{2298} muted"@, Tone::Danger.shade())
        } else {
            painted("F3 \u{25cf} mic"@, Tone::FgDim.shade())
        },
        plain("    "@),
        painted(
            if m.sharing {
                "F4 \u{25c9} sharing"@
            } else {
                "F4 \u{25a3} share"@
            },
            if !running {
                Tone::FgFaint.shade()
            } else if m.sharing {
                m.theme.accent
            } else {
                Tone::FgDim.shade()
            },
        ),
    ]
}

/// The row of controls.
pub fn controls_line(model: &AppModel) -> (r: Vec<Span>)
    ensures
        crate::text::views(r@) == controls_spans(model@),
{
    let running: bool = model.is_running();
    let mut r: Vec<Span> = Vec::new();
    r.push(
        if running {
            paint("F2 \u{25a0} stop", Tone::Danger.color())
        } else {
            paint("F2 \u{25b6} start", model.theme.accent)
        },
    );
    r.push(bare("    "));
    r.push(
        if model.mic_muted {
            paint("F3 \u{2298} muted", Tone::Danger.color())
        } else {
            paint("F3 \u{25cf} mic", Tone::FgDim.color())
        },
    );
    r.push(bare("    "));
    let color: Color = if !running {
        Tone::FgFaint.color()
    } else if model.sharing {
        model.theme.accent
    } else {
        Tone::FgDim.color()
    };
    r.push(
        if model.sharing {
            paint("F4 \u{25c9} sharing", color)
        } else {
            paint("F4 \u{25a3} share", color)
        },
    );
    assert(crate::text::views(r@) =~= controls_spans(model@));
    r
}

/// A lifecycle state in a word.
pub open spec fn state_word(state: AppState) -> Seq<char> {
    match state {
        AppState::Stopped => "stopped"@,
        AppState::Connecting => "connecting"@,
        AppState::Listening => "listening"@,
        AppState::Thinking => "thinking"@,
        AppState::Speaking => "speaking"@,
        AppState::Reconnecting => "reconnecting"@,
        AppState::Error => "error"@,
    }
}

/// A lifecycle state in a word.
pub fn state_label(state: AppState) -> (r: &'static str)
    ensures
        r@ == state_word(state),
{
    match state {
        AppState::Stopped => "stopped",
        AppState::Connecting => "connecting",
        AppState::Listening => "listening",
        AppState::Thinking => "thinking",
        AppState::Speaking => "speaking",
        AppState::Reconnecting => "reconnecting",
        AppState::Error => "error",
    }
}

/// A connection status in a word.
pub open spec fn connection_word(status: ConnectionStatus) -> Seq<char> {
    match status {
        ConnectionStatus::Disconnected => "disconnected"@,
        ConnectionStatus::Connecting => "connecting"@,
        ConnectionStatus::Connected => "connected"@,
        ConnectionStatus::Reconnecting => "reconnecting"@,
    }
}

/// A connection status in a word.
pub fn connection_label(status: ConnectionStatus) -> (r: &'static str)
    ensures
        r@ == connection_word(status),
{
    match status {
        ConnectionStatus::Disconnected => "disconnected",
        ConnectionStatus::Connecting => "connecting",
        ConnectionStatus::Connected => "connected",
        ConnectionStatus::Reconnecting => "reconnecting",
    }
}

/// The color and the words for whether the provider can be reached.
pub open spec fn reachability_shown(reachability: Reachability, accent: Color) -> (Color, Seq<char>) {
    match reachability {
        Reachability::Online => (accent, "online"@),
        Reachability::Checking => (Tone::Warn.shade(), "checking\u{2026}"@),
        Reachability::Offline => (Tone::Danger.shade(), "offline"@),
        Reachability::Unauthorized => (Tone::Danger.shade(), "key rejected"@),
        Reachability::Unknown => (Tone::FgFaint.shade(), "\u{2014}"@),
    }
}

/// The color and the words for whether the provider can be reached.
pub fn reachability_display(reachability: Reachability, accent: Color) -> (r: (Color, &'static str))
    ensures
        (r.0, r.1@) == reachability_shown(reachability, accent),
{
    match reachability {
        Reachability::Online => (accent, "online"),
        Reachability::Checking => (Tone::Warn.color(), "checking\u{2026}"),
        Reachability::Offline => (Tone::Danger.color(), "offline"),
        Reachability::Unauthorized => (Tone::Danger.color(), "key rejected"),
        Reachability::Unknown => (Tone::FgFaint.color(), "\u{2014}"),
    }
}

/// The status line: the dot and the state.
pub open spec fn status_spans(m: ModelView) -> Seq<SpanView> {
    seq![
        painted("\u{25cf}"@, super::theme::dot_color(m.state, m.tick, m.theme.accent)),
        plain(" "@),
        painted(state_word(m.state), super::theme::color_of_state(m.state, m.theme.accent)),
    ]
}

/// The status line.
pub fn status_line(model: &AppModel) -> (r: Vec<Span>)
    ensures
        crate::text::views(r@) == status_spans(model@),
{
    let mut r: Vec<Span> = Vec::new();
    r.push(
        paint(
            "\u{25cf}",
            super::theme::status_dot(model.state, model.tick, model.theme.accent),
        ),
    );
    r.push(bare(" "));
    r.push(
        paint(
            state_label(model.state),
            super::theme::state_color(model.state, model.theme.accent),
        ),
    );
    assert(crate::text::views(r@) =~= status_spans(model@));
    r
}

/// A number below a hundred in two digits, any other in as many as it takes.
pub open spec fn two_digits(n: nat) -> Seq<char> {
    if n < 10 {
        "0"@ + crate::text::decimal(n)
    } else {
        crate::text::decimal(n)
    }
}

fn write_two_digits(n: u64) -> (r: String)
    ensures
        r@ == two_digits(n as nat),
{
    let d: String = crate::text::to_decimal(n);
    if n < 10 {
        crate::text::join2("0", d.as_str())
    } else {
        d
    }
}

/// Hours, minutes and seconds.
pub open spec fn clock_text(secs: nat) -> Seq<char> {
    two_digits(secs / 3600) + ":"@ + two_digits((secs % 3600) / 60) + ":"@ + two_digits(secs % 60)
}

/// How long the session has run, from when it began and what time it is, both in milliseconds.
pub open spec fn uptime_text(started_at: Option<u64>, now: u64) -> Seq<char> {
    match started_at {
        Some(start) => clock_text(
            if now >= start {
                ((now - start) / 1000) as nat
            } else {
                0
            },
        ),
        None => "--:--:--"@,
    }
}

/// How long the session has run.
pub fn format_uptime(started_at: Option<u64>, now: u64) -> (r: String)
    ensures
        r@ == uptime_text(started_at, now),
{
    match started_at {
        Some(start) => {
            let secs: u64 = if now >= start {
                (now - start) / 1000
            } else {
                0
            };
            let h: String = write_two_digits(secs / 3600);
            let m: String = write_two_digits((secs % 3600) / 60);
            let s: String = write_two_digits(secs % 60);
            let hm: String = crate::text::join3(h.as_str(), ":", m.as_str());
            crate::text::join3(hm.as_str(), ":", s.as_str())
        },
        None => "--:--:--".to_owned(),
    }
}

/// A throughput sample as written numbers: kilobits with one decimal, tokens with none.
#[derive(Debug, PartialEq, Eq)]
pub struct Figures {
    /// Kilobits per second, up.
    pub up_kbps: String,
    /// Kilobits per second, down.
    pub down_kbps: String,
    /// Tokens per second, up.
    pub up_tokens: String,
    /// Tokens per second, down.
    pub down_tokens: String,
}

/// The throughput: the figures of a sample, or dashes.
pub open spec fn throughput_text(figures: Option<Figures>) -> Seq<char> {
    match figures {
        Some(f) => "\u{2191}"@ + f.up_kbps@ + " \u{2193}"@ + f.down_kbps@
            + " kb/s \u{b7} \u{2191}"@ + f.up_tokens@ + " \u{2193}"@ + f.down_tokens@ + " tok/s"@,
        None => "\u{2191}--.- \u{2193}--.- kb/s \u{b7} \u{2191}-- \u{2193}-- tok/s"@,
    }
}

/// The throughput.
pub fn metrics_text(figures: &Option<Figures>) -> (r: String)
    ensures
        r@ == throughput_text(*figures),
{
    match figures {
        Some(f) => {
            let mut out: String = "\u{2191}".to_owned();
            out.append(f.up_kbps.as_str());
            out.append(" \u{2193}");
            out.append(f.down_kbps.as_str());
            out.append(" kb/s \u{b7} \u{2191}");
            out.append(f.up_tokens.as_str());
            out.append(" \u{2193}");
            out.append(f.down_tokens.as_str());
            out.append(" tok/s");
            out
        },
        None => "\u{2191}--.- \u{2193}--.- kb/s \u{b7} \u{2191}-- \u{2193}-- tok/s".to_owned(),
    }
}

/// The bottom line: without a key, how to get one; else a dot for the connection of a live session,
/// or for whether the provider can be reached, and then uptime and throughput.
pub open spec fn footer_spans(m: ModelView, now: u64, figures: Option<Figures>) -> Seq<SpanView> {
    if !m.has_key {
        seq![
            painted("\u{25cf} no API key \u{2014} set GEMINI_API_KEY"@, Tone::Danger.shade()),
        ]
    } else {
        let shown = if super::app::is_live(m.state) {
            (
                super::theme::color_of_connection(m.connection, m.theme.accent),
                connection_word(m.connection),
            )
        } else {
            reachability_shown(m.reachability, m.theme.accent)
        };
        seq![
            painted("\u{25cf}"@, shown.0),
            plain(" "@),
            painted(shown.1, Tone::FgFaint.shade()),
            painted("    \u{2191} "@, Tone::FgFaint.shade()),
            painted(uptime_text(m.started_at, now), Tone::FgDim.shade()),
            painted("    "@ + throughput_text(figures), Tone::FgFaint.shade()),
        ]
    }
}

/// The bottom line, at a time in milliseconds, with the written figures of the latest sample.
pub fn footer_line(model: &AppModel, now: u64, figures: &Option<Figures>) -> (r: Vec<Span>)
    ensures
        crate::text::views(r@) == footer_spans(model@, now, *figures),
{
    let mut r: Vec<Span> = Vec::new();
    if !model.has_key {
        r.push(paint("\u{25cf} no API key \u{2014} set GEMINI_API_KEY", Tone::Danger.color()));
        assert(crate::text::views(r@) =~= footer_spans(model@, now, *figures));
        return r;
    }
    let (color, label): (Color, &str) = if model.is_running() {
        (
            super::theme::connection_color(model.connection, model.theme.accent),
            connection_label(model.connection),
        )
    } else {
        reachability_display(model.reachability, model.theme.accent)
    };
    r.push(paint("\u{25cf}", color));
    r.push(bare(" "));
    r.push(paint(label, Tone::FgFaint.color()));
    r.push(paint("    \u{2191} ", Tone::FgFaint.color()));
    let uptime: String = format_uptime(model.started_at, now);
    r.push(paint(uptime.as_str(), Tone::FgDim.color()));
    let figures_text: String = metrics_text(figures);
    let padded: String = crate::text::join2("    ", figures_text.as_str());
    r.push(paint(padded.as_str(), Tone::FgFaint.color()));
    assert(crate::text::views(r@) =~= footer_spans(model@, now, *figures));
    r
}

/// The color of a line.
pub open spec fn color_of_kind(kind: LineKind, accent: Color) -> Color {
    match kind {
        LineKind::User => accent,
        LineKind::Agent => Tone::Fg.shade(),
        LineKind::Error => Tone::Danger.shade(),
    }
}

/// The color of a line.
pub fn kind_color(kind: LineKind, accent: Color) -> (r: Color)
    ensures
        r == color_of_kind(kind, accent),
{
    match kind {
        LineKind::User => accent,
        LineKind::Agent => Tone::Fg.color(),
        LineKind::Error => Tone::Danger.color(),
    }
}

/// The columns of a character, as `UnicodeWidthChar::width` has them: none for a control character.
pub uninterp spec fn char_columns_of(c: char) -> Option<usize>;

/// `UnicodeWidthChar::width`: the display columns of a character, or nothing for a control
/// character. Which it is is left to the name.
#[verifier::external_body]
fn char_columns(c: char) -> (r: Option<usize>)
    ensures
        r == char_columns_of(c),
{
    unicode_width::UnicodeWidthChar::width(c)
}

/// The columns of a text's characters; a control character takes none.
pub open spec fn widths_of(text: Seq<char>) -> Seq<usize> {
    text.map_values(
        |c: char|
            match char_columns_of(c) {
                Some(w) => w,
                None => 0,
            },
    )
}

/// The characters from `k` on that a window shows, where `col` columns stand before them: what ends
/// before the window is passed over, what begins behind it ends the text, and what straddles an edge
/// of it is dropped.
pub open spec fn window_of(
    text: Seq<char>,
    widths: Seq<usize>,
    start: int,
    width: int,
    k: int,
    col: int,
) -> Seq<char>
    decreases text.len() - k,
{
    if k < 0 || k >= text.len() {
        Seq::empty()
    } else {
        let next = col + widths[k];
        if next <= start {
            window_of(text, widths, start, width, k + 1, next)
        } else if col >= start + width {
            Seq::empty()
        } else if col < start || next > start + width {
            window_of(text, widths, start, width, k + 1, next)
        } else {
            seq![text[k]] + window_of(text, widths, start, width, k + 1, next)
        }
    }
}

/// The columns of a text's characters together.
pub open spec fn total_columns(text: Seq<char>) -> int
    decreases text.len(),
{
    if text.len() == 0 {
        0
    } else {
        widths_of(text)[0] + total_columns(text.drop_first())
    }
}

proof fn lemma_window_fits(text: Seq<char>, start: int, width: int, k: int, col: int)
    requires
        0 <= k,
        0 <= width,
    ensures
        total_columns(window_of(text, widths_of(text), start, width, k, col)) <= if col >= start
            + width {
            0
        } else if col >= start {
            start + width - col
        } else {
            width
        },
    decreases text.len() - k,
{
    if k < text.len() {
        let next = col + widths_of(text)[k];
        lemma_window_fits(text, start, width, k + 1, next);
        if start <= col && start < next <= start + width && col < start + width {
            let rest = window_of(text, widths_of(text), start, width, k + 1, next);
            let shown = seq![text[k]] + rest;
            assert(shown.drop_first() =~= rest);
            assert(widths_of(shown)[0] == widths_of(text)[k]);
        }
    }
}

/// What a window shows of a text never takes more columns than the window has.
pub proof fn law_window_fits(text: Seq<char>, start: nat, width: nat)
    ensures
        total_columns(window_of(text, widths_of(text), start as int, width as int, 0, 0)) <= width,
{
    lemma_window_fits(text, start as int, width as int, 0, 0);
}

/// The part of a text that a window of columns shows, given the columns of each character.
pub fn slice_with_widths(chars: &[char], widths: &[usize], start: usize, width: usize) -> (r: String)
    requires
        chars@.len() == widths@.len(),
    ensures
        r@ == window_of(chars@, widths@, start as int, width as int, 0, 0),
{
    let mut out: String = String::new();
    let mut col: u128 = 0;
    let mut k: usize = 0;
    let total: usize = chars.len();
    let ghost whole = window_of(chars@, widths@, start as int, width as int, 0, 0);
    assert(out@ + whole =~= whole);
    while k < total
        invariant
            k <= total == chars@.len(),
            chars@.len() == widths@.len(),
            col <= k * usize::MAX,
            whole == window_of(chars@, widths@, start as int, width as int, 0, 0),
            whole == out@ + window_of(
                chars@,
                widths@,
                start as int,
                width as int,
                k as int,
                col as int,
            ),
        decreases total - k,
    {
        let w: usize = widths[k];
        assert(col + w <= (k + 1) * usize::MAX) by (nonlinear_arith)
            requires
                col <= k * usize::MAX,
                w <= usize::MAX,
        ;
        assert((k + 1) * usize::MAX <= u128::MAX) by (nonlinear_arith)
            requires
                k + 1 <= usize::MAX,
                usize::MAX <= 0xffff_ffff_ffff_ffff,
        ;
        let next: u128 = col + w as u128;
        if next <= start as u128 {
            col = next;
        } else if col >= start as u128 + width as u128 {
            proof {
                assert(out@ + Seq::<char>::empty() =~= out@);
            }
            return out;
        } else if col < start as u128 || next > start as u128 + width as u128 {
            col = next;
        } else {
            let ghost before = out@;
            let ghost rest = window_of(
                chars@,
                widths@,
                start as int,
                width as int,
                k + 1,
                next as int,
            );
            out.push(chars[k]);
            assert(before + (seq![chars@[k as int]] + rest) =~= out@ + rest);
            col = next;
        }
        k = k + 1;
    }
    assert(out@ + Seq::<char>::empty() =~= out@);
    out
}

/// The part of a text that a window of columns shows.
pub fn slice_by_cols(s: &str, start: usize, width: usize) -> (r: String)
    ensures
        r@ == window_of(s@, widths_of(s@), start as int, width as int, 0, 0),
{
    let chars: Vec<char> = crate::text::to_chars(s);
    let mut widths: Vec<usize> = Vec::new();
    let mut i: usize = 0;
    while i < chars.len()
        invariant
            i <= chars.len(),
            chars@ == s@,
            widths@ =~= widths_of(s@).take(i as int),
        decreases chars.len() - i,
    {
        let w: usize = match char_columns(chars[i]) {
            Some(w) => w,
            None => 0,
        };
        widths.push(w);
        i = i + 1;
    }
    assert(widths@ =~= widths_of(s@));
    slice_with_widths(chars.as_slice(), widths.as_slice(), start, width)
}

/// The columns of the chevron before the prompt.
pub const CHEVRON_COLS: u16 = 2;

/// How many columns of the prompt are scrolled out on the left, so that the caret stays in view.
pub open spec fn prompt_scroll(caret_col: int, avail: int) -> int {
    if caret_col >= avail {
        caret_col - (avail - 1)
    } else {
        0
    }
}

/// Where the prompt's caret stands, and how far the prompt is scrolled.
#[derive(Debug, Clone, Copy, PartialEq, Eq, Structural)]
pub struct PromptPlace {
    /// Columns scrolled out on the left.
    pub scroll: usize,
    /// Columns that the text has.
    pub avail: usize,
    /// The caret's column in the prompt's area.
    pub cursor: u16,
}

/// Where the caret stands in an area of the given width, from the columns before it. An area that
/// has room only for the chevron has no prompt.
pub fn place_prompt(caret_col: usize, width: u16) -> (r: Option<PromptPlace>)
    ensures
        r is Some == (width > CHEVRON_COLS),
        r is Some ==> ({
            let p = r->0;
            &&& p.avail == width - CHEVRON_COLS
            &&& p.scroll == prompt_scroll(caret_col as int, p.avail as int)
            &&& p.cursor == CHEVRON_COLS + (caret_col - p.scroll)
            &&& p.cursor < width
        }),
{
    if width <= CHEVRON_COLS {
        return None;
    }
    let avail: usize = (width - CHEVRON_COLS) as usize;
    let scroll: usize = if caret_col >= avail {
        caret_col - (avail - 1)
    } else {
        0
    };
    let cursor: u16 = CHEVRON_COLS + (caret_col - scroll) as u16;
    Some(PromptPlace { scroll, avail, cursor })
}

/// The prompt as it stands in its area.
#[derive(Debug, PartialEq, Eq)]
pub struct PromptView {
    /// The part of the text that is shown.
    pub visible: String,
    /// The caret's column in the area.
    pub cursor: u16,
}

/// The prompt as it stands in an area of the given width, or nothing where there is no room.
pub fn prompt_view(model: &AppModel, width: u16) -> (r: Option<PromptView>)
    requires
        model.wf(),
    ensures
        r is Some == (width > CHEVRON_COLS),
        r is Some ==> ({
            let v = model@.input;
            let col = super::input::columns_of(v.text.take(v.at)) as int;
            let avail = width - CHEVRON_COLS;
            let scroll = prompt_scroll(col, avail);
            &&& r->0.visible@ == window_of(v.text, widths_of(v.text), scroll, avail, 0, 0)
            &&& r->0.cursor == CHEVRON_COLS + (col - scroll)
        }),
{
    let col: usize = model.input.caret_display_col();
    match place_prompt(col, width) {
        None => None,
        Some(p) => Some(
            PromptView {
                visible: slice_by_cols(model.input.value(), p.scroll, p.avail),
                cursor: p.cursor,
            },
        ),
    }
}

/// The line of the prompt: the chevron, and the part of the text that is shown. An empty prompt is
/// the chevron alone.
pub fn prompt_line(model: &AppModel, visible: &str) -> (r: Vec<Span>)
    ensures
        crate::text::views(r@) == seq![
            painted("\u{276f} "@, model.theme.accent),
            painted(visible@, Tone::Fg.shade()),
        ],
{
    let mut r: Vec<Span> = Vec::new();
    r.push(paint("\u{276f} ", model.theme.accent));
    r.push(paint(visible, Tone::Fg.color()));
    assert(crate::text::views(r@) =~= seq![
        painted("\u{276f} "@, model.theme.accent),
        painted(visible@, Tone::Fg.shade()),
    ]);
    r
}

/// A row of the conversation: a piece of a line, or a blank.
#[derive(Debug, PartialEq, Eq)]
pub struct Row {
    /// Whose line it is, or nothing for a blank.
    pub kind: Option<LineKind>,
    /// The text.
    pub text: String,
}

/// A [`Row`] with its text as a sequence of characters.
pub struct RowView {
    /// Whose line it is.
    pub kind: Option<LineKind>,
    /// The text.
    pub text: Seq<char>,
}

impl View for Row {
    type V = RowView;

    open spec fn view(&self) -> RowView {
        RowView { kind: self.kind, text: self.text@ }
    }
}

/// The lines that a text is wrapped into, as `textwrap::wrap` has them.
pub uninterp spec fn wrapped_at(text: Seq<char>, width: usize) -> Seq<Seq<char>>;

/// `textwrap::wrap` with a width: the text cut into lines that fit. Where it is cut is left to the
/// name.
#[verifier::external_body]
fn wrap(text: &str, width: usize) -> (r: Vec<String>)
    requires
        width > 0,
    ensures
        crate::text::views(r@) == wrapped_at(text@, width),
{
    textwrap::wrap(text, width).into_iter().map(|piece| piece.into_owned()).collect()
}

/// The rows of one line.
pub open spec fn piece_rows(kind: LineKind, pieces: Seq<Seq<char>>) -> Seq<RowView> {
    pieces.map_values(|p: Seq<char>| RowView { kind: Some(kind), text: p })
}

/// The blank row.
pub open spec fn blank() -> RowView {
    RowView { kind: None, text: Seq::empty() }
}

/// The rows of the first lines: the pieces of each, with a blank row wherever the speaker changes.
pub open spec fn rows_upto(kinds: Seq<LineKind>, pieces: Seq<Seq<Seq<char>>>, n: int) -> Seq<RowView>
    decreases n,
{
    if n <= 0 {
        Seq::empty()
    } else {
        let before = rows_upto(kinds, pieces, n - 1);
        let gap = if n >= 2 && kinds[n - 2] != kinds[n - 1] {
            seq![blank()]
        } else {
            Seq::empty()
        };
        before + gap + piece_rows(kinds[n - 1], pieces[n - 1])
    }
}

/// The views of wrapped lines.
pub open spec fn piece_views(pieces: Seq<Vec<String>>) -> Seq<Seq<Seq<char>>> {
    pieces.map_values(|p: Vec<String>| crate::text::views(p@))
}

/// The rows of lines that were wrapped already.
pub fn rows_of(kinds: &[LineKind], pieces: &[Vec<String>]) -> (r: Vec<Row>)
    requires
        kinds@.len() == pieces@.len(),
    ensures
        crate::text::views(r@) == rows_upto(kinds@, piece_views(pieces@), kinds@.len() as int),
{
    let ghost all = piece_views(pieces@);
    let mut rows: Vec<Row> = Vec::new();
    let mut i: usize = 0;
    assert(crate::text::views(rows@) =~= Seq::empty());
    while i < kinds.len()
        invariant
            i <= kinds@.len() == pieces@.len(),
            all == piece_views(pieces@),
            crate::text::views(rows@) == rows_upto(kinds@, all, i as int),
        decreases kinds@.len() - i,
    {
        let ghost before = crate::text::views(rows@);
        let ghost mut gap: Seq<RowView> = Seq::empty();
        if i > 0 && kinds[i - 1] != kinds[i] {
            rows.push(Row { kind: None, text: String::new() });
            proof {
                gap = seq![blank()];
                assert(rows@.last()@.text =~= Seq::empty());
            }
        }
        assert(crate::text::views(rows@) =~= before + gap);
        let kind: LineKind = kinds[i];
        let ghost mine = all[i as int];
        assert(mine == crate::text::views(pieces@[i as int]@));
        let mut j: usize = 0;
        while j < pieces[i].len()
            invariant
                i < pieces@.len(),
                j <= pieces@[i as int]@.len(),
                mine == crate::text::views(pieces@[i as int]@),
                crate::text::views(rows@) == before + gap + piece_rows(kind, mine.take(j as int)),
            decreases pieces@[i as int]@.len() - j,
        {
            let ghost now = crate::text::views(rows@);
            let text: String = pieces[i][j].clone();
            rows.push(Row { kind: Some(kind), text });
            proof {
                let row = RowView { kind: Some(kind), text: mine[j as int] };
                assert(crate::text::views(rows@) =~= now.push(row));
                assert(piece_rows(kind, mine.take(j + 1)) =~= piece_rows(
                    kind,
                    mine.take(j as int),
                ).push(row));
                assert(crate::text::views(rows@) =~= before + gap + piece_rows(
                    kind,
                    mine.take(j + 1),
                ));
            }
            j = j + 1;
        }
        assert(mine.take(j as int) =~= mine);
        i = i + 1;
    }
    rows
}

/// The kinds of lines.
pub open spec fn kinds_of(entries: Seq<EntryView>) -> Seq<LineKind> {
    entries.map_values(|e: EntryView| e.kind)
}

/// Lines wrapped at a width.
pub open spec fn wrapped_lines(entries: Seq<EntryView>, width: usize) -> Seq<Seq<Seq<char>>> {
    entries.map_values(|e: EntryView| wrapped_at(e.text, width))
}

/// The rows of the conversation at a width.
pub open spec fn conversation_rows(entries: Seq<EntryView>, width: usize) -> Seq<RowView> {
    rows_upto(kinds_of(entries), wrapped_lines(entries, width), entries.len() as int)
}

/// The rows of the conversation at a width.
pub fn transcript_rows(entries: &[Entry], width: usize) -> (r: Vec<Row>)
    requires
        width > 0,
    ensures
        crate::text::views(r@) == conversation_rows(crate::text::views(entries@), width),
{
    let ghost views = crate::text::views(entries@);
    let mut kinds: Vec<LineKind> = Vec::new();
    let mut pieces: Vec<Vec<String>> = Vec::new();
    let mut i: usize = 0;
    while i < entries.len()
        invariant
            i <= entries.len(),
            width > 0,
            views == crate::text::views(entries@),
            kinds@ =~= kinds_of(views).take(i as int),
            piece_views(pieces@) =~= wrapped_lines(views, width).take(i as int),
        decreases entries.len() - i,
    {
        let ghost before = piece_views(pieces@);
        kinds.push(entries[i].kind);
        let p: Vec<String> = wrap(entries[i].text.as_str(), width);
        pieces.push(p);
        proof {
            let e = views[i as int];
            assert(e == entries@[i as int]@);
            assert(piece_views(pieces@) =~= before.push(wrapped_at(e.text, width)));
            assert(wrapped_lines(views, width).take(i + 1) =~= wrapped_lines(views, width).take(
                i as int,
            ).push(wrapped_at(e.text, width)));
        }
        i = i + 1;
    }
    assert(kinds@ =~= kinds_of(views));
    assert(piece_views(pieces@) =~= wrapped_lines(views, width));
    rows_of(kinds.as_slice(), pieces.as_slice())
}

/// The lowest row that can stand on top when `height` of `total` rows are shown.
pub open spec fn lowest_top(total: int, height: int) -> int {
    if total >= height {
        total - height
    } else {
        0
    }
}

/// The row that stands on top: the lowest where the view follows the newest line, or else the one
/// where the view stands, but not below the lowest.
pub open spec fn top_row(m: ModelView, total: int, height: int) -> int {
    let max_top = lowest_top(total, height);
    if m.follow || m.transcript_top as int >= max_top {
        max_top
    } else {
        m.transcript_top as int
    }
}

/// Place the view over `total` rows of which `height` are shown, and give the row that stands on
/// top. A view that reached the newest line follows it from then on.
pub fn place_transcript(model: &mut AppModel, total: usize, height: u16) -> (r: usize)
    requires
        old(model).wf(),
    ensures
        final(model).wf(),
        r == top_row(old(model)@, total as int, height as int),
        final(model)@ == (ModelView {
            transcript_page: height,
            transcript_top: r as u16,
            follow: old(model)@.follow || r == lowest_top(total as int, height as int),
            ..old(model)@
        }),
{
    let max_top: usize = if total >= height as usize {
        total - height as usize
    } else {
        0
    };
    model.transcript_page = height;
    let top: usize = if model.follow || model.transcript_top as usize >= max_top {
        model.follow = true;
        max_top
    } else {
        model.transcript_top as usize
    };
    model.transcript_top = top as u16;
    top
}

/// The rows that are shown, from the top one on.
pub fn visible_rows(rows: &[Row], top: usize, height: usize) -> (r: &[Row])
    ensures
        r@ == ({
            let all = rows@;
            if top >= all.len() {
                Seq::empty()
            } else if all.len() - top <= height {
                all.skip(top as int)
            } else {
                all.subrange(top as int, top + height)
            }
        }),
{
    let total: usize = rows.len();
    if top >= total {
        let none: &[Row] = vstd::slice::slice_subrange(rows, total, total);
        assert(none@ =~= Seq::empty());
        return none;
    }
    let end: usize = if total - top <= height {
        total
    } else {
        top + height
    };
    let shown: &[Row] = vstd::slice::slice_subrange(rows, top, end);
    assert(total - top <= height ==> shown@ =~= rows@.skip(top as int));
    shown
}

/// A view that follows shows the newest rows: the last of them is the last that is shown.
pub proof fn law_following_shows_the_newest(m: ModelView, total: int, height: int)
    requires
        m.follow,
        total > 0,
        height > 0,
    ensures
        top_row(m, total, height) <= total - 1 < top_row(m, total, height) + height,
{
}

/// Rows of one speaker follow each other without a blank: a blank stands only where the speaker
/// changes.
pub proof fn law_no_blank_within_a_speaker(
    kinds: Seq<LineKind>,
    pieces: Seq<Seq<Seq<char>>>,
    n: int,
    i: int,
)
    requires
        0 <= n <= kinds.len(),
        kinds.len() == pieces.len(),
        forall|a: int, b: int| 0 <= a < b < n ==> #[trigger] kinds[a] == #[trigger] kinds[b],
        0 <= i < rows_upto(kinds, pieces, n).len(),
    ensures
        rows_upto(kinds, pieces, n)[i].kind is Some,
    decreases n,
{
    if n > 0 {
        let before = rows_upto(kinds, pieces, n - 1);
        if n >= 2 {
            assert(kinds[n - 2] == kinds[n - 1]);
        }
        assert(rows_upto(kinds, pieces, n) =~= before + piece_rows(kinds[n - 1], pieces[n - 1]));
        if i < before.len() {
            law_no_blank_within_a_speaker(kinds, pieces, n - 1, i);
        }
    }
}

/// Where the speaker changes, a blank row stands before the new speaker's first row.
pub proof fn law_blank_between_speakers(kinds: Seq<LineKind>, pieces: Seq<Seq<Seq<char>>>, n: int)
    requires
        2 <= n <= kinds.len(),
        kinds.len() == pieces.len(),
        kinds[n - 2] != kinds[n - 1],
    ensures
        rows_upto(kinds, pieces, n)[rows_upto(kinds, pieces, n - 1).len() as int] == blank(),
{
}

/// The caret of the prompt is always in view.
pub proof fn law_caret_is_in_view(caret_col: int, avail: int)
    requires
        0 <= caret_col,
        0 < avail,
    ensures
        0 <= prompt_scroll(caret_col, avail) <= caret_col,
        caret_col - prompt_scroll(caret_col, avail) < avail,
{
}

/// What is centered has as much room before it as behind it, but for one cell; what does not fit begins
/// at the edge and is cut.
pub proof fn law_centered(have: u16, want: u16)
    ensures
        have >= want ==> have - want - centered_at(have, want) == centered_at(have, want) || have
            - want - centered_at(have, want) == centered_at(have, want) + 1,
        have < want ==> centered_at(have, want) == 0,
        smaller(have, want) <= have && smaller(have, want) <= want,
        smaller(have, want) == have || smaller(have, want) == want,
{
}

/// The last cell of a stretch is the one before its end.
pub proof fn law_last_cell(start: u16, len: u16)
    requires
        1 <= len,
        start + len <= u16::MAX,
    ensures
        last_cell(start, len) == start + len - 1,
{
}

/// A text that is filled up is followed by spaces up to the width, and one that is as wide stays.
pub proof fn law_filled_text(text: Seq<char>, width: nat, i: int)
    ensures
        text.len() >= width ==> filled(text, width as int) == text,
        text.len() < width ==> filled(text, width as int).len() == width,
        filled(text, width as int).take(text.len() as int) == text,
        text.len() <= i < width ==> filled(text, width as int)[i] == ' ',
{
    assert(filled(text, width as int).take(text.len() as int) =~= text);
}

/// A row of the help shows the key in the accent, seventeen wide behind a space, and then what it does.
pub proof fn law_row_of_the_help(key: Seq<char>, does: Seq<char>, accent: Color)
    ensures
        help_row(key, does, accent).len() == 2,
        help_row(key, does, accent)[0].color == Some(accent),
        help_row(key, does, accent)[0].text == seq![' '] + filled(key, 17),
        help_row(key, does, accent)[1].text == does,
        help_row(key, does, accent)[1].color == Some(Tone::FgDim.shade()),
        help_table().len() == 8,
        help_table()[0] == ("F2"@, "start / stop session"@),
        help_table()[1] == ("F3"@, "mute / unmute mic"@),
        help_table()[2] == ("F4"@, "share / stop screen"@),
        help_table()[3] == ("Enter"@, "send message"@),
        help_table()[4] == ("PgUp / PgDn"@, "scroll (or mouse wheel)"@),
        help_table()[5] == ("Home / End"@, "oldest / newest"@),
        help_table()[6] == ("F1 / Esc"@, "toggle help / clear"@),
        help_table()[7] == ("Ctrl+C / Ctrl+Q"@, "quit"@),
{
    reveal_strlit(" ");
    assert(" "@ =~= seq![' ']);
}

/// The controls say what each key would do, or how things stand: stop or start, muted or not, shared or
/// not; what is not possible without a session is faint.
pub proof fn law_controls_show_how_things_stand(m: ModelView)
    ensures
        controls_spans(m).len() == 5,
        super::app::is_live(m.state) ==> controls_spans(m)[0] == (SpanView {
            text: "F2 \u{25a0} stop"@,
            color: Some(Tone::Danger.shade()),
        }),
        !super::app::is_live(m.state) ==> controls_spans(m)[0] == (SpanView {
            text: "F2 \u{25b6} start"@,
            color: Some(m.theme.accent),
        }),
        m.mic_muted ==> controls_spans(m)[2] == (SpanView {
            text: "F3 \u{2298} muted"@,
            color: Some(Tone::Danger.shade()),
        }),
        !m.mic_muted ==> controls_spans(m)[2] == (SpanView {
            text: "F3 \u{25cf} mic"@,
            color: Some(Tone::FgDim.shade()),
        }),
        m.sharing ==> controls_spans(m)[4].text == "F4 \u{25c9} sharing"@,
        !m.sharing ==> controls_spans(m)[4].text == "F4 \u{25a3} share"@,
        !super::app::is_live(m.state) ==> controls_spans(m)[4].color == Some(Tone::FgFaint.shade()),
        super::app::is_live(m.state) && m.sharing ==> controls_spans(m)[4].color == Some(
            m.theme.accent,
        ),
        super::app::is_live(m.state) && !m.sharing ==> controls_spans(m)[4].color == Some(
            Tone::FgDim.shade(),
        ),
        controls_spans(m)[1] == (SpanView { text: "    "@, color: None }),
        controls_spans(m)[3] == (SpanView { text: "    "@, color: None }),
{
}

/// The words for the states, the connection and whether the provider can be reached.
pub proof fn law_words_of_states(accent: Color)
    ensures
        state_word(AppState::Stopped) == "stopped"@,
        state_word(AppState::Connecting) == "connecting"@,
        state_word(AppState::Listening) == "listening"@,
        state_word(AppState::Thinking) == "thinking"@,
        state_word(AppState::Speaking) == "speaking"@,
        state_word(AppState::Reconnecting) == "reconnecting"@,
        state_word(AppState::Error) == "error"@,
        connection_word(ConnectionStatus::Disconnected) == "disconnected"@,
        connection_word(ConnectionStatus::Connecting) == "connecting"@,
        connection_word(ConnectionStatus::Connected) == "connected"@,
        connection_word(ConnectionStatus::Reconnecting) == "reconnecting"@,
        reachability_shown(Reachability::Online, accent) == (accent, "online"@),
        reachability_shown(Reachability::Checking, accent) == (
            Tone::Warn.shade(),
            "checking\u{2026}"@,
        ),
        reachability_shown(Reachability::Offline, accent) == (Tone::Danger.shade(), "offline"@),
        reachability_shown(Reachability::Unauthorized, accent) == (
            Tone::Danger.shade(),
            "key rejected"@,
        ),
        reachability_shown(Reachability::Unknown, accent) == (Tone::FgFaint.shade(), "\u{2014}"@),
{
}

/// The status line shows the dot and then the state in a word, each in its color.
pub proof fn law_status_line(m: ModelView)
    ensures
        status_spans(m).len() == 3,
        status_spans(m)[0] == (SpanView {
            text: "\u{25cf}"@,
            color: Some(super::theme::dot_color(m.state, m.tick, m.theme.accent)),
        }),
        status_spans(m)[1] == (SpanView { text: " "@, color: None }),
        status_spans(m)[2] == (SpanView {
            text: state_word(m.state),
            color: Some(super::theme::color_of_state(m.state, m.theme.accent)),
        }),
{
}

/// A time is shown in hours, minutes and seconds, of which the last two are below sixty, each in at least
/// two digits; together they are the seconds that passed.
pub proof fn law_clock_reads_back(h: nat, m: nat, s: nat)
    requires
        m < 60,
        s < 60,
    ensures
        clock_text(3600 * h + 60 * m + s) == two_digits(h) + seq![':'] + two_digits(m) + seq![':']
            + two_digits(s),
        h < 10 ==> two_digits(h) == seq!['0'] + crate::text::decimal(h),
        h >= 10 ==> two_digits(h) == crate::text::decimal(h),
{
    reveal_strlit(":");
    reveal_strlit("0");
    assert(":"@ =~= seq![':'] && "0"@ =~= seq!['0']);
    let secs = 3600 * h + 60 * m + s;
    assert(secs / 3600 == h && secs % 3600 == 60 * m + s);
}

/// A session that runs shows the whole seconds since it began, none where the clock went back; one that
/// does not shows dashes.
pub proof fn law_uptime(start: u64, now: u64)
    ensures
        now >= start ==> uptime_text(Some(start), now) == clock_text(
            ((now - start) as int / 1000) as nat,
        ),
        now < start ==> uptime_text(Some(start), now) == clock_text(0),
        uptime_text(None, now) == "--:--:--"@,
{
}

/// The throughput shows what goes up before what comes down, kilobits before tokens.
pub proof fn law_throughput_in_order(f: Figures)
    ensures
        throughput_text(Some(f)) == "\u{2191}"@ + f.up_kbps@ + " \u{2193}"@ + f.down_kbps@
            + " kb/s \u{b7} \u{2191}"@ + f.up_tokens@ + " \u{2193}"@ + f.down_tokens@ + " tok/s"@,
        throughput_text(None)
            == "\u{2191}--.- \u{2193}--.- kb/s \u{b7} \u{2191}-- \u{2193}-- tok/s"@,
{
}

/// The bottom line of a live session shows its connection, that of an idle one whether the provider can
/// be reached; behind it stand uptime and throughput. Without a key it says so, and nothing else.
pub proof fn law_bottom_line(m: ModelView, now: u64, figures: Option<Figures>)
    ensures
        !m.has_key ==> footer_spans(m, now, figures) == seq![
            SpanView {
                text: "\u{25cf} no API key \u{2014} set GEMINI_API_KEY"@,
                color: Some(Tone::Danger.shade()),
            },
        ],
        m.has_key ==> footer_spans(m, now, figures).len() == 6,
        m.has_key && super::app::is_live(m.state) ==> footer_spans(m, now, figures)[0].color == Some(
            super::theme::color_of_connection(m.connection, m.theme.accent),
        ) && footer_spans(m, now, figures)[2].text == connection_word(m.connection),
        m.has_key && !super::app::is_live(m.state) ==> footer_spans(m, now, figures)[0].color == Some(
            reachability_shown(m.reachability, m.theme.accent).0,
        ) && footer_spans(m, now, figures)[2].text == reachability_shown(
            m.reachability,
            m.theme.accent,
        ).1,
        m.has_key ==> footer_spans(m, now, figures)[0].text == "\u{25cf}"@,
        m.has_key ==> footer_spans(m, now, figures)[4].text == uptime_text(m.started_at, now),
        m.has_key ==> footer_spans(m, now, figures)[5].text == "    "@ + throughput_text(figures),
{
}

/// The lines of the user stand in the accent, those of the agent in the color of text, and errors in that
/// of danger.
pub proof fn law_colors_of_lines(accent: Color)
    ensures
        color_of_kind(LineKind::User, accent) == accent,
        color_of_kind(LineKind::Agent, accent) == Tone::Fg.shade(),
        color_of_kind(LineKind::Error, accent) == Tone::Danger.shade(),
{
}

/// The columns of the characters from `k` on together.
pub open spec fn columns_from(widths: Seq<usize>, k: int) -> int
    decreases widths.len() - k,
{
    if k < 0 || k >= widths.len() {
        0
    } else {
        widths[k] + columns_from(widths, k + 1)
    }
}

/// A window shows a character exactly where it stands in it with all its columns and something of it is
/// behind the beginning: so, behind a text, one more character is shown where it begins in the window
/// and ends in it.
pub proof fn law_window_by_character(
    text: Seq<char>,
    widths: Seq<usize>,
    c: char,
    w: usize,
    start: nat,
    width: nat,
)
    requires
        widths.len() == text.len(),
    ensures
        ({
            let col = columns_from(widths, 0);
            let before = window_of(text, widths, start as int, width as int, 0, 0);
            let shown = window_of(
                text.push(c),
                widths.push(w),
                start as int,
                width as int,
                0,
                0,
            );
            if start <= col && start < col + w && col < start + width && col + w <= start + width {
                shown == before.push(c)
            } else {
                shown == before
            }
        }),
        window_of(Seq::empty(), Seq::empty(), start as int, width as int, 0, 0).len() == 0,
{
    lemma_window_grows(text, widths, c, w, start as int, width as int, 0, 0);
}

proof fn lemma_window_grows(
    text: Seq<char>,
    widths: Seq<usize>,
    c: char,
    w: usize,
    start: int,
    width: int,
    k: int,
    col: int,
)
    requires
        widths.len() == text.len(),
        0 <= k <= text.len(),
        start >= 0,
        width >= 0,
        col >= 0,
    ensures
        columns_from(widths, k) >= 0,
        ({
            let at = col + columns_from(widths, k);
            let before = window_of(text, widths, start, width, k, col);
            let shown = window_of(text.push(c), widths.push(w), start, width, k, col);
            if start <= at && start < at + w && at < start + width && at + w <= start + width {
                shown == before.push(c)
            } else {
                shown == before
            }
        }),
    decreases text.len() - k,
{
    let (t, v) = (text.push(c), widths.push(w));
    if k == text.len() {
        assert(window_of(t, v, start, width, k + 1, col + w) =~= Seq::empty());
        assert(v[k] == w && t[k] == c);
        assert(seq![c] + Seq::<char>::empty() =~= Seq::<char>::empty().push(c));
    } else {
        let next = col + widths[k];
        lemma_window_grows(text, widths, c, w, start, width, k + 1, next);
        assert(v[k] == widths[k] && t[k] == text[k]);
        let rest = window_of(text, widths, start, width, k + 1, next);
        assert(seq![text[k]] + rest.push(c) =~= (seq![text[k]] + rest).push(c));
    }
}

/// A prompt is scrolled only where its caret would leave the area, and then just so far that the caret
/// stands in the last column.
pub proof fn law_prompt_scrolls_for_its_caret(caret_col: nat, avail: nat)
    requires
        avail > 0,
    ensures
        caret_col < avail ==> prompt_scroll(caret_col as int, avail as int) == 0,
        caret_col >= avail ==> caret_col - prompt_scroll(caret_col as int, avail as int) == avail - 1,
{
}

/// The rows of a conversation grow by those of its newest line, each with its kind and its text, behind a
/// blank row where another kind of line stands before it.
pub proof fn law_rows_grow_by_a_line(
    kinds: Seq<LineKind>,
    pieces: Seq<Seq<Seq<char>>>,
    n: int,
    i: int,
)
    requires
        1 <= n <= kinds.len(),
        kinds.len() == pieces.len(),
        0 <= i < pieces[n - 1].len(),
    ensures
        ({
            let before = rows_upto(kinds, pieces, n - 1);
            let rows = rows_upto(kinds, pieces, n);
            let gap = if n >= 2 && kinds[n - 2] != kinds[n - 1] {
                1int
            } else {
                0int
            };
            &&& rows.len() == before.len() + gap + pieces[n - 1].len()
            &&& rows.take(before.len() as int) == before
            &&& rows[before.len() + gap + i] == (RowView {
                kind: Some(kinds[n - 1]),
                text: pieces[n - 1][i],
            })
            &&& gap == 1 ==> rows[before.len() as int] == (RowView { kind: None, text: Seq::empty() })
        }),
        rows_upto(kinds, pieces, 0).len() == 0,
{
    let before = rows_upto(kinds, pieces, n - 1);
    let rows = rows_upto(kinds, pieces, n);
    assert(rows.take(before.len() as int) =~= before);
}

/// The rows of a conversation are those of its lines, each wrapped at the width.
pub proof fn law_conversation_is_wrapped(entries: Seq<EntryView>, width: usize, i: int)
    requires
        0 <= i < entries.len(),
    ensures
        kinds_of(entries).len() == entries.len(),
        wrapped_lines(entries, width).len() == entries.len(),
        kinds_of(entries)[i] == entries[i].kind,
        wrapped_lines(entries, width)[i] == wrapped_at(entries[i].text, width),
        conversation_rows(entries, width) == rows_upto(
            kinds_of(entries),
            wrapped_lines(entries, width),
            entries.len() as int,
        ),
{
}

/// A view that does not follow stays where it is, as long as rows fill it from there on; it never stands
/// below the place where the last row is the last that is shown.
pub proof fn law_view_stays_where_it_is(m: ModelView, total: nat, height: nat)
    ensures
        total >= height ==> lowest_top(total as int, height as int) + height == total,
        total < height ==> lowest_top(total as int, height as int) == 0,
        !m.follow && m.transcript_top + height <= total ==> top_row(m, total as int, height as int)
            == m.transcript_top,
        m.follow || m.transcript_top + height > total ==> top_row(m, total as int, height as int)
            == lowest_top(total as int, height as int),
{
}

} // verus!
