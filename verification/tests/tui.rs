use joi::config::{Config, TerminalCfg};
use joi::history::session::{SessionMeta, SessionSummary};
use joi::history::{HistoryTurn, Role};
use joi::metrics::MetricsSnapshot;
use joi::session::event::{AppState, ConnectionStatus, Reachability, Speaker, UiEvent};
use joi::settings::{ApplyTiming, SettingDescriptor, SettingId, SettingKind, SettingValue};
use joi::tui::app::{Action, AppModel, Command};
use joi::tui::commands::matching;
use joi::tui::input::Input;
use joi::tui::keys::{Key, KeyInput};
use joi::tui::picker::{current_voice, Picker, VoicePicker};
use joi::tui::theme::{
    connection_color, parse_hex, state_color, status_dot, Color, Theme, Tone,
};
use joi::tui::transcript::{LineKind, Transcript, MAX_ENTRIES};
use joi::tui::ui::{
    centered_rect, controls_line, corners, divider, footer_line, format_uptime, help_rows,
    brand, metrics_text, place_prompt, place_transcript, prompt_line, prompt_view, rows_of, slice_by_cols,
    slice_with_widths, status_line, transcript_rows, visible_rows, Area, Figures, Span,
};

fn typed(m: &mut AppModel, text: &str) {
    for c in text.chars() {
        m.on_action(Action::Insert(c));
    }
}

fn state(m: &mut AppModel, state: AppState) -> Option<Command> {
    m.on_ui_event(UiEvent::State { state }, 5_000)
}

#[test]
fn quit_sets_flag() {
    let mut m = AppModel::new(true);
    assert!(!m.should_quit);
    m.on_action(Action::Quit);
    assert!(m.should_quit);
}

#[test]
fn ui_events_update_state_and_connection() {
    let mut m = AppModel::new(true);
    state(&mut m, AppState::Listening);
    m.on_ui_event(
        UiEvent::Connection { status: ConnectionStatus::Connected, detail: None },
        5_000,
    );
    assert_eq!(m.state, AppState::Listening);
    assert_eq!(m.connection, ConnectionStatus::Connected);
}

#[test]
fn submit_echoes_and_emits_command_when_running() {
    let mut m = AppModel::new(true);
    m.state = AppState::Listening;
    typed(&mut m, "hi");
    let cmd = m.on_action(Action::Submit);
    assert_eq!(cmd, Some(Command::SendText("hi".to_string())));
    assert!(m.input.value().is_empty(), "input cleared after submit");
    assert_eq!(m.transcript.entries().len(), 1, "user line echoed");
}

#[test]
fn exit_command_quits_without_sending() {
    let mut m = AppModel::new(true);
    m.state = AppState::Listening;
    typed(&mut m, "/exit");
    assert_eq!(m.on_action(Action::Submit), None, "no SendText is emitted");
    assert!(m.should_quit, "exit command quits");
    assert!(m.input.value().is_empty(), "prompt cleared");
    assert_eq!(m.transcript.entries().len(), 0, "nothing echoed");

    let mut m = AppModel::new(true);
    typed(&mut m, "/QUIT");
    assert_eq!(m.on_action(Action::Submit), None);
    assert!(m.should_quit, "exit command quits even when stopped");
}

#[test]
fn resume_command_opens_the_picker() {
    let mut m = AppModel::new(true);
    typed(&mut m, "/resume");
    assert_eq!(m.on_action(Action::Submit), Some(Command::OpenPicker));
    assert!(m.input.value().is_empty(), "prompt cleared");
}

#[test]
fn new_command_resets_view_and_requests_new_session() {
    let mut m = AppModel::new(true);
    m.transcript.push_transcript(Speaker::Agent, "old line".into(), true);
    typed(&mut m, "/new");
    assert_eq!(m.on_action(Action::Submit), Some(Command::NewSession));
    assert_eq!(m.transcript.entries().len(), 0, "view reset for new session");
}

#[test]
fn a_slash_line_that_is_no_command_is_not_sent() {
    let mut m = AppModel::new(true);
    m.state = AppState::Listening;
    typed(&mut m, " /foo bar");
    assert_eq!(m.on_action(Action::Submit), None);
    assert_eq!(m.transcript.entries().len(), 0, "nothing echoed");
    assert_eq!(m.input.value(), " /foo bar", "it stays in the prompt");
    assert!(!m.should_quit);
}

fn summary(id: &str) -> SessionSummary {
    SessionSummary {
        id: id.to_string(),
        meta: SessionMeta {
            name: Some(id.to_string()),
            created_at: 0,
            last_opened: 0,
            last_updated: 0,
        },
    }
}

#[test]
fn picker_navigates_and_resumes_selected() {
    let mut m = AppModel::new(true);
    m.open_picker(vec![summary("aaa"), summary("bbb")]);
    assert_eq!(m.on_action(Action::Insert('x')), None);
    assert!(m.input.value().is_empty());
    m.on_action(Action::Down);
    let cmd = m.on_action(Action::Submit);
    assert_eq!(cmd, Some(Command::ResumeSession("bbb".to_string())));
    assert!(m.picker.is_none(), "picker closed after selection");
}

#[test]
fn picker_escape_cancels() {
    let mut m = AppModel::new(true);
    m.open_picker(vec![summary("x")]);
    assert_eq!(m.on_action(Action::Escape), None);
    assert!(m.picker.is_none(), "Esc closes the picker without resuming");
}

#[test]
fn an_empty_picker_resumes_nothing() {
    let mut m = AppModel::new(true);
    m.open_picker(Vec::new());
    assert_eq!(m.on_action(Action::Submit), None);
    assert!(m.picker.is_none());
}

#[test]
fn a_picker_can_open_on_the_current_session() {
    let mut m = AppModel::new(true);
    m.open_picker_on(vec![summary("a"), summary("b")], Some("b".to_string()));
    assert_eq!(m.on_action(Action::Submit), Some(Command::ResumeSession("b".to_string())));
}

#[test]
fn submit_is_noop_when_stopped() {
    let mut m = AppModel::new(true);
    typed(&mut m, "hi");
    assert_eq!(m.on_action(Action::Submit), None);
    assert_eq!(m.input.value(), "hi", "text kept when not sendable");
    assert_eq!(m.transcript.entries().len(), 0);
}

#[test]
fn toggle_session_maps_to_start_or_stop() {
    let mut m = AppModel::new(true);
    assert_eq!(m.on_action(Action::ToggleSession), Some(Command::Start));
    m.state = AppState::Listening;
    assert_eq!(m.on_action(Action::ToggleSession), Some(Command::Stop));
}

#[test]
fn toggle_mute_flips_and_emits() {
    let mut m = AppModel::new(true);
    assert_eq!(m.on_action(Action::ToggleMute), Some(Command::SetMicMuted(true)));
    assert!(m.mic_muted);
    assert_eq!(m.on_action(Action::ToggleMute), Some(Command::SetMicMuted(false)));
    assert!(!m.mic_muted);
}

#[test]
fn toggle_share_requires_a_live_session() {
    let mut m = AppModel::new(true);
    assert_eq!(m.on_action(Action::ToggleShare), None, "no-op when stopped");
    assert!(!m.sharing);
    m.state = AppState::Listening;
    assert_eq!(m.on_action(Action::ToggleShare), Some(Command::StartScreenshare));
    assert!(m.sharing);
}

#[test]
fn scrolling_up_leaves_follow_and_end_resumes_it() {
    let mut m = AppModel::new(true);
    assert!(m.follow, "starts pinned to the newest");
    m.on_action(Action::ScrollLineUp);
    assert!(!m.follow, "scrolling up stops autoscroll");
    m.on_action(Action::ScrollBottom);
    assert!(m.follow, "End resumes autoscroll");
    m.on_action(Action::ScrollTop);
    assert!(!m.follow && m.transcript_top == 0, "Home jumps to the oldest line");
}

#[test]
fn scrolling_saturates_at_both_ends() {
    let mut m = AppModel::new(true);
    m.transcript_top = 5;
    m.on_action(Action::ScrollLineUp);
    assert_eq!(m.transcript_top, 2);
    m.on_action(Action::ScrollLineUp);
    assert_eq!(m.transcript_top, 0);
    m.transcript_page = 10;
    m.on_action(Action::ScrollDown);
    assert_eq!(m.transcript_top, 10);
    m.transcript_top = u16::MAX;
    m.on_action(Action::ScrollLineDown);
    assert_eq!(m.transcript_top, u16::MAX);
}

#[test]
fn no_key_blocks_start() {
    let mut m = AppModel::new(false);
    assert_eq!(m.on_action(Action::ToggleSession), None);
}

#[test]
fn help_toggles_and_escape_closes_then_clears() {
    let mut m = AppModel::new(true);
    m.on_action(Action::ToggleHelp);
    assert!(m.show_help);
    m.on_action(Action::Escape);
    assert!(!m.show_help);
    typed(&mut m, "hi");
    m.on_action(Action::Escape);
    assert!(m.input.value().is_empty());
}

#[test]
fn stopping_clears_uptime_share_and_metrics() {
    let mut m = AppModel::new(true);
    state(&mut m, AppState::Listening);
    m.sharing = true;
    m.metrics = Some(MetricsSnapshot::zero());
    assert!(m.started_at.is_some());
    let cmd = state(&mut m, AppState::Stopped);
    assert_eq!(cmd, Some(Command::StopScreenshare));
    assert!(m.started_at.is_none());
    assert!(!m.sharing);
    assert!(m.metrics.is_none());
    m.on_ui_event(UiEvent::Metrics(MetricsSnapshot::zero()), 6_000);
    assert!(m.metrics.is_none(), "trailing zero sample ignored when idle");
}

#[test]
fn uptime_counts_from_the_first_live_state() {
    let mut m = AppModel::new(true);
    m.on_ui_event(UiEvent::State { state: AppState::Connecting }, 1_000);
    m.on_ui_event(UiEvent::State { state: AppState::Listening }, 2_000);
    assert_eq!(m.started_at, Some(1_000));
}

#[test]
fn errors_stand_in_the_transcript() {
    let mut m = AppModel::new(true);
    m.on_ui_event(
        UiEvent::Error { kind: "connect".to_string(), message: "boom".to_string() },
        1,
    );
    assert_eq!(m.transcript.entries()[0].text, "connect: boom");
    assert_eq!(m.transcript.entries()[0].kind, LineKind::Error);
}

#[test]
fn stored_turns_fill_the_transcript() {
    let mut m = AppModel::new(true);
    m.transcript.push_error("gone".into());
    m.load_history(&[
        HistoryTurn::new(Role::User, "one", 1),
        HistoryTurn::new(Role::System, "hidden", 2),
        HistoryTurn::new(Role::Assistant, "two", 3),
        HistoryTurn::new(Role::Assistant, "three", 4),
    ]);
    let lines: Vec<&str> = m.transcript.entries().iter().map(|e| e.text.as_str()).collect();
    assert_eq!(lines, vec!["one", "two", "three"]);
}

#[test]
fn the_animation_wraps() {
    let mut m = AppModel::new(true);
    m.tick = u64::MAX;
    m.on_tick();
    assert_eq!(m.tick, 0);
}

fn names(query: &str) -> Vec<&'static str> {
    matching(query).iter().map(|c| c.name).collect()
}

#[test]
fn non_slash_text_matches_nothing() {
    assert!(matching("hello").is_empty());
    assert!(matching("").is_empty());
}

#[test]
fn bare_slash_lists_every_command_in_catalog_order() {
    assert_eq!(names("/"), vec!["/resume", "/new", "/exit"]);
}

#[test]
fn substring_matches_the_command_body() {
    assert_eq!(names("/ew"), vec!["/new"]);
    assert_eq!(names("/sum"), vec!["/resume"]);
    assert_eq!(names("/x"), vec!["/exit"]);
}

#[test]
fn prefix_matches_sort_before_looser_substring_matches() {
    assert_eq!(names("/e"), vec!["/exit", "/resume", "/new"]);
}

#[test]
fn matching_is_case_insensitive() {
    assert_eq!(names("/RES"), vec!["/resume"]);
}

fn input(text: &str) -> Input {
    let mut i = Input::new();
    text.chars().for_each(|c| i.insert(c));
    i
}

#[test]
fn insert_and_caret_track_bytes_and_columns() {
    let i = input("héy");
    assert_eq!(i.value(), "héy");
    assert_eq!(i.caret(), 4);
    assert_eq!(i.caret_display_col(), 3);
    assert_eq!(input("日本").caret_display_col(), 4);
}

#[test]
fn backspace_removes_previous_char_including_multibyte() {
    let mut i = input("aé");
    i.backspace();
    assert_eq!(i.value(), "a");
    assert_eq!(i.caret(), 1);
}

#[test]
fn left_right_move_by_char() {
    let mut i = input("aé");
    i.left();
    assert_eq!(i.caret(), 1);
    i.left();
    assert_eq!(i.caret(), 0);
    i.left();
    assert_eq!(i.caret(), 0);
    i.right();
    assert_eq!(i.caret(), 1);
}

#[test]
fn home_end_respect_line_boundaries() {
    let mut i = input("ab\ncd");
    i.home();
    assert_eq!(i.caret(), 3);
    i.end();
    assert_eq!(i.caret(), 5);
    for _ in 0..4 {
        i.left();
    }
    assert_eq!(i.caret(), 1);
    i.home();
    assert_eq!(i.caret(), 0);
    i.end();
    assert_eq!(i.caret(), 2);
}

#[test]
fn deleting_takes_the_character_behind_the_caret() {
    let mut i = input("abc");
    i.delete();
    assert_eq!(i.value(), "abc");
    i.left();
    i.left();
    i.delete();
    assert_eq!(i.value(), "ac");
    assert_eq!(i.caret(), 1);
    i.clear();
    assert_eq!((i.value(), i.caret()), ("", 0));
}

#[test]
fn navigation_clamps_at_both_ends() {
    let mut p = Picker::new(vec![summary("a"), summary("b"), summary("c")], None);
    assert_eq!(p.selected_id(), Some("a"));
    p.up();
    assert_eq!(p.selected_id(), Some("a"));
    p.down();
    p.down();
    assert_eq!(p.selected_id(), Some("c"));
    p.down();
    assert_eq!(p.selected_id(), Some("c"));
    p.up();
    assert_eq!(p.selected_id(), Some("b"));
}

#[test]
fn empty_picker_has_no_selection() {
    let mut p = Picker::new(Vec::new(), None);
    assert!(p.is_empty());
    assert_eq!(p.selected_id(), None);
    p.down();
    p.up();
    assert_eq!(p.selected_id(), None);
}

#[test]
fn cursor_starts_on_the_current_session() {
    let p = Picker::new(
        vec![summary("a"), summary("b"), summary("c")],
        Some("b".to_string()),
    );
    assert_eq!(p.selected_id(), Some("b"));
    assert_eq!(p.current_id(), Some("b"));
}

#[test]
fn current_id_absent_from_list_falls_back_to_first_row() {
    let p = Picker::new(vec![summary("a"), summary("b")], Some("gone".to_string()));
    assert_eq!(p.selected_id(), Some("a"));
}

fn voices() -> Vec<String> {
    vec!["Aoede".to_string(), "Charon".to_string(), "Puck".to_string()]
}

#[test]
fn voice_navigation_clamps_at_both_ends() {
    let mut p = VoicePicker::new(voices(), None);
    assert_eq!(p.selected_voice(), Some("Aoede"));
    p.up();
    assert_eq!(p.selected_voice(), Some("Aoede"));
    p.down();
    p.down();
    assert_eq!(p.selected_voice(), Some("Puck"));
    p.down();
    assert_eq!(p.selected_voice(), Some("Puck"));
}

#[test]
fn voice_cursor_starts_on_the_active_voice() {
    let p = VoicePicker::new(voices(), Some("Charon".to_string()));
    assert_eq!(p.selected_voice(), Some("Charon"));
    assert_eq!(p.current(), Some("Charon"));
}

#[test]
fn voice_default_or_unlisted_current_falls_back_to_first_row() {
    assert_eq!(VoicePicker::new(voices(), None).selected_voice(), Some("Aoede"));
    let p = VoicePicker::new(voices(), Some("Nope".to_string()));
    assert_eq!(p.selected_voice(), Some("Aoede"));
}

fn voice_descriptor(options: &[&str], value: &str) -> SettingDescriptor {
    SettingDescriptor {
        id: SettingId::Voice,
        label: "Voice".to_string(),
        value: SettingValue::Text(value.to_string()),
        kind: SettingKind::Choice { options: options.iter().map(|s| (*s).to_string()).collect() },
        apply: ApplyTiming::NextSession,
    }
}

#[test]
fn from_schema_extracts_voice_options_and_current() {
    let schema = vec![voice_descriptor(&["Aoede", "Charon", "Puck"], "Charon")];
    let p = VoicePicker::from_schema(&schema).expect("voice choice present in schema");
    assert_eq!(p.voices(), ["Aoede", "Charon", "Puck"]);
    assert_eq!(p.current(), Some("Charon"));
    assert_eq!(p.selected_voice(), Some("Charon"), "cursor starts on the active voice");
    assert!(VoicePicker::from_schema(&[]).is_none());
}

#[test]
fn current_voice_is_none_for_the_model_default() {
    let schema = vec![voice_descriptor(&["Aoede", "Charon"], "")];
    assert_eq!(current_voice(&schema), None);
    assert_eq!(VoicePicker::from_schema(&schema).unwrap().current(), None);
}

fn press(key: Key) -> KeyInput {
    KeyInput { key, ctrl: false, alt: false, released: false }
}

#[test]
fn keys_mean_actions() {
    assert_eq!(joi::tui::keys::map(&press(Key::Char('x'))), Action::Insert('x'));
    assert_eq!(joi::tui::keys::map(&KeyInput { ctrl: true, ..press(Key::Char('c')) }), Action::Quit);
    assert_eq!(joi::tui::keys::map(&KeyInput { ctrl: true, ..press(Key::Char('x')) }), Action::Ignore);
    assert_eq!(joi::tui::keys::map(&KeyInput { alt: true, ..press(Key::Char('x')) }), Action::Ignore);
    assert_eq!(joi::tui::keys::map(&press(Key::F(1))), Action::ToggleHelp);
    assert_eq!(joi::tui::keys::map(&press(Key::F(2))), Action::ToggleSession);
    assert_eq!(joi::tui::keys::map(&press(Key::F(3))), Action::ToggleMute);
    assert_eq!(joi::tui::keys::map(&press(Key::F(4))), Action::ToggleShare);
    assert_eq!(joi::tui::keys::map(&press(Key::F(5))), Action::Ignore);
    assert_eq!(joi::tui::keys::map(&press(Key::Home)), Action::ScrollTop);
    assert_eq!(joi::tui::keys::map(&press(Key::End)), Action::ScrollBottom);
    assert_eq!(joi::tui::keys::map(&press(Key::WheelUp)), Action::ScrollLineUp);
    assert_eq!(joi::tui::keys::map(&press(Key::Enter)), Action::Submit);
    assert_eq!(joi::tui::keys::map(&KeyInput { released: true, ..press(Key::Enter) }), Action::Ignore);
}

fn accent() -> Color {
    Tone::DefaultAccent.color()
}

#[test]
fn listening_dot_animates_over_the_period() {
    assert_ne!(
        status_dot(AppState::Listening, 0, accent()),
        status_dot(AppState::Listening, 13, accent())
    );
    assert_eq!(status_dot(AppState::Listening, 26, accent()), accent());
}

#[test]
fn stopped_dot_is_steady() {
    assert_eq!(
        status_dot(AppState::Stopped, 0, accent()),
        status_dot(AppState::Stopped, 999, accent())
    );
}

fn terminal_cfg(background: &str, accent: &str, tool_accent: &str, rest: [&str; 4]) -> TerminalCfg {
    TerminalCfg {
        theme: "joi-dark".to_string(),
        font: "JetBrains Mono".to_string(),
        scrollback: 5_000,
        background: background.to_string(),
        accent: accent.to_string(),
        tool_accent: tool_accent.to_string(),
        tool_text: rest[0].to_string(),
        tool_success: rest[1].to_string(),
        tool_denied: rest[2].to_string(),
        tool_failed: rest[3].to_string(),
    }
}

#[test]
fn from_config_parses_hex_and_transparent() {
    let t = Theme::from_config(&terminal_cfg(
        "transparent",
        "#9aede4",
        "#c3b6e6",
        ["#9aa4b0", "#8fd69f", "#d8c08a", "#d8c08a"],
    ));
    assert_eq!(t.background, Color::Reset);
    assert_eq!(t.accent, Color::Rgb(0x9a, 0xed, 0xe4));
    assert_eq!(t.tool_accent, Color::Rgb(0xc3, 0xb6, 0xe6));
    assert_ne!(t.tool_accent, t.accent);
    let bad = "not-a-color";
    let t = Theme::from_config(&terminal_cfg("#101418", bad, bad, [bad, bad, bad, bad]));
    assert_eq!(t.background, Color::Rgb(0x10, 0x14, 0x18));
    assert_eq!(t.accent, Tone::DefaultAccent.color());
    assert_eq!(t.tool_accent, Tone::Speak.color());
    assert_eq!(t.tool_text, Tone::FgFaint.color());
    assert_eq!(Theme::from_config(&Config::default().ui.terminal), Theme::default());
}

#[test]
fn colors_are_read_as_integers_are() {
    assert_eq!(parse_hex(" #A0b1C2 "), Some(Color::Rgb(0xa0, 0xb1, 0xc2)));
    assert_eq!(parse_hex("a0b1c2"), Some(Color::Rgb(0xa0, 0xb1, 0xc2)));
    assert_eq!(parse_hex("+1+2+f"), Some(Color::Rgb(1, 2, 15)));
    assert_eq!(parse_hex("#1+0000"), None);
    assert_eq!(parse_hex("##12345"), None);
    assert_eq!(parse_hex("#12345"), None);
    assert_eq!(parse_hex("é1234"), None);
}

#[test]
fn states_have_colors() {
    assert_eq!(state_color(AppState::Error, accent()), Tone::Danger.color());
    assert_eq!(state_color(AppState::Listening, Color::Reset), Color::Reset);
    assert_eq!(
        connection_color(ConnectionStatus::Reconnecting, accent()),
        Tone::Warn.color()
    );
}

/// The glow as it is computed in doubles.
fn glow_in_doubles(x: u8, floor: u8, depth: f64, tick: u64, period: u64) -> u8 {
    let mix = |a: u8, b: u8, t: f64| (f64::from(a) + (f64::from(b) - f64::from(a)) * t).round() as u8;
    let p = (tick % period) as f64;
    let half = period as f64 / 2.0;
    let t = if p < half { p / half } else { 2.0 - p / half };
    mix(x, mix(x, floor, depth), t)
}

#[test]
fn the_glow_is_what_doubles_give() {
    for x in 0..=255u8 {
        for tick in 0..26u64 {
            let want = Color::Rgb(
                glow_in_doubles(x, 0x07, 0.55, tick, 26),
                glow_in_doubles(x, 0x09, 0.55, tick, 26),
                glow_in_doubles(x, 0x0c, 0.55, tick, 26),
            );
            assert_eq!(status_dot(AppState::Listening, tick, Color::Rgb(x, x, x)), want);
        }
    }
    let channels = |state: AppState, tick: u64, base: Color, depth: f64, period: u64| {
        let Color::Rgb(r, g, b) = base else { unreachable!() };
        let want = Color::Rgb(
            glow_in_doubles(r, 0x07, depth, tick, period),
            glow_in_doubles(g, 0x09, depth, tick, period),
            glow_in_doubles(b, 0x0c, depth, tick, period),
        );
        assert_eq!(status_dot(state, tick, accent()), want);
    };
    for tick in 0..60 {
        channels(AppState::Speaking, tick, Tone::Speak.color(), 0.78, 11);
        channels(AppState::Thinking, tick, Tone::Think.color(), 0.55, 14);
        channels(AppState::Connecting, tick, Tone::Warn.color(), 0.55, 12);
        channels(AppState::Reconnecting, tick, Tone::Warn.color(), 0.55, 12);
    }
}

fn texts(t: &Transcript) -> Vec<(LineKind, &str)> {
    t.entries().iter().map(|e| (e.kind, e.text.as_str())).collect()
}

#[test]
fn deltas_append_into_one_open_line() {
    let mut t = Transcript::new();
    t.push_transcript(Speaker::Agent, "Hel".into(), false);
    t.push_transcript(Speaker::Agent, "lo".into(), true);
    assert_eq!(texts(&t), vec![(LineKind::Agent, "Hello")]);
}

#[test]
fn speaker_change_starts_a_new_line() {
    let mut t = Transcript::new();
    t.push_transcript(Speaker::Agent, "hi".into(), false);
    t.push_transcript(Speaker::User, "yo".into(), true);
    assert_eq!(texts(&t), vec![(LineKind::Agent, "hi"), (LineKind::User, "yo")]);
}

#[test]
fn error_closes_the_open_line_and_appends() {
    let mut t = Transcript::new();
    t.push_transcript(Speaker::Agent, "partial".into(), false);
    t.push_error("connect: boom".into());
    t.push_transcript(Speaker::Agent, "again".into(), true);
    assert_eq!(
        texts(&t),
        vec![
            (LineKind::Agent, "partial"),
            (LineKind::Error, "connect: boom"),
            (LineKind::Agent, "again"),
        ]
    );
}

#[test]
fn scrollback_caps_oldest_entries() {
    let mut t = Transcript::new();
    for i in 0..(MAX_ENTRIES + 50) {
        t.push_error(format!("e{i}"));
    }
    assert_eq!(t.entries().len(), MAX_ENTRIES);
    assert_eq!(t.entries()[0].text, "e50");
}

fn shown(spans: &[Span]) -> String {
    spans.iter().map(|s| s.text.as_str()).collect()
}

#[test]
fn frame_shows_brand_and_status() {
    let m = AppModel::new(true);
    assert!(brand(&m).text.contains("JOI"), "brand missing");
    assert_eq!(brand(&m).color, Some(m.theme.accent));
    assert!(shown(&status_line(&m)).contains("stopped"));
    assert!(!shown(&footer_line(&m, 0, &None)).contains("no API key"));
}

#[test]
fn footer_shows_reachability_when_idle_and_connection_when_running() {
    let mut idle = AppModel::new(true);
    idle.reachability = Reachability::Online;
    let text = shown(&footer_line(&idle, 0, &None));
    assert!(text.contains("online"), "reachability missing when idle: {text}");
    assert!(!text.contains("disconnected"), "should not show session conn when idle: {text}");
    assert!(text.contains("--:--:--"), "uptime placeholder missing: {text}");
    assert!(text.contains("tok/s"), "metrics placeholder missing: {text}");

    let mut live = AppModel::new(true);
    live.state = AppState::Listening;
    live.connection = ConnectionStatus::Connected;
    live.reachability = Reachability::Online;
    let text = shown(&footer_line(&live, 0, &None));
    assert!(text.contains("connected"), "session connection missing when running: {text}");
}

#[test]
fn no_key_shows_banner() {
    let text = shown(&footer_line(&AppModel::new(false), 0, &None));
    assert!(text.contains("no API key"), "banner missing: {text}");
}

#[test]
fn transcript_renders_text_without_labels() {
    let mut model = AppModel::new(true);
    model.transcript.push_transcript(Speaker::Agent, "hello".into(), true);
    let rows = transcript_rows(model.transcript.entries(), 40);
    let text: String = rows.iter().map(|r| r.text.as_str()).collect();
    assert!(text.contains("hello"));
    assert!(!text.contains("JOI:"), "labels should be gone: {text}");
    assert!(!text.contains("User:"), "labels should be gone: {text}");
}

#[test]
fn empty_prompt_is_just_the_chevron() {
    let model = AppModel::new(true);
    let p = prompt_view(&model, 40).unwrap();
    assert_eq!((p.visible.as_str(), p.cursor), ("", 2));
    let text = shown(&prompt_line(&model, &p.visible));
    assert!(text.contains('❯'), "chevron missing: {text}");
    assert!(!text.contains("message JOI"), "placeholder should be gone: {text}");
    assert!(prompt_view(&AppModel::new(true), 2).is_none());
}

#[test]
fn deck_has_corner_brackets_and_dividers() {
    let c = corners(Area { x: 0, y: 0, width: 64, height: 16 });
    let symbols: Vec<(u16, u16, char)> = c.iter().map(|c| (c.x, c.y, c.symbol)).collect();
    assert_eq!(symbols, vec![(0, 0, '⌜'), (63, 0, '⌝'), (0, 15, '⌞'), (63, 15, '⌟')]);
    assert_eq!(divider(3).text, "───");
}

#[test]
fn blank_line_separates_turns_only() {
    let mut model = AppModel::new(true);
    model.transcript.push_transcript(Speaker::Agent, "alpha".into(), true);
    model.transcript.push_transcript(Speaker::Agent, "bravo".into(), true);
    model.transcript.push_transcript(Speaker::User, "charlie".into(), true);
    let rows: Vec<String> = transcript_rows(model.transcript.entries(), 38)
        .into_iter()
        .map(|r| r.text)
        .collect();
    let alpha = rows.iter().position(|r| r.contains("alpha")).unwrap();
    let bravo = rows.iter().position(|r| r.contains("bravo")).unwrap();
    let charlie = rows.iter().position(|r| r.contains("charlie")).unwrap();
    assert_eq!(bravo, alpha + 1, "same-speaker lines should be adjacent: {rows:?}");
    assert!(
        charlie > bravo + 1 && rows[bravo + 1..charlie].iter().any(String::is_empty),
        "expected a blank line between turns: {rows:?}"
    );
    let all = rows.concat();
    assert!(!all.contains("JOI:") && !all.contains("User:"), "labels present: {all}");
}

#[test]
fn long_lines_are_wrapped() {
    let mut t = Transcript::new();
    t.push_transcript(Speaker::Agent, "one two three four".into(), true);
    let rows: Vec<String> =
        transcript_rows(t.entries(), 9).into_iter().map(|r| r.text).collect();
    assert_eq!(rows, vec!["one two", "three", "four"]);
    let made = rows_of(
        &[LineKind::User, LineKind::Agent],
        &[vec!["a".to_string(), "b".to_string()], vec!["c".to_string()]],
    );
    let kinds: Vec<Option<LineKind>> = made.iter().map(|r| r.kind).collect();
    assert_eq!(
        kinds,
        vec![Some(LineKind::User), Some(LineKind::User), None, Some(LineKind::Agent)]
    );
}

#[test]
fn prompt_renders_typed_text() {
    let mut model = AppModel::new(true);
    typed(&mut model, "hello world");
    let p = prompt_view(&model, 40).unwrap();
    assert_eq!((p.visible.as_str(), p.cursor), ("hello world", 13));
    let text = shown(&prompt_line(&model, &p.visible));
    assert!(text.contains('❯'));
    assert!(text.contains("hello world"), "typed text missing: {text}");
    assert!(!text.contains("message JOI"), "placeholder shown over text");
    let narrow = prompt_view(&model, 7).unwrap();
    assert_eq!((narrow.visible.as_str(), narrow.cursor), ("orld", 6));
}

#[test]
fn windows_are_cut_by_columns() {
    assert_eq!(slice_by_cols("abcdef", 2, 3), "cde");
    assert_eq!(slice_by_cols("日本語", 2, 2), "本");
    assert_eq!(slice_by_cols("日本語", 1, 2), "");
    assert_eq!(slice_by_cols("日本語", 1, 3), "本");
    assert_eq!(slice_by_cols("日本語", 0, 5), "日本");
    assert_eq!(slice_with_widths(&['a', 'b', 'c'], &[1, 5, 1], 1, 5), "b");
    assert_eq!(slice_with_widths(&['a', 'b', 'c'], &[1, 5, 1], 1, 2), "");
    let p = place_prompt(10, 8).unwrap();
    assert_eq!((p.scroll, p.avail, p.cursor), (5, 6, 7));
}

#[test]
fn the_view_follows_and_lets_go() {
    let mut m = AppModel::new(true);
    assert_eq!(place_transcript(&mut m, 30, 10), 20);
    assert_eq!((m.transcript_top, m.transcript_page, m.follow), (20, 10, true));
    m.on_action(Action::ScrollUp);
    assert_eq!(place_transcript(&mut m, 31, 10), 10);
    assert!(!m.follow);
    m.on_action(Action::ScrollDown);
    m.on_action(Action::ScrollDown);
    assert_eq!(place_transcript(&mut m, 31, 10), 21);
    assert!(m.follow);
    assert_eq!(place_transcript(&mut m, 3, 10), 0);
    let mut t = Transcript::new();
    for i in 0..4 {
        t.push_error(format!("e{i}"));
    }
    let rows = transcript_rows(t.entries(), 10);
    let window: Vec<&str> = visible_rows(&rows, 1, 2).iter().map(|r| r.text.as_str()).collect();
    assert_eq!(window, vec!["e1", "e2"]);
    assert!(visible_rows(&rows, 9, 2).is_empty());
}

#[test]
fn controls_show_what_is_on() {
    let mut m = AppModel::new(true);
    assert_eq!(shown(&controls_line(&m)), "F2 ▶ start    F3 ● mic    F4 ▣ share");
    m.state = AppState::Speaking;
    m.mic_muted = true;
    m.sharing = true;
    assert_eq!(shown(&controls_line(&m)), "F2 ■ stop    F3 ⊘ muted    F4 ◉ sharing");
}

#[test]
fn figures_and_uptime_are_written() {
    assert_eq!(format_uptime(Some(1_000), 3_662_000), "01:01:01");
    assert_eq!(format_uptime(Some(5_000), 1_000), "00:00:00");
    assert_eq!(format_uptime(Some(0), 360_000_000), "100:00:00");
    assert_eq!(format_uptime(None, 9), "--:--:--");
    assert_eq!(metrics_text(&None), "↑--.- ↓--.- kb/s · ↑-- ↓-- tok/s");
    let figures = Figures {
        up_kbps: "8.0".to_string(),
        down_kbps: "16.0".to_string(),
        up_tokens: "1".to_string(),
        down_tokens: "2".to_string(),
    };
    assert_eq!(metrics_text(&Some(figures)), "↑8.0 ↓16.0 kb/s · ↑1 ↓2 tok/s");
}

#[test]
fn the_help_stands_in_the_middle() {
    let rows = help_rows(accent());
    assert_eq!(rows.len(), 8);
    assert_eq!(shown(&rows[0]), " F2               start / stop session");
    assert_eq!(rows[0][0].color, Some(accent()));
    let r = centered_rect(Area { x: 2, y: 1, width: 80, height: 24 }, 46, 10);
    assert_eq!((r.x, r.y, r.width, r.height), (19, 8, 46, 10));
    let small = centered_rect(Area { x: 0, y: 0, width: 10, height: 5 }, 46, 10);
    assert_eq!((small.x, small.y, small.width, small.height), (0, 0, 10, 5));
}
