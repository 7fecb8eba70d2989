use joi::config::Config;
use joi::connectivity::{after_probe, before_probe, monitor_wait, MonitorWait, ProbeCause, ProbeOutcome};
use joi::error::SessionError;
use joi::history::{HistoryTurn, Role};
use joi::manager::{Command, Effect, SessionManager};
use joi::providers::MockSession;
use joi::metrics::{MetricsSnapshot, TokenUsage, TransportBytes};
use joi::settings::{SettingId, SettingValue};
use joi::session::event::{
    AppState, CloseReason, ConnectionStatus, Reachability, SessionEvent, Speaker, TurnEvent, UiEvent,
};

fn started() -> SessionManager {
    let mut m = SessionManager::new(Config::default(), 1_000, false);
    let _ = m.handle_command(Command::Start { resume: false });
    let _ = m.context_loaded(Some(Vec::new()));
    let _ = m.connect_finished(Ok(()), 1_000);
    m
}

fn states(effects: &[Effect]) -> Vec<AppState> {
    effects
        .iter()
        .filter_map(|e| match e {
            Effect::Emit(UiEvent::State { state }) => Some(*state),
            _ => None,
        })
        .collect()
}

fn metrics(effects: &[Effect]) -> Option<MetricsSnapshot> {
    effects.iter().find_map(|e| match e {
        Effect::Emit(UiEvent::Metrics(m)) => Some(*m),
        _ => None,
    })
}

fn transcript(speaker: Speaker, text: &str, final_: bool) -> SessionEvent {
    SessionEvent::Transcript { speaker, text: text.to_string(), final_ }
}

fn appended(effects: Vec<Effect>) -> Vec<HistoryTurn> {
    effects
        .into_iter()
        .filter_map(|e| match e {
            Effect::Append(turn, _) => Some(turn),
            _ => None,
        })
        .collect()
}

#[test]
fn start_running_stop_transitions() {
    let mut m = SessionManager::new(Config::default(), 1_000, false);
    let begun = m.handle_command(Command::Start { resume: false });
    assert_eq!(states(&begun), vec![AppState::Connecting]);
    assert!(begun.iter().any(|e| matches!(e, Effect::LoadContext(_))));
    let connecting = m.context_loaded(Some(Vec::new()));
    assert!(connecting.iter().any(|e| matches!(e, Effect::Connect(_))));
    let connected = m.connect_finished(Ok(()), 1_000);
    assert_eq!(states(&connected), vec![AppState::Listening]);
    assert!(connected.iter().any(|e| matches!(e, Effect::ReplyStart(Ok(())))));
    assert_eq!(m.state(), AppState::Listening);
    let stopped = m.handle_command(Command::Stop { pause: false });
    assert_eq!(m.state(), AppState::Stopped);
    assert_eq!(states(&stopped), vec![AppState::Stopped]);
}

#[test]
fn stop_closes_the_session_so_billing_ends() {
    let mut m = started();
    assert!(m.is_connected());
    let effects = m.handle_command(Command::Stop { pause: false });
    assert_eq!(effects.iter().filter(|e| matches!(e, Effect::Close)).count(), 1);
    assert!(!m.is_connected());
    assert_eq!(m.state(), AppState::Stopped);
}

#[test]
fn stop_emits_zero_metrics_to_clear_the_indicator() {
    let mut m = started();
    let effects = m.handle_command(Command::Stop { pause: false });
    assert_eq!(metrics(&effects), Some(MetricsSnapshot::zero()));
}

#[test]
fn a_second_start_closes_the_first_session() {
    let mut m = started();
    let effects = m.handle_command(Command::Start { resume: true });
    assert!(matches!(effects[0], Effect::Close));
}

#[test]
fn a_failed_connect_is_an_error_state() {
    let mut m = SessionManager::new(Config::default(), 1_000, false);
    let _ = m.handle_command(Command::Start { resume: false });
    let effects = m.connect_finished(Err(SessionError::Auth("bad key".to_string())), 1_000);
    assert_eq!(m.state(), AppState::Error);
    assert!(!m.is_connected());
    assert!(effects.iter().any(
        |e| matches!(e, Effect::ReplyStart(Err(SessionError::Auth(s))) if s == "bad key")
    ));
}

#[test]
fn text_turn_emits_transcripts_and_appends_history() {
    let mut m = started();
    let sent = m.handle_command(Command::SendText { text: "hi".to_string() });
    assert!(sent.iter().any(|e| matches!(e, Effect::SendText(t) if t == "hi")));
    assert!(matches!(m.text_sent(Ok(())).as_slice(), [Effect::ReplyText(Ok(()))]));

    let mut turns = Vec::new();
    let mut shown = String::new();
    for event in [
        transcript(Speaker::User, "hi", true),
        transcript(Speaker::Agent, "echo: ", false),
        transcript(Speaker::Agent, "hi", true),
    ] {
        let effects = m.handle_event(event, 1_500);
        for e in &effects {
            if let Effect::Emit(UiEvent::Transcript { speaker: Speaker::Agent, text, .. }) = e {
                shown.push_str(text);
            }
        }
        turns.extend(appended(effects));
    }
    assert_eq!(shown, "echo: hi");
    assert_eq!(turns.len(), 2);
    assert_eq!((turns[0].role, turns[0].text.as_str()), (Role::User, "hi"));
    assert_eq!((turns[1].role, turns[1].text.as_str()), (Role::Assistant, "echo: hi"));
    assert_eq!(turns[1].ts_ms, 1_500);
}

#[test]
fn start_seeds_context_from_the_persisted_log() {
    let mut m = SessionManager::new(Config::default(), 1_000, false);
    let _ = m.handle_command(Command::Start { resume: false });
    let newest_first = vec![
        HistoryTurn::new(Role::Assistant, "earlier answer", 2),
        HistoryTurn::new(Role::User, "earlier question", 1),
    ];
    let effects = m.context_loaded(Some(newest_first));
    let seeded: Vec<String> = effects
        .iter()
        .find_map(|e| match e {
            Effect::Connect(cfg) => {
                Some(cfg.initial_context.iter().map(|t| t.text.clone()).collect())
            }
            _ => None,
        })
        .unwrap();
    assert_eq!(seeded, vec!["earlier question", "earlier answer"]);
}

#[test]
fn streamed_user_transcript_is_stored_as_one_user_turn() {
    let mut m = started();
    let mut turns = Vec::new();
    for event in [
        transcript(Speaker::User, "par", false),
        transcript(Speaker::User, "tial", false),
        transcript(Speaker::User, "", true),
    ] {
        turns.extend(appended(m.handle_event(event, 2_000)));
    }
    assert_eq!(turns.len(), 1, "expected one stored turn, got {turns:?}");
    assert_eq!(turns[0].role, Role::User);
    assert_eq!(turns[0].text, "partial");
}

#[test]
fn lines_of_both_speakers_may_interleave() {
    let mut m = started();
    let mut stored = Vec::new();
    for (speaker, text, final_) in [
        (Speaker::User, "how ", false),
        (Speaker::Agent, "let ", false),
        (Speaker::User, "are you", true),
        (Speaker::Agent, "me ", false),
        (Speaker::User, "hm", false),
        (Speaker::Agent, "see", true),
        (Speaker::User, "", true),
    ] {
        stored.extend(appended(m.handle_event(transcript(speaker, text, final_), 5)));
        stored.extend(appended(m.handle_event(SessionEvent::TurnEvent(TurnEvent::TurnStarted), 5)));
    }
    let turns: Vec<(Role, &str)> = stored.iter().map(|t| (t.role, t.text.as_str())).collect();
    assert_eq!(
        turns,
        vec![(Role::User, "how are you"), (Role::Assistant, "let me see"), (Role::User, "hm")]
    );
}

#[test]
fn a_blank_line_is_not_stored() {
    let mut m = started();
    assert!(appended(m.handle_event(transcript(Speaker::Agent, "", true), 2_000)).is_empty());
}

#[test]
fn metrics_sample_reports_upstream_throughput() {
    let mut m = started();
    for _ in 0..5 {
        let effects = m.handle_command(Command::SendAudio { pcm: vec![0; 320] });
        assert!(matches!(effects.as_slice(), [Effect::SendAudio(pcm)] if pcm.len() == 320));
        assert!(m.audio_sent(Ok(())).is_empty());
    }
    let snap = metrics(&m.sample_metrics(2_000, None, None)).unwrap();
    assert_eq!(snap.up_bits, 5 * 320 * 2 * 8);
    assert_eq!(snap.window_ns, 1_000_000_000);
}

#[test]
fn metrics_prefer_provider_wire_bytes_over_payload_estimate() {
    let mut m = started();
    let wire = |received: u64| Some(TransportBytes { sent: 0, received });
    let baseline = metrics(&m.sample_metrics(2_000, wire(500), None)).unwrap();
    assert_eq!(baseline.down_bits, 0, "first sample is the baseline");
    let next = metrics(&m.sample_metrics(3_000, wire(2_500), None)).unwrap();
    assert_eq!(next.down_bits, 2_000 * 8);
}

#[test]
fn metrics_report_provider_token_usage_as_a_rate() {
    let mut m = started();
    let usage = |up: u64, down: u64| Some(TokenUsage { up, down });
    let baseline = metrics(&m.sample_metrics(2_000, None, usage(10, 10))).unwrap();
    assert_eq!(baseline.up_quarter_tokens, 0, "first sample is the baseline");
    let next = metrics(&m.sample_metrics(3_000, None, usage(100, 50))).unwrap();
    assert_eq!(next.up_quarter_tokens, 90 * 4);
    assert_eq!(next.down_quarter_tokens, 40 * 4);
}

#[test]
fn muted_mic_drops_audio_at_manager() {
    let mut m = started();
    let _ = m.handle_command(Command::SetMicMuted { muted: true });
    let effects = m.handle_command(Command::SendAudio { pcm: vec![0; 320] });
    assert!(effects.is_empty(), "expected no audio when muted");
}

#[test]
fn mute_pauses_provider_audio_stream_once_per_transition() {
    let mut m = started();
    let mut ended = 0;
    for muted in [true, true, false] {
        let effects = m.handle_command(Command::SetMicMuted { muted });
        ended += effects.iter().filter(|e| matches!(e, Effect::EndAudioStream)).count();
    }
    assert_eq!(ended, 1);
}

#[test]
fn update_config_rebroadcasts_settings_snapshot() {
    let mut m = SessionManager::new(Config::default(), 1_000, false);
    let mut cfg = Config::default();
    cfg.live_api.gemini.model = "m".to_string();
    cfg.live_api.gemini.voice = Some("Charon".to_string());
    let effects = m.handle_command(Command::UpdateConfig { config: Box::new(cfg) });
    let voice = effects.into_iter().find_map(|e| match e {
        Effect::Emit(UiEvent::Settings { settings }) => {
            settings.into_iter().find(|d| d.id == SettingId::Voice).map(|d| d.value)
        }
        _ => None,
    });
    assert_eq!(voice, Some(SettingValue::Text("Charon".to_string())));
}

#[test]
fn an_interruption_flushes_the_playback() {
    let mut m = started();
    let effects = m.handle_event(SessionEvent::TurnEvent(TurnEvent::Interrupted), 1_500);
    assert!(effects.iter().any(|e| matches!(e, Effect::Play(pcm) if pcm.is_empty())));
    let audio = m.handle_event(SessionEvent::AudioOutput { pcm: vec![1, 2] }, 1_500);
    assert!(audio.iter().any(|e| matches!(e, Effect::Play(pcm) if pcm == &vec![1, 2])));
}

#[test]
fn a_session_that_the_server_closes_is_stopped() {
    let mut m = started();
    let effects = m.handle_event(SessionEvent::Closed { reason: CloseReason::Server }, 1_500);
    assert_eq!(m.state(), AppState::Stopped);
    assert!(effects.iter().any(|e| matches!(
        e,
        Effect::Emit(UiEvent::Connection { status: ConnectionStatus::Disconnected, .. })
    )));
}

#[test]
fn sending_without_a_session_is_refused() {
    let mut m = SessionManager::new(Config::default(), 1_000, false);
    let effects = m.handle_command(Command::SendText { text: "hi".to_string() });
    assert!(matches!(effects.as_slice(), [Effect::ReplyText(Err(SessionError::NotConnected))]));
}

#[test]
fn startup_emits_checking_then_outcome() {
    let first = before_probe(ProbeCause::Startup);
    assert!(matches!(
        first.as_slice(),
        [UiEvent::Reachability { state: Reachability::Checking, detail: None }]
    ));
    assert_eq!(
        after_probe(ProbeOutcome::with_detail(Reachability::Offline, "timeout")),
        UiEvent::Reachability {
            state: Reachability::Offline,
            detail: Some("timeout".to_string()),
        }
    );
}

#[test]
fn no_interval_means_no_poll() {
    assert_eq!(monitor_wait(0), MonitorWait::Demand);
    assert_ne!(monitor_wait(20), MonitorWait::Demand);
}

#[test]
fn headless_full_command_event_loop() {
    let mut m = started();
    let mut session = MockSession::new();
    session.connect().unwrap();
    let mut saw_user = false;
    let mut agent_reply = String::new();
    let mut agent_done = false;
    for effect in m.handle_command(Command::SendText { text: "hello headless".to_string() }) {
        let Effect::SendText(text) = effect else { continue };
        for event in session.send_text(&text).unwrap() {
            for effect in m.handle_event(event, 1_500) {
                match effect {
                    Effect::Emit(UiEvent::Transcript {
                        speaker: Speaker::User,
                        text,
                        final_: true,
                    }) if text == "hello headless" => saw_user = true,
                    Effect::Emit(UiEvent::Transcript { speaker: Speaker::Agent, text, final_ }) => {
                        agent_reply.push_str(&text);
                        if final_ && agent_reply.contains("echo: hello headless") {
                            agent_done = true;
                        }
                    }
                    _ => {}
                }
            }
        }
    }
    assert!(saw_user, "user transcript should surface");
    assert!(agent_done, "agent reply should assemble from streamed deltas");
    let _ = m.handle_command(Command::Stop { pause: false });
    assert_eq!(m.state(), AppState::Stopped);
}

#[test]
fn sends_and_events_interleave_without_deadlock() {
    let mut m = started();
    let mut session = MockSession::new();
    session.connect().unwrap();
    let mut frames = 0;
    for _ in 0..5 {
        for effect in m.handle_command(Command::SendAudio { pcm: vec![0; 320] }) {
            let Effect::SendAudio(_) = effect else { continue };
            for event in session.send_audio().unwrap() {
                frames += m
                    .handle_event(event, 1_500)
                    .iter()
                    .filter(|e| matches!(e, Effect::Play(_)))
                    .count();
            }
        }
    }
    let sent = m.handle_command(Command::SendText { text: "concurrent".to_string() });
    assert!(sent.iter().any(|e| matches!(e, Effect::SendText(t) if t == "concurrent")));
    assert!(frames >= 5);
    let _ = m.handle_command(Command::Stop { pause: false });
}

#[test]
fn trigger_runs_another_probe() {
    let mut told = Vec::new();
    for cause in [ProbeCause::Startup, ProbeCause::OnDemand, ProbeCause::Periodic] {
        told.extend(before_probe(cause));
        told.push(after_probe(ProbeOutcome::new(Reachability::Offline)));
    }
    let states: Vec<Reachability> = told
        .iter()
        .map(|e| match e {
            UiEvent::Reachability { state, .. } => *state,
            other => panic!("expected reachability, got {other:?}"),
        })
        .collect();
    assert_eq!(
        states,
        vec![
            Reachability::Checking,
            Reachability::Offline,
            Reachability::Checking,
            Reachability::Offline,
            Reachability::Offline,
        ]
    );
}
