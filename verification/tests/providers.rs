use joi::config::{ApiKey, Config, ProviderName};
use joi::error::SessionError;
use joi::history::{HistoryTurn, Role};
use joi::media::pcm16_to_le_bytes;
use joi::providers::conformance::{
    conclude, judge_connect, judge_turn, sample_session_config, ConformanceOutcome, StreamEnd,
    PROBE_TEXT,
};
use joi::providers::factory::{
    build_connectivity_probe, build_session_factory, voice_catalog, FactoryError, SessionPlan,
};
use joi::providers::gemini::{
    connect_error_for, history_to_seed_turns, map_connect_err, model_resource_name, probe_outcome,
    setup_over, voices, EventMapper, GeminiAdapter, ProbeReply, ServerEvent, SetupRead,
};
use joi::providers::{MockSession, OpenAIAdapter};
use joi::session::event::{CloseReason, Reachability, SessionEvent, Speaker, TurnEvent};
use joi::session::SessionConfig;

#[test]
fn native_audio_and_current_models_get_the_full_voice_set() {
    assert_eq!(voices("gemini-3.1-flash-live-preview").len(), 30);
    assert_eq!(voices("gemini-2.5-flash-preview-native-audio-dialog").len(), 30);
    assert_eq!(voices("some-future-live-model").len(), 30);
    assert!(voices("gemini-3.1-flash-live-preview").contains(&"Aoede".to_string()));
}

#[test]
fn legacy_half_cascade_models_get_the_eight_voice_subset() {
    assert_eq!(voices("gemini-2.0-flash-live-001").len(), 8);
    assert_eq!(voices("gemini-live-2.5-flash-preview").len(), 8);
    let full = voices("some-future-live-model");
    for v in voices("gemini-2.0-flash-live-001") {
        assert!(full.contains(&v), "{v} not in full set");
    }
}

#[test]
fn sends_before_connect_report_not_connected() {
    let mut a = GeminiAdapter::new();
    assert!(matches!(a.ready(), Err(SessionError::NotConnected)));
    a.connected(Ok(())).unwrap();
    assert!(a.ready().is_ok());
    a.close();
    assert!(matches!(a.ready(), Err(SessionError::NotConnected)));
}

#[test]
fn bare_model_name_is_qualified_for_the_wire() {
    assert_eq!(
        model_resource_name("gemini-3.1-flash-live-preview"),
        "models/gemini-3.1-flash-live-preview"
    );
    assert_eq!(
        model_resource_name("  gemini-3.1-flash-live-preview  "),
        "models/gemini-3.1-flash-live-preview"
    );
}

fn transcript_delta(delta: &str) -> ServerEvent {
    ServerEvent::TranscriptDelta { delta: delta.to_string() }
}

fn input_transcript_delta(delta: &str) -> ServerEvent {
    ServerEvent::InputTranscriptDelta { delta: delta.to_string() }
}

#[test]
fn audio_delta_maps_to_pcm_output() {
    let pcm = vec![0i16, 1, -1, 12345, -32768];
    let event = ServerEvent::AudioDelta { delta: pcm16_to_le_bytes(&pcm) };
    match EventMapper::new().map(event).as_slice() {
        [SessionEvent::AudioOutput { pcm: out }] => assert_eq!(*out, pcm),
        other => panic!("expected one AudioOutput, got {other:?}"),
    }
}

#[test]
fn speech_started_maps_to_barge_in() {
    assert!(matches!(
        EventMapper::new().map(ServerEvent::SpeechStarted).as_slice(),
        [SessionEvent::TurnEvent(TurnEvent::Interrupted)]
    ));
}

#[test]
fn transcript_delta_is_an_incremental_agent_line() {
    match EventMapper::new().map(transcript_delta("hello")).as_slice() {
        [SessionEvent::Transcript { speaker: Speaker::Agent, text, final_: false }] => {
            assert_eq!(text, "hello")
        }
        other => panic!("expected incremental agent transcript, got {other:?}"),
    }
}

#[test]
fn output_transcript_streams_deltas_and_commits_on_turn_end() {
    let mut m = EventMapper::new();
    assert!(matches!(
        m.map(transcript_delta("Hel")).as_slice(),
        [SessionEvent::Transcript { text, final_: false, .. }] if text == "Hel"
    ));
    assert!(matches!(
        m.map(transcript_delta("lo there")).as_slice(),
        [SessionEvent::Transcript { text, final_: false, .. }] if text == "lo there"
    ));
    match m.map(ServerEvent::ResponseDone).as_slice() {
        [SessionEvent::Transcript { speaker: Speaker::Agent, text, final_: true }, SessionEvent::TurnEvent(TurnEvent::TurnComplete)] => {
            assert!(text.is_empty())
        }
        other => panic!("expected empty final + TurnComplete, got {other:?}"),
    }
    assert!(matches!(
        m.map(ServerEvent::ResponseDone).as_slice(),
        [SessionEvent::TurnEvent(TurnEvent::TurnComplete)]
    ));
}

#[test]
fn barge_in_commits_the_open_line() {
    let mut m = EventMapper::new();
    let _ = m.map(transcript_delta("partial reply"));
    match m.map(ServerEvent::SpeechStarted).as_slice() {
        [SessionEvent::Transcript { text, final_: true, .. }, SessionEvent::TurnEvent(TurnEvent::Interrupted)] => {
            assert!(text.is_empty())
        }
        other => panic!("expected empty final + Interrupted, got {other:?}"),
    }
}

#[test]
fn input_transcript_is_a_user_line_committed_when_the_model_replies() {
    let mut m = EventMapper::new();
    assert!(matches!(
        m.map(input_transcript_delta("hel")).as_slice(),
        [SessionEvent::Transcript { speaker: Speaker::User, text, final_: false }] if text == "hel"
    ));
    assert!(matches!(
        m.map(input_transcript_delta("lo")).as_slice(),
        [SessionEvent::Transcript { speaker: Speaker::User, text, final_: false }] if text == "lo"
    ));
    match m.map(transcript_delta("hi there")).as_slice() {
        [SessionEvent::Transcript { speaker: Speaker::User, text: u, final_: true }, SessionEvent::Transcript { speaker: Speaker::Agent, text: a, final_: false }] =>
        {
            assert!(u.is_empty());
            assert_eq!(a, "hi there");
        }
        other => panic!("expected user-final then agent-delta, got {other:?}"),
    }
}

#[test]
fn input_transcript_commits_on_turn_end_without_a_reply() {
    let mut m = EventMapper::new();
    let _ = m.map(input_transcript_delta("just me"));
    match m.map(ServerEvent::ResponseDone).as_slice() {
        [SessionEvent::Transcript { speaker: Speaker::User, text, final_: true }, SessionEvent::TurnEvent(TurnEvent::TurnComplete)] => {
            assert!(text.is_empty())
        }
        other => panic!("expected user-final then TurnComplete, got {other:?}"),
    }
}

#[test]
fn model_audio_commits_the_open_user_line() {
    let mut m = EventMapper::new();
    let _ = m.map(input_transcript_delta("a question"));
    let audio = ServerEvent::AudioDelta { delta: pcm16_to_le_bytes(&[1, 2, 3]) };
    match m.map(audio).as_slice() {
        [SessionEvent::Transcript { speaker: Speaker::User, final_: true, .. }, SessionEvent::AudioOutput { .. }] =>
            {}
        other => panic!("expected user-final then audio, got {other:?}"),
    }
}

#[test]
fn a_done_line_is_not_repeated() {
    let mut m = EventMapper::new();
    let done = |text: &str| ServerEvent::TextDone { text: text.to_string() };
    assert!(matches!(
        m.map(done("whole")).as_slice(),
        [SessionEvent::Transcript { text, final_: true, .. }] if text == "whole"
    ));
    let _ = m.map(ServerEvent::TextDelta { delta: "wh".to_string() });
    assert!(matches!(
        m.map(done("whole")).as_slice(),
        [SessionEvent::Transcript { text, final_: true, .. }] if text.is_empty()
    ));
    assert!(m.map(ServerEvent::Other).is_empty());
}

#[test]
fn history_folds_into_one_user_context_turn() {
    let turns = vec![
        HistoryTurn::new(Role::User, "Hello, can you hear me?", 1),
        HistoryTurn::new(Role::User, "What was my first word?", 2),
        HistoryTurn::new(Role::Assistant, "Yes — it was Hello.", 3),
        HistoryTurn::new(Role::User, "   ", 4),
        HistoryTurn::new(Role::System, "be nice", 5),
    ];
    let seed = history_to_seed_turns(&turns);
    assert_eq!(seed.len(), 1, "exactly one (user) turn");
    let (role, text) = &seed[0];
    assert_eq!(role, "user");
    assert!(text.contains("Me: Hello, can you hear me?"), "{text}");
    assert!(text.contains("Me: What was my first word?"), "{text}");
    assert!(text.contains("You: Yes — it was Hello."), "{text}");
    assert!(!text.contains("be nice"), "system turn dropped: {text}");
    assert_eq!(
        text,
        "[Context: a transcript of our earlier conversation so you can continue it. Don't reply to \
         this note — just use it as memory.]\n\nMe: Hello, can you hear me?\nMe: What was my first \
         word?\nYou: Yes — it was Hello."
    );
}

#[test]
fn empty_or_contentless_history_seeds_nothing() {
    assert!(history_to_seed_turns(&[]).is_empty());
    assert!(history_to_seed_turns(&[HistoryTurn::new(Role::System, "x", 1)]).is_empty());
    assert!(history_to_seed_turns(&[HistoryTurn::new(Role::User, "   ", 1)]).is_empty());
}

#[test]
fn server_error_maps_to_provider_error() {
    let error = |code: Option<&str>| ServerEvent::Error {
        error_type: "internal".to_string(),
        code: code.map(str::to_string),
        message: "boom".to_string(),
    };
    match EventMapper::new().map(error(Some("500"))).as_slice() {
        [SessionEvent::Error(SessionError::Provider(msg))] => {
            assert!(msg.contains("500") && msg.contains("boom"), "{msg}");
        }
        other => panic!("expected provider error, got {other:?}"),
    }
    assert_eq!(
        EventMapper::new().map(error(None)),
        vec![SessionEvent::Error(SessionError::Provider("internal: boom".to_string()))]
    );
}

#[test]
fn a_broken_stream_is_an_error_and_its_end_a_close() {
    let mut m = EventMapper::new();
    assert_eq!(
        m.pump(Err("reset".to_string())),
        vec![SessionEvent::Error(SessionError::Provider("reset".to_string()))]
    );
    assert_eq!(
        EventMapper::stream_end(),
        SessionEvent::Closed { reason: CloseReason::Server }
    );
}

#[test]
fn a_refused_key_is_told_from_a_network_that_is_down() {
    let auth = |m: &str| matches!(map_connect_err(m.to_string()), SessionError::Auth(s) if s == m);
    assert!(auth("HTTP 401"));
    assert!(auth("UNAUTHORIZED"));
    assert!(auth("Permission denied"));
    assert!(auth("bad API Key"));
    assert!(!auth("connection reset"));
    assert!(matches!(
        connect_error_for("Boom".to_string(), "boom"),
        SessionError::Connect(s) if s == "Boom"
    ));
}

#[test]
fn a_connection_is_planned_from_the_session() {
    let cfg = SessionConfig::from_config(
        &Config::default(),
        vec![HistoryTurn::new(Role::User, "hi", 1)],
        None,
    );
    let plan = GeminiAdapter::plan(&cfg);
    assert_eq!(plan.model, "models/gemini-live-2.5-flash-native-audio");
    assert_eq!(plan.voice.as_deref(), Some("Aoede"));
    assert!(plan.input_transcription && plan.output_transcription);
    assert_eq!(plan.seed.len(), 1);
}

#[test]
fn setup_is_awaited_until_the_session_is_there_or_gone() {
    assert!(setup_over(SetupRead::Created));
    assert!(!setup_over(SetupRead::Another));
    assert!(setup_over(SetupRead::Ended));
}

#[test]
fn probes_are_told_apart() {
    let status = |code: u16, text: &str| {
        probe_outcome(&ProbeReply::Status { code, text: text.to_string() })
    };
    let ok = status(200, "200 OK");
    assert_eq!((ok.state, ok.detail), (Reachability::Online, None));
    let refused = status(403, "403 Forbidden");
    assert_eq!(
        (refused.state, refused.detail.as_deref()),
        (Reachability::Unauthorized, Some("HTTP 403 Forbidden"))
    );
    assert_eq!(status(500, "500 Internal Server Error").state, Reachability::Offline);
    assert_eq!(probe_outcome(&ProbeReply::Timeout).detail.as_deref(), Some("timeout"));
    assert_eq!(
        probe_outcome(&ProbeReply::NoConnection).detail.as_deref(),
        Some("connection failed")
    );
    assert_eq!(probe_outcome(&ProbeReply::Failed).detail.as_deref(), Some("request error"));
}

fn config_with(provider: ProviderName) -> Config {
    let mut c = Config::default();
    c.live_api.provider = provider;
    c
}

#[test]
fn mock_factory_creates_a_connectable_session() {
    let plan = build_session_factory(&config_with(ProviderName::Mock)).unwrap_or(SessionPlan::Openai);
    assert!(matches!(plan, SessionPlan::Mock));
    let mut session = MockSession::new();
    session.connect().unwrap();
    assert!(session.send_video_frame().is_ok());
}

#[test]
fn openai_factory_builds_without_a_key() {
    assert!(build_session_factory(&config_with(ProviderName::Openai)).is_ok());
}

#[test]
fn gemini_without_a_key_is_an_error() {
    assert!(matches!(
        build_session_factory(&config_with(ProviderName::Gemini)),
        Err(FactoryError::MissingApiKey)
    ));
    assert!(build_connectivity_probe(&config_with(ProviderName::Gemini)).is_none());
    assert_eq!(
        FactoryError::MissingApiKey.to_string(),
        "no API key for the gemini provider — set GEMINI_API_KEY or live_api.gemini.api_key"
    );
    assert_eq!(
        FactoryError::ProviderDisabled("x".to_string()).to_string(),
        "provider 'x' is not compiled in (feature disabled)"
    );
}

#[test]
fn gemini_with_a_key_builds() {
    let mut config = config_with(ProviderName::Gemini);
    config.live_api.gemini.api_key = ApiKey::new("k");
    assert!(build_session_factory(&config).is_ok());
    assert_eq!(build_connectivity_probe(&config).unwrap().get(), Some("k"));
    assert_eq!(voice_catalog(&config).len(), 30);
    assert!(voice_catalog(&config_with(ProviderName::Mock)).is_empty());
}

#[test]
fn scripted_turn_is_ordered() {
    let mut s = MockSession::new();
    assert!(matches!(s.send_text("hi"), Err(SessionError::NotConnected)));
    s.connect().unwrap();
    let events = s.send_text("hi").unwrap();
    let a = events
        .iter()
        .position(|e| {
            matches!(e, SessionEvent::Transcript { speaker: Speaker::Agent, final_: true, .. })
        })
        .expect("agent final transcript");
    let t = events
        .iter()
        .position(|e| matches!(e, SessionEvent::TurnEvent(TurnEvent::TurnComplete)))
        .expect("turn complete");
    assert!(a < t, "final transcript must precede turn-complete");
    assert!(matches!(
        s.send_audio().unwrap().as_slice(),
        [SessionEvent::AudioOutput { pcm }] if pcm.len() == 240
    ));
    s.close();
    assert!(matches!(s.send_audio(), Err(SessionError::NotConnected)));
}

#[test]
fn mock_passes_full_loop() {
    let cfg = sample_session_config();
    assert_eq!(cfg.model, "conformance-model");
    let mut s = MockSession::new();
    let connected = s.connect();
    assert!(judge_connect(&connected).is_none());
    let events = s.send_text(PROBE_TEXT).unwrap();
    let turn = judge_turn(&events, StreamEnd::Closed);
    s.close();
    assert_eq!(conclude(&Ok(()), turn, &Ok(())), Ok(ConformanceOutcome::FullLoop));
}

#[test]
fn openai_stub_is_verified_not_failed() {
    let refused = OpenAIAdapter::new().connect();
    assert_eq!(judge_connect(&refused), Some(Ok(ConformanceOutcome::StubVerified)));
    assert!(matches!(OpenAIAdapter::new().send(), Err(SessionError::NotConnected)));
}

#[test]
fn runs_that_break_a_rule_are_failed() {
    let words = |r: Result<ConformanceOutcome, joi::providers::conformance::ConformanceError>| {
        r.unwrap_err().0
    };
    assert_eq!(
        words(judge_connect(&Err(SessionError::NotConnected)).unwrap()),
        format!("connect failed: {}", SessionError::NotConnected.to_string())
    );
    let turn = |events: &[SessionEvent], end: StreamEnd| judge_turn(events, end).unwrap_err().0;
    assert_eq!(turn(&[], StreamEnd::Closed), "event stream closed before TurnComplete");
    assert_eq!(turn(&[], StreamEnd::TimedOut), "timed out waiting for events");
    let complete = || SessionEvent::TurnEvent(TurnEvent::TurnComplete);
    let line = |speaker: Speaker| SessionEvent::Transcript {
        speaker,
        text: "x".to_string(),
        final_: true,
    };
    assert_eq!(turn(&[complete()], StreamEnd::Closed), "no user transcript observed");
    assert_eq!(
        turn(&[line(Speaker::User), complete(), line(Speaker::Agent)], StreamEnd::Closed),
        "no final agent transcript observed"
    );
    let sent = Err(SessionError::NotConnected);
    assert!(words(conclude(&sent, Ok(()), &Ok(()))).starts_with("send_text failed: "));
    let closed = Err(SessionError::NotConnected);
    assert!(words(conclude(&Ok(()), Ok(()), &closed)).starts_with("close failed: "));
}
