use joi::config::{ApiKey, Config, LogLevel, ProjectPaths, ProviderName};
use joi::error::{CaptureError, ConfigError, HistoryError, SecretError, SessionError, SettingsError};
use joi::secrets::{EnvSecretStore, EnvValue, EnvWithOverlayStore, InMemorySecretStore};
use joi::settings::{
    apply_setting, settings_schema, settings_schema_with, ApplyTiming, SettingId, SettingKind,
    SettingValue, SettingsContext,
};

fn test_paths() -> ProjectPaths {
    ProjectPaths {
        config_file: "/nonexistent/joi.yaml".to_string(),
        data_dir: "/data".to_string(),
        history_dir: "/data/history".to_string(),
        log_dir: "/state".to_string(),
    }
}

#[test]
fn defaults_are_valid() {
    Config::default().validate().unwrap();
}

#[test]
fn missing_file_yields_defaults_with_resolved_paths() {
    let cfg = Config::default().resolved(&test_paths()).unwrap();
    assert_eq!(cfg.live_api.provider, ProviderName::Gemini);
    assert_eq!(cfg.history.dir, Some("/data/history".to_string()));
    assert_eq!(cfg.logging.file, Some("/state/joi.log".to_string()));
}

#[test]
fn invalid_value_is_rejected() {
    let mut cfg = Config::default();
    cfg.media.audio.frame_ms = 500;
    let err = cfg.validate().unwrap_err();
    assert!(matches!(err, ConfigError::Invalid { .. }));
}

#[test]
fn a_qualified_model_is_rejected() {
    let mut cfg = Config::default();
    cfg.live_api.gemini.model = "models/gemini".to_string();
    assert!(cfg.validate().is_err());
    cfg.live_api.gemini.model = "   ".to_string();
    assert!(cfg.validate().is_err());
}

#[test]
fn gemini_convenience_env_overrides_win() {
    let mut cfg = Config::default();
    cfg.live_api.gemini.api_key = ApiKey::new("file-secret");
    cfg.live_api.gemini.model = "file-model".to_string();
    cfg.apply_provider_overrides(Some("env-secret".into()), Some("env-model".into()));
    assert_eq!(cfg.live_api.gemini.api_key.get(), Some("env-secret"));
    assert_eq!(cfg.live_api.gemini.model, "env-model");
    cfg.apply_provider_overrides(Some(String::new()), None);
    assert_eq!(cfg.live_api.gemini.api_key.get(), Some("env-secret"));
}

#[test]
fn api_key_redacts_in_debug() {
    let rendered = ApiKey::new("super-secret-key-987").redacted();
    assert!(!rendered.contains("super-secret-key-987"), "leaked: {rendered}");
    assert_eq!(ApiKey::unset().redacted(), "ApiKey(unset)");
}

#[test]
fn a_stored_configuration_has_no_key() {
    let mut cfg = Config::default();
    cfg.live_api.gemini.api_key = ApiKey::new("secret");
    let stored = cfg.without_key();
    assert!(!stored.live_api.gemini.api_key.is_set());
    assert_eq!(stored.live_api.gemini.model, cfg.live_api.gemini.model);
}

fn raw(key: Result<Option<ApiKey>, SecretError>) -> Result<Option<String>, SecretError> {
    key.map(|k| k.and_then(|k| k.get().map(str::to_string)))
}

#[test]
fn set_then_get_roundtrips() {
    let mut store = InMemorySecretStore::new();
    assert!(!store.has_api_key());
    assert!(store.get_api_key().is_none());
    store.set_api_key(ApiKey::new("abc123"));
    assert!(store.has_api_key());
    let got = store.get_api_key().unwrap();
    assert_eq!(got.get(), Some("abc123"));
    assert!(!got.redacted().contains("abc123"));
}

#[test]
fn env_store_reads_the_variable() {
    let store = EnvSecretStore::new();
    assert_eq!(
        raw(store.get_api_key(EnvValue::Present("env-key-123".to_string()))),
        Ok(Some("env-key-123".to_string()))
    );
    assert_eq!(raw(store.get_api_key(EnvValue::Absent)), Ok(None));
    assert!(store.get_api_key(EnvValue::Present(String::new())).is_ok_and(|k| k.is_none()));
    assert_eq!(
        raw(store.get_api_key(EnvValue::NotUnicode)),
        Err(SecretError::Backend("GEMINI_API_KEY is set but is not valid UTF-8".to_string()))
    );
}

#[test]
fn env_store_is_read_only() {
    assert!(EnvSecretStore::new().set_api_key(ApiKey::new("x")).is_err());
}

#[test]
fn the_environment_comes_before_the_overlay() {
    let mut store = EnvWithOverlayStore::new();
    assert_eq!(raw(store.get_api_key(EnvValue::Absent)), Ok(None));
    store.set_api_key(ApiKey::new("typed"));
    assert_eq!(raw(store.get_api_key(EnvValue::Absent)), Ok(Some("typed".to_string())));
    assert_eq!(
        raw(store.get_api_key(EnvValue::Present("env".to_string()))),
        Ok(Some("env".to_string()))
    );
    assert!(store.get_api_key(EnvValue::NotUnicode).is_err());
}

#[test]
fn schema_covers_every_setting_id_exactly_once() {
    let cfg = Config::default();
    let ids: Vec<SettingId> = settings_schema(&cfg).into_iter().map(|d| d.id).collect();
    assert_eq!(ids, SettingId::all());
}

#[test]
fn apply_timing_is_pinned_per_setting() {
    let cfg = Config::default();
    let by_id = |want: SettingId| {
        settings_schema(&cfg).into_iter().find(|d| d.id == want).unwrap().apply
    };
    assert_eq!(by_id(SettingId::Voice), ApplyTiming::NextSession);
    assert_eq!(by_id(SettingId::Accent), ApplyTiming::Immediate);
    assert_eq!(by_id(SettingId::Background), ApplyTiming::Immediate);
}

#[test]
fn every_setting_round_trips_through_schema_and_apply() {
    let mut cfg = Config::default();
    cfg.live_api.gemini.model = "m".to_string();
    for desc in settings_schema(&cfg) {
        apply_setting(&mut cfg, desc.id, &desc.value).unwrap();
        let after = settings_schema(&cfg).into_iter().find(|d| d.id == desc.id).unwrap();
        assert_eq!(after.value, desc.value, "value drifted for {:?}", desc.id);
    }
}

#[test]
fn voice_change_sets_and_clears() {
    let mut cfg = Config::default();
    cfg.live_api.gemini.model = "m".to_string();
    apply_setting(&mut cfg, SettingId::Voice, &SettingValue::Text("Charon".to_string())).unwrap();
    assert_eq!(cfg.live_api.gemini.voice.as_deref(), Some("Charon"));
    apply_setting(&mut cfg, SettingId::Voice, &SettingValue::Text(String::new())).unwrap();
    assert_eq!(cfg.live_api.gemini.voice, None);
}

#[test]
fn wrong_value_type_is_rejected_and_leaves_config_untouched() {
    let mut cfg = Config::default();
    cfg.live_api.gemini.model = "m".to_string();
    let before = cfg.ui.terminal.accent.clone();
    let err = apply_setting(&mut cfg, SettingId::Accent, &SettingValue::Bool(true)).unwrap_err();
    assert!(matches!(err, SettingsError::InvalidValue { .. }));
    assert_eq!(cfg.ui.terminal.accent, before, "rejected change must not mutate");
}

#[test]
fn empty_color_is_rejected() {
    let mut cfg = Config::default();
    cfg.live_api.gemini.model = "m".to_string();
    let err = apply_setting(
        &mut cfg,
        SettingId::Background,
        &SettingValue::Text("   ".to_string()),
    )
    .unwrap_err();
    assert!(matches!(err, SettingsError::InvalidValue { .. }));
}

#[test]
fn a_change_that_invalidates_the_configuration_changes_nothing() {
    let mut cfg = Config::default();
    cfg.live_api.gemini.model = String::new();
    let err = apply_setting(
        &mut cfg,
        SettingId::Accent,
        &SettingValue::Text("#ffffff".to_string()),
    )
    .unwrap_err();
    assert!(matches!(err, SettingsError::InvalidValue { .. }));
    assert_eq!(cfg.ui.terminal.accent, "#9aede4");
}

#[test]
fn the_voices_of_a_context_are_the_options() {
    let cfg = Config::default();
    let ctx = SettingsContext { voices: vec!["A".to_string(), "B".to_string()] };
    let schema = settings_schema_with(&cfg, &ctx);
    assert_eq!(
        schema[0].kind,
        SettingKind::Choice { options: vec!["A".to_string(), "B".to_string()] }
    );
    assert_eq!(schema[1].kind, SettingKind::Color);
}

#[test]
fn levels_have_their_directives() {
    let words: Vec<&str> =
        [LogLevel::Error, LogLevel::Warn, LogLevel::Info, LogLevel::Debug, LogLevel::Trace]
            .iter()
            .map(|l| l.as_directive())
            .collect();
    assert_eq!(words, vec!["error", "warn", "info", "debug", "trace"]);
}

#[test]
fn errors_have_words() {
    assert_eq!(
        ConfigError::Load("x".to_string()).to_string(),
        "failed to load configuration: x"
    );
    assert_eq!(
        ConfigError::Invalid { field: "f".to_string(), reason: "r".to_string() }.to_string(),
        "invalid configuration: f: r"
    );
    assert_eq!(
        ConfigError::Path { path: "/p".to_string(), reason: "r".to_string() }.to_string(),
        "could not resolve path /p: r"
    );
    let x = || "x".to_string();
    assert_eq!(SessionError::Connect(x()).to_string(), "connection failed: x");
    assert_eq!(SessionError::NotConnected.to_string(), "session not connected");
    assert_eq!(SessionError::Send(x()).to_string(), "send failed: x");
    assert_eq!(SessionError::Auth(x()).to_string(), "authentication failed: x");
    assert_eq!(SessionError::Provider(x()).to_string(), "provider error: x");
    assert_eq!(SessionError::Unimplemented(x()).to_string(), "provider not implemented: x");
    assert_eq!(HistoryError::Io(x()).to_string(), "history io error: x");
    assert_eq!(HistoryError::Serde(x()).to_string(), "history serialization error: x");
    assert_eq!(CaptureError::Unavailable(x()).to_string(), "screen capture unavailable: x");
    assert_eq!(CaptureError::UnknownSource(x()).to_string(), "unknown capture source: x");
    assert_eq!(CaptureError::Backend(x()).to_string(), "capture backend error: x");
}
