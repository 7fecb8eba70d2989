use joi::config::{ApiKey, Config, ProviderName};
use joi::error::{HistoryError, SessionError, SettingsError};
use joi::host::{
    build_tool_runtime, host_command, host_line, resynced, store_failed, HostCommand, JoiApp,
    MediaMode,
};
use joi::providers::factory::{FactoryError, SessionPlan};
use joi::session::event::Speaker;
use joi::settings::{SettingId, SettingKind, SettingValue};
use joi::text::{lines, to_decimal, trim};
use joi::tools::{PermissionProfile, ToolsCfg};
use joi::util::tmp_sibling;

fn mock_config() -> Config {
    let mut config = Config::default();
    config.live_api.provider = ProviderName::Mock;
    config.history.dir = None;
    config
}

#[test]
fn no_api_key_falls_back_without_panicking() {
    let mut config = Config::default();
    config.live_api.gemini.api_key = ApiKey::unset();
    config.history.dir = None;
    let (app, plan) = JoiApp::build_with_config_path(config, MediaMode::Headless, None);
    assert!(matches!(plan, Err(FactoryError::MissingApiKey)));
    assert!(!app.has_api_key());
    assert!(matches!(
        app.session(),
        Err(SessionError::Provider(e))
            if e == "no API key configured (set GEMINI_API_KEY or live_api.gemini.api_key)"
    ));
    let stop = app.stop();
    assert!(stop.session.is_err() && !stop.stop_capture);
    assert!(app.store().is_err());
    assert!(app.retarget(stop.session).is_err());
}

#[test]
fn a_configuration_plans_its_engine() {
    let mut config = mock_config();
    config.history.dir = Some("/s".to_string());
    let (mut app, plan) = JoiApp::build_with_config_path(config, MediaMode::LocalDevices, None);
    let plan = plan.unwrap_or_else(|_| panic!("a plan"));
    assert!(matches!(plan.session, SessionPlan::Mock));
    assert_eq!(plan.store_dir.as_deref(), Some("/s"));
    assert_eq!(plan.media.map(|m| m.frame_samples), Some(320));
    assert!(plan.probe_key.is_none());
    assert!(app.has_media());
    assert_eq!(app.started(Ok(())), Ok(true));
    assert!(app.started(Err(SessionError::NotConnected)).is_err());
    assert!(matches!(
        app.retarget(Ok(())),
        Err(SessionError::Provider(e)) if e == "session history is not available"
    ));
    app.sessions_opened();
    assert!(app.retarget(Ok(())).is_ok());
    assert!(app.retarget(Err(SessionError::NotConnected)).is_err());
    assert_eq!(
        store_failed(&HistoryError::Io("gone".to_string())),
        SessionError::Provider("history io error: gone".to_string())
    );
}

#[test]
fn update_setting_persists_resyncs_and_rebroadcasts() {
    let mut config = mock_config();
    config.live_api.gemini.model = "mock-model".to_string();
    config.live_api.gemini.api_key = ApiKey::new("secret");
    let (mut app, _) = JoiApp::build_with_config_path(
        config,
        MediaMode::Headless,
        Some("/c/config.json".to_string()),
    );
    let accent_value = |app: &JoiApp| {
        app.settings_schema().into_iter().find(|d| d.id == SettingId::Accent).map(|d| d.value)
    };
    assert_eq!(accent_value(&app), Some(SettingValue::Text("#9aede4".to_string())));

    let change = app
        .propose_setting(SettingId::Accent, &SettingValue::Text("#ff0066".to_string()))
        .unwrap_or_else(|_| panic!("accent is editable"));
    assert_eq!(change.path, "/c/config.json");
    assert_eq!(change.stored.ui.terminal.accent, "#ff0066");
    assert!(!change.stored.live_api.gemini.api_key.is_set());
    let snapshot = app.adopt_setting(change, Ok(())).unwrap();
    assert_eq!(accent_value(&app), Some(SettingValue::Text("#ff0066".to_string())));
    assert!(app.current_config().live_api.gemini.api_key.is_set());
    assert_eq!(app.ui_config().terminal.accent, "#9aede4");

    let accent = snapshot.iter().find(|d| d.id == SettingId::Accent).unwrap();
    assert_eq!(accent.value, SettingValue::Text("#ff0066".to_string()));
    let voice = snapshot.iter().find(|d| d.id == SettingId::Voice).unwrap();
    assert_eq!(
        voice.kind,
        SettingKind::Choice { options: vec![] },
        "Mock provider offers no voices → empty Choice options"
    );

    assert!(matches!(
        app.propose_setting(SettingId::Accent, &SettingValue::Bool(true)),
        Err(SettingsError::InvalidValue { .. })
    ));
    assert_eq!(accent_value(&app), Some(SettingValue::Text("#ff0066".to_string())));
}

#[test]
fn a_change_that_cannot_be_written_is_not_adopted() {
    let (app, _) = JoiApp::build_with_config_path(mock_config(), MediaMode::Headless, None);
    let blue = SettingValue::Text("#0000ff".to_string());
    assert!(matches!(
        app.propose_setting(SettingId::Accent, &blue),
        Err(SettingsError::Io(e)) if e == "no config path to persist to"
    ));
    let (mut app, _) = JoiApp::build_with_config_path(
        mock_config(),
        MediaMode::Headless,
        Some("/c".to_string()),
    );
    let change = app.propose_setting(SettingId::Accent, &blue).unwrap_or_else(|_| panic!("ok"));
    assert!(matches!(
        app.adopt_setting(change, Err("disk full".to_string())),
        Err(SettingsError::Io(e)) if e == "disk full"
    ));
    assert_eq!(app.current_config().ui.terminal.accent, "#9aede4");
    assert!(resynced(Ok(())).is_ok());
    assert!(matches!(resynced(Err(SessionError::NotConnected)), Err(SettingsError::Io(_))));
}

fn tools(enabled: bool) -> ToolsCfg {
    ToolsCfg {
        enabled,
        readable_roots: Vec::new(),
        writable_roots: vec!["out".to_string()],
        builtins: vec!["read".to_string()],
        timeout_secs: 5,
        max_output_bytes: 1_000,
        network: true,
        permissions: PermissionProfile { rules: Vec::new() },
    }
}

#[test]
fn tools_are_built_from_their_configuration() {
    let runtime = build_tool_runtime(tools(true), "/work");
    assert_eq!(runtime.registry.schemas().len(), 1);
    assert_eq!(runtime.ctx_template.readable_roots, vec!["/"]);
    assert_eq!(runtime.ctx_template.writable_roots, vec!["/work/out"]);
    assert_eq!(runtime.ctx_template.timeout_ms, 5_000);
    assert!(runtime.ctx_template.network);
    let mut endless = tools(true);
    endless.timeout_secs = u64::MAX;
    assert_eq!(build_tool_runtime(endless, "/").ctx_template.timeout_ms, u64::MAX);
    assert!(build_tool_runtime(tools(false), "/work").registry.is_empty());
}

#[test]
fn lines_typed_to_the_host_are_commands_or_text() {
    assert_eq!(host_command("  \n"), HostCommand::Nothing);
    assert_eq!(host_command("quit\n"), HostCommand::Quit);
    assert_eq!(host_command(" start "), HostCommand::Start);
    assert_eq!(host_command("stop"), HostCommand::Stop);
    assert_eq!(host_command("Stop it"), HostCommand::Text("Stop it".to_string()));
    assert_eq!(host_line(Speaker::Agent, "hi"), "[Agent] hi");
    assert_eq!(host_line(Speaker::User, "yo"), "[User] yo");
}

#[test]
fn a_temporary_file_stands_beside_its_target() {
    assert_eq!(tmp_sibling("/a/config.json", 42), "/a/config.json.tmp.42");
    assert_eq!(tmp_sibling("config.json", 7), "config.json.tmp.7");
    assert_eq!(tmp_sibling("/", 7), "/.tmp.7");
    assert_eq!(tmp_sibling("a/..", 7), "a/../.tmp.7");
}

#[test]
fn texts_are_trimmed_split_and_counted() {
    assert_eq!(trim("\u{3000} a b\t\r\n"), "a b");
    assert_eq!(trim(" \n "), "");
    assert_eq!(lines("a\r\nb\n\nc"), vec!["a", "b", "", "c"]);
    assert_eq!(lines("a\n"), vec!["a"]);
    assert_eq!(to_decimal(0), "0");
    assert_eq!(to_decimal(u64::MAX), "18446744073709551615");
}
