//! The composed app: what a configuration builds, what each request does, and how a setting is
//! changed.
use vstd::prelude::*;
use vstd::string::*;

use crate::config::{ApiKey, Config, UiCfg};
use crate::error::{HistoryError, SessionError, SessionErrorView, SettingsError};
use crate::native::MediaConfig;
use crate::providers::factory::{FactoryError, SessionPlan};
use crate::session::event::Speaker;
use crate::settings::{DescriptorView, SettingDescriptor, SettingId, SettingValue, SettingsContext};
use crate::settings::ValueView;
use crate::tools::{ToolCtx, ToolRuntime, ToolsCfg};

verus! {

/// Whether the app drives the devices of its machine.
#[derive(Debug, Clone, Copy, PartialEq, Eq, Structural)]
pub enum MediaMode {
    /// Its own microphone, speaker and screen.
    LocalDevices,
    /// None of them; the host feeds and takes the audio.
    Headless,
}

/// What is to be built for sessions to run.
#[derive(PartialEq, Eq)]
pub struct EnginePlan {
    /// The session that is connected.
    pub session: SessionPlan,
    /// Where sessions are kept; without it they are kept in memory.
    pub store_dir: Option<String>,
    /// The devices to drive, if any.
    pub media: Option<MediaConfig>,
    /// The key with which reachability is probed, if it can be.
    pub probe_key: Option<ApiKey>,
}

/// The app.
pub struct JoiApp {
    config: Config,
    ui: UiCfg,
    config_path: Option<String>,
    has_key: bool,
    engine: bool,
    media: bool,
    sessions: bool,
}

/// What every request looks at.
#[derive(Debug, Clone, Copy, PartialEq, Eq, Structural)]
pub struct AppParts {
    /// Whether there is an API key.
    pub has_key: bool,
    /// Whether sessions can run.
    pub engine: bool,
    /// Whether local devices are driven.
    pub media: bool,
    /// Whether sessions are kept.
    pub sessions: bool,
}

/// What is done when a session is to stop.
#[derive(Debug, PartialEq, Eq)]
pub struct StopPlan {
    /// Whether to stop capturing the microphone first.
    pub stop_capture: bool,
    /// Whether there is a session manager to stop, or why not.
    pub session: Result<(), SessionError>,
}

/// A change of a setting that is to be written.
#[derive(PartialEq, Eq)]
pub struct SettingChange {
    /// The configuration after it.
    pub next: Config,
    /// Where to write.
    pub path: String,
    /// What to write: the configuration without the key.
    pub stored: Config,
}

/// Why nothing can be asked of a session.
pub open spec fn no_session() -> SessionErrorView {
    SessionErrorView::Provider(
        "no API key configured (set GEMINI_API_KEY or live_api.gemini.api_key)"@,
    )
}

/// Why nothing can be asked of the kept sessions.
pub open spec fn no_history() -> SessionErrorView {
    SessionErrorView::Provider("session history is not available"@)
}

/// The settings of a configuration, with the voices of its provider.
pub fn build_current_schema(cfg: &Config) -> (r: Vec<SettingDescriptor>)
    ensures
        crate::text::views(r@) == crate::settings::schema_of(
            *cfg,
            crate::providers::factory::catalog_of(*cfg),
        ),
{
    let ctx: SettingsContext = SettingsContext {
        voices: crate::providers::factory::voice_catalog(cfg),
    };
    crate::settings::settings_schema_with(cfg, &ctx)
}

impl JoiApp {
    /// What every request looks at.
    pub closed spec fn parts(&self) -> AppParts {
        AppParts {
            has_key: self.has_key,
            engine: self.engine,
            media: self.media,
            sessions: self.sessions,
        }
    }

    /// The configuration that is in use.
    pub closed spec fn config(&self) -> Config {
        self.config
    }

    /// The frontend settings it was built with.
    pub closed spec fn ui(&self) -> UiCfg {
        self.ui
    }

    /// Where changes of settings are written.
    pub closed spec fn config_path(&self) -> Option<Seq<char>> {
        crate::history::session::opt_text(self.config_path)
    }

    /// The app for a configuration, and what is to be built for its sessions. Where no session can be
    /// had, the app is there all the same, and says so when it is asked for one.
    pub fn build_with_config_path(
        config: Config,
        media_mode: MediaMode,
        config_path: Option<String>,
    ) -> (r: (JoiApp, Result<EnginePlan, FactoryError>))
        requires
            16_000 * config.media.audio.frame_ms / 1000 <= usize::MAX,
        ensures
            r.0.config() == config,
            r.0.ui() == config.ui,
            r.0.config_path() == crate::history::session::opt_text(config_path),
            r.0.parts() == (AppParts {
                has_key: config.live_api.gemini.api_key@.len() > 0,
                engine: r.1 is Ok,
                media: r.1 is Ok && media_mode == MediaMode::LocalDevices,
                sessions: false,
            }),
            match config.live_api.provider {
                crate::config::ProviderName::Gemini => if config.live_api.gemini.api_key@.len() > 0 {
                    &&& r.1 is Ok
                    &&& r.1->Ok_0.session matches SessionPlan::Gemini { api_key } && api_key@
                        == config.live_api.gemini.api_key@
                    &&& r.1->Ok_0.probe_key matches Some(k) && k@
                        == config.live_api.gemini.api_key@
                } else {
                    r.1 matches Err(FactoryError::MissingApiKey)
                },
                crate::config::ProviderName::Openai => r.1 is Ok && r.1->Ok_0.session
                    == SessionPlan::Openai && r.1->Ok_0.probe_key is None,
                crate::config::ProviderName::Mock => r.1 is Ok && r.1->Ok_0.session
                    == SessionPlan::Mock && r.1->Ok_0.probe_key is None,
            },
            r.1 is Ok ==> ({
                let plan = r.1->Ok_0;
                &&& crate::history::session::opt_text(plan.store_dir)
                    == crate::history::session::opt_text(config.history.dir)
                &&& plan.media is Some == (media_mode == MediaMode::LocalDevices)
                &&& plan.media is Some ==> plan.media->0.of(config)
            }),
    {
        let has_key: bool = config.live_api.gemini.api_key.is_set();
        let local: bool = media_mode == MediaMode::LocalDevices;
        let plan: Result<EnginePlan, FactoryError> =
            match crate::providers::factory::build_session_factory(&config) {
            Ok(session) => {
                let store_dir: Option<String> = match &config.history.dir {
                    Some(d) => Some(d.clone()),
                    None => None,
                };
                let media: Option<MediaConfig> = if local {
                    Some(MediaConfig::from_config(&config))
                } else {
                    None
                };
                let probe_key: Option<ApiKey> =
                    crate::providers::factory::build_connectivity_probe(&config);
                Ok(EnginePlan { session, store_dir, media, probe_key })
            },
            Err(e) => Err(e),
        };
        let engine: bool = plan.is_ok();
        let ui: UiCfg = config.ui.clone();
        let app: JoiApp = JoiApp {
            config,
            ui,
            config_path,
            has_key,
            engine,
            media: engine && local,
            sessions: false,
        };
        (app, plan)
    }

    /// Note that sessions are kept from now on.
    pub fn sessions_opened(&mut self)
        ensures
            final(self).parts() == (AppParts { sessions: true, ..old(self).parts() }),
            final(self).config() == old(self).config(),
            final(self).ui() == old(self).ui(),
            final(self).config_path() == old(self).config_path(),
    {
        self.sessions = true;
    }

    /// The frontend settings, for a host to hand to its frontend.
    pub fn ui_config(&self) -> (r: UiCfg)
        ensures
            r == self.ui(),
    {
        self.ui.clone()
    }

    /// Whether something can be asked of a session.
    pub fn session(&self) -> (r: Result<(), SessionError>)
        ensures
            self.parts().engine ==> r is Ok,
            !self.parts().engine ==> (r matches Err(e) && e@ == no_session()),
    {
        if self.engine {
            Ok(())
        } else {
            Err(
                SessionError::Provider(
                    "no API key configured (set GEMINI_API_KEY or live_api.gemini.api_key)".to_owned(),
                ),
            )
        }
    }

    /// What follows when a session started: whether to begin capturing the microphone, or why the
    /// start failed.
    pub fn started(&self, result: Result<(), SessionError>) -> (r: Result<bool, SessionError>)
        ensures
            match result {
                Ok(()) => r matches Ok(capture) && capture == self.parts().media,
                Err(e) => r matches Err(f) && f == e,
            },
    {
        match result {
            Ok(()) => Ok(self.media),
            Err(e) => Err(e),
        }
    }

    /// What is done when the session is to stop: the capture ends in any case.
    pub fn stop(&self) -> (r: StopPlan)
        ensures
            r.stop_capture == self.parts().media,
            self.parts().engine ==> r.session is Ok,
            !self.parts().engine ==> (r.session matches Err(e) && e@ == no_session()),
    {
        StopPlan { stop_capture: self.media, session: self.session() }
    }

    /// Whether local devices are driven.
    pub fn has_media(&self) -> (r: bool)
        ensures
            r == self.parts().media,
    {
        self.media
    }

    /// Whether there is an API key.
    #[must_use]
    pub fn has_api_key(&self) -> (r: bool)
        ensures
            r == self.parts().has_key,
    {
        self.has_key
    }

    /// Whether the kept sessions can be asked for something.
    pub fn store(&self) -> (r: Result<(), SessionError>)
        ensures
            self.parts().sessions ==> r is Ok,
            !self.parts().sessions ==> (r matches Err(e) && e@ == no_history()),
    {
        if self.sessions {
            Ok(())
        } else {
            Err(SessionError::Provider("session history is not available".to_owned()))
        }
    }

    /// Whether another session can become the current one, once the live one was stopped: not where
    /// that failed, and not where none are kept.
    pub fn retarget(&self, stopped: Result<(), SessionError>) -> (r: Result<(), SessionError>)
        ensures
            match stopped {
                Err(e) => r matches Err(f) && f == e,
                Ok(()) => {
                    &&& self.parts().sessions ==> r is Ok
                    &&& !self.parts().sessions ==> (r matches Err(e) && e@ == no_history())
                },
            },
    {
        match stopped {
            Err(e) => Err(e),
            Ok(()) => self.store(),
        }
    }

    /// The settings that can be changed, as they stand.
    #[must_use]
    pub fn settings_schema(&self) -> (r: Vec<SettingDescriptor>)
        ensures
            crate::text::views(r@) == crate::settings::schema_of(
                self.config(),
                crate::providers::factory::catalog_of(self.config()),
            ),
    {
        build_current_schema(&self.config)
    }

    /// The configuration that is in use.
    pub fn current_config(&self) -> (r: &Config)
        ensures
            *r == self.config(),
    {
        &self.config
    }

    /// A change of a setting, ready to be written: refused where the value does not fit, and where
    /// there is nowhere to write it. Nothing changes yet.
    pub fn propose_setting(&self, id: SettingId, value: &SettingValue) -> (r: Result<
        SettingChange,
        SettingsError,
    >)
        ensures
            match crate::settings::change_flaw(self.config(), id, value@) {
                Some(why) => r matches Err(e) && crate::settings::is_refusal(Err(e), id, why),
                None => match self.config_path() {
                    None => r matches Err(SettingsError::Io(w)) && w@
                        == "no config path to persist to"@,
                    Some(path) => {
                        &&& r matches Ok(change)
                        &&& change.path@ == path
                        &&& change.next.is_valid()
                        &&& crate::settings::only_changed(
                            self.config(),
                            change.next,
                            id,
                            crate::text::trimmed(value@->Text_0),
                        )
                        &&& is_stored_form(change.next, change.stored)
                    },
                },
            },
    {
        let mut next: Config = self.config.clone();
        match crate::settings::apply_setting(&mut next, id, value) {
            Err(e) => Err(e),
            Ok(()) => match &self.config_path {
                None => Err(SettingsError::Io("no config path to persist to".to_owned())),
                Some(path) => {
                    let stored: Config = next.without_key();
                    Ok(SettingChange { next, path: path.clone(), stored })
                },
            },
        }
    }

    /// Take on a change once it was written, and give the settings as they stand then. Where writing
    /// failed, nothing changes.
    pub fn adopt_setting(&mut self, change: SettingChange, written: Result<(), String>) -> (r: Result<
        Vec<SettingDescriptor>,
        SettingsError,
    >)
        ensures
            final(self).parts() == old(self).parts(),
            final(self).ui() == old(self).ui(),
            final(self).config_path() == old(self).config_path(),
            match written {
                Err(why) => {
                    &&& r matches Err(SettingsError::Io(w)) && w == why
                    &&& final(self).config() == old(self).config()
                },
                Ok(()) => {
                    &&& r matches Ok(schema) && crate::text::views(schema@)
                        == crate::settings::schema_of(
                        change.next,
                        crate::providers::factory::catalog_of(change.next),
                    )
                    &&& final(self).config() == change.next
                },
            },
    {
        match written {
            Err(why) => Err(SettingsError::Io(why)),
            Ok(()) => {
                self.config = change.next;
                Ok(build_current_schema(&self.config))
            },
        }
    }
}

/// What the session manager answered to a changed configuration, as an outcome of the change.
pub fn resynced(result: Result<(), SessionError>) -> (r: Result<(), SettingsError>)
    ensures
        match result {
            Ok(()) => r is Ok,
            Err(e) => r matches Err(SettingsError::Io(w)) && w@ == e@.words(),
        },
{
    match result {
        Ok(()) => Ok(()),
        Err(e) => Err(SettingsError::Io(e.to_string())),
    }
}

/// A failure of the kept sessions, as an outcome of a request.
pub fn store_failed(e: &HistoryError) -> (r: SessionError)
    ensures
        r@ == SessionErrorView::Provider(e.words()),
{
    SessionError::Provider(e.to_string())
}

/// `stored` is `config` without its key.
pub open spec fn is_stored_form(config: Config, stored: Config) -> bool {
    &&& stored.live_api.gemini.api_key@ == Seq::<char>::empty()
    &&& stored == (Config {
        live_api: crate::config::LiveApiCfg {
            gemini: crate::config::GeminiCfg {
                api_key: stored.live_api.gemini.api_key,
                ..config.live_api.gemini
            },
            ..config.live_api
        },
        ..config
    })
}

/// A time limit in milliseconds, as far as it can be counted.
pub open spec fn limit_ms(secs: u64) -> u64 {
    if secs * 1000 <= u64::MAX {
        (secs * 1000) as u64
    } else {
        u64::MAX
    }
}

/// What a session holds to run the tools of a configuration, from a working directory. Without roots
/// everything may be read, and only the working directory changed.
pub fn build_tool_runtime(cfg: ToolsCfg, cwd: &str) -> (r: ToolRuntime)
    ensures
        r.registry.wf(),
        !cfg.enabled ==> r.is_disabled(),
        cfg.enabled ==> {
            &&& forall|name: Seq<char>|
                #[trigger] crate::tools::names_of(r.registry.entries()).contains(name)
                    == crate::builtin::run::is_selected(crate::text::views(cfg.builtins@), name)
            &&& forall|i: int|
                0 <= i < r.registry.entries().len() ==> crate::builtin::run::is_builtin_schema(
                    #[trigger] r.registry.entries()[i],
                )
            &&& crate::text::views(r.ctx_template.readable_roots@)
                == crate::builtin::paths::effective_roots(
                crate::text::views(cfg.readable_roots@),
                cwd@,
                seq!['/'],
            )
            &&& crate::text::views(r.ctx_template.writable_roots@)
                == crate::builtin::paths::effective_roots(
                crate::text::views(cfg.writable_roots@),
                cwd@,
                cwd@,
            )
            &&& r.ctx_template.cwd@ == cwd@
            &&& r.ctx_template.timeout_ms == limit_ms(cfg.timeout_secs)
            &&& r.ctx_template.max_output_bytes == cfg.max_output_bytes
            &&& r.ctx_template.network == cfg.network
            &&& r.permission_profile == cfg.permissions
        },
{
    if !cfg.enabled {
        return ToolRuntime::disabled();
    }
    let root: String = crate::builtin::paths::filesystem_root();
    let readable_roots: Vec<String> = crate::builtin::paths::roots_or_default(
        cfg.readable_roots.as_slice(),
        cwd,
        root.as_str(),
    );
    let writable_roots: Vec<String> = crate::builtin::paths::roots_or_default(
        cfg.writable_roots.as_slice(),
        cwd,
        cwd,
    );
    let timeout_ms: u64 = if cfg.timeout_secs <= u64::MAX / 1000 {
        cfg.timeout_secs * 1000
    } else {
        u64::MAX
    };
    ToolRuntime {
        registry: crate::builtin::run::builtins(cfg.builtins.as_slice()),
        ctx_template: ToolCtx {
            readable_roots,
            writable_roots,
            cwd: cwd.to_owned(),
            timeout_ms,
            max_output_bytes: cfg.max_output_bytes,
            network: cfg.network,
        },
        permission_profile: cfg.permissions,
    }
}

/// What a line typed to the headless host asks for.
#[derive(Debug, PartialEq, Eq)]
pub enum HostCommand {
    /// Nothing.
    Nothing,
    /// Leave.
    Quit,
    /// Start the session.
    Start,
    /// Stop the session.
    Stop,
    /// Send a text to the model.
    Text(String),
}

/// What a line typed to the headless host asks for: one of three words, or a text for the model.
pub fn host_command(line: &str) -> (r: HostCommand)
    ensures
        ({
            let t = crate::text::trimmed(line@);
            if t == ""@ {
                r == HostCommand::Nothing
            } else if t == "quit"@ {
                r == HostCommand::Quit
            } else if t == "start"@ {
                r == HostCommand::Start
            } else if t == "stop"@ {
                r == HostCommand::Stop
            } else {
                r matches HostCommand::Text(text) && text@ == t
            }
        }),
{
    let t: String = crate::text::trim(line);
    if crate::text::same(t.as_str(), "") {
        HostCommand::Nothing
    } else if crate::text::same(t.as_str(), "quit") {
        HostCommand::Quit
    } else if crate::text::same(t.as_str(), "start") {
        HostCommand::Start
    } else if crate::text::same(t.as_str(), "stop") {
        HostCommand::Stop
    } else {
        HostCommand::Text(t)
    }
}

/// A piece of a transcript as the headless host prints it.
pub fn host_line(speaker: Speaker, text: &str) -> (r: String)
    ensures
        r@ == (match speaker {
            Speaker::User => "[User] "@,
            Speaker::Agent => "[Agent] "@,
        }) + text@,
{
    match speaker {
        Speaker::User => crate::text::join2("[User] ", text),
        Speaker::Agent => crate::text::join2("[Agent] ", text),
    }
}

/// What is written of a configuration never holds its key, and is the same but for it.
pub proof fn law_key_is_never_stored(config: Config, stored: Config)
    requires
        is_stored_form(config, stored),
    ensures
        stored.live_api.gemini.api_key@.len() == 0,
        stored.history == config.history,
        stored.logging == config.logging,
        stored.media == config.media,
        stored.ui == config.ui,
        stored.live_api.provider == config.live_api.provider,
        stored.live_api.gemini.model == config.live_api.gemini.model,
        stored.live_api.gemini.voice == config.live_api.gemini.voice,
{
}

/// A setting that was changed shows its new value in the settings that a frontend is sent: those of
/// the changed configuration, whatever its provider's voices.
pub proof fn law_adopted_setting_is_shown(before: Config, after: Config, id: SettingId, text: Seq<char>)
    requires
        crate::settings::only_changed(before, after, id, text),
    ensures
        crate::settings::described(
            id,
            after,
            crate::providers::factory::catalog_of(after),
        ).value == ValueView::Text(text),
{
    if text.len() == 0 {
        assert(text =~= Seq::empty());
    }
}

/// A time limit is its seconds in milliseconds, or all that can be counted.
pub proof fn law_time_limits(secs: u64)
    ensures
        secs <= 18_446_744_073_709_551 ==> limit_ms(secs) == 1000 * secs,
        secs > 18_446_744_073_709_551 ==> limit_ms(secs) == u64::MAX,
{
}

/// What a request is told that needs a session, or kept sessions, where there are none.
pub proof fn law_missing_parts_in_words()
    ensures
        no_session() == SessionErrorView::Provider(
            "no API key configured (set GEMINI_API_KEY or live_api.gemini.api_key)"@,
        ),
        no_history() == SessionErrorView::Provider("session history is not available"@),
{
}

/// What is written of a configuration is the configuration without its key: put the key in again and
/// nothing differs.
pub proof fn law_stored_form_lacks_only_the_key(config: Config, stored: Config)
    requires
        is_stored_form(config, stored),
    ensures
        stored.live_api.gemini.api_key@.len() == 0,
        (Config {
            live_api: crate::config::LiveApiCfg {
                gemini: crate::config::GeminiCfg {
                    api_key: config.live_api.gemini.api_key,
                    ..stored.live_api.gemini
                },
                ..stored.live_api
            },
            ..stored
        }) == config,
{
}

} // verus!
