//! The application's configuration: its parts, its defaults and what makes it valid.
use vstd::prelude::*;
use vstd::string::*;

use crate::error::ConfigError;

verus! {

/// Which provider adapter to drive.
#[derive(Debug, Clone, Copy, PartialEq, Eq, Structural)]
pub enum ProviderName {
    /// Gemini Live native audio.
    Gemini,
    /// OpenAI Realtime, not functional.
    Openai,
    /// A scripted provider without a network.
    Mock,
}

/// How screen frames are captured.
#[derive(Debug, Clone, Copy, PartialEq, Eq, Structural)]
pub enum CapturePath {
    /// Picked at run time.
    Auto,
    /// Inside the webview.
    Webview,
    /// Native capture.
    Native,
}

/// Log verbosity.
#[derive(Debug, Clone, Copy, PartialEq, Eq, Structural)]
pub enum LogLevel {
    /// Only errors.
    Error,
    /// Warnings and errors.
    Warn,
    /// High-level lifecycle events.
    Info,
    /// Verbose, for debugging.
    Debug,
    /// Everything.
    Trace,
}

impl LogLevel {
    /// The filter directive of the level.
    pub open spec fn directive(self) -> Seq<char> {
        match self {
            LogLevel::Error => "error"@,
            LogLevel::Warn => "warn"@,
            LogLevel::Info => "info"@,
            LogLevel::Debug => "debug"@,
            LogLevel::Trace => "trace"@,
        }
    }

    /// The filter directive of the level.
    #[must_use]
    pub fn as_directive(self) -> (r: &'static str)
        ensures
            r@ == self.directive(),
    {
        match self {
            LogLevel::Error => "error",
            LogLevel::Warn => "warn",
            LogLevel::Info => "info",
            LogLevel::Debug => "debug",
            LogLevel::Trace => "trace",
        }
    }
}

/// Provider API key. Empty means unset.
#[derive(PartialEq, Eq)]
pub struct ApiKey(String);

impl View for ApiKey {
    type V = Seq<char>;

    closed spec fn view(&self) -> Seq<char> {
        self.0@
    }
}

impl Clone for ApiKey {
    fn clone(&self) -> (r: Self)
        ensures
            r == *self,
    {
        ApiKey(self.0.clone())
    }
}

impl ApiKey {
    /// Wrap a raw key.
    pub fn new(key: &str) -> (r: Self)
        ensures
            r@ == key@,
    {
        ApiKey(key.to_owned())
    }

    /// A key that is not set.
    pub fn unset() -> (r: Self)
        ensures
            r@ == Seq::<char>::empty(),
    {
        ApiKey(String::new())
    }

    /// The raw key, or `None` when unset.
    #[must_use]
    pub fn get(&self) -> (r: Option<&str>)
        ensures
            r is Some == (self@.len() > 0),
            r is Some ==> r->0@ == self@,
    {
        if self.0.as_str().is_empty() {
            None
        } else {
            Some(self.0.as_str())
        }
    }

    /// Whether a key is set.
    #[must_use]
    pub fn is_set(&self) -> (r: bool)
        ensures
            r == (self@.len() > 0),
    {
        !self.0.as_str().is_empty()
    }

    /// What a log may show of the key: whether there is one.
    pub fn redacted(&self) -> (r: &'static str)
        ensures
            self@.len() == 0 ==> r@ == "ApiKey(unset)"@,
            self@.len() > 0 ==> r@ == "ApiKey(<redacted>)"@,
    {
        if self.0.as_str().is_empty() {
            "ApiKey(unset)"
        } else {
            "ApiKey(<redacted>)"
        }
    }
}

/// Live-API configuration: the provider and its settings.
#[derive(PartialEq, Eq)]
pub struct LiveApiCfg {
    /// Which provider to use.
    pub provider: ProviderName,
    /// Gemini Live settings.
    pub gemini: GeminiCfg,
    /// Seconds between reachability probes; zero means none but at start and on demand.
    pub reachability_probe_secs: u64,
}

/// Gemini Live settings.
#[derive(PartialEq, Eq)]
pub struct GeminiCfg {
    /// Model id, without a resource prefix.
    pub model: String,
    /// API key.
    pub api_key: ApiKey,
    /// Named voice, or the model's own.
    pub voice: Option<String>,
    /// Persona of every session.
    pub system_instruction: String,
    /// Ask for transcription of the user's audio.
    pub input_transcription: bool,
    /// Ask for transcription of the agent's audio.
    pub output_transcription: bool,
}

/// Audio settings.
#[derive(Debug, PartialEq, Eq)]
pub struct AudioCfg {
    /// Sample rate sent to the provider (Hz).
    pub input_sample_rate: u32,
    /// Sample rate received from the provider (Hz).
    pub output_sample_rate: u32,
    /// Mic frame size in milliseconds.
    pub frame_ms: u32,
    /// Capture device; `default` follows the desktop.
    pub input_device: String,
    /// Playback device; `default` follows the desktop.
    pub output_device: String,
    /// Subtract Joi's own playback from the mic.
    pub echo_cancellation: bool,
    /// Suppress noise on the mic.
    pub noise_suppression: bool,
    /// Level the mic automatically.
    pub auto_gain: bool,
}

/// Screen-capture settings.
#[derive(Debug, Clone, Copy, PartialEq, Eq, Structural)]
pub struct ScreenCfg {
    /// Whether screen sharing is enabled.
    pub enabled: bool,
    /// Capture pipeline.
    pub capture_path: CapturePath,
    /// Frames per second: the bits of an IEEE 754 single.
    pub fps_bits: u32,
    /// Resolution ceiling (longest edge, pixels).
    pub max_width: u32,
    /// Encode quality, 1 to 100.
    pub quality: u8,
}

/// History settings.
#[derive(Debug, PartialEq, Eq)]
pub struct HistoryCfg {
    /// Directory of the history, or `None` where it is not resolved.
    pub dir: Option<String>,
    /// Token budget that bounds what a session is seeded with.
    pub token_budget: u32,
}

/// Terminal appearance.
#[derive(Debug, PartialEq, Eq)]
pub struct TerminalCfg {
    /// Theme name.
    pub theme: String,
    /// Font family.
    pub font: String,
    /// Scrollback line count.
    pub scrollback: u32,
    /// Background color, `#rrggbb` or `transparent`.
    pub background: String,
    /// Accent color, `#rrggbb`.
    pub accent: String,
    /// Color of a tool block, `#rrggbb`.
    pub tool_accent: String,
    /// Color of a tool's details, `#rrggbb`.
    pub tool_text: String,
    /// Color of a tool that succeeded, `#rrggbb`.
    pub tool_success: String,
    /// Color of a tool that was denied, `#rrggbb`.
    pub tool_denied: String,
    /// Color of a tool that failed, `#rrggbb`.
    pub tool_failed: String,
}

/// Logging settings.
#[derive(Debug, PartialEq, Eq)]
pub struct LoggingCfg {
    /// Filter level.
    pub level: LogLevel,
    /// Log file, or `None` where it is not resolved.
    pub file: Option<String>,
}

/// Audio and screen.
#[derive(Debug, PartialEq, Eq)]
pub struct MediaCfg {
    /// Audio.
    pub audio: AudioCfg,
    /// Screen capture.
    pub screen: ScreenCfg,
}

/// Frontend settings.
#[derive(Debug, PartialEq, Eq)]
pub struct UiCfg {
    /// Terminal appearance.
    pub terminal: TerminalCfg,
}

/// The complete configuration.
#[derive(PartialEq, Eq)]
pub struct Config {
    /// Provider selection and settings.
    pub live_api: LiveApiCfg,
    /// History.
    pub history: HistoryCfg,
    /// Logging.
    pub logging: LoggingCfg,
    /// Audio and screen.
    pub media: MediaCfg,
    /// Frontend.
    pub ui: UiCfg,
}

fn clone_text(s: &Option<String>) -> (r: Option<String>)
    ensures
        r == *s,
{
    match s {
        Some(t) => Some(t.clone()),
        None => None,
    }
}

impl Clone for GeminiCfg {
    fn clone(&self) -> (r: Self)
        ensures
            r == *self,
    {
        GeminiCfg {
            model: self.model.clone(),
            api_key: self.api_key.clone(),
            voice: clone_text(&self.voice),
            system_instruction: self.system_instruction.clone(),
            input_transcription: self.input_transcription,
            output_transcription: self.output_transcription,
        }
    }
}

impl Clone for LiveApiCfg {
    fn clone(&self) -> (r: Self)
        ensures
            r == *self,
    {
        LiveApiCfg {
            provider: self.provider,
            gemini: self.gemini.clone(),
            reachability_probe_secs: self.reachability_probe_secs,
        }
    }
}

impl Clone for AudioCfg {
    fn clone(&self) -> (r: Self)
        ensures
            r == *self,
    {
        AudioCfg {
            input_sample_rate: self.input_sample_rate,
            output_sample_rate: self.output_sample_rate,
            frame_ms: self.frame_ms,
            input_device: self.input_device.clone(),
            output_device: self.output_device.clone(),
            echo_cancellation: self.echo_cancellation,
            noise_suppression: self.noise_suppression,
            auto_gain: self.auto_gain,
        }
    }
}

impl Clone for UiCfg {
    fn clone(&self) -> (r: Self)
        ensures
            r == *self,
    {
        UiCfg {
            terminal: TerminalCfg {
                theme: self.terminal.theme.clone(),
                font: self.terminal.font.clone(),
                scrollback: self.terminal.scrollback,
                background: self.terminal.background.clone(),
                accent: self.terminal.accent.clone(),
                tool_accent: self.terminal.tool_accent.clone(),
                tool_text: self.terminal.tool_text.clone(),
                tool_success: self.terminal.tool_success.clone(),
                tool_denied: self.terminal.tool_denied.clone(),
                tool_failed: self.terminal.tool_failed.clone(),
            },
        }
    }
}

impl Clone for Config {
    fn clone(&self) -> (r: Self)
        ensures
            r == *self,
    {
        Config {
            live_api: self.live_api.clone(),
            history: HistoryCfg {
                dir: clone_text(&self.history.dir),
                token_budget: self.history.token_budget,
            },
            logging: LoggingCfg {
                level: self.logging.level,
                file: clone_text(&self.logging.file),
            },
            media: MediaCfg { audio: self.media.audio.clone(), screen: self.media.screen },
            ui: self.ui.clone(),
        }
    }
}

/// Sixty, as the bits of an IEEE 754 single.
pub const SIXTY_FPS: u32 = 0x4270_0000;

/// One, as the bits of an IEEE 754 single.
pub const ONE_FPS: u32 = 0x3f80_0000;

/// Whether the bits of an IEEE 754 single stand for a number above zero and at most sixty. Positive
/// singles are ordered as their bits are; infinities and what is no number lie above them.
pub open spec fn is_frame_rate(bits: u32) -> bool {
    0 < bits <= SIXTY_FPS
}

/// The prefix that marks a model's resource name.
pub const MODEL_PREFIX: &'static str = "models/";

impl Config {
    /// The first thing wrong with the configuration: the field and why.
    pub open spec fn flaw(&self) -> Option<(Seq<char>, Seq<char>)> {
        let model = crate::text::trimmed(self.live_api.gemini.model@);
        let audio = self.media.audio;
        let screen = self.media.screen;
        if model.len() == 0 {
            Some(("live_api.gemini.model"@, "must not be empty"@))
        } else if crate::text::has_prefix(model, MODEL_PREFIX@) {
            Some(("live_api.gemini.model"@, "must not have a models/ prefix"@))
        } else if audio.input_sample_rate == 0 || audio.output_sample_rate == 0 {
            Some(("media.audio.*_sample_rate"@, "must be > 0"@))
        } else if !(5 <= audio.frame_ms <= 60) {
            Some(("media.audio.frame_ms"@, "must be between 5 and 60 ms"@))
        } else if !is_frame_rate(screen.fps_bits) {
            Some(("media.screen.fps"@, "must be in (0, 60]"@))
        } else if screen.max_width == 0 {
            Some(("media.screen.max_width"@, "must be > 0"@))
        } else if !(1 <= screen.quality <= 100) {
            Some(("media.screen.quality"@, "must be between 1 and 100"@))
        } else if self.history.token_budget < 1000 {
            Some(("history.token_budget"@, "must be at least 1000"@))
        } else {
            None
        }
    }

    /// Whether the configuration can be used.
    pub open spec fn is_valid(&self) -> bool {
        self.flaw() is None
    }

    /// Reject values outside their range. The error names the first field that is wrong.
    pub fn validate(&self) -> (r: Result<(), ConfigError>)
        ensures
            match self.flaw() {
                None => r is Ok,
                Some((f, why)) => r matches Err(ConfigError::Invalid { field, reason }) && field@
                    == f && reason@ == why,
            },
    {
        let model: String = crate::text::trim(self.live_api.gemini.model.as_str());
        if model.as_str().is_empty() {
            return Err(invalid("live_api.gemini.model", "must not be empty"));
        }
        if crate::text::starts_with(model.as_str(), MODEL_PREFIX) {
            return Err(invalid("live_api.gemini.model", "must not have a models/ prefix"));
        }
        if self.media.audio.input_sample_rate == 0 || self.media.audio.output_sample_rate == 0 {
            return Err(invalid("media.audio.*_sample_rate", "must be > 0"));
        }
        if self.media.audio.frame_ms < 5 || self.media.audio.frame_ms > 60 {
            return Err(invalid("media.audio.frame_ms", "must be between 5 and 60 ms"));
        }
        if self.media.screen.fps_bits == 0 || self.media.screen.fps_bits > SIXTY_FPS {
            return Err(invalid("media.screen.fps", "must be in (0, 60]"));
        }
        if self.media.screen.max_width == 0 {
            return Err(invalid("media.screen.max_width", "must be > 0"));
        }
        if self.media.screen.quality < 1 || self.media.screen.quality > 100 {
            return Err(invalid("media.screen.quality", "must be between 1 and 100"));
        }
        if self.history.token_budget < 1000 {
            return Err(invalid("history.token_budget", "must be at least 1000"));
        }
        Ok(())
    }

    /// The token budget of a session's seed.
    pub fn token_budget(&self) -> (r: u32)
        ensures
            r == self.history.token_budget,
    {
        self.history.token_budget
    }

    /// Overlay the provider values of the environment: a value that is there and not empty replaces
    /// the current one, and nothing else changes.
    pub fn apply_provider_overrides(&mut self, api_key: Option<String>, model: Option<String>)
        ensures
            *final(self) == (Config {
                live_api: LiveApiCfg {
                    gemini: GeminiCfg {
                        api_key: final(self).live_api.gemini.api_key,
                        model: final(self).live_api.gemini.model,
                        ..old(self).live_api.gemini
                    },
                    ..old(self).live_api
                },
                ..*old(self)
            }),
            is_given(api_key) ==> final(self).live_api.gemini.api_key@ == api_key->0@,
            !is_given(api_key) ==> final(self).live_api.gemini.api_key
                == old(self).live_api.gemini.api_key,
            is_given(model) ==> final(self).live_api.gemini.model@ == model->0@,
            !is_given(model) ==> final(self).live_api.gemini.model
                == old(self).live_api.gemini.model,
    {
        if let Some(key) = api_key {
            if !key.as_str().is_empty() {
                self.live_api.gemini.api_key = ApiKey::new(key.as_str());
            }
        }
        if let Some(m) = model {
            if !m.as_str().is_empty() {
                self.live_api.gemini.model = m;
            }
        }
    }

    /// Fill in the paths that the configuration leaves open, and reject it where it is not valid.
    pub fn resolved(self, paths: &ProjectPaths) -> (r: Result<Config, ConfigError>)
        ensures
            match self.flaw() {
                None => r is Ok && r->Ok_0.is_resolved_from(self, *paths),
                Some((f, why)) => r matches Err(ConfigError::Invalid { field, reason }) && field@
                    == f && reason@ == why,
            },
    {
        let mut cfg: Config = self;
        if cfg.history.dir.is_none() {
            cfg.history.dir = Some(paths.history_dir.clone());
        }
        if cfg.logging.file.is_none() {
            cfg.logging.file =
            Some(crate::history::file::join_path(paths.log_dir.as_str(), "joi.log"));
        }
        match cfg.validate() {
            Ok(()) => Ok(cfg),
            Err(e) => Err(e),
        }
    }

    /// `self` is `from` with the open paths filled in.
    pub open spec fn is_resolved_from(self, from: Config, paths: ProjectPaths) -> bool {
        &&& self.live_api == from.live_api
        &&& self.media == from.media
        &&& self.ui == from.ui
        &&& self.history.token_budget == from.history.token_budget
        &&& self.logging.level == from.logging.level
        &&& self.history.dir == (match from.history.dir {
            Some(d) => Some(d),
            None => Some(paths.history_dir),
        })
        &&& match from.logging.file {
            Some(f) => self.logging.file == Some(f),
            None => self.logging.file matches Some(f) && f@ == crate::history::file::path_in(
                paths.log_dir@,
                "joi.log"@,
            ),
        }
    }

    /// The configuration as it may be written to disk: without the key.
    pub fn without_key(&self) -> (r: Config)
        ensures
            r.live_api.gemini.api_key@ == Seq::<char>::empty(),
            r == (Config {
                live_api: LiveApiCfg {
                    gemini: GeminiCfg {
                        api_key: r.live_api.gemini.api_key,
                        ..self.live_api.gemini
                    },
                    ..self.live_api
                },
                ..*self
            }),
    {
        let mut out: Config = self.clone();
        out.live_api.gemini.api_key = ApiKey::unset();
        out
    }

    /// The built-in values.
    pub open spec fn is_default(&self) -> bool {
        let gemini = self.live_api.gemini;
        let audio = self.media.audio;
        let terminal = self.ui.terminal;
        &&& self.live_api.provider == ProviderName::Gemini
        &&& self.live_api.reachability_probe_secs == 20
        &&& gemini.model@ == "gemini-live-2.5-flash-native-audio"@
        &&& gemini.api_key@ == Seq::<char>::empty()
        &&& (gemini.voice matches Some(v) && v@ == "Aoede"@)
        &&& gemini.system_instruction@ == "You are Joi, a concise local voice companion."@
        &&& gemini.input_transcription
        &&& gemini.output_transcription
        &&& self.history.dir is None
        &&& self.history.token_budget == 32_000
        &&& self.logging.level == LogLevel::Info
        &&& self.logging.file is None
        &&& audio.input_sample_rate == 16_000
        &&& audio.output_sample_rate == 24_000
        &&& audio.frame_ms == 20
        &&& audio.input_device@ == "default"@
        &&& audio.output_device@ == "default"@
        &&& audio.echo_cancellation
        &&& audio.noise_suppression
        &&& audio.auto_gain
        &&& self.media.screen == (ScreenCfg {
            enabled: false,
            capture_path: CapturePath::Auto,
            fps_bits: ONE_FPS,
            max_width: 768,
            quality: 80,
        })
        &&& terminal.theme@ == "joi-dark"@
        &&& terminal.font@ == "JetBrains Mono"@
        &&& terminal.scrollback == 5_000
        &&& terminal.background@ == "transparent"@
        &&& terminal.accent@ == "#9aede4"@
        &&& terminal.tool_accent@ == "#c3b6e6"@
        &&& terminal.tool_text@ == "#9aa4b0"@
        &&& terminal.tool_success@ == "#8fd69f"@
        &&& terminal.tool_denied@ == "#d8c08a"@
        &&& terminal.tool_failed@ == "#d8c08a"@
    }
}

/// A value that is there and not empty.
pub open spec fn is_given(s: Option<String>) -> bool {
    s matches Some(t) && t@.len() > 0
}

fn invalid(field: &str, reason: &str) -> (r: ConfigError)
    ensures
        r matches ConfigError::Invalid { field: f, reason: why } && f@ == field@ && why@
            == reason@,
{
    ConfigError::Invalid { field: field.to_owned(), reason: reason.to_owned() }
}

impl Default for Config {
    fn default() -> (r: Self)
        ensures
            r.is_default(),
            r.is_valid(),
    {
        let r = Config {
            live_api: LiveApiCfg {
                provider: ProviderName::Gemini,
                gemini: GeminiCfg {
                    model: "gemini-live-2.5-flash-native-audio".to_owned(),
                    api_key: ApiKey::unset(),
                    voice: Some("Aoede".to_owned()),
                    system_instruction: "You are Joi, a concise local voice companion.".to_owned(),
                    input_transcription: true,
                    output_transcription: true,
                },
                reachability_probe_secs: 20,
            },
            history: HistoryCfg { dir: None, token_budget: 32_000 },
            logging: LoggingCfg { level: LogLevel::Info, file: None },
            media: MediaCfg {
                audio: AudioCfg {
                    input_sample_rate: 16_000,
                    output_sample_rate: 24_000,
                    frame_ms: 20,
                    input_device: "default".to_owned(),
                    output_device: "default".to_owned(),
                    echo_cancellation: true,
                    noise_suppression: true,
                    auto_gain: true,
                },
                screen: ScreenCfg {
                    enabled: false,
                    capture_path: CapturePath::Auto,
                    fps_bits: ONE_FPS,
                    max_width: 768,
                    quality: 80,
                },
            },
            ui: UiCfg {
                terminal: TerminalCfg {
                    theme: "joi-dark".to_owned(),
                    font: "JetBrains Mono".to_owned(),
                    scrollback: 5_000,
                    background: "transparent".to_owned(),
                    accent: "#9aede4".to_owned(),
                    tool_accent: "#c3b6e6".to_owned(),
                    tool_text: "#9aa4b0".to_owned(),
                    tool_success: "#8fd69f".to_owned(),
                    tool_denied: "#d8c08a".to_owned(),
                    tool_failed: "#d8c08a".to_owned(),
                },
            },
        };
        proof {
            let m = r.live_api.gemini.model@;
            reveal_strlit("gemini-live-2.5-flash-native-audio");
            reveal_strlit("models/");
            assert(m[0] == 'g' && m.last() == 'o');
            crate::text::lemma_trimmed_fixed(m);
            assert(MODEL_PREFIX@[0] == 'm');
            assert(m.subrange(0, MODEL_PREFIX@.len() as int)[0] == 'g');
        }
        r
    }
}

/// The paths that Joi uses.
#[derive(Debug, PartialEq, Eq)]
pub struct ProjectPaths {
    /// Config file.
    pub config_file: String,
    /// Data directory.
    pub data_dir: String,
    /// History directory, inside the data directory.
    pub history_dir: String,
    /// Log directory.
    pub log_dir: String,
}

impl ProjectPaths {
    /// The paths inside the directories that the platform gives: config, data and, where it has
    /// one, state. Without a home there are none.
    pub fn resolve(config_dir: Option<&str>, data_dir: Option<&str>, state_dir: Option<&str>) -> (r:
        Result<Self, ConfigError>)
        ensures
            config_dir is Some && data_dir is Some ==> {
                &&& r is Ok
                &&& r->Ok_0.config_file@ == crate::history::file::path_in(
                    config_dir->0@,
                    "joi.yaml"@,
                )
                &&& r->Ok_0.data_dir@ == data_dir->0@
                &&& r->Ok_0.history_dir@ == crate::history::file::path_in(
                    data_dir->0@,
                    "history"@,
                )
                &&& r->Ok_0.log_dir@ == (match state_dir {
                    Some(s) => s@,
                    None => data_dir->0@,
                })
            },
            config_dir is None || data_dir is None ==> {
                r matches Err(ConfigError::Path { path, reason }) && path@ == "$HOME"@ && reason@
                    == "no valid home directory for XDG path resolution"@
            },
    {
        match (config_dir, data_dir) {
            (Some(c), Some(d)) => {
                let log_dir: String = match state_dir {
                    Some(s) => s.to_owned(),
                    None => d.to_owned(),
                };
                Ok(
                    ProjectPaths {
                        config_file: crate::history::file::join_path(c, "joi.yaml"),
                        data_dir: d.to_owned(),
                        history_dir: crate::history::file::join_path(d, "history"),
                        log_dir,
                    },
                )
            },
            _ => Err(
                ConfigError::Path {
                    path: "$HOME".to_owned(),
                    reason: "no valid home directory for XDG path resolution".to_owned(),
                },
            ),
        }
    }
}

/// A configuration is valid exactly where every value is in its range.
pub proof fn law_valid_configuration(c: Config)
    ensures
        c.is_valid() == {
            let model = crate::text::trimmed(c.live_api.gemini.model@);
            &&& model.len() > 0
            &&& !(model.len() >= 7 && model.take(7) == seq!['m', 'o', 'd', 'e', 'l', 's', '/'])
            &&& c.media.audio.input_sample_rate > 0
            &&& c.media.audio.output_sample_rate > 0
            &&& c.media.audio.frame_ms >= 5
            &&& c.media.audio.frame_ms <= 60
            &&& is_frame_rate(c.media.screen.fps_bits)
            &&& c.media.screen.max_width > 0
            &&& c.media.screen.quality >= 1
            &&& c.media.screen.quality <= 100
            &&& c.history.token_budget >= 1000
        },
{
    reveal_strlit("models/");
    let model = crate::text::trimmed(c.live_api.gemini.model@);
    assert(MODEL_PREFIX@ =~= seq!['m', 'o', 'd', 'e', 'l', 's', '/']);
    if model.len() >= 7 {
        assert(model.subrange(0, 7) =~= model.take(7));
    }
}

/// What is told of a configuration that is not valid is true of it: the named value is out of its range,
/// and every value that is looked at before it is in its own.
pub proof fn law_flaw_is_the_first(c: Config)
    requires
        crate::text::trimmed(c.live_api.gemini.model@).len() > 0,
        !crate::text::has_prefix(crate::text::trimmed(c.live_api.gemini.model@), "models/"@),
    ensures
        c.media.audio.input_sample_rate == 0 || c.media.audio.output_sample_rate == 0 ==> c.flaw()
            == Some(("media.audio.*_sample_rate"@, "must be > 0"@)),
        c.media.audio.input_sample_rate > 0 && c.media.audio.output_sample_rate > 0 ==> {
            &&& c.media.audio.frame_ms < 5 || c.media.audio.frame_ms > 60 ==> c.flaw() == Some(
                ("media.audio.frame_ms"@, "must be between 5 and 60 ms"@),
            )
            &&& 5 <= c.media.audio.frame_ms <= 60 ==> {
                &&& !is_frame_rate(c.media.screen.fps_bits) ==> c.flaw() == Some(
                    ("media.screen.fps"@, "must be in (0, 60]"@),
                )
                &&& is_frame_rate(c.media.screen.fps_bits) ==> {
                    &&& c.media.screen.max_width == 0 ==> c.flaw() == Some(
                        ("media.screen.max_width"@, "must be > 0"@),
                    )
                    &&& c.media.screen.max_width > 0 && (c.media.screen.quality == 0
                        || c.media.screen.quality > 100) ==> c.flaw() == Some(
                        ("media.screen.quality"@, "must be between 1 and 100"@),
                    )
                    &&& c.media.screen.max_width > 0 && 1 <= c.media.screen.quality <= 100
                        && c.history.token_budget < 1000 ==> c.flaw() == Some(
                        ("history.token_budget"@, "must be at least 1000"@),
                    )
                }
            }
        },
{
}

/// A model has to be named, without the prefix of a resource name; the white space around it does not
/// count.
pub proof fn law_model_is_named(c: Config)
    ensures
        crate::text::trimmed(c.live_api.gemini.model@).len() == 0 ==> c.flaw() == Some(
            ("live_api.gemini.model"@, "must not be empty"@),
        ),
        crate::text::trimmed(c.live_api.gemini.model@).len() > 0 && crate::text::has_prefix(
            crate::text::trimmed(c.live_api.gemini.model@),
            "models/"@,
        ) ==> c.flaw() == Some(("live_api.gemini.model"@, "must not have a models/ prefix"@)),
{
}

/// The bits of a single that may be a frame rate: those of one and of sixty, of every positive number
/// that is no greater, and neither zero nor what has its sign set, is infinite or no number.
pub proof fn law_frame_rates(bits: u32, less: u32)
    ensures
        is_frame_rate(0x3f80_0000),
        is_frame_rate(0x4270_0000),
        !is_frame_rate(0x4270_0001),
        !is_frame_rate(0),
        bits >= 0x8000_0000 ==> !is_frame_rate(bits),
        bits >= 0x7f80_0000 ==> !is_frame_rate(bits),
        is_frame_rate(bits) && 0 < less <= bits ==> is_frame_rate(less),
{
}

/// A value from outside counts where it is there and not empty.
pub proof fn law_given_values(s: String)
    ensures
        !is_given(None),
        is_given(Some(s)) == (s@.len() != 0),
{
}

/// A resolved configuration differs from what it was resolved from in the open paths alone.
pub proof fn law_resolved_configuration(c: Config, from: Config, paths: ProjectPaths)
    requires
        c.is_resolved_from(from, paths),
    ensures
        c.live_api == from.live_api,
        c.media == from.media,
        c.ui == from.ui,
        c.history.token_budget == from.history.token_budget,
        c.logging.level == from.logging.level,
        from.history.dir is Some ==> c.history.dir == from.history.dir,
        from.history.dir is None ==> c.history.dir == Some(paths.history_dir),
        from.logging.file is Some ==> c.logging.file == from.logging.file,
        from.logging.file is None ==> (c.logging.file matches Some(f) && f@
            == crate::history::file::path_in(paths.log_dir@, "joi.log"@)),
        c.flaw() == from.flaw(),
{
}

/// The values that Joi starts with.
pub proof fn law_default_values(c: Config)
    requires
        c.is_default(),
    ensures
        c.live_api.provider is Gemini,
        c.live_api.reachability_probe_secs == 20,
        c.live_api.gemini.api_key@.len() == 0,
        c.live_api.gemini.input_transcription && c.live_api.gemini.output_transcription,
        c.live_api.gemini.model@ == "gemini-live-2.5-flash-native-audio"@,
        c.history.dir is None && c.history.token_budget == 32_000,
        c.logging.file is None && c.logging.level is Info,
        c.media.audio.input_sample_rate == 16_000,
        c.media.audio.output_sample_rate == 24_000,
        c.media.audio.frame_ms == 20,
        c.media.audio.echo_cancellation && c.media.audio.noise_suppression && c.media.audio.auto_gain,
        !c.media.screen.enabled && c.media.screen.capture_path is Auto,
        c.media.screen.fps_bits == 0x3f80_0000u32 && c.media.screen.max_width == 768
            && c.media.screen.quality == 80,
        c.ui.terminal.scrollback == 5_000,
{
}

/// The filter directives of the levels are their names.
pub proof fn law_level_directives()
    ensures
        LogLevel::Error.directive() == seq!['e', 'r', 'r', 'o', 'r'],
        LogLevel::Warn.directive() == seq!['w', 'a', 'r', 'n'],
        LogLevel::Info.directive() == seq!['i', 'n', 'f', 'o'],
        LogLevel::Debug.directive() == seq!['d', 'e', 'b', 'u', 'g'],
        LogLevel::Trace.directive() == seq!['t', 'r', 'a', 'c', 'e'],
{
    reveal_strlit("error");
    reveal_strlit("warn");
    reveal_strlit("info");
    reveal_strlit("debug");
    reveal_strlit("trace");
}

} // verus!
