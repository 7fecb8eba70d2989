//! What a realtime session with a provider is opened with.
pub mod event;

use vstd::prelude::*;
use vstd::string::*;

use crate::config::Config;
use crate::history::{HistoryTurn, TurnView};
use crate::media::AudioFormat;
use crate::tools::ToolSchema;

pub use event::{
    AppState, CloseReason, ConnectionStatus, Reachability, SessionEvent, Speaker, TurnEvent,
    UiEvent,
};

verus! {

/// Everything needed to open a session.
#[derive(Debug, PartialEq, Eq)]
pub struct SessionConfig {
    /// Model id.
    pub model: String,
    /// Persona.
    pub system_instruction: String,
    /// Named voice.
    pub voice: Option<String>,
    /// Mic input format.
    pub input_audio: AudioFormat,
    /// Audio output format.
    pub output_audio: AudioFormat,
    /// Ask for transcription of the user's audio.
    pub enable_input_transcription: bool,
    /// Ask for transcription of the agent's audio.
    pub enable_output_transcription: bool,
    /// Earlier turns to seed, oldest first.
    pub initial_context: Vec<HistoryTurn>,
    /// The provider's resumption handle.
    pub resumption_handle: Option<String>,
    /// Tool schemas.
    pub tools: Vec<ToolSchema>,
}

/// A [`SessionConfig`] with its texts as sequences of characters.
pub struct SessionConfigView {
    /// Model id.
    pub model: Seq<char>,
    /// Persona.
    pub system_instruction: Seq<char>,
    /// Named voice.
    pub voice: Option<Seq<char>>,
    /// Mic input format.
    pub input_audio: AudioFormat,
    /// Audio output format.
    pub output_audio: AudioFormat,
    /// Ask for transcription of the user's audio.
    pub enable_input_transcription: bool,
    /// Ask for transcription of the agent's audio.
    pub enable_output_transcription: bool,
    /// Earlier turns to seed, oldest first.
    pub initial_context: Seq<TurnView>,
    /// The provider's resumption handle.
    pub resumption_handle: Option<Seq<char>>,
    /// Tool schemas.
    pub tools: Seq<ToolSchema>,
}

impl View for SessionConfig {
    type V = SessionConfigView;

    open spec fn view(&self) -> SessionConfigView {
        SessionConfigView {
            model: self.model@,
            system_instruction: self.system_instruction@,
            voice: crate::history::session::opt_text(self.voice),
            input_audio: self.input_audio,
            output_audio: self.output_audio,
            enable_input_transcription: self.enable_input_transcription,
            enable_output_transcription: self.enable_output_transcription,
            initial_context: crate::text::views(self.initial_context@),
            resumption_handle: crate::history::session::opt_text(self.resumption_handle),
            tools: self.tools@,
        }
    }
}

impl SessionConfigView {
    /// What a configuration, a seed and a handle open a session with.
    pub open spec fn of(
        cfg: Config,
        initial_context: Seq<TurnView>,
        resumption_handle: Option<Seq<char>>,
    ) -> SessionConfigView {
        let gemini = cfg.live_api.gemini;
        SessionConfigView {
            model: gemini.model@,
            system_instruction: gemini.system_instruction@,
            voice: crate::history::session::opt_text(gemini.voice),
            input_audio: AudioFormat::spec_input(),
            output_audio: AudioFormat::spec_output(),
            enable_input_transcription: gemini.input_transcription,
            enable_output_transcription: gemini.output_transcription,
            initial_context,
            resumption_handle,
            tools: Seq::empty(),
        }
    }
}

impl SessionConfig {
    /// What a configuration, a seed and a handle open a session with.
    #[must_use]
    pub fn from_config(
        cfg: &Config,
        initial_context: Vec<HistoryTurn>,
        resumption_handle: Option<String>,
    ) -> (r: Self)
        ensures
            r@ == SessionConfigView::of(
                *cfg,
                crate::text::views(initial_context@),
                crate::history::session::opt_text(resumption_handle),
            ),
    {
        let voice: Option<String> = match &cfg.live_api.gemini.voice {
            Some(v) => Some(v.clone()),
            None => None,
        };
        SessionConfig {
            model: cfg.live_api.gemini.model.clone(),
            system_instruction: cfg.live_api.gemini.system_instruction.clone(),
            voice,
            input_audio: AudioFormat::input(),
            output_audio: AudioFormat::output(),
            enable_input_transcription: cfg.live_api.gemini.input_transcription,
            enable_output_transcription: cfg.live_api.gemini.output_transcription,
            initial_context,
            resumption_handle,
            tools: Vec::new(),
        }
    }
}

/// What a provider can do.
#[derive(Debug, Clone, Copy, PartialEq, Eq, Structural)]
pub struct Capabilities {
    /// Sessions can be resumed by a handle.
    pub session_resumption: bool,
    /// Screen frames are accepted as they are.
    pub native_screen_input: bool,
    /// Tool calls do not block.
    pub async_tool_calls: bool,
}

/// A session is opened with the configured model, persona, voice and transcriptions, in the formats of
/// the provider, with the given seed and handle, and without tools of its own.
pub proof fn law_session_is_opened_as_configured(
    cfg: Config,
    seed: Seq<TurnView>,
    handle: Option<Seq<char>>,
)
    ensures
        SessionConfigView::of(cfg, seed, handle).model == cfg.live_api.gemini.model@,
        SessionConfigView::of(cfg, seed, handle).system_instruction
            == cfg.live_api.gemini.system_instruction@,
        cfg.live_api.gemini.voice is None ==> SessionConfigView::of(cfg, seed, handle).voice is None,
        cfg.live_api.gemini.voice matches Some(v) ==> SessionConfigView::of(cfg, seed, handle).voice
            == Some(v@),
        SessionConfigView::of(cfg, seed, handle).input_audio.sample_rate == 16_000,
        SessionConfigView::of(cfg, seed, handle).output_audio.sample_rate == 24_000,
        SessionConfigView::of(cfg, seed, handle).enable_input_transcription
            == cfg.live_api.gemini.input_transcription,
        SessionConfigView::of(cfg, seed, handle).enable_output_transcription
            == cfg.live_api.gemini.output_transcription,
        SessionConfigView::of(cfg, seed, handle).initial_context == seed,
        SessionConfigView::of(cfg, seed, handle).resumption_handle == handle,
        SessionConfigView::of(cfg, seed, handle).tools.len() == 0,
{
}

} // verus!
