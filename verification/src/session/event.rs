//! The events of a realtime session, and those that the manager hands to a frontend.
use vstd::prelude::*;
use vstd::string::*;

use crate::error::{SessionError, SessionErrorView};
use crate::history::HistoryMeta;
use crate::metrics::MetricsSnapshot;
use crate::settings::{DescriptorView, SettingDescriptor};
use crate::tools::{Json, JsonView, ToolCallId};

verus! {

/// Who is speaking.
#[derive(Debug, Clone, Copy, PartialEq, Eq, Structural)]
pub enum Speaker {
    /// The human user.
    User,
    /// The agent.
    Agent,
}

/// Turn-taking boundaries.
#[derive(Debug, Clone, Copy, PartialEq, Eq, Structural)]
pub enum TurnEvent {
    /// A side began a turn.
    TurnStarted,
    /// A turn finished normally.
    TurnComplete,
    /// The agent's turn was interrupted.
    Interrupted,
}

/// Why a session closed.
#[derive(Debug, Clone, Copy, PartialEq, Eq, Structural)]
pub enum CloseReason {
    /// The client closed it.
    Client,
    /// The provider closed it.
    Server,
    /// It closed on an error.
    Error,
}

/// One item of a session's ordered event stream.
#[derive(Debug, PartialEq, Eq)]
pub enum SessionEvent {
    /// 24 kHz mono PCM16 to play.
    AudioOutput {
        /// Output samples.
        pcm: Vec<i16>,
    },
    /// A piece of a transcript line.
    Transcript {
        /// Who spoke.
        speaker: Speaker,
        /// The next piece of the line.
        text: String,
        /// Whether the line ends with this piece.
        final_: bool,
    },
    /// A turn-taking boundary.
    TurnEvent(TurnEvent),
    /// A tool call of the model.
    ToolCall {
        /// Id that the provider gave.
        id: ToolCallId,
        /// Tool name.
        name: String,
        /// Tool arguments.
        args: Json,
    },
    /// A handle with which the session can be resumed.
    SessionResumptionUpdate {
        /// The provider's handle.
        handle: String,
    },
    /// A provider or transport error.
    Error(SessionError),
    /// The session closed.
    Closed {
        /// Why it closed.
        reason: CloseReason,
    },
}

/// A [`SessionEvent`] with its texts and samples as sequences.
pub enum SessionEventView {
    /// See [`SessionEvent::AudioOutput`].
    AudioOutput {
        /// Output samples.
        pcm: Seq<i16>,
    },
    /// See [`SessionEvent::Transcript`].
    Transcript {
        /// Who spoke.
        speaker: Speaker,
        /// The next piece of the line.
        text: Seq<char>,
        /// Whether the line ends with this piece.
        final_: bool,
    },
    /// See [`SessionEvent::TurnEvent`].
    TurnEvent(TurnEvent),
    /// See [`SessionEvent::ToolCall`].
    ToolCall {
        /// Id that the provider gave.
        id: Seq<char>,
        /// Tool name.
        name: Seq<char>,
        /// Tool arguments.
        args: JsonView,
    },
    /// See [`SessionEvent::SessionResumptionUpdate`].
    SessionResumptionUpdate {
        /// The provider's handle.
        handle: Seq<char>,
    },
    /// See [`SessionEvent::Error`].
    Error(SessionErrorView),
    /// See [`SessionEvent::Closed`].
    Closed {
        /// Why it closed.
        reason: CloseReason,
    },
}

impl View for SessionEvent {
    type V = SessionEventView;

    open spec fn view(&self) -> SessionEventView {
        match self {
            SessionEvent::AudioOutput { pcm } => SessionEventView::AudioOutput { pcm: pcm@ },
            SessionEvent::Transcript { speaker, text, final_ } => SessionEventView::Transcript {
                speaker: *speaker,
                text: text@,
                final_: *final_,
            },
            SessionEvent::TurnEvent(t) => SessionEventView::TurnEvent(*t),
            SessionEvent::ToolCall { id, name, args } => SessionEventView::ToolCall {
                id: id.0@,
                name: name@,
                args: crate::tools::json_view(*args),
            },
            SessionEvent::SessionResumptionUpdate { handle } => {
                SessionEventView::SessionResumptionUpdate { handle: handle@ }
            },
            SessionEvent::Error(e) => SessionEventView::Error(e@),
            SessionEvent::Closed { reason } => SessionEventView::Closed { reason: *reason },
        }
    }
}

/// Lifecycle state shown to the user at all times.
#[derive(Debug, Clone, Copy, PartialEq, Eq, Structural)]
pub enum AppState {
    /// No session, no cost.
    Stopped,
    /// Establishing the connection.
    Connecting,
    /// Waiting for the user to speak.
    Listening,
    /// The model is processing.
    Thinking,
    /// The model is speaking.
    Speaking,
    /// Reconnecting.
    Reconnecting,
    /// An error that needs attention.
    Error,
}

/// Connection status.
#[derive(Debug, Clone, Copy, PartialEq, Eq, Structural)]
pub enum ConnectionStatus {
    /// Disconnected.
    Disconnected,
    /// Connecting.
    Connecting,
    /// Connected.
    Connected,
    /// Reconnecting.
    Reconnecting,
}

/// Whether the provider's API can be reached.
#[derive(Debug, Clone, Copy, PartialEq, Eq, Structural)]
pub enum Reachability {
    /// Not probed yet.
    Unknown,
    /// A probe is running.
    Checking,
    /// Reachable.
    Online,
    /// Not reachable.
    Offline,
    /// Reachable, but the key was refused.
    Unauthorized,
}

/// An event for a frontend.
#[derive(Debug, Clone, PartialEq, Eq)]
pub enum UiEvent {
    /// The lifecycle state changed.
    State {
        /// The new state.
        state: AppState,
    },
    /// A piece of a transcript line.
    Transcript {
        /// Who spoke.
        speaker: Speaker,
        /// The piece.
        text: String,
        /// Whether the line ends with it.
        final_: bool,
    },
    /// The connection status.
    Connection {
        /// The status.
        status: ConnectionStatus,
        /// Detail for a person.
        detail: Option<String>,
    },
    /// History changed.
    History(HistoryMeta),
    /// A throughput sample.
    Metrics(MetricsSnapshot),
    /// Whether the provider can be reached.
    Reachability {
        /// The outcome of a probe.
        state: Reachability,
        /// Detail for a person.
        detail: Option<String>,
    },
    /// The settings that can be changed, after a change.
    Settings {
        /// The settings.
        settings: Vec<SettingDescriptor>,
    },
    /// An error.
    Error {
        /// Its kind in one word.
        kind: String,
        /// The message.
        message: String,
    },
}

/// A [`UiEvent`] with its texts as sequences of characters.
pub enum UiEventView {
    /// See [`UiEvent::State`].
    State {
        /// The new state.
        state: AppState,
    },
    /// See [`UiEvent::Transcript`].
    Transcript {
        /// Who spoke.
        speaker: Speaker,
        /// The piece.
        text: Seq<char>,
        /// Whether the line ends with it.
        final_: bool,
    },
    /// See [`UiEvent::Connection`].
    Connection {
        /// The status.
        status: ConnectionStatus,
        /// Detail for a person.
        detail: Option<Seq<char>>,
    },
    /// See [`UiEvent::History`].
    History(HistoryMeta),
    /// See [`UiEvent::Metrics`].
    Metrics(MetricsSnapshot),
    /// See [`UiEvent::Reachability`].
    Reachability {
        /// The outcome of a probe.
        state: Reachability,
        /// Detail for a person.
        detail: Option<Seq<char>>,
    },
    /// See [`UiEvent::Settings`].
    Settings {
        /// The settings.
        settings: Seq<DescriptorView>,
    },
    /// See [`UiEvent::Error`].
    Error {
        /// Its kind in one word.
        kind: Seq<char>,
        /// The message.
        message: Seq<char>,
    },
}

impl View for UiEvent {
    type V = UiEventView;

    open spec fn view(&self) -> UiEventView {
        match self {
            UiEvent::State { state } => UiEventView::State { state: *state },
            UiEvent::Transcript { speaker, text, final_ } => UiEventView::Transcript {
                speaker: *speaker,
                text: text@,
                final_: *final_,
            },
            UiEvent::Connection { status, detail } => UiEventView::Connection {
                status: *status,
                detail: crate::history::session::opt_text(*detail),
            },
            UiEvent::History(m) => UiEventView::History(*m),
            UiEvent::Metrics(m) => UiEventView::Metrics(*m),
            UiEvent::Reachability { state, detail } => UiEventView::Reachability {
                state: *state,
                detail: crate::history::session::opt_text(*detail),
            },
            UiEvent::Settings { settings } => UiEventView::Settings {
                settings: crate::text::views(settings@),
            },
            UiEvent::Error { kind, message } => UiEventView::Error {
                kind: kind@,
                message: message@,
            },
        }
    }
}

/// What is said of an event is said of all of it: its view holds every part.
pub proof fn law_event_views_hold_every_part(
    pcm: Vec<i16>,
    speaker: Speaker,
    text: String,
    final_: bool,
    turn: TurnEvent,
    name: String,
    args: Json,
    error: SessionError,
    reason: CloseReason,
)
    ensures
        (SessionEvent::AudioOutput { pcm })@ == (SessionEventView::AudioOutput { pcm: pcm@ }),
        (SessionEvent::Transcript { speaker, text, final_ })@ == (SessionEventView::Transcript {
            speaker,
            text: text@,
            final_,
        }),
        SessionEvent::TurnEvent(turn)@ == SessionEventView::TurnEvent(turn),
        (SessionEvent::ToolCall { id: ToolCallId(text), name, args })@ == (SessionEventView::ToolCall {
            id: text@,
            name: name@,
            args: args@,
        }),
        (SessionEvent::SessionResumptionUpdate { handle: text })@ == (
        SessionEventView::SessionResumptionUpdate { handle: text@ }),
        SessionEvent::Error(error)@ == SessionEventView::Error(error@),
        (SessionEvent::Closed { reason })@ == (SessionEventView::Closed { reason }),
        (UiEvent::Transcript { speaker, text, final_ })@ == (UiEventView::Transcript {
            speaker,
            text: text@,
            final_,
        }),
        (UiEvent::Error { kind: name, message: text })@ == (UiEventView::Error {
            kind: name@,
            message: text@,
        }),
        SessionError::Connect(text)@ == SessionErrorView::Connect(text@),
        SessionError::NotConnected@ == SessionErrorView::NotConnected,
        SessionError::Send(text)@ == SessionErrorView::Send(text@),
        SessionError::Auth(text)@ == SessionErrorView::Auth(text@),
        SessionError::Provider(text)@ == SessionErrorView::Provider(text@),
        SessionError::Unimplemented(text)@ == SessionErrorView::Unimplemented(text@),
{
}

/// What is said of an event for a frontend is said of all of it, its detail among it.
pub proof fn law_frontend_views_hold_every_part(
    state: AppState,
    status: ConnectionStatus,
    reach: Reachability,
    text: String,
    meta: HistoryMeta,
    sample: MetricsSnapshot,
    settings: Vec<SettingDescriptor>,
)
    ensures
        (UiEvent::State { state })@ == (UiEventView::State { state }),
        (UiEvent::Connection { status, detail: Some(text) })@ == (UiEventView::Connection {
            status,
            detail: Some(text@),
        }),
        (UiEvent::Connection { status, detail: None })@ == (UiEventView::Connection {
            status,
            detail: None,
        }),
        (UiEvent::Reachability { state: reach, detail: Some(text) })@ == (UiEventView::Reachability {
            state: reach,
            detail: Some(text@),
        }),
        (UiEvent::Reachability { state: reach, detail: None })@ == (UiEventView::Reachability {
            state: reach,
            detail: None,
        }),
        UiEvent::History(meta)@ == UiEventView::History(meta),
        UiEvent::Metrics(sample)@ == UiEventView::Metrics(sample),
        (UiEvent::Settings { settings })@ == (UiEventView::Settings {
            settings: crate::text::views(settings@),
        }),
{
}

} // verus!
