//! The session manager: one owner of the live session, as a machine of steps.
//!
//! Each step takes a command, a provider event, the outcome of an earlier effect or a tick of the
//! clock, changes the manager, and gives the effects that are to be carried out, in order. Effects
//! whose outcome matters are followed by the step that takes it: [`Effect::LoadContext`] by
//! [`SessionManager::context_loaded`], [`Effect::Connect`] by [`SessionManager::connect_finished`],
//! [`Effect::SendText`], [`Effect::SendAudio`] and [`Effect::SendFrame`] by `text_sent`,
//! `audio_sent` and `frame_sent`, and [`Effect::Append`] by [`SessionManager::turn_appended`].
use vstd::prelude::*;
use vstd::string::*;

use crate::clock::UnixMillis;
use crate::config::Config;
use crate::error::{SessionError, SessionErrorView};
use crate::history::{HistoryMeta, HistoryTurn, Role, TokenBudget, TurnView};
use crate::media::VideoFrame;
use crate::metrics::{MetricsSnapshot, ThroughputMeter, TokenUsage, TransportBytes};
use crate::session::event::{
    AppState, CloseReason, ConnectionStatus, SessionEvent, SessionEventView, Speaker, TurnEvent,
    UiEvent, UiEventView,
};
use crate::session::{SessionConfig, SessionConfigView};

verus! {

/// Bytes of one PCM16 sample.
pub const BYTES_PER_SAMPLE: u64 = 2;

/// A command to the manager.
pub enum Command {
    /// Start or resume a session.
    Start {
        /// Whether the caller means to resume.
        resume: bool,
    },
    /// Stop or pause the session.
    Stop {
        /// Whether the caller means to pause.
        pause: bool,
    },
    /// Send typed text.
    SendText {
        /// The text.
        text: String,
    },
    /// Send a mic frame.
    SendAudio {
        /// The samples.
        pcm: Vec<i16>,
    },
    /// Send a screen frame.
    SendFrame {
        /// The frame.
        frame: Box<VideoFrame>,
    },
    /// Mute or unmute the mic.
    SetMicMuted {
        /// Whether it is muted.
        muted: bool,
    },
    /// Ask for the state.
    QueryState,
    /// Replace the configuration.
    UpdateConfig {
        /// The new configuration.
        config: Box<Config>,
    },
    /// Stop, and end the manager.
    Shutdown,
}

/// Something that is to be done outside the manager.
pub enum Effect {
    /// Tell the frontends.
    Emit(UiEvent),
    /// Play samples; none at all means to drop what is queued.
    Play(Vec<i16>),
    /// Close the session and let it go.
    Close,
    /// Load the turns that fit a budget.
    LoadContext(TokenBudget),
    /// Create a session and connect it.
    Connect(SessionConfig),
    /// Send text through the session.
    SendText(String),
    /// Send samples through the session.
    SendAudio(Vec<i16>),
    /// Send a frame through the session.
    SendFrame(Box<VideoFrame>),
    /// Tell the provider that the mic paused.
    EndAudioStream,
    /// Append a turn to the history and ask for its metadata under a budget.
    Append(HistoryTurn, TokenBudget),
    /// Probe the provider's reachability now.
    ProbeNow,
    /// Answer a start.
    ReplyStart(Result<(), SessionError>),
    /// Answer a stop.
    ReplyStop,
    /// Answer a send of text.
    ReplyText(Result<(), SessionError>),
    /// Answer a question for the state.
    ReplyState(AppState),
    /// End the manager.
    Exit,
}

/// The outcome of an operation with its error as a view.
pub open spec fn outcome(r: Result<(), SessionError>) -> Result<(), SessionErrorView> {
    match r {
        Ok(()) => Ok(()),
        Err(e) => Err(e@),
    }
}

/// An [`Effect`] with its texts and samples as sequences.
pub enum EffectView {
    /// See [`Effect::Emit`].
    Emit(UiEventView),
    /// See [`Effect::Play`].
    Play(Seq<i16>),
    /// See [`Effect::Close`].
    Close,
    /// See [`Effect::LoadContext`].
    LoadContext(TokenBudget),
    /// See [`Effect::Connect`].
    Connect(SessionConfigView),
    /// See [`Effect::SendText`].
    SendText(Seq<char>),
    /// See [`Effect::SendAudio`].
    SendAudio(Seq<i16>),
    /// See [`Effect::SendFrame`].
    SendFrame(VideoFrame),
    /// See [`Effect::EndAudioStream`].
    EndAudioStream,
    /// See [`Effect::Append`].
    Append(TurnView, TokenBudget),
    /// See [`Effect::ProbeNow`].
    ProbeNow,
    /// See [`Effect::ReplyStart`].
    ReplyStart(Result<(), SessionErrorView>),
    /// See [`Effect::ReplyStop`].
    ReplyStop,
    /// See [`Effect::ReplyText`].
    ReplyText(Result<(), SessionErrorView>),
    /// See [`Effect::ReplyState`].
    ReplyState(AppState),
    /// See [`Effect::Exit`].
    Exit,
}

impl View for Effect {
    type V = EffectView;

    open spec fn view(&self) -> EffectView {
        match self {
            Effect::Emit(e) => EffectView::Emit(e@),
            Effect::Play(pcm) => EffectView::Play(pcm@),
            Effect::Close => EffectView::Close,
            Effect::LoadContext(b) => EffectView::LoadContext(*b),
            Effect::Connect(c) => EffectView::Connect(c@),
            Effect::SendText(s) => EffectView::SendText(s@),
            Effect::SendAudio(pcm) => EffectView::SendAudio(pcm@),
            Effect::SendFrame(f) => EffectView::SendFrame(**f),
            Effect::EndAudioStream => EffectView::EndAudioStream,
            Effect::Append(t, b) => EffectView::Append(t@, *b),
            Effect::ProbeNow => EffectView::ProbeNow,
            Effect::ReplyStart(r) => EffectView::ReplyStart(outcome(*r)),
            Effect::ReplyStop => EffectView::ReplyStop,
            Effect::ReplyText(r) => EffectView::ReplyText(outcome(*r)),
            Effect::ReplyState(s) => EffectView::ReplyState(*s),
            Effect::Exit => EffectView::Exit,
        }
    }
}

/// The manager.
pub struct SessionManager {
    config: Config,
    state: AppState,
    mic_muted: bool,
    connected: bool,
    last_resumption_handle: Option<String>,
    agent_line: String,
    user_line: String,
    meter: ThroughputMeter,
    last_sample_ms: UnixMillis,
    last_transport: Option<TransportBytes>,
    last_token_usage: Option<TokenUsage>,
    probes: bool,
}

/// What the manager holds.
pub struct ManagerView {
    /// The configuration.
    pub config: Config,
    /// The lifecycle state.
    pub state: AppState,
    /// Whether the mic is muted.
    pub mic_muted: bool,
    /// Whether there is a live session.
    pub connected: bool,
    /// The provider's last resumption handle.
    pub last_resumption_handle: Option<Seq<char>>,
    /// The agent's line so far.
    pub agent_line: Seq<char>,
    /// The user's line so far.
    pub user_line: Seq<char>,
    /// The tallies of the present window.
    pub meter: ThroughputMeter,
    /// When the last window ended.
    pub last_sample_ms: UnixMillis,
    /// The wire counters at the end of the last window.
    pub last_transport: Option<TransportBytes>,
    /// The token counters at the end of the last window.
    pub last_token_usage: Option<TokenUsage>,
    /// Whether there is a reachability monitor.
    pub probes: bool,
}

impl View for SessionManager {
    type V = ManagerView;

    closed spec fn view(&self) -> ManagerView {
        ManagerView {
            config: self.config,
            state: self.state,
            mic_muted: self.mic_muted,
            connected: self.connected,
            last_resumption_handle: crate::history::session::opt_text(
                self.last_resumption_handle,
            ),
            agent_line: self.agent_line@,
            user_line: self.user_line@,
            meter: self.meter,
            last_sample_ms: self.last_sample_ms,
            last_transport: self.last_transport,
            last_token_usage: self.last_token_usage,
            probes: self.probes,
        }
    }
}

/// A manager after a step, and the step's effects.
pub struct Step {
    /// The manager after the step.
    pub next: ManagerView,
    /// What is to be done, in order.
    pub effects: Seq<EffectView>,
}

impl Step {
    /// A step that does nothing more.
    pub open spec fn idle(m: ManagerView) -> Step {
        Step { next: m, effects: Seq::empty() }
    }

    /// A step with one more effect.
    pub open spec fn plus(self, e: EffectView) -> Step {
        Step { next: self.next, effects: self.effects.push(e) }
    }

    /// One step after another.
    pub open spec fn followed_by(self, other: Step) -> Step {
        Step { next: other.next, effects: self.effects + other.effects }
    }
}

/// An event for the frontends as an effect.
pub open spec fn emit(e: UiEventView) -> EffectView {
    EffectView::Emit(e)
}

/// A connection status as an effect.
pub open spec fn emit_status(status: ConnectionStatus, detail: Option<Seq<char>>) -> EffectView {
    EffectView::Emit(UiEventView::Connection { status, detail })
}

/// An error as an effect.
pub open spec fn emit_error(kind: Seq<char>, e: SessionErrorView) -> EffectView {
    EffectView::Emit(UiEventView::Error { kind, message: e.words() })
}

impl ManagerView {
    /// A manager that nothing has happened to.
    pub open spec fn fresh(config: Config, now: UnixMillis, probes: bool) -> ManagerView {
        ManagerView {
            config,
            state: AppState::Stopped,
            mic_muted: false,
            connected: false,
            last_resumption_handle: None,
            agent_line: Seq::empty(),
            user_line: Seq::empty(),
            meter: ThroughputMeter::spec_empty(),
            last_sample_ms: now,
            last_transport: None,
            last_token_usage: None,
            probes,
        }
    }

    /// Enter a state; the frontends are told where it is another one.
    pub open spec fn enter(self, state: AppState) -> Step {
        if self.state == state {
            Step::idle(self)
        } else {
            Step::idle(ManagerView { state, ..self }).plus(emit(UiEventView::State { state }))
        }
    }

    /// Forget the window and its counters.
    pub open spec fn unmetered(self) -> ManagerView {
        ManagerView {
            meter: ThroughputMeter::spec_empty(),
            last_transport: None,
            last_token_usage: None,
            ..self
        }
    }

    /// Close the session, if there is one, and stop, unless stopped already.
    pub open spec fn stopped(self) -> Step {
        let closed = if self.connected {
            Step::idle(ManagerView { connected: false, ..self }).plus(EffectView::Close)
        } else {
            Step::idle(self)
        };
        if self.state == AppState::Stopped {
            closed
        } else {
            let m = closed.next;
            closed.followed_by(
                Step {
                    next: ManagerView { state: AppState::Stopped, ..m.unmetered() },
                    effects: seq![
                        emit(UiEventView::State { state: AppState::Stopped }),
                        emit_status(ConnectionStatus::Disconnected, None),
                        emit(UiEventView::Metrics(MetricsSnapshot::spec_zero())),
                    ],
                },
            )
        }
    }

    /// Begin a start: stop what runs, say that a connection is being made, ask for the seed.
    pub open spec fn starting(self) -> Step {
        let s = self.stopped();
        let e = s.followed_by(s.next.enter(AppState::Connecting));
        e.plus(emit_status(ConnectionStatus::Connecting, None)).plus(
            EffectView::LoadContext(TokenBudget(self.config.history.token_budget)),
        )
    }

    /// Connect with the seed that was loaded, newest first; none where loading failed.
    pub open spec fn connecting(self, loaded: Option<Seq<TurnView>>) -> Step {
        let seed = match loaded {
            Some(turns) => turns.reverse(),
            None => Seq::empty(),
        };
        Step::idle(self).plus(
            EffectView::Connect(
                SessionConfigView::of(self.config, seed, self.last_resumption_handle),
            ),
        )
    }

    /// A connection was made: half lines and tallies of an earlier one are forgotten.
    pub open spec fn connected_at(self, now: UnixMillis) -> Step {
        let m = ManagerView {
            connected: true,
            user_line: Seq::empty(),
            agent_line: Seq::empty(),
            last_sample_ms: now,
            ..self.unmetered()
        };
        m.enter(AppState::Listening).plus(emit_status(ConnectionStatus::Connected, None)).plus(
            EffectView::ReplyStart(Ok(())),
        )
    }

    /// No connection was made.
    pub open spec fn not_connected(self, e: SessionErrorView) -> Step {
        let failed = Step::idle(self).plus(emit_error("connect"@, e)).followed_by(
            self.enter(AppState::Error),
        ).plus(emit_status(ConnectionStatus::Disconnected, Some(e.words())));
        let probed = if self.probes {
            failed.plus(EffectView::ProbeNow)
        } else {
            failed
        };
        probed.plus(EffectView::ReplyStart(Err(e)))
    }

    /// A text is to be sent: it is counted and goes out through a live session.
    pub open spec fn sending_text(self, text: Seq<char>) -> Step {
        if self.connected {
            let m = ManagerView {
                meter: ThroughputMeter {
                    up_bytes: crate::metrics::saturated(
                        self.meter.up_bytes + vstd::utf8::encode_utf8(text).len(),
                    ),
                    in_chars: crate::metrics::saturated(self.meter.in_chars + text.len()),
                    ..self.meter
                },
                ..self
            };
            Step::idle(m).plus(EffectView::SendText(text))
        } else {
            Step::idle(self).plus(EffectView::ReplyText(Err(SessionErrorView::NotConnected)))
        }
    }

    /// Samples are to be sent: they are counted and go out through a live session, unless muted.
    pub open spec fn sending_audio(self, pcm: Seq<i16>) -> Step {
        if self.connected && !self.mic_muted {
            let m = ManagerView {
                meter: ThroughputMeter {
                    up_bytes: crate::metrics::saturated(
                        self.meter.up_bytes + crate::metrics::saturated(
                            pcm.len() * BYTES_PER_SAMPLE,
                        ),
                    ),
                    ..self.meter
                },
                ..self
            };
            Step::idle(m).plus(EffectView::SendAudio(pcm))
        } else {
            Step::idle(self)
        }
    }

    /// A frame is to be sent: it is counted and goes out through a live session.
    pub open spec fn sending_frame(self, frame: VideoFrame) -> Step {
        if self.connected {
            let m = ManagerView {
                meter: ThroughputMeter {
                    up_bytes: crate::metrics::saturated(self.meter.up_bytes + frame.data@.len()),
                    ..self.meter
                },
                ..self
            };
            Step::idle(m).plus(EffectView::SendFrame(frame))
        } else {
            Step::idle(self)
        }
    }

    /// The mic is muted or not; a live session is told where it pauses.
    pub open spec fn mic_set(self, muted: bool) -> Step {
        let m = ManagerView { mic_muted: muted, ..self };
        if muted && !self.mic_muted && self.connected {
            Step::idle(m).plus(EffectView::EndAudioStream)
        } else {
            Step::idle(m)
        }
    }

    /// Another configuration is in use; the frontends are told its settings.
    pub open spec fn reconfigured(self, config: Config) -> Step {
        Step::idle(ManagerView { config, ..self }).plus(
            emit(
                UiEventView::Settings {
                    settings: crate::settings::schema_of(config, crate::settings::known_voices()),
                },
            ),
        )
    }

    /// The step that a command makes.
    pub open spec fn commanded(self, cmd: Command) -> Step {
        match cmd {
            Command::Start { resume } => self.starting(),
            Command::Stop { pause } => self.stopped().plus(EffectView::ReplyStop),
            Command::SendText { text } => self.sending_text(text@),
            Command::SendAudio { pcm } => self.sending_audio(pcm@),
            Command::SendFrame { frame } => self.sending_frame(*frame),
            Command::SetMicMuted { muted } => self.mic_set(muted),
            Command::QueryState => Step::idle(self).plus(EffectView::ReplyState(self.state)),
            Command::UpdateConfig { config } => self.reconfigured(*config),
            Command::Shutdown => self.stopped().plus(EffectView::Exit),
        }
    }

    /// A mic frame could not be sent: the connection is gone.
    pub open spec fn audio_lost(self, e: SessionErrorView) -> Step {
        let told = Step::idle(self).plus(emit_error("audio_send"@, e));
        let s = told.followed_by(self.stopped());
        s.followed_by(s.next.enter(AppState::Error))
    }

    /// The line of a speaker so far.
    pub open spec fn line_of(self, speaker: Speaker) -> Seq<char> {
        match speaker {
            Speaker::User => self.user_line,
            Speaker::Agent => self.agent_line,
        }
    }

    /// The same with another line for a speaker.
    pub open spec fn with_line(self, speaker: Speaker, line: Seq<char>) -> ManagerView {
        match speaker {
            Speaker::User => ManagerView { user_line: line, ..self },
            Speaker::Agent => ManagerView { agent_line: line, ..self },
        }
    }

    /// A piece of a line came: it is counted, shown, and kept until the line is complete, which
    /// then goes into the history whole, unless it is empty.
    pub open spec fn heard(
        self,
        speaker: Speaker,
        text: Seq<char>,
        final_: bool,
        now: UnixMillis,
    ) -> Step {
        let counted = ManagerView {
            meter: ThroughputMeter {
                down_bytes: crate::metrics::saturated(
                    self.meter.down_bytes + vstd::utf8::encode_utf8(text).len(),
                ),
                out_chars: if speaker == Speaker::Agent {
                    crate::metrics::saturated(self.meter.out_chars + text.len())
                } else {
                    self.meter.out_chars
                },
                ..self.meter
            },
            ..self
        };
        let line = self.line_of(speaker) + text;
        let shown = emit(UiEventView::Transcript { speaker, text, final_ });
        if !final_ {
            Step::idle(counted.with_line(speaker, line)).plus(shown)
        } else {
            let done = Step::idle(counted.with_line(speaker, Seq::empty())).plus(shown);
            if line.len() == 0 {
                done
            } else {
                done.plus(
                    EffectView::Append(
                        TurnView {
                            role: match speaker {
                                Speaker::User => Role::User,
                                Speaker::Agent => Role::Assistant,
                            },
                            text: line,
                            ts_ms: now,
                        },
                        TokenBudget(self.config.history.token_budget),
                    ),
                )
            }
        }
    }

    /// Samples of the agent came: they are counted and played.
    pub open spec fn played(self, pcm: Seq<i16>) -> Step {
        let m = ManagerView {
            meter: ThroughputMeter {
                down_bytes: crate::metrics::saturated(
                    self.meter.down_bytes + crate::metrics::saturated(pcm.len() * BYTES_PER_SAMPLE),
                ),
                ..self.meter
            },
            ..self
        };
        m.enter(AppState::Speaking).plus(EffectView::Play(pcm))
    }

    /// The agent's turn began, ended or was interrupted; an interruption drops what is queued.
    pub open spec fn turned(self, turn: TurnEvent) -> Step {
        match turn {
            TurnEvent::TurnStarted => self.enter(AppState::Thinking),
            TurnEvent::TurnComplete => self.enter(AppState::Listening),
            TurnEvent::Interrupted => Step::idle(self).plus(
                EffectView::Play(Seq::empty()),
            ).followed_by(self.enter(AppState::Listening)),
        }
    }

    /// The provider failed.
    pub open spec fn failed(self, e: SessionErrorView) -> Step {
        Step::idle(self).plus(emit_error("provider"@, e)).followed_by(self.enter(AppState::Error))
    }

    /// The connection was closed; where the client did not ask for it, that is a stop.
    pub open spec fn closed_by(self, reason: CloseReason) -> Step {
        if reason != CloseReason::Client && self.state != AppState::Stopped {
            self.enter(AppState::Stopped).plus(emit_status(ConnectionStatus::Disconnected, None))
        } else {
            Step::idle(self)
        }
    }

    /// The step that a provider event makes.
    pub open spec fn told(self, event: SessionEventView, now: UnixMillis) -> Step {
        match event {
            SessionEventView::AudioOutput { pcm } => self.played(pcm),
            SessionEventView::Transcript { speaker, text, final_ } => self.heard(
                speaker,
                text,
                final_,
                now,
            ),
            SessionEventView::TurnEvent(turn) => self.turned(turn),
            SessionEventView::SessionResumptionUpdate { handle } => Step::idle(
                ManagerView { last_resumption_handle: Some(handle), ..self },
            ),
            SessionEventView::Error(e) => self.failed(e),
            SessionEventView::Closed { reason } => self.closed_by(reason),
            SessionEventView::ToolCall { id, name, args } => Step::idle(self),
        }
    }

    /// What a window that ends at `now` measured. The provider's own counters go before the tallies;
    /// the first reading of a counter is its baseline and counts as no growth.
    pub open spec fn measured(
        self,
        now: UnixMillis,
        transport: Option<TransportBytes>,
        tokens: Option<TokenUsage>,
    ) -> MetricsSnapshot {
        let base = self.meter.rate(
            crate::metrics::nanos((now - self.last_sample_ms) as u64),
        );
        let wired = match transport {
            Some(current) => {
                let prev = match self.last_transport {
                    Some(p) => p,
                    None => current,
                };
                MetricsSnapshot {
                    up_bits: (crate::metrics::growth(current.sent, prev.sent) * 8) as u128,
                    down_bits: (crate::metrics::growth(current.received, prev.received)
                        * 8) as u128,
                    ..base
                }
            },
            None => base,
        };
        match tokens {
            Some(current) => {
                let prev = match self.last_token_usage {
                    Some(p) => p,
                    None => current,
                };
                MetricsSnapshot {
                    up_quarter_tokens: (crate::metrics::growth(current.up, prev.up) * 4) as u128,
                    down_quarter_tokens: (crate::metrics::growth(current.down, prev.down)
                        * 4) as u128,
                    ..wired
                }
            },
            None => wired,
        }
    }

    /// The step that a tick of the clock makes: a sample while a session is live and time has
    /// passed, none otherwise.
    pub open spec fn ticked(
        self,
        now: UnixMillis,
        transport: Option<TransportBytes>,
        tokens: Option<TokenUsage>,
    ) -> Step {
        if self.state == AppState::Stopped {
            Step::idle(ManagerView { last_sample_ms: now, ..self.unmetered() })
        } else if now <= self.last_sample_ms {
            Step::idle(self)
        } else {
            Step::idle(
                ManagerView {
                    meter: ThroughputMeter::spec_empty(),
                    last_sample_ms: now,
                    last_transport: if transport is Some {
                        transport
                    } else {
                        self.last_transport
                    },
                    last_token_usage: if tokens is Some {
                        tokens
                    } else {
                        self.last_token_usage
                    },
                    ..self
                },
            ).plus(emit(UiEventView::Metrics(self.measured(now, transport, tokens))))
        }
    }
}

/// `after` holds what `before` held and then `more`.
pub open spec fn extends(
    before: Seq<Effect>,
    after: Seq<Effect>,
    more: Seq<EffectView>,
) -> bool {
    crate::text::views(after) == crate::text::views(before) + more
}

proof fn lemma_extends_by_nothing(out: Seq<Effect>)
    ensures
        extends(out, out, Seq::empty()),
{
    assert(crate::text::views(out) + Seq::<EffectView>::empty() =~= crate::text::views(out));
}

proof fn lemma_extends_nothing(none: Seq<Effect>, after: Seq<Effect>, more: Seq<EffectView>)
    requires
        none.len() == 0,
        extends(none, after, more),
    ensures
        crate::text::views(after) == more,
{
    assert(crate::text::views(none) + more =~= more);
}

fn push(out: &mut Vec<Effect>, e: Effect)
    ensures
        extends(old(out)@, final(out)@, seq![e@]),
{
    let ghost before = crate::text::views(out@);
    out.push(e);
    assert(crate::text::views(out@) =~= before + seq![e@]);
}

/// The turns that were loaded, if they could be.
pub open spec fn loaded_turns(loaded: Option<Vec<HistoryTurn>>) -> Option<Seq<TurnView>> {
    match loaded {
        Some(turns) => Some(crate::text::views(turns@)),
        None => None,
    }
}

fn sample_bytes(samples: usize) -> (r: u64)
    ensures
        r == crate::metrics::saturated(samples * BYTES_PER_SAMPLE),
{
    let n: u64 = samples as u64;
    if n > u64::MAX / 2 {
        u64::MAX
    } else {
        n * BYTES_PER_SAMPLE
    }
}

impl SessionManager {
    /// A manager that nothing has happened to. `probes` says whether a reachability monitor runs.
    pub fn new(config: Config, now: UnixMillis, probes: bool) -> (r: Self)
        ensures
            r@ == ManagerView::fresh(config, now, probes),
    {
        SessionManager {
            config,
            state: AppState::Stopped,
            mic_muted: false,
            connected: false,
            last_resumption_handle: None,
            agent_line: String::new(),
            user_line: String::new(),
            meter: ThroughputMeter::new(),
            last_sample_ms: now,
            last_transport: None,
            last_token_usage: None,
            probes,
        }
    }

    /// The lifecycle state.
    pub fn state(&self) -> (r: AppState)
        ensures
            r == self@.state,
    {
        self.state
    }

    /// Whether there is a live session.
    pub fn is_connected(&self) -> (r: bool)
        ensures
            r == self@.connected,
    {
        self.connected
    }

    fn set_state(&mut self, state: AppState, out: &mut Vec<Effect>)
        ensures
            final(self)@ == old(self)@.enter(state).next,
            extends(old(out)@, final(out)@, old(self)@.enter(state).effects),
    {
        let ghost before = crate::text::views(out@);
        if self.state != state {
            self.state = state;
            push(out, Effect::Emit(UiEvent::State { state }));
            assert(old(self)@.enter(state).effects =~= seq![emit(UiEventView::State { state })]);
        } else {
            assert(before + Seq::<EffectView>::empty() =~= before);
        }
    }

    fn emit_connection(
        &self,
        status: ConnectionStatus,
        detail: Option<String>,
        out: &mut Vec<Effect>,
    )
        ensures
            extends(
                old(out)@,
                final(out)@,
                seq![emit_status(status, crate::history::session::opt_text(detail))],
            ),
    {
        push(out, Effect::Emit(UiEvent::Connection { status, detail }));
    }

    fn on_error(&self, kind: &str, e: &SessionError, out: &mut Vec<Effect>)
        ensures
            extends(old(out)@, final(out)@, seq![emit_error(kind@, e@)]),
    {
        push(
            out,
            Effect::Emit(UiEvent::Error { kind: kind.to_owned(), message: e.to_string() }),
        );
    }

    fn do_stop(&mut self, out: &mut Vec<Effect>)
        ensures
            final(self)@ == old(self)@.stopped().next,
            extends(old(out)@, final(out)@, old(self)@.stopped().effects),
    {
        let ghost before = crate::text::views(out@);
        let ghost m = self@;
        if self.connected {
            self.connected = false;
            push(out, Effect::Close);
        }
        let ghost closed = if m.connected {
            seq![EffectView::Close]
        } else {
            Seq::empty()
        };
        assert(crate::text::views(out@) =~= before + closed);
        if self.state != AppState::Stopped {
            self.state = AppState::Stopped;
            push(out, Effect::Emit(UiEvent::State { state: AppState::Stopped }));
            self.emit_connection(ConnectionStatus::Disconnected, None, out);
            self.meter.reset();
            self.last_transport = None;
            self.last_token_usage = None;
            push(out, Effect::Emit(UiEvent::Metrics(MetricsSnapshot::zero())));
            proof {
                let a = emit(UiEventView::State { state: AppState::Stopped });
                let b = emit_status(ConnectionStatus::Disconnected, None);
                let c = emit(UiEventView::Metrics(MetricsSnapshot::spec_zero()));
                assert(m.stopped().effects =~= closed + seq![a, b, c]);
                assert(crate::text::views(out@) =~= before + (closed + seq![a, b, c]));
            }
        } else {
            assert(m.stopped().effects =~= closed);
        }
    }

    fn do_start(&mut self, out: &mut Vec<Effect>)
        ensures
            final(self)@ == old(self)@.starting().next,
            extends(old(out)@, final(out)@, old(self)@.starting().effects),
    {
        let ghost before = crate::text::views(out@);
        let ghost m = self@;
        self.do_stop(out);
        let ghost s = m.stopped();
        self.set_state(AppState::Connecting, out);
        let ghost e = s.next.enter(AppState::Connecting);
        self.emit_connection(ConnectionStatus::Connecting, None, out);
        let budget: TokenBudget = TokenBudget(self.config.token_budget());
        push(out, Effect::LoadContext(budget));
        proof {
            let x = emit_status(ConnectionStatus::Connecting, None);
            let y = EffectView::LoadContext(budget);
            assert(m.starting().effects =~= s.effects + e.effects + seq![x] + seq![y]);
            assert(crate::text::views(out@) =~= before + m.starting().effects);
        }
    }

    fn send_text(&mut self, text: String, out: &mut Vec<Effect>)
        ensures
            final(self)@ == old(self)@.sending_text(text@).next,
            extends(old(out)@, final(out)@, old(self)@.sending_text(text@).effects),
    {
        let ghost step = self@.sending_text(text@);
        if self.connected {
            self.meter.add_up(text.as_str().as_bytes().len() as u64);
            self.meter.add_input_text(text.as_str());
            push(out, Effect::SendText(text));
            assert(step.effects =~= seq![EffectView::SendText(text@)]);
        } else {
            push(out, Effect::ReplyText(Err(SessionError::NotConnected)));
            let ghost e = EffectView::ReplyText(Err(SessionErrorView::NotConnected));
            assert(step.effects =~= seq![e]);
        }
    }

    fn send_audio(&mut self, pcm: Vec<i16>, out: &mut Vec<Effect>)
        ensures
            final(self)@ == old(self)@.sending_audio(pcm@).next,
            extends(old(out)@, final(out)@, old(self)@.sending_audio(pcm@).effects),
    {
        let ghost step = self@.sending_audio(pcm@);
        if !self.mic_muted && self.connected {
            self.meter.add_up(sample_bytes(pcm.len()));
            push(out, Effect::SendAudio(pcm));
            assert(step.effects =~= seq![EffectView::SendAudio(pcm@)]);
        } else {
            proof {
                lemma_extends_by_nothing(out@);
            }
        }
    }

    fn send_frame(&mut self, frame: Box<VideoFrame>, out: &mut Vec<Effect>)
        ensures
            final(self)@ == old(self)@.sending_frame(*frame).next,
            extends(old(out)@, final(out)@, old(self)@.sending_frame(*frame).effects),
    {
        let ghost step = self@.sending_frame(*frame);
        if self.connected {
            self.meter.add_up(frame.data.len() as u64);
            push(out, Effect::SendFrame(frame));
            assert(step.effects =~= seq![EffectView::SendFrame(*frame)]);
        } else {
            proof {
                lemma_extends_by_nothing(out@);
            }
        }
    }

    fn set_mic_muted(&mut self, muted: bool, out: &mut Vec<Effect>)
        ensures
            final(self)@ == old(self)@.mic_set(muted).next,
            extends(old(out)@, final(out)@, old(self)@.mic_set(muted).effects),
    {
        let ghost step = self@.mic_set(muted);
        if muted && !self.mic_muted && self.connected {
            push(out, Effect::EndAudioStream);
            assert(step.effects =~= seq![EffectView::EndAudioStream]);
        } else {
            proof {
                lemma_extends_by_nothing(out@);
            }
        }
        self.mic_muted = muted;
    }

    fn update_config(&mut self, config: Config, out: &mut Vec<Effect>)
        ensures
            final(self)@ == old(self)@.reconfigured(config).next,
            extends(old(out)@, final(out)@, old(self)@.reconfigured(config).effects),
    {
        let ghost step = self@.reconfigured(config);
        self.config = config;
        let settings: Vec<crate::settings::SettingDescriptor> = crate::settings::settings_schema(
            &self.config,
        );
        let ghost shown = crate::text::views(settings@);
        push(out, Effect::Emit(UiEvent::Settings { settings }));
        assert(step.effects =~= seq![emit(UiEventView::Settings { settings: shown })]);
    }

    fn stop_and(&mut self, reply: Effect, out: &mut Vec<Effect>)
        ensures
            final(self)@ == old(self)@.stopped().plus(reply@).next,
            extends(old(out)@, final(out)@, old(self)@.stopped().plus(reply@).effects),
    {
        let ghost before = crate::text::views(out@);
        let ghost stopped = self@.stopped();
        self.do_stop(out);
        push(out, reply);
        assert(crate::text::views(out@) =~= before + stopped.effects.push(reply@));
    }

    fn take_command(&mut self, cmd: Command, out: &mut Vec<Effect>)
        ensures
            final(self)@ == old(self)@.commanded(cmd).next,
            extends(old(out)@, final(out)@, old(self)@.commanded(cmd).effects),
    {
        match cmd {
            Command::Start { resume } => self.do_start(out),
            Command::Stop { pause } => self.stop_and(Effect::ReplyStop, out),
            Command::SendText { text } => self.send_text(text, out),
            Command::SendAudio { pcm } => self.send_audio(pcm, out),
            Command::SendFrame { frame } => self.send_frame(frame, out),
            Command::SetMicMuted { muted } => self.set_mic_muted(muted, out),
            Command::QueryState => {
                push(out, Effect::ReplyState(self.state));
                let ghost e = EffectView::ReplyState(self@.state);
                assert(Step::idle(self@).plus(e).effects =~= seq![e]);
            },
            Command::UpdateConfig { config } => self.update_config(*config, out),
            Command::Shutdown => self.stop_and(Effect::Exit, out),
        }
    }

    /// Take a command. Whether the caller means to resume or to pause makes no difference: a start
    /// always seeds from the history, and a pause disconnects as a stop does.
    pub fn handle_command(&mut self, cmd: Command) -> (r: Vec<Effect>)
        ensures
            final(self)@ == old(self)@.commanded(cmd).next,
            crate::text::views(r@) == old(self)@.commanded(cmd).effects,
    {
        let mut out: Vec<Effect> = Vec::new();
        let ghost none = out@;
        self.take_command(cmd, &mut out);
        proof {
            lemma_extends_nothing(none, out@, old(self)@.commanded(cmd).effects);
        }
        out
    }

    /// Take the turns that were loaded for the seed, newest first; `None` where loading failed, and
    /// the session starts without a seed.
    pub fn context_loaded(&self, loaded: Option<Vec<HistoryTurn>>) -> (r: Vec<Effect>)
        ensures
            crate::text::views(r@) == self@.connecting(loaded_turns(loaded)).effects,
    {
        let ghost given = loaded_turns(loaded);
        let mut seed: Vec<HistoryTurn> = Vec::new();
        match loaded {
            Some(turns) => {
                let ghost all = crate::text::views(turns@);
                let mut n: usize = turns.len();
                assert(all.skip(n as int).reverse() =~= Seq::empty());
                assert(crate::text::views(seed@) =~= Seq::empty());
                while n > 0
                    invariant
                        n <= turns.len(),
                        all == crate::text::views(turns@),
                        crate::text::views(seed@) == all.skip(n as int).reverse(),
                    decreases n,
                {
                    let ghost before = crate::text::views(seed@);
                    seed.push(turns[n - 1].clone());
                    n = n - 1;
                    proof {
                        assert(crate::text::views(seed@) =~= before.push(turns@[n as int]@));
                        assert(all.skip(n as int).reverse() =~= all.skip(n + 1).reverse().push(
                            all[n as int],
                        ));
                    }
                }
                assert(all.skip(0) =~= all);
            },
            None => {
                assert(crate::text::views(seed@) =~= Seq::empty());
            },
        }
        let handle: Option<String> = match &self.last_resumption_handle {
            Some(h) => Some(h.clone()),
            None => None,
        };
        let cfg: SessionConfig = SessionConfig::from_config(&self.config, seed, handle);
        let mut out: Vec<Effect> = Vec::new();
        push(&mut out, Effect::Connect(cfg));
        assert(crate::text::views(out@) =~= self@.connecting(given).effects);
        out
    }

    /// Take the outcome of connecting.
    pub fn connect_finished(&mut self, result: Result<(), SessionError>, now: UnixMillis) -> (r:
        Vec<Effect>)
        ensures
            ({
                let step = match result {
                    Ok(()) => old(self)@.connected_at(now),
                    Err(e) => old(self)@.not_connected(e@),
                };
                final(self)@ == step.next && crate::text::views(r@) == step.effects
            }),
    {
        let mut out: Vec<Effect> = Vec::new();
        let ghost m = self@;
        assert(crate::text::views(out@) =~= Seq::empty());
        match result {
            Ok(()) => {
                self.connected = true;
                self.user_line = String::new();
                self.agent_line = String::new();
                self.meter.reset();
                self.last_sample_ms = now;
                self.last_transport = None;
                self.last_token_usage = None;
                assert(self@ == (ManagerView {
                    connected: true,
                    user_line: Seq::empty(),
                    agent_line: Seq::empty(),
                    last_sample_ms: now,
                    ..m.unmetered()
                }));
                self.set_state(AppState::Listening, &mut out);
                self.emit_connection(ConnectionStatus::Connected, None, &mut out);
                push(&mut out, Effect::ReplyStart(Ok(())));
                assert(crate::text::views(out@) =~= m.connected_at(now).effects);
            },
            Err(e) => {
                self.on_error("connect", &e, &mut out);
                self.set_state(AppState::Error, &mut out);
                let words: String = e.to_string();
                self.emit_connection(ConnectionStatus::Disconnected, Some(words), &mut out);
                if self.probes {
                    push(&mut out, Effect::ProbeNow);
                }
                push(&mut out, Effect::ReplyStart(Err(e)));
                assert(crate::text::views(out@) =~= m.not_connected(e@).effects);
            },
        }
        out
    }

    /// Take the outcome of sending text.
    pub fn text_sent(&self, result: Result<(), SessionError>) -> (r: Vec<Effect>)
        ensures
            crate::text::views(r@) == seq![EffectView::ReplyText(outcome(result))],
    {
        let mut out: Vec<Effect> = Vec::new();
        push(&mut out, Effect::ReplyText(result));
        assert(crate::text::views(out@) =~= seq![EffectView::ReplyText(outcome(result))]);
        out
    }

    /// Take the outcome of sending a mic frame. A failure means that the connection is gone.
    pub fn audio_sent(&mut self, result: Result<(), SessionError>) -> (r: Vec<Effect>)
        ensures
            ({
                let step = match result {
                    Ok(()) => Step::idle(old(self)@),
                    Err(e) => old(self)@.audio_lost(e@),
                };
                final(self)@ == step.next && crate::text::views(r@) == step.effects
            }),
    {
        let mut out: Vec<Effect> = Vec::new();
        let ghost m = self@;
        assert(crate::text::views(out@) =~= Seq::empty());
        match result {
            Ok(()) => {},
            Err(e) => {
                self.on_error("audio_send", &e, &mut out);
                self.do_stop(&mut out);
                self.set_state(AppState::Error, &mut out);
                assert(crate::text::views(out@) =~= m.audio_lost(e@).effects);
            },
        }
        out
    }

    /// Take the outcome of sending a screen frame. A failure is shown and nothing else.
    pub fn frame_sent(&self, result: Result<(), SessionError>) -> (r: Vec<Effect>)
        ensures
            crate::text::views(r@) == (match result {
                Ok(()) => Seq::empty(),
                Err(e) => seq![emit_error("frame_send"@, e@)],
            }),
    {
        let mut out: Vec<Effect> = Vec::new();
        assert(crate::text::views(out@) =~= Seq::empty());
        match result {
            Ok(()) => {},
            Err(e) => {
                self.on_error("frame_send", &e, &mut out);
                assert(crate::text::views(out@) =~= seq![emit_error("frame_send"@, e@)]);
            },
        }
        out
    }

    fn heard(&mut self, speaker: Speaker, text: String, final_: bool, now: UnixMillis, out: &mut Vec<
        Effect,
    >)
        ensures
            final(self)@ == old(self)@.heard(speaker, text@, final_, now).next,
            extends(
                old(out)@,
                final(out)@,
                old(self)@.heard(speaker, text@, final_, now).effects,
            ),
    {
        let ghost m = self@;
        let ghost before = crate::text::views(out@);
        let ghost step = m.heard(speaker, text@, final_, now);
        let ghost shown = emit(UiEventView::Transcript { speaker, text: text@, final_ });
        self.meter.add_down(text.as_str().as_bytes().len() as u64);
        if speaker == Speaker::Agent {
            self.meter.add_output_text(text.as_str());
        }
        match speaker {
            Speaker::User => {
                self.user_line.append(text.as_str());
            },
            Speaker::Agent => {
                self.agent_line.append(text.as_str());
            },
        }
        push(out, Effect::Emit(UiEvent::Transcript { speaker, text, final_ }));
        if final_ {
            let mut line: String = String::new();
            match speaker {
                Speaker::User => {
                    std::mem::swap(&mut line, &mut self.user_line);
                },
                Speaker::Agent => {
                    std::mem::swap(&mut line, &mut self.agent_line);
                },
            }
            assert(line@ == m.line_of(speaker) + text@);
            if !line.as_str().is_empty() {
                let role: Role = match speaker {
                    Speaker::User => Role::User,
                    Speaker::Agent => Role::Assistant,
                };
                let turn: HistoryTurn = HistoryTurn::new(role, line.as_str(), now);
                let budget: TokenBudget = TokenBudget(self.config.token_budget());
                push(out, Effect::Append(turn, budget));
                proof {
                    let a = EffectView::Append(turn@, budget);
                    assert(step.effects =~= seq![shown, a]);
                    assert(crate::text::views(out@) =~= before + seq![shown, a]);
                }
            } else {
                assert(step.effects =~= seq![shown]);
            }
        } else {
            assert(step.effects =~= seq![shown]);
        }
    }

    fn play(&mut self, pcm: Vec<i16>, out: &mut Vec<Effect>)
        ensures
            final(self)@ == old(self)@.played(pcm@).next,
            extends(old(out)@, final(out)@, old(self)@.played(pcm@).effects),
    {
        let ghost before = crate::text::views(out@);
        let ghost step = self@.played(pcm@);
        self.meter.add_down(sample_bytes(pcm.len()));
        let ghost entered = self@.enter(AppState::Speaking).effects;
        self.set_state(AppState::Speaking, out);
        push(out, Effect::Play(pcm));
        proof {
            let e = EffectView::Play(pcm@);
            assert(step.effects =~= entered + seq![e]);
            assert(crate::text::views(out@) =~= before + step.effects);
        }
    }

    fn turn(&mut self, turn: TurnEvent, out: &mut Vec<Effect>)
        ensures
            final(self)@ == old(self)@.turned(turn).next,
            extends(old(out)@, final(out)@, old(self)@.turned(turn).effects),
    {
        let ghost before = crate::text::views(out@);
        let ghost m = self@;
        match turn {
            TurnEvent::TurnStarted => {
                self.set_state(AppState::Thinking, out);
            },
            TurnEvent::TurnComplete => {
                self.set_state(AppState::Listening, out);
            },
            TurnEvent::Interrupted => {
                let none: Vec<i16> = Vec::new();
                assert(none@ =~= Seq::<i16>::empty());
                push(out, Effect::Play(none));
                self.set_state(AppState::Listening, out);
                proof {
                    let e = EffectView::Play(Seq::empty());
                    let entered = m.enter(AppState::Listening).effects;
                    assert(m.turned(turn).effects =~= seq![e] + entered);
                    assert(crate::text::views(out@) =~= before + m.turned(turn).effects);
                }
            },
        }
    }

    fn fail(&mut self, e: &SessionError, out: &mut Vec<Effect>)
        ensures
            final(self)@ == old(self)@.failed(e@).next,
            extends(old(out)@, final(out)@, old(self)@.failed(e@).effects),
    {
        let ghost before = crate::text::views(out@);
        let ghost m = self@;
        self.on_error("provider", e, out);
        self.set_state(AppState::Error, out);
        proof {
            let shown = emit_error("provider"@, e@);
            assert(m.failed(e@).effects =~= seq![shown] + m.enter(AppState::Error).effects);
            assert(crate::text::views(out@) =~= before + m.failed(e@).effects);
        }
    }

    fn close(&mut self, reason: CloseReason, out: &mut Vec<Effect>)
        ensures
            final(self)@ == old(self)@.closed_by(reason).next,
            extends(old(out)@, final(out)@, old(self)@.closed_by(reason).effects),
    {
        let ghost before = crate::text::views(out@);
        let ghost m = self@;
        if reason != CloseReason::Client && self.state != AppState::Stopped {
            self.set_state(AppState::Stopped, out);
            self.emit_connection(ConnectionStatus::Disconnected, None, out);
            proof {
                let shown = emit_status(ConnectionStatus::Disconnected, None);
                assert(m.closed_by(reason).effects =~= m.enter(AppState::Stopped).effects + seq![
                    shown,
                ]);
                assert(crate::text::views(out@) =~= before + m.closed_by(reason).effects);
            }
        } else {
            assert(before + Seq::<EffectView>::empty() =~= before);
        }
    }

    #[verifier::rlimit(30)]
    fn take_event(&mut self, event: SessionEvent, now: UnixMillis, out: &mut Vec<Effect>)
        ensures
            final(self)@ == old(self)@.told(event@, now).next,
            extends(old(out)@, final(out)@, old(self)@.told(event@, now).effects),
    {
        match event {
            SessionEvent::AudioOutput { pcm } => self.play(pcm, out),
            SessionEvent::Transcript { speaker, text, final_ } => self.heard(
                speaker,
                text,
                final_,
                now,
                out,
            ),
            SessionEvent::TurnEvent(turn) => self.turn(turn, out),
            SessionEvent::SessionResumptionUpdate { handle } => {
                self.last_resumption_handle = Some(handle);
                proof {
                    lemma_extends_by_nothing(out@);
                }
            },
            SessionEvent::Error(e) => self.fail(&e, out),
            SessionEvent::Closed { reason } => self.close(reason, out),
            SessionEvent::ToolCall { id, name, args } => {
                proof {
                    lemma_extends_by_nothing(out@);
                }
            },
        }
    }

    /// Take a provider event.
    pub fn handle_event(&mut self, event: SessionEvent, now: UnixMillis) -> (r: Vec<Effect>)
        ensures
            final(self)@ == old(self)@.told(event@, now).next,
            crate::text::views(r@) == old(self)@.told(event@, now).effects,
    {
        let mut out: Vec<Effect> = Vec::new();
        let ghost none = out@;
        self.take_event(event, now, &mut out);
        proof {
            lemma_extends_nothing(none, out@, old(self)@.told(event@, now).effects);
        }
        out
    }

    /// Take the outcome of appending a turn: the history's metadata, if the turn was stored and the
    /// metadata could be had.
    pub fn turn_appended(&self, meta: Option<HistoryMeta>) -> (r: Vec<Effect>)
        ensures
            crate::text::views(r@) == (match meta {
                Some(m) => seq![emit(UiEventView::History(m))],
                None => Seq::empty(),
            }),
    {
        let mut out: Vec<Effect> = Vec::new();
        assert(crate::text::views(out@) =~= Seq::empty());
        if let Some(m) = meta {
            push(&mut out, Effect::Emit(UiEvent::History(m)));
            assert(crate::text::views(out@) =~= seq![emit(UiEventView::History(m))]);
        }
        out
    }

    /// Take a tick of the clock, with the provider's counters where it has them.
    pub fn sample_metrics(
        &mut self,
        now: UnixMillis,
        transport: Option<TransportBytes>,
        tokens: Option<TokenUsage>,
    ) -> (r: Vec<Effect>)
        ensures
            final(self)@ == old(self)@.ticked(now, transport, tokens).next,
            crate::text::views(r@) == old(self)@.ticked(now, transport, tokens).effects,
    {
        let mut out: Vec<Effect> = Vec::new();
        let ghost m = self@;
        assert(crate::text::views(out@) =~= Seq::empty());
        if self.state == AppState::Stopped {
            self.meter.reset();
            self.last_transport = None;
            self.last_token_usage = None;
            self.last_sample_ms = now;
            return out;
        }
        let elapsed: u64 = now.saturating_sub(self.last_sample_ms);
        let mut snapshot: MetricsSnapshot = match self.meter.sample(
            crate::metrics::nanos_of(elapsed),
        ) {
            Some(s) => s,
            None => {
                return out;
            },
        };
        if let Some(current) = transport {
            let prev: TransportBytes = match self.last_transport {
                Some(p) => p,
                None => current,
            };
            snapshot.up_bits = crate::metrics::growth_of(current.sent, prev.sent) as u128 * 8;
            snapshot.down_bits = crate::metrics::growth_of(current.received, prev.received) as u128
                * 8;
            self.last_transport = Some(current);
        }
        if let Some(current) = tokens {
            let prev: TokenUsage = match self.last_token_usage {
                Some(p) => p,
                None => current,
            };
            snapshot.up_quarter_tokens = crate::metrics::growth_of(current.up, prev.up) as u128 * 4;
            snapshot.down_quarter_tokens = crate::metrics::growth_of(current.down, prev.down) as u128
                * 4;
            self.last_token_usage = Some(current);
        }
        self.last_sample_ms = now;
        push(&mut out, Effect::Emit(UiEvent::Metrics(snapshot)));
        proof {
            assert(snapshot == m.measured(now, transport, tokens));
            assert(crate::text::views(out@) =~= m.ticked(now, transport, tokens).effects);
        }
        out
    }
}

/// The state that a frontend shows which showed `state` and then saw the effects of a step.
pub open spec fn shown(state: AppState, effects: Seq<EffectView>) -> AppState
    decreases effects.len(),
{
    if effects.len() == 0 {
        state
    } else {
        match effects.last() {
            EffectView::Emit(UiEventView::State { state: s }) => s,
            _ => shown(state, effects.drop_last()),
        }
    }
}

proof fn lemma_shown_push(state: AppState, effects: Seq<EffectView>, e: EffectView)
    ensures
        shown(state, effects.push(e)) == (match e {
            EffectView::Emit(UiEventView::State { state: s }) => s,
            _ => shown(state, effects),
        }),
{
    assert(effects.push(e).drop_last() =~= effects);
}

proof fn lemma_shown_joined(state: AppState, a: Seq<EffectView>, b: Seq<EffectView>)
    ensures
        shown(state, a + b) == shown(shown(state, a), b),
    decreases b.len(),
{
    if b.len() == 0 {
        assert(a + b =~= a);
    } else {
        assert((a + b).drop_last() =~= a + b.drop_last());
        lemma_shown_joined(state, a, b.drop_last());
    }
}

impl Step {
    /// A frontend that showed `state` shows the manager's state after the step.
    pub open spec fn keeps_shown(self, state: AppState) -> bool {
        shown(state, self.effects) == self.next.state
    }
}

proof fn lemma_plus_keeps(s: Step, state: AppState, e: EffectView)
    requires
        s.keeps_shown(state),
        !(e matches EffectView::Emit(UiEventView::State { state: _ })),
    ensures
        s.plus(e).keeps_shown(state),
{
    lemma_shown_push(state, s.effects, e);
}

proof fn lemma_followed_keeps(a: Step, b: Step, state: AppState)
    requires
        a.keeps_shown(state),
        b.keeps_shown(a.next.state),
    ensures
        a.followed_by(b).keeps_shown(state),
{
    lemma_shown_joined(state, a.effects, b.effects);
}

proof fn lemma_enter_keeps(m: ManagerView, state: AppState)
    ensures
        m.enter(state).keeps_shown(m.state),
        m.enter(state).next.state == state,
{
    let e = emit(UiEventView::State { state });
    lemma_shown_push(m.state, Seq::empty(), e);
}

proof fn lemma_stopped_keeps(m: ManagerView)
    ensures
        m.stopped().keeps_shown(m.state),
        m.stopped().next.state == AppState::Stopped,
{
    let closed = if m.connected {
        Step::idle(ManagerView { connected: false, ..m }).plus(EffectView::Close)
    } else {
        Step::idle(m)
    };
    lemma_shown_push(m.state, Seq::empty(), EffectView::Close);
    assert(closed.keeps_shown(m.state));
    if m.state != AppState::Stopped {
        let a = emit(UiEventView::State { state: AppState::Stopped });
        let b = emit_status(ConnectionStatus::Disconnected, None);
        let c = emit(UiEventView::Metrics(MetricsSnapshot::spec_zero()));
        let e = Seq::<EffectView>::empty();
        lemma_shown_push(m.state, e, a);
        lemma_shown_push(m.state, e.push(a), b);
        lemma_shown_push(m.state, e.push(a).push(b), c);
        assert(e.push(a).push(b).push(c) =~= seq![a, b, c]);
        lemma_shown_joined(m.state, closed.effects, seq![a, b, c]);
    }
}

proof fn lemma_starting_keeps(m: ManagerView)
    ensures
        m.starting().keeps_shown(m.state),
{
    let s = m.stopped();
    lemma_stopped_keeps(m);
    let c = s.next.enter(AppState::Connecting);
    lemma_enter_keeps(s.next, AppState::Connecting);
    lemma_followed_keeps(s, c, m.state);
    let e = s.followed_by(c);
    let x = emit_status(ConnectionStatus::Connecting, None);
    lemma_plus_keeps(e, m.state, x);
    lemma_plus_keeps(
        e.plus(x),
        m.state,
        EffectView::LoadContext(TokenBudget(m.config.history.token_budget)),
    );
}

/// After every command, event, outcome and tick, a frontend that follows the events shows the state
/// that the manager is in.
pub proof fn law_frontend_shows_the_state(
    m: ManagerView,
    cmd: Command,
    event: SessionEventView,
    e: SessionErrorView,
    now: UnixMillis,
    transport: Option<TransportBytes>,
    tokens: Option<TokenUsage>,
)
    ensures
        m.commanded(cmd).keeps_shown(m.state),
        m.told(event, now).keeps_shown(m.state),
        m.connected_at(now).keeps_shown(m.state),
        m.not_connected(e).keeps_shown(m.state),
        m.audio_lost(e).keeps_shown(m.state),
        m.ticked(now, transport, tokens).keeps_shown(m.state),
{
    lemma_commanded_keeps(m, cmd);
    lemma_told_keeps(m, event, now);
    lemma_connect_keeps(m, e, now);
    lemma_audio_lost_keeps(m, e);
    lemma_shown_push(
        m.state,
        Seq::empty(),
        emit(UiEventView::Metrics(m.measured(now, transport, tokens))),
    );
}

proof fn lemma_commanded_keeps(m: ManagerView, cmd: Command)
    ensures
        m.commanded(cmd).keeps_shown(m.state),
{
    let none = Seq::<EffectView>::empty();
    match cmd {
        Command::Start { resume } => {
            lemma_starting_keeps(m);
        },
        Command::Stop { pause } => {
            lemma_stopped_keeps(m);
            lemma_plus_keeps(m.stopped(), m.state, EffectView::ReplyStop);
        },
        Command::SendText { text } => {
            lemma_shown_push(m.state, none, EffectView::SendText(text@));
            lemma_shown_push(
                m.state,
                none,
                EffectView::ReplyText(Err(SessionErrorView::NotConnected)),
            );
        },
        Command::SendAudio { pcm } => {
            lemma_shown_push(m.state, none, EffectView::SendAudio(pcm@));
        },
        Command::SendFrame { frame } => {
            lemma_shown_push(m.state, none, EffectView::SendFrame(*frame));
        },
        Command::SetMicMuted { muted } => {
            lemma_shown_push(m.state, none, EffectView::EndAudioStream);
        },
        Command::QueryState => {
            lemma_shown_push(m.state, none, EffectView::ReplyState(m.state));
        },
        Command::UpdateConfig { config } => {
            lemma_shown_push(
                m.state,
                none,
                emit(
                    UiEventView::Settings {
                        settings: crate::settings::schema_of(
                            *config,
                            crate::settings::known_voices(),
                        ),
                    },
                ),
            );
        },
        Command::Shutdown => {
            lemma_stopped_keeps(m);
            lemma_plus_keeps(m.stopped(), m.state, EffectView::Exit);
        },
    }
}

proof fn lemma_connect_keeps(m: ManagerView, e: SessionErrorView, now: UnixMillis)
    ensures
        m.connected_at(now).keeps_shown(m.state),
        m.not_connected(e).keeps_shown(m.state),
{
    let c = ManagerView {
        connected: true,
        user_line: Seq::empty(),
        agent_line: Seq::empty(),
        last_sample_ms: now,
        ..m.unmetered()
    };
    let listening = c.enter(AppState::Listening);
    let up = emit_status(ConnectionStatus::Connected, None);
    lemma_enter_keeps(c, AppState::Listening);
    lemma_plus_keeps(listening, m.state, up);
    lemma_plus_keeps(listening.plus(up), m.state, EffectView::ReplyStart(Ok(())));
    let told = Step::idle(m).plus(emit_error("connect"@, e));
    lemma_plus_keeps(Step::idle(m), m.state, emit_error("connect"@, e));
    lemma_enter_keeps(m, AppState::Error);
    lemma_followed_keeps(told, m.enter(AppState::Error), m.state);
    let failed = told.followed_by(m.enter(AppState::Error));
    let down = emit_status(ConnectionStatus::Disconnected, Some(e.words()));
    lemma_plus_keeps(failed, m.state, down);
    lemma_plus_keeps(failed.plus(down), m.state, EffectView::ProbeNow);
    lemma_plus_keeps(failed.plus(down), m.state, EffectView::ReplyStart(Err(e)));
    lemma_plus_keeps(
        failed.plus(down).plus(EffectView::ProbeNow),
        m.state,
        EffectView::ReplyStart(Err(e)),
    );
}

proof fn lemma_audio_lost_keeps(m: ManagerView, e: SessionErrorView)
    ensures
        m.audio_lost(e).keeps_shown(m.state),
{
    let told = Step::idle(m).plus(emit_error("audio_send"@, e));
    lemma_plus_keeps(Step::idle(m), m.state, emit_error("audio_send"@, e));
    lemma_stopped_keeps(m);
    lemma_followed_keeps(told, m.stopped(), m.state);
    let s = told.followed_by(m.stopped());
    lemma_enter_keeps(s.next, AppState::Error);
    lemma_followed_keeps(s, s.next.enter(AppState::Error), m.state);
}

proof fn lemma_told_keeps(m: ManagerView, event: SessionEventView, now: UnixMillis)
    ensures
        m.told(event, now).keeps_shown(m.state),
{
    let none = Seq::<EffectView>::empty();
    lemma_enter_keeps(m, AppState::Thinking);
    lemma_enter_keeps(m, AppState::Listening);
    lemma_enter_keeps(m, AppState::Error);
    lemma_enter_keeps(m, AppState::Stopped);
    match event {
        SessionEventView::AudioOutput { pcm } => {
            let c = ManagerView {
                meter: ThroughputMeter {
                    down_bytes: crate::metrics::saturated(
                        m.meter.down_bytes + crate::metrics::saturated(
                            pcm.len() * BYTES_PER_SAMPLE,
                        ),
                    ),
                    ..m.meter
                },
                ..m
            };
            lemma_enter_keeps(c, AppState::Speaking);
            lemma_plus_keeps(c.enter(AppState::Speaking), m.state, EffectView::Play(pcm));
        },
        SessionEventView::Transcript { speaker, text, final_ } => {
            let shown_piece = emit(UiEventView::Transcript { speaker, text, final_ });
            let step = m.heard(speaker, text, final_, now);
            lemma_shown_push(m.state, none, shown_piece);
            if step.effects.len() == 2 {
                lemma_shown_push(m.state, none.push(shown_piece), step.effects[1]);
                assert(step.effects =~= none.push(shown_piece).push(step.effects[1]));
            } else {
                assert(step.effects =~= none.push(shown_piece));
            }
        },
        SessionEventView::TurnEvent(TurnEvent::Interrupted) => {
            let flushed = Step::idle(m).plus(EffectView::Play(Seq::empty()));
            lemma_plus_keeps(Step::idle(m), m.state, EffectView::Play(Seq::empty()));
            lemma_followed_keeps(flushed, m.enter(AppState::Listening), m.state);
        },
        SessionEventView::Error(e) => {
            let told = Step::idle(m).plus(emit_error("provider"@, e));
            lemma_plus_keeps(Step::idle(m), m.state, emit_error("provider"@, e));
            lemma_followed_keeps(told, m.enter(AppState::Error), m.state);
        },
        SessionEventView::Closed { reason } => {
            lemma_plus_keeps(
                m.enter(AppState::Stopped),
                m.state,
                emit_status(ConnectionStatus::Disconnected, None),
            );
        },
        _ => {},
    }
}

/// Stopping leaves no session and the state `Stopped`; it closes the session exactly where there
/// was one; and to stop again does nothing.
pub proof fn law_stop_closes_and_settles(m: ManagerView)
    ensures
        !m.stopped().next.connected,
        m.stopped().next.state == AppState::Stopped,
        m.stopped().effects.contains(EffectView::Close) == m.connected,
        m.stopped().next.stopped() == Step::idle(m.stopped().next),
{
    let s = m.stopped();
    if m.connected {
        assert(s.effects[0] == EffectView::Close);
    } else if s.effects.contains(EffectView::Close) {
        let i = choose|i: int| 0 <= i < s.effects.len() && s.effects[i] == EffectView::Close;
        assert(s.effects[i] == EffectView::Close);
    }
}

/// A start never leaves an earlier session open: where there is one, closing it comes first.
pub proof fn law_start_closes_first(m: ManagerView, resume: bool)
    requires
        m.connected,
    ensures
        m.commanded(Command::Start { resume }).effects[0] == EffectView::Close,
        !m.commanded(Command::Start { resume }).next.connected,
{
    assert(m.stopped().effects[0] == EffectView::Close);
}

/// Stopping a running session tells the frontends zero rates, so that nothing stale stays on the
/// screen.
pub proof fn law_stop_clears_the_rates(m: ManagerView)
    requires
        m.state != AppState::Stopped,
    ensures
        m.stopped().effects.last() == emit(UiEventView::Metrics(MetricsSnapshot::spec_zero())),
        m.stopped().next.meter == ThroughputMeter::spec_empty(),
{
}

/// With the mic muted no audio reaches the provider, and nothing changes.
pub proof fn law_muted_mic_sends_nothing(m: ManagerView, pcm: Vec<i16>)
    requires
        m.mic_muted,
    ensures
        m.commanded(Command::SendAudio { pcm }) == Step::idle(m),
{
}

proof fn lemma_mic_command(m: ManagerView, muted: bool)
    ensures
        m.commanded(Command::SetMicMuted { muted }) == m.mic_set(muted),
{
}

proof fn lemma_mic_set_once(m: ManagerView)
    requires
        m.connected,
        !m.mic_muted,
    ensures
        ({
            let muted = m.mic_set(true);
            let again = muted.next.mic_set(true);
            let off = again.next.mic_set(false);
            &&& muted.effects == seq![EffectView::EndAudioStream]
            &&& again.effects.len() == 0
            &&& off.effects.len() == 0
            &&& off.next == m
        }),
{
    assert(m.mic_set(true).effects =~= seq![EffectView::EndAudioStream]);
}

/// Muting a live session tells the provider once: muting again and unmuting tell it nothing.
pub proof fn law_mute_signals_once(m: ManagerView)
    requires
        m.connected,
        !m.mic_muted,
    ensures
        ({
            let muted = m.commanded(Command::SetMicMuted { muted: true });
            let again = muted.next.commanded(Command::SetMicMuted { muted: true });
            let off = again.next.commanded(Command::SetMicMuted { muted: false });
            &&& muted.effects == seq![EffectView::EndAudioStream]
            &&& again.effects.len() == 0
            &&& off.effects.len() == 0
            &&& off.next == m
        }),
{
    lemma_mic_set_once(m);
    lemma_mic_command(m, true);
    let muted = m.mic_set(true).next;
    lemma_mic_command(muted, true);
    let again = muted.mic_set(true).next;
    lemma_mic_command(again, false);
}

/// A provider event and when it came.
pub struct Timed {
    /// The event.
    pub event: SessionEventView,
    /// When it came.
    pub at: UnixMillis,
}

/// The manager after provider events.
pub open spec fn told_all(m: ManagerView, events: Seq<Timed>) -> ManagerView
    decreases events.len(),
{
    if events.len() == 0 {
        m
    } else {
        let last = events.last();
        told_all(m, events.drop_last()).told(last.event, last.at).next
    }
}

/// The pieces of a speaker's line since the last one that was completed.
pub open spec fn open_pieces(events: Seq<Timed>, speaker: Speaker) -> Seq<Seq<char>>
    decreases events.len(),
{
    if events.len() == 0 {
        Seq::empty()
    } else {
        let before = open_pieces(events.drop_last(), speaker);
        match events.last().event {
            SessionEventView::Transcript { speaker: s, text, final_ } => if s != speaker {
                before
            } else if final_ {
                Seq::empty()
            } else {
                before.push(text)
            },
            _ => before,
        }
    }
}

/// Pieces put together.
pub open spec fn whole_line(pieces: Seq<Seq<char>>) -> Seq<char>
    decreases pieces.len(),
{
    if pieces.len() == 0 {
        Seq::empty()
    } else {
        whole_line(pieces.drop_last()) + pieces.last()
    }
}

proof fn lemma_whole_line_push(pieces: Seq<Seq<char>>, last: Seq<char>)
    ensures
        whole_line(pieces.push(last)) == whole_line(pieces) + last,
{
    assert(pieces.push(last).drop_last() =~= pieces);
}

/// An event leaves a speaker's line as it is, unless it is a piece of it.
proof fn lemma_told_line(m: ManagerView, event: SessionEventView, at: UnixMillis, speaker: Speaker)
    ensures
        ({
            let next = m.told(event, at).next;
            &&& next.config == m.config
            &&& next.line_of(speaker) == (match event {
                SessionEventView::Transcript { speaker: s, text, final_ } => if s != speaker {
                    m.line_of(speaker)
                } else if final_ {
                    Seq::empty()
                } else {
                    m.line_of(speaker) + text
                },
                _ => m.line_of(speaker),
            })
        }),
{
}

proof fn lemma_pieces_collect(m: ManagerView, events: Seq<Timed>, speaker: Speaker)
    requires
        m.line_of(speaker).len() == 0,
    ensures
        told_all(m, events).line_of(speaker) == whole_line(open_pieces(events, speaker)),
        told_all(m, events).config == m.config,
    decreases events.len(),
{
    if events.len() == 0 {
        assert(m.line_of(speaker) =~= Seq::empty());
    } else {
        let front = events.drop_last();
        lemma_pieces_collect(m, front, speaker);
        lemma_told_line(told_all(m, front), events.last().event, events.last().at, speaker);
        if let SessionEventView::Transcript { speaker: s, text, final_ } = events.last().event {
            lemma_whole_line_push(open_pieces(front, speaker), text);
        }
    }
}

/// A line that streams in pieces and is then completed goes into the history as one turn, or, where
/// it is empty, not at all: the turn is what that speaker said since the last line of theirs that
/// was completed, whatever the other speaker said meanwhile and whatever else came. The next line
/// starts empty, and the other speaker's line is not touched.
pub proof fn law_streamed_line_is_one_turn(
    m: ManagerView,
    events: Seq<Timed>,
    speaker: Speaker,
    last: Seq<char>,
    now: UnixMillis,
)
    requires
        m.line_of(speaker).len() == 0,
    ensures
        ({
            let before = told_all(m, events);
            let done = before.told(
                SessionEventView::Transcript { speaker, text: last, final_: true },
                now,
            );
            let text = whole_line(open_pieces(events, speaker).push(last));
            let shown = emit(UiEventView::Transcript { speaker, text: last, final_: true });
            let turn = TurnView {
                role: match speaker {
                    Speaker::User => Role::User,
                    Speaker::Agent => Role::Assistant,
                },
                text,
                ts_ms: now,
            };
            &&& text.len() > 0 ==> done.effects == seq![
                shown,
                EffectView::Append(turn, TokenBudget(m.config.history.token_budget)),
            ]
            &&& text.len() == 0 ==> done.effects == seq![shown]
            &&& done.next.line_of(speaker).len() == 0
            &&& forall|other: Speaker|
                other != speaker ==> #[trigger] done.next.line_of(other) == before.line_of(other)
        }),
{
    let before = told_all(m, events);
    let event = SessionEventView::Transcript { speaker, text: last, final_: true };
    let done = before.told(event, now);
    lemma_pieces_collect(m, events, speaker);
    lemma_whole_line_push(open_pieces(events, speaker), last);
    lemma_told_line(before, event, now, speaker);
    assert(done == before.heard(speaker, last, true, now));
    let text = whole_line(open_pieces(events, speaker).push(last));
    if text.len() > 0 {
        assert(done.effects =~= seq![done.effects[0], done.effects[1]]);
    } else {
        assert(done.effects =~= seq![done.effects[0]]);
    }
    assert forall|other: Speaker| other != speaker implies #[trigger] done.next.line_of(other)
        == before.line_of(other) by {
        lemma_told_line(before, event, now, other);
    }
}

/// Completing an empty line stores nothing.
pub proof fn law_empty_line_is_not_stored(m: ManagerView, speaker: Speaker, now: UnixMillis)
    requires
        m.line_of(speaker).len() == 0,
    ensures
        m.heard(speaker, Seq::empty(), true, now).effects == seq![
            emit(UiEventView::Transcript { speaker, text: Seq::empty(), final_: true }),
        ],
{
    let s = m.heard(speaker, Seq::empty(), true, now);
    assert(m.line_of(speaker) + Seq::<char>::empty() =~= m.line_of(speaker));
    assert(s.effects =~= seq![s.effects[0]]);
}

/// The first reading of the provider's counters is their baseline: it counts as no traffic.
pub proof fn law_first_reading_is_zero(
    m: ManagerView,
    now: UnixMillis,
    transport: TransportBytes,
    tokens: TokenUsage,
)
    requires
        m.last_transport is None,
        m.last_token_usage is None,
    ensures
        ({
            let s = m.measured(now, Some(transport), Some(tokens));
            s.up_bits == 0 && s.down_bits == 0 && s.up_quarter_tokens == 0
                && s.down_quarter_tokens == 0
        }),
{
}

/// A start seeds the session with the newest turns of the history that fit the budget, in the order
/// in which they were said.
pub proof fn law_seed_is_the_recent_history(m: ManagerView, stored: Seq<TurnView>)
    ensures
        ({
            let budget = m.config.history.token_budget as int;
            let loaded = crate::history::newest_within(stored, budget);
            let seed = loaded.reverse();
            &&& m.connecting(Some(loaded)).effects == seq![
                EffectView::Connect(
                    SessionConfigView::of(m.config, seed, m.last_resumption_handle),
                ),
            ]
            &&& seed == stored.skip(stored.len() - seed.len())
            &&& crate::history::total_cost(loaded) <= budget
        }),
{
    let budget = m.config.history.token_budget as int;
    let loaded = crate::history::newest_within(stored, budget);
    let seed = loaded.reverse();
    crate::history::law_loaded_fits_budget(stored, budget);
    assert(seed =~= stored.skip(stored.len() - seed.len()));
    let c = m.connecting(Some(loaded));
    assert(c.effects =~= seq![c.effects[0]]);
}

/// Only an interruption drops queued playback: the end of a turn plays nothing and drops nothing.
pub proof fn law_only_interruption_flushes(m: ManagerView, now: UnixMillis)
    ensures
        m.told(SessionEventView::TurnEvent(TurnEvent::Interrupted), now).effects[0]
            == EffectView::Play(Seq::empty()),
        forall|i: int|
            0 <= i < m.told(
                SessionEventView::TurnEvent(TurnEvent::TurnComplete),
                now,
            ).effects.len() ==> !(#[trigger] m.told(
                SessionEventView::TurnEvent(TurnEvent::TurnComplete),
                now,
            ).effects[i] is Play),
{
}

/// A tally after more was counted: it stays at the largest count once it is there.
pub open spec fn tally(count: u64, more: int) -> u64 {
    if count + more > 0xffff_ffff_ffff_ffff {
        0xffff_ffff_ffff_ffffu64
    } else {
        (count + more) as u64
    }
}

/// A text goes to the provider as it is, once, and counts as sent by its bytes and characters; without
/// a session nothing is sent or counted, and the sender is told so.
pub proof fn law_text_reaches_the_provider(m: ManagerView, text: String)
    ensures
        ({
            let s = m.commanded(Command::SendText { text });
            &&& m.connected ==> s.effects == seq![EffectView::SendText(text@)]
            &&& m.connected ==> s.next == (ManagerView {
                meter: ThroughputMeter {
                    up_bytes: tally(
                        m.meter.up_bytes,
                        vstd::utf8::encode_utf8(text@).len() as int,
                    ),
                    down_bytes: m.meter.down_bytes,
                    in_chars: tally(m.meter.in_chars, text@.len() as int),
                    out_chars: m.meter.out_chars,
                },
                ..m
            })
            &&& !m.connected ==> s.effects == seq![
                EffectView::ReplyText(Err(SessionErrorView::NotConnected)),
            ]
            &&& !m.connected ==> s.next == m
        }),
{
    let s = m.commanded(Command::SendText { text });
    assert(s.effects =~= seq![s.effects[0]]);
}

/// Samples go to the provider as they are, once, while a session is live and the mic is not muted, and
/// count as sent with two bytes each; else nothing is sent or counted.
pub proof fn law_audio_reaches_the_provider(m: ManagerView, pcm: Vec<i16>)
    ensures
        ({
            let s = m.commanded(Command::SendAudio { pcm });
            &&& m.connected && !m.mic_muted ==> s.effects == seq![EffectView::SendAudio(pcm@)]
            &&& m.connected && !m.mic_muted ==> s.next == (ManagerView {
                meter: ThroughputMeter {
                    up_bytes: tally(m.meter.up_bytes, (2 * pcm@.len()) as int),
                    ..m.meter
                },
                ..m
            })
            &&& !(m.connected && !m.mic_muted) ==> s.effects.len() == 0 && s.next == m
        }),
{
    let s = m.commanded(Command::SendAudio { pcm });
    if m.connected && !m.mic_muted {
        assert(s.effects =~= seq![s.effects[0]]);
    }
}

/// A screen frame goes to the provider as it is, once, while a session is live, and counts as sent by
/// its bytes; without a session nothing is sent or counted.
pub proof fn law_frame_reaches_the_provider(m: ManagerView, frame: Box<VideoFrame>)
    ensures
        ({
            let s = m.commanded(Command::SendFrame { frame });
            &&& m.connected ==> s.effects == seq![EffectView::SendFrame(*frame)]
            &&& m.connected ==> s.next == (ManagerView {
                meter: ThroughputMeter {
                    up_bytes: tally(m.meter.up_bytes, frame.data@.len() as int),
                    ..m.meter
                },
                ..m
            })
            &&& !m.connected ==> s.effects.len() == 0 && s.next == m
        }),
{
    let s = m.commanded(Command::SendFrame { frame });
    if m.connected {
        assert(s.effects =~= seq![s.effects[0]]);
    }
}

/// Muting changes nothing but whether the mic is muted, and the provider is told exactly where a live
/// session goes from heard to muted.
pub proof fn law_mute_changes_only_the_mic(m: ManagerView, muted: bool)
    ensures
        ({
            let s = m.commanded(Command::SetMicMuted { muted });
            &&& s.next == (ManagerView { mic_muted: muted, ..m })
            &&& s.effects == if m.connected && muted && !m.mic_muted {
                seq![EffectView::EndAudioStream]
            } else {
                Seq::empty()
            }
        }),
{
    lemma_mic_command(m, muted);
    let s = m.mic_set(muted);
    if m.connected && muted && !m.mic_muted {
        assert(s.effects =~= seq![EffectView::EndAudioStream]);
    }
}

/// A question for the state is answered with it and changes nothing; a new configuration takes the
/// place of the old one, and the frontends are told the settings that it gives.
pub proof fn law_questions_and_configurations(m: ManagerView, config: Box<Config>)
    ensures
        m.commanded(Command::QueryState).next == m,
        m.commanded(Command::QueryState).effects == seq![EffectView::ReplyState(m.state)],
        m.commanded(Command::UpdateConfig { config }).next == (ManagerView { config: *config, ..m }),
        m.commanded(Command::UpdateConfig { config }).effects == seq![
            EffectView::Emit(
                UiEventView::Settings {
                    settings: crate::settings::schema_of(
                        *config,
                        crate::settings::known_voices(),
                    ),
                },
            ),
        ],
{
    let q = m.commanded(Command::QueryState);
    assert(q.effects =~= seq![EffectView::ReplyState(m.state)]);
    let u = m.commanded(Command::UpdateConfig { config });
    assert(u.effects =~= seq![u.effects[0]]);
}

/// What a stop does to the outside, step by step: a session is closed; where something ran, the
/// frontends are told that it stopped, that there is no connection, and that nothing flows.
pub open spec fn stop_effects(m: ManagerView) -> Seq<EffectView> {
    (if m.connected {
        seq![EffectView::Close]
    } else {
        Seq::empty()
    }) + (if m.state == AppState::Stopped {
        Seq::empty()
    } else {
        seq![
            EffectView::Emit(UiEventView::State { state: AppState::Stopped }),
            EffectView::Emit(
                UiEventView::Connection { status: ConnectionStatus::Disconnected, detail: None },
            ),
            EffectView::Emit(
                UiEventView::Metrics(
                    MetricsSnapshot {
                        up_bits: 0,
                        down_bits: 0,
                        up_quarter_tokens: 0,
                        down_quarter_tokens: 0,
                        window_ns: 1_000_000_000,
                    },
                ),
            ),
        ]
    })
}

/// What a stop leaves: no session, the state `Stopped`, and, where something ran, nothing counted. All
/// else stays, so a later start can go on from it.
pub open spec fn stop_leaves(m: ManagerView, n: ManagerView) -> bool {
    &&& n == (ManagerView {
        state: AppState::Stopped,
        connected: false,
        meter: n.meter,
        last_transport: n.last_transport,
        last_token_usage: n.last_token_usage,
        ..m
    })
    &&& if m.state == AppState::Stopped {
        n.meter == m.meter && n.last_transport == m.last_transport && n.last_token_usage
            == m.last_token_usage
    } else {
        &&& n.meter == (ThroughputMeter { up_bytes: 0, down_bytes: 0, in_chars: 0, out_chars: 0 })
        &&& n.last_transport is None
        &&& n.last_token_usage is None
    }
}

proof fn lemma_stopped_in_full(m: ManagerView)
    ensures
        m.stopped().effects == stop_effects(m),
        stop_leaves(m, m.stopped().next),
{
    assert(m.stopped().effects =~= stop_effects(m));
}

/// A stop closes the session, tells the frontends and answers, in this order; so does the end of the
/// manager, which is then over. A pause is a stop.
#[verifier::rlimit(40)]
pub proof fn law_stop_in_full(m: ManagerView, pause: bool)
    ensures
        m.commanded(Command::Stop { pause }).effects == stop_effects(m) + seq![
            EffectView::ReplyStop,
        ],
        stop_leaves(m, m.commanded(Command::Stop { pause }).next),
        m.commanded(Command::Shutdown).effects == stop_effects(m) + seq![EffectView::Exit],
        stop_leaves(m, m.commanded(Command::Shutdown).next),
{
    lemma_stopped_in_full(m);
    assert(m.commanded(Command::Stop { pause }).effects =~= stop_effects(m) + seq![
        EffectView::ReplyStop,
    ]);
    assert(m.commanded(Command::Shutdown).effects =~= stop_effects(m) + seq![EffectView::Exit]);
}

/// A start stops what runs, says that a connection is being made, and asks for the turns that fit the
/// configured budget, in this order; whether it resumes makes no difference.
#[verifier::rlimit(40)]
pub proof fn law_start_in_full(m: ManagerView, resume: bool)
    ensures
        ({
            let s = m.commanded(Command::Start { resume });
            &&& s.effects == stop_effects(m) + seq![
                EffectView::Emit(UiEventView::State { state: AppState::Connecting }),
                EffectView::Emit(
                    UiEventView::Connection { status: ConnectionStatus::Connecting, detail: None },
                ),
                EffectView::LoadContext(TokenBudget(m.config.history.token_budget)),
            ]
            &&& stop_leaves(m, ManagerView { state: AppState::Stopped, ..s.next })
            &&& s.next.state == AppState::Connecting
        }),
{
    lemma_stopped_in_full(m);
    let s = m.commanded(Command::Start { resume });
    assert(s.effects =~= stop_effects(m) + seq![
        EffectView::Emit(UiEventView::State { state: AppState::Connecting }),
        EffectView::Emit(
            UiEventView::Connection { status: ConnectionStatus::Connecting, detail: None },
        ),
        EffectView::LoadContext(TokenBudget(m.config.history.token_budget)),
    ]);
}

/// The news of a state, where it is another one than before.
pub open spec fn news_of(before: AppState, after: AppState) -> Seq<EffectView> {
    if before == after {
        Seq::empty()
    } else {
        seq![EffectView::Emit(UiEventView::State { state: after })]
    }
}

/// A connection that was made is live and listened to, with nothing counted, no half line and the
/// window beginning now; the frontends are told, and the start is answered with success.
#[verifier::rlimit(40)]
pub proof fn law_connection_in_full(m: ManagerView, now: UnixMillis)
    ensures
        ({
            let s = m.connected_at(now);
            &&& s.next == (ManagerView {
                config: m.config,
                state: AppState::Listening,
                mic_muted: m.mic_muted,
                connected: true,
                last_resumption_handle: m.last_resumption_handle,
                agent_line: Seq::empty(),
                user_line: Seq::empty(),
                meter: ThroughputMeter { up_bytes: 0, down_bytes: 0, in_chars: 0, out_chars: 0 },
                last_sample_ms: now,
                last_transport: None,
                last_token_usage: None,
                probes: m.probes,
            })
            &&& s.effects == news_of(m.state, AppState::Listening) + seq![
                EffectView::Emit(
                    UiEventView::Connection { status: ConnectionStatus::Connected, detail: None },
                ),
                EffectView::ReplyStart(Ok(())),
            ]
        }),
{
    let s = m.connected_at(now);
    assert(s.effects =~= news_of(m.state, AppState::Listening) + seq![
        EffectView::Emit(
            UiEventView::Connection { status: ConnectionStatus::Connected, detail: None },
        ),
        EffectView::ReplyStart(Ok(())),
    ]);
}

/// A connection that was not made leaves the state `Error` and nothing else changed; the frontends are
/// told why, a probe is asked for where there is a monitor, and the start is answered with the error.
#[verifier::rlimit(40)]
pub proof fn law_failed_connection_in_full(m: ManagerView, e: SessionErrorView)
    ensures
        ({
            let s = m.not_connected(e);
            &&& s.next == (ManagerView { state: AppState::Error, ..m })
            &&& s.effects == seq![
                EffectView::Emit(UiEventView::Error { kind: "connect"@, message: e.words() }),
            ] + news_of(m.state, AppState::Error) + seq![
                EffectView::Emit(
                    UiEventView::Connection {
                        status: ConnectionStatus::Disconnected,
                        detail: Some(e.words()),
                    },
                ),
            ] + (if m.probes {
                seq![EffectView::ProbeNow]
            } else {
                Seq::empty()
            }) + seq![EffectView::ReplyStart(Err(e))]
        }),
{
    let s = m.not_connected(e);
    let told = seq![
        EffectView::Emit(UiEventView::Error { kind: "connect"@, message: e.words() }),
    ];
    let lost = seq![
        EffectView::Emit(
            UiEventView::Connection {
                status: ConnectionStatus::Disconnected,
                detail: Some(e.words()),
            },
        ),
    ];
    let probe = if m.probes {
        seq![EffectView::ProbeNow]
    } else {
        Seq::empty()
    };
    assert(s.effects =~= told + news_of(m.state, AppState::Error) + lost + probe + seq![
        EffectView::ReplyStart(Err(e)),
    ]);
}

/// A mic frame that could not be sent is shown, the session is stopped, and the state is `Error`.
#[verifier::rlimit(40)]
pub proof fn law_lost_audio_in_full(m: ManagerView, e: SessionErrorView)
    ensures
        ({
            let s = m.audio_lost(e);
            &&& s.effects == seq![
                EffectView::Emit(UiEventView::Error { kind: "audio_send"@, message: e.words() }),
            ] + stop_effects(m) + seq![
                EffectView::Emit(UiEventView::State { state: AppState::Error }),
            ]
            &&& s.next.state == AppState::Error
            &&& stop_leaves(m, ManagerView { state: AppState::Stopped, ..s.next })
        }),
{
    lemma_stopped_in_full(m);
    let s = m.audio_lost(e);
    assert(s.effects =~= seq![
        EffectView::Emit(UiEventView::Error { kind: "audio_send"@, message: e.words() }),
    ] + stop_effects(m) + seq![EffectView::Emit(UiEventView::State { state: AppState::Error })]);
}

/// Audio of the agent is played as it came and counted with two bytes a sample, and the agent is then
/// speaking; nothing else changes.
pub proof fn law_agent_audio_is_played(m: ManagerView, pcm: Seq<i16>, now: UnixMillis)
    ensures
        ({
            let s = m.told(SessionEventView::AudioOutput { pcm }, now);
            &&& s.effects == news_of(m.state, AppState::Speaking) + seq![EffectView::Play(pcm)]
            &&& s.next == (ManagerView {
                state: AppState::Speaking,
                meter: ThroughputMeter {
                    down_bytes: tally(m.meter.down_bytes, tally(0, (2 * pcm.len()) as int) as int),
                    ..m.meter
                },
                ..m
            })
        }),
{
    let s = m.told(SessionEventView::AudioOutput { pcm }, now);
    assert(s.effects =~= news_of(m.state, AppState::Speaking) + seq![EffectView::Play(pcm)]);
}

/// The turn that a completed line is stored as.
pub open spec fn stored_turn(m: ManagerView, speaker: Speaker, text: Seq<char>, now: UnixMillis) -> EffectView {
    EffectView::Append(
        TurnView {
            role: if speaker == Speaker::User {
                Role::User
            } else {
                Role::Assistant
            },
            text,
            ts_ms: now,
        },
        TokenBudget(m.config.history.token_budget),
    )
}

/// A piece of a line is shown as it came and counted by its bytes, the agent's also by its characters.
/// An open line grows by it; a completed one is stored with it, unless both are empty, and starts
/// anew. Nothing else changes.
#[verifier::rlimit(40)]
pub proof fn law_heard_piece_in_full(
    m: ManagerView,
    speaker: Speaker,
    text: Seq<char>,
    final_: bool,
    now: UnixMillis,
)
    ensures
        ({
            let s = m.told(SessionEventView::Transcript { speaker, text, final_ }, now);
            let so_far = if speaker == Speaker::User {
                m.user_line
            } else {
                m.agent_line
            };
            let line = so_far + text;
            let kept = if final_ {
                Seq::empty()
            } else {
                line
            };
            &&& s.effects == seq![
                EffectView::Emit(UiEventView::Transcript { speaker, text, final_ }),
            ] + (if final_ && line.len() > 0 {
                seq![stored_turn(m, speaker, line, now)]
            } else {
                Seq::empty()
            })
            &&& s.next == (ManagerView {
                user_line: if speaker == Speaker::User {
                    kept
                } else {
                    m.user_line
                },
                agent_line: if speaker == Speaker::Agent {
                    kept
                } else {
                    m.agent_line
                },
                meter: ThroughputMeter {
                    up_bytes: m.meter.up_bytes,
                    down_bytes: tally(
                        m.meter.down_bytes,
                        vstd::utf8::encode_utf8(text).len() as int,
                    ),
                    in_chars: m.meter.in_chars,
                    out_chars: if speaker == Speaker::Agent {
                        tally(m.meter.out_chars, text.len() as int)
                    } else {
                        m.meter.out_chars
                    },
                },
                ..m
            })
        }),
{
    let s = m.told(SessionEventView::Transcript { speaker, text, final_ }, now);
    assert(s == m.heard(speaker, text, final_, now));
    let line = m.line_of(speaker) + text;
    if final_ && line.len() > 0 {
        assert(s.effects =~= seq![s.effects[0]] + seq![s.effects[1]]);
    } else {
        assert(s.effects =~= seq![s.effects[0]] + Seq::<EffectView>::empty());
    }
}

/// A turn that begins is thought about, one that ends is listened after, and one that is interrupted
/// drops what is queued first. Nothing else changes.
#[verifier::rlimit(40)]
pub proof fn law_turns_in_full(m: ManagerView, now: UnixMillis)
    ensures
        ({
            let began = m.told(SessionEventView::TurnEvent(TurnEvent::TurnStarted), now);
            let ended = m.told(SessionEventView::TurnEvent(TurnEvent::TurnComplete), now);
            let cut = m.told(SessionEventView::TurnEvent(TurnEvent::Interrupted), now);
            &&& began.next == (ManagerView { state: AppState::Thinking, ..m })
            &&& began.effects == news_of(m.state, AppState::Thinking)
            &&& ended.next == (ManagerView { state: AppState::Listening, ..m })
            &&& ended.effects == news_of(m.state, AppState::Listening)
            &&& cut.next == (ManagerView { state: AppState::Listening, ..m })
            &&& cut.effects == seq![EffectView::Play(Seq::empty())] + news_of(
                m.state,
                AppState::Listening,
            )
        }),
{
    let began = m.told(SessionEventView::TurnEvent(TurnEvent::TurnStarted), now);
    let ended = m.told(SessionEventView::TurnEvent(TurnEvent::TurnComplete), now);
    let cut = m.told(SessionEventView::TurnEvent(TurnEvent::Interrupted), now);
    assert(began.effects =~= news_of(m.state, AppState::Thinking));
    assert(ended.effects =~= news_of(m.state, AppState::Listening));
    assert(cut.effects =~= seq![EffectView::Play(Seq::empty())] + news_of(
        m.state,
        AppState::Listening,
    ));
}

/// A resumption handle is kept for the next connection; a failure of the provider is shown and leaves
/// the state `Error`; a connection that closes unasked leaves the state `Stopped` and says so; a tool
/// call changes nothing. Nothing else changes.
#[verifier::rlimit(40)]
pub proof fn law_other_events_in_full(
    m: ManagerView,
    handle: Seq<char>,
    e: SessionErrorView,
    reason: CloseReason,
    call: SessionEventView,
    now: UnixMillis,
)
    requires
        call is ToolCall,
    ensures
        ({
            let kept = m.told(SessionEventView::SessionResumptionUpdate { handle }, now);
            let failed = m.told(SessionEventView::Error(e), now);
            let closed = m.told(SessionEventView::Closed { reason }, now);
            &&& kept.next == (ManagerView { last_resumption_handle: Some(handle), ..m })
            &&& kept.effects.len() == 0
            &&& failed.next == (ManagerView { state: AppState::Error, ..m })
            &&& failed.effects == seq![
                EffectView::Emit(UiEventView::Error { kind: "provider"@, message: e.words() }),
            ] + news_of(m.state, AppState::Error)
            &&& if reason == CloseReason::Client || m.state == AppState::Stopped {
                closed.next == m && closed.effects.len() == 0
            } else {
                &&& closed.next == (ManagerView { state: AppState::Stopped, ..m })
                &&& closed.effects == seq![
                    EffectView::Emit(UiEventView::State { state: AppState::Stopped }),
                    EffectView::Emit(
                        UiEventView::Connection {
                            status: ConnectionStatus::Disconnected,
                            detail: None,
                        },
                    ),
                ]
            }
            &&& m.told(call, now).next == m
            &&& m.told(call, now).effects.len() == 0
        }),
{
    let failed = m.told(SessionEventView::Error(e), now);
    assert(failed.effects =~= seq![
        EffectView::Emit(UiEventView::Error { kind: "provider"@, message: e.words() }),
    ] + news_of(m.state, AppState::Error));
    let closed = m.told(SessionEventView::Closed { reason }, now);
    if !(reason == CloseReason::Client || m.state == AppState::Stopped) {
        assert(closed.effects =~= seq![
            EffectView::Emit(UiEventView::State { state: AppState::Stopped }),
            EffectView::Emit(
                UiEventView::Connection { status: ConnectionStatus::Disconnected, detail: None },
            ),
        ]);
    }
}

/// How far a counter went since its last reading: not at all without one, nor where it went back.
pub open spec fn went(now: u64, last: Option<u64>) -> int {
    match last {
        Some(l) => if now >= l {
            now - l
        } else {
            0
        },
        None => 0,
    }
}

/// A tick of a live session gives one sample over the time since the last one, and begins a new window:
/// the provider's own counters where it has them, eight bits a byte and four quarters a token, and else
/// what was tallied.
#[verifier::rlimit(40)]
pub proof fn law_tick_in_full(
    m: ManagerView,
    now: UnixMillis,
    transport: Option<TransportBytes>,
    tokens: Option<TokenUsage>,
)
    requires
        m.state != AppState::Stopped,
        now > m.last_sample_ms,
    ensures
        ({
            let s = m.ticked(now, transport, tokens);
            let (sent, received) = match m.last_transport {
                Some(t) => (Some(t.sent), Some(t.received)),
                None => (None, None),
            };
            let (up, down) = match m.last_token_usage {
                Some(t) => (Some(t.up), Some(t.down)),
                None => (None, None),
            };
            let sample = s.effects[0]->Emit_0->Metrics_0;
            &&& s.effects.len() == 1
            &&& s.effects[0] is Emit
            &&& s.effects[0]->Emit_0 is Metrics
            &&& sample.window_ns == (now - m.last_sample_ms) * 1_000_000
            &&& sample.up_bits == 8 * (match transport {
                Some(t) => went(t.sent, sent),
                None => m.meter.up_bytes as int,
            })
            &&& sample.down_bits == 8 * (match transport {
                Some(t) => went(t.received, received),
                None => m.meter.down_bytes as int,
            })
            &&& sample.up_quarter_tokens == (match tokens {
                Some(t) => 4 * went(t.up, up),
                None => m.meter.in_chars as int,
            })
            &&& sample.down_quarter_tokens == (match tokens {
                Some(t) => 4 * went(t.down, down),
                None => m.meter.out_chars as int,
            })
            &&& s.next == (ManagerView {
                meter: ThroughputMeter { up_bytes: 0, down_bytes: 0, in_chars: 0, out_chars: 0 },
                last_sample_ms: now,
                last_transport: if transport is Some {
                    transport
                } else {
                    m.last_transport
                },
                last_token_usage: if tokens is Some {
                    tokens
                } else {
                    m.last_token_usage
                },
                ..m
            })
        }),
{
}

/// A tick gives no sample while stopped, when the window is begun anew with nothing counted, nor where
/// no time has passed, when nothing changes.
#[verifier::rlimit(40)]
pub proof fn law_idle_tick_in_full(
    m: ManagerView,
    now: UnixMillis,
    transport: Option<TransportBytes>,
    tokens: Option<TokenUsage>,
)
    ensures
        m.state == AppState::Stopped ==> m.ticked(now, transport, tokens).effects.len() == 0 && m.ticked(
            now,
            transport,
            tokens,
        ).next == (ManagerView {
            meter: ThroughputMeter { up_bytes: 0, down_bytes: 0, in_chars: 0, out_chars: 0 },
            last_sample_ms: now,
            last_transport: None,
            last_token_usage: None,
            ..m
        }),
        m.state != AppState::Stopped && now <= m.last_sample_ms ==> m.ticked(
            now,
            transport,
            tokens,
        ).effects.len() == 0 && m.ticked(now, transport, tokens).next == m,
{
}

/// What is said in a session reaches the next one: the seed holds the loaded turns in the order in which
/// they were said, none where loading failed, and the last resumption handle goes along.
pub proof fn law_connect_carries_the_seed(m: ManagerView, loaded: Option<Seq<TurnView>>)
    ensures
        ({
            let s = m.connecting(loaded);
            &&& s.next == m
            &&& s.effects.len() == 1
            &&& s.effects[0] is Connect
            &&& s.effects[0]->Connect_0.resumption_handle == m.last_resumption_handle
            &&& s.effects[0]->Connect_0.model == m.config.live_api.gemini.model@
            &&& s.effects[0]->Connect_0.system_instruction
                == m.config.live_api.gemini.system_instruction@
            &&& s.effects[0]->Connect_0.voice == (match m.config.live_api.gemini.voice {
                Some(v) => Some(v@),
                None => None,
            })
            &&& s.effects[0]->Connect_0.enable_input_transcription
                == m.config.live_api.gemini.input_transcription
            &&& s.effects[0]->Connect_0.enable_output_transcription
                == m.config.live_api.gemini.output_transcription
            &&& s.effects[0]->Connect_0.input_audio.sample_rate == 16_000
            &&& s.effects[0]->Connect_0.output_audio.sample_rate == 24_000
            &&& s.effects[0]->Connect_0.input_audio.channels == 1
            &&& s.effects[0]->Connect_0.output_audio.channels == 1
            &&& s.effects[0]->Connect_0.tools.len() == 0
            &&& loaded is None ==> s.effects[0]->Connect_0.initial_context.len() == 0
            &&& loaded is Some ==> s.effects[0]->Connect_0.initial_context.len()
                == loaded->0.len()
            &&& loaded is Some ==> forall|i: int|
                0 <= i < loaded->0.len() ==> #[trigger] s.effects[0]->Connect_0.initial_context[i]
                    == loaded->0[loaded->0.len() - 1 - i]
        }),
{
}

/// A manager begins stopped, heard, without a session, with nothing said and nothing counted.
pub proof fn law_fresh_manager(config: Config, now: UnixMillis, probes: bool)
    ensures
        ManagerView::fresh(config, now, probes) == (ManagerView {
            config,
            state: AppState::Stopped,
            mic_muted: false,
            connected: false,
            last_resumption_handle: None,
            agent_line: Seq::empty(),
            user_line: Seq::empty(),
            meter: ThroughputMeter { up_bytes: 0, down_bytes: 0, in_chars: 0, out_chars: 0 },
            last_sample_ms: now,
            last_transport: None,
            last_token_usage: None,
            probes,
        }),
{
}

/// What is said of an effect is said of all of it: its view holds what is sent, played, stored or told.
pub proof fn law_effect_views_hold_every_part(
    event: UiEvent,
    pcm: Vec<i16>,
    budget: TokenBudget,
    text: String,
    frame: Box<VideoFrame>,
    turn: HistoryTurn,
    state: AppState,
    error: SessionError,
)
    ensures
        Effect::Emit(event)@ == EffectView::Emit(event@),
        Effect::Play(pcm)@ == EffectView::Play(pcm@),
        Effect::Close@ == EffectView::Close,
        Effect::LoadContext(budget)@ == EffectView::LoadContext(budget),
        Effect::SendText(text)@ == EffectView::SendText(text@),
        Effect::SendAudio(pcm)@ == EffectView::SendAudio(pcm@),
        Effect::SendFrame(frame)@ == EffectView::SendFrame(*frame),
        Effect::EndAudioStream@ == EffectView::EndAudioStream,
        Effect::Append(turn, budget)@ == EffectView::Append(turn@, budget),
        Effect::ProbeNow@ == EffectView::ProbeNow,
        Effect::ReplyStart(Ok(()))@ == EffectView::ReplyStart(Ok(())),
        Effect::ReplyStart(Err(error))@ == EffectView::ReplyStart(Err(error@)),
        Effect::ReplyStop@ == EffectView::ReplyStop,
        Effect::ReplyText(Ok(()))@ == EffectView::ReplyText(Ok(())),
        Effect::ReplyText(Err(error))@ == EffectView::ReplyText(Err(error@)),
        Effect::ReplyState(state)@ == EffectView::ReplyState(state),
        Effect::Exit@ == EffectView::Exit,
{
}

} // verus!
