//! The state that the terminal shows, and how keys and engine events change it.
use vstd::prelude::*;
use vstd::string::*;

use crate::history::session::{SessionSummary, SummaryView};
use crate::history::{HistoryTurn, Role, TurnView};
use crate::metrics::MetricsSnapshot;
use crate::session::event::{
    AppState, ConnectionStatus, Reachability, Speaker, UiEvent, UiEventView,
};

use super::input::{Input, InputView};
use super::picker::{Picker, PickerView};
use super::theme::Theme;
use super::transcript::{Transcript, TranscriptView};

verus! {

/// Lines that a notch of the mouse wheel scrolls.
pub const WHEEL_LINES: u16 = 3;

/// What the user wants.
#[derive(Debug, Clone, Copy, PartialEq, Eq, Structural)]
pub enum Action {
    /// Leave.
    Quit,
    /// Start or stop the session.
    ToggleSession,
    /// Mute or unmute the microphone.
    ToggleMute,
    /// Start or stop sharing the screen.
    ToggleShare,
    /// Scroll a page toward older lines.
    ScrollUp,
    /// Scroll a page toward newer lines.
    ScrollDown,
    /// Scroll a few lines toward older ones.
    ScrollLineUp,
    /// Scroll a few lines toward newer ones.
    ScrollLineDown,
    /// Go to the oldest line.
    ScrollTop,
    /// Go to the newest line and stay there.
    ScrollBottom,
    /// Move the picker's highlight up.
    Up,
    /// Move the picker's highlight down.
    Down,
    /// Type a character.
    Insert(char),
    /// Delete the character before the caret.
    Backspace,
    /// Delete the character behind the caret.
    Delete,
    /// Move the caret left.
    Left,
    /// Move the caret right.
    Right,
    /// Submit the prompt, or confirm the picker's choice.
    Submit,
    /// Show or hide the help.
    ToggleHelp,
    /// Close what is open, or else clear the prompt.
    Escape,
    /// Nothing.
    Ignore,
}

/// What is to be done to the engine.
#[derive(Debug, PartialEq, Eq)]
pub enum Command {
    /// Start the session.
    Start,
    /// Stop the session.
    Stop,
    /// Send a text to the model.
    SendText(String),
    /// Mute or unmute the microphone.
    SetMicMuted(bool),
    /// Start sharing the screen.
    StartScreenshare,
    /// Stop sharing the screen.
    StopScreenshare,
    /// Open the list of sessions.
    OpenPicker,
    /// Resume a session.
    ResumeSession(String),
    /// Begin a new session.
    NewSession,
}

/// A [`Command`] with its texts as sequences of characters.
pub enum CommandView {
    /// Start the session.
    Start,
    /// Stop the session.
    Stop,
    /// Send a text to the model.
    SendText(Seq<char>),
    /// Mute or unmute the microphone.
    SetMicMuted(bool),
    /// Start sharing the screen.
    StartScreenshare,
    /// Stop sharing the screen.
    StopScreenshare,
    /// Open the list of sessions.
    OpenPicker,
    /// Resume a session.
    ResumeSession(Seq<char>),
    /// Begin a new session.
    NewSession,
}

impl View for Command {
    type V = CommandView;

    open spec fn view(&self) -> CommandView {
        match self {
            Command::Start => CommandView::Start,
            Command::Stop => CommandView::Stop,
            Command::SendText(t) => CommandView::SendText(t@),
            Command::SetMicMuted(m) => CommandView::SetMicMuted(*m),
            Command::StartScreenshare => CommandView::StartScreenshare,
            Command::StopScreenshare => CommandView::StopScreenshare,
            Command::OpenPicker => CommandView::OpenPicker,
            Command::ResumeSession(id) => CommandView::ResumeSession(id@),
            Command::NewSession => CommandView::NewSession,
        }
    }
}

/// The state that the terminal shows.
pub struct AppModel {
    /// Lifecycle state.
    pub state: AppState,
    /// Connection status.
    pub connection: ConnectionStatus,
    /// Whether the provider can be reached.
    pub reachability: Reachability,
    /// Whether there is an API key.
    pub has_key: bool,
    /// Colors.
    pub theme: Theme,
    /// The conversation.
    pub transcript: Transcript,
    /// Whether the view stays at the newest line.
    pub follow: bool,
    /// The topmost line that is shown.
    pub transcript_top: u16,
    /// How many lines are shown at once.
    pub transcript_page: u16,
    /// The prompt.
    pub input: Input,
    /// Whether the microphone is muted.
    pub mic_muted: bool,
    /// Whether the screen is shared.
    pub sharing: bool,
    /// The list of sessions, where it is open.
    pub picker: Option<Picker>,
    /// The latest throughput sample of a live session.
    pub metrics: Option<MetricsSnapshot>,
    /// When the session began to run, in milliseconds.
    pub started_at: Option<u64>,
    /// The phase of the animation.
    pub tick: u64,
    /// Whether the help is shown.
    pub show_help: bool,
    /// Whether to leave.
    pub should_quit: bool,
}

/// An [`AppModel`] with its parts as mathematical values.
pub struct ModelView {
    /// See [`AppModel::state`].
    pub state: AppState,
    /// See [`AppModel::connection`].
    pub connection: ConnectionStatus,
    /// See [`AppModel::reachability`].
    pub reachability: Reachability,
    /// See [`AppModel::has_key`].
    pub has_key: bool,
    /// See [`AppModel::theme`].
    pub theme: Theme,
    /// See [`AppModel::transcript`].
    pub transcript: TranscriptView,
    /// See [`AppModel::follow`].
    pub follow: bool,
    /// See [`AppModel::transcript_top`].
    pub transcript_top: u16,
    /// See [`AppModel::transcript_page`].
    pub transcript_page: u16,
    /// See [`AppModel::input`].
    pub input: InputView,
    /// See [`AppModel::mic_muted`].
    pub mic_muted: bool,
    /// See [`AppModel::sharing`].
    pub sharing: bool,
    /// See [`AppModel::picker`].
    pub picker: Option<PickerView>,
    /// See [`AppModel::metrics`].
    pub metrics: Option<MetricsSnapshot>,
    /// See [`AppModel::started_at`].
    pub started_at: Option<u64>,
    /// See [`AppModel::tick`].
    pub tick: u64,
    /// See [`AppModel::show_help`].
    pub show_help: bool,
    /// See [`AppModel::should_quit`].
    pub should_quit: bool,
}

/// The view of a picker that may be open.
pub open spec fn picker_view(picker: Option<Picker>) -> Option<PickerView> {
    match picker {
        Some(p) => Some(p@),
        None => None,
    }
}

/// The view of a command that may be there.
pub open spec fn command_view(command: Option<Command>) -> Option<CommandView> {
    match command {
        Some(c) => Some(c@),
        None => None,
    }
}

impl View for AppModel {
    type V = ModelView;

    open spec fn view(&self) -> ModelView {
        ModelView {
            state: self.state,
            connection: self.connection,
            reachability: self.reachability,
            has_key: self.has_key,
            theme: self.theme,
            transcript: self.transcript@,
            follow: self.follow,
            transcript_top: self.transcript_top,
            transcript_page: self.transcript_page,
            input: self.input@,
            mic_muted: self.mic_muted,
            sharing: self.sharing,
            picker: picker_view(self.picker),
            metrics: self.metrics,
            started_at: self.started_at,
            tick: self.tick,
            show_help: self.show_help,
            should_quit: self.should_quit,
        }
    }
}

/// A state after a step, and what is to be done to the engine.
pub struct Reaction {
    /// The state after it.
    pub next: ModelView,
    /// What is to be done.
    pub command: Option<CommandView>,
}

/// An empty prompt.
pub open spec fn empty_input() -> InputView {
    InputView { text: Seq::empty(), at: 0 }
}

/// An empty conversation.
pub open spec fn empty_transcript() -> TranscriptView {
    TranscriptView { entries: Seq::empty(), open: None }
}

/// Whether a state is that of a live session.
pub open spec fn is_live(state: AppState) -> bool {
    state != AppState::Stopped && state != AppState::Error
}

/// One number less another, but not below zero.
pub open spec fn less(a: u16, b: u16) -> u16 {
    if a >= b {
        (a - b) as u16
    } else {
        0
    }
}

/// One number and another, but not above the largest.
pub open spec fn plus(a: u16, b: u16) -> u16 {
    if a + b <= u16::MAX {
        (a + b) as u16
    } else {
        u16::MAX
    }
}

impl ModelView {
    /// What holds of every state: its parts are well-formed.
    pub open spec fn wf(self) -> bool {
        &&& self.transcript.wf()
        &&& self.input.wf()
        &&& self.picker is Some ==> self.picker->0.wf()
    }

    /// A step that asks nothing of the engine.
    pub open spec fn quietly(self) -> Reaction {
        Reaction { next: self, command: None }
    }

    /// A step that asks for one thing.
    pub open spec fn asking(self, command: CommandView) -> Reaction {
        Reaction { next: self, command: Some(command) }
    }

    /// With an empty conversation, at its newest line.
    pub open spec fn view_reset(self) -> ModelView {
        ModelView {
            transcript: empty_transcript(),
            follow: true,
            transcript_top: 0,
            ..self
        }
    }

    /// Scrolled toward older lines; the view no longer follows.
    pub open spec fn scrolled_up(self, lines: u16) -> ModelView {
        ModelView { follow: false, transcript_top: less(self.transcript_top, lines), ..self }
    }

    /// Scrolled toward newer lines.
    pub open spec fn scrolled_down(self, lines: u16) -> ModelView {
        ModelView { transcript_top: plus(self.transcript_top, lines), ..self }
    }

    /// The lines of a page: at least one.
    pub open spec fn page(self) -> u16 {
        if self.transcript_page >= 1 {
            self.transcript_page
        } else {
            1
        }
    }

    /// With an empty prompt.
    pub open spec fn cleared(self) -> ModelView {
        ModelView { input: empty_input(), ..self }
    }

    /// The prompt is submitted: a command is run, a text that begins with no slash is echoed and sent
    /// to a live session, and anything else stays in the prompt.
    pub open spec fn submitted(self) -> Reaction {
        let text = crate::text::trimmed(self.input.text);
        let low = crate::text::ascii_lowered(text);
        if low == "/exit"@ || low == "/quit"@ || low == "/q"@ {
            ModelView { should_quit: true, ..self.cleared() }.quietly()
        } else if low == "/resume"@ {
            self.cleared().asking(CommandView::OpenPicker)
        } else if low == "/new"@ {
            self.cleared().view_reset().asking(CommandView::NewSession)
        } else if !is_live(self.state) || text.len() == 0 || text[0] == '/' {
            self.quietly()
        } else {
            ModelView {
                transcript: self.transcript.heard(Speaker::User, text, true),
                ..self.cleared()
            }.asking(CommandView::SendText(text))
        }
    }

    /// What a key does while the list of sessions is open: it moves the highlight, resumes the
    /// highlighted session or closes the list, and nothing else.
    pub open spec fn picked(self, picker: PickerView, action: Action) -> Reaction {
        match action {
            Action::Up => ModelView { picker: Some(picker.stepped_up()), ..self }.quietly(),
            Action::Down => ModelView { picker: Some(picker.stepped_down()), ..self }.quietly(),
            Action::Submit => match picker.chosen() {
                Some(id) => ModelView { picker: None, ..self }.view_reset().asking(
                    CommandView::ResumeSession(id),
                ),
                None => ModelView { picker: None, ..self }.quietly(),
            },
            Action::Escape => ModelView { picker: None, ..self }.quietly(),
            Action::Quit => ModelView { picker: None, ..self }.quietly(),
            _ => self.quietly(),
        }
    }

    /// What a key does.
    pub open spec fn acted(self, action: Action) -> Reaction {
        match self.picker {
            Some(picker) => self.picked(picker, action),
            None => match action {
                Action::Quit => ModelView { should_quit: true, ..self }.quietly(),
                Action::ToggleSession => if is_live(self.state) {
                    self.asking(CommandView::Stop)
                } else if self.has_key {
                    self.asking(CommandView::Start)
                } else {
                    self.quietly()
                },
                Action::ToggleMute => ModelView { mic_muted: !self.mic_muted, ..self }.asking(
                    CommandView::SetMicMuted(!self.mic_muted),
                ),
                Action::ToggleShare => if !is_live(self.state) {
                    self.quietly()
                } else if self.sharing {
                    ModelView { sharing: false, ..self }.asking(CommandView::StopScreenshare)
                } else {
                    ModelView { sharing: true, ..self }.asking(CommandView::StartScreenshare)
                },
                Action::ScrollUp => self.scrolled_up(self.page()).quietly(),
                Action::ScrollDown => self.scrolled_down(self.page()).quietly(),
                Action::ScrollLineUp => self.scrolled_up(WHEEL_LINES).quietly(),
                Action::ScrollLineDown => self.scrolled_down(WHEEL_LINES).quietly(),
                Action::ScrollTop => self.scrolled_up(u16::MAX).quietly(),
                Action::ScrollBottom => ModelView { follow: true, ..self }.quietly(),
                Action::Submit => self.submitted(),
                Action::ToggleHelp => ModelView { show_help: !self.show_help, ..self }.quietly(),
                Action::Escape => if self.show_help {
                    ModelView { show_help: false, ..self }.quietly()
                } else {
                    self.cleared().quietly()
                },
                _ => ModelView { input: edited(self.input, action), ..self }.quietly(),
            },
        }
    }

    /// What an event of the engine does, at a time. A session that stops or fails takes its uptime,
    /// its metrics and its screen sharing with it.
    pub open spec fn informed(self, event: UiEventView, now: u64) -> Reaction {
        match event {
            UiEventView::State { state } => if !is_live(state) {
                let idle = ModelView {
                    state,
                    started_at: None,
                    metrics: None,
                    sharing: false,
                    ..self
                };
                if self.sharing {
                    idle.asking(CommandView::StopScreenshare)
                } else {
                    idle.quietly()
                }
            } else {
                ModelView {
                    state,
                    started_at: if self.started_at is Some {
                        self.started_at
                    } else {
                        Some(now)
                    },
                    ..self
                }.quietly()
            },
            UiEventView::Connection { status, detail } => ModelView {
                connection: status,
                ..self
            }.quietly(),
            UiEventView::Reachability { state, detail } => ModelView {
                reachability: state,
                ..self
            }.quietly(),
            UiEventView::Transcript { speaker, text, final_ } => ModelView {
                transcript: self.transcript.heard(speaker, text, final_),
                ..self
            }.quietly(),
            UiEventView::Metrics(snapshot) => if is_live(self.state) {
                ModelView { metrics: Some(snapshot), ..self }.quietly()
            } else {
                self.quietly()
            },
            UiEventView::Error { kind, message } => ModelView {
                transcript: self.transcript.failed(kind + ": "@ + message),
                ..self
            }.quietly(),
            UiEventView::History(meta) => self.quietly(),
            UiEventView::Settings { settings } => self.quietly(),
        }
    }
}

/// The conversation that stored turns give: those of the user and of the agent, each a line.
pub open spec fn replayed(turns: Seq<TurnView>) -> TranscriptView
    decreases turns.len(),
{
    if turns.len() == 0 {
        empty_transcript()
    } else {
        let before = replayed(turns.drop_last());
        let turn = turns.last();
        match turn.role {
            Role::User => before.heard(Speaker::User, turn.text, true),
            Role::Assistant => before.heard(Speaker::Agent, turn.text, true),
            Role::System => before,
        }
    }
}

/// Whether an action may ask something of the engine.
pub open spec fn controls(action: Action) -> bool {
    action == Action::ToggleSession || action == Action::ToggleMute || action
        == Action::ToggleShare || action == Action::Submit
}

/// Whether an action scrolls.
pub open spec fn scrolls(action: Action) -> bool {
    action == Action::ScrollUp || action == Action::ScrollDown || action == Action::ScrollLineUp
        || action == Action::ScrollLineDown || action == Action::ScrollTop || action
        == Action::ScrollBottom
}

/// The prompt after an action that edits it; any other leaves it.
pub open spec fn edited(input: InputView, action: Action) -> InputView {
    match action {
        Action::Insert(c) => input.inserted(c),
        Action::Backspace => input.backspaced(),
        Action::Delete => input.deleted(),
        Action::Left => input.moved_left(),
        Action::Right => input.moved_right(),
        _ => input,
    }
}

fn edit_input(input: &mut Input, action: Action)
    requires
        old(input).wf(),
    ensures
        final(input).wf(),
        final(input)@ == edited(old(input)@, action),
{
    match action {
        Action::Insert(c) => input.insert(c),
        Action::Backspace => input.backspace(),
        Action::Delete => input.delete(),
        Action::Left => input.left(),
        Action::Right => input.right(),
        _ => {},
    }
}

fn is_control(action: Action) -> (r: bool)
    ensures
        r == controls(action),
{
    action == Action::ToggleSession || action == Action::ToggleMute || action
        == Action::ToggleShare || action == Action::Submit
}

fn is_scroll(action: Action) -> (r: bool)
    ensures
        r == scrolls(action),
{
    action == Action::ScrollUp || action == Action::ScrollDown || action == Action::ScrollLineUp
        || action == Action::ScrollLineDown || action == Action::ScrollTop || action
        == Action::ScrollBottom
}

impl AppModel {
    /// What holds of every state.
    pub open spec fn wf(&self) -> bool {
        self@.wf()
    }

    /// The state at the start.
    #[must_use]
    pub fn new(has_key: bool) -> (r: Self)
        ensures
            r.wf(),
            r@ == (ModelView {
                state: AppState::Stopped,
                connection: ConnectionStatus::Disconnected,
                reachability: Reachability::Unknown,
                has_key,
                theme: Theme::spec_default(),
                transcript: empty_transcript(),
                follow: true,
                transcript_top: 0,
                transcript_page: 0,
                input: empty_input(),
                mic_muted: false,
                sharing: false,
                picker: None,
                metrics: None,
                started_at: None,
                tick: 0,
                show_help: false,
                should_quit: false,
            }),
    {
        AppModel {
            state: AppState::Stopped,
            connection: ConnectionStatus::Disconnected,
            reachability: Reachability::Unknown,
            has_key,
            theme: Theme::default(),
            transcript: Transcript::new(),
            follow: true,
            transcript_top: 0,
            transcript_page: 0,
            input: Input::new(),
            mic_muted: false,
            sharing: false,
            picker: None,
            metrics: None,
            started_at: None,
            tick: 0,
            show_help: false,
            should_quit: false,
        }
    }

    /// Whether a session is live.
    #[must_use]
    pub fn is_running(&self) -> (r: bool)
        ensures
            r == is_live(self.state),
    {
        self.state != AppState::Stopped && self.state != AppState::Error
    }

    /// Open the list of sessions on its first row.
    pub fn open_picker(&mut self, sessions: Vec<SessionSummary>)
        requires
            old(self).wf(),
        ensures
            final(self).wf(),
            final(self)@ == (ModelView {
                picker: Some(
                    PickerView {
                        sessions: crate::text::views(sessions@),
                        selected: 0,
                        current_id: None,
                    },
                ),
                ..old(self)@
            }),
    {
        self.open_picker_on(sessions, None);
    }

    /// Open the list of sessions on the one in use, where it is listed.
    pub fn open_picker_on(&mut self, sessions: Vec<SessionSummary>, current_id: Option<String>)
        requires
            old(self).wf(),
        ensures
            final(self).wf(),
            ({
                let views = crate::text::views(sessions@);
                let current = crate::history::session::opt_text(current_id);
                final(self)@ == (ModelView {
                    picker: Some(
                        PickerView {
                            sessions: views,
                            selected: super::picker::opening_row(
                                super::picker::ids_of(views),
                                current,
                            ),
                            current_id: current,
                        },
                    ),
                    ..old(self)@
                })
            }),
    {
        self.picker = Some(Picker::new(sessions, current_id));
    }

    /// Empty the conversation, and show its newest line from now on.
    pub fn reset_conversation_view(&mut self)
        requires
            old(self).wf(),
        ensures
            final(self).wf(),
            final(self)@ == old(self)@.view_reset(),
    {
        self.transcript = Transcript::new();
        self.follow = true;
        self.transcript_top = 0;
    }

    /// Show the turns of a stored conversation.
    pub fn load_history(&mut self, turns: &[HistoryTurn])
        requires
            old(self).wf(),
        ensures
            final(self).wf(),
            final(self)@ == (ModelView {
                transcript: replayed(crate::text::views(turns@)),
                ..old(self)@.view_reset()
            }),
    {
        self.reset_conversation_view();
        let ghost all = crate::text::views(turns@);
        let ghost reset = self@;
        let mut i: usize = 0;
        assert(all.take(0) =~= Seq::empty());
        while i < turns.len()
            invariant
                i <= turns.len(),
                all == crate::text::views(turns@),
                self.wf(),
                self@ == (ModelView { transcript: replayed(all.take(i as int)), ..reset }),
            decreases turns.len() - i,
        {
            proof {
                assert(all.take(i + 1).drop_last() =~= all.take(i as int));
                assert(all.take(i + 1).last() == turns@[i as int]@);
            }
            match turns[i].role {
                Role::User => {
                    self.transcript.push_transcript(Speaker::User, turns[i].text.clone(), true);
                },
                Role::Assistant => {
                    self.transcript.push_transcript(Speaker::Agent, turns[i].text.clone(), true);
                },
                Role::System => {},
            }
            i = i + 1;
        }
        assert(all.take(i as int) =~= all);
    }

    fn scroll_up(&mut self, lines: u16)
        requires
            old(self).wf(),
        ensures
            final(self).wf(),
            final(self)@ == old(self)@.scrolled_up(lines),
    {
        self.follow = false;
        self.transcript_top = if self.transcript_top >= lines {
            self.transcript_top - lines
        } else {
            0
        };
    }

    fn scroll_down(&mut self, lines: u16)
        requires
            old(self).wf(),
        ensures
            final(self).wf(),
            final(self)@ == old(self)@.scrolled_down(lines),
    {
        self.transcript_top = if self.transcript_top <= u16::MAX - lines {
            self.transcript_top + lines
        } else {
            u16::MAX
        };
    }

    fn toggle_share(&mut self) -> (r: Option<Command>)
        requires
            old(self).wf(),
            old(self).picker is None,
        ensures
            final(self).wf(),
            final(self)@ == old(self)@.acted(Action::ToggleShare).next,
            command_view(r) == old(self)@.acted(Action::ToggleShare).command,
    {
        if !self.is_running() {
            None
        } else if self.sharing {
            self.sharing = false;
            Some(Command::StopScreenshare)
        } else {
            self.sharing = true;
            Some(Command::StartScreenshare)
        }
    }

    /// Fold in what the user wants, and say what is to be done to the engine.
    pub fn on_action(&mut self, action: Action) -> (r: Option<Command>)
        requires
            old(self).wf(),
        ensures
            final(self).wf(),
            final(self)@ == old(self)@.acted(action).next,
            command_view(r) == old(self)@.acted(action).command,
    {
        if self.picker.is_some() {
            return self.on_picker_action(action);
        }
        if is_control(action) {
            return self.control(action);
        }
        if is_scroll(action) {
            self.scroll(action);
        } else {
            self.edit(action);
        }
        None
    }

    fn control(&mut self, action: Action) -> (r: Option<Command>)
        requires
            old(self).wf(),
            old(self).picker is None,
            controls(action),
        ensures
            final(self).wf(),
            final(self)@ == old(self)@.acted(action).next,
            command_view(r) == old(self)@.acted(action).command,
    {
        match action {
            Action::ToggleSession => {
                if self.is_running() {
                    Some(Command::Stop)
                } else if self.has_key {
                    Some(Command::Start)
                } else {
                    None
                }
            },
            Action::ToggleMute => {
                self.mic_muted = !self.mic_muted;
                Some(Command::SetMicMuted(self.mic_muted))
            },
            Action::ToggleShare => self.toggle_share(),
            _ => self.submit(),
        }
    }

    fn scroll(&mut self, action: Action)
        requires
            old(self).wf(),
            old(self).picker is None,
            scrolls(action),
        ensures
            final(self).wf(),
            final(self)@ == old(self)@.acted(action).next,
    {
        let page: u16 = if self.transcript_page >= 1 {
            self.transcript_page
        } else {
            1
        };
        match action {
            Action::ScrollUp => self.scroll_up(page),
            Action::ScrollDown => self.scroll_down(page),
            Action::ScrollLineUp => self.scroll_up(WHEEL_LINES),
            Action::ScrollLineDown => self.scroll_down(WHEEL_LINES),
            Action::ScrollTop => self.scroll_up(u16::MAX),
            _ => self.follow = true,
        }
    }

    #[verifier::rlimit(40)]
    fn edit(&mut self, action: Action)
        requires
            old(self).wf(),
            old(self).picker is None,
            !controls(action),
            !scrolls(action),
        ensures
            final(self).wf(),
            final(self)@ == old(self)@.acted(action).next,
    {
        match action {
            Action::Quit => self.should_quit = true,
            Action::ToggleHelp => self.show_help = !self.show_help,
            Action::Escape => {
                if self.show_help {
                    self.show_help = false;
                } else {
                    self.input.clear();
                }
            },
            _ => edit_input(&mut self.input, action),
        }
    }

    fn hear(&mut self, speaker: Speaker, text: String, final_: bool)
        requires
            old(self).wf(),
        ensures
            final(self).wf(),
            final(self)@ == (ModelView {
                transcript: old(self)@.transcript.heard(speaker, text@, final_),
                ..old(self)@
            }),
    {
        self.transcript.push_transcript(speaker, text, final_);
    }

    fn report(&mut self, kind: &str, message: &str)
        requires
            old(self).wf(),
        ensures
            final(self).wf(),
            final(self)@ == (ModelView {
                transcript: old(self)@.transcript.failed(kind@ + ": "@ + message@),
                ..old(self)@
            }),
    {
        let line: String = crate::text::join3(kind, ": ", message);
        self.transcript.push_error(line);
    }

    fn on_picker_action(&mut self, action: Action) -> (r: Option<Command>)
        requires
            old(self).wf(),
            old(self).picker is Some,
        ensures
            final(self).wf(),
            final(self)@ == old(self)@.acted(action).next,
            command_view(r) == old(self)@.acted(action).command,
    {
        match self.picker.take() {
            None => None,
            Some(mut picker) => {
                match action {
                    Action::Up => {
                        picker.up();
                        self.picker = Some(picker);
                    },
                    Action::Down => {
                        picker.down();
                        self.picker = Some(picker);
                    },
                    Action::Submit => {
                        match picker.selected_id() {
                            Some(id) => {
                                self.reset_conversation_view();
                                return Some(Command::ResumeSession(id.to_owned()));
                            },
                            None => {},
                        }
                    },
                    Action::Escape => {},
                    Action::Quit => {},
                    _ => self.picker = Some(picker),
                }
                None
            },
        }
    }

    fn submit(&mut self) -> (r: Option<Command>)
        requires
            old(self).wf(),
        ensures
            final(self).wf(),
            final(self)@ == old(self)@.submitted().next,
            command_view(r) == old(self)@.submitted().command,
    {
        let text: String = crate::text::trim(self.input.value());
        let low: String = crate::text::to_ascii_lower(text.as_str());
        if crate::text::same(low.as_str(), "/exit") || crate::text::same(low.as_str(), "/quit")
            || crate::text::same(low.as_str(), "/q") {
            self.input.clear();
            self.should_quit = true;
            return None;
        }
        if crate::text::same(low.as_str(), "/resume") {
            self.input.clear();
            return Some(Command::OpenPicker);
        }
        if crate::text::same(low.as_str(), "/new") {
            self.input.clear();
            self.reset_conversation_view();
            return Some(Command::NewSession);
        }
        if !self.is_running() || text.as_str().is_empty() || text.as_str().get_char(0) == '/' {
            return None;
        }
        self.input.clear();
        self.transcript.push_transcript(Speaker::User, text.clone(), true);
        Some(Command::SendText(text))
    }

    /// Fold in an event of the engine, and say what is to be done to the engine. `now` is the time
    /// in milliseconds.
    #[verifier::rlimit(40)]
    pub fn on_ui_event(&mut self, event: UiEvent, now: u64) -> (r: Option<Command>)
        requires
            old(self).wf(),
        ensures
            final(self).wf(),
            final(self)@ == old(self)@.informed(event@, now).next,
            command_view(r) == old(self)@.informed(event@, now).command,
    {
        match event {
            UiEvent::State { state } => {
                return self.enter(state, now);
            },
            UiEvent::Connection { status, detail } => self.connection = status,
            UiEvent::Reachability { state, detail } => self.reachability = state,
            UiEvent::Transcript { speaker, text, final_ } => {
                self.hear(speaker, text, final_);
            },
            UiEvent::Metrics(snapshot) => {
                if self.is_running() {
                    self.metrics = Some(snapshot);
                }
            },
            UiEvent::Error { kind, message } => {
                self.report(kind.as_str(), message.as_str());
            },
            UiEvent::History(meta) => {},
            UiEvent::Settings { settings } => {},
        }
        None
    }

    fn enter(&mut self, state: AppState, now: u64) -> (r: Option<Command>)
        requires
            old(self).wf(),
        ensures
            final(self).wf(),
            final(self)@ == old(self)@.informed(UiEventView::State { state }, now).next,
            command_view(r) == old(self)@.informed(UiEventView::State { state }, now).command,
    {
        self.state = state;
        if state == AppState::Stopped || state == AppState::Error {
            self.started_at = None;
            self.metrics = None;
            if self.sharing {
                self.sharing = false;
                return Some(Command::StopScreenshare);
            }
        } else if self.started_at.is_none() {
            self.started_at = Some(now);
        }
        None
    }

    /// Advance the animation.
    pub fn on_tick(&mut self)
        requires
            old(self).wf(),
        ensures
            final(self).wf(),
            final(self)@ == (ModelView { tick: old(self)@.tick.wrapping_add(1), ..old(self)@ }),
    {
        self.tick = self.tick.wrapping_add(1);
    }
}

/// Muting twice is as if it had not been, and both times the engine is told.
pub proof fn law_mute_toggles_back(m: ModelView)
    requires
        m.picker is None,
    ensures
        ({
            let once = m.acted(Action::ToggleMute);
            let twice = once.next.acted(Action::ToggleMute);
            &&& twice.next == m
            &&& once.command == Some(CommandView::SetMicMuted(!m.mic_muted))
            &&& twice.command == Some(CommandView::SetMicMuted(m.mic_muted))
        }),
{
}

/// While the list of sessions is open, no key changes the prompt or quits, and only resuming a
/// session asks anything of the engine.
pub proof fn law_picker_captures_keys(m: ModelView, action: Action)
    requires
        m.picker is Some,
    ensures
        m.acted(action).next.input == m.input,
        m.acted(action).next.should_quit == m.should_quit,
        m.acted(action).command matches Some(c) ==> c is ResumeSession,
{
}

/// A session that stops takes its screen sharing with it: afterwards nothing is shared, and where
/// something was, the engine is told to stop.
pub proof fn law_stopping_ends_sharing(m: ModelView, state: AppState, now: u64)
    requires
        !is_live(state),
    ensures
        ({
            let r = m.informed(UiEventView::State { state }, now);
            &&& !r.next.sharing
            &&& r.next.started_at is None
            &&& r.next.metrics is None
            &&& m.sharing ==> r.command == Some(CommandView::StopScreenshare)
        }),
{
}

/// Without a live session there are never any metrics to show: what holds of a state holds after
/// any event.
pub proof fn law_idle_shows_no_metrics(m: ModelView, event: UiEventView, now: u64)
    requires
        !is_live(m.state) ==> m.metrics is None,
    ensures
        ({
            let n = m.informed(event, now).next;
            !is_live(n.state) ==> n.metrics is None
        }),
{
}

/// Without a key no session is asked for.
pub proof fn law_no_key_no_start(m: ModelView, action: Action)
    requires
        !m.has_key,
    ensures
        m.acted(action).command != Some(CommandView::Start),
{
}

/// A line that begins with a slash never goes to the model, and it leaves the conversation as it is
/// unless it asks for a new session.
pub proof fn law_slash_line_stays_local(m: ModelView)
    requires
        m.picker is None,
        crate::text::trimmed(m.input.text).len() > 0,
        crate::text::trimmed(m.input.text)[0] == '/',
    ensures
        ({
            let r = m.acted(Action::Submit);
            &&& r.command matches Some(c) ==> c !is SendText
            &&& r.command != Some(CommandView::NewSession) ==> r.next.transcript == m.transcript
        }),
{
}

/// A text goes to the model only from a live session, and is then the newest line of the
/// conversation.
pub proof fn law_sent_text_is_echoed(m: ModelView, text: Seq<char>)
    requires
        m.wf(),
        m.submitted().command == Some(CommandView::SendText(text)),
    ensures
        is_live(m.state),
        m.submitted().next.input == empty_input(),
        m.submitted().next.transcript == m.transcript.heard(Speaker::User, text, true),
{
}

/// Whatever scrolls up lets go of the newest line, and going to the newest line follows it again.
pub proof fn law_scrolling_up_lets_go(m: ModelView)
    requires
        m.picker is None,
    ensures
        !m.acted(Action::ScrollUp).next.follow,
        !m.acted(Action::ScrollLineUp).next.follow,
        !m.acted(Action::ScrollTop).next.follow,
        m.acted(Action::ScrollTop).next.transcript_top == 0,
        m.acted(Action::ScrollBottom).next.follow,
{
}

/// A key that asks for leaving, help or a change of the prompt does that alone, and asks nothing of the
/// engine.
pub proof fn law_keys_of_the_screen(m: ModelView, c: char)
    requires
        m.picker is None,
    ensures
        m.acted(Action::Quit) == (Reaction {
            next: ModelView { should_quit: true, ..m },
            command: None,
        }),
        m.acted(Action::ToggleHelp) == (Reaction {
            next: ModelView { show_help: !m.show_help, ..m },
            command: None,
        }),
        m.acted(Action::Insert(c)) == (Reaction {
            next: ModelView { input: m.input.inserted(c), ..m },
            command: None,
        }),
        m.acted(Action::Backspace) == (Reaction {
            next: ModelView { input: m.input.backspaced(), ..m },
            command: None,
        }),
        m.acted(Action::Delete) == (Reaction {
            next: ModelView { input: m.input.deleted(), ..m },
            command: None,
        }),
        m.acted(Action::Left) == (Reaction {
            next: ModelView { input: m.input.moved_left(), ..m },
            command: None,
        }),
        m.acted(Action::Right) == (Reaction {
            next: ModelView { input: m.input.moved_right(), ..m },
            command: None,
        }),
        m.show_help ==> m.acted(Action::Escape) == (Reaction {
            next: ModelView { show_help: false, ..m },
            command: None,
        }),
        !m.show_help ==> m.acted(Action::Escape) == (Reaction {
            next: ModelView { input: InputView { text: Seq::empty(), at: 0 }, ..m },
            command: None,
        }),
        m.acted(Action::Up) == (Reaction { next: m, command: None }),
        m.acted(Action::Down) == (Reaction { next: m, command: None }),
        m.acted(Action::Ignore) == (Reaction { next: m, command: None }),
{
}

/// The session is stopped where one runs and else started where there is a key; the microphone is muted
/// or unmuted in any case; the screen is shared only in a session. Each asks for it and changes nothing
/// else.
pub proof fn law_keys_of_the_session(m: ModelView)
    requires
        m.picker is None,
    ensures
        m.state is Stopped || m.state is Error ==> (m.has_key ==> m.acted(Action::ToggleSession) == (
        Reaction { next: m, command: Some(CommandView::Start) })) && (!m.has_key ==> m.acted(
            Action::ToggleSession,
        ) == (Reaction { next: m, command: None })),
        !(m.state is Stopped || m.state is Error) ==> m.acted(Action::ToggleSession) == (Reaction {
            next: m,
            command: Some(CommandView::Stop),
        }),
        m.acted(Action::ToggleMute) == (Reaction {
            next: ModelView { mic_muted: !m.mic_muted, ..m },
            command: Some(CommandView::SetMicMuted(!m.mic_muted)),
        }),
        m.state is Stopped || m.state is Error ==> m.acted(Action::ToggleShare) == (Reaction {
            next: m,
            command: None,
        }),
        !(m.state is Stopped || m.state is Error) && m.sharing ==> m.acted(Action::ToggleShare) == (
        Reaction {
            next: ModelView { sharing: false, ..m },
            command: Some(CommandView::StopScreenshare),
        }),
        !(m.state is Stopped || m.state is Error) && !m.sharing ==> m.acted(Action::ToggleShare) == (
        Reaction {
            next: ModelView { sharing: true, ..m },
            command: Some(CommandView::StartScreenshare),
        }),
{
}

/// Scrolling moves the topmost line by a page, by three lines for the wheel, or to the beginning, never
/// above it; only toward older lines it lets go of the newest.
pub proof fn law_keys_of_the_view(m: ModelView)
    requires
        m.picker is None,
        m.transcript_page >= 1,
        m.transcript_top + m.transcript_page <= u16::MAX,
        m.transcript_top + 3 <= u16::MAX,
    ensures
        m.transcript_top >= m.transcript_page ==> m.acted(Action::ScrollUp).next == (ModelView {
            follow: false,
            transcript_top: (m.transcript_top - m.transcript_page) as u16,
            ..m
        }),
        m.transcript_top < m.transcript_page ==> m.acted(Action::ScrollUp).next == (ModelView {
            follow: false,
            transcript_top: 0,
            ..m
        }),
        m.acted(Action::ScrollDown).next == (ModelView {
            transcript_top: (m.transcript_top + m.transcript_page) as u16,
            ..m
        }),
        m.transcript_top >= 3 ==> m.acted(Action::ScrollLineUp).next == (ModelView {
            follow: false,
            transcript_top: (m.transcript_top - 3) as u16,
            ..m
        }),
        m.acted(Action::ScrollLineDown).next == (ModelView {
            transcript_top: (m.transcript_top + 3) as u16,
            ..m
        }),
        m.acted(Action::ScrollTop).next == (ModelView { follow: false, transcript_top: 0, ..m }),
        m.acted(Action::ScrollBottom).next == (ModelView { follow: true, ..m }),
        m.acted(Action::ScrollUp).command is None && m.acted(Action::ScrollDown).command is None,
        m.acted(Action::ScrollLineUp).command is None && m.acted(
            Action::ScrollLineDown,
        ).command is None,
        m.acted(Action::ScrollTop).command is None && m.acted(Action::ScrollBottom).command is None,
{
}

/// Scrolling stops at the ends of what can be counted, and a page has at least one line.
pub proof fn law_scrolling_stops_at_the_ends(a: u16, b: u16, m: ModelView)
    ensures
        a + b > u16::MAX ==> plus(a, b) == u16::MAX,
        a + b <= u16::MAX ==> plus(a, b) == a + b,
        a >= b ==> less(a, b) == a - b,
        a < b ==> less(a, b) == 0,
        m.transcript_page == 0 ==> m.page() == 1,
        m.transcript_page > 0 ==> m.page() == m.transcript_page,
{
}

/// A text that is no command goes from a live session to the model, without the white space around it: it
/// stands in the conversation as the user's line, and the prompt is empty. Without a session, or with
/// nothing in it, the prompt stays as it is.
pub proof fn law_prompt_goes_to_the_model(m: ModelView)
    requires
        m.picker is None,
        crate::text::trimmed(m.input.text).len() == 0 || crate::text::trimmed(m.input.text)[0] != '/',
    ensures
        !(m.state is Stopped || m.state is Error) && crate::text::trimmed(m.input.text).len() > 0
            ==> m.acted(Action::Submit) == (Reaction {
            next: ModelView {
                transcript: m.transcript.heard(
                    Speaker::User,
                    crate::text::trimmed(m.input.text),
                    true,
                ),
                input: InputView { text: Seq::empty(), at: 0 },
                ..m
            },
            command: Some(CommandView::SendText(crate::text::trimmed(m.input.text))),
        }),
        m.state is Stopped || m.state is Error || crate::text::trimmed(m.input.text).len() == 0
            ==> m.acted(Action::Submit) == (Reaction { next: m, command: None }),
{
    let text = crate::text::trimmed(m.input.text);
    let low = crate::text::ascii_lowered(text);
    reveal_strlit("/exit");
    reveal_strlit("/quit");
    reveal_strlit("/q");
    reveal_strlit("/resume");
    reveal_strlit("/new");
    if low.len() > 0 {
        crate::text::law_ascii_lowering(text, 0);
        assert(low[0] != '/');
    }
    assert("/exit"@[0] == '/' && "/quit"@[0] == '/' && "/q"@[0] == '/' && "/resume"@[0] == '/'
        && "/new"@[0] == '/');
}

/// What the commands do, in either case of letters: leaving, opening the list of sessions, or beginning a
/// new one with an empty conversation; each empties the prompt. Any other line with a slash stays.
pub proof fn law_slash_commands(m: ModelView, low: Seq<char>)
    requires
        m.picker is None,
        low == crate::text::ascii_lowered(crate::text::trimmed(m.input.text)),
    ensures
        low == "/exit"@ || low == "/quit"@ || low == "/q"@ ==> m.acted(Action::Submit) == (Reaction {
            next: ModelView {
                should_quit: true,
                input: InputView { text: Seq::empty(), at: 0 },
                ..m
            },
            command: None,
        }),
        low == "/resume"@ ==> m.acted(Action::Submit) == (Reaction {
            next: ModelView { input: InputView { text: Seq::empty(), at: 0 }, ..m },
            command: Some(CommandView::OpenPicker),
        }),
        low == "/new"@ ==> m.acted(Action::Submit) == (Reaction {
            next: ModelView {
                input: InputView { text: Seq::empty(), at: 0 },
                transcript: TranscriptView { entries: Seq::empty(), open: None },
                follow: true,
                transcript_top: 0,
                ..m
            },
            command: Some(CommandView::NewSession),
        }),
        low.len() > 0 && low[0] == '/' && !(low == "/exit"@ || low == "/quit"@ || low == "/q"@ || low
            == "/resume"@ || low == "/new"@) ==> m.acted(Action::Submit) == (Reaction {
            next: m,
            command: None,
        }),
{
    reveal_strlit("/exit");
    reveal_strlit("/quit");
    reveal_strlit("/q");
    reveal_strlit("/resume");
    reveal_strlit("/new");
    assert("/exit"@[1] == 'e' && "/quit"@[1] == 'q' && "/q"@[1] == 'q' && "/resume"@[1] == 'r'
        && "/new"@[1] == 'n');
    let text = crate::text::trimmed(m.input.text);
    if low.len() > 0 && low[0] == '/' {
        crate::text::law_ascii_lowering(text, 0);
        assert(text[0] == '/');
    }
}

/// With the list of sessions open, the highlight moves, confirming resumes the highlighted session with
/// an empty conversation and closes the list, and leaving closes it; everything else does nothing.
pub proof fn law_keys_of_the_picker(m: ModelView, p: PickerView, c: char)
    requires
        m.picker == Some(p),
    ensures
        m.acted(Action::Up) == (Reaction {
            next: ModelView { picker: Some(p.stepped_up()), ..m },
            command: None,
        }),
        m.acted(Action::Down) == (Reaction {
            next: ModelView { picker: Some(p.stepped_down()), ..m },
            command: None,
        }),
        0 <= p.selected < p.sessions.len() ==> m.acted(Action::Submit) == (Reaction {
            next: ModelView {
                picker: None,
                transcript: TranscriptView { entries: Seq::empty(), open: None },
                follow: true,
                transcript_top: 0,
                ..m
            },
            command: Some(CommandView::ResumeSession(p.sessions[p.selected].id)),
        }),
        p.sessions.len() == 0 ==> m.acted(Action::Submit) == (Reaction {
            next: ModelView { picker: None, ..m },
            command: None,
        }),
        m.acted(Action::Escape) == (Reaction { next: ModelView { picker: None, ..m }, command: None }),
        m.acted(Action::Quit) == (Reaction { next: ModelView { picker: None, ..m }, command: None }),
        m.acted(Action::Insert(c)) == (Reaction { next: m, command: None }),
        m.acted(Action::ToggleSession) == (Reaction { next: m, command: None }),
        m.acted(Action::ToggleMute) == (Reaction { next: m, command: None }),
        m.acted(Action::ToggleShare) == (Reaction { next: m, command: None }),
{
}

/// The states of a live session are all but that of a stopped and of a failed one.
pub proof fn law_live_states(state: AppState)
    ensures
        is_live(state) == (state is Connecting || state is Listening || state is Thinking
            || state is Speaking || state is Reconnecting),
{
}

/// What an event of the engine changes: what it speaks of, and nothing else.
pub proof fn law_events_in_full(
    m: ModelView,
    status: ConnectionStatus,
    reach: Reachability,
    detail: Option<Seq<char>>,
    speaker: Speaker,
    text: Seq<char>,
    final_: bool,
    kind: Seq<char>,
    now: u64,
)
    ensures
        m.informed(UiEventView::Connection { status, detail }, now) == (Reaction {
            next: ModelView { connection: status, ..m },
            command: None,
        }),
        m.informed(UiEventView::Reachability { state: reach, detail }, now) == (Reaction {
            next: ModelView { reachability: reach, ..m },
            command: None,
        }),
        m.informed(UiEventView::Transcript { speaker, text, final_ }, now) == (Reaction {
            next: ModelView { transcript: m.transcript.heard(speaker, text, final_), ..m },
            command: None,
        }),
        m.informed(UiEventView::Error { kind, message: text }, now) == (Reaction {
            next: ModelView {
                transcript: m.transcript.failed(kind + seq![':', ' '] + text),
                ..m
            },
            command: None,
        }),
{
    reveal_strlit(": ");
    assert(": "@ =~= seq![':', ' ']);
}

/// A session that comes to life is timed from then on, and keeps its time through every live state; what
/// a live session measures is shown, and the rest of the screen stays.
pub proof fn law_live_session_is_timed(
    m: ModelView,
    state: AppState,
    snapshot: MetricsSnapshot,
    now: u64,
)
    requires
        !(state is Stopped || state is Error),
    ensures
        m.started_at is None ==> m.informed(UiEventView::State { state }, now) == (Reaction {
            next: ModelView { state, started_at: Some(now), ..m },
            command: None,
        }),
        m.started_at is Some ==> m.informed(UiEventView::State { state }, now) == (Reaction {
            next: ModelView { state, ..m },
            command: None,
        }),
        m.state == state ==> m.informed(UiEventView::Metrics(snapshot), now) == (Reaction {
            next: ModelView { metrics: Some(snapshot), ..m },
            command: None,
        }),
{
}

/// A session that ends takes its time, its measures and its sharing with it, and nothing more.
pub proof fn law_ended_session_in_full(
    m: ModelView,
    state: AppState,
    snapshot: MetricsSnapshot,
    now: u64,
)
    requires
        state is Stopped || state is Error,
    ensures
        m.informed(UiEventView::State { state }, now).next == (ModelView {
            state,
            started_at: None,
            metrics: None,
            sharing: false,
            ..m
        }),
        m.sharing ==> m.informed(UiEventView::State { state }, now).command == Some(
            CommandView::StopScreenshare,
        ),
        !m.sharing ==> m.informed(UiEventView::State { state }, now).command is None,
        m.state == state ==> m.informed(UiEventView::Metrics(snapshot), now) == (Reaction {
            next: m,
            command: None,
        }),
{
}

/// A stored conversation is shown turn by turn: what the user and the agent said, each in a line that is
/// complete; what was told to the model beforehand is not shown.
pub proof fn law_stored_turns_are_shown(turns: Seq<TurnView>, turn: TurnView)
    requires
        replayed(turns).entries.len() < 2_000,
    ensures
        replayed(Seq::empty()).entries.len() == 0,
        turn.role is User ==> replayed(turns.push(turn)).entries == replayed(turns).entries.push(
            super::transcript::EntryView { kind: super::transcript::LineKind::User, text: turn.text },
        ),
        turn.role is Assistant ==> replayed(turns.push(turn)).entries == replayed(turns).entries.push(
            super::transcript::EntryView { kind: super::transcript::LineKind::Agent, text: turn.text },
        ),
        turn.role is System ==> replayed(turns.push(turn)) == replayed(turns),
        replayed(turns).open is None,
{
    assert(turns.push(turn).drop_last() =~= turns);
    lemma_replayed_is_closed(turns);
}

proof fn lemma_replayed_is_closed(turns: Seq<TurnView>)
    ensures
        replayed(turns).open is None,
    decreases turns.len(),
{
    if turns.len() > 0 {
        lemma_replayed_is_closed(turns.drop_last());
    }
}

} // verus!
