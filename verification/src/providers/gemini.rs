//! Gemini Live: its voices, its messages as session events, its seed and its errors.
use vstd::prelude::*;
use vstd::string::*;

use crate::connectivity::ProbeOutcome;
use crate::error::{SessionError, SessionErrorView};
use crate::history::{HistoryTurn, Role, TurnView};
use crate::session::event::{
    CloseReason, Reachability, SessionEvent, SessionEventView, Speaker, TurnEvent,
};
use crate::session::{Capabilities, SessionConfig, SessionConfigView};

verus! {

/// The voices of the older models.
pub open spec fn half_cascade_voices() -> Seq<Seq<char>> {
    seq![
        "Puck"@,
        "Charon"@,
        "Kore"@,
        "Fenrir"@,
        "Aoede"@,
        "Leda"@,
        "Orus"@,
        "Zephyr"@,
    ]
}

/// The voices of the models with native audio.
pub open spec fn native_audio_voices() -> Seq<Seq<char>> {
    seq![
        "Zephyr"@,
        "Puck"@,
        "Charon"@,
        "Kore"@,
        "Fenrir"@,
        "Leda"@,
        "Orus"@,
        "Aoede"@,
        "Callirrhoe"@,
        "Autonoe"@,
        "Enceladus"@,
        "Iapetus"@,
        "Umbriel"@,
        "Algieba"@,
        "Despina"@,
        "Erinome"@,
        "Algenib"@,
        "Rasalgethi"@,
        "Laomedeia"@,
        "Achernar"@,
        "Alnilam"@,
        "Schedar"@,
        "Gacrux"@,
        "Pulcherrima"@,
        "Achird"@,
        "Zubenelgenubi"@,
        "Vindemiatrix"@,
        "Sadachbia"@,
        "Sadaltager"@,
        "Sulafat"@,
    ]
}

/// Whether a model is one of the older ones, by its id in any case.
pub open spec fn is_half_cascade(model: Seq<char>) -> bool {
    let m = crate::text::ascii_lowered(model);
    &&& !crate::text::occurs(m, "native-audio"@)
    &&& {
        ||| crate::text::occurs(m, "2.0-flash-live"@)
        ||| crate::text::occurs(m, "2.5-flash-live"@)
        ||| crate::text::occurs(m, "live-2.5-flash"@)
    }
}

/// The voices that a model accepts.
pub open spec fn voices_of(model: Seq<char>) -> Seq<Seq<char>> {
    if is_half_cascade(model) {
        half_cascade_voices()
    } else {
        native_audio_voices()
    }
}

/// Whether a model is one of the older ones.
pub fn is_legacy_half_cascade(model: &str) -> (r: bool)
    ensures
        r == is_half_cascade(model@),
{
    let m: String = crate::text::to_ascii_lower(model);
    !crate::text::contains(m.as_str(), "native-audio") && (crate::text::contains(
        m.as_str(),
        "2.0-flash-live",
    ) || crate::text::contains(m.as_str(), "2.5-flash-live") || crate::text::contains(
        m.as_str(),
        "live-2.5-flash",
    ))
}

fn half_cascade_list() -> (r: Vec<String>)
    ensures
        crate::text::views(r@) == half_cascade_voices(),
{
    let r: Vec<String> = vec![
        "Puck".to_owned(),
        "Charon".to_owned(),
        "Kore".to_owned(),
        "Fenrir".to_owned(),
        "Aoede".to_owned(),
        "Leda".to_owned(),
        "Orus".to_owned(),
        "Zephyr".to_owned(),
    ];
    assert(crate::text::views(r@) =~= half_cascade_voices());
    r
}

fn native_audio_list() -> (r: Vec<String>)
    ensures
        crate::text::views(r@) == native_audio_voices(),
{
    let r: Vec<String> = vec![
        "Zephyr".to_owned(),
        "Puck".to_owned(),
        "Charon".to_owned(),
        "Kore".to_owned(),
        "Fenrir".to_owned(),
        "Leda".to_owned(),
        "Orus".to_owned(),
        "Aoede".to_owned(),
        "Callirrhoe".to_owned(),
        "Autonoe".to_owned(),
        "Enceladus".to_owned(),
        "Iapetus".to_owned(),
        "Umbriel".to_owned(),
        "Algieba".to_owned(),
        "Despina".to_owned(),
        "Erinome".to_owned(),
        "Algenib".to_owned(),
        "Rasalgethi".to_owned(),
        "Laomedeia".to_owned(),
        "Achernar".to_owned(),
        "Alnilam".to_owned(),
        "Schedar".to_owned(),
        "Gacrux".to_owned(),
        "Pulcherrima".to_owned(),
        "Achird".to_owned(),
        "Zubenelgenubi".to_owned(),
        "Vindemiatrix".to_owned(),
        "Sadachbia".to_owned(),
        "Sadaltager".to_owned(),
        "Sulafat".to_owned(),
    ];
    assert(crate::text::views(r@) =~= native_audio_voices());
    r
}

/// The voices that a model accepts. A model that is not known gets the full set.
#[must_use]
pub fn voices(model: &str) -> (r: Vec<String>)
    ensures
        crate::text::views(r@) == voices_of(model@),
{
    if is_legacy_half_cascade(model) {
        half_cascade_list()
    } else {
        native_audio_list()
    }
}

/// Every voice of the older models is one of the full set.
pub proof fn law_smaller_set_is_contained(i: int)
    requires
        0 <= i < half_cascade_voices().len(),
    ensures
        native_audio_voices().contains(half_cascade_voices()[i]),
{
    let full = native_audio_voices();
    assert(full[0] == "Zephyr"@ && full[1] == "Puck"@ && full[2] == "Charon"@ && full[3] == "Kore"@);
    assert(full[4] == "Fenrir"@ && full[5] == "Leda"@ && full[6] == "Orus"@ && full[7] == "Aoede"@);
}

/// A message of the Live service, as far as Joi reads it.
#[derive(Debug, PartialEq, Eq)]
pub enum ServerEvent {
    /// Audio of the model, as little-endian PCM16.
    AudioDelta {
        /// The bytes.
        delta: Vec<u8>,
    },
    /// A piece of the user's transcript.
    InputTranscriptDelta {
        /// The piece.
        delta: String,
    },
    /// A piece of the model's transcript.
    TranscriptDelta {
        /// The piece.
        delta: String,
    },
    /// A piece of the model's text.
    TextDelta {
        /// The piece.
        delta: String,
    },
    /// The model's transcript is complete.
    TranscriptDone {
        /// All of it.
        transcript: String,
    },
    /// The model's text is complete.
    TextDone {
        /// All of it.
        text: String,
    },
    /// The user began to speak.
    SpeechStarted,
    /// The model began to answer.
    ResponseCreated,
    /// The model finished its answer.
    ResponseDone,
    /// An error.
    Error {
        /// The kind of error.
        error_type: String,
        /// Its code, if it has one.
        code: Option<String>,
        /// The message.
        message: String,
    },
    /// Anything else.
    Other,
}

/// Turns messages into session events. A line stays open while its pieces stream; the next turn
/// boundary completes it with an empty last piece.
#[derive(Debug, Clone, Copy, PartialEq, Eq, Structural)]
pub struct EventMapper {
    /// Whether a line of the agent is open.
    pub agent_open: bool,
    /// Whether a line of the user is open.
    pub user_open: bool,
}

/// A piece of a line as an event.
pub open spec fn line_piece(speaker: Speaker, text: Seq<char>, final_: bool) -> SessionEventView {
    SessionEventView::Transcript { speaker, text, final_ }
}

/// The event that completes a line, where it is open.
pub open spec fn completion(speaker: Speaker, is_open: bool) -> Seq<SessionEventView> {
    if is_open {
        seq![line_piece(speaker, Seq::empty(), true)]
    } else {
        Seq::empty()
    }
}

/// A mapper after a message, and the events that the message became.
pub struct Mapped {
    /// The mapper after it.
    pub next: EventMapper,
    /// The events, in order.
    pub events: Seq<SessionEventView>,
}

impl EventMapper {
    /// A mapper with no line open.
    pub fn new() -> (r: Self)
        ensures
            r == (EventMapper { agent_open: false, user_open: false }),
    {
        EventMapper { agent_open: false, user_open: false }
    }

    /// What completes both lines, the user's first.
    pub open spec fn completions(self) -> Seq<SessionEventView> {
        completion(Speaker::User, self.user_open) + completion(Speaker::Agent, self.agent_open)
    }

    /// What a message becomes.
    pub open spec fn mapped(self, event: ServerEvent) -> Mapped {
        let idle = EventMapper { agent_open: false, user_open: false };
        match event {
            ServerEvent::AudioDelta { delta } => Mapped {
                next: EventMapper { user_open: false, ..self },
                events: completion(Speaker::User, self.user_open).push(
                    SessionEventView::AudioOutput { pcm: crate::media::le_samples(delta@) },
                ),
            },
            ServerEvent::InputTranscriptDelta { delta } => Mapped {
                next: EventMapper { user_open: true, ..self },
                events: seq![line_piece(Speaker::User, delta@, false)],
            },
            ServerEvent::TranscriptDelta { delta } => self.agent_piece(delta@),
            ServerEvent::TextDelta { delta } => self.agent_piece(delta@),
            ServerEvent::TranscriptDone { transcript } => self.agent_done(transcript@),
            ServerEvent::TextDone { text } => self.agent_done(text@),
            ServerEvent::SpeechStarted => Mapped {
                next: idle,
                events: self.completions().push(
                    SessionEventView::TurnEvent(TurnEvent::Interrupted),
                ),
            },
            ServerEvent::ResponseCreated => Mapped {
                next: idle,
                events: self.completions().push(
                    SessionEventView::TurnEvent(TurnEvent::TurnStarted),
                ),
            },
            ServerEvent::ResponseDone => Mapped {
                next: idle,
                events: self.completions().push(
                    SessionEventView::TurnEvent(TurnEvent::TurnComplete),
                ),
            },
            ServerEvent::Error { error_type, code, message } => {
                let shown = match code {
                    Some(c) => c@,
                    None => error_type@,
                };
                Mapped {
                    next: self,
                    events: seq![
                        SessionEventView::Error(
                            SessionErrorView::Provider(shown + ": "@ + message@),
                        ),
                    ],
                }
            },
            ServerEvent::Other => Mapped { next: self, events: Seq::empty() },
        }
    }

    /// What a piece of the agent's line becomes: the user's line is complete before it.
    pub open spec fn agent_piece(self, delta: Seq<char>) -> Mapped {
        Mapped {
            next: EventMapper { agent_open: true, user_open: false },
            events: completion(Speaker::User, self.user_open).push(
                line_piece(Speaker::Agent, delta, false),
            ),
        }
    }

    /// What the end of the agent's line becomes: pieces that have come already are not repeated.
    pub open spec fn agent_done(self, text: Seq<char>) -> Mapped {
        let rest = if self.agent_open {
            Seq::empty()
        } else {
            text
        };
        Mapped {
            next: EventMapper { agent_open: false, ..self },
            events: seq![line_piece(Speaker::Agent, rest, true)],
        }
    }

    fn close_user_line(&mut self) -> (r: Vec<SessionEvent>)
        ensures
            *final(self) == (EventMapper { user_open: false, ..*old(self) }),
            crate::text::views(r@) == completion(Speaker::User, old(self).user_open),
    {
        let mut out: Vec<SessionEvent> = Vec::new();
        if self.user_open {
            self.user_open = false;
            out.push(user_delta(String::new(), true));
        }
        assert(crate::text::views(out@) =~= completion(Speaker::User, old(self).user_open));
        out
    }

    fn close_line(&mut self) -> (r: Vec<SessionEvent>)
        ensures
            *final(self) == (EventMapper { agent_open: false, ..*old(self) }),
            crate::text::views(r@) == completion(Speaker::Agent, old(self).agent_open),
    {
        let mut out: Vec<SessionEvent> = Vec::new();
        if self.agent_open {
            self.agent_open = false;
            out.push(agent_delta(String::new(), true));
        }
        assert(crate::text::views(out@) =~= completion(Speaker::Agent, old(self).agent_open));
        out
    }

    fn close_lines(&mut self) -> (r: Vec<SessionEvent>)
        ensures
            *final(self) == (EventMapper { agent_open: false, user_open: false }),
            crate::text::views(r@) == old(self).completions(),
    {
        let mut out: Vec<SessionEvent> = self.close_user_line();
        let ghost first = crate::text::views(out@);
        let mut more: Vec<SessionEvent> = self.close_line();
        let ghost second = crate::text::views(more@);
        out.append(&mut more);
        assert(crate::text::views(out@) =~= first + second);
        out
    }

    fn agent_piece_events(&mut self, delta: String) -> (r: Vec<SessionEvent>)
        ensures
            *final(self) == old(self).agent_piece(delta@).next,
            crate::text::views(r@) == old(self).agent_piece(delta@).events,
    {
        let mut out: Vec<SessionEvent> = self.close_user_line();
        let ghost before = crate::text::views(out@);
        self.agent_open = true;
        out.push(agent_delta(delta, false));
        assert(crate::text::views(out@) =~= before.push(
            line_piece(Speaker::Agent, delta@, false),
        ));
        out
    }

    fn agent_done_events(&mut self, text: String) -> (r: Vec<SessionEvent>)
        ensures
            *final(self) == old(self).agent_done(text@).next,
            crate::text::views(r@) == old(self).agent_done(text@).events,
    {
        let rest: String = if self.agent_open {
            String::new()
        } else {
            text
        };
        self.agent_open = false;
        let mut out: Vec<SessionEvent> = Vec::new();
        out.push(agent_delta(rest, true));
        assert(crate::text::views(out@) =~= seq![line_piece(Speaker::Agent, rest@, true)]);
        out
    }

    /// Turn a message into session events.
    pub fn map(&mut self, event: ServerEvent) -> (r: Vec<SessionEvent>)
        ensures
            *final(self) == old(self).mapped(event).next,
            crate::text::views(r@) == old(self).mapped(event).events,
    {
        let ghost expected = self.mapped(event).events;
        let out: Vec<SessionEvent> = match event {
            ServerEvent::AudioDelta { delta } => {
                let mut out: Vec<SessionEvent> = self.close_user_line();
                out.push(
                    SessionEvent::AudioOutput {
                        pcm: crate::media::le_bytes_to_pcm16(delta.as_slice()),
                    },
                );
                out
            },
            ServerEvent::InputTranscriptDelta { delta } => {
                self.user_open = true;
                let mut out: Vec<SessionEvent> = Vec::new();
                out.push(user_delta(delta, false));
                out
            },
            ServerEvent::TranscriptDelta { delta } => self.agent_piece_events(delta),
            ServerEvent::TextDelta { delta } => self.agent_piece_events(delta),
            ServerEvent::TranscriptDone { transcript } => self.agent_done_events(transcript),
            ServerEvent::TextDone { text } => self.agent_done_events(text),
            ServerEvent::SpeechStarted => {
                let mut out: Vec<SessionEvent> = self.close_lines();
                out.push(SessionEvent::TurnEvent(TurnEvent::Interrupted));
                out
            },
            ServerEvent::ResponseCreated => {
                let mut out: Vec<SessionEvent> = self.close_lines();
                out.push(SessionEvent::TurnEvent(TurnEvent::TurnStarted));
                out
            },
            ServerEvent::ResponseDone => {
                let mut out: Vec<SessionEvent> = self.close_lines();
                out.push(SessionEvent::TurnEvent(TurnEvent::TurnComplete));
                out
            },
            ServerEvent::Error { error_type, code, message } => {
                let shown: String = match code {
                    Some(c) => c,
                    None => error_type,
                };
                let text: String = crate::text::join3(shown.as_str(), ": ", message.as_str());
                let mut out: Vec<SessionEvent> = Vec::new();
                out.push(SessionEvent::Error(SessionError::Provider(text)));
                out
            },
            ServerEvent::Other => Vec::new(),
        };
        assert(crate::text::views(out@) =~= expected);
        out
    }

    /// What reading the next message gives: its events, or the error that reading met.
    pub fn pump(&mut self, read: Result<ServerEvent, String>) -> (r: Vec<SessionEvent>)
        ensures
            match read {
                Ok(event) => *final(self) == old(self).mapped(event).next && crate::text::views(r@)
                    == old(self).mapped(event).events,
                Err(why) => *final(self) == *old(self) && crate::text::views(r@) == seq![
                    SessionEventView::Error(SessionErrorView::Provider(why@)),
                ],
            },
    {
        match read {
            Ok(event) => self.map(event),
            Err(why) => {
                let mut out: Vec<SessionEvent> = Vec::new();
                out.push(SessionEvent::Error(SessionError::Provider(why)));
                assert(crate::text::views(out@) =~= seq![
                    SessionEventView::Error(SessionErrorView::Provider(why@)),
                ]);
                out
            },
        }
    }

    /// What the end of the stream becomes.
    pub fn stream_end() -> (r: SessionEvent)
        ensures
            r@ == (SessionEventView::Closed { reason: CloseReason::Server }),
    {
        SessionEvent::Closed { reason: CloseReason::Server }
    }
}

fn agent_delta(text: String, final_: bool) -> (r: SessionEvent)
    ensures
        r@ == line_piece(Speaker::Agent, text@, final_),
{
    SessionEvent::Transcript { speaker: Speaker::Agent, text, final_ }
}

fn user_delta(text: String, final_: bool) -> (r: SessionEvent)
    ensures
        r@ == line_piece(Speaker::User, text@, final_),
{
    SessionEvent::Transcript { speaker: Speaker::User, text, final_ }
}

/// An event that ends a line of a speaker.
pub open spec fn ends_line(e: SessionEventView, speaker: Speaker) -> bool {
    e matches SessionEventView::Transcript { speaker: s, text: _, final_: f } && s == speaker && f
}

/// Whatever the model says or plays, the user's open line is complete before it: it is the first
/// thing that the message becomes.
pub proof fn law_user_line_is_completed_first(m: EventMapper, event: ServerEvent)
    requires
        m.user_open,
        event is AudioDelta || event is TranscriptDelta || event is TextDelta
            || event is SpeechStarted || event is ResponseCreated || event is ResponseDone,
    ensures
        ends_line(m.mapped(event).events[0], Speaker::User),
        !m.mapped(event).next.user_open,
{
}

/// A turn ends with both lines complete: what completes them comes before the end, which is the last
/// event, and no line stays open.
pub proof fn law_transcript_before_turn_end(m: EventMapper)
    ensures
        ({
            let d = m.mapped(ServerEvent::ResponseDone);
            &&& d.events.last() == SessionEventView::TurnEvent(TurnEvent::TurnComplete)
            &&& d.next == (EventMapper { agent_open: false, user_open: false })
            &&& m.agent_open ==> exists|i: int|
                0 <= i < d.events.len() - 1 && ends_line(#[trigger] d.events[i], Speaker::Agent)
            &&& m.user_open ==> exists|i: int|
                0 <= i < d.events.len() - 1 && ends_line(#[trigger] d.events[i], Speaker::User)
        }),
{
    let d = m.mapped(ServerEvent::ResponseDone);
    if m.user_open {
        assert(ends_line(d.events[0], Speaker::User));
        if m.agent_open {
            assert(ends_line(d.events[1], Speaker::Agent));
        }
    } else if m.agent_open {
        assert(ends_line(d.events[0], Speaker::Agent));
    }
}

/// A second end of a turn completes nothing more.
pub proof fn law_lines_complete_once(m: EventMapper)
    ensures
        m.mapped(ServerEvent::ResponseDone).next.mapped(ServerEvent::ResponseDone).events == seq![
            SessionEventView::TurnEvent(TurnEvent::TurnComplete),
        ],
{
    let e = m.mapped(ServerEvent::ResponseDone).next.mapped(ServerEvent::ResponseDone).events;
    assert(e =~= seq![SessionEventView::TurnEvent(TurnEvent::TurnComplete)]);
}

/// A turn as one line of the seed: who said it, and what. Turns of the system and blank ones have no
/// line.
pub open spec fn seed_line(turn: TurnView) -> Option<Seq<char>> {
    let text = crate::text::trimmed(turn.text);
    if text.len() == 0 {
        None
    } else {
        match turn.role {
            Role::User => Some("Me"@ + ": "@ + text),
            Role::Assistant => Some("You"@ + ": "@ + text),
            Role::System => None,
        }
    }
}

/// The lines of a seed, in order.
pub open spec fn seed_lines(turns: Seq<TurnView>) -> Seq<Seq<char>>
    decreases turns.len(),
{
    if turns.len() == 0 {
        Seq::empty()
    } else {
        match seed_line(turns.last()) {
            Some(line) => seed_lines(turns.drop_last()).push(line),
            None => seed_lines(turns.drop_last()),
        }
    }
}

/// Lines with a line feed between them.
pub open spec fn joined_lines(lines: Seq<Seq<char>>) -> Seq<char>
    decreases lines.len(),
{
    if lines.len() == 0 {
        Seq::empty()
    } else if lines.len() == 1 {
        lines[0]
    } else {
        joined_lines(lines.drop_last()) + seq!['\n'] + lines.last()
    }
}

/// The note that stands before the lines of a seed.
pub const SEED_NOTE: &'static str =
    "[Context: a transcript of our earlier conversation so you can continue it. Don't reply to this note \u{2014} just use it as memory.]\n\n";

/// The seed of a conversation: one turn of the user that holds all of it as a transcript, or nothing
/// where there is nothing to tell.
pub open spec fn seed_of(turns: Seq<TurnView>) -> Seq<(Seq<char>, Seq<char>)> {
    let lines = seed_lines(turns);
    if lines.len() == 0 {
        Seq::empty()
    } else {
        seq![("user"@, SEED_NOTE@ + joined_lines(lines))]
    }
}

fn join_lines(lines: &[String]) -> (r: String)
    ensures
        r@ == joined_lines(crate::text::views(lines@)),
{
    let ghost all = crate::text::views(lines@);
    let mut out: String = String::new();
    let mut i: usize = 0;
    while i < lines.len()
        invariant
            i <= lines.len(),
            all == crate::text::views(lines@),
            out@ == joined_lines(all.take(i as int)),
        decreases lines.len() - i,
    {
        let ghost before = out@;
        if i > 0 {
            out.push('\n');
        }
        out.append(lines[i].as_str());
        proof {
            let next = all.take(i + 1);
            assert(next.drop_last() =~= all.take(i as int));
            assert(next.last() == lines@[i as int]@);
            if i == 0 {
                assert(out@ =~= next[0]);
            } else {
                assert(before.push('\n') =~= before + seq!['\n']);
            }
        }
        i = i + 1;
    }
    assert(all.take(i as int) =~= all);
    out
}

/// The views of a seed's turns.
pub open spec fn seed_views(turns: Seq<(String, String)>) -> Seq<(Seq<char>, Seq<char>)> {
    turns.map_values(|t: (String, String)| (t.0@, t.1@))
}

/// The seed of a conversation, as pairs of role and text.
pub fn history_to_seed_turns(turns: &[HistoryTurn]) -> (r: Vec<(String, String)>)
    ensures
        seed_views(r@) == seed_of(crate::text::views(turns@)),
{
    let ghost all = crate::text::views(turns@);
    let mut lines: Vec<String> = Vec::new();
    let mut i: usize = 0;
    assert(crate::text::views(lines@) =~= seed_lines(all.take(0)));
    while i < turns.len()
        invariant
            i <= turns.len(),
            all == crate::text::views(turns@),
            crate::text::views(lines@) == seed_lines(all.take(i as int)),
        decreases turns.len() - i,
    {
        let ghost before = crate::text::views(lines@);
        proof {
            let next = all.take(i + 1);
            assert(next.drop_last() =~= all.take(i as int));
            assert(next.last() == turns@[i as int]@);
        }
        let text: String = crate::text::trim(turns[i].text.as_str());
        if !text.as_str().is_empty() {
            match turns[i].role {
                Role::User => {
                    lines.push(crate::text::join3("Me", ": ", text.as_str()));
                    assert(crate::text::views(lines@) =~= before.push(
                        "Me"@ + ": "@ + text@,
                    ));
                },
                Role::Assistant => {
                    lines.push(crate::text::join3("You", ": ", text.as_str()));
                    assert(crate::text::views(lines@) =~= before.push(
                        "You"@ + ": "@ + text@,
                    ));
                },
                Role::System => {},
            }
        }
        i = i + 1;
    }
    assert(all.take(i as int) =~= all);
    let mut out: Vec<(String, String)> = Vec::new();
    if lines.len() > 0 {
        let body: String = join_lines(lines.as_slice());
        out.push(("user".to_owned(), crate::text::join2(SEED_NOTE, body.as_str())));
    }
    assert(seed_views(out@) =~= seed_of(all));
    out
}

/// A history without anything said by the user or the agent seeds nothing.
pub proof fn law_nothing_said_seeds_nothing(turns: Seq<TurnView>)
    requires
        forall|i: int|
            0 <= i < turns.len() ==> (#[trigger] turns[i]).role == Role::System
                || crate::text::trimmed(turns[i].text).len() == 0,
    ensures
        seed_of(turns).len() == 0,
{
    lemma_no_lines(turns);
}

proof fn lemma_no_lines(turns: Seq<TurnView>)
    requires
        forall|i: int|
            0 <= i < turns.len() ==> (#[trigger] turns[i]).role == Role::System
                || crate::text::trimmed(turns[i].text).len() == 0,
    ensures
        seed_lines(turns).len() == 0,
    decreases turns.len(),
{
    if turns.len() > 0 {
        let front = turns.drop_last();
        assert forall|i: int| 0 <= i < front.len() implies (#[trigger] front[i]).role
            == Role::System || crate::text::trimmed(front[i].text).len() == 0 by {
            assert(front[i] == turns[i]);
        }
        lemma_no_lines(front);
        let last = turns[turns.len() - 1];
        assert(last.role == Role::System || crate::text::trimmed(last.text).len() == 0);
    }
}

/// A model's name on the wire.
pub open spec fn resource_name(model: Seq<char>) -> Seq<char> {
    crate::config::MODEL_PREFIX@ + crate::text::trimmed(model)
}

/// A model's name on the wire.
pub fn model_resource_name(model: &str) -> (r: String)
    ensures
        r@ == resource_name(model@),
{
    let name: String = crate::text::trim(model);
    crate::text::join2(crate::config::MODEL_PREFIX, name.as_str())
}

/// What the words of an error, in lower case, say of it: that the key or the permission was the
/// trouble.
pub open spec fn is_about_access(low: Seq<char>) -> bool {
    ||| crate::text::occurs(low, "unauthor"@)
    ||| crate::text::occurs(low, "api key"@)
    ||| crate::text::occurs(low, "permission"@)
    ||| crate::text::occurs(low, "401"@)
    ||| crate::text::occurs(low, "403"@)
    ||| crate::text::occurs(low, "invalid_argument key"@)
}

/// The session error for an error with these words, where `low` is the same in lower case.
pub fn connect_error_for(msg: String, low: &str) -> (r: SessionError)
    ensures
        r@ == (if is_about_access(low@) {
            SessionErrorView::Auth(msg@)
        } else {
            SessionErrorView::Connect(msg@)
        }),
{
    if crate::text::contains(low, "unauthor") || crate::text::contains(low, "api key")
        || crate::text::contains(low, "permission") || crate::text::contains(low, "401")
        || crate::text::contains(low, "403") || crate::text::contains(low, "invalid_argument key") {
        SessionError::Auth(msg)
    } else {
        SessionError::Connect(msg)
    }
}

/// The session error for an error that connecting met: a refused key is told from a network that is
/// down.
pub fn map_connect_err(msg: String) -> (r: SessionError)
    ensures
        r@ == (if is_about_access(crate::text::lowercase_of(msg@)) {
            SessionErrorView::Auth(msg@)
        } else {
            SessionErrorView::Connect(msg@)
        }),
{
    let low: String = crate::text::lowercase(msg.as_str());
    connect_error_for(msg, low.as_str())
}

/// What a connection is opened with.
#[derive(Debug)]
pub struct ConnectPlan {
    /// The model's name on the wire.
    pub model: String,
    /// The persona.
    pub instruction: String,
    /// The voice, if one is asked for.
    pub voice: Option<String>,
    /// Whether the user's audio is transcribed.
    pub input_transcription: bool,
    /// Whether the agent's audio is transcribed.
    pub output_transcription: bool,
    /// The seed, sent once the service has acknowledged the setup.
    pub seed: Vec<(String, String)>,
}

/// The Gemini Live adapter's decisions.
#[derive(Debug, Clone, Copy, PartialEq, Eq, Structural)]
pub struct GeminiAdapter {
    connected: bool,
}

impl GeminiAdapter {
    /// Whether there is a connection.
    pub closed spec fn is_connected(&self) -> bool {
        self.connected
    }

    /// An adapter without a connection.
    #[must_use]
    pub fn new() -> (r: Self)
        ensures
            !r.is_connected(),
    {
        GeminiAdapter { connected: false }
    }

    /// What to open a connection with.
    pub fn plan(cfg: &SessionConfig) -> (r: ConnectPlan)
        ensures
            r.model@ == resource_name(cfg@.model),
            r.instruction@ == cfg@.system_instruction,
            crate::history::session::opt_text(r.voice) == cfg@.voice,
            r.input_transcription == cfg@.enable_input_transcription,
            r.output_transcription == cfg@.enable_output_transcription,
            seed_views(r.seed@) == seed_of(cfg@.initial_context),
    {
        let voice: Option<String> = match &cfg.voice {
            Some(v) => Some(v.clone()),
            None => None,
        };
        ConnectPlan {
            model: model_resource_name(cfg.model.as_str()),
            instruction: cfg.system_instruction.clone(),
            voice,
            input_transcription: cfg.enable_input_transcription,
            output_transcription: cfg.enable_output_transcription,
            seed: history_to_seed_turns(cfg.initial_context.as_slice()),
        }
    }

    /// Note the outcome of connecting.
    pub fn connected(&mut self, result: Result<(), String>) -> (r: Result<(), SessionError>)
        ensures
            match result {
                Ok(()) => r is Ok && final(self).is_connected(),
                Err(msg) => *final(self) == *old(self) && (r matches Err(e) && e@ == (
                if is_about_access(crate::text::lowercase_of(msg@)) {
                    SessionErrorView::Auth(msg@)
                } else {
                    SessionErrorView::Connect(msg@)
                })),
            },
    {
        match result {
            Ok(()) => {
                self.connected = true;
                Ok(())
            },
            Err(msg) => Err(map_connect_err(msg)),
        }
    }

    /// Whether something can be sent.
    pub fn ready(&self) -> (r: Result<(), SessionError>)
        ensures
            self.is_connected() ==> r is Ok,
            !self.is_connected() ==> (r matches Err(e) && e@ == SessionErrorView::NotConnected),
    {
        if self.connected {
            Ok(())
        } else {
            Err(SessionError::NotConnected)
        }
    }

    /// Note that the connection was closed.
    pub fn close(&mut self)
        ensures
            !final(self).is_connected(),
    {
        self.connected = false;
    }

    /// What the provider can do.
    pub fn capabilities(&self) -> (r: Capabilities)
        ensures
            r == (Capabilities {
                session_resumption: false,
                native_screen_input: false,
                async_tool_calls: false,
            }),
    {
        Capabilities {
            session_resumption: false,
            native_screen_input: false,
            async_tool_calls: false,
        }
    }
}

/// What was read from the wire while the provider sets a session up.
#[derive(Debug, Clone, Copy, PartialEq, Eq, Structural)]
pub enum SetupRead {
    /// The session is there.
    Created,
    /// Another event, or a failure to read one.
    Another,
    /// Nothing comes any more.
    Ended,
}

/// Whether to stop waiting for the provider to set a session up.
pub fn setup_over(read: SetupRead) -> (r: bool)
    ensures
        r == (read == SetupRead::Created || read == SetupRead::Ended),
{
    match read {
        SetupRead::Created => true,
        SetupRead::Another => false,
        SetupRead::Ended => true,
    }
}

/// What asking for the list of models gave.
#[derive(Debug, PartialEq, Eq)]
pub enum ProbeReply {
    /// An HTTP status, and how it reads.
    Status {
        /// The code.
        code: u16,
        /// Code and reason, such as `401 Unauthorized`.
        text: String,
    },
    /// No answer in time.
    Timeout,
    /// No connection.
    NoConnection,
    /// Any other failure.
    Failed,
}

/// The address that a probe asks: the list of models, which costs no tokens.
pub const PROBE_URL: &'static str = "https://generativelanguage.googleapis.com/v1beta/models";

/// What a probe found.
pub open spec fn probe_state(reply: ProbeReply) -> Reachability {
    match reply {
        ProbeReply::Status { code, text } => if 200 <= code <= 299 {
            Reachability::Online
        } else if code == 401 || code == 403 {
            Reachability::Unauthorized
        } else {
            Reachability::Offline
        },
        _ => Reachability::Offline,
    }
}

/// The detail of what a probe found. It never holds the address, which holds the key.
pub open spec fn probe_detail(reply: ProbeReply) -> Option<Seq<char>> {
    match reply {
        ProbeReply::Status { code, text } => if 200 <= code <= 299 {
            None
        } else {
            Some("HTTP "@ + text@)
        },
        ProbeReply::Timeout => Some("timeout"@),
        ProbeReply::NoConnection => Some("connection failed"@),
        ProbeReply::Failed => Some("request error"@),
    }
}

/// What a probe found: reachable, reachable with a refused key, or not reachable.
pub fn probe_outcome(reply: &ProbeReply) -> (r: ProbeOutcome)
    ensures
        r.state == probe_state(*reply),
        crate::history::session::opt_text(r.detail) == probe_detail(*reply),
{
    match reply {
        ProbeReply::Status { code, text } => {
            if 200 <= *code && *code <= 299 {
                return ProbeOutcome::new(Reachability::Online);
            }
            let detail: String = crate::text::join2("HTTP ", text.as_str());
            if *code == 401 || *code == 403 {
                ProbeOutcome::with_detail(Reachability::Unauthorized, detail.as_str())
            } else {
                ProbeOutcome::with_detail(Reachability::Offline, detail.as_str())
            }
        },
        ProbeReply::Timeout => ProbeOutcome::with_detail(Reachability::Offline, "timeout"),
        ProbeReply::NoConnection => ProbeOutcome::with_detail(
            Reachability::Offline,
            "connection failed",
        ),
        ProbeReply::Failed => ProbeOutcome::with_detail(Reachability::Offline, "request error"),
    }
}

/// Whether a speaker's line is open after events, where it was or was not before them: a piece opens
/// it, and a last piece closes it.
pub open spec fn open_after(before: bool, events: Seq<SessionEventView>, speaker: Speaker) -> bool
    decreases events.len(),
{
    if events.len() == 0 {
        before
    } else {
        match events.last() {
            SessionEventView::Transcript { speaker: s, text: _, final_ } => if s == speaker {
                !final_
            } else {
                open_after(before, events.drop_last(), speaker)
            },
            _ => open_after(before, events.drop_last(), speaker),
        }
    }
}

proof fn lemma_open_after_joined(
    before: bool,
    a: Seq<SessionEventView>,
    b: Seq<SessionEventView>,
    speaker: Speaker,
)
    ensures
        open_after(before, a + b, speaker) == open_after(
            open_after(before, a, speaker),
            b,
            speaker,
        ),
    decreases b.len(),
{
    if b.len() == 0 {
        assert(a + b =~= a);
    } else {
        assert((a + b).drop_last() =~= a + b.drop_last());
        lemma_open_after_joined(before, a, b.drop_last(), speaker);
    }
}

/// A line is open for the mapper exactly where the events say so: one that a piece opened stays open
/// until an event that ends it is given, and no event ends a line silently.
pub proof fn law_open_line_is_what_the_events_say(m: EventMapper, event: ServerEvent)
    ensures
        m.mapped(event).next.agent_open == open_after(
            m.agent_open,
            m.mapped(event).events,
            Speaker::Agent,
        ),
        m.mapped(event).next.user_open == open_after(
            m.user_open,
            m.mapped(event).events,
            Speaker::User,
        ),
{
    let events = m.mapped(event).events;
    reveal_with_fuel(open_after, 4);
    assert(events.len() <= 3);
    if events.len() > 0 {
        let a = events.drop_last();
        if a.len() > 0 {
            let b = a.drop_last();
            assert(a.last() == events[events.len() - 2]);
            if b.len() > 0 {
                assert(b.last() == events[events.len() - 3]);
                assert(b.drop_last() =~= Seq::empty());
            }
        }
    }
}

proof fn lemma_open_until_ended(events: Seq<SessionEventView>, speaker: Speaker)
    requires
        forall|i: int| 0 <= i < events.len() ==> !ends_line(#[trigger] events[i], speaker),
    ensures
        open_after(true, events, speaker),
    decreases events.len(),
{
    if events.len() > 0 {
        let front = events.drop_last();
        assert forall|i: int| 0 <= i < front.len() implies !ends_line(#[trigger] front[i], speaker) by {
            assert(front[i] == events[i]);
        }
        lemma_open_until_ended(front, speaker);
        assert(!ends_line(events[events.len() - 1], speaker));
    }
}

/// An open line stays open through every message whose events do not end it.
pub proof fn law_open_line_stays_open(m: EventMapper, event: ServerEvent)
    ensures
        m.agent_open && (forall|i: int|
            0 <= i < m.mapped(event).events.len() ==> !ends_line(
                #[trigger] m.mapped(event).events[i],
                Speaker::Agent,
            )) ==> m.mapped(event).next.agent_open,
        m.user_open && (forall|i: int|
            0 <= i < m.mapped(event).events.len() ==> !ends_line(
                #[trigger] m.mapped(event).events[i],
                Speaker::User,
            )) ==> m.mapped(event).next.user_open,
{
    let events = m.mapped(event).events;
    law_open_line_is_what_the_events_say(m, event);
    if m.agent_open && (forall|i: int|
        0 <= i < events.len() ==> !ends_line(#[trigger] events[i], Speaker::Agent)) {
        lemma_open_until_ended(events, Speaker::Agent);
    }
    if m.user_open && (forall|i: int|
        0 <= i < events.len() ==> !ends_line(#[trigger] events[i], Speaker::User)) {
        lemma_open_until_ended(events, Speaker::User);
    }
}

/// The mapper after messages.
pub open spec fn mapper_after(m: EventMapper, messages: Seq<ServerEvent>) -> EventMapper
    decreases messages.len(),
{
    if messages.len() == 0 {
        m
    } else {
        mapper_after(m, messages.drop_last()).mapped(messages.last()).next
    }
}

/// All the events that messages became.
pub open spec fn events_of(m: EventMapper, messages: Seq<ServerEvent>) -> Seq<SessionEventView>
    decreases messages.len(),
{
    if messages.len() == 0 {
        Seq::empty()
    } else {
        events_of(m, messages.drop_last()) + mapper_after(m, messages.drop_last()).mapped(
            messages.last(),
        ).events
    }
}

/// Over a whole run of messages from the start, a line is open exactly where its speaker's last piece
/// was not the end of it. After a turn ended, or another began, or the user broke in, none is: every
/// piece that was given was followed by an end of its line.
pub proof fn law_run_leaves_no_line_behind(messages: Seq<ServerEvent>)
    ensures
        ({
            let start = EventMapper { agent_open: false, user_open: false };
            let m = mapper_after(start, messages);
            let events = events_of(start, messages);
            &&& m.agent_open == open_after(false, events, Speaker::Agent)
            &&& m.user_open == open_after(false, events, Speaker::User)
            &&& messages.len() > 0 && (messages.last() is ResponseDone || messages.last()
                is ResponseCreated || messages.last() is SpeechStarted) ==> !open_after(
                false,
                events,
                Speaker::Agent,
            ) && !open_after(false, events, Speaker::User)
        }),
    decreases messages.len(),
{
    let start = EventMapper { agent_open: false, user_open: false };
    if messages.len() > 0 {
        let front = messages.drop_last();
        law_run_leaves_no_line_behind(front);
        let m = mapper_after(start, front);
        law_open_line_is_what_the_events_say(m, messages.last());
        lemma_open_after_joined(
            false,
            events_of(start, front),
            m.mapped(messages.last()).events,
            Speaker::Agent,
        );
        lemma_open_after_joined(
            false,
            events_of(start, front),
            m.mapped(messages.last()).events,
            Speaker::User,
        );
    }
}

/// The end of the user's line, where it is open.
pub open spec fn user_end(m: EventMapper) -> Seq<SessionEventView> {
    if m.user_open {
        seq![
            SessionEventView::Transcript {
                speaker: Speaker::User,
                text: Seq::empty(),
                final_: true,
            },
        ]
    } else {
        Seq::empty()
    }
}

/// The end of the agent's line, where it is open.
pub open spec fn agent_end(m: EventMapper) -> Seq<SessionEventView> {
    if m.agent_open {
        seq![
            SessionEventView::Transcript {
                speaker: Speaker::Agent,
                text: Seq::empty(),
                final_: true,
            },
        ]
    } else {
        Seq::empty()
    }
}

/// What the model says is passed on as it came: audio as its samples, two bytes each, pieces of text or
/// transcript as open pieces of the agent's line, all of them behind the end of the user's line. The
/// whole of a text is passed on only where no piece of it came before.
pub proof fn law_model_is_passed_on(
    m: EventMapper,
    audio: Vec<u8>,
    piece: String,
    whole: String,
)
    ensures
        ({
            let played = m.mapped(ServerEvent::AudioDelta { delta: audio }).events;
            let said = SessionEventView::Transcript {
                speaker: Speaker::Agent,
                text: piece@,
                final_: false,
            };
            let done = SessionEventView::Transcript {
                speaker: Speaker::Agent,
                text: if m.agent_open {
                    Seq::empty()
                } else {
                    whole@
                },
                final_: true,
            };
            &&& played.drop_last() == user_end(m)
            &&& played.last() is AudioOutput
            &&& played.last()->pcm.len() == audio@.len() as int / 2
            &&& forall|i: int|
                0 <= i < played.last()->pcm.len() ==> (#[trigger] played.last()->pcm[i]) as int == {
                    let n = audio@[2 * i] + 256 * audio@[2 * i + 1];
                    if n < 32768 {
                        n
                    } else {
                        n - 65536
                    }
                }
            &&& m.mapped(ServerEvent::TextDelta { delta: piece }).events == user_end(m).push(said)
            &&& m.mapped(ServerEvent::TranscriptDelta { delta: piece }).events == user_end(m).push(
                said,
            )
            &&& m.mapped(ServerEvent::TextDone { text: whole }).events == seq![done]
            &&& m.mapped(ServerEvent::TranscriptDone { transcript: whole }).events == seq![done]
        }),
{
    let played = m.mapped(ServerEvent::AudioDelta { delta: audio }).events;
    assert(played.drop_last() =~= user_end(m));
    assert forall|i: int| 0 <= i < played.last()->pcm.len() implies (
    #[trigger] played.last()->pcm[i]) as int == ({
        let n = audio@[2 * i] + 256 * audio@[2 * i + 1];
        if n < 32768 {
            n
        } else {
            n - 65536
        }
    }) by {
        crate::media::law_samples_are_low_byte_first(audio@, i);
    }
    let said = SessionEventView::Transcript { speaker: Speaker::Agent, text: piece@, final_: false };
    assert(m.mapped(ServerEvent::TextDelta { delta: piece }).events =~= user_end(m).push(said));
    assert(m.mapped(ServerEvent::TranscriptDelta { delta: piece }).events =~= user_end(m).push(
        said,
    ));
}

/// What the user says is passed on as an open piece of their line; the boundaries of turns end the
/// user's line, then the agent's, and are then told; errors are told with their code, or else their
/// kind, and their message; anything else is passed over.
pub proof fn law_rest_is_passed_on(
    m: EventMapper,
    piece: String,
    error_type: String,
    code: Option<String>,
    message: String,
)
    ensures
        m.mapped(ServerEvent::InputTranscriptDelta { delta: piece }).events == seq![
            SessionEventView::Transcript { speaker: Speaker::User, text: piece@, final_: false },
        ],
        m.mapped(ServerEvent::SpeechStarted).events == user_end(m) + agent_end(m) + seq![
            SessionEventView::TurnEvent(TurnEvent::Interrupted),
        ],
        m.mapped(ServerEvent::ResponseCreated).events == user_end(m) + agent_end(m) + seq![
            SessionEventView::TurnEvent(TurnEvent::TurnStarted),
        ],
        m.mapped(ServerEvent::ResponseDone).events == user_end(m) + agent_end(m) + seq![
            SessionEventView::TurnEvent(TurnEvent::TurnComplete),
        ],
        m.mapped(ServerEvent::Error { error_type, code, message }).events == seq![
            SessionEventView::Error(
                SessionErrorView::Provider(
                    (if code is Some {
                        code->0@
                    } else {
                        error_type@
                    }) + ": "@ + message@,
                ),
            ),
        ],
        m.mapped(ServerEvent::Other).events.len() == 0,
{
    assert(m.mapped(ServerEvent::SpeechStarted).events =~= user_end(m) + agent_end(m) + seq![
        SessionEventView::TurnEvent(TurnEvent::Interrupted),
    ]);
    assert(m.mapped(ServerEvent::ResponseCreated).events =~= user_end(m) + agent_end(m) + seq![
        SessionEventView::TurnEvent(TurnEvent::TurnStarted),
    ]);
    assert(m.mapped(ServerEvent::ResponseDone).events =~= user_end(m) + agent_end(m) + seq![
        SessionEventView::TurnEvent(TurnEvent::TurnComplete),
    ]);
}

/// One more turn adds one line to a seed: `Me` or `You`, a colon and what was said without the white
/// space around it, on a line of its own behind the others; a turn of the system or without words adds
/// nothing. The first line stands behind the note, in one turn of the user.
pub proof fn law_seed_grows_by_a_line(turns: Seq<TurnView>, turn: TurnView)
    ensures
        seed_of(Seq::<TurnView>::empty()).len() == 0,
        ({
            let said = crate::text::trimmed(turn.text);
            let before = seed_of(turns);
            let after = seed_of(turns.push(turn));
            let line = (if turn.role == Role::User {
                "Me"@
            } else {
                "You"@
            }) + ": "@ + said;
            if turn.role == Role::System || said.len() == 0 {
                after == before
            } else {
                &&& after.len() == 1
                &&& after[0].0 == "user"@
                &&& before.len() == 0 ==> after[0].1 == SEED_NOTE@ + line
                &&& before.len() > 0 ==> after[0].1 == before[0].1 + seq!['\n'] + line
            }
        }),
{
    assert(turns.push(turn).drop_last() =~= turns);
    let said = crate::text::trimmed(turn.text);
    if turn.role != Role::System && said.len() > 0 {
        let lines = seed_lines(turns);
        let line = seed_line(turn)->0;
        assert(lines.push(line).drop_last() =~= lines);
        if lines.len() > 0 {
            assert(SEED_NOTE@ + (joined_lines(lines) + seq!['\n'] + line) =~= SEED_NOTE@
                + joined_lines(lines) + seq!['\n'] + line);
        }
    }
}

/// Whether `pat` stands somewhere in `s`.
pub open spec fn holds(s: Seq<char>, pat: Seq<char>) -> bool {
    exists|k: int| 0 <= k && k + pat.len() <= s.len() && #[trigger] s.subrange(k, k + pat.len()) == pat
}

/// A model accepts the small set of voices exactly where its id, in any case, names one of the older
/// live models and no native audio; every other model accepts the full set.
pub proof fn law_voices_by_the_model(model: Seq<char>)
    ensures
        ({
            let m = crate::text::ascii_lowered(model);
            let older = !holds(m, "native-audio"@) && (holds(m, "2.0-flash-live"@) || holds(
                m,
                "2.5-flash-live"@,
            ) || holds(m, "live-2.5-flash"@));
            &&& older ==> voices_of(model).len() == 8
            &&& !older ==> voices_of(model).len() == 30
            &&& older ==> voices_of(model) == half_cascade_voices()
            &&& !older ==> voices_of(model) == native_audio_voices()
        }),
{
    let m = crate::text::ascii_lowered(model);
    crate::text::law_occurs_somewhere(m, "native-audio"@);
    crate::text::law_occurs_somewhere(m, "2.0-flash-live"@);
    crate::text::law_occurs_somewhere(m, "2.5-flash-live"@);
    crate::text::law_occurs_somewhere(m, "live-2.5-flash"@);
}

/// An error is about access exactly where its words, in lower case, hold one of the words for it.
pub proof fn law_access_errors_by_their_words(low: Seq<char>)
    ensures
        is_about_access(low) == (holds(low, "unauthor"@) || holds(low, "api key"@) || holds(
            low,
            "permission"@,
        ) || holds(low, "401"@) || holds(low, "403"@) || holds(low, "invalid_argument key"@)),
{
    crate::text::law_occurs_somewhere(low, "unauthor"@);
    crate::text::law_occurs_somewhere(low, "api key"@);
    crate::text::law_occurs_somewhere(low, "permission"@);
    crate::text::law_occurs_somewhere(low, "401"@);
    crate::text::law_occurs_somewhere(low, "403"@);
    crate::text::law_occurs_somewhere(low, "invalid_argument key"@);
}

/// A model goes over the wire as `models/` and its id without the white space around it.
pub proof fn law_resource_name(model: Seq<char>)
    ensures
        resource_name(model) == "models/"@ + crate::text::trimmed(model),
{
}

/// A probe that was answered with success finds the provider online and has nothing more to say; one
/// that was refused finds the key unauthorized; any other finds the provider offline, and says why.
pub proof fn law_probe_by_the_answer(code: u16, text: String)
    ensures
        ({
            let r = ProbeReply::Status { code, text };
            &&& (probe_state(r) == Reachability::Online) == (200 <= code <= 299)
            &&& (probe_state(r) == Reachability::Unauthorized) == (code == 401 || code == 403)
            &&& !(200 <= code <= 299) && code != 401 && code != 403 ==> probe_state(r)
                == Reachability::Offline
            &&& 200 <= code <= 299 ==> probe_detail(r) is None
            &&& !(200 <= code <= 299) ==> probe_detail(r) == Some("HTTP "@ + text@)
        }),
        probe_state(ProbeReply::Timeout) == Reachability::Offline,
        probe_state(ProbeReply::NoConnection) == Reachability::Offline,
        probe_state(ProbeReply::Failed) == Reachability::Offline,
        probe_detail(ProbeReply::Timeout) == Some("timeout"@),
        probe_detail(ProbeReply::NoConnection) == Some("connection failed"@),
        probe_detail(ProbeReply::Failed) == Some("request error"@),
{
}

} // verus!
