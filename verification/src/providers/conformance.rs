//! What every provider has to keep to: one scenario, and how its run is judged.
use vstd::prelude::*;
use vstd::string::*;

use crate::error::{SessionError, SessionErrorView};
use crate::media::AudioFormat;
use crate::session::event::{SessionEvent, SessionEventView, Speaker, TurnEvent};
use crate::session::{SessionConfig, SessionConfigView};

verus! {

/// How a run that kept to the rules went.
#[derive(Debug, Clone, Copy, PartialEq, Eq, Structural)]
pub enum ConformanceOutcome {
    /// The session connected and gave an ordered turn.
    FullLoop,
    /// The adapter says that it offers no sessions.
    StubVerified,
}

/// A rule that was not kept.
#[derive(Debug, PartialEq, Eq)]
pub struct ConformanceError(pub String);

impl ConformanceError {
    /// The error as one line for a person.
    pub fn to_string(&self) -> (r: String)
        ensures
            r@ == "conformance failure: "@ + self.0@,
    {
        crate::text::join2("conformance failure: ", self.0.as_str())
    }
}

/// The text that the scenario sends.
pub const PROBE_TEXT: &'static str = "conformance probe";

/// What the scenario connects with.
#[must_use]
pub fn sample_session_config() -> (r: SessionConfig)
    ensures
        r@ == (SessionConfigView {
            model: "conformance-model"@,
            system_instruction: "You are under test."@,
            voice: None,
            input_audio: AudioFormat::spec_input(),
            output_audio: AudioFormat::spec_output(),
            enable_input_transcription: true,
            enable_output_transcription: true,
            initial_context: Seq::empty(),
            resumption_handle: None,
            tools: Seq::empty(),
        }),
{
    let r: SessionConfig = SessionConfig {
        model: "conformance-model".to_owned(),
        system_instruction: "You are under test.".to_owned(),
        voice: None,
        input_audio: AudioFormat::input(),
        output_audio: AudioFormat::output(),
        enable_input_transcription: true,
        enable_output_transcription: true,
        initial_context: Vec::new(),
        resumption_handle: None,
        tools: Vec::new(),
    };
    assert(r@.initial_context =~= Seq::empty());
    r
}

/// How the reading of events ended, where no end of a turn was seen.
#[derive(Debug, Clone, Copy, PartialEq, Eq, Structural)]
pub enum StreamEnd {
    /// The stream closed.
    Closed,
    /// Nothing came in time.
    TimedOut,
}

/// The end of a turn.
pub open spec fn is_turn_end(e: SessionEventView) -> bool {
    e == SessionEventView::TurnEvent(TurnEvent::TurnComplete)
}

/// A piece of the user's transcript.
pub open spec fn is_user_piece(e: SessionEventView) -> bool {
    e matches SessionEventView::Transcript { speaker: s, text: _, final_: _ } && s == Speaker::User
}

/// The last piece of a line of the agent.
pub open spec fn is_agent_final(e: SessionEventView) -> bool {
    e matches SessionEventView::Transcript { speaker: s, text: _, final_: f } && s == Speaker::Agent
        && f
}

/// The index of the first end of a turn, or the length.
pub open spec fn turn_end_at(events: Seq<SessionEventView>) -> int
    decreases events.len(),
{
    if events.len() == 0 || is_turn_end(events[0]) {
        0
    } else {
        1 + turn_end_at(events.drop_first())
    }
}

/// What is wrong with the events of a turn, if anything: it has to end, and before its end there
/// have to be the user's transcript and the last piece of the agent's.
pub open spec fn turn_flaw(events: Seq<SessionEventView>, end: StreamEnd) -> Option<Seq<char>> {
    let k = turn_end_at(events);
    if k >= events.len() {
        match end {
            StreamEnd::Closed => Some("event stream closed before TurnComplete"@),
            StreamEnd::TimedOut => Some("timed out waiting for events"@),
        }
    } else if !(exists|i: int| 0 <= i < k && is_user_piece(#[trigger] events[i])) {
        Some("no user transcript observed"@)
    } else if !(exists|i: int| 0 <= i < k && is_agent_final(#[trigger] events[i])) {
        Some("no final agent transcript observed"@)
    } else {
        None
    }
}

fn refuse(why: &str) -> (r: Result<(), ConformanceError>)
    ensures
        r matches Err(e) && e.0@ == why@,
{
    Err(ConformanceError(why.to_owned()))
}

proof fn lemma_turn_end_at(events: Seq<SessionEventView>, k: int)
    requires
        0 <= k <= events.len(),
        k < events.len() ==> is_turn_end(events[k]),
        forall|i: int| 0 <= i < k ==> !is_turn_end(#[trigger] events[i]),
    ensures
        turn_end_at(events) == k,
    decreases k,
{
    if k > 0 {
        assert(!is_turn_end(events[0]));
        let f = events.drop_first();
        assert forall|i: int| 0 <= i < k - 1 implies !is_turn_end(#[trigger] f[i]) by {
            assert(f[i] == events[i + 1]);
        }
        lemma_turn_end_at(f, k - 1);
    }
}

/// Judge the events that came after the text was sent, in order, up to the end of the turn or to
/// the end of the reading.
pub fn judge_turn(events: &[SessionEvent], end: StreamEnd) -> (r: Result<(), ConformanceError>)
    ensures
        match turn_flaw(crate::text::views(events@), end) {
            None => r is Ok,
            Some(why) => r matches Err(e) && e.0@ == why,
        },
{
    let ghost all = crate::text::views(events@);
    let mut saw_user: bool = false;
    let mut saw_final: bool = false;
    let mut k: usize = 0;
    while k < events.len()
        invariant
            k <= events.len(),
            all == crate::text::views(events@),
            forall|i: int| 0 <= i < k ==> !is_turn_end(#[trigger] all[i]),
            saw_user == (exists|i: int| 0 <= i < k && is_user_piece(#[trigger] all[i])),
            saw_final == (exists|i: int| 0 <= i < k && is_agent_final(#[trigger] all[i])),
        decreases events.len() - k,
    {
        assert(all[k as int] == events@[k as int]@);
        match &events[k] {
            SessionEvent::Transcript { speaker, text, final_ } => match *speaker {
                Speaker::User => {
                    saw_user = true;
                    assert(is_user_piece(all[k as int]));
                },
                Speaker::Agent => {
                    if *final_ {
                        saw_final = true;
                        assert(is_agent_final(all[k as int]));
                    }
                },
            },
            SessionEvent::TurnEvent(t) => {
                if *t == TurnEvent::TurnComplete {
                    proof {
                        lemma_turn_end_at(all, k as int);
                    }
                    if !saw_user {
                        return refuse("no user transcript observed");
                    }
                    if !saw_final {
                        return refuse("no final agent transcript observed");
                    }
                    return Ok(());
                }
            },
            _ => {},
        }
        k = k + 1;
    }
    proof {
        lemma_turn_end_at(all, k as int);
    }
    match end {
        StreamEnd::Closed => refuse("event stream closed before TurnComplete"),
        StreamEnd::TimedOut => refuse("timed out waiting for events"),
    }
}

/// What the outcome of connecting means for the run: go on (`None`), or the run is over.
pub fn judge_connect(result: &Result<(), SessionError>) -> (r: Option<
    Result<ConformanceOutcome, ConformanceError>,
>)
    ensures
        match result {
            Ok(()) => r is None,
            Err(e) => if e@ is Unimplemented {
                r matches Some(Ok(o)) && o == ConformanceOutcome::StubVerified
            } else {
                r matches Some(Err(f)) && f.0@ == "connect failed: "@ + e@.words()
            },
        },
{
    match result {
        Ok(()) => None,
        Err(e) => match e {
            SessionError::Unimplemented(_) => Some(Ok(ConformanceOutcome::StubVerified)),
            _ => {
                let words: String = e.to_string();
                Some(
                    Err(
                        ConformanceError(crate::text::join2("connect failed: ", words.as_str())),
                    ),
                )
            },
        },
    }
}

/// The run's outcome from those of sending, of judging the turn, and of closing, in that order.
pub fn conclude(
    sent: &Result<(), SessionError>,
    turn: Result<(), ConformanceError>,
    closed: &Result<(), SessionError>,
) -> (r: Result<ConformanceOutcome, ConformanceError>)
    ensures
        match (sent, turn, closed) {
            (Err(e), _, _) => r matches Err(f) && f.0@ == "send_text failed: "@ + e@.words(),
            (Ok(()), Err(t), _) => r matches Err(f) && f.0@ == t.0@,
            (Ok(()), Ok(()), Err(e)) => r matches Err(f) && f.0@ == "close failed: "@ + e@.words(),
            (Ok(()), Ok(()), Ok(())) => r matches Ok(o) && o == ConformanceOutcome::FullLoop,
        },
{
    if let Err(e) = sent {
        let words: String = e.to_string();
        return Err(ConformanceError(crate::text::join2("send_text failed: ", words.as_str())));
    }
    if let Err(t) = turn {
        return Err(t);
    }
    if let Err(e) = closed {
        let words: String = e.to_string();
        return Err(ConformanceError(crate::text::join2("close failed: ", words.as_str())));
    }
    Ok(ConformanceOutcome::FullLoop)
}

/// The scripted provider's turn keeps to the rules, whatever the text.
pub proof fn law_scripted_turn_conforms(text: Seq<char>, end: StreamEnd)
    ensures
        turn_flaw(super::mock::scripted_turn(text), end) is None,
{
    let t = super::mock::scripted_turn(text);
    lemma_turn_end_at(t, 5);
    assert(is_user_piece(t[1]));
    assert(is_agent_final(t[3]));
}

/// A turn keeps to the rules exactly where it completes, and somewhere before its first end there are a
/// piece of the user's transcript and the last piece of a line of the agent.
pub proof fn law_ordered_turn(events: Seq<SessionEventView>, end: StreamEnd)
    ensures
        (turn_flaw(events, end) is None) == exists|k: int, i: int, j: int|
            #![trigger events[k], events[i], events[j]]
            0 <= i < k < events.len() && 0 <= j < k && events[k] == SessionEventView::TurnEvent(
                TurnEvent::TurnComplete,
            ) && (forall|h: int|
                0 <= h < k ==> #[trigger] events[h] != SessionEventView::TurnEvent(
                    TurnEvent::TurnComplete,
                )) && (events[i] matches SessionEventView::Transcript { speaker: s, .. } && s
                == Speaker::User) && (events[j] matches SessionEventView::Transcript {
                speaker: s,
                final_: f,
                ..
            } && s == Speaker::Agent && f),
{
    lemma_turn_end_is_first(events);
    let n = turn_end_at(events);
    if turn_flaw(events, end) is None {
        let i = choose|i: int| 0 <= i < n && is_user_piece(#[trigger] events[i]);
        let j = choose|j: int| 0 <= j < n && is_agent_final(#[trigger] events[j]);
        assert(0 <= i < n < events.len() && 0 <= j < n);
        assert forall|h: int| 0 <= h < n implies #[trigger] events[h] != SessionEventView::TurnEvent(
            TurnEvent::TurnComplete,
        ) by {
            assert(!is_turn_end(events[h]));
        }
        assert(events[n] == SessionEventView::TurnEvent(TurnEvent::TurnComplete));
        assert(events[i] == events[i] && events[j] == events[j]);
    }
    if exists|k: int, i: int, j: int|
        #![trigger events[k], events[i], events[j]]
        0 <= i < k < events.len() && 0 <= j < k && events[k] == SessionEventView::TurnEvent(
            TurnEvent::TurnComplete,
        ) && (forall|h: int|
            0 <= h < k ==> #[trigger] events[h] != SessionEventView::TurnEvent(
                TurnEvent::TurnComplete,
            )) && (events[i] matches SessionEventView::Transcript { speaker: s, .. } && s
            == Speaker::User) && (events[j] matches SessionEventView::Transcript {
            speaker: s,
            final_: f,
            ..
        } && s == Speaker::Agent && f) {
        let (k, i, j) = choose|k: int, i: int, j: int|
            #![trigger events[k], events[i], events[j]]
            0 <= i < k < events.len() && 0 <= j < k && events[k] == SessionEventView::TurnEvent(
                TurnEvent::TurnComplete,
            ) && (forall|h: int|
                0 <= h < k ==> #[trigger] events[h] != SessionEventView::TurnEvent(
                    TurnEvent::TurnComplete,
                )) && (events[i] matches SessionEventView::Transcript { speaker: s, .. } && s
                == Speaker::User) && (events[j] matches SessionEventView::Transcript {
                speaker: s,
                final_: f,
                ..
            } && s == Speaker::Agent && f);
        assert(is_turn_end(events[k]));
        if n < k {
            assert(is_turn_end(events[n]));
        }
        assert(n == k);
        assert(is_user_piece(events[i]));
        assert(is_agent_final(events[j]));
    }
}

proof fn lemma_turn_end_is_first(events: Seq<SessionEventView>)
    ensures
        0 <= turn_end_at(events) <= events.len(),
        turn_end_at(events) < events.len() ==> is_turn_end(events[turn_end_at(events)]),
        forall|h: int| 0 <= h < turn_end_at(events) ==> !is_turn_end(#[trigger] events[h]),
    decreases events.len(),
{
    if events.len() > 0 && !is_turn_end(events[0]) {
        let rest = events.drop_first();
        lemma_turn_end_is_first(rest);
        assert forall|h: int| 0 <= h < turn_end_at(events) implies !is_turn_end(
            #[trigger] events[h],
        ) by {
            if h > 0 {
                assert(rest[h - 1] == events[h]);
            }
        }
    }
}

/// What is told of a turn that breaks the rules: that it did not end, for which there are two reasons,
/// else that the user's transcript is missing, else the agent's.
pub proof fn law_broken_turn_in_words(events: Seq<SessionEventView>)
    ensures
        (forall|h: int|
            0 <= h < events.len() ==> #[trigger] events[h] != SessionEventView::TurnEvent(
                TurnEvent::TurnComplete,
            )) ==> turn_flaw(events, StreamEnd::Closed) == Some(
            "event stream closed before TurnComplete"@,
        ) && turn_flaw(events, StreamEnd::TimedOut) == Some("timed out waiting for events"@),
        (exists|h: int|
            0 <= h < events.len() && #[trigger] events[h] == SessionEventView::TurnEvent(
                TurnEvent::TurnComplete,
            )) && (forall|i: int|
            0 <= i < events.len() ==> !(#[trigger] events[i] matches SessionEventView::Transcript {
                speaker: s,
                ..
            } && s == Speaker::User)) ==> turn_flaw(events, StreamEnd::Closed) == Some(
            "no user transcript observed"@,
        ),
{
    lemma_turn_end_is_first(events);
    let n = turn_end_at(events);
    if forall|h: int|
        0 <= h < events.len() ==> #[trigger] events[h] != SessionEventView::TurnEvent(
            TurnEvent::TurnComplete,
        ) {
        if n < events.len() {
            assert(is_turn_end(events[n]));
        }
    }
    if exists|h: int|
        0 <= h < events.len() && #[trigger] events[h] == SessionEventView::TurnEvent(
            TurnEvent::TurnComplete,
        ) {
        let h = choose|h: int|
            0 <= h < events.len() && #[trigger] events[h] == SessionEventView::TurnEvent(
                TurnEvent::TurnComplete,
            );
        assert(is_turn_end(events[h]));
        assert(n < events.len());
    }
}

} // verus!
