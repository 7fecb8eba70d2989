//! A scripted provider: every text gives the same turn, in order, without a network.
use vstd::prelude::*;
use vstd::string::*;

use crate::error::{SessionError, SessionErrorView};
use crate::session::event::{SessionEvent, SessionEventView, Speaker, TurnEvent};
use crate::session::Capabilities;

verus! {

/// Samples of one scripted piece of audio: 10 ms at 24 kHz.
pub const MOCK_AUDIO_CHUNK: usize = 240;

/// A scripted session.
#[derive(Debug, Clone, Copy, PartialEq, Eq, Structural)]
pub struct MockSession {
    connected: bool,
    capabilities: Capabilities,
}

/// The scripted piece of audio.
pub open spec fn scripted_audio() -> SessionEventView {
    SessionEventView::AudioOutput { pcm: Seq::new(MOCK_AUDIO_CHUNK as nat, |i: int| 0i16) }
}

/// The scripted turn: it starts, the user's text is echoed, the agent answers in two pieces, there
/// is some audio, and it completes.
pub open spec fn scripted_turn(text: Seq<char>) -> Seq<SessionEventView> {
    seq![
        SessionEventView::TurnEvent(TurnEvent::TurnStarted),
        SessionEventView::Transcript { speaker: Speaker::User, text, final_: true },
        SessionEventView::Transcript {
            speaker: Speaker::Agent,
            text: seq!['\u{2026}'],
            final_: false,
        },
        SessionEventView::Transcript {
            speaker: Speaker::Agent,
            text: "echo: "@ + text,
            final_: true,
        },
        scripted_audio(),
        SessionEventView::TurnEvent(TurnEvent::TurnComplete),
    ]
}

fn audio_piece() -> (r: SessionEvent)
    ensures
        r@ == scripted_audio(),
{
    let mut pcm: Vec<i16> = Vec::new();
    let mut i: usize = 0;
    while i < MOCK_AUDIO_CHUNK
        invariant
            i <= MOCK_AUDIO_CHUNK,
            pcm@.len() == i,
            forall|k: int| 0 <= k < i ==> pcm@[k] == 0,
        decreases MOCK_AUDIO_CHUNK - i,
    {
        pcm.push(0);
        i = i + 1;
    }
    assert(pcm@ =~= Seq::new(MOCK_AUDIO_CHUNK as nat, |i: int| 0i16));
    SessionEvent::AudioOutput { pcm }
}

impl MockSession {
    /// Whether the session is connected.
    pub closed spec fn is_connected(&self) -> bool {
        self.connected
    }

    /// What the session claims to be able to do.
    pub closed spec fn claims(&self) -> Capabilities {
        self.capabilities
    }

    /// A session that claims resumption and screen input.
    #[must_use]
    pub fn new() -> (r: Self)
        ensures
            !r.is_connected(),
            r.claims() == (Capabilities {
                session_resumption: true,
                native_screen_input: true,
                async_tool_calls: false,
            }),
    {
        MockSession::with_capabilities(
            Capabilities {
                session_resumption: true,
                native_screen_input: true,
                async_tool_calls: false,
            },
        )
    }

    /// A session that claims what it is told to.
    #[must_use]
    pub fn with_capabilities(capabilities: Capabilities) -> (r: Self)
        ensures
            !r.is_connected(),
            r.claims() == capabilities,
    {
        MockSession { connected: false, capabilities }
    }

    /// Connect. This always succeeds.
    pub fn connect(&mut self) -> (r: Result<(), SessionError>)
        ensures
            r is Ok,
            final(self).is_connected(),
            final(self).claims() == old(self).claims(),
    {
        self.connected = true;
        Ok(())
    }

    /// The events that a mic frame brings: one piece of audio.
    pub fn send_audio(&self) -> (r: Result<Vec<SessionEvent>, SessionError>)
        ensures
            self.is_connected() ==> (r matches Ok(v) && crate::text::views(v@) == seq![
                scripted_audio(),
            ]),
            !self.is_connected() ==> (r matches Err(e) && e@ == SessionErrorView::NotConnected),
    {
        if !self.connected {
            return Err(SessionError::NotConnected);
        }
        let mut out: Vec<SessionEvent> = Vec::new();
        out.push(audio_piece());
        assert(crate::text::views(out@) =~= seq![scripted_audio()]);
        Ok(out)
    }

    /// A screen frame is accepted and brings nothing.
    pub fn send_video_frame(&self) -> (r: Result<(), SessionError>)
        ensures
            self.is_connected() ==> r is Ok,
            !self.is_connected() ==> (r matches Err(e) && e@ == SessionErrorView::NotConnected),
    {
        if self.connected {
            Ok(())
        } else {
            Err(SessionError::NotConnected)
        }
    }

    /// The events that a text brings: one whole turn.
    pub fn send_text(&self, text: &str) -> (r: Result<Vec<SessionEvent>, SessionError>)
        ensures
            self.is_connected() ==> (r matches Ok(v) && crate::text::views(v@) == scripted_turn(
                text@,
            )),
            !self.is_connected() ==> (r matches Err(e) && e@ == SessionErrorView::NotConnected),
    {
        if !self.connected {
            return Err(SessionError::NotConnected);
        }
        let mut dots: String = String::new();
        dots.push('\u{2026}');
        assert(dots@ =~= seq!['\u{2026}']);
        let mut out: Vec<SessionEvent> = Vec::new();
        out.push(SessionEvent::TurnEvent(TurnEvent::TurnStarted));
        out.push(
            SessionEvent::Transcript {
                speaker: Speaker::User,
                text: text.to_owned(),
                final_: true,
            },
        );
        out.push(
            SessionEvent::Transcript { speaker: Speaker::Agent, text: dots, final_: false },
        );
        out.push(
            SessionEvent::Transcript {
                speaker: Speaker::Agent,
                text: crate::text::join2("echo: ", text),
                final_: true,
            },
        );
        out.push(audio_piece());
        out.push(SessionEvent::TurnEvent(TurnEvent::TurnComplete));
        assert(crate::text::views(out@) =~= scripted_turn(text@));
        Ok(out)
    }

    /// Close. Nothing comes afterwards.
    pub fn close(&mut self)
        ensures
            !final(self).is_connected(),
            final(self).claims() == old(self).claims(),
    {
        self.connected = false;
    }

    /// What the session claims to be able to do.
    pub fn capabilities(&self) -> (r: Capabilities)
        ensures
            r == self.claims(),
    {
        self.capabilities
    }
}

/// The scripted turn: six events, of which the first starts it and the last completes it; between them
/// the user's line as it was sent, the agent's answer that repeats it, and ten milliseconds of silence.
pub proof fn law_scripted_turn(text: Seq<char>, i: int)
    ensures
        ({
            let turn = scripted_turn(text);
            &&& turn.len() == 6
            &&& turn[0] == SessionEventView::TurnEvent(TurnEvent::TurnStarted)
            &&& turn[1] == (SessionEventView::Transcript { speaker: Speaker::User, text, final_: true })
            &&& (turn[2] matches SessionEventView::Transcript { speaker: s, text: t, final_: f } && s
                == Speaker::Agent && !f && t.len() == 1)
            &&& (turn[3] matches SessionEventView::Transcript { speaker: s, text: t, final_: f } && s
                == Speaker::Agent && f && t == seq!['e', 'c', 'h', 'o', ':', ' '] + text)
            &&& (turn[4] matches SessionEventView::AudioOutput { pcm } && pcm.len() == 240 && (0 <= i
                < 240 ==> pcm[i] == 0))
            &&& turn[5] == SessionEventView::TurnEvent(TurnEvent::TurnComplete)
        }),
{
    reveal_strlit("echo: ");
    assert("echo: "@ =~= seq!['e', 'c', 'h', 'o', ':', ' ']);
}

} // verus!
