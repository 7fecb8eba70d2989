//! The transcript: pieces of lines as they stream, folded into lines by who speaks.
use vstd::prelude::*;
use vstd::string::*;

use crate::session::event::Speaker;

verus! {

/// How many lines are kept; the oldest are dropped.
pub const MAX_ENTRIES: usize = 2_000;

/// What a line is.
#[derive(Debug, Clone, Copy, PartialEq, Eq, Structural)]
pub enum LineKind {
    /// The user.
    User,
    /// The agent.
    Agent,
    /// An error.
    Error,
}

/// One line.
#[derive(Debug, PartialEq, Eq)]
pub struct Entry {
    /// What it is.
    pub kind: LineKind,
    /// Its text so far.
    pub text: String,
}

/// An [`Entry`] with its text as a sequence of characters.
pub struct EntryView {
    /// What it is.
    pub kind: LineKind,
    /// Its text so far.
    pub text: Seq<char>,
}

impl View for Entry {
    type V = EntryView;

    open spec fn view(&self) -> EntryView {
        EntryView { kind: self.kind, text: self.text@ }
    }
}

/// The lines, and whose line is still open.
#[derive(Debug)]
pub struct Transcript {
    entries: Vec<Entry>,
    open: Option<LineKind>,
}

/// A [`Transcript`] as a sequence.
pub struct TranscriptView {
    /// The lines, oldest first.
    pub entries: Seq<EntryView>,
    /// Whose line is open, if one is: it is the last.
    pub open: Option<LineKind>,
}

impl View for Transcript {
    type V = TranscriptView;

    closed spec fn view(&self) -> TranscriptView {
        TranscriptView { entries: crate::text::views(self.entries@), open: self.open }
    }
}

/// The line that a speaker's words stand in.
pub open spec fn line_kind(speaker: Speaker) -> LineKind {
    match speaker {
        Speaker::User => LineKind::User,
        Speaker::Agent => LineKind::Agent,
    }
}

/// The newest lines that are kept.
pub open spec fn capped(entries: Seq<EntryView>) -> Seq<EntryView> {
    if entries.len() > MAX_ENTRIES {
        entries.skip(entries.len() - MAX_ENTRIES)
    } else {
        entries
    }
}

impl TranscriptView {
    /// What holds of every transcript: it is not longer than the limit, and an open line is the
    /// last.
    pub open spec fn wf(self) -> bool {
        &&& self.entries.len() <= MAX_ENTRIES
        &&& self.open is Some ==> self.entries.len() > 0 && self.entries.last().kind
            == self.open->0
    }

    /// After a piece of a line: it joins the speaker's open line, or begins a new one.
    pub open spec fn heard(self, speaker: Speaker, text: Seq<char>, final_: bool) -> TranscriptView {
        let kind = line_kind(speaker);
        let entries = if self.entries.len() > 0 && self.open == Some(kind) {
            let last = self.entries.last();
            self.entries.update(
                self.entries.len() - 1,
                EntryView { text: last.text + text, ..last },
            )
        } else {
            capped(self.entries.push(EntryView { kind, text }))
        };
        TranscriptView {
            entries,
            open: if final_ {
                None
            } else {
                Some(kind)
            },
        }
    }

    /// After an error: it is a line of its own, and no line stays open.
    pub open spec fn failed(self, message: Seq<char>) -> TranscriptView {
        TranscriptView {
            entries: capped(self.entries.push(EntryView { kind: LineKind::Error, text: message })),
            open: None,
        }
    }
}

impl Transcript {
    /// What holds of every transcript.
    pub open spec fn wf(&self) -> bool {
        self@.wf()
    }

    /// An empty transcript.
    pub fn new() -> (r: Self)
        ensures
            r.wf(),
            r@ == (TranscriptView { entries: Seq::empty(), open: None }),
    {
        let r: Transcript = Transcript { entries: Vec::new(), open: None };
        assert(r@.entries =~= Seq::empty());
        r
    }

    /// Fold in a piece of a line.
    pub fn push_transcript(&mut self, speaker: Speaker, text: String, final_: bool)
        requires
            old(self).wf(),
        ensures
            final(self).wf(),
            final(self)@ == old(self)@.heard(speaker, text@, final_),
    {
        let kind: LineKind = match speaker {
            Speaker::User => LineKind::User,
            Speaker::Agent => LineKind::Agent,
        };
        let ghost before = self@.entries;
        let continues: bool = match self.open {
            Some(k) => k == kind && self.entries.len() > 0,
            None => false,
        };
        if continues {
            match self.entries.pop() {
                Some(last) => {
                    let whole: String = crate::text::join2(last.text.as_str(), text.as_str());
                    self.entries.push(Entry { kind: last.kind, text: whole });
                    assert(self@.entries =~= before.update(
                        before.len() - 1,
                        EntryView { text: before.last().text + text@, ..before.last() },
                    ));
                },
                None => {},
            }
        } else {
            self.start(Entry { kind, text });
            self.open = Some(kind);
        }
        if final_ {
            self.open = None;
        }
    }

    /// Fold in an error.
    pub fn push_error(&mut self, message: String)
        requires
            old(self).wf(),
        ensures
            final(self).wf(),
            final(self)@ == old(self)@.failed(message@),
    {
        self.open = None;
        self.start(Entry { kind: LineKind::Error, text: message });
    }

    fn start(&mut self, entry: Entry)
        requires
            old(self)@.entries.len() <= MAX_ENTRIES,
        ensures
            final(self)@.entries == capped(old(self)@.entries.push(entry@)),
            final(self)@.open == old(self)@.open,
    {
        let ghost before = self@.entries;
        self.entries.push(entry);
        assert(self@.entries =~= before.push(entry@));
        if self.entries.len() > MAX_ENTRIES {
            self.entries.remove(0);
            assert(self@.entries =~= before.push(entry@).skip(1));
        }
    }

    /// The lines, oldest first.
    pub fn entries(&self) -> (r: &[Entry])
        ensures
            crate::text::views(r@) == self@.entries,
    {
        self.entries.as_slice()
    }
}

/// A line that streams in two pieces reads as both, and is one line.
pub proof fn law_pieces_join(t: TranscriptView, speaker: Speaker, a: Seq<char>, b: Seq<char>, f: bool)
    requires
        t.wf(),
    ensures
        t.heard(speaker, a, false).heard(speaker, b, f).entries == t.heard(
            speaker,
            a + b,
            f,
        ).entries,
{
    let x = t.heard(speaker, a, false);
    let kind = line_kind(speaker);
    let two = x.heard(speaker, b, f).entries;
    let one = t.heard(speaker, a + b, f).entries;
    if t.entries.len() > 0 && t.open == Some(kind) {
        assert(t.entries.last().text + a + b =~= t.entries.last().text + (a + b));
        assert(two =~= one);
    } else {
        let p = t.entries.push(EntryView { kind, text: a });
        let q = t.entries.push(EntryView { kind, text: a + b });
        assert(capped(q) =~= capped(p).update(
            capped(p).len() - 1,
            EntryView { kind, text: a + b },
        ));
        assert(capped(p).last() == (EntryView { kind, text: a }));
        assert(two =~= one);
    }
}

/// Where another speaks, or a line was complete, or an error stood between, a new line begins: the
/// newest line holds the new words alone.
pub proof fn law_new_line_stands_alone(
    t: TranscriptView,
    speaker: Speaker,
    text: Seq<char>,
    final_: bool,
)
    requires
        t.wf(),
        t.open != Some(line_kind(speaker)),
    ensures
        t.heard(speaker, text, final_).entries.last() == (EntryView {
            kind: line_kind(speaker),
            text,
        }),
{
    let p = t.entries.push(EntryView { kind: line_kind(speaker), text });
    if p.len() > MAX_ENTRIES {
        assert(capped(p).last() == p.last());
    }
}

/// A piece leaves every line but the newest as it is: it goes behind the words of its speaker's open
/// line, or stands in a line of its own behind all others. The line stays open for its speaker unless it
/// ends with the piece.
pub proof fn law_piece_goes_to_the_newest_line(
    lines: Seq<EntryView>,
    last: EntryView,
    speaker: Speaker,
    text: Seq<char>,
    final_: bool,
)
    requires
        lines.len() + 2 <= 2_000,
    ensures
        ({
            let kind = match speaker {
                Speaker::User => LineKind::User,
                Speaker::Agent => LineKind::Agent,
            };
            let joining = TranscriptView { entries: lines.push(last), open: Some(kind) }.heard(
                speaker,
                text,
                final_,
            );
            let beginning = TranscriptView { entries: lines.push(last), open: None }.heard(
                speaker,
                text,
                final_,
            );
            &&& joining.entries == lines.push(
                EntryView { kind: last.kind, text: last.text + text },
            )
            &&& beginning.entries == lines.push(last).push(EntryView { kind, text })
            &&& final_ ==> joining.open is None && beginning.open is None
            &&& !final_ ==> joining.open == Some(kind) && beginning.open == Some(kind)
        }),
{
    let all = lines.push(last);
    assert(all.update(all.len() - 1, EntryView { text: last.text + text, ..last }) =~= lines.push(
        EntryView { kind: last.kind, text: last.text + text },
    ));
}

/// Where the other speaker's line is open, a piece begins a new line.
pub proof fn law_other_speaker_begins_a_line(
    t: TranscriptView,
    text: Seq<char>,
    final_: bool,
)
    requires
        t.entries.len() < 2_000,
    ensures
        t.open == Some(LineKind::Agent) ==> t.heard(Speaker::User, text, final_).entries
            == t.entries.push(EntryView { kind: LineKind::User, text }),
        t.open == Some(LineKind::User) ==> t.heard(Speaker::Agent, text, final_).entries
            == t.entries.push(EntryView { kind: LineKind::Agent, text }),
{
}

/// An error stands in a line of its own behind all others and closes the open one.
pub proof fn law_error_stands_alone(t: TranscriptView, message: Seq<char>)
    requires
        t.entries.len() < 2_000,
    ensures
        t.failed(message).entries == t.entries.push(
            EntryView { kind: LineKind::Error, text: message },
        ),
        t.failed(message).open is None,
{
}

/// The newest two thousand lines are kept, in their order.
pub proof fn law_newest_lines_are_kept(entries: Seq<EntryView>, i: int)
    ensures
        entries.len() <= 2_000 ==> capped(entries) == entries,
        entries.len() > 2_000 ==> capped(entries).len() == 2_000,
        0 <= i < capped(entries).len() ==> capped(entries)[capped(entries).len() - 1 - i]
            == entries[entries.len() - 1 - i],
{
}

} // verus!
