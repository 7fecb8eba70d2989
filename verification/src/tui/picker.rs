//! The pickers: which row of a list is highlighted.
use vstd::prelude::*;
use vstd::string::*;

use crate::history::session::{SessionSummary, SummaryView};
use crate::settings::{DescriptorView, KindView, SettingDescriptor, SettingId, SettingKind};
use crate::settings::{SettingValue, ValueView};

verus! {

/// The row that a list opens on: the first that is the current one, or the first.
pub open spec fn opening_row(rows: Seq<Seq<char>>, current: Option<Seq<char>>) -> int {
    match current {
        Some(c) => if rows.contains(c) {
            rows.index_of_first(c)->0
        } else {
            0
        },
        None => 0,
    }
}

/// The row above, if there is one.
pub open spec fn row_above(selected: int) -> int {
    if selected > 0 {
        selected - 1
    } else {
        0
    }
}

/// The row below, if there is one.
pub open spec fn row_below(selected: int, rows: int) -> int {
    if selected + 1 < rows {
        selected + 1
    } else {
        selected
    }
}

/// The ids of a session list.
pub open spec fn ids_of(sessions: Seq<SummaryView>) -> Seq<Seq<char>> {
    sessions.map_values(|s: SummaryView| s.id)
}

/// The row that is shown as highlighted is one of the list, where the list has any.
pub open spec fn row_is_valid(selected: int, rows: int) -> bool {
    0 <= selected && (selected < rows || (rows == 0 && selected == 0))
}

fn first_row(rows: &[&str], current: &str) -> (r: usize)
    ensures
        r == opening_row(crate::text::views(rows@), Some(current@)),
        row_is_valid(r as int, rows@.len() as int),
{
    let ghost all = crate::text::views(rows@);
    let mut i: usize = 0;
    while i < rows.len()
        invariant
            i <= rows.len(),
            all == crate::text::views(rows@),
            forall|k: int| 0 <= k < i ==> #[trigger] all[k] != current@,
        decreases rows.len() - i,
    {
        assert(all[i as int] == rows@[i as int]@);
        if crate::text::same(rows[i], current) {
            proof {
                lemma_first_index(all, current@, i as int);
            }
            return i;
        }
        i = i + 1;
    }
    assert(!all.contains(current@));
    0
}

proof fn lemma_first_index(rows: Seq<Seq<char>>, c: Seq<char>, k: int)
    requires
        0 <= k < rows.len(),
        rows[k] == c,
        forall|i: int| 0 <= i < k ==> #[trigger] rows[i] != c,
    ensures
        rows.contains(c),
        rows.index_of_first(c) == Some(k),
{
    rows.index_of_first_ensures(c);
    let j = rows.index_of_first(c)->0;
    if j < k {
        assert(rows[j] != c);
    }
    if k < j {
        assert(rows[k] == c);
    }
}

/// The open list of sessions.
#[derive(Debug)]
pub struct Picker {
    sessions: Vec<SessionSummary>,
    selected: usize,
    current_id: Option<String>,
}

/// A [`Picker`] with its texts as sequences of characters.
pub struct PickerView {
    /// The rows, newest activity first.
    pub sessions: Seq<SummaryView>,
    /// The highlighted row.
    pub selected: int,
    /// The session that is in use.
    pub current_id: Option<Seq<char>>,
}

impl View for Picker {
    type V = PickerView;

    closed spec fn view(&self) -> PickerView {
        PickerView {
            sessions: crate::text::views(self.sessions@),
            selected: self.selected as int,
            current_id: crate::history::session::opt_text(self.current_id),
        }
    }
}

impl PickerView {
    /// Whether the highlighted row is one of the list.
    pub open spec fn wf(self) -> bool {
        row_is_valid(self.selected, self.sessions.len() as int)
    }

    /// The id of the highlighted session.
    pub open spec fn chosen(self) -> Option<Seq<char>> {
        if 0 <= self.selected < self.sessions.len() {
            Some(self.sessions[self.selected].id)
        } else {
            None
        }
    }

    /// After a step up.
    pub open spec fn stepped_up(self) -> PickerView {
        PickerView { selected: row_above(self.selected), ..self }
    }

    /// After a step down.
    pub open spec fn stepped_down(self) -> PickerView {
        PickerView { selected: row_below(self.selected, self.sessions.len() as int), ..self }
    }
}

impl Picker {
    /// Whether the highlighted row is one of the list.
    pub open spec fn wf(&self) -> bool {
        self@.wf()
    }

    /// A picker over the sessions, highlighting the current one, or else the first.
    #[must_use]
    pub fn new(sessions: Vec<SessionSummary>, current_id: Option<String>) -> (r: Self)
        ensures
            r.wf(),
            r@.sessions == crate::text::views(sessions@),
            r@.current_id == crate::history::session::opt_text(current_id),
            r@.selected == opening_row(ids_of(r@.sessions), r@.current_id),
    {
        let ghost views = crate::text::views(sessions@);
        let selected: usize = match &current_id {
            Some(id) => {
                let mut ids: Vec<&str> = Vec::new();
                let mut i: usize = 0;
                while i < sessions.len()
                    invariant
                        i <= sessions.len(),
                        views == crate::text::views(sessions@),
                        crate::text::views(ids@) =~= ids_of(views).take(i as int),
                    decreases sessions.len() - i,
                {
                    let ghost before = crate::text::views(ids@);
                    ids.push(sessions[i].id.as_str());
                    assert(crate::text::views(ids@) =~= before.push(sessions@[i as int].id@));
                    assert(ids_of(views).take(i + 1) =~= ids_of(views).take(i as int).push(
                        sessions@[i as int].id@,
                    ));
                    i = i + 1;
                }
                assert(crate::text::views(ids@) =~= ids_of(views));
                first_row(ids.as_slice(), id.as_str())
            },
            None => 0,
        };
        Picker { sessions, selected, current_id }
    }

    /// The rows, newest activity first.
    #[must_use]
    pub fn sessions(&self) -> (r: &[SessionSummary])
        ensures
            crate::text::views(r@) == self@.sessions,
    {
        self.sessions.as_slice()
    }

    /// The session that is in use.
    #[must_use]
    pub fn current_id(&self) -> (r: Option<&str>)
        ensures
            r is Some == self@.current_id is Some,
            r is Some ==> r->0@ == self@.current_id->0,
    {
        match &self.current_id {
            Some(id) => Some(id.as_str()),
            None => None,
        }
    }

    /// The highlighted row.
    #[must_use]
    pub fn selected(&self) -> (r: usize)
        ensures
            r == self@.selected,
    {
        self.selected
    }

    /// Whether there is nothing to show.
    #[must_use]
    pub fn is_empty(&self) -> (r: bool)
        ensures
            r == (self@.sessions.len() == 0),
    {
        self.sessions.len() == 0
    }

    /// Move the highlight up.
    pub fn up(&mut self)
        requires
            old(self).wf(),
        ensures
            final(self).wf(),
            final(self)@ == old(self)@.stepped_up(),
    {
        if self.selected > 0 {
            self.selected = self.selected - 1;
        }
    }

    /// Move the highlight down.
    pub fn down(&mut self)
        requires
            old(self).wf(),
        ensures
            final(self).wf(),
            final(self)@ == old(self)@.stepped_down(),
    {
        let rows: usize = self.sessions.len();
        if rows > 0 && self.selected < rows - 1 {
            self.selected = self.selected + 1;
        }
    }

    /// The id of the highlighted session.
    #[must_use]
    pub fn selected_id(&self) -> (r: Option<&str>)
        ensures
            r is Some == self@.chosen() is Some,
            r is Some ==> r->0@ == self@.chosen()->0,
    {
        if self.selected < self.sessions.len() {
            Some(self.sessions[self.selected].id.as_str())
        } else {
            None
        }
    }
}

/// The open list of voices.
#[derive(Debug)]
pub struct VoicePicker {
    voices: Vec<String>,
    selected: usize,
    current: Option<String>,
}

/// A [`VoicePicker`] with its texts as sequences of characters.
pub struct VoicePickerView {
    /// The voices, in the provider's order.
    pub voices: Seq<Seq<char>>,
    /// The highlighted row.
    pub selected: int,
    /// The voice that is in use.
    pub current: Option<Seq<char>>,
}

impl View for VoicePicker {
    type V = VoicePickerView;

    closed spec fn view(&self) -> VoicePickerView {
        VoicePickerView {
            voices: crate::text::views(self.voices@),
            selected: self.selected as int,
            current: crate::history::session::opt_text(self.current),
        }
    }
}

impl VoicePickerView {
    /// Whether the highlighted row is one of the list.
    pub open spec fn wf(self) -> bool {
        row_is_valid(self.selected, self.voices.len() as int)
    }

    /// The highlighted voice.
    pub open spec fn chosen(self) -> Option<Seq<char>> {
        if 0 <= self.selected < self.voices.len() {
            Some(self.voices[self.selected])
        } else {
            None
        }
    }
}

impl VoicePicker {
    /// Whether the highlighted row is one of the list.
    pub open spec fn wf(&self) -> bool {
        self@.wf()
    }

    /// A picker over the voices, highlighting the current one, or else the first.
    #[must_use]
    pub fn new(voices: Vec<String>, current: Option<String>) -> (r: Self)
        ensures
            r.wf(),
            r@.voices == crate::text::views(voices@),
            r@.current == crate::history::session::opt_text(current),
            r@.selected == opening_row(r@.voices, r@.current),
    {
        let ghost views = crate::text::views(voices@);
        let selected: usize = match &current {
            Some(c) => {
                let mut rows: Vec<&str> = Vec::new();
                let mut i: usize = 0;
                while i < voices.len()
                    invariant
                        i <= voices.len(),
                        views == crate::text::views(voices@),
                        crate::text::views(rows@) =~= views.take(i as int),
                    decreases voices.len() - i,
                {
                    let ghost before = crate::text::views(rows@);
                    rows.push(voices[i].as_str());
                    assert(crate::text::views(rows@) =~= before.push(voices@[i as int]@));
                    assert(views.take(i + 1) =~= views.take(i as int).push(voices@[i as int]@));
                    i = i + 1;
                }
                assert(crate::text::views(rows@) =~= views);
                first_row(rows.as_slice(), c.as_str())
            },
            None => 0,
        };
        VoicePicker { voices, selected, current }
    }

    /// A picker over the voices that the settings offer, or nothing where they offer no choice.
    #[must_use]
    pub fn from_schema(schema: &[SettingDescriptor]) -> (r: Option<Self>)
        ensures
            r is Some == offered_voices(crate::text::views(schema@)) is Some,
            r is Some ==> ({
                let views = crate::text::views(schema@);
                &&& r->0.wf()
                &&& r->0@.voices == offered_voices(views)->0
                &&& r->0@.current == voice_in_use(views)
                &&& r->0@.selected == opening_row(r->0@.voices, r->0@.current)
            }),
    {
        let ghost views = crate::text::views(schema@);
        match voice_setting(schema) {
            None => None,
            Some(k) => {
                assert(views[k as int] == schema@[k as int]@);
                match &schema[k].kind {
                    SettingKind::Choice { options } => {
                        let voices: Vec<String> = copy_texts(options.as_slice());
                        Some(VoicePicker::new(voices, current_voice(schema)))
                    },
                    _ => None,
                }
            },
        }
    }

    /// The voices, in the provider's order.
    #[must_use]
    pub fn voices(&self) -> (r: &[String])
        ensures
            crate::text::views(r@) == self@.voices,
    {
        self.voices.as_slice()
    }

    /// The voice that is in use.
    #[must_use]
    pub fn current(&self) -> (r: Option<&str>)
        ensures
            r is Some == self@.current is Some,
            r is Some ==> r->0@ == self@.current->0,
    {
        match &self.current {
            Some(c) => Some(c.as_str()),
            None => None,
        }
    }

    /// The highlighted row.
    #[must_use]
    pub fn selected(&self) -> (r: usize)
        ensures
            r == self@.selected,
    {
        self.selected
    }

    /// Whether there is nothing to show.
    #[must_use]
    pub fn is_empty(&self) -> (r: bool)
        ensures
            r == (self@.voices.len() == 0),
    {
        self.voices.len() == 0
    }

    /// Move the highlight up.
    pub fn up(&mut self)
        requires
            old(self).wf(),
        ensures
            final(self).wf(),
            final(self)@ == (VoicePickerView {
                selected: row_above(old(self)@.selected),
                ..old(self)@
            }),
    {
        if self.selected > 0 {
            self.selected = self.selected - 1;
        }
    }

    /// Move the highlight down.
    pub fn down(&mut self)
        requires
            old(self).wf(),
        ensures
            final(self).wf(),
            final(self)@ == (VoicePickerView {
                selected: row_below(old(self)@.selected, old(self)@.voices.len() as int),
                ..old(self)@
            }),
    {
        let rows: usize = self.voices.len();
        if rows > 0 && self.selected < rows - 1 {
            self.selected = self.selected + 1;
        }
    }

    /// The highlighted voice.
    #[must_use]
    pub fn selected_voice(&self) -> (r: Option<&str>)
        ensures
            r is Some == self@.chosen() is Some,
            r is Some ==> r->0@ == self@.chosen()->0,
    {
        if self.selected < self.voices.len() {
            Some(self.voices[self.selected].as_str())
        } else {
            None
        }
    }
}

fn copy_texts(texts: &[String]) -> (r: Vec<String>)
    ensures
        crate::text::views(r@) == crate::text::views(texts@),
{
    let mut out: Vec<String> = Vec::new();
    let mut i: usize = 0;
    while i < texts.len()
        invariant
            i <= texts.len(),
            crate::text::views(out@) =~= crate::text::views(texts@).take(i as int),
        decreases texts.len() - i,
    {
        let ghost before = crate::text::views(out@);
        out.push(texts[i].clone());
        proof {
            let all = crate::text::views(texts@);
            assert(crate::text::views(out@) =~= before.push(texts@[i as int]@));
            assert(all.take(i + 1) =~= all.take(i as int).push(texts@[i as int]@));
        }
        i = i + 1;
    }
    assert(crate::text::views(out@) =~= crate::text::views(texts@));
    out
}

/// The index of the first voice setting, or the length.
pub open spec fn voice_at(schema: Seq<DescriptorView>) -> int
    decreases schema.len(),
{
    if schema.len() == 0 || schema[0].id == SettingId::Voice {
        0
    } else {
        1 + voice_at(schema.drop_first())
    }
}

/// The voices that the voice setting offers, where it is a choice.
pub open spec fn offered_voices(schema: Seq<DescriptorView>) -> Option<Seq<Seq<char>>> {
    let k = voice_at(schema);
    if k < schema.len() {
        match schema[k].kind {
            KindView::Choice { options } => Some(options),
            _ => None,
        }
    } else {
        None
    }
}

/// The voice that the voice setting holds, where it is a text that is not empty.
pub open spec fn voice_in_use(schema: Seq<DescriptorView>) -> Option<Seq<char>> {
    let k = voice_at(schema);
    if k < schema.len() {
        match schema[k].value {
            ValueView::Text(v) => if v.len() > 0 {
                Some(v)
            } else {
                None
            },
            _ => None,
        }
    } else {
        None
    }
}

fn voice_setting(schema: &[SettingDescriptor]) -> (r: Option<usize>)
    ensures
        0 <= voice_at(crate::text::views(schema@)) <= schema@.len(),
        r is Some == (voice_at(crate::text::views(schema@)) < schema@.len()),
        r is Some ==> r->0 == voice_at(crate::text::views(schema@)),
{
    let ghost views = crate::text::views(schema@);
    let mut i: usize = 0;
    assert(views.skip(0) =~= views);
    while i < schema.len()
        invariant
            i <= schema.len(),
            views == crate::text::views(schema@),
            voice_at(views) == i + voice_at(views.skip(i as int)),
        decreases schema.len() - i,
    {
        assert(views.skip(i as int)[0] == schema@[i as int]@);
        if schema[i].id == SettingId::Voice {
            return Some(i);
        }
        assert(views.skip(i as int).drop_first() =~= views.skip(i + 1));
        i = i + 1;
    }
    None
}

/// The voice that the settings say is in use, or nothing for the model's own.
#[must_use]
pub fn current_voice(schema: &[SettingDescriptor]) -> (r: Option<String>)
    ensures
        crate::history::session::opt_text(r) == voice_in_use(crate::text::views(schema@)),
{
    let ghost views = crate::text::views(schema@);
    match voice_setting(schema) {
        None => None,
        Some(k) => {
            assert(views[k as int] == schema@[k as int]@);
            match &schema[k].value {
                SettingValue::Text(v) => {
                    if v.as_str().is_empty() {
                        None
                    } else {
                        Some(v.clone())
                    }
                },
                _ => None,
            }
        },
    }
}

/// A picker opens on the session that is in use, where the list holds it.
pub proof fn law_picker_opens_on_the_current(rows: Seq<Seq<char>>, current: Seq<char>)
    requires
        rows.contains(current),
    ensures
        0 <= opening_row(rows, Some(current)) < rows.len(),
        rows[opening_row(rows, Some(current))] == current,
{
    rows.index_of_first_ensures(current);
}

/// However often it moves, the highlight stays on a row of the list.
pub proof fn law_highlight_stays_in_list(selected: int, rows: int)
    requires
        row_is_valid(selected, rows),
    ensures
        row_is_valid(row_above(selected), rows),
        row_is_valid(row_below(selected, rows), rows),
{
}

/// The highlight moves to the row above or below while there is one, and confirming chooses the
/// highlighted row.
pub proof fn law_highlight_moves_by_one(p: PickerView, v: VoicePickerView)
    requires
        p.wf(),
        v.wf(),
    ensures
        p.stepped_up().sessions == p.sessions && p.stepped_down().sessions == p.sessions,
        p.stepped_up().current_id == p.current_id && p.stepped_down().current_id == p.current_id,
        p.selected > 0 ==> p.stepped_up().selected == p.selected - 1,
        p.selected == 0 ==> p.stepped_up().selected == 0,
        p.selected + 1 < p.sessions.len() ==> p.stepped_down().selected == p.selected + 1,
        p.selected + 1 >= p.sessions.len() ==> p.stepped_down().selected == p.selected,
        p.sessions.len() > 0 ==> p.chosen() == Some(p.sessions[p.selected].id),
        p.sessions.len() == 0 ==> p.chosen() is None,
        v.voices.len() > 0 ==> v.chosen() == Some(v.voices[v.selected]),
        v.voices.len() == 0 ==> v.chosen() is None,
{
}

/// A list opens on the first row that is the current one, and on the first row where none is.
pub proof fn law_opening_row(rows: Seq<Seq<char>>, current: Seq<char>, i: int)
    ensures
        opening_row(rows, None) == 0,
        (forall|j: int| 0 <= j < rows.len() ==> #[trigger] rows[j] != current) ==> opening_row(
            rows,
            Some(current),
        ) == 0,
        (0 <= i < rows.len() && rows[i] == current && forall|j: int|
            0 <= j < i ==> #[trigger] rows[j] != current) ==> opening_row(rows, Some(current)) == i,
{
    if 0 <= i < rows.len() && rows[i] == current {
        rows.index_of_first_ensures(current);
    }
}

/// The voices that can be chosen, and the one in use, come from the first voice setting, where it is a
/// choice and holds a text.
pub proof fn law_voices_of_the_settings(
    before: Seq<DescriptorView>,
    setting: DescriptorView,
    rest: Seq<DescriptorView>,
)
    requires
        forall|i: int| 0 <= i < before.len() ==> (#[trigger] before[i]).id != SettingId::Voice,
        setting.id == SettingId::Voice,
    ensures
        setting.kind matches KindView::Choice { options } ==> offered_voices(
            before + seq![setting] + rest,
        ) == Some(options),
        !(setting.kind is Choice) ==> offered_voices(before + seq![setting] + rest) is None,
        setting.value matches ValueView::Text(t) ==> (t.len() > 0 ==> voice_in_use(
            before + seq![setting] + rest,
        ) == Some(t)) && (t.len() == 0 ==> voice_in_use(before + seq![setting] + rest) is None),
        !(setting.value is Text) ==> voice_in_use(before + seq![setting] + rest) is None,
        offered_voices(before) is None,
        voice_in_use(before) is None,
{
    lemma_voice_stands_behind(before, seq![setting] + rest);
    assert(before + (seq![setting] + rest) =~= before + seq![setting] + rest);
    lemma_voice_stands_behind(before, Seq::empty());
    assert(before + Seq::<DescriptorView>::empty() =~= before);
    assert((before + seq![setting] + rest)[before.len() as int] == setting);
}

proof fn lemma_voice_stands_behind(before: Seq<DescriptorView>, rest: Seq<DescriptorView>)
    requires
        forall|i: int| 0 <= i < before.len() ==> (#[trigger] before[i]).id != SettingId::Voice,
        rest.len() > 0 ==> rest[0].id == SettingId::Voice,
    ensures
        voice_at(before + rest) == before.len(),
    decreases before.len(),
{
    if before.len() > 0 {
        assert((before + rest)[0] == before[0]);
        assert((before + rest).drop_first() =~= before.drop_first() + rest);
        lemma_voice_stands_behind(before.drop_first(), rest);
    } else {
        assert(before + rest =~= rest);
    }
}

} // verus!
