//! The settings that can be changed while Joi runs, and how a change is applied.
use vstd::prelude::*;
use vstd::string::*;

use crate::config::{Config, GeminiCfg, LiveApiCfg, TerminalCfg, UiCfg};
use crate::error::SettingsError;

verus! {

/// When a change takes effect.
#[derive(Debug, Clone, Copy, PartialEq, Eq, Structural)]
pub enum ApplyTiming {
    /// At once.
    Immediate,
    /// When the next session connects.
    NextSession,
    /// After a restart.
    RestartRequired,
}

/// A setting that can be changed.
#[derive(Debug, Clone, Copy, PartialEq, Eq, Hash, Structural)]
pub enum SettingId {
    /// The agent's voice.
    Voice,
    /// The accent color.
    Accent,
    /// The background color.
    Background,
}

impl SettingId {
    /// Every setting, in display order.
    pub open spec fn spec_all() -> Seq<SettingId> {
        seq![SettingId::Voice, SettingId::Accent, SettingId::Background]
    }

    /// Every setting, in display order.
    pub fn all() -> (r: Vec<SettingId>)
        ensures
            r@ == SettingId::spec_all(),
    {
        let r: Vec<SettingId> = vec![SettingId::Voice, SettingId::Accent, SettingId::Background];
        assert(r@ =~= SettingId::spec_all());
        r
    }

    /// A stable name.
    pub open spec fn spec_slug(self) -> Seq<char> {
        match self {
            SettingId::Voice => "voice"@,
            SettingId::Accent => "accent"@,
            SettingId::Background => "background"@,
        }
    }

    /// A stable name.
    #[must_use]
    pub fn slug(self) -> (r: &'static str)
        ensures
            r@ == self.spec_slug(),
    {
        match self {
            SettingId::Voice => "voice",
            SettingId::Accent => "accent",
            SettingId::Background => "background",
        }
    }
}

/// A value of a setting.
#[derive(Debug, Clone, PartialEq, Eq)]
pub enum SettingValue {
    /// A toggle.
    Bool(bool),
    /// A number.
    U32(u32),
    /// A text.
    Text(String),
}

/// A [`SettingValue`] with its text as a sequence of characters.
pub enum ValueView {
    /// A toggle.
    Bool(bool),
    /// A number.
    U32(u32),
    /// A text.
    Text(Seq<char>),
}

impl View for SettingValue {
    type V = ValueView;

    open spec fn view(&self) -> ValueView {
        match self {
            SettingValue::Bool(b) => ValueView::Bool(*b),
            SettingValue::U32(n) => ValueView::U32(*n),
            SettingValue::Text(s) => ValueView::Text(s@),
        }
    }
}

/// The control that a frontend shows for a setting.
#[derive(Debug, Clone, PartialEq, Eq)]
pub enum SettingKind {
    /// An on/off switch.
    Toggle,
    /// One of some options, or a text of one's own.
    Choice {
        /// The options.
        options: Vec<String>,
    },
    /// A number in a range.
    Number {
        /// Smallest value.
        min: u32,
        /// Largest value.
        max: u32,
    },
    /// A color.
    Color,
    /// A text.
    Text,
}

/// A [`SettingKind`] with its options as sequences of characters.
pub enum KindView {
    /// An on/off switch.
    Toggle,
    /// One of some options.
    Choice {
        /// The options.
        options: Seq<Seq<char>>,
    },
    /// A number in a range.
    Number {
        /// Smallest value.
        min: u32,
        /// Largest value.
        max: u32,
    },
    /// A color.
    Color,
    /// A text.
    Text,
}

impl View for SettingKind {
    type V = KindView;

    open spec fn view(&self) -> KindView {
        match self {
            SettingKind::Toggle => KindView::Toggle,
            SettingKind::Choice { options } => KindView::Choice {
                options: crate::text::views(options@),
            },
            SettingKind::Number { min, max } => KindView::Number { min: *min, max: *max },
            SettingKind::Color => KindView::Color,
            SettingKind::Text => KindView::Text,
        }
    }
}

/// One setting as a frontend shows it.
#[derive(Debug, Clone, PartialEq, Eq)]
pub struct SettingDescriptor {
    /// Which setting.
    pub id: SettingId,
    /// Label.
    pub label: String,
    /// Current value.
    pub value: SettingValue,
    /// Control to show.
    pub kind: SettingKind,
    /// When a change takes effect.
    pub apply: ApplyTiming,
}

/// A [`SettingDescriptor`] with its texts as sequences of characters.
pub struct DescriptorView {
    /// Which setting.
    pub id: SettingId,
    /// Label.
    pub label: Seq<char>,
    /// Current value.
    pub value: ValueView,
    /// Control to show.
    pub kind: KindView,
    /// When a change takes effect.
    pub apply: ApplyTiming,
}

impl View for SettingDescriptor {
    type V = DescriptorView;

    open spec fn view(&self) -> DescriptorView {
        DescriptorView {
            id: self.id,
            label: self.label@,
            value: self.value@,
            kind: self.kind@,
            apply: self.apply,
        }
    }
}

/// All settings as a frontend shows them.
pub type SettingsSnapshot = Vec<SettingDescriptor>;

/// What the settings depend on besides the configuration.
#[derive(Debug)]
pub struct SettingsContext {
    /// The voices that the provider offers.
    pub voices: Vec<String>,
}

/// The voices offered where no provider says otherwise.
pub open spec fn known_voices() -> Seq<Seq<char>> {
    seq!["Aoede"@, "Charon"@, "Fenrir"@, "Kore"@, "Puck"@, "Leda"@, "Orus"@, "Zephyr"@]
}

/// The voices offered where no provider says otherwise.
pub fn default_voices() -> (r: Vec<String>)
    ensures
        crate::text::views(r@) == known_voices(),
{
    let r: Vec<String> = vec![
        "Aoede".to_owned(),
        "Charon".to_owned(),
        "Fenrir".to_owned(),
        "Kore".to_owned(),
        "Puck".to_owned(),
        "Leda".to_owned(),
        "Orus".to_owned(),
        "Zephyr".to_owned(),
    ];
    assert(crate::text::views(r@) =~= known_voices());
    r
}

/// The current value of a setting. A voice that is not set shows as an empty text.
pub open spec fn current_text(cfg: Config, id: SettingId) -> Seq<char> {
    match id {
        SettingId::Voice => match cfg.live_api.gemini.voice {
            Some(v) => v@,
            None => Seq::empty(),
        },
        SettingId::Accent => cfg.ui.terminal.accent@,
        SettingId::Background => cfg.ui.terminal.background@,
    }
}

/// A setting as a frontend shows it.
pub open spec fn described(id: SettingId, cfg: Config, voices: Seq<Seq<char>>) -> DescriptorView {
    DescriptorView {
        id,
        label: match id {
            SettingId::Voice => "Voice"@,
            SettingId::Accent => "Accent color"@,
            SettingId::Background => "Background"@,
        },
        value: ValueView::Text(current_text(cfg, id)),
        kind: match id {
            SettingId::Voice => KindView::Choice { options: voices },
            SettingId::Accent => KindView::Color,
            SettingId::Background => KindView::Color,
        },
        apply: match id {
            SettingId::Voice => ApplyTiming::NextSession,
            SettingId::Accent => ApplyTiming::Immediate,
            SettingId::Background => ApplyTiming::Immediate,
        },
    }
}

/// All settings as a frontend shows them: each once, in display order.
pub open spec fn schema_of(cfg: Config, voices: Seq<Seq<char>>) -> Seq<DescriptorView> {
    SettingId::spec_all().map_values(|id: SettingId| described(id, cfg, voices))
}

fn clone_texts(v: &[String]) -> (r: Vec<String>)
    ensures
        crate::text::views(r@) == crate::text::views(v@),
{
    let mut out: Vec<String> = Vec::new();
    let mut i: usize = 0;
    while i < v.len()
        invariant
            i <= v.len(),
            crate::text::views(out@) =~= crate::text::views(v@).take(i as int),
        decreases v.len() - i,
    {
        let ghost before = crate::text::views(out@);
        out.push(v[i].clone());
        i = i + 1;
        assert(crate::text::views(out@) =~= before.push(v@[i - 1]@));
    }
    assert(crate::text::views(v@).take(i as int) =~= crate::text::views(v@));
    out
}

/// A setting as a frontend shows it.
pub fn descriptor(id: SettingId, cfg: &Config, voices: &[String]) -> (r: SettingDescriptor)
    ensures
        r@ == described(id, *cfg, crate::text::views(voices@)),
{
    match id {
        SettingId::Voice => {
            let value: String = match &cfg.live_api.gemini.voice {
                Some(v) => v.clone(),
                None => String::new(),
            };
            SettingDescriptor {
                id,
                label: "Voice".to_owned(),
                value: SettingValue::Text(value),
                kind: SettingKind::Choice { options: clone_texts(voices) },
                apply: ApplyTiming::NextSession,
            }
        },
        SettingId::Accent => SettingDescriptor {
            id,
            label: "Accent color".to_owned(),
            value: SettingValue::Text(cfg.ui.terminal.accent.clone()),
            kind: SettingKind::Color,
            apply: ApplyTiming::Immediate,
        },
        SettingId::Background => SettingDescriptor {
            id,
            label: "Background".to_owned(),
            value: SettingValue::Text(cfg.ui.terminal.background.clone()),
            kind: SettingKind::Color,
            apply: ApplyTiming::Immediate,
        },
    }
}

/// All settings as a frontend shows them, with the voices that the provider offers.
pub fn settings_schema_with(cfg: &Config, ctx: &SettingsContext) -> (r: Vec<SettingDescriptor>)
    ensures
        crate::text::views(r@) == schema_of(*cfg, crate::text::views(ctx.voices@)),
{
    let ids: Vec<SettingId> = SettingId::all();
    let ghost full = schema_of(*cfg, crate::text::views(ctx.voices@));
    let mut out: Vec<SettingDescriptor> = Vec::new();
    let mut i: usize = 0;
    while i < ids.len()
        invariant
            i <= ids.len(),
            ids@ == SettingId::spec_all(),
            full == schema_of(*cfg, crate::text::views(ctx.voices@)),
            crate::text::views(out@) =~= full.take(i as int),
        decreases ids.len() - i,
    {
        let ghost before = crate::text::views(out@);
        out.push(descriptor(ids[i], cfg, ctx.voices.as_slice()));
        i = i + 1;
        proof {
            assert(full[i - 1] == described(ids@[i - 1], *cfg, crate::text::views(ctx.voices@)));
            assert(crate::text::views(out@) =~= before.push(full[i - 1]));
        }
    }
    assert(full.take(i as int) =~= full);
    out
}

/// All settings as a frontend shows them, with the voices that are known everywhere.
#[must_use]
pub fn settings_schema(cfg: &Config) -> (r: Vec<SettingDescriptor>)
    ensures
        crate::text::views(r@) == schema_of(*cfg, known_voices()),
{
    let ctx: SettingsContext = SettingsContext { voices: default_voices() };
    settings_schema_with(cfg, &ctx)
}

/// Why a value is refused, if it is: it must be a text, and a color must not be blank.
pub open spec fn value_flaw(id: SettingId, value: ValueView) -> Option<Seq<char>> {
    match value {
        ValueView::Text(s) => if id != SettingId::Voice && crate::text::trimmed(s).len() == 0 {
            Some("must not be empty"@)
        } else {
            None
        },
        _ => Some("expected a text value"@),
    }
}

/// Why a change is refused, if it is.
pub open spec fn change_flaw(cfg: Config, id: SettingId, value: ValueView) -> Option<Seq<char>> {
    match value_flaw(id, value) {
        Some(why) => Some(why),
        None => match cfg.flaw() {
            Some((field, reason)) => Some(
                "would invalidate config: "@ + ("invalid configuration: "@ + field + ": "@
                    + reason),
            ),
            None => None,
        },
    }
}

/// `after` is `before` with one setting changed to `text`; an empty voice is no voice.
pub open spec fn only_changed(
    before: Config,
    after: Config,
    id: SettingId,
    text: Seq<char>,
) -> bool {
    match id {
        SettingId::Voice => {
            &&& after == (Config {
                live_api: LiveApiCfg {
                    gemini: GeminiCfg {
                        voice: after.live_api.gemini.voice,
                        ..before.live_api.gemini
                    },
                    ..before.live_api
                },
                ..before
            })
            &&& crate::history::session::opt_text(after.live_api.gemini.voice) == (if text.len()
                == 0 {
                None::<Seq<char>>
            } else {
                Some(text)
            })
        },
        SettingId::Accent => {
            &&& after == (Config {
                ui: UiCfg {
                    terminal: TerminalCfg { accent: after.ui.terminal.accent, ..before.ui.terminal },
                },
                ..before
            })
            &&& after.ui.terminal.accent@ == text
        },
        SettingId::Background => {
            &&& after == (Config {
                ui: UiCfg {
                    terminal: TerminalCfg {
                        background: after.ui.terminal.background,
                        ..before.ui.terminal
                    },
                },
                ..before
            })
            &&& after.ui.terminal.background@ == text
        },
    }
}

/// The refusal of a value.
pub open spec fn is_refusal(r: Result<(), SettingsError>, id: SettingId, why: Seq<char>) -> bool {
    r matches Err(SettingsError::InvalidValue { setting, reason }) && setting@ == id.spec_slug()
        && reason@ == why
}

fn refuse(id: SettingId, why: &str) -> (r: Result<(), SettingsError>)
    ensures
        is_refusal(r, id, why@),
{
    Err(SettingsError::InvalidValue { setting: id.slug().to_owned(), reason: why.to_owned() })
}

/// Change one setting. The value loses white space at its ends. Where the value does not fit, or
/// the configuration would not be valid, nothing changes.
pub fn apply_setting(cfg: &mut Config, id: SettingId, value: &SettingValue) -> (r: Result<
    (),
    SettingsError,
>)
    ensures
        match change_flaw(*old(cfg), id, value@) {
            Some(why) => is_refusal(r, id, why) && *final(cfg) == *old(cfg),
            None => r is Ok && only_changed(
                *old(cfg),
                *final(cfg),
                id,
                crate::text::trimmed(value@->Text_0),
            ) && final(cfg).is_valid(),
        },
{
    let text: String = match value {
        SettingValue::Text(s) => crate::text::trim(s.as_str()),
        _ => {
            return refuse(id, "expected a text value");
        },
    };
    if id != SettingId::Voice && text.as_str().is_empty() {
        return refuse(id, "must not be empty");
    }
    match cfg.validate() {
        Ok(()) => {},
        Err(e) => {
            let words: String = e.to_string();
            return refuse(
                id,
                crate::text::join2("would invalidate config: ", words.as_str()).as_str(),
            );
        },
    }
    match id {
        SettingId::Voice => {
            cfg.live_api.gemini.voice =
            if text.as_str().is_empty() {
                None
            } else {
                Some(text)
            };
        },
        SettingId::Accent => {
            cfg.ui.terminal.accent = text;
        },
        SettingId::Background => {
            cfg.ui.terminal.background = text;
        },
    }
    Ok(())
}

/// After a change the schema shows the new value, and every other setting as it was.
pub proof fn law_change_shows_in_schema(
    before: Config,
    after: Config,
    id: SettingId,
    other: SettingId,
    text: Seq<char>,
)
    requires
        only_changed(before, after, id, text),
    ensures
        current_text(after, id) == text,
        other != id ==> current_text(after, other) == current_text(before, other),
{
    if id == SettingId::Voice {
        assert(text.len() == 0 ==> text =~= Seq::empty());
    }
}

/// A setting's own value can be set again and stays what it is, where it has no white space at its
/// ends and, for a color, is not empty.
pub proof fn law_own_value_stays(cfg: Config, id: SettingId)
    requires
        cfg.is_valid(),
        crate::text::trimmed(current_text(cfg, id)) == current_text(cfg, id),
        id != SettingId::Voice ==> current_text(cfg, id).len() > 0,
    ensures
        change_flaw(cfg, id, ValueView::Text(current_text(cfg, id))) is None,
        forall|after: Config| #[trigger]
            only_changed(cfg, after, id, crate::text::trimmed(current_text(cfg, id)))
                ==> current_text(after, id) == current_text(cfg, id),
{
    assert forall|after: Config| #[trigger]
        only_changed(cfg, after, id, crate::text::trimmed(current_text(cfg, id))) implies current_text(
        after,
        id,
    ) == current_text(cfg, id) by {
        law_change_shows_in_schema(cfg, after, id, id, current_text(cfg, id));
    }
}

/// The settings are shown in their order, each with its current value, and say how they are changed and
/// when that takes effect.
pub proof fn law_settings_are_shown(cfg: Config, voices: Seq<Seq<char>>)
    ensures
        schema_of(cfg, voices).len() == 3,
        schema_of(cfg, voices)[0].id is Voice && schema_of(cfg, voices)[1].id is Accent
            && schema_of(cfg, voices)[2].id is Background,
        schema_of(cfg, voices)[0].kind == (KindView::Choice { options: voices }),
        schema_of(cfg, voices)[1].kind is Color && schema_of(cfg, voices)[2].kind is Color,
        schema_of(cfg, voices)[0].apply is NextSession,
        schema_of(cfg, voices)[1].apply is Immediate && schema_of(cfg, voices)[2].apply is Immediate,
        schema_of(cfg, voices)[0].label == "Voice"@,
        schema_of(cfg, voices)[1].label == "Accent color"@,
        schema_of(cfg, voices)[2].label == "Background"@,
        cfg.live_api.gemini.voice matches Some(v) ==> schema_of(cfg, voices)[0].value
            == ValueView::Text(v@),
        cfg.live_api.gemini.voice is None ==> schema_of(cfg, voices)[0].value == ValueView::Text(
            Seq::empty(),
        ),
        schema_of(cfg, voices)[1].value == ValueView::Text(cfg.ui.terminal.accent@),
        schema_of(cfg, voices)[2].value == ValueView::Text(cfg.ui.terminal.background@),
{
}

/// A change of one setting leaves every other value of the configuration as it was, and sets the one
/// that it names; an empty voice takes the voice away.
pub proof fn law_change_touches_one_value(
    before: Config,
    after: Config,
    id: SettingId,
    text: Seq<char>,
)
    requires
        only_changed(before, after, id, text),
    ensures
        after.history == before.history,
        after.logging == before.logging,
        after.media == before.media,
        after.live_api.provider == before.live_api.provider,
        after.live_api.reachability_probe_secs == before.live_api.reachability_probe_secs,
        after.live_api.gemini.model == before.live_api.gemini.model,
        after.live_api.gemini.api_key == before.live_api.gemini.api_key,
        after.live_api.gemini.system_instruction == before.live_api.gemini.system_instruction,
        after.live_api.gemini.input_transcription == before.live_api.gemini.input_transcription,
        after.live_api.gemini.output_transcription == before.live_api.gemini.output_transcription,
        after.ui.terminal.theme == before.ui.terminal.theme,
        after.ui.terminal.font == before.ui.terminal.font,
        after.ui.terminal.scrollback == before.ui.terminal.scrollback,
        after.ui.terminal.tool_accent == before.ui.terminal.tool_accent,
        after.ui.terminal.tool_text == before.ui.terminal.tool_text,
        after.ui.terminal.tool_success == before.ui.terminal.tool_success,
        after.ui.terminal.tool_denied == before.ui.terminal.tool_denied,
        after.ui.terminal.tool_failed == before.ui.terminal.tool_failed,
        !(id is Voice) ==> after.live_api.gemini.voice == before.live_api.gemini.voice,
        !(id is Accent) ==> after.ui.terminal.accent == before.ui.terminal.accent,
        !(id is Background) ==> after.ui.terminal.background == before.ui.terminal.background,
        id is Voice && text.len() == 0 ==> after.live_api.gemini.voice is None,
        id is Voice && text.len() > 0 ==> (after.live_api.gemini.voice matches Some(v) && v@ == text),
        id is Accent ==> after.ui.terminal.accent@ == text,
        id is Background ==> after.ui.terminal.background@ == text,
{
}

/// A value is refused where it is no text, and where it is a blank color; a valid configuration takes
/// every other.
pub proof fn law_refused_values(cfg: Config, id: SettingId, b: bool, n: u32, s: Seq<char>)
    ensures
        change_flaw(cfg, id, ValueView::Bool(b)) == Some("expected a text value"@),
        change_flaw(cfg, id, ValueView::U32(n)) == Some("expected a text value"@),
        crate::text::trimmed(s).len() == 0 && (id is Accent || id is Background) ==> change_flaw(
            cfg,
            id,
            ValueView::Text(s),
        ) == Some("must not be empty"@),
        cfg.is_valid() && (id is Voice || crate::text::trimmed(s).len() > 0) ==> change_flaw(
            cfg,
            id,
            ValueView::Text(s),
        ) is None,
        !cfg.is_valid() ==> change_flaw(cfg, id, ValueView::Text(s)) is Some,
{
}

/// The stable names of the settings, and what a refusal says of them.
pub proof fn law_setting_names(r: Result<(), SettingsError>, id: SettingId, why: Seq<char>)
    requires
        is_refusal(r, id, why),
    ensures
        r matches Err(SettingsError::InvalidValue { setting, reason }) && reason@ == why && (id is Voice
            ==> setting@ == "voice"@) && (id is Accent ==> setting@ == "accent"@) && (id is Background
            ==> setting@ == "background"@),
{
}

} // verus!
