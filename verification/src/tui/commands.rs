//! The slash commands, and which of them a typed text suggests.
use vstd::prelude::*;
use vstd::string::*;

verus! {

/// One command that can be run from the prompt.
#[derive(Debug, Clone, Copy, PartialEq, Eq)]
pub struct SlashCommand {
    /// The command with its slash, such as `/resume`.
    pub name: &'static str,
    /// What it does, in one line.
    pub help: &'static str,
}

/// A [`SlashCommand`] with its texts as sequences of characters.
pub struct SlashCommandView {
    /// The command with its slash.
    pub name: Seq<char>,
    /// What it does.
    pub help: Seq<char>,
}

impl View for SlashCommand {
    type V = SlashCommandView;

    open spec fn view(&self) -> SlashCommandView {
        SlashCommandView { name: self.name@, help: self.help@ }
    }
}

/// Every command, in display order.
pub open spec fn catalog() -> Seq<SlashCommandView> {
    seq![
        SlashCommandView { name: "/resume"@, help: "list & resume a session"@ },
        SlashCommandView { name: "/new"@, help: "start a fresh session"@ },
        SlashCommandView { name: "/exit"@, help: "quit (or /quit, /q)"@ },
    ]
}

/// Every command, in display order.
pub fn slash_commands() -> (r: Vec<SlashCommand>)
    ensures
        crate::text::views(r@) == catalog(),
{
    let mut r: Vec<SlashCommand> = Vec::new();
    r.push(SlashCommand { name: "/resume", help: "list & resume a session" });
    r.push(SlashCommand { name: "/new", help: "start a fresh session" });
    r.push(SlashCommand { name: "/exit", help: "quit (or /quit, /q)" });
    assert(crate::text::views(r@) =~= catalog());
    r
}

/// A command without its slash.
pub open spec fn body(c: SlashCommandView) -> Seq<char> {
    crate::text::ascii_lowered(c.name.skip(1))
}

/// What a text asks for: what stands behind the slash that it begins with, without the white space
/// around it and in lower case. A text that begins otherwise asks for nothing.
pub open spec fn needle(query: Seq<char>) -> Option<Seq<char>> {
    let t = query.skip(crate::text::first_word(query));
    if t.len() > 0 && t[0] == '/' {
        Some(crate::text::ascii_lowered(crate::text::trimmed(t.skip(1))))
    } else {
        None
    }
}

/// The commands that begin with the needle.
pub open spec fn beginning_with(commands: Seq<SlashCommandView>, n: Seq<char>) -> Seq<
    SlashCommandView,
> {
    commands.filter(|c: SlashCommandView| crate::text::has_prefix(body(c), n))
}

/// The commands that hold the needle further on.
pub open spec fn holding(commands: Seq<SlashCommandView>, n: Seq<char>) -> Seq<SlashCommandView> {
    commands.filter(
        |c: SlashCommandView|
            !crate::text::has_prefix(body(c), n) && crate::text::occurs(body(c), n),
    )
}

/// The commands that a text suggests: those that begin with what it asks for, and then those that
/// hold it further on, each in display order.
pub open spec fn suggested(query: Seq<char>) -> Seq<SlashCommandView> {
    match needle(query) {
        Some(n) => beginning_with(catalog(), n) + holding(catalog(), n),
        None => Seq::empty(),
    }
}

fn needle_of(query: &str) -> (r: Option<String>)
    ensures
        r is Some == needle(query@) is Some,
        r is Some ==> r->0@ == needle(query@)->0,
{
    let chars: Vec<char> = crate::text::to_chars(query);
    let mut k: usize = 0;
    while k < chars.len() && crate::text::is_whitespace(chars[k])
        invariant
            k <= chars.len(),
            chars@ == query@,
            forall|i: int| 0 <= i < k ==> crate::text::is_space(#[trigger] query@[i]),
        decreases chars.len() - k,
    {
        k = k + 1;
    }
    proof {
        crate::text::lemma_first_word_at(query@, k as int);
    }
    if k >= chars.len() || chars[k] != '/' {
        return None;
    }
    let rest: String = crate::text::from_chars(
        vstd::slice::slice_subrange(chars.as_slice(), k + 1, chars.len()),
    );
    assert(rest@ =~= query@.skip(k as int).skip(1));
    let word: String = crate::text::trim(rest.as_str());
    Some(crate::text::to_ascii_lower(word.as_str()))
}

fn body_of(name: &str) -> (r: String)
    requires
        name@.len() > 0,
    ensures
        r@ == crate::text::ascii_lowered(name@.skip(1)),
{
    let chars: Vec<char> = crate::text::to_chars(name);
    let rest: String = crate::text::from_chars(
        vstd::slice::slice_subrange(chars.as_slice(), 1, chars.len()),
    );
    assert(rest@ =~= name@.skip(1));
    crate::text::to_ascii_lower(rest.as_str())
}

/// The commands that a text suggests.
#[must_use]
pub fn matching(query: &str) -> (r: Vec<SlashCommand>)
    ensures
        crate::text::views(r@) == suggested(query@),
{
    match needle_of(query) {
        None => {
            let none: Vec<SlashCommand> = Vec::new();
            assert(crate::text::views(none@) =~= Seq::empty());
            none
        },
        Some(n) => {
            let all: Vec<SlashCommand> = slash_commands();
            let ghost views = crate::text::views(all@);
            let mut prefix: Vec<SlashCommand> = Vec::new();
            let mut substr: Vec<SlashCommand> = Vec::new();
            let mut i: usize = 0;
            proof {
                reveal_strlit("/resume");
                reveal_strlit("/new");
                reveal_strlit("/exit");
                reveal(Seq::filter);
                assert(crate::text::views(prefix@) =~= beginning_with(views.take(0), n@));
                assert(crate::text::views(substr@) =~= holding(views.take(0), n@));
            }
            while i < all.len()
                invariant
                    i <= all.len(),
                    views == crate::text::views(all@),
                    forall|k: int| 0 <= k < views.len() ==> (#[trigger] views[k]).name.len() > 0,
                    crate::text::views(prefix@) == beginning_with(views.take(i as int), n@),
                    crate::text::views(substr@) == holding(views.take(i as int), n@),
                decreases all.len() - i,
            {
                let ghost p = crate::text::views(prefix@);
                let ghost s = crate::text::views(substr@);
                let c: SlashCommand = all[i];
                assert(c@ == views[i as int]);
                let hay: String = body_of(c.name);
                proof {
                    reveal(Seq::filter);
                    assert(views.take(i + 1).drop_last() =~= views.take(i as int));
                    assert(views.take(i + 1).last() == c@);
                    assert(hay@ == body(c@));
                }
                if crate::text::starts_with(hay.as_str(), n.as_str()) {
                    prefix.push(c);
                    assert(crate::text::views(prefix@) =~= p.push(c@));
                } else if crate::text::contains(hay.as_str(), n.as_str()) {
                    substr.push(c);
                    assert(crate::text::views(substr@) =~= s.push(c@));
                }
                i = i + 1;
            }
            assert(views.take(i as int) =~= views);
            let ghost p = crate::text::views(prefix@);
            let ghost s = crate::text::views(substr@);
            prefix.append(&mut substr);
            assert(crate::text::views(prefix@) =~= p + s);
            prefix
        },
    }
}

/// A text that does not begin with a slash suggests nothing.
pub proof fn law_plain_text_suggests_nothing(query: Seq<char>)
    requires
        query.len() > 0,
        !crate::text::is_space(query[0]),
        query[0] != '/',
    ensures
        suggested(query) == Seq::<SlashCommandView>::empty(),
{
    crate::text::lemma_first_word_at(query, 0);
    assert(query.skip(0) =~= query);
}

/// A slash alone suggests every command, in display order.
pub proof fn law_bare_slash_suggests_all(query: Seq<char>)
    requires
        query == seq!['/'],
    ensures
        suggested(query) == catalog(),
{
    crate::text::lemma_first_word_at(query, 0);
    assert(query.skip(0) =~= query);
    assert(query.skip(1) =~= Seq::<char>::empty());
    crate::text::lemma_trimmed_fixed(Seq::empty());
    let n = needle(query)->0;
    assert(n =~= Seq::<char>::empty());
    assert forall|c: SlashCommandView| #[trigger] crate::text::has_prefix(body(c), n) by {
        assert(body(c).subrange(0, 0) =~= n);
    }
    lemma_all_pass(catalog(), n);
    lemma_none_hold(catalog(), n);
    assert(catalog() + Seq::<SlashCommandView>::empty() =~= catalog());
}

proof fn lemma_all_pass(commands: Seq<SlashCommandView>, n: Seq<char>)
    requires
        forall|c: SlashCommandView| #[trigger] crate::text::has_prefix(body(c), n),
    ensures
        beginning_with(commands, n) == commands,
    decreases commands.len(),
{
    reveal(Seq::filter);
    if commands.len() > 0 {
        lemma_all_pass(commands.drop_last(), n);
        assert(crate::text::has_prefix(body(commands.last()), n));
        assert(commands.drop_last().push(commands.last()) =~= commands);
    } else {
        assert(beginning_with(commands, n) =~= commands);
    }
}

proof fn lemma_none_hold(commands: Seq<SlashCommandView>, n: Seq<char>)
    requires
        forall|c: SlashCommandView| #[trigger] crate::text::has_prefix(body(c), n),
    ensures
        holding(commands, n) == Seq::<SlashCommandView>::empty(),
    decreases commands.len(),
{
    reveal(Seq::filter);
    if commands.len() > 0 {
        lemma_none_hold(commands.drop_last(), n);
        assert(crate::text::has_prefix(body(commands.last()), n));
    }
}

/// The commands that can be typed, in the order in which they are shown.
pub proof fn law_known_commands()
    ensures
        catalog().len() == 3,
        catalog()[0].name == "/resume"@,
        catalog()[1].name == "/new"@,
        catalog()[2].name == "/exit"@,
{
}

/// What a text asks for stands behind its first character that is no white space, which has to be a
/// slash; the white space around it and the case of its letters do not matter.
pub proof fn law_what_a_text_asks_for(before: Seq<char>, rest: Seq<char>)
    requires
        forall|i: int| 0 <= i < before.len() ==> crate::text::is_space(#[trigger] before[i]),
    ensures
        needle(before + seq!['/'] + rest) == Some(
            crate::text::ascii_lowered(crate::text::trimmed(rest)),
        ),
        needle(before) is None,
        rest.len() > 0 && !crate::text::is_space(rest[0]) && rest[0] != '/' ==> needle(before + rest) is None,
{
    let s = before + seq!['/'] + rest;
    crate::text::lemma_first_word_behind(before, seq!['/'] + rest);
    assert(before + (seq!['/'] + rest) =~= s);
    assert(s.skip(before.len() as int) =~= seq!['/'] + rest);
    assert((seq!['/'] + rest).skip(1) =~= rest);
    assert((seq!['/'] + rest)[0] == '/');
    crate::text::lemma_first_word_behind(before, Seq::empty());
    assert(before + Seq::<char>::empty() =~= before);
    if rest.len() > 0 && !crate::text::is_space(rest[0]) {
        crate::text::lemma_first_word_behind(before, rest);
        assert((before + rest).skip(before.len() as int) =~= rest);
    }
}

/// A command is suggested exactly where what the text asks for stands somewhere in its name behind the
/// slash.
pub proof fn law_suggested_commands(query: Seq<char>, c: SlashCommandView)
    requires
        catalog().contains(c),
        needle(query) is Some,
    ensures
        suggested(query).contains(c) == exists|k: int|
            0 <= k && k + needle(query)->0.len() <= crate::text::ascii_lowered(c.name.skip(1)).len()
                && #[trigger] crate::text::ascii_lowered(c.name.skip(1)).subrange(
                k,
                k + needle(query)->0.len(),
            ) == needle(query)->0,
{
    let n = needle(query)->0;
    let b = body(c);
    crate::text::law_occurs_somewhere(b, n);
    let first = |x: SlashCommandView| crate::text::has_prefix(body(x), n);
    let later = |x: SlashCommandView|
        !crate::text::has_prefix(body(x), n) && crate::text::occurs(body(x), n);
    let all = catalog();
    let (front, back) = (beginning_with(all, n), holding(all, n));
    let out = suggested(query);
    let at = choose|at: int| 0 <= at < all.len() && all[at] == c;
    if crate::text::occurs(b, n) {
        if crate::text::has_prefix(b, n) {
            all.lemma_filter_contains(first, at);
            assert(front.contains(c));
            let j = choose|j: int| 0 <= j < front.len() && front[j] == c;
            assert(out[j] == c);
        } else {
            all.lemma_filter_contains(later, at);
            assert(back.contains(c));
            let j = choose|j: int| 0 <= j < back.len() && back[j] == c;
            assert(out[front.len() + j] == c);
        }
    }
    if out.contains(c) {
        let j = choose|j: int| 0 <= j < out.len() && out[j] == c;
        if j < front.len() {
            all.lemma_filter_pred(first, j);
            let k: int = 0;
            assert(b.subrange(k, k + n.len()) == n);
        } else {
            all.lemma_filter_pred(later, j - front.len());
        }
    }
}

/// Of the suggested commands those whose name begins with what the text asks for come first.
pub proof fn law_beginnings_come_first(query: Seq<char>, i: int, j: int)
    requires
        needle(query) is Some,
        0 <= i < j < suggested(query).len(),
        crate::text::has_prefix(
            crate::text::ascii_lowered(suggested(query)[j].name.skip(1)),
            needle(query)->0,
        ),
    ensures
        crate::text::has_prefix(
            crate::text::ascii_lowered(suggested(query)[i].name.skip(1)),
            needle(query)->0,
        ),
{
    let n = needle(query)->0;
    let first = |x: SlashCommandView| crate::text::has_prefix(body(x), n);
    let later = |x: SlashCommandView|
        !crate::text::has_prefix(body(x), n) && crate::text::occurs(body(x), n);
    let all = catalog();
    let (front, back) = (beginning_with(all, n), holding(all, n));
    if j >= front.len() {
        all.lemma_filter_pred(later, j - front.len());
    }
    all.lemma_filter_pred(first, i);
}

} // verus!
