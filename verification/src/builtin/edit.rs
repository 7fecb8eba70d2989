//! Edits of a text: by line tags, and by exact text.
use vstd::prelude::*;
use vstd::string::*;

use super::lines::{locate_tag, split_lines_preserving, LineView, TextLine};

verus! {

/// `s` with `new` in place of its first `pat`.
pub open spec fn once_replaced(s: Seq<char>, pat: Seq<char>, new: Seq<char>) -> Seq<char> {
    match crate::text::first_of(s, pat) {
        Some(k) => s.subrange(0, k) + new + s.subrange(k + pat.len(), s.len() as int),
        None => s,
    }
}

/// `s` with `new` before each of its characters and at its end.
pub open spec fn interspersed(s: Seq<char>, new: Seq<char>) -> Seq<char>
    decreases s.len(),
{
    if s.len() == 0 {
        new
    } else {
        new + seq![s[0]] + interspersed(s.drop_first(), new)
    }
}

/// `s` with `new` in place of every `pat`, from the left, none overlapping another. The empty text
/// occurs before every character and at the end.
pub open spec fn all_replaced(s: Seq<char>, pat: Seq<char>, new: Seq<char>) -> Seq<char>
    decreases s.len(),
{
    if pat.len() == 0 {
        interspersed(s, new)
    } else if s.len() == 0 {
        s
    } else if crate::text::has_prefix(s, pat) {
        new + all_replaced(s.skip(pat.len() as int), pat, new)
    } else {
        seq![s[0]] + all_replaced(s.drop_first(), pat, new)
    }
}

/// `text` with `new` in place of its first `pat`.
pub fn replace_first(text: &str, pat: &str, new: &str) -> (r: String)
    ensures
        r@ == once_replaced(text@, pat@, new@),
{
    let s: Vec<char> = crate::text::to_chars(text);
    let p: Vec<char> = crate::text::to_chars(pat);
    let found: Option<usize> = crate::text::find(s.as_slice(), p.as_slice());
    match found {
        Some(k) => {
            let total: usize = s.len();
            let mut out: String = crate::text::from_chars(
                vstd::slice::slice_subrange(s.as_slice(), 0, k),
            );
            out.append(new);
            let tail: String = crate::text::from_chars(
                vstd::slice::slice_subrange(s.as_slice(), k + p.len(), total),
            );
            out.append(tail.as_str());
            out
        },
        None => text.to_owned(),
    }
}

/// `text` with `new` in place of every `pat`.
pub fn replace_all(text: &str, pat: &str, new: &str) -> (r: String)
    ensures
        r@ == all_replaced(text@, pat@, new@),
{
    let s: Vec<char> = crate::text::to_chars(text);
    let p: Vec<char> = crate::text::to_chars(pat);
    let ghost all = text@;
    let mut out: String = String::new();
    let mut i: usize = 0;
    proof {
        assert(all.skip(0) =~= all);
    }
    if p.len() == 0 {
        proof {
            assert(out@ + interspersed(all, new@) =~= interspersed(all, new@));
        }
        while i < s.len()
            invariant
                i <= s.len(),
                s@ == all,
                out@ + interspersed(all.skip(i as int), new@) == interspersed(all, new@),
            decreases s.len() - i,
        {
            let ghost before = out@;
            out.append(new);
            out.push(s[i]);
            proof {
                let rest = all.skip(i as int);
                assert(rest.drop_first() =~= all.skip(i + 1));
                let tail = interspersed(all.skip(i + 1), new@);
                assert(out@ + tail =~= before + (new@ + seq![rest[0]] + tail));
            }
            i = i + 1;
        }
        out.append(new);
        proof {
            assert(all.skip(i as int) =~= Seq::empty());
        }
        return out;
    }
    proof {
        assert(out@ + all_replaced(all, pat@, new@) =~= all_replaced(all, pat@, new@));
    }
    while i < s.len()
        invariant
            i <= s.len(),
            s@ == all,
            p@ == pat@,
            p@.len() > 0,
            out@ + all_replaced(all.skip(i as int), pat@, new@) == all_replaced(all, pat@, new@),
        decreases s.len() - i,
    {
        let ghost before = out@;
        let ghost rest = all.skip(i as int);
        if crate::text::stands_at(s.as_slice(), i, p.as_slice()) {
            out.append(new);
            proof {
                assert(rest.skip(pat@.len() as int) =~= all.skip(i + pat@.len()));
                let tail = all_replaced(all.skip(i + pat@.len()), pat@, new@);
                assert(out@ + tail =~= before + (new@ + tail));
            }
            i = i + p.len();
        } else {
            out.push(s[i]);
            proof {
                assert(rest.drop_first() =~= all.skip(i + 1));
                let tail = all_replaced(all.skip(i + 1), pat@, new@);
                assert(out@ + tail =~= before + (seq![rest[0]] + tail));
            }
            i = i + 1;
        }
    }
    proof {
        assert(all.skip(i as int) =~= Seq::empty());
        assert(out@ + Seq::<char>::empty() =~= out@);
    }
    out
}

/// A text with every line ending written as `eol`; without one to write, as a line feed.
pub open spec fn with_endings(text: Seq<char>, eol: Seq<char>) -> Seq<char> {
    let plain = all_replaced(
        all_replaced(text, seq!['\r', '\n'], seq!['\n']),
        seq!['\r'],
        seq!['\n'],
    );
    if eol == seq!['\n'] || eol.len() == 0 {
        plain
    } else {
        all_replaced(plain, seq!['\n'], eol)
    }
}

/// A text with every line ending written as `eol`; without one to write, as a line feed.
pub fn normalize_newlines(text: &str, eol: &str) -> (r: String)
    ensures
        r@ == with_endings(text@, eol@),
{
    proof {
        reveal_strlit("\r\n");
        reveal_strlit("\n");
        reveal_strlit("\r");
        assert("\r\n"@ =~= seq!['\r', '\n']);
        assert("\n"@ =~= seq!['\n']);
        assert("\r"@ =~= seq!['\r']);
    }
    let a: String = replace_all(text, "\r\n", "\n");
    let plain: String = replace_all(a.as_str(), "\r", "\n");
    if crate::text::same(eol, "\n") || eol.is_empty() {
        plain
    } else {
        replace_all(plain.as_str(), "\n", eol)
    }
}

/// Whether `s` ends with `p`.
pub open spec fn has_suffix(s: Seq<char>, p: Seq<char>) -> bool {
    p.len() <= s.len() && s.skip(s.len() - p.len()) == p
}

/// Whether `s` ends with `p`.
pub fn ends_with(s: &str, p: &str) -> (r: bool)
    ensures
        r == has_suffix(s@, p@),
{
    let a: Vec<char> = crate::text::to_chars(s);
    let b: Vec<char> = crate::text::to_chars(p);
    if b.len() > a.len() {
        return false;
    }
    let at: usize = a.len() - b.len();
    let r: bool = crate::text::stands_at(a.as_slice(), at, b.as_slice());
    proof {
        let rest = s@.skip(at as int);
        assert(rest.subrange(0, p@.len() as int) =~= rest);
    }
    r
}

/// New text as it goes into a file whose lines end in `eol`: nothing stays nothing, anything else
/// ends in `eol`.
pub open spec fn block(new: Seq<char>, eol: Seq<char>) -> Seq<char> {
    let text = with_endings(new, eol);
    if new.len() == 0 {
        Seq::empty()
    } else if eol.len() == 0 || has_suffix(text, eol) {
        text
    } else {
        text + eol
    }
}

/// New text as it goes into a file whose lines end in `trailing_eol`.
pub fn line_edit_block(new: &str, trailing_eol: &str) -> (r: String)
    ensures
        r@ == block(new@, trailing_eol@),
{
    if new.is_empty() {
        return String::new();
    }
    let text: String = normalize_newlines(new, trailing_eol);
    if trailing_eol.is_empty() || ends_with(text.as_str(), trailing_eol) {
        text
    } else {
        crate::text::join2(text.as_str(), trailing_eol)
    }
}

/// The ending of the first line that has one, else a line feed.
pub open spec fn ending_of(lines: Seq<LineView>) -> Seq<char>
    decreases lines.len(),
{
    if lines.len() == 0 {
        seq!['\n']
    } else if lines[0].eol.len() > 0 {
        lines[0].eol
    } else {
        ending_of(lines.drop_first())
    }
}

/// The ending of the first line that has one, else a line feed.
pub fn file_eol(lines: &[TextLine]) -> (r: String)
    ensures
        r@ == ending_of(crate::text::views(lines@)),
{
    let ghost all = crate::text::views(lines@);
    let mut i: usize = 0;
    proof {
        assert(all.skip(0) =~= all);
    }
    while i < lines.len()
        invariant
            i <= lines.len(),
            all == crate::text::views(lines@),
            ending_of(all) == ending_of(all.skip(i as int)),
        decreases lines.len() - i,
    {
        proof {
            assert(all.skip(i as int)[0] == lines@[i as int]@);
            assert(all.skip(i as int).drop_first() =~= all.skip(i + 1));
        }
        if !lines[i].eol.as_str().is_empty() {
            return lines[i].eol.clone();
        }
        i = i + 1;
    }
    let mut out: String = String::new();
    out.push('\n');
    assert(out@ =~= seq!['\n']);
    out
}

/// Append a run of lines as they stand in the file.
fn append_lines(out: &mut String, lines: &[TextLine], from: usize, to: usize)
    requires
        from <= to <= lines@.len(),
    ensures
        final(out)@ == old(out)@ + super::lines::put_together(
            crate::text::views(lines@).subrange(from as int, to as int),
        ),
{
    let ghost all = crate::text::views(lines@);
    let ghost start = out@;
    let mut i: usize = from;
    proof {
        assert(all.subrange(from as int, from as int) =~= Seq::empty());
        assert(start + Seq::<char>::empty() =~= start);
    }
    while i < to
        invariant
            from <= i <= to <= lines@.len(),
            all == crate::text::views(lines@),
            start == old(out)@,
            out@ == start + super::lines::put_together(all.subrange(from as int, i as int)),
        decreases to - i,
    {
        let ghost before = out@;
        out.append(lines[i].body.as_str());
        out.append(lines[i].eol.as_str());
        proof {
            let next = all.subrange(from as int, i + 1);
            assert(next.drop_last() =~= all.subrange(from as int, i as int));
            assert(next.last() == lines@[i as int]@);
            assert(out@ =~= before + lines@[i as int]@.whole());
            assert(out@ =~= start + (super::lines::put_together(next.drop_last())
                + next.last().whole()));
        }
        i = i + 1;
    }
}

/// A text after the lines from one tag to another were replaced, or why they were not.
pub open spec fn range_replaced(
    lines: Seq<LineView>,
    start: Seq<char>,
    end: Seq<char>,
    new: Seq<char>,
) -> Result<Seq<char>, Seq<char>> {
    match super::lines::located(lines, start) {
        Err(why) => Err(why),
        Ok(i) => match super::lines::located(lines, end) {
            Err(why) => Err(why),
            Ok(j) => if j < i {
                Err("end tag comes before start tag"@)
            } else {
                Ok(
                    super::lines::put_together(lines.subrange(0, i)) + block(new, lines[j].eol)
                        + super::lines::put_together(lines.subrange(j + 1, lines.len() as int)),
                )
            },
        },
    }
}

/// Replace the lines from the tag `start` to the tag `end`, both included.
pub fn replace_tag_range(text: &str, start: &str, end: &str, new: &str) -> (r: Result<
    String,
    String,
>)
    ensures
        match range_replaced(super::lines::split(text@), start@, end@, new@) {
            Ok(out) => r matches Ok(s) && s@ == out,
            Err(why) => r matches Err(e) && e@ == why,
        },
{
    let lines: Vec<TextLine> = split_lines_preserving(text);
    let ghost all = super::lines::split(text@);
    let start_idx: usize = match locate_tag(lines.as_slice(), start) {
        Ok(i) => i,
        Err(e) => {
            return Err(e);
        },
    };
    let end_idx: usize = match locate_tag(lines.as_slice(), end) {
        Ok(i) => i,
        Err(e) => {
            return Err(e);
        },
    };
    if end_idx < start_idx {
        return Err("end tag comes before start tag".to_owned());
    }
    assert(all[end_idx as int] == lines@[end_idx as int]@);
    Ok(replace_lines(lines.as_slice(), start_idx, end_idx, new))
}

/// The lines from `from` to `to`, both included, replaced by new text.
fn replace_lines(lines: &[TextLine], from: usize, to: usize, new: &str) -> (r: String)
    requires
        from <= to < lines@.len(),
    ensures
        ({
            let all = crate::text::views(lines@);
            r@ == super::lines::put_together(all.subrange(0, from as int)) + block(
                new@,
                all[to as int].eol,
            ) + super::lines::put_together(all.subrange(to + 1, all.len() as int))
        }),
{
    let ghost all = crate::text::views(lines@);
    let mut out: String = String::new();
    append_lines(&mut out, lines, 0, from);
    proof {
        assert(all[to as int] == lines@[to as int]@);
        let a = super::lines::put_together(all.subrange(0, from as int));
        assert(Seq::<char>::empty() + a =~= a);
    }
    out.append(line_edit_block(new, lines[to].eol.as_str()).as_str());
    append_lines(&mut out, lines, to + 1, lines.len());
    out
}

/// A text after new text was put behind a line, or why it was not. A line without an ending gets
/// the file's.
pub open spec fn inserted_after(
    lines: Seq<LineView>,
    after: Seq<char>,
    new: Seq<char>,
) -> Result<Seq<char>, Seq<char>> {
    match super::lines::located(lines, after) {
        Err(why) => Err(why),
        Ok(i) => {
            let eol = ending_of(lines);
            let own = if lines[i].eol.len() == 0 {
                eol
            } else {
                lines[i].eol
            };
            Ok(
                super::lines::put_together(lines.subrange(0, i)) + lines[i].body + own + block(
                    new,
                    eol,
                ) + super::lines::put_together(lines.subrange(i + 1, lines.len() as int)),
            )
        },
    }
}

/// Put new text behind the line with the tag `after`.
pub fn insert_after_tag(text: &str, after: &str, new: &str) -> (r: Result<String, String>)
    ensures
        match inserted_after(super::lines::split(text@), after@, new@) {
            Ok(out) => r matches Ok(s) && s@ == out,
            Err(why) => r matches Err(e) && e@ == why,
        },
{
    let lines: Vec<TextLine> = split_lines_preserving(text);
    let ghost all = super::lines::split(text@);
    let at: usize = match locate_tag(lines.as_slice(), after) {
        Ok(i) => i,
        Err(e) => {
            return Err(e);
        },
    };
    assert(all[at as int] == lines@[at as int]@);
    Ok(insert_behind(lines.as_slice(), at, new))
}

/// New text put behind line `at`.
fn insert_behind(lines: &[TextLine], at: usize, new: &str) -> (r: String)
    requires
        at < lines@.len(),
    ensures
        ({
            let all = crate::text::views(lines@);
            let eol = ending_of(all);
            let own = if all[at as int].eol.len() == 0 {
                eol
            } else {
                all[at as int].eol
            };
            r@ == super::lines::put_together(all.subrange(0, at as int)) + all[at as int].body + own
                + block(new@, eol) + super::lines::put_together(
                all.subrange(at + 1, all.len() as int),
            )
        }),
{
    let ghost all = crate::text::views(lines@);
    let eol: String = file_eol(lines);
    let mut out: String = String::new();
    append_lines(&mut out, lines, 0, at);
    proof {
        assert(all[at as int] == lines@[at as int]@);
        let a = super::lines::put_together(all.subrange(0, at as int));
        assert(Seq::<char>::empty() + a =~= a);
    }
    out.append(lines[at].body.as_str());
    if lines[at].eol.as_str().is_empty() {
        out.append(eol.as_str());
    } else {
        out.append(lines[at].eol.as_str());
    }
    out.append(line_edit_block(new, eol.as_str()).as_str());
    append_lines(&mut out, lines, at + 1, lines.len());
    out
}

proof fn lemma_nothing_to_replace(s: Seq<char>, pat: Seq<char>, new: Seq<char>)
    requires
        pat.len() > 0,
        forall|i: int| 0 <= i < s.len() ==> #[trigger] s[i] != pat[0],
    ensures
        all_replaced(s, pat, new) == s,
    decreases s.len(),
{
    if s.len() > 0 {
        if crate::text::has_prefix(s, pat) {
            assert(s.subrange(0, pat.len() as int)[0] == pat[0]);
            assert(s[0] != pat[0]);
        }
        let rest = s.drop_first();
        assert forall|i: int| 0 <= i < rest.len() implies #[trigger] rest[i] != pat[0] by {
            assert(rest[i] == s[i + 1]);
        }
        lemma_nothing_to_replace(rest, pat, new);
        assert(seq![s[0]] + rest =~= s);
    }
}

/// Replacing a line by its own text leaves the file as it is. A line whose text holds a carriage
/// return is left out: its returns would be read as line endings.
pub proof fn law_line_replaced_by_itself(text: Seq<char>, i: int)
    requires
        super::lines::split(text).len() <= usize::MAX,
        0 <= i < super::lines::split(text).len(),
        super::lines::split(text)[i].body.len() > 0,
        forall|k: int|
            0 <= k < super::lines::split(text)[i].body.len() ==> (
            #[trigger] super::lines::split(text)[i].body[k]) != '\r' && super::lines::split(
                text,
            )[i].body[k] != '\n',
    ensures
        ({
            let lines = super::lines::split(text);
            let tag = super::lines::tag_of(i, lines[i].body);
            range_replaced(lines, tag, tag, lines[i].body) == Ok::<Seq<char>, Seq<char>>(text)
        }),
{
    let lines = super::lines::split(text);
    let body = lines[i].body;
    let eol = lines[i].eol;
    super::lines::law_shown_tag_is_found(lines, i);
    lemma_nothing_to_replace(body, seq!['\r', '\n'], seq!['\n']);
    lemma_nothing_to_replace(body, seq!['\r'], seq!['\n']);
    lemma_nothing_to_replace(body, seq!['\n'], eol);
    assert(with_endings(body, eol) == body);
    lemma_split_endings(text, i);
    if eol.len() > 0 && has_suffix(body, eol) {
        let tail = body.skip(body.len() - eol.len());
        assert(tail.last() == eol.last());
        assert(body[body.len() - 1] == eol.last());
    }
    assert(block(body, eol) =~= body + eol);
    let a = lines.subrange(0, i);
    let b = lines.subrange(i + 1, lines.len() as int);
    super::lines::law_split_loses_nothing(text);
    super::lines::lemma_put_together(a.push(lines[i]), b);
    assert(a.push(lines[i]) + b =~= lines);
    assert(a.push(lines[i]).drop_last() =~= a);
    assert(super::lines::put_together(a.push(lines[i])) == super::lines::put_together(a)
        + lines[i].whole());
}

proof fn lemma_split_endings(text: Seq<char>, i: int)
    requires
        0 <= i < super::lines::split(text).len(),
    ensures
        ({
            let eol = super::lines::split(text)[i].eol;
            eol.len() == 0 || eol.last() == '\n'
        }),
    decreases text.len(),
{
    crate::text::lemma_first_at(text, '\n');
    let k = crate::text::first_at(text, '\n');
    if text.len() > 0 && k < text.len() {
        let rest = text.subrange(k + 1, text.len() as int);
        if i > 0 {
            lemma_split_endings(rest, i - 1);
            assert(super::lines::split(text)[i] == super::lines::split(rest)[i - 1]);
        }
    }
}

proof fn lemma_passes_over(a: Seq<char>, s: Seq<char>, pat: Seq<char>, new: Seq<char>)
    requires
        pat.len() > 0,
        forall|i: int| 0 <= i < a.len() ==> #[trigger] a[i] != pat[0],
    ensures
        all_replaced(a + s, pat, new) == a + all_replaced(s, pat, new),
    decreases a.len(),
{
    if a.len() == 0 {
        assert(a + s =~= s);
        assert(a + all_replaced(s, pat, new) =~= all_replaced(s, pat, new));
    } else {
        let whole = a + s;
        if crate::text::has_prefix(whole, pat) {
            assert(whole.subrange(0, pat.len() as int)[0] == pat[0]);
            assert(a[0] != pat[0]);
        }
        let rest = a.drop_first();
        assert forall|i: int| 0 <= i < rest.len() implies #[trigger] rest[i] != pat[0] by {
            assert(rest[i] == a[i + 1]);
        }
        lemma_passes_over(rest, s, pat, new);
        assert(whole.drop_first() =~= rest + s);
        assert(seq![a[0]] + (rest + all_replaced(s, pat, new)) =~= a + all_replaced(s, pat, new));
    }
}

proof fn lemma_replaces_at_front(s: Seq<char>, pat: Seq<char>, new: Seq<char>)
    requires
        pat.len() > 0,
    ensures
        all_replaced(pat + s, pat, new) == new + all_replaced(s, pat, new),
{
    assert((pat + s).subrange(0, pat.len() as int) =~= pat);
    assert((pat + s).skip(pat.len() as int) =~= s);
}

/// Replacing all goes on behind each replacement: what stands before the first occurrence stays, the
/// occurrence is replaced, and the rest is treated likewise.
pub proof fn law_every_occurrence_is_replaced(
    a: Seq<char>,
    pat: Seq<char>,
    b: Seq<char>,
    new: Seq<char>,
)
    requires
        pat.len() > 0,
        forall|k: int|
            0 <= k < a.len() ==> #[trigger] (a + pat + b).subrange(k, k + pat.len()) != pat,
    ensures
        all_replaced(a + pat + b, pat, new) == a + new + all_replaced(b, pat, new),
    decreases a.len(),
{
    let s = a + pat + b;
    if a.len() == 0 {
        assert(s =~= pat + b);
        lemma_replaces_at_front(b, pat, new);
        assert(a + new + all_replaced(b, pat, new) =~= new + all_replaced(b, pat, new));
    } else {
        let k: int = 0;
        assert(s.subrange(k, k + pat.len()) != pat);
        let rest = a.drop_first();
        let t = rest + pat + b;
        assert(s.drop_first() =~= t);
        assert forall|k: int| 0 <= k < rest.len() implies #[trigger] t.subrange(k, k + pat.len())
            != pat by {
            assert(t.subrange(k, k + pat.len()) =~= s.subrange(k + 1, k + 1 + pat.len()));
        }
        law_every_occurrence_is_replaced(rest, pat, b, new);
        assert(seq![s[0]] + (rest + new + all_replaced(b, pat, new)) =~= a + new + all_replaced(
            b,
            pat,
            new,
        ));
    }
}

/// A text in which the pattern does not occur stays as it is, whether all or the first is replaced.
pub proof fn law_nothing_to_replace(s: Seq<char>, pat: Seq<char>, new: Seq<char>)
    requires
        pat.len() > 0,
        forall|k: int|
            0 <= k && k + pat.len() <= s.len() ==> #[trigger] s.subrange(k, k + pat.len()) != pat,
    ensures
        all_replaced(s, pat, new) == s,
        once_replaced(s, pat, new) == s,
    decreases s.len(),
{
    crate::text::law_occurs_somewhere(s, pat);
    if s.len() > 0 {
        if crate::text::has_prefix(s, pat) {
            assert(s.subrange(0, pat.len() as int) == pat);
        }
        let rest = s.drop_first();
        assert forall|k: int| 0 <= k && k + pat.len() <= rest.len() implies #[trigger] rest.subrange(
            k,
            k + pat.len(),
        ) != pat by {
            assert(rest.subrange(k, k + pat.len()) =~= s.subrange(k + 1, k + 1 + pat.len()));
        }
        law_nothing_to_replace(rest, pat, new);
        assert(seq![s[0]] + rest =~= s);
    }
}

/// Replacing once replaces the first occurrence, and leaves what stands before and behind it.
pub proof fn law_first_occurrence_is_replaced(
    a: Seq<char>,
    pat: Seq<char>,
    b: Seq<char>,
    new: Seq<char>,
)
    requires
        forall|k: int|
            0 <= k < a.len() ==> #[trigger] (a + pat + b).subrange(k, k + pat.len()) != pat,
    ensures
        once_replaced(a + pat + b, pat, new) == a + new + b,
{
    let s = a + pat + b;
    let at = a.len() as int;
    assert(s.subrange(at, at + pat.len()) =~= pat);
    assert(crate::text::is_at(s, pat, at));
    assert forall|j: int| 0 <= j < at implies !#[trigger] crate::text::is_at(s, pat, j) by {
        assert(s.subrange(j, j + pat.len()) != pat);
    }
    crate::text::lemma_first_of_at(s, pat, at);
    assert(s.subrange(0, at) =~= a);
    assert(s.subrange(at + pat.len(), s.len() as int) =~= b);
}

/// The empty pattern occurs before every character and at the end.
pub proof fn law_empty_pattern_is_everywhere(s: Seq<char>, c: char, new: Seq<char>)
    ensures
        all_replaced(Seq::empty(), Seq::empty(), new) == new,
        all_replaced(s.push(c), Seq::empty(), new) == all_replaced(s, Seq::empty(), new) + seq![c]
            + new,
    decreases s.len(),
{
    if s.len() == 0 {
        assert(s.push(c).drop_first() =~= s);
        assert(s =~= Seq::empty());
        reveal_with_fuel(interspersed, 2);
    } else {
        law_empty_pattern_is_everywhere(s.drop_first(), c, new);
        assert(s.push(c).drop_first() =~= s.drop_first().push(c));
        let t = interspersed(s.drop_first(), new);
        assert(new + seq![s[0]] + (t + seq![c] + new) =~= (new + seq![s[0]] + t) + seq![c] + new);
    }
}

/// The line ending that goes into a file.
pub open spec fn ending(eol: Seq<char>) -> Seq<char> {
    if eol.len() == 0 {
        seq!['\n']
    } else {
        eol
    }
}

/// A text without a line ending in it.
pub open spec fn is_endless(s: Seq<char>) -> bool {
    forall|i: int| 0 <= i < s.len() ==> #[trigger] s[i] != '\r' && s[i] != '\n'
}

proof fn lemma_endings_step(a: Seq<char>, mark: Seq<char>, b: Seq<char>, eol: Seq<char>)
    requires
        is_endless(a),
        mark == seq!['\n'] || mark == seq!['\r', '\n'] || mark == seq!['\r'],
        mark == seq!['\r'] ==> b.len() == 0 || b[0] != '\n',
    ensures
        with_endings(a + mark + b, eol) == a + ending(eol) + with_endings(b, eol),
{
    let crlf = seq!['\r', '\n'];
    let cr = seq!['\r'];
    let lf = seq!['\n'];
    let r1 = all_replaced(b, crlf, lf);
    let r2 = all_replaced(r1, cr, lf);
    // The pairs of return and feed.
    assert(a + mark + b =~= a + (mark + b));
    lemma_passes_over(a, mark + b, crlf, lf);
    let first = if mark == cr {
        cr
    } else {
        lf
    };
    if mark == crlf {
        lemma_replaces_at_front(b, crlf, lf);
    } else if mark == lf {
        lemma_passes_over(lf, b, crlf, lf);
    } else {
        let s = cr + b;
        if crate::text::has_prefix(s, crlf) {
            assert(s.subrange(0, 2)[1] == crlf[1]);
            assert(s[1] == b[0]);
        }
        assert(s.drop_first() =~= b);
        assert(seq![s[0]] =~= cr);
    }
    let after1 = all_replaced(a + mark + b, crlf, lf);
    assert(after1 =~= a + (first + r1));
    // The lone returns.
    lemma_passes_over(a, first + r1, cr, lf);
    if mark == cr {
        lemma_replaces_at_front(r1, cr, lf);
    } else {
        lemma_passes_over(lf, r1, cr, lf);
    }
    let after2 = all_replaced(after1, cr, lf);
    assert(after2 =~= a + (lf + r2));
    // The ending of the file.
    if !(eol == lf || eol.len() == 0) {
        lemma_passes_over(a, lf + r2, lf, eol);
        lemma_replaces_at_front(r2, lf, eol);
        let r3 = all_replaced(r2, lf, eol);
        assert(a + (eol + r3) =~= a + eol + r3);
    } else {
        assert(a + (lf + r2) =~= a + lf + r2);
        if eol.len() > 0 {
            assert(eol == lf);
        }
    }
}

/// Every line ending, be it a line feed, a carriage return or both, becomes the file's own ending, a
/// line feed where it has none, and nothing else changes.
pub proof fn law_endings_become_the_files(a: Seq<char>, b: Seq<char>, eol: Seq<char>)
    requires
        is_endless(a),
    ensures
        with_endings(a, eol) == a,
        with_endings(a + seq!['\n'] + b, eol) == a + ending(eol) + with_endings(b, eol),
        with_endings(a + seq!['\r', '\n'] + b, eol) == a + ending(eol) + with_endings(b, eol),
        b.len() == 0 || b[0] != '\n' ==> with_endings(a + seq!['\r'] + b, eol) == a + ending(eol)
            + with_endings(b, eol),
{
    lemma_nothing_to_replace(a, seq!['\r', '\n'], seq!['\n']);
    lemma_nothing_to_replace(a, seq!['\r'], seq!['\n']);
    lemma_nothing_to_replace(a, seq!['\n'], eol);
    assert(seq!['\n'][0] != seq!['\r'][0]);
    assert(seq!['\r', '\n'].len() != seq!['\r'].len());
    lemma_endings_step(a, seq!['\n'], b, eol);
    lemma_endings_step(a, seq!['\r', '\n'], b, eol);
    if b.len() == 0 || b[0] != '\n' {
        lemma_endings_step(a, seq!['\r'], b, eol);
    }
}

/// New text goes into a file with the file's endings and ends in one: its own where it has one, else one
/// more. Nothing stays nothing, and a single line gets the ending behind it.
pub proof fn law_new_text_ends_its_line(new: Seq<char>, eol: Seq<char>)
    ensures
        block(Seq::empty(), eol).len() == 0,
        new.len() > 0 && eol.len() > 0 ==> block(new, eol).len() >= eol.len() && block(new, eol).skip(
            block(new, eol).len() - eol.len(),
        ) == eol,
        new.len() > 0 ==> block(new, eol) == with_endings(new, eol) || block(new, eol)
            == with_endings(new, eol) + eol,
        new.len() > 0 && eol.len() > 0 && with_endings(new, eol).len() >= eol.len() && with_endings(
            new,
            eol,
        ).skip(with_endings(new, eol).len() - eol.len()) == eol ==> block(new, eol) == with_endings(
            new,
            eol,
        ),
        new.len() > 0 && eol.len() == 0 ==> block(new, eol) == with_endings(new, eol),
        new.len() > 0 && is_endless(new) && (eol == seq!['\n'] || eol == seq!['\r', '\n']) ==> block(
            new,
            eol,
        ) == new + eol,
{
    let text = with_endings(new, eol);
    assert((text + eol).skip((text + eol).len() - eol.len()) =~= eol);
    if new.len() > 0 && is_endless(new) && (eol == seq!['\n'] || eol == seq!['\r', '\n']) {
        law_endings_become_the_files(new, Seq::empty(), eol);
        if has_suffix(text, eol) {
            assert(text.skip(text.len() - eol.len()).last() == eol.last());
            assert(new[new.len() - 1] == '\n');
        }
    }
}

/// A file's ending is that of its first line that has one, and a line feed where none has.
pub proof fn law_file_ending_is_the_first(lines: Seq<LineView>, k: int)
    requires
        0 <= k <= lines.len(),
        forall|i: int| 0 <= i < k ==> (#[trigger] lines[i]).eol.len() == 0,
        k < lines.len() ==> lines[k].eol.len() > 0,
    ensures
        k < lines.len() ==> ending_of(lines) == lines[k].eol,
        k == lines.len() ==> ending_of(lines) == seq!['\n'],
    decreases lines.len(),
{
    if lines.len() > 0 && k > 0 {
        assert(lines[0].eol.len() == 0);
        let rest = lines.drop_first();
        assert forall|i: int| 0 <= i < k - 1 implies (#[trigger] rest[i]).eol.len() == 0 by {
            assert(rest[i] == lines[i + 1]);
        }
        law_file_ending_is_the_first(rest, k - 1);
    }
}

/// A range of lines named by the tags that they are shown with is replaced as a whole: the lines before
/// and behind it stay as they are, and in its place stands the new text with the ending of its last
/// line; without new text the lines are gone. A range that ends before it starts is refused.
pub proof fn law_range_is_replaced_as_a_whole(text: Seq<char>, i: int, j: int, new: Seq<char>)
    requires
        super::lines::split(text).len() <= usize::MAX,
        0 <= i < super::lines::split(text).len(),
        0 <= j < super::lines::split(text).len(),
    ensures
        ({
            let lines = super::lines::split(text);
            let start = super::lines::tag_of(i, lines[i].body);
            let end = super::lines::tag_of(j, lines[j].body);
            let before = super::lines::put_together(lines.take(i));
            let behind = super::lines::put_together(lines.skip(j + 1));
            &&& j < i ==> range_replaced(lines, start, end, new) == Err::<Seq<char>, Seq<char>>(
                "end tag comes before start tag"@,
            )
            &&& i <= j && new.len() == 0 ==> range_replaced(lines, start, end, new) == Ok::<
                Seq<char>,
                Seq<char>,
            >(before + behind)
            &&& i <= j && new.len() > 0 && is_endless(new) ==> range_replaced(lines, start, end, new)
                == Ok::<Seq<char>, Seq<char>>(before + (new + lines[j].eol) + behind)
            &&& i <= j ==> before + super::lines::put_together(lines.subrange(i, j + 1)) + behind == text
        }),
{
    let lines = super::lines::split(text);
    super::lines::law_shown_tag_is_found(lines, i);
    super::lines::law_shown_tag_is_found(lines, j);
    assert(lines.subrange(0, i) =~= lines.take(i));
    assert(lines.subrange(j + 1, lines.len() as int) =~= lines.skip(j + 1));
    if i <= j {
        let before = super::lines::put_together(lines.take(i));
        let behind = super::lines::put_together(lines.skip(j + 1));
        let eol = lines[j].eol;
        if new.len() == 0 {
            assert(new =~= Seq::empty());
            law_new_text_ends_its_line(new, eol);
            assert(block(new, eol) =~= Seq::empty());
            assert(before + Seq::<char>::empty() + behind =~= before + behind);
        } else if is_endless(new) {
            super::lines::lemma_split_eol(text, j);
            law_endings_become_the_files(new, Seq::empty(), eol);
            law_new_text_ends_its_line(new, eol);
            assert(block(new, eol) =~= new + eol);
        }
        super::lines::law_split_loses_nothing(text);
        super::lines::lemma_put_together(lines.take(i), lines.subrange(i, j + 1));
        super::lines::lemma_put_together(lines.take(i) + lines.subrange(i, j + 1), lines.skip(j + 1));
        assert(lines.take(i) + lines.subrange(i, j + 1) + lines.skip(j + 1) =~= lines);
    }
}

/// New text put behind a line that is named by the tag that it is shown with stands right behind it, on
/// lines of its own; every line stays as it is, but that a last line without an ending gets the file's.
pub proof fn law_text_is_put_behind_its_line(text: Seq<char>, i: int, new: Seq<char>)
    requires
        super::lines::split(text).len() <= usize::MAX,
        0 <= i < super::lines::split(text).len(),
    ensures
        ({
            let lines = super::lines::split(text);
            let tag = super::lines::tag_of(i, lines[i].body);
            let eol = ending_of(lines);
            let upto = super::lines::put_together(lines.take(i + 1));
            let behind = super::lines::put_together(lines.skip(i + 1));
            &&& inserted_after(lines, tag, new) == Ok::<Seq<char>, Seq<char>>(
                (if lines[i].eol.len() == 0 {
                    upto + eol
                } else {
                    upto
                }) + block(new, eol) + behind,
            )
            &&& upto + behind == text
        }),
{
    let lines = super::lines::split(text);
    super::lines::law_shown_tag_is_found(lines, i);
    super::lines::law_split_loses_nothing(text);
    assert(lines.subrange(0, i) =~= lines.take(i));
    assert(lines.subrange(i + 1, lines.len() as int) =~= lines.skip(i + 1));
    assert(lines.take(i + 1).drop_last() =~= lines.take(i));
    super::lines::lemma_put_together(lines.take(i + 1), lines.skip(i + 1));
    assert(lines.take(i + 1) + lines.skip(i + 1) =~= lines);
    let eol = ending_of(lines);
    let before = super::lines::put_together(lines.take(i));
    let upto = super::lines::put_together(lines.take(i + 1));
    assert(upto == before + lines[i].whole());
    if lines[i].eol.len() == 0 {
        assert(upto + eol =~= before + lines[i].body + eol);
    } else {
        assert(upto =~= before + lines[i].body + lines[i].eol);
    }
}

} // verus!
