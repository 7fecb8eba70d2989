//! The prompt's line editor: a text and a caret between two of its characters.
use vstd::prelude::*;
use vstd::string::*;

verus! {

/// A text and a caret in it.
#[derive(Debug)]
pub struct Input {
    value: String,
    at: usize,
}

/// An [`Input`] as a sequence of characters and the number of those before the caret.
pub struct InputView {
    /// The text.
    pub text: Seq<char>,
    /// How many characters stand before the caret.
    pub at: int,
}

impl View for Input {
    type V = InputView;

    closed spec fn view(&self) -> InputView {
        InputView { text: self.value@, at: self.at as int }
    }
}

/// The display columns of a text, as `UnicodeWidthStr::width` has them.
pub uninterp spec fn columns_of(text: Seq<char>) -> usize;

/// `UnicodeWidthStr::width`: the display columns of a text. How many each character takes is left
/// to the name.
#[verifier::external_body]
pub(crate) fn columns(text: &str) -> (r: usize)
    ensures
        r == columns_of(text@),
{
    unicode_width::UnicodeWidthStr::width(text)
}

/// One past the last line feed before `at`, or zero.
pub open spec fn line_start(text: Seq<char>, at: int) -> int
    decreases at,
{
    if at <= 0 || at > text.len() {
        0
    } else if text[at - 1] == '\n' {
        at
    } else {
        line_start(text, at - 1)
    }
}

/// The first line feed from `at` on, or the length.
pub open spec fn line_end(text: Seq<char>, at: int) -> int {
    at + crate::text::first_at(text.skip(at), '\n')
}

impl InputView {
    /// Whether the caret stands in the text.
    pub open spec fn wf(self) -> bool {
        0 <= self.at <= self.text.len()
    }

    /// After a character was typed.
    pub open spec fn inserted(self, c: char) -> InputView {
        InputView { text: self.text.insert(self.at, c), at: self.at + 1 }
    }

    /// After the character before the caret was deleted.
    pub open spec fn backspaced(self) -> InputView {
        if self.at > 0 {
            InputView { text: self.text.remove(self.at - 1), at: self.at - 1 }
        } else {
            self
        }
    }

    /// After the character behind the caret was deleted.
    pub open spec fn deleted(self) -> InputView {
        if self.at < self.text.len() {
            InputView { text: self.text.remove(self.at), ..self }
        } else {
            self
        }
    }

    /// After the caret moved left.
    pub open spec fn moved_left(self) -> InputView {
        if self.at > 0 {
            InputView { at: self.at - 1, ..self }
        } else {
            self
        }
    }

    /// After the caret moved right.
    pub open spec fn moved_right(self) -> InputView {
        if self.at < self.text.len() {
            InputView { at: self.at + 1, ..self }
        } else {
            self
        }
    }
}

impl Input {
    /// Whether the caret stands in the text.
    pub open spec fn wf(&self) -> bool {
        self@.wf()
    }

    /// An empty text.
    pub fn new() -> (r: Self)
        ensures
            r.wf(),
            r@ == (InputView { text: Seq::empty(), at: 0 }),
    {
        let r: Input = Input { value: String::new(), at: 0 };
        assert(r@.text =~= Seq::empty());
        r
    }

    /// The text.
    pub fn value(&self) -> (r: &str)
        ensures
            r@ == self@.text,
    {
        self.value.as_str()
    }

    /// Empty the text.
    pub fn clear(&mut self)
        ensures
            final(self).wf(),
            final(self)@ == (InputView { text: Seq::empty(), at: 0 }),
    {
        self.value = String::new();
        self.at = 0;
        assert(self@.text =~= Seq::empty());
    }

    fn before_caret(&self) -> (r: String)
        requires
            self.wf(),
        ensures
            r@ == self@.text.take(self@.at),
    {
        let chars: Vec<char> = crate::text::to_chars(self.value.as_str());
        let r: String = crate::text::from_chars(
            vstd::slice::slice_subrange(chars.as_slice(), 0, self.at),
        );
        assert(r@ =~= self@.text.take(self@.at));
        r
    }

    /// The caret as an offset in bytes, always between two characters.
    pub fn caret(&self) -> (r: usize)
        requires
            self.wf(),
        ensures
            r == vstd::utf8::encode_utf8(self@.text.take(self@.at)).len() as usize,
    {
        let before: String = self.before_caret();
        before.as_str().len()
    }

    /// The display columns before the caret.
    pub fn caret_display_col(&self) -> (r: usize)
        requires
            self.wf(),
        ensures
            r == columns_of(self@.text.take(self@.at)),
    {
        let before: String = self.before_caret();
        columns(before.as_str())
    }

    /// Type a character at the caret.
    pub fn insert(&mut self, c: char)
        requires
            old(self).wf(),
        ensures
            final(self).wf(),
            final(self)@ == old(self)@.inserted(c),
    {
        let mut chars: Vec<char> = crate::text::to_chars(self.value.as_str());
        let at: usize = self.at;
        chars.insert(at, c);
        let total: usize = chars.len();
        self.value = crate::text::from_chars(chars.as_slice());
        self.at = at + 1;
        assert(self@.text =~= old(self)@.text.insert(at as int, c));
    }

    /// Delete the character before the caret.
    pub fn backspace(&mut self)
        requires
            old(self).wf(),
        ensures
            final(self).wf(),
            final(self)@ == old(self)@.backspaced(),
    {
        if self.at > 0 {
            let mut chars: Vec<char> = crate::text::to_chars(self.value.as_str());
            let at: usize = self.at - 1;
            chars.remove(at);
            self.value = crate::text::from_chars(chars.as_slice());
            self.at = at;
            assert(self@.text =~= old(self)@.text.remove(at as int));
        }
    }

    /// Delete the character behind the caret.
    pub fn delete(&mut self)
        requires
            old(self).wf(),
        ensures
            final(self).wf(),
            final(self)@ == old(self)@.deleted(),
    {
        let mut chars: Vec<char> = crate::text::to_chars(self.value.as_str());
        let at: usize = self.at;
        if at < chars.len() {
            chars.remove(at);
            self.value = crate::text::from_chars(chars.as_slice());
            assert(self@.text =~= old(self)@.text.remove(at as int));
        }
    }

    /// Move the caret one character to the left.
    pub fn left(&mut self)
        requires
            old(self).wf(),
        ensures
            final(self).wf(),
            final(self)@ == old(self)@.moved_left(),
    {
        if self.at > 0 {
            self.at = self.at - 1;
        }
    }

    /// Move the caret one character to the right.
    pub fn right(&mut self)
        requires
            old(self).wf(),
        ensures
            final(self).wf(),
            final(self)@ == old(self)@.moved_right(),
    {
        let chars: Vec<char> = crate::text::to_chars(self.value.as_str());
        let total: usize = chars.len();
        if self.at < total {
            self.at = self.at + 1;
        }
    }

    /// Move the caret to the beginning of its line.
    pub fn home(&mut self)
        requires
            old(self).wf(),
        ensures
            final(self).wf(),
            final(self)@ == (InputView {
                at: line_start(old(self)@.text, old(self)@.at),
                ..old(self)@
            }),
    {
        let chars: Vec<char> = crate::text::to_chars(self.value.as_str());
        let mut k: usize = self.at;
        let ghost text = self@.text;
        let ghost at = self@.at;
        while k > 0 && chars[k - 1] != '\n'
            invariant
                k <= at <= chars.len(),
                chars@ == text,
                line_start(text, at) == line_start(text, k as int),
            decreases k,
        {
            k = k - 1;
        }
        self.at = k;
    }

    /// Move the caret to the end of its line.
    pub fn end(&mut self)
        requires
            old(self).wf(),
        ensures
            final(self).wf(),
            final(self)@ == (InputView {
                at: line_end(old(self)@.text, old(self)@.at),
                ..old(self)@
            }),
    {
        let chars: Vec<char> = crate::text::to_chars(self.value.as_str());
        let mut k: usize = self.at;
        let ghost text = self@.text;
        let ghost at = self@.at;
        let ghost rest = text.skip(at);
        while k < chars.len() && chars[k] != '\n'
            invariant
                0 <= at <= k <= chars.len(),
                chars@ == text,
                rest == text.skip(at),
                forall|i: int| 0 <= i < k - at ==> #[trigger] rest[i] != '\n',
            decreases chars.len() - k,
        {
            assert(rest[k - at] == text[k as int]);
            k = k + 1;
        }
        proof {
            if k < chars.len() {
                assert(rest[k - at] == text[k as int]);
            }
            crate::text::lemma_first_at_is(rest, '\n', k - at);
        }
        self.at = k;
    }
}

/// Deleting a character that was just typed gives back the text and the caret.
pub proof fn law_backspace_undoes_insert(v: InputView, c: char)
    requires
        v.wf(),
    ensures
        v.inserted(c).backspaced() == v,
{
    assert(v.inserted(c).backspaced().text =~= v.text);
}

/// Moving right after moving left comes back, wherever there is a character to move over.
pub proof fn law_right_undoes_left(v: InputView)
    requires
        v.wf(),
        v.at > 0,
    ensures
        v.moved_left().moved_right() == v,
{
}

/// Neither the beginning nor the end of the line leaves the line: between them and the caret there
/// is no line feed.
pub proof fn law_home_and_end_stay_in_line(v: InputView, i: int)
    requires
        v.wf(),
        line_start(v.text, v.at) <= i < line_end(v.text, v.at),
    ensures
        0 <= line_start(v.text, v.at) <= v.at <= line_end(v.text, v.at) <= v.text.len(),
        v.text[i] != '\n',
{
    lemma_line_start(v.text, v.at);
    let rest = v.text.skip(v.at);
    crate::text::lemma_first_at(rest, '\n');
    if i >= v.at {
        assert(rest[i - v.at] == v.text[i]);
    }
}

proof fn lemma_line_start(text: Seq<char>, at: int)
    requires
        0 <= at <= text.len(),
    ensures
        0 <= line_start(text, at) <= at,
        forall|i: int| line_start(text, at) <= i < at ==> #[trigger] text[i] != '\n',
    decreases at,
{
    if at > 0 && text[at - 1] != '\n' {
        lemma_line_start(text, at - 1);
    }
}

/// A typed character stands at the caret, between what was before it and what was behind it, and the
/// caret behind it.
pub proof fn law_typed_character_stands_at_the_caret(a: Seq<char>, b: Seq<char>, c: char)
    ensures
        (InputView { text: a + b, at: a.len() as int }).inserted(c) == (InputView {
            text: a + seq![c] + b,
            at: a.len() as int + 1,
        }),
{
    assert((a + b).insert(a.len() as int, c) =~= a + seq![c] + b);
}

/// Backspace takes away the character before the caret, delete the one behind it; at either end there is
/// none to take.
pub proof fn law_characters_are_taken_away(a: Seq<char>, c: char, b: Seq<char>)
    ensures
        (InputView { text: a + seq![c] + b, at: a.len() as int + 1 }).backspaced() == (InputView {
            text: a + b,
            at: a.len() as int,
        }),
        (InputView { text: a + seq![c] + b, at: a.len() as int }).deleted() == (InputView {
            text: a + b,
            at: a.len() as int,
        }),
        (InputView { text: b, at: 0 }).backspaced() == (InputView { text: b, at: 0 }),
        (InputView { text: b, at: b.len() as int }).deleted() == (InputView {
            text: b,
            at: b.len() as int,
        }),
{
    assert((a + seq![c] + b).remove(a.len() as int) =~= a + b);
}

/// The caret moves by one character and keeps the text; at either end it stays.
pub proof fn law_caret_moves_by_one(v: InputView)
    requires
        v.wf(),
    ensures
        v.moved_left().text == v.text && v.moved_right().text == v.text,
        v.at > 0 ==> v.moved_left().at == v.at - 1,
        v.at == 0 ==> v.moved_left().at == 0,
        v.at < v.text.len() ==> v.moved_right().at == v.at + 1,
        v.at == v.text.len() ==> v.moved_right().at == v.at,
{
}

/// The beginning of a line is the beginning of the text or stands behind a line feed, and its end is the
/// end of the text or stands before one.
pub proof fn law_lines_lie_between_feeds(v: InputView)
    requires
        v.wf(),
    ensures
        line_start(v.text, v.at) == 0 || v.text[line_start(v.text, v.at) - 1] == '\n',
        line_end(v.text, v.at) == v.text.len() || v.text[line_end(v.text, v.at)] == '\n',
        0 <= line_start(v.text, v.at) <= v.at <= line_end(v.text, v.at) <= v.text.len(),
        forall|i: int|
            line_start(v.text, v.at) <= i < line_end(v.text, v.at) ==> #[trigger] v.text[i] != '\n',
{
    lemma_line_start_is_behind_a_feed(v.text, v.at);
    crate::text::lemma_first_at(v.text.skip(v.at), '\n');
    assert forall|i: int| line_start(v.text, v.at) <= i < line_end(v.text, v.at) implies #[trigger] v.text[i]
        != '\n' by {
        law_home_and_end_stay_in_line(v, i);
    }
}

proof fn lemma_line_start_is_behind_a_feed(text: Seq<char>, at: int)
    requires
        0 <= at <= text.len(),
    ensures
        0 <= line_start(text, at) <= at,
        line_start(text, at) == 0 || text[line_start(text, at) - 1] == '\n',
    decreases at,
{
    if at > 0 && text[at - 1] != '\n' {
        lemma_line_start_is_behind_a_feed(text, at - 1);
    }
}

} // verus!
