//! Text primitives that the rest of the library is built on: characters, trimming, decimal
//! numbers, line splitting, order and simple searches, all over the characters of a string.
use vstd::prelude::*;
use vstd::string::*;

verus! {

/// `String::push` appends the character at the end and changes nothing else.
pub assume_specification[ String::push ](s: &mut String, c: char)
    ensures
        final(s)@ == old(s)@.push(c),
;

/// The views of the elements of a sequence.
pub open spec fn views<T: View>(s: Seq<T>) -> Seq<T::V> {
    s.map_values(|t: T| t@)
}

/// The characters of a string, one by one.
pub fn to_chars(s: &str) -> (r: Vec<char>)
    ensures
        r@ == s@,
{
    let mut out: Vec<char> = Vec::new();
    for c in it: s.chars()
        invariant
            it.seq() == s@,
            out@ == s@.take(it.index()),
    {
        proof {
            assert(s@.take(it.index() + 1) =~= s@.take(it.index()).push(s@[it.index()]));
        }
        out.push(c);
    }
    proof {
        assert(s@.take(s@.len() as int) =~= s@);
    }
    out
}

/// The string made of the given characters.
pub fn from_chars(chars: &[char]) -> (r: String)
    ensures
        r@ == chars@,
{
    let mut out: String = String::new();
    let mut i: usize = 0;
    while i < chars.len()
        invariant
            i <= chars.len(),
            out@ == chars@.take(i as int),
        decreases chars.len() - i,
    {
        out.push(chars[i]);
        i = i + 1;
        proof {
            assert(chars@.take(i as int) =~= chars@.take(i - 1).push(chars@[i - 1]));
        }
    }
    proof {
        assert(chars@.take(i as int) =~= chars@);
    }
    out
}

/// Whether two strings hold the same characters.
pub fn same(a: &str, b: &str) -> (r: bool)
    ensures
        r == (a@ == b@),
{
    let x: String = a.to_owned();
    let y: String = b.to_owned();
    x == y
}

/// White space as Unicode's `White_Space` property has it.
pub open spec fn is_space(c: char) -> bool {
    ||| '\u{9}' <= c <= '\u{d}'
    ||| c == ' '
    ||| c == '\u{85}'
    ||| c == '\u{a0}'
    ||| c == '\u{1680}'
    ||| '\u{2000}' <= c <= '\u{200a}'
    ||| c == '\u{2028}'
    ||| c == '\u{2029}'
    ||| c == '\u{202f}'
    ||| c == '\u{205f}'
    ||| c == '\u{3000}'
}

/// Whether a character is white space.
pub fn is_whitespace(c: char) -> (r: bool)
    ensures
        r == is_space(c),
{
    let n: u32 = c as u32;
    (0x9 <= n && n <= 0xd) || n == 0x20 || n == 0x85 || n == 0xa0 || n == 0x1680 || (0x2000 <= n && n
        <= 0x200a) || n == 0x2028 || n == 0x2029 || n == 0x202f || n == 0x205f || n == 0x3000
}

/// The index of the first character that is not white space, or the length.
pub open spec fn first_word(s: Seq<char>) -> int
    decreases s.len(),
{
    if s.len() == 0 || !is_space(s[0]) {
        0
    } else {
        1 + first_word(s.drop_first())
    }
}

/// One past the index of the last character that is not white space, or zero.
pub open spec fn last_word(s: Seq<char>) -> int
    decreases s.len(),
{
    if s.len() == 0 || !is_space(s.last()) {
        s.len() as int
    } else {
        last_word(s.drop_last())
    }
}

/// The sequence without white space at either end.
pub open spec fn trimmed(s: Seq<char>) -> Seq<char> {
    let t = s.subrange(0, last_word(s));
    t.subrange(first_word(t), t.len() as int)
}

/// `first_word` and `last_word` stay inside the sequence, and what they skip is white space.
pub proof fn lemma_words(s: Seq<char>)
    ensures
        0 <= first_word(s) <= s.len(),
        0 <= last_word(s) <= s.len(),
        forall|i: int| 0 <= i < first_word(s) ==> is_space(#[trigger] s[i]),
        first_word(s) < s.len() ==> !is_space(s[first_word(s)]),
        forall|i: int| last_word(s) <= i < s.len() ==> is_space(#[trigger] s[i]),
        last_word(s) > 0 ==> !is_space(s[last_word(s) - 1]),
    decreases s.len(),
{
    if s.len() > 0 {
        let f = s.drop_first();
        lemma_words(f);
        lemma_words(s.drop_last());
        assert forall|i: int| 0 <= i < first_word(s) implies is_space(#[trigger] s[i]) by {
            if i > 0 {
                assert(f[i - 1] == s[i]);
            }
        }
        assert forall|i: int| last_word(s) <= i < s.len() implies is_space(#[trigger] s[i]) by {
            if i < s.len() - 1 {
                assert(s.drop_last()[i] == s[i]);
            }
        }
    }
}

/// Trimming a text that neither begins nor ends with white space changes nothing.
pub proof fn lemma_trimmed_fixed(s: Seq<char>)
    requires
        s.len() == 0 || (!is_space(s[0]) && !is_space(s.last())),
    ensures
        trimmed(s) == s,
{
    assert(s.subrange(0, s.len() as int) =~= s);
}

/// Trimming twice is trimming once.
pub proof fn law_trimming_settles(s: Seq<char>)
    ensures
        trimmed(trimmed(s)) == trimmed(s),
{
    let t = s.subrange(0, last_word(s));
    let r = trimmed(s);
    lemma_words(s);
    lemma_words(t);
    if r.len() > 0 {
        assert(r[0] == t[first_word(t)]);
        assert(r.last() == s[last_word(s) - 1]);
    }
    lemma_trimmed_fixed(r);
}

/// The first word begins at `k` where `k` characters of white space come first and no more.
pub proof fn lemma_first_word_at(s: Seq<char>, k: int)
    requires
        0 <= k <= s.len(),
        forall|i: int| 0 <= i < k ==> is_space(#[trigger] s[i]),
        k < s.len() ==> !is_space(s[k]),
    ensures
        first_word(s) == k,
    decreases k,
{
    if k > 0 {
        assert(is_space(s[0]));
        let f = s.drop_first();
        assert forall|i: int| 0 <= i < k - 1 implies is_space(#[trigger] f[i]) by {
            assert(f[i] == s[i + 1]);
        }
        lemma_first_word_at(f, k - 1);
    }
}

proof fn lemma_last_word_at(s: Seq<char>, k: int)
    requires
        0 <= k <= s.len(),
        forall|i: int| k <= i < s.len() ==> is_space(#[trigger] s[i]),
        k > 0 ==> !is_space(s[k - 1]),
    ensures
        last_word(s) == k,
    decreases s.len() - k,
{
    if k < s.len() {
        assert(is_space(s[s.len() - 1]));
        lemma_last_word_at(s.drop_last(), k);
    }
}

/// The text without white space at either end.
pub fn trim(s: &str) -> (r: String)
    ensures
        r@ == trimmed(s@),
{
    let chars: Vec<char> = to_chars(s);
    let mut hi: usize = chars.len();
    while hi > 0 && is_whitespace(chars[hi - 1])
        invariant
            hi <= chars.len(),
            forall|i: int| hi <= i < chars.len() ==> is_space(#[trigger] chars@[i]),
        decreases hi,
    {
        hi = hi - 1;
    }
    proof {
        lemma_last_word_at(chars@, hi as int);
    }
    let ghost t = chars@.subrange(0, hi as int);
    let mut lo: usize = 0;
    while lo < hi && is_whitespace(chars[lo])
        invariant
            lo <= hi <= chars.len(),
            t == chars@.subrange(0, hi as int),
            forall|i: int| 0 <= i < lo ==> is_space(#[trigger] t[i]),
        decreases hi - lo,
    {
        lo = lo + 1;
    }
    proof {
        lemma_first_word_at(t, lo as int);
        assert(chars@.subrange(lo as int, hi as int) =~= t.subrange(lo as int, t.len() as int));
    }
    from_chars(vstd::slice::slice_subrange(chars.as_slice(), lo, hi))
}

/// The decimal digit of a number below ten.
pub open spec fn digit(d: nat) -> char {
    (48 + d) as char
}

/// A number written in decimal, without leading zeros.
pub open spec fn decimal(n: nat) -> Seq<char>
    decreases n,
{
    if n < 10 {
        seq![digit(n)]
    } else {
        decimal(n / 10).push(digit(n % 10))
    }
}

/// A number written in decimal.
pub fn to_decimal(n: u64) -> (r: String)
    ensures
        r@ == decimal(n as nat),
    decreases n,
{
    let d: u8 = (n % 10) as u8;
    let c: char = (48u8 + d) as char;
    if n < 10 {
        let mut out: String = String::new();
        out.push(c);
        assert(out@ =~= seq![digit(n as nat)]);
        out
    } else {
        let mut out: String = to_decimal(n / 10);
        out.push(c);
        out
    }
}

/// Whether `s` begins with `p`.
pub open spec fn has_prefix(s: Seq<char>, p: Seq<char>) -> bool {
    p.len() <= s.len() && s.subrange(0, p.len() as int) == p
}

/// Whether `s` begins with `p`.
pub fn starts_with(s: &str, p: &str) -> (r: bool)
    ensures
        r == has_prefix(s@, p@),
{
    let a: Vec<char> = to_chars(s);
    let b: Vec<char> = to_chars(p);
    if b.len() > a.len() {
        return false;
    }
    let mut i: usize = 0;
    while i < b.len()
        invariant
            i <= b.len() <= a.len(),
            a@ == s@,
            b@ == p@,
            forall|k: int| 0 <= k < i ==> a@[k] == b@[k],
        decreases b.len() - i,
    {
        if a[i] != b[i] {
            assert(s@.subrange(0, p@.len() as int)[i as int] != p@[i as int]);
            return false;
        }
        i = i + 1;
    }
    assert(s@.subrange(0, p@.len() as int) =~= p@);
    true
}

/// Two texts joined.
pub fn join2(a: &str, b: &str) -> (r: String)
    ensures
        r@ == a@ + b@,
{
    let mut out: String = a.to_owned();
    out.append(b);
    out
}

/// Three texts joined.
pub fn join3(a: &str, b: &str, c: &str) -> (r: String)
    ensures
        r@ == a@ + b@ + c@,
{
    let mut out: String = a.to_owned();
    out.append(b);
    out.append(c);
    out
}

/// The index of the first `c` in `s`, or the length.
pub open spec fn first_at(s: Seq<char>, c: char) -> int
    decreases s.len(),
{
    if s.len() == 0 || s[0] == c {
        0
    } else {
        1 + first_at(s.drop_first(), c)
    }
}

/// `first_at` stays inside the sequence, finds `c`, and passes over no other.
pub proof fn lemma_first_at(s: Seq<char>, c: char)
    ensures
        0 <= first_at(s, c) <= s.len(),
        first_at(s, c) < s.len() ==> s[first_at(s, c)] == c,
        forall|i: int| 0 <= i < first_at(s, c) ==> #[trigger] s[i] != c,
    decreases s.len(),
{
    if s.len() > 0 && s[0] != c {
        let f = s.drop_first();
        lemma_first_at(f, c);
        assert forall|i: int| 0 <= i < first_at(s, c) implies #[trigger] s[i] != c by {
            if i > 0 {
                assert(f[i - 1] == s[i]);
            }
        }
    }
}

/// The index that `first_at` gives is the one with these properties.
pub proof fn lemma_first_at_is(s: Seq<char>, c: char, k: int)
    requires
        0 <= k <= s.len(),
        k < s.len() ==> s[k] == c,
        forall|i: int| 0 <= i < k ==> #[trigger] s[i] != c,
    ensures
        first_at(s, c) == k,
{
    lemma_first_at(s, c);
}

/// A line without a carriage return at its end.
pub open spec fn without_return(line: Seq<char>) -> Seq<char> {
    if line.len() > 0 && line.last() == '\r' {
        line.drop_last()
    } else {
        line
    }
}

/// The lines of a text: it is cut after every line feed; a line loses its line feed and a carriage
/// return before it; a text that ends in a line feed has no empty line after it.
pub open spec fn lines_of(s: Seq<char>) -> Seq<Seq<char>>
    decreases s.len(),
{
    if s.len() == 0 {
        Seq::empty()
    } else {
        let k = first_at(s, '\n');
        if k < 0 || k >= s.len() {
            seq![s]
        } else {
            seq![without_return(s.subrange(0, k))] + lines_of(s.subrange(k + 1, s.len() as int))
        }
    }
}

/// The lines of a text.
pub fn lines(s: &str) -> (r: Vec<String>)
    ensures
        views(r@) == lines_of(s@),
{
    let chars: Vec<char> = to_chars(s);
    let mut out: Vec<String> = Vec::new();
    let mut start: usize = 0;
    let mut i: usize = 0;
    let ghost all = s@;
    proof {
        assert(all.subrange(0, all.len() as int) =~= all);
        assert(views(out@) + lines_of(all) =~= lines_of(all));
    }
    while i < chars.len()
        invariant
            start <= i <= chars.len(),
            chars@ == all,
            views(out@) + lines_of(all.subrange(start as int, all.len() as int)) == lines_of(all),
            forall|k: int| start <= k < i ==> chars@[k] != '\n',
        decreases chars.len() - i,
    {
        if chars[i] == '\n' {
            let mut end: usize = i;
            if end > start && chars[end - 1] == '\r' {
                end = end - 1;
            }
            let line: String = from_chars(
                vstd::slice::slice_subrange(chars.as_slice(), start, end),
            );
            let ghost before = views(out@);
            let ghost rest = all.subrange(start as int, all.len() as int);
            proof {
                let k = i - start;
                assert forall|j: int| 0 <= j < k implies #[trigger] rest[j] != '\n' by {
                    assert(rest[j] == chars@[start + j]);
                }
                assert(rest[k] == '\n');
                lemma_first_at_is(rest, '\n', k);
                assert(rest.subrange(0, k) =~= all.subrange(start as int, i as int));
                assert(line@ =~= without_return(rest.subrange(0, k)));
                assert(rest.subrange(k + 1, rest.len() as int) =~= all.subrange(
                    i + 1,
                    all.len() as int,
                ));
            }
            out.push(line);
            proof {
                assert(views(out@) =~= before.push(line@));
                let tail = lines_of(all.subrange(i + 1, all.len() as int));
                assert(rest.len() > 0);
                assert(lines_of(rest) == seq![without_return(rest.subrange(0, i - start))] + tail);
                assert(before + (seq![line@] + tail) =~= before.push(line@) + tail);
            }
            start = i + 1;
        }
        i = i + 1;
    }
    let ghost rest = all.subrange(start as int, all.len() as int);
    if start < chars.len() {
        let line: String = from_chars(
            vstd::slice::slice_subrange(chars.as_slice(), start, chars.len()),
        );
        let ghost before = views(out@);
        out.push(line);
        proof {
            assert forall|j: int| 0 <= j < rest.len() implies #[trigger] rest[j] != '\n' by {
                assert(rest[j] == chars@[start + j]);
            }
            lemma_first_at_is(rest, '\n', rest.len() as int);
            assert(views(out@) =~= before.push(line@));
            assert(lines_of(rest) =~= seq![line@]);
            assert(before + seq![line@] =~= before.push(line@));
        }
    } else {
        proof {
            assert(lines_of(rest) =~= Seq::empty());
            assert(views(out@) + Seq::<Seq<char>>::empty() =~= views(out@));
        }
    }
    out
}

/// Texts one after the other, each followed by a line feed.
pub open spec fn with_line_feeds(lines: Seq<Seq<char>>) -> Seq<char>
    decreases lines.len(),
{
    if lines.len() == 0 {
        Seq::empty()
    } else {
        lines[0] + seq!['\n'] + with_line_feeds(lines.drop_first())
    }
}

/// A text that can stand as one line: no line feed in it and no carriage return at its end.
pub open spec fn is_one_line(line: Seq<char>) -> bool {
    &&& forall|i: int| 0 <= i < line.len() ==> #[trigger] line[i] != '\n'
    &&& line.len() > 0 ==> line.last() != '\r'
}

/// Reading back lines that were written one after the other gives the same lines.
pub proof fn law_lines_round_trip(lines: Seq<Seq<char>>)
    requires
        forall|i: int| 0 <= i < lines.len() ==> is_one_line(#[trigger] lines[i]),
    ensures
        lines_of(with_line_feeds(lines)) == lines,
    decreases lines.len(),
{
    let s = with_line_feeds(lines);
    if lines.len() > 0 {
        let head = lines[0];
        let tail = lines.drop_first();
        assert forall|i: int| 0 <= i < tail.len() implies is_one_line(#[trigger] tail[i]) by {
            assert(tail[i] == lines[i + 1]);
        }
        law_lines_round_trip(tail);
        let k = head.len() as int;
        assert(is_one_line(head));
        assert forall|i: int| 0 <= i < k implies #[trigger] s[i] != '\n' by {
            assert(s[i] == head[i]);
        }
        assert(s[k] == '\n');
        lemma_first_at_is(s, '\n', k);
        assert(s.subrange(0, k) =~= head);
        assert(s.subrange(k + 1, s.len() as int) =~= with_line_feeds(tail));
        assert(lines_of(s) =~= seq![head] + tail);
        assert(seq![head] + tail =~= lines);
    } else {
        assert(lines_of(s) =~= lines);
    }
}

/// The order of texts: by the first character in which they differ, a beginning before the whole.
pub open spec fn text_before(a: Seq<char>, b: Seq<char>) -> bool
    decreases a.len(),
{
    if b.len() == 0 {
        false
    } else if a.len() == 0 {
        true
    } else if a[0] != b[0] {
        a[0] < b[0]
    } else {
        text_before(a.drop_first(), b.drop_first())
    }
}

/// The order of texts is a strict total order.
pub proof fn lemma_text_order(a: Seq<char>, b: Seq<char>, c: Seq<char>)
    ensures
        !text_before(a, a),
        text_before(a, b) || text_before(b, a) || a == b,
        !(text_before(a, b) && text_before(b, a)),
        text_before(a, b) && text_before(b, c) ==> text_before(a, c),
    decreases a.len() + b.len() + c.len(),
{
    if a.len() > 0 {
        if b.len() > 0 && c.len() > 0 {
            lemma_text_order(a.drop_first(), b.drop_first(), c.drop_first());
        } else if b.len() > 0 {
            lemma_text_order(a.drop_first(), b.drop_first(), c);
        } else {
            lemma_text_order(a.drop_first(), b, c);
        }
        if b.len() > 0 && a[0] == b[0] && a.drop_first() == b.drop_first() {
            assert(a =~= seq![a[0]] + a.drop_first());
            assert(b =~= seq![a[0]] + a.drop_first());
            assert(a == b);
        }
    } else if b.len() == 0 {
        assert(a =~= b);
    }
}

/// Whether `a` stands before `b` in the order of texts.
pub fn is_before(a: &str, b: &str) -> (r: bool)
    ensures
        r == text_before(a@, b@),
{
    let x: Vec<char> = to_chars(a);
    let y: Vec<char> = to_chars(b);
    let mut i: usize = 0;
    proof {
        assert(x@.skip(0) =~= x@);
        assert(y@.skip(0) =~= y@);
    }
    loop
        invariant
            i <= x.len(),
            i <= y.len(),
            x@ == a@,
            y@ == b@,
            text_before(a@, b@) == text_before(x@.skip(i as int), y@.skip(i as int)),
        decreases x.len() - i,
    {
        if i >= y.len() {
            return false;
        }
        if i >= x.len() {
            return true;
        }
        if x[i] != y[i] {
            let p: char = x[i];
            let q: char = y[i];
            return p < q;
        }
        proof {
            assert(x@.skip(i as int).drop_first() =~= x@.skip(i + 1));
            assert(y@.skip(i as int).drop_first() =~= y@.skip(i + 1));
        }
        i = i + 1;
    }
}

/// Where `pat` first occurs in `s`.
pub open spec fn first_of(s: Seq<char>, pat: Seq<char>) -> Option<int>
    decreases s.len(),
{
    if has_prefix(s, pat) {
        Some(0)
    } else if s.len() == 0 {
        None
    } else {
        match first_of(s.drop_first(), pat) {
            Some(k) => Some(k + 1),
            None => None,
        }
    }
}

/// Whether `pat` occurs in `s`.
pub open spec fn occurs(s: Seq<char>, pat: Seq<char>) -> bool {
    first_of(s, pat) is Some
}

/// Whether `pat` stands at `at`.
pub fn stands_at(s: &[char], at: usize, pat: &[char]) -> (r: bool)
    requires
        at <= s@.len(),
    ensures
        r == has_prefix(s@.skip(at as int), pat@),
{
    if pat.len() > s.len() - at {
        return false;
    }
    let ghost rest = s@.skip(at as int);
    let mut i: usize = 0;
    while i < pat.len()
        invariant
            i <= pat.len() <= s.len() - at,
            rest == s@.skip(at as int),
            forall|k: int| 0 <= k < i ==> rest[k] == #[trigger] pat@[k],
        decreases pat.len() - i,
    {
        assert(rest[i as int] == s@[at + i]);
        if s[at + i] != pat[i] {
            assert(rest.subrange(0, pat@.len() as int)[i as int] != pat@[i as int]);
            return false;
        }
        i = i + 1;
    }
    assert(rest.subrange(0, pat@.len() as int) =~= pat@);
    true
}

/// Where `pat` first stands in `s`.
pub fn find(s: &[char], pat: &[char]) -> (r: Option<usize>)
    ensures
        r is Some == first_of(s@, pat@) is Some,
        r is Some ==> r->0 == first_of(s@, pat@)->0 && r->0 + pat@.len() <= s@.len(),
{
    let mut i: usize = 0;
    proof {
        assert(s@.skip(0) =~= s@);
    }
    loop
        invariant
            i <= s@.len(),
            match first_of(s@.skip(i as int), pat@) {
                Some(k) => first_of(s@, pat@) == Some(k + i),
                None => first_of(s@, pat@) is None,
            },
        decreases s@.len() - i,
    {
        if stands_at(s, i, pat) {
            return Some(i);
        }
        if i >= s.len() {
            return None;
        }
        proof {
            assert(s@.skip(i as int).drop_first() =~= s@.skip(i + 1));
        }
        i = i + 1;
    }
}

/// Whether `pat` occurs in `text`.
pub fn contains(text: &str, pat: &str) -> (r: bool)
    ensures
        r == occurs(text@, pat@),
{
    let s: Vec<char> = to_chars(text);
    let p: Vec<char> = to_chars(pat);
    find(s.as_slice(), p.as_slice()).is_some()
}

/// An ASCII letter in lower case, any other character as it is.
pub open spec fn ascii_lower(c: char) -> char {
    if 'A' <= c <= 'Z' {
        (c as u32 + 32) as char
    } else {
        c
    }
}

/// An ASCII letter in lower case, any other character as it is.
pub fn lower_char(c: char) -> (r: char)
    ensures
        r == ascii_lower(c),
{
    if 'A' <= c && c <= 'Z' {
        ((c as u32 + 32) as u8) as char
    } else {
        c
    }
}

/// A text with its ASCII letters in lower case.
pub open spec fn ascii_lowered(s: Seq<char>) -> Seq<char> {
    s.map_values(|c: char| ascii_lower(c))
}

/// A text with its ASCII letters in lower case.
pub fn to_ascii_lower(s: &str) -> (r: String)
    ensures
        r@ == ascii_lowered(s@),
{
    let chars: Vec<char> = to_chars(s);
    let mut out: String = String::new();
    let mut i: usize = 0;
    while i < chars.len()
        invariant
            i <= chars.len(),
            chars@ == s@,
            out@ =~= ascii_lowered(s@).take(i as int),
        decreases chars.len() - i,
    {
        out.push(lower_char(chars[i]));
        i = i + 1;
    }
    assert(ascii_lowered(s@).take(i as int) =~= ascii_lowered(s@));
    out
}

/// Whether `pat` stands in `s` from `k` on.
pub open spec fn is_at(s: Seq<char>, pat: Seq<char>, k: int) -> bool {
    0 <= k && k + pat.len() <= s.len() && s.subrange(k, k + pat.len()) == pat
}

proof fn lemma_is_at_prefix(s: Seq<char>, pat: Seq<char>, k: int)
    requires
        0 <= k <= s.len(),
    ensures
        is_at(s, pat, k) == has_prefix(s.skip(k), pat),
{
    if k + pat.len() <= s.len() {
        assert(s.skip(k).subrange(0, pat.len() as int) =~= s.subrange(k, k + pat.len()));
    }
}

/// A search for a text finds its first occurrence, and fails exactly where there is none.
pub proof fn law_first_of_is_the_first(s: Seq<char>, pat: Seq<char>)
    ensures
        first_of(s, pat) matches Some(k) ==> is_at(s, pat, k) && forall|j: int|
            0 <= j < k ==> !#[trigger] is_at(s, pat, j),
        first_of(s, pat) is None ==> forall|j: int| !#[trigger] is_at(s, pat, j),
    decreases s.len(),
{
    if has_prefix(s, pat) {
        assert(s.skip(0) =~= s);
        lemma_is_at_prefix(s, pat, 0);
    } else if s.len() > 0 {
        let rest = s.drop_first();
        law_first_of_is_the_first(rest, pat);
        assert(s.skip(0) =~= s);
        lemma_is_at_prefix(s, pat, 0);
        assert forall|j: int| 0 < j implies #[trigger] is_at(s, pat, j) == is_at(rest, pat, j - 1) by {
            if j + pat.len() <= s.len() {
                assert(rest.subrange(j - 1, j - 1 + pat.len()) =~= s.subrange(j, j + pat.len()));
            }
        }
        match first_of(rest, pat) {
            Some(k) => {
                assert(is_at(s, pat, k + 1) == is_at(rest, pat, k));
                assert forall|j: int| 0 <= j < k + 1 implies !#[trigger] is_at(s, pat, j) by {
                    if j > 0 {
                        assert(!is_at(rest, pat, j - 1));
                    }
                }
            },
            None => {
                assert forall|j: int| !#[trigger] is_at(s, pat, j) by {
                    if j > 0 {
                        assert(!is_at(rest, pat, j - 1));
                    }
                }
            },
        }
    } else {
        assert forall|j: int| !#[trigger] is_at(s, pat, j) by {
            if is_at(s, pat, j) {
                assert(j == 0 && pat.len() == 0);
                assert(s.subrange(0, 0) =~= pat);
            }
        }
    }
}

/// A text occurs in another exactly where it stands at some place of it.
pub proof fn law_occurs_somewhere(s: Seq<char>, pat: Seq<char>)
    ensures
        occurs(s, pat) == exists|k: int|
            0 <= k && k + pat.len() <= s.len() && #[trigger] s.subrange(k, k + pat.len()) == pat,
{
    law_first_of_is_the_first(s, pat);
    if occurs(s, pat) {
        let k = first_of(s, pat)->0;
        assert(is_at(s, pat, k));
        assert(s.subrange(k, k + pat.len()) == pat);
    } else {
        assert forall|k: int| 0 <= k && k + pat.len() <= s.len() implies #[trigger] s.subrange(
            k,
            k + pat.len(),
        ) != pat by {
            assert(!is_at(s, pat, k));
        }
    }
}

/// The first occurrence is the only place where a text stands with no earlier one.
pub proof fn lemma_first_of_at(s: Seq<char>, pat: Seq<char>, k: int)
    requires
        is_at(s, pat, k),
        forall|j: int| 0 <= j < k ==> !#[trigger] is_at(s, pat, j),
    ensures
        first_of(s, pat) == Some(k),
{
    law_first_of_is_the_first(s, pat);
    match first_of(s, pat) {
        Some(i) => {
            if i < k {
                assert(!is_at(s, pat, i));
            } else if k < i {
                assert(!is_at(s, pat, k));
            }
        },
        None => {
            assert(!is_at(s, pat, k));
        },
    }
}

/// A text begins with another exactly where it is that one and something behind it.
pub proof fn law_prefix_is_the_front(s: Seq<char>, p: Seq<char>)
    ensures
        has_prefix(s, p) == exists|rest: Seq<char>| s == #[trigger] (p + rest),
{
    if has_prefix(s, p) {
        assert(s =~= p + s.skip(p.len() as int));
    }
    if exists|rest: Seq<char>| s == #[trigger] (p + rest) {
        let rest = choose|rest: Seq<char>| s == #[trigger] (p + rest);
        assert(s.subrange(0, p.len() as int) =~= p);
    }
}

/// Trimming takes off white space and nothing else: what is left begins and ends with something else,
/// and what was taken off at either end is white space only.
pub proof fn law_trimming_takes_off_white_space(s: Seq<char>)
    ensures
        exists|i: int, j: int|
            0 <= i <= j <= s.len() && trimmed(s) == #[trigger] s.subrange(i, j) && (forall|k: int|
                0 <= k < s.len() && !(i <= k < j) ==> is_space(#[trigger] s[k])),
        trimmed(s).len() > 0 ==> !is_space(trimmed(s)[0]) && !is_space(trimmed(s).last()),
{
    lemma_words(s);
    let j = last_word(s);
    let t = s.subrange(0, j);
    lemma_words(t);
    let i = first_word(t);
    assert(trimmed(s) =~= s.subrange(i, j));
    assert forall|k: int| 0 <= k < s.len() && !(i <= k < j) implies is_space(#[trigger] s[k]) by {
        if k < i {
            assert(t[k] == s[k]);
        }
    }
    if trimmed(s).len() > 0 {
        assert(t[i] == s[i]);
        assert(trimmed(s).last() == s[j - 1]);
    }
}

/// White space is the tabulator to the carriage return, the space, the next-line and no-break signs,
/// and the spaces and separators further up.
pub proof fn law_white_space(c: char)
    ensures
        is_space(c) == {
            let n = c as u32;
            ||| 9 <= n <= 13
            ||| n == 32
            ||| n == 0x85
            ||| n == 0xa0
            ||| n == 0x1680
            ||| 0x2000 <= n <= 0x200a
            ||| n == 0x2028
            ||| n == 0x2029
            ||| n == 0x202f
            ||| n == 0x205f
            ||| n == 0x3000
        },
{
}

/// The number that decimal digits stand for.
pub open spec fn value_of(digits: Seq<char>) -> int
    decreases digits.len(),
{
    if digits.len() == 0 {
        0
    } else {
        10 * value_of(digits.drop_last()) + (digits.last() as int - 48)
    }
}

/// A number in decimal holds digits only, no zero in front of another, and stands for that number.
pub proof fn law_decimal_reads_back(n: nat)
    ensures
        value_of(decimal(n)) == n,
        decimal(n).len() > 0,
        forall|i: int| 0 <= i < decimal(n).len() ==> 48 <= (#[trigger] decimal(n)[i]) as int <= 57,
        decimal(n).len() > 1 ==> decimal(n)[0] as int != 48,
    decreases n,
{
    if n < 10 {
        assert(seq![digit(n)].drop_last() =~= Seq::empty());
        reveal_with_fuel(value_of, 2);
    } else {
        law_decimal_reads_back(n / 10);
        let d = decimal(n / 10);
        assert(d.push(digit(n % 10)).drop_last() =~= d);
        assert forall|i: int| 0 <= i < decimal(n).len() implies 48 <= (#[trigger] decimal(n)[i]) as int
            <= 57 by {
            if i < d.len() {
                assert(decimal(n)[i] == d[i]);
            }
        }
        if d.len() == 1 {
            assert(n / 10 >= 1);
            assert(d.drop_last() =~= Seq::empty());
            reveal_with_fuel(value_of, 2);
        }
    }
}

/// A text is cut into lines at its line feeds: the first line is what stands before the first one,
/// without a carriage return at its end, and the others are the lines of what stands behind it; a text
/// without a line feed is one line as it stands, and the empty text has none.
pub proof fn law_lines_are_cut_at_feeds(first: Seq<char>, rest: Seq<char>)
    requires
        forall|i: int| 0 <= i < first.len() ==> #[trigger] first[i] != '\n',
    ensures
        lines_of(first + seq!['\n'] + rest) == seq![
            if first.len() > 0 && first.last() == '\r' {
                first.drop_last()
            } else {
                first
            },
        ] + lines_of(rest),
        first.len() > 0 ==> lines_of(first) == seq![first],
        lines_of(Seq::<char>::empty()).len() == 0,
{
    let s = first + seq!['\n'] + rest;
    let k = first.len() as int;
    assert forall|i: int| 0 <= i < k implies #[trigger] s[i] != '\n' by {
        assert(s[i] == first[i]);
    }
    assert(s[k] == '\n');
    lemma_first_at_is(s, '\n', k);
    assert(s.subrange(0, k) =~= first);
    assert(s.subrange(k + 1, s.len() as int) =~= rest);
    lemma_first_at_is(first, '\n', k);
}

/// Of two texts, that one stands first which has the smaller character where they first differ, or ends
/// there.
pub proof fn law_text_order_by_first_difference(a: Seq<char>, b: Seq<char>, k: int)
    requires
        0 <= k <= a.len(),
        k <= b.len(),
        a.take(k) == b.take(k),
        k == a.len() || k == b.len() || a[k] != b[k],
    ensures
        text_before(a, b) == (k < b.len() && (k == a.len() || a[k] < b[k])),
    decreases k,
{
    if k > 0 {
        assert(a[0] == a.take(k)[0] && b[0] == b.take(k)[0]);
        let (x, y) = (a.drop_first(), b.drop_first());
        assert(x.take(k - 1) =~= a.take(k).drop_first());
        assert(y.take(k - 1) =~= b.take(k).drop_first());
        law_text_order_by_first_difference(x, y, k - 1);
    }
}

/// Only the letters from A to Z are lowered, each to the small letter that stands 32 behind it, and a
/// lowered text has as many characters as before.
pub proof fn law_ascii_lowering(s: Seq<char>, i: int)
    requires
        0 <= i < s.len(),
    ensures
        ascii_lowered(s).len() == s.len(),
        65 <= s[i] as u32 <= 90 ==> ascii_lowered(s)[i] as u32 == s[i] as u32 + 32,
        !(65 <= s[i] as u32 <= 90) ==> ascii_lowered(s)[i] == s[i],
{
}

/// A text's first word begins behind the white space before it.
pub proof fn lemma_first_word_behind(a: Seq<char>, rest: Seq<char>)
    requires
        forall|i: int| 0 <= i < a.len() ==> is_space(#[trigger] a[i]),
        rest.len() == 0 || !is_space(rest[0]),
    ensures
        first_word(a + rest) == a.len(),
    decreases a.len(),
{
    if a.len() > 0 {
        assert((a + rest).drop_first() =~= a.drop_first() + rest);
        lemma_first_word_behind(a.drop_first(), rest);
    } else {
        assert(a + rest =~= rest);
    }
}

/// A text in lower case, as `str::to_lowercase` has it.
pub uninterp spec fn lowercase_of(s: Seq<char>) -> Seq<char>;

/// `str::to_lowercase`: the text in lower case. Which characters that gives is left to the name.
#[verifier::external_body]
pub(crate) fn lowercase(s: &str) -> (r: String)
    ensures
        r@ == lowercase_of(s@),
{
    s.to_lowercase()
}

} // verus!
