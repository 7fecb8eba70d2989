//! Lines with tags: a file is shown to the model with a tag on every line, and edits name lines by
//! those tags, so that an edit of a file that has changed meanwhile is refused.
use vstd::prelude::*;
use vstd::string::*;

verus! {

/// A line: its text and its ending.
#[derive(Debug, PartialEq, Eq)]
pub struct TextLine {
    /// The text without its ending.
    pub body: String,
    /// `\n`, `\r\n`, or nothing at the end of a file.
    pub eol: String,
}

/// A [`TextLine`] with its texts as sequences of characters.
pub struct LineView {
    /// The text without its ending.
    pub body: Seq<char>,
    /// The ending.
    pub eol: Seq<char>,
}

impl View for TextLine {
    type V = LineView;

    open spec fn view(&self) -> LineView {
        LineView { body: self.body@, eol: self.eol@ }
    }
}

impl LineView {
    /// The line as it stands in the file.
    pub open spec fn whole(self) -> Seq<char> {
        self.body + self.eol
    }
}

/// A line that ends in a line feed, with or without a carriage return before it.
pub open spec fn ended(line: Seq<char>) -> LineView {
    if line.len() > 0 && line.last() == '\r' {
        LineView { body: line.drop_last(), eol: seq!['\r', '\n'] }
    } else {
        LineView { body: line, eol: seq!['\n'] }
    }
}

/// The lines of a text, with their endings.
pub open spec fn split(text: Seq<char>) -> Seq<LineView>
    decreases text.len(),
{
    if text.len() == 0 {
        Seq::empty()
    } else {
        let k = crate::text::first_at(text, '\n');
        if k < 0 || k >= text.len() {
            seq![LineView { body: text, eol: Seq::empty() }]
        } else {
            seq![ended(text.subrange(0, k))] + split(text.subrange(k + 1, text.len() as int))
        }
    }
}

/// Lines put together again.
pub open spec fn put_together(lines: Seq<LineView>) -> Seq<char>
    decreases lines.len(),
{
    if lines.len() == 0 {
        Seq::empty()
    } else {
        put_together(lines.drop_last()) + lines.last().whole()
    }
}

/// Lines put together one after another are the texts put together.
pub proof fn lemma_put_together(a: Seq<LineView>, b: Seq<LineView>)
    ensures
        put_together(a + b) == put_together(a) + put_together(b),
    decreases b.len(),
{
    if b.len() == 0 {
        assert(a + b =~= a);
        assert(put_together(a) + put_together(b) =~= put_together(a));
    } else {
        assert((a + b).drop_last() =~= a + b.drop_last());
        lemma_put_together(a, b.drop_last());
        assert(put_together(a) + (put_together(b.drop_last()) + b.last().whole()) =~= put_together(a)
            + put_together(b.drop_last()) + b.last().whole());
    }
}

/// Splitting a text loses nothing.
pub proof fn law_split_loses_nothing(text: Seq<char>)
    ensures
        put_together(split(text)) == text,
    decreases text.len(),
{
    if text.len() > 0 {
        crate::text::lemma_first_at(text, '\n');
        let k = crate::text::first_at(text, '\n');
        if k >= text.len() {
            let one = seq![LineView { body: text, eol: Seq::empty() }];
            assert(one.drop_last() =~= Seq::empty());
            assert(put_together(one) =~= text) by {
                reveal_with_fuel(put_together, 2);
            }
        } else {
            let rest = text.subrange(k + 1, text.len() as int);
            law_split_loses_nothing(rest);
            let head = ended(text.subrange(0, k));
            let one = seq![head];
            lemma_put_together(one, split(rest));
            assert(one.drop_last() =~= Seq::empty());
            assert(put_together(one) =~= head.whole()) by {
                reveal_with_fuel(put_together, 2);
            }
            assert(head.whole() =~= text.subrange(0, k + 1));
            assert(text.subrange(0, k + 1) + rest =~= text);
        }
    }
}

/// The lines of a text, with their endings.
pub fn split_lines_preserving(text: &str) -> (r: Vec<TextLine>)
    ensures
        crate::text::views(r@) == split(text@),
{
    let chars: Vec<char> = crate::text::to_chars(text);
    let ghost all = text@;
    let mut out: Vec<TextLine> = Vec::new();
    let mut start: usize = 0;
    let mut i: usize = 0;
    proof {
        assert(all.subrange(0, all.len() as int) =~= all);
        assert(crate::text::views(out@) + split(all) =~= split(all));
    }
    while i < chars.len()
        invariant
            start <= i <= chars.len(),
            chars@ == all,
            crate::text::views(out@) + split(all.subrange(start as int, all.len() as int)) == split(
                all,
            ),
            forall|k: int| start <= k < i ==> chars@[k] != '\n',
        decreases chars.len() - i,
    {
        if chars[i] == '\n' {
            let crlf: bool = i > start && chars[i - 1] == '\r';
            let end: usize = if crlf {
                i - 1
            } else {
                i
            };
            let mut eol: String = String::new();
            if crlf {
                eol.push('\r');
            }
            eol.push('\n');
            let line: TextLine = TextLine {
                body: crate::text::from_chars(
                    vstd::slice::slice_subrange(chars.as_slice(), start, end),
                ),
                eol,
            };
            let ghost before = crate::text::views(out@);
            let ghost rest = all.subrange(start as int, all.len() as int);
            proof {
                let k = i - start;
                assert forall|j: int| 0 <= j < k implies #[trigger] rest[j] != '\n' by {
                    assert(rest[j] == chars@[start + j]);
                }
                assert(rest[k] == '\n');
                crate::text::lemma_first_at_is(rest, '\n', k);
                let head = rest.subrange(0, k);
                assert(head =~= all.subrange(start as int, i as int));
                assert(rest.subrange(k + 1, rest.len() as int) =~= all.subrange(
                    i + 1,
                    all.len() as int,
                ));
                if crlf {
                    assert(head.last() == '\r');
                    assert(line.body@ =~= head.drop_last());
                    assert(line.eol@ =~= seq!['\r', '\n']);
                } else {
                    assert(line.body@ =~= head);
                    assert(line.eol@ =~= seq!['\n']);
                }
                assert(line@ == ended(head));
            }
            out.push(line);
            proof {
                let tail = split(all.subrange(i + 1, all.len() as int));
                assert(crate::text::views(out@) =~= before.push(line@));
                assert(split(rest) == seq![line@] + tail);
                assert(before + (seq![line@] + tail) =~= before.push(line@) + tail);
            }
            start = i + 1;
        }
        i = i + 1;
    }
    let ghost rest = all.subrange(start as int, all.len() as int);
    if start < chars.len() {
        let line: TextLine = TextLine {
            body: crate::text::from_chars(
                vstd::slice::slice_subrange(chars.as_slice(), start, chars.len()),
            ),
            eol: String::new(),
        };
        let ghost before = crate::text::views(out@);
        out.push(line);
        proof {
            assert forall|j: int| 0 <= j < rest.len() implies #[trigger] rest[j] != '\n' by {
                assert(rest[j] == chars@[start + j]);
            }
            crate::text::lemma_first_at_is(rest, '\n', rest.len() as int);
            assert(crate::text::views(out@) =~= before.push(line@));
            assert(split(rest) =~= seq![line@]);
            assert(before + seq![line@] =~= before.push(line@));
        }
    } else {
        proof {
            assert(split(rest) =~= Seq::empty());
            assert(crate::text::views(out@) + Seq::<LineView>::empty() =~= crate::text::views(
                out@,
            ));
        }
    }
    out
}

/// The FNV-1a hash of a sequence of bytes.
pub open spec fn fnv(bytes: Seq<u8>) -> u64
    decreases bytes.len(),
{
    if bytes.len() == 0 {
        0xcbf2_9ce4_8422_2325u64
    } else {
        (fnv(bytes.drop_last()) ^ (bytes.last() as u64)).wrapping_mul(0x0100_0000_01b3u64)
    }
}

/// The hexadecimal digit of a number below sixteen.
pub open spec fn hex_digit(d: int) -> char {
    if d < 10 {
        (48 + d) as char
    } else {
        (87 + d) as char
    }
}

/// The tag hash of a line: the last three hexadecimal digits of its FNV-1a hash.
pub open spec fn hash_of(line: Seq<char>) -> Seq<char> {
    let h = fnv(vstd::utf8::encode_utf8(line)) as int;
    seq![hex_digit((h / 256) % 16), hex_digit((h / 16) % 16), hex_digit(h % 16)]
}

fn hex_char(d: u8) -> (r: char)
    requires
        d < 16,
    ensures
        r == hex_digit(d as int),
{
    if d < 10 {
        (48u8 + d) as char
    } else {
        (87u8 + d) as char
    }
}

/// The tag hash of a line: the last three hexadecimal digits of its FNV-1a hash.
pub fn line_hash(line: &str) -> (r: String)
    ensures
        r@ == hash_of(line@),
{
    let bytes: &[u8] = line.as_bytes();
    let mut hash: u64 = 0xcbf2_9ce4_8422_2325;
    let mut i: usize = 0;
    while i < bytes.len()
        invariant
            i <= bytes.len(),
            hash == fnv(bytes@.take(i as int)),
        decreases bytes.len() - i,
    {
        proof {
            let next = bytes@.take(i + 1);
            assert(next.drop_last() =~= bytes@.take(i as int));
            assert(next.last() == bytes@[i as int]);
        }
        hash = (hash ^ (bytes[i] as u64)).wrapping_mul(0x0100_0000_01b3);
        i = i + 1;
    }
    proof {
        assert(bytes@.take(i as int) =~= bytes@);
    }
    let mut out: String = String::new();
    out.push(hex_char(((hash / 256) % 16) as u8));
    out.push(hex_char(((hash / 16) % 16) as u8));
    out.push(hex_char((hash % 16) as u8));
    assert(out@ =~= hash_of(line@));
    out
}

/// The tag of line `idx`, counted from zero: its number from one, and its hash.
pub open spec fn tag_of(idx: int, body: Seq<char>) -> Seq<char> {
    crate::text::decimal((idx + 1) as nat) + seq![':'] + hash_of(body)
}

/// The tag of line `idx`, counted from zero.
pub fn line_tag(idx: usize, body: &str) -> (r: String)
    requires
        idx < u64::MAX,
    ensures
        r@ == tag_of(idx as int, body@),
{
    let mut out: String = crate::text::to_decimal(idx as u64 + 1);
    let ghost n = out@;
    out.push(':');
    assert(n.push(':') =~= n + seq![':']);
    out.append(line_hash(body).as_str());
    out
}

/// Lines with their tags in front.
pub open spec fn tagged(lines: Seq<LineView>) -> Seq<char>
    decreases lines.len(),
{
    if lines.len() == 0 {
        Seq::empty()
    } else {
        tagged(lines.drop_last()) + tag_of(lines.len() - 1, lines.last().body) + seq!['|']
            + lines.last().whole()
    }
}

/// A text with a tag in front of every line.
pub fn hashline_text(text: &str) -> (r: String)
    ensures
        r@ == tagged(split(text@)),
{
    let lines: Vec<TextLine> = split_lines_preserving(text);
    let ghost all = split(text@);
    let mut out: String = String::new();
    let mut i: usize = 0;
    while i < lines.len()
        invariant
            i <= lines.len(),
            all == crate::text::views(lines@),
            out@ == tagged(all.take(i as int)),
        decreases lines.len() - i,
    {
        let ghost before = out@;
        out.append(line_tag(i, lines[i].body.as_str()).as_str());
        let ghost middle = out@;
        out.push('|');
        out.append(lines[i].body.as_str());
        out.append(lines[i].eol.as_str());
        proof {
            let next = all.take(i + 1);
            let line = lines@[i as int]@;
            assert(next.drop_last() =~= all.take(i as int));
            assert(next.last() == line);
            assert(out@ =~= middle + seq!['|'] + line.whole());
        }
        i = i + 1;
    }
    proof {
        assert(all.take(i as int) =~= all);
    }
    out
}

/// An ASCII hexadecimal digit of either case.
pub open spec fn is_hex(c: char) -> bool {
    '0' <= c <= '9' || 'a' <= c <= 'f' || 'A' <= c <= 'F'
}

/// The number that decimal digits stand for.
pub open spec fn number_of(digits: Seq<char>) -> int
    decreases digits.len(),
{
    if digits.len() == 0 {
        0
    } else {
        10 * number_of(digits.drop_last()) + (digits.last() as int - 48)
    }
}

/// Only decimal digits, and at least one.
pub open spec fn is_number(s: Seq<char>) -> bool {
    s.len() > 0 && forall|i: int| 0 <= i < s.len() ==> '0' <= #[trigger] s[i] <= '9'
}

/// A text without a plus sign at its beginning.
pub open spec fn unsigned(s: Seq<char>) -> Seq<char> {
    if s.len() > 0 && s[0] == '+' {
        s.drop_first()
    } else {
        s
    }
}

/// A text read as a machine-size number: digits, after a plus sign or not, that fit.
pub open spec fn read_number(s: Seq<char>) -> Option<int> {
    let digits = unsigned(s);
    if is_number(digits) && number_of(digits) <= usize::MAX {
        Some(number_of(digits))
    } else {
        None
    }
}

proof fn lemma_number_grows(digits: Seq<char>, k: int)
    requires
        is_number(digits),
        0 <= k <= digits.len(),
    ensures
        0 <= number_of(digits.take(k)) <= number_of(digits),
    decreases digits.len(),
{
    if digits.len() == 1 {
        assert(digits.drop_last() =~= Seq::empty());
        assert(number_of(digits.drop_last()) == 0);
        assert('0' <= digits[0] <= '9');
        if k == 1 {
            assert(digits.take(1) =~= digits);
        } else {
            assert(digits.take(0) =~= Seq::empty());
        }
    } else {
        let front = digits.drop_last();
        assert forall|i: int| 0 <= i < front.len() implies '0' <= #[trigger] front[i] <= '9' by {
            assert(front[i] == digits[i]);
        }
        assert('0' <= digits[digits.len() - 1] <= '9');
        if k == digits.len() {
            assert(digits.take(k) =~= digits);
            lemma_number_grows(front, 0);
            assert(front.take(0) =~= Seq::empty());
        } else {
            lemma_number_grows(front, k);
            assert(front.take(k) =~= digits.take(k));
        }
    }
}

/// A text read as a machine-size number.
pub fn parse_usize(s: &[char]) -> (r: Option<usize>)
    ensures
        match read_number(s@) {
            Some(n) => r matches Some(m) && m == n,
            None => r is None,
        },
{
    let ghost digits = unsigned(s@);
    let start: usize = if s.len() > 0 && s[0] == '+' {
        1
    } else {
        0
    };
    proof {
        assert(digits =~= s@.skip(start as int));
    }
    if start >= s.len() {
        return None;
    }
    let mut i: usize = start;
    while i < s.len()
        invariant
            start <= i <= s.len(),
            start < s.len(),
            digits == s@.skip(start as int),
            digits == unsigned(s@),
            forall|k: int| 0 <= k < i - start ==> '0' <= #[trigger] digits[k] <= '9',
        decreases s.len() - i,
    {
        assert(digits[i - start] == s@[i as int]);
        let c: char = s[i];
        if c < '0' || c > '9' {
            assert(!is_number(digits));
            return None;
        }
        i = i + 1;
    }
    let mut value: usize = 0;
    i = start;
    while i < s.len()
        invariant
            start <= i <= s.len(),
            start < s.len(),
            digits == s@.skip(start as int),
            digits == unsigned(s@),
            is_number(digits),
            value == number_of(digits.take(i - start)),
        decreases s.len() - i,
    {
        let c: char = s[i];
        assert('0' <= digits[i - start] <= '9');
        let d: usize = (c as u32 - '0' as u32) as usize;
        proof {
            let next = digits.take(i + 1 - start);
            assert(next.drop_last() =~= digits.take(i - start));
            assert(next.last() == s@[i as int]);
            assert('0' <= digits[i - start] <= '9');
            lemma_number_grows(digits, i + 1 - start);
        }
        if value > (usize::MAX - d) / 10 {
            return None;
        }
        value = value * 10 + d;
        i = i + 1;
    }
    proof {
        assert(digits.take(s@.len() - start) =~= digits);
    }
    Some(value)
}

/// What a line tag says: a line number and a hash in lower case.
pub open spec fn read_tag(tag: Seq<char>) -> Option<(int, Seq<char>)> {
    let k = crate::text::first_at(tag, ':');
    let hash = tag.subrange(k + 1, tag.len() as int);
    if k < tag.len() && hash.len() > 0 && (forall|i: int|
        0 <= i < hash.len() ==> is_hex(#[trigger] hash[i])) {
        match read_number(tag.subrange(0, k)) {
            Some(n) => Some((n, hash.map_values(|c: char| crate::text::ascii_lower(c)))),
            None => None,
        }
    } else {
        None
    }
}

/// What a line tag says: a line number and a hash in lower case.
pub fn parse_line_tag(tag: &str) -> (r: Option<(usize, String)>)
    ensures
        match read_tag(tag@) {
            Some((n, hash)) => r matches Some((m, h)) && m == n && h@ == hash,
            None => r is None,
        },
{
    let chars: Vec<char> = crate::text::to_chars(tag);
    let mut k: usize = 0;
    while k < chars.len() && chars[k] != ':'
        invariant
            k <= chars.len(),
            forall|i: int| 0 <= i < k ==> #[trigger] chars@[i] != ':',
        decreases chars.len() - k,
    {
        k = k + 1;
    }
    proof {
        crate::text::lemma_first_at_is(chars@, ':', k as int);
    }
    if k >= chars.len() || k + 1 >= chars.len() {
        return None;
    }
    let ghost hash = tag@.subrange(k + 1, tag@.len() as int);
    let mut lower: String = String::new();
    let mut i: usize = k + 1;
    while i < chars.len()
        invariant
            k + 1 <= i <= chars.len(),
            chars@ == tag@,
            crate::text::first_at(tag@, ':') == k,
            hash == tag@.subrange(k + 1, tag@.len() as int),
            forall|j: int| 0 <= j < i - k - 1 ==> is_hex(#[trigger] hash[j]),
            lower@ =~= hash.take(i - k - 1).map_values(|c: char| crate::text::ascii_lower(c)),
        decreases chars.len() - i,
    {
        let c: char = chars[i];
        assert(hash[i - k - 1] == c);
        if !(('0' <= c && c <= '9') || ('a' <= c && c <= 'f') || ('A' <= c && c <= 'F')) {
            assert(!is_hex(hash[i - k - 1]));
            assert(crate::text::first_at(tag@, ':') == k);
            return None;
        }
        lower.push(crate::text::lower_char(c));
        i = i + 1;
        assert(hash.take(i - k - 1) =~= hash.take(i - k - 2).push(c));
    }
    assert(hash.take(i - k - 1) =~= hash);
    match parse_usize(vstd::slice::slice_subrange(chars.as_slice(), 0, k)) {
        Some(n) => Some((n, lower)),
        None => None,
    }
}

/// What a tag leads to: a line, or why it leads to none.
pub open spec fn located(lines: Seq<LineView>, tag: Seq<char>) -> Result<int, Seq<char>> {
    match read_tag(tag) {
        None => Err("invalid line tag `"@ + tag + "`; expected line:hash, e.g. 12:3af"@),
        Some((n, hash)) => if n == 0 {
            Err("invalid line tag `"@ + tag + "`; line numbers start at 1"@)
        } else if n > lines.len() {
            Err("line tag `"@ + tag + "` is outside the current file; read it again"@)
        } else if hash_of(lines[n - 1].body) != hash {
            Err(
                "line tag `"@ + tag + "` no longer matches current line "@ + crate::text::decimal(
                    n as nat,
                ) + " (now "@ + hash_of(lines[n - 1].body) + "); read the file again"@,
            )
        } else {
            Ok(n - 1)
        },
    }
}

/// The line that a tag names, if the file still has it there.
pub fn locate_tag(lines: &[TextLine], tag: &str) -> (r: Result<usize, String>)
    ensures
        match located(crate::text::views(lines@), tag@) {
            Ok(i) => r matches Ok(m) && m == i && m < lines@.len(),
            Err(why) => r matches Err(e) && e@ == why,
        },
{
    let parsed: Option<(usize, String)> = parse_line_tag(tag);
    match parsed {
        None => Err(
            crate::text::join3(
                "invalid line tag `",
                tag,
                "`; expected line:hash, e.g. 12:3af",
            ),
        ),
        Some((line_no, hash)) => {
            if line_no == 0 {
                return Err(
                    crate::text::join3(
                        "invalid line tag `",
                        tag,
                        "`; line numbers start at 1",
                    ),
                );
            }
            if line_no > lines.len() {
                return Err(
                    crate::text::join3(
                        "line tag `",
                        tag,
                        "` is outside the current file; read it again",
                    ),
                );
            }
            let current: String = line_hash(lines[line_no - 1].body.as_str());
            assert(crate::text::views(lines@)[line_no - 1] == lines@[line_no - 1]@);
            if !crate::text::same(current.as_str(), hash.as_str()) {
                let mut msg: String = crate::text::join3(
                    "line tag `",
                    tag,
                    "` no longer matches current line ",
                );
                msg.append(crate::text::to_decimal(line_no as u64).as_str());
                msg.append(" (now ");
                msg.append(current.as_str());
                msg.append("); read the file again");
                return Err(msg);
            }
            Ok(line_no - 1)
        },
    }
}

proof fn lemma_decimal_reads_back(n: nat)
    ensures
        is_number(crate::text::decimal(n)),
        number_of(crate::text::decimal(n)) == n,
    decreases n,
{
    let d = crate::text::decimal(n);
    if n < 10 {
        assert(d =~= seq![crate::text::digit(n)]);
        assert(d.drop_last() =~= Seq::empty());
        assert(number_of(d.drop_last()) == 0);
        assert(d.last() as int == 48 + n);
    } else {
        lemma_decimal_reads_back(n / 10);
        let front = crate::text::decimal(n / 10);
        assert(d.drop_last() =~= front);
        assert(d.last() as int == 48 + n % 10);
        assert forall|i: int| 0 <= i < d.len() implies '0' <= #[trigger] d[i] <= '9' by {
            if i < front.len() {
                assert(d[i] == front[i]);
            }
        }
    }
}

proof fn lemma_hash_is_lower_hex(body: Seq<char>)
    ensures
        hash_of(body).len() == 3,
        forall|i: int|
            0 <= i < 3 ==> is_hex(#[trigger] hash_of(body)[i]) && crate::text::ascii_lower(hash_of(body)[i])
                == hash_of(body)[i],
{
    let h = fnv(vstd::utf8::encode_utf8(body)) as int;
    assert(0 <= (h / 256) % 16 < 16);
    assert(0 <= (h / 16) % 16 < 16);
    assert(0 <= h % 16 < 16);
}

/// The tag that a line is shown with leads back to that line, as long as the file has not changed.
pub proof fn law_shown_tag_is_found(lines: Seq<LineView>, i: int)
    requires
        0 <= i < lines.len(),
        lines.len() <= usize::MAX,
    ensures
        located(lines, tag_of(i, lines[i].body)) == Ok::<int, Seq<char>>(i),
{
    let number = crate::text::decimal((i + 1) as nat);
    let hash = hash_of(lines[i].body);
    let tag = tag_of(i, lines[i].body);
    lemma_decimal_reads_back((i + 1) as nat);
    lemma_hash_is_lower_hex(lines[i].body);
    let k = number.len() as int;
    assert forall|j: int| 0 <= j < k implies #[trigger] tag[j] != ':' by {
        assert(tag[j] == number[j]);
        assert('0' <= number[j] <= '9');
    }
    assert(tag[k] == ':');
    crate::text::lemma_first_at_is(tag, ':', k);
    assert(tag.subrange(0, k) =~= number);
    assert(tag.subrange(k + 1, tag.len() as int) =~= hash);
    assert('0' <= number[0] <= '9');
    assert(unsigned(number) == number);
    assert(hash.map_values(|c: char| crate::text::ascii_lower(c)) =~= hash);
}

/// A tag whose hash is not that of the line at its number is refused.
pub proof fn law_stale_tag_is_refused(lines: Seq<LineView>, tag: Seq<char>, n: int, hash: Seq<char>)
    requires
        read_tag(tag) == Some((n, hash)),
        1 <= n <= lines.len(),
        hash_of(lines[n - 1].body) != hash,
    ensures
        located(lines, tag) is Err,
{
}

/// A text is cut into lines at its line feeds: a line that ends in one has it as its ending, together
/// with a carriage return before it; what stands behind the last one is a line without an ending.
pub proof fn law_lines_keep_their_endings(first: Seq<char>, rest: Seq<char>)
    requires
        forall|i: int| 0 <= i < first.len() ==> #[trigger] first[i] != '\n',
    ensures
        ({
            let cut = split(first + seq!['\n'] + rest);
            &&& cut.len() == 1 + split(rest).len()
            &&& cut.drop_first() == split(rest)
            &&& first.len() > 0 && first.last() == '\r' ==> cut[0].body == first.drop_last()
                && cut[0].eol == seq!['\r', '\n']
            &&& !(first.len() > 0 && first.last() == '\r') ==> cut[0].body == first && cut[0].eol == seq![
                '\n',
            ]
            &&& first.len() > 0 ==> split(first) == seq![
                LineView { body: first, eol: Seq::empty() },
            ]
            &&& split(Seq::<char>::empty()).len() == 0
        }),
{
    let s = first + seq!['\n'] + rest;
    let k = first.len() as int;
    assert forall|i: int| 0 <= i < k implies #[trigger] s[i] != '\n' by {
        assert(s[i] == first[i]);
    }
    assert(s[k] == '\n');
    crate::text::lemma_first_at_is(s, '\n', k);
    crate::text::lemma_first_at_is(first, '\n', k);
    assert(s.subrange(0, k) =~= first);
    assert(s.subrange(k + 1, s.len() as int) =~= rest);
    assert(split(s).drop_first() =~= split(rest));
}

/// A line ends in a line feed, in a carriage return and a line feed, or in nothing.
pub proof fn lemma_split_eol(text: Seq<char>, i: int)
    requires
        0 <= i < split(text).len(),
    ensures
        ({
            let eol = split(text)[i].eol;
            eol == Seq::<char>::empty() || eol == seq!['\n'] || eol == seq!['\r', '\n']
        }),
    decreases text.len(),
{
    crate::text::lemma_first_at(text, '\n');
    let k = crate::text::first_at(text, '\n');
    if text.len() > 0 && k < text.len() {
        let rest = text.subrange(k + 1, text.len() as int);
        if i > 0 {
            lemma_split_eol(rest, i - 1);
            assert(split(text)[i] == split(rest)[i - 1]);
        }
    }
}

/// Lines put together are each line's text and ending, one line after the other.
pub proof fn law_put_together_line_by_line(lines: Seq<LineView>, line: LineView)
    ensures
        put_together(Seq::<LineView>::empty()).len() == 0,
        put_together(lines.push(line)) == put_together(lines) + line.body + line.eol,
{
    assert(lines.push(line).drop_last() =~= lines);
    assert(put_together(lines) + (line.body + line.eol) =~= put_together(lines) + line.body
        + line.eol);
}

/// The value of a hexadecimal digit.
pub open spec fn hex_value(c: char) -> int {
    if '0' <= c <= '9' {
        c as int - 48
    } else {
        c as int - 87
    }
}

/// The hash of bytes is FNV-1a: from the offset basis, each byte is mixed in and the result multiplied by
/// the prime.
pub proof fn law_hash_mixes_every_byte(bytes: Seq<u8>, b: u8)
    ensures
        fnv(Seq::<u8>::empty()) == 0xcbf2_9ce4_8422_2325u64,
        fnv(bytes.push(b)) == (fnv(bytes) ^ (b as u64)).wrapping_mul(0x0100_0000_01b3u64),
{
    assert(bytes.push(b).drop_last() =~= bytes);
}

proof fn lemma_three_digits(h: int)
    requires
        h >= 0,
    ensures
        256 * ((h / 256) % 16) + 16 * ((h / 16) % 16) + h % 16 == h % 4096,
{
}

/// A line's hash is three hexadecimal digits in lower case that stand for the last twelve bits of the
/// hash of its bytes.
pub proof fn law_line_hash(line: Seq<char>, i: int)
    requires
        0 <= i < 3,
    ensures
        hash_of(line).len() == 3,
        '0' <= hash_of(line)[i] <= '9' || 'a' <= hash_of(line)[i] <= 'f',
        256 * hex_value(hash_of(line)[0]) + 16 * hex_value(hash_of(line)[1]) + hex_value(
            hash_of(line)[2],
        ) == fnv(vstd::utf8::encode_utf8(line)) as int % 4096,
{
    let h = fnv(vstd::utf8::encode_utf8(line)) as int;
    lemma_three_digits(h);
    let (x, y, z) = ((h / 256) % 16, (h / 16) % 16, h % 16);
    assert(hex_value(hex_digit(x)) == x && hex_value(hex_digit(y)) == y && hex_value(hex_digit(z))
        == z);
}

/// A line is shown as its number from one, a colon, its hash, a bar and the line itself, one line behind
/// the other.
pub proof fn law_lines_are_shown_with_tags(lines: Seq<LineView>, line: LineView)
    ensures
        tagged(Seq::<LineView>::empty()).len() == 0,
        tagged(lines.push(line)) == tagged(lines) + crate::text::decimal(lines.len() + 1) + seq![
            ':',
        ] + hash_of(line.body) + seq!['|'] + line.body + line.eol,
{
    assert(lines.push(line).drop_last() =~= lines);
    let tag = tag_of(lines.len() as int, line.body);
    assert(tagged(lines) + tag + seq!['|'] + (line.body + line.eol) =~= tagged(lines)
        + crate::text::decimal(lines.len() + 1) + seq![':'] + hash_of(line.body) + seq!['|']
        + line.body + line.eol);
}

/// A tag is a number that fits, a colon, and hexadecimal digits of either case, at least one; it says
/// the number and the digits in lower case. A text without a colon is no tag.
pub proof fn law_tags_are_number_and_hash(number: Seq<char>, hash: Seq<char>)
    requires
        number.len() > 0,
        forall|i: int| 0 <= i < number.len() ==> '0' <= #[trigger] number[i] <= '9',
        number_of(number) <= usize::MAX,
    ensures
        ({
            let tag = number + seq![':'] + hash;
            let sound = hash.len() > 0 && forall|i: int|
                0 <= i < hash.len() ==> ('0' <= #[trigger] hash[i] <= '9' || 'a' <= hash[i] <= 'f'
                    || 'A' <= hash[i] <= 'F');
            &&& sound ==> read_tag(tag) == Some(
                (number_of(number), crate::text::ascii_lowered(hash)),
            )
            &&& !sound ==> read_tag(tag) is None
            &&& read_tag(number) is None
        }),
{
    let tag = number + seq![':'] + hash;
    let k = number.len() as int;
    assert forall|i: int| 0 <= i < k implies #[trigger] tag[i] != ':' by {
        assert(tag[i] == number[i]);
    }
    assert(tag[k] == ':');
    crate::text::lemma_first_at_is(tag, ':', k);
    assert(tag.subrange(0, k) =~= number);
    assert(tag.subrange(k + 1, tag.len() as int) =~= hash);
    assert(number[0] != '+');
    assert forall|i: int| 0 <= i < number.len() implies #[trigger] number[i] != ':' by {
    }
    crate::text::lemma_first_at_is(number, ':', k);
    assert(hash.map_values(|c: char| crate::text::ascii_lower(c)) =~= crate::text::ascii_lowered(
        hash,
    ));
    if hash.len() > 0 && forall|i: int|
        0 <= i < hash.len() ==> ('0' <= #[trigger] hash[i] <= '9' || 'a' <= hash[i] <= 'f' || 'A'
            <= hash[i] <= 'F') {
        assert forall|i: int| 0 <= i < hash.len() implies is_hex(#[trigger] hash[i]) by {
        }
    } else if hash.len() > 0 {
        let i = choose|i: int|
            0 <= i < hash.len() && !('0' <= #[trigger] hash[i] <= '9' || 'a' <= hash[i] <= 'f' || 'A'
                <= hash[i] <= 'F');
        assert(!is_hex(hash[i]));
    }
}

/// A tag leads to a line exactly where it says that line's number and its present hash; every other tag
/// is refused, and told why: it is no tag, its number is zero or beyond the file, or the line changed.
pub proof fn law_tag_leads_to_its_line(lines: Seq<LineView>, tag: Seq<char>)
    ensures
        located(lines, tag) matches Ok(i) ==> 0 <= i < lines.len() && read_tag(tag) == Some(
            (i + 1, hash_of(lines[i].body)),
        ),
        read_tag(tag) matches Some((n, hash)) ==> (1 <= n <= lines.len() && hash_of(lines[n - 1].body)
            == hash ==> located(lines, tag) == Ok::<int, Seq<char>>(n - 1)),
        read_tag(tag) is None ==> located(lines, tag) == Err::<int, Seq<char>>(
            "invalid line tag `"@ + tag + "`; expected line:hash, e.g. 12:3af"@,
        ),
        read_tag(tag) matches Some((n, hash)) ==> (n == 0 ==> located(lines, tag) == Err::<
            int,
            Seq<char>,
        >("invalid line tag `"@ + tag + "`; line numbers start at 1"@)),
        read_tag(tag) matches Some((n, hash)) ==> (n > lines.len() ==> located(lines, tag) == Err::<
            int,
            Seq<char>,
        >("line tag `"@ + tag + "` is outside the current file; read it again"@)),
{
    if let Some((n, hash)) = read_tag(tag) {
        let k = crate::text::first_at(tag, ':');
        lemma_number_not_negative(unsigned(tag.subrange(0, k)));
    }
}

proof fn lemma_number_not_negative(digits: Seq<char>)
    requires
        is_number(digits),
    ensures
        number_of(digits) >= 0,
    decreases digits.len(),
{
    reveal_with_fuel(number_of, 2);
    assert('0' <= digits[digits.len() - 1] <= '9');
    assert(digits.last() as int >= 48);
    if digits.len() > 1 {
        let front = digits.drop_last();
        assert forall|i: int| 0 <= i < front.len() implies '0' <= #[trigger] front[i] <= '9' by {
            assert(front[i] == digits[i]);
        }
        lemma_number_not_negative(front);
    } else {
        assert(digits.drop_last() =~= Seq::empty());
    }
}

/// A number is read from its decimal digits, with or without a plus sign before them, and nothing else
/// is a number; what a machine-size number cannot hold is refused.
pub proof fn law_numbers_are_read_back(n: nat)
    requires
        n <= usize::MAX,
    ensures
        read_number(crate::text::decimal(n)) == Some(n as int),
        read_number(seq!['+'] + crate::text::decimal(n)) == Some(n as int),
        read_number(Seq::empty()) is None,
{
    let d = crate::text::decimal(n);
    crate::text::law_decimal_reads_back(n);
    lemma_same_number(d);
    assert forall|i: int| 0 <= i < d.len() implies '0' <= #[trigger] d[i] <= '9' by {
        assert(48 <= d[i] as int <= 57);
    }
    assert(d[0] != '+');
    assert((seq!['+'] + d).drop_first() =~= d);
}

proof fn lemma_same_number(digits: Seq<char>)
    ensures
        number_of(digits) == crate::text::value_of(digits),
    decreases digits.len(),
{
    if digits.len() > 0 {
        lemma_same_number(digits.drop_last());
    }
}

} // verus!
