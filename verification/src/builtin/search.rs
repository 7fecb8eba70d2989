//! Searching: glob patterns, literal text, directory walks, and what a command looks like.
use vstd::prelude::*;
use vstd::string::*;

verus! {

/// Whether a pattern matches a whole text: `*` stands for any run of bytes, `?` for any one byte,
/// every other byte for itself.
pub open spec fn globs(p: Seq<u8>, t: Seq<u8>) -> bool
    decreases p.len() + t.len(),
{
    if p.len() == 0 {
        t.len() == 0
    } else if p[0] == 42 {
        globs(p.drop_first(), t) || (t.len() > 0 && globs(p, t.drop_first()))
    } else if t.len() == 0 {
        false
    } else if p[0] == 63 || p[0] == t[0] {
        globs(p.drop_first(), t.drop_first())
    } else {
        false
    }
}

fn glob_from(p: &[u8], i: usize, t: &[u8], j: usize) -> (r: bool)
    requires
        i <= p@.len(),
        j <= t@.len(),
    ensures
        r == globs(p@.skip(i as int), t@.skip(j as int)),
    decreases (p@.len() - i) + (t@.len() - j),
{
    proof {
        if i < p@.len() {
            assert(p@.skip(i as int).drop_first() =~= p@.skip(i + 1));
        }
        if j < t@.len() {
            assert(t@.skip(j as int).drop_first() =~= t@.skip(j + 1));
        }
    }
    if i >= p.len() {
        j >= t.len()
    } else if p[i] == 42 {
        if glob_from(p, i + 1, t, j) {
            return true;
        }
        j < t.len() && glob_from(p, i, t, j + 1)
    } else if j >= t.len() {
        false
    } else if p[i] == 63 || p[i] == t[j] {
        glob_from(p, i + 1, t, j + 1)
    } else {
        false
    }
}

/// Whether a pattern with `*` and `?` matches a whole text.
pub fn glob_match(pattern: &str, text: &str) -> (r: bool)
    ensures
        r == globs(pattern.spec_bytes(), text.spec_bytes()),
{
    let p: &[u8] = pattern.as_bytes();
    let t: &[u8] = text.as_bytes();
    proof {
        assert(p@.skip(0) =~= p@);
        assert(t@.skip(0) =~= t@);
    }
    glob_from(p, 0, t, 0)
}

/// A pattern without `*` and `?` matches itself and nothing else.
pub proof fn law_glob_literal(p: Seq<u8>, t: Seq<u8>)
    requires
        forall|i: int| 0 <= i < p.len() ==> #[trigger] p[i] != 42 && p[i] != 63,
    ensures
        globs(p, t) == (p == t),
    decreases p.len(),
{
    if p.len() > 0 {
        assert(p[0] != 42 && p[0] != 63);
        let q = p.drop_first();
        assert forall|i: int| 0 <= i < q.len() implies #[trigger] q[i] != 42 && q[i] != 63 by {
            assert(q[i] == p[i + 1]);
        }
        if t.len() > 0 {
            law_glob_literal(q, t.drop_first());
            if p[0] == t[0] && q == t.drop_first() {
                assert(p =~= seq![p[0]] + q);
                assert(t =~= seq![p[0]] + q);
            }
        }
    } else if t.len() == 0 {
        assert(p =~= t);
    }
}

/// A single `*` matches everything.
pub proof fn law_glob_star(t: Seq<u8>)
    ensures
        globs(seq![42u8], t),
    decreases t.len(),
{
    if t.len() > 0 {
        law_glob_star(t.drop_first());
    } else {
        reveal_with_fuel(globs, 2);
        assert(seq![42u8].drop_first() =~= Seq::<u8>::empty());
    }
}

/// How many matches one search gives at most.
pub const MAX_MATCHES: usize = 200;

/// A line that a search found.
#[derive(Debug, PartialEq, Eq)]
pub struct GrepMatch {
    /// The file.
    pub path: String,
    /// The number of the line, from one.
    pub line: usize,
    /// The line's tag.
    pub tag: String,
    /// The line.
    pub text: String,
}

/// A [`GrepMatch`] with its texts as sequences of characters.
pub struct MatchView {
    /// The file.
    pub path: Seq<char>,
    /// The number of the line, from one.
    pub line: int,
    /// The line's tag.
    pub tag: Seq<char>,
    /// The line.
    pub text: Seq<char>,
}

impl View for GrepMatch {
    type V = MatchView;

    open spec fn view(&self) -> MatchView {
        MatchView { path: self.path@, line: self.line as int, tag: self.tag@, text: self.text@ }
    }
}

/// The matches among the first `n` lines: those whose searched form holds `needle`.
pub open spec fn found(
    path: Seq<char>,
    lines: Seq<Seq<char>>,
    hays: Seq<Seq<char>>,
    needle: Seq<char>,
    n: int,
) -> Seq<MatchView>
    decreases n,
{
    if n <= 0 {
        Seq::empty()
    } else {
        let before = found(path, lines, hays, needle, n - 1);
        if crate::text::occurs(hays[n - 1], needle) {
            before.push(
                MatchView {
                    path,
                    line: n,
                    tag: super::lines::tag_of(n - 1, lines[n - 1]),
                    text: lines[n - 1],
                },
            )
        } else {
            before
        }
    }
}

/// At most the first `MAX_MATCHES` of a list.
pub open spec fn capped(all: Seq<MatchView>) -> Seq<MatchView> {
    if all.len() <= MAX_MATCHES {
        all
    } else {
        all.take(MAX_MATCHES as int)
    }
}

proof fn lemma_found_prefix(
    path: Seq<char>,
    lines: Seq<Seq<char>>,
    hays: Seq<Seq<char>>,
    needle: Seq<char>,
    m: int,
    n: int,
)
    requires
        0 <= m <= n,
    ensures
        found(path, lines, hays, needle, m).is_prefix_of(found(path, lines, hays, needle, n)),
    decreases n - m,
{
    if m < n {
        lemma_found_prefix(path, lines, hays, needle, m, n - 1);
        let a = found(path, lines, hays, needle, m);
        let b = found(path, lines, hays, needle, n - 1);
        let c = found(path, lines, hays, needle, n);
        assert(a =~= c.subrange(0, a.len() as int));
    } else {
        let a = found(path, lines, hays, needle, m);
        assert(a =~= a.subrange(0, a.len() as int));
    }
}

/// Add the matches of one file to those found so far, up to the limit. `hays` holds the lines in the
/// form that is searched.
pub fn collect_matches(
    path: &str,
    lines: &[String],
    hays: &[String],
    needle: &str,
    matches: &mut Vec<GrepMatch>,
)
    requires
        lines@.len() == hays@.len(),
        old(matches)@.len() <= MAX_MATCHES,
    ensures
        crate::text::views(final(matches)@) == capped(
            crate::text::views(old(matches)@) + found(
                path@,
                crate::text::views(lines@),
                crate::text::views(hays@),
                needle@,
                lines@.len() as int,
            ),
        ),
{
    let ghost start = crate::text::views(matches@);
    let ghost all = crate::text::views(lines@);
    let ghost forms = crate::text::views(hays@);
    let mut i: usize = 0;
    proof {
        assert(start + found(path@, all, forms, needle@, 0) =~= start);
    }
    while i < lines.len()
        invariant_except_break
            i <= lines.len(),
            lines@.len() == hays@.len(),
            all == crate::text::views(lines@),
            forms == crate::text::views(hays@),
            matches@.len() <= MAX_MATCHES,
            crate::text::views(matches@) == start + found(path@, all, forms, needle@, i as int),
        ensures
            crate::text::views(matches@) == capped(
                start + found(path@, all, forms, needle@, lines@.len() as int),
            ),
        decreases lines.len() - i,
    {
        let ghost before = crate::text::views(matches@);
        let ghost whole = start + found(path@, all, forms, needle@, lines@.len() as int);
        if matches.len() >= MAX_MATCHES {
            proof {
                lemma_found_prefix(path@, all, forms, needle@, i as int, lines@.len() as int);
                let f = found(path@, all, forms, needle@, i as int);
                let g = found(path@, all, forms, needle@, lines@.len() as int);
                assert(before =~= whole.take(MAX_MATCHES as int)) by {
                    assert forall|k: int| 0 <= k < before.len() implies before[k] == whole[k] by {
                        if k >= start.len() {
                            assert(f[k - start.len()] == g.subrange(0, f.len() as int)[k
                                - start.len()]);
                        }
                    }
                }
                if whole.len() == MAX_MATCHES {
                    assert(whole.take(MAX_MATCHES as int) =~= whole);
                }
            }
            break;
        }
        proof {
            assert(all[i as int] == lines@[i as int]@);
            assert(forms[i as int] == hays@[i as int]@);
        }
        if crate::text::contains(hays[i].as_str(), needle) {
            matches.push(
                GrepMatch {
                    path: path.to_owned(),
                    line: i + 1,
                    tag: super::lines::line_tag(i, lines[i].as_str()),
                    text: lines[i].clone(),
                },
            );
            proof {
                let f = found(path@, all, forms, needle@, i as int);
                let m = matches@[matches@.len() - 1]@;
                assert(crate::text::views(matches@) =~= before.push(m));
                assert(start + f.push(m) =~= (start + f).push(m));
            }
        }
        i = i + 1;
    }
}

/// The form of a line that is searched: itself, or in lower case.
pub open spec fn searched_form(line: Seq<char>, case_sensitive: bool) -> Seq<char> {
    if case_sensitive {
        line
    } else {
        crate::text::lowercase_of(line)
    }
}

/// Search one file's text and add what is found to the matches so far, up to the limit.
pub fn search_text(
    path: &str,
    text: &str,
    pattern: &str,
    case_sensitive: bool,
    matches: &mut Vec<GrepMatch>,
)
    requires
        old(matches)@.len() <= MAX_MATCHES,
    ensures
        crate::text::views(final(matches)@) == capped(
            crate::text::views(old(matches)@) + found(
                path@,
                crate::text::lines_of(text@),
                crate::text::lines_of(text@).map_values(
                    |l: Seq<char>| searched_form(l, case_sensitive),
                ),
                searched_form(pattern@, case_sensitive),
                crate::text::lines_of(text@).len() as int,
            ),
        ),
{
    let lines: Vec<String> = crate::text::lines(text);
    let ghost all = crate::text::lines_of(text@);
    let ghost forms = all.map_values(|l: Seq<char>| searched_form(l, case_sensitive));
    let mut hays: Vec<String> = Vec::new();
    let mut i: usize = 0;
    while i < lines.len()
        invariant
            i <= lines.len(),
            hays@.len() == i,
            all == crate::text::views(lines@),
            forms == all.map_values(|l: Seq<char>| searched_form(l, case_sensitive)),
            crate::text::views(hays@) =~= forms.take(i as int),
        decreases lines.len() - i,
    {
        let ghost before = crate::text::views(hays@);
        assert(all[i as int] == lines@[i as int]@);
        if case_sensitive {
            hays.push(lines[i].clone());
        } else {
            hays.push(crate::text::lowercase(lines[i].as_str()));
        }
        i = i + 1;
        proof {
            assert(crate::text::views(hays@) =~= before.push(forms[i - 1]));
            assert(forms.take(i as int) =~= forms.take(i - 1).push(forms[i - 1]));
        }
    }
    assert(forms.take(i as int) =~= forms);
    let needle: String = if case_sensitive {
        pattern.to_owned()
    } else {
        crate::text::lowercase(pattern)
    };
    collect_matches(path, lines.as_slice(), hays.as_slice(), needle.as_str(), matches);
}

/// Whether a path has one of the endings of files that hold no text.
pub open spec fn looks_binary(path: Seq<char>) -> bool {
    super::paths::extension_of(path) matches Some(e) && {
        ||| e == "png"@
        ||| e == "jpg"@
        ||| e == "jpeg"@
        ||| e == "gif"@
        ||| e == "webp"@
        ||| e == "pdf"@
        ||| e == "zip"@
        ||| e == "gz"@
        ||| e == "xz"@
        ||| e == "mp3"@
        ||| e == "mp4"@
    }
}

/// Whether a path has one of the endings of files that hold no text.
pub fn is_probably_binary(path: &str) -> (r: bool)
    ensures
        r == looks_binary(path@),
{
    match super::paths::extension(path) {
        Some(ext) => {
            let e: &str = ext.as_str();
            crate::text::same(e, "png") || crate::text::same(e, "jpg") || crate::text::same(
                e,
                "jpeg",
            ) || crate::text::same(e, "gif") || crate::text::same(e, "webp") || crate::text::same(
                e,
                "pdf",
            ) || crate::text::same(e, "zip") || crate::text::same(e, "gz") || crate::text::same(
                e,
                "xz",
            ) || crate::text::same(e, "mp3") || crate::text::same(e, "mp4")
        },
        None => false,
    }
}

/// A file that a search comes to: its path, and its text where it can be read.
pub struct FileView {
    /// The path.
    pub path: Seq<char>,
    /// The text.
    pub text: Option<Seq<char>>,
}

/// What a file adds to a search: nothing where it looks binary or cannot be read.
pub open spec fn found_in(file: FileView, pattern: Seq<char>, case_sensitive: bool) -> Seq<
    MatchView,
> {
    match file.text {
        Some(text) => if looks_binary(file.path) {
            Seq::empty()
        } else {
            let lines = crate::text::lines_of(text);
            found(
                file.path,
                lines,
                lines.map_values(|l: Seq<char>| searched_form(l, case_sensitive)),
                searched_form(pattern, case_sensitive),
                lines.len() as int,
            )
        },
        None => Seq::empty(),
    }
}

/// What there is to be found in files, in their order.
pub open spec fn found_in_all(files: Seq<FileView>, pattern: Seq<char>, case_sensitive: bool) -> Seq<
    MatchView,
>
    decreases files.len(),
{
    if files.len() == 0 {
        Seq::empty()
    } else {
        found_in_all(files.drop_last(), pattern, case_sensitive) + found_in(
            files.last(),
            pattern,
            case_sensitive,
        )
    }
}

/// The matches of a search after one more file: nothing comes in any more once the limit is reached.
pub open spec fn searched_more(
    before: Seq<MatchView>,
    file: FileView,
    pattern: Seq<char>,
    case_sensitive: bool,
) -> Seq<MatchView> {
    if before.len() < MAX_MATCHES {
        capped(before + found_in(file, pattern, case_sensitive))
    } else {
        before
    }
}

/// The matches of a search that goes from file to file, and opens none any more once the limit is
/// reached.
pub open spec fn searched(files: Seq<FileView>, pattern: Seq<char>, case_sensitive: bool) -> Seq<
    MatchView,
>
    decreases files.len(),
{
    if files.len() == 0 {
        Seq::empty()
    } else {
        searched_more(
            searched(files.drop_last(), pattern, case_sensitive),
            files.last(),
            pattern,
            case_sensitive,
        )
    }
}

/// A search of one more file goes on from where it stood.
pub proof fn lemma_searched_push(
    files: Seq<FileView>,
    file: FileView,
    pattern: Seq<char>,
    case_sensitive: bool,
)
    ensures
        searched(files.push(file), pattern, case_sensitive) == searched_more(
            searched(files, pattern, case_sensitive),
            file,
            pattern,
            case_sensitive,
        ),
{
    assert(files.push(file).drop_last() =~= files);
}

/// A file that looks binary, or that is come to once the limit is reached, need not be opened: it
/// adds the same as one that cannot be read.
pub proof fn law_unwanted_file_adds_nothing(
    before: Seq<MatchView>,
    file: FileView,
    pattern: Seq<char>,
    case_sensitive: bool,
)
    requires
        before.len() >= MAX_MATCHES || looks_binary(file.path),
    ensures
        searched_more(before, file, pattern, case_sensitive) == before,
        searched_more(before, FileView { text: None, ..file }, pattern, case_sensitive) == before,
{
    assert(before + Seq::<MatchView>::empty() =~= before);
}

/// A search gives the first matches that there are in all files, up to the limit: what it leaves
/// unopened changes nothing.
pub proof fn law_search_gives_the_first(
    files: Seq<FileView>,
    pattern: Seq<char>,
    case_sensitive: bool,
)
    ensures
        searched(files, pattern, case_sensitive) == capped(
            found_in_all(files, pattern, case_sensitive),
        ),
    decreases files.len(),
{
    if files.len() > 0 {
        law_search_gives_the_first(files.drop_last(), pattern, case_sensitive);
        let all = found_in_all(files.drop_last(), pattern, case_sensitive);
        let more = found_in(files.last(), pattern, case_sensitive);
        if all.len() >= MAX_MATCHES {
            assert(capped(all) =~= all.take(MAX_MATCHES as int));
            assert((all + more).take(MAX_MATCHES as int) =~= all.take(MAX_MATCHES as int));
        }
    }
}

/// A file or a directory with what it holds, in the order in which the directory lists it.
#[derive(Debug)]
pub struct DirTree {
    /// The path.
    pub path: String,
    /// Whether it is a directory.
    pub is_dir: bool,
    /// What a directory holds.
    pub children: Vec<DirTree>,
}

/// What a walk visits from a directory on, and the count after it, where `seen` were visited before
/// and the walk stops at `max`.
pub open spec fn walk_dir(node: DirTree, seen: int, max: int) -> (Seq<Seq<char>>, int)
    decreases node,
{
    if seen >= max {
        (Seq::empty(), seen)
    } else {
        let (below, after) = walk_children(node.children@, seen + 1, max);
        (seq![node.path@] + below, after)
    }
}

/// What a walk visits among the entries of a directory.
pub open spec fn walk_children(children: Seq<DirTree>, seen: int, max: int) -> (
    Seq<Seq<char>>,
    int,
)
    decreases children,
{
    if children.len() == 0 {
        (Seq::empty(), seen)
    } else {
        let first = children[0];
        let (here, after) = if first.is_dir {
            walk_dir(first, seen, max)
        } else {
            (seq![first.path@], seen + 1)
        };
        if after >= max {
            (here, after)
        } else {
            let (rest, end) = walk_children(children.drop_first(), after, max);
            (here + rest, end)
        }
    }
}

/// How many entries a walk visits before it stops: one for every 64 bytes of `cap`, at least 100 and
/// at most 10 000.
pub open spec fn walk_limit(cap: int) -> int {
    crate::capture::nearest_in(cap / 64, 100, 10_000)
}

fn walk_into(node: &DirTree, seen: usize, max: usize, out: &mut Vec<String>) -> (r: usize)
    requires
        max <= 10_000,
        seen <= max + 1,
    ensures
        r == walk_dir(*node, seen as int, max as int).1,
        r <= max + 1,
        crate::text::views(final(out)@) == crate::text::views(old(out)@) + walk_dir(
            *node,
            seen as int,
            max as int,
        ).0,
    decreases node,
{
    let ghost start = crate::text::views(out@);
    if seen >= max {
        assert(start + Seq::<Seq<char>>::empty() =~= start);
        return seen;
    }
    let ghost (below, end) = walk_children(node.children@, seen + 1, max as int);
    out.push(node.path.clone());
    let mut count: usize = seen + 1;
    let mut i: usize = 0;
    proof {
        assert(node.children@.skip(0) =~= node.children@);
        assert(crate::text::views(out@) =~= start + seq![node.path@]);
        assert(start + seq![node.path@] + below =~= start + (seq![node.path@] + below));
    }
    while i < node.children.len()
        invariant_except_break
            i <= node.children.len(),
            max <= 10_000,
            count <= max,
            crate::text::views(out@) + walk_children(
                node.children@.skip(i as int),
                count as int,
                max as int,
            ).0 == start + (seq![node.path@] + below),
            walk_children(node.children@.skip(i as int), count as int, max as int).1 == end,
        ensures
            count == end,
            count <= max + 1,
            crate::text::views(out@) == start + (seq![node.path@] + below),
        decreases node.children.len() - i,
    {
        let ghost before = crate::text::views(out@);
        let ghost rest = node.children@.skip(i as int);
        let child: &DirTree = &node.children[i];
        proof {
            assert(rest[0] == *child);
            assert(rest.drop_first() =~= node.children@.skip(i + 1));
        }
        let ghost here = if child.is_dir {
            walk_dir(*child, count as int, max as int).0
        } else {
            seq![child.path@]
        };
        if child.is_dir {
            assert(decreases_to!(node => node.children@[i as int]));
            count = walk_into(child, count, max, out);
        } else {
            count = count + 1;
            out.push(child.path.clone());
        }
        proof {
            assert(crate::text::views(out@) =~= before + here);
        }
        if count >= max {
            break;
        }
        proof {
            let tail = walk_children(node.children@.skip(i + 1), count as int, max as int).0;
            assert(before + (here + tail) =~= before + here + tail);
        }
        i = i + 1;
        proof {
            if i == node.children.len() {
                assert(node.children@.skip(i as int) =~= Seq::empty());
                assert(crate::text::views(out@) + Seq::<Seq<char>>::empty() =~= crate::text::views(
                    out@,
                ));
            }
        }
    }
    count
}

/// How many entries a walk visits before it stops.
pub fn walk_max(cap: usize) -> (r: usize)
    ensures
        r == walk_limit(cap as int),
{
    let n: usize = cap / 64;
    if n < 100 {
        100
    } else if n > 10_000 {
        10_000
    } else {
        n
    }
}

/// The paths that a walk visits: a directory before what it holds, in the order of its listing,
/// until the limit is reached.
pub fn walk(root: &DirTree, cap: usize) -> (r: Vec<String>)
    ensures
        crate::text::views(r@) == walk_dir(*root, 0, walk_limit(cap as int)).0,
{
    let max: usize = walk_max(cap);
    let mut out: Vec<String> = Vec::new();
    walk_into(root, 0, max, &mut out);
    proof {
        let v = walk_dir(*root, 0, max as int).0;
        assert(Seq::<Seq<char>>::empty() + v =~= v);
    }
    out
}

/// An entry of a listing.
#[derive(Debug, PartialEq, Eq)]
pub struct ListedEntry {
    /// The path.
    pub path: String,
    /// Whether it is a directory.
    pub is_dir: bool,
}

/// An entry of a listing: path, and whether it is a directory.
pub open spec fn entry_view(e: ListedEntry) -> (Seq<char>, bool) {
    (e.path@, e.is_dir)
}

/// Everything below a directory in the order of a listing: each entry, and, where the listing goes
/// down, what it holds right behind it.
pub open spec fn entries_below(children: Seq<DirTree>, recursive: bool) -> Seq<(Seq<char>, bool)>
    decreases children,
{
    if children.len() == 0 {
        Seq::empty()
    } else {
        let first = children[0];
        let inner = if recursive && first.is_dir {
            entries_below(first.children@, recursive)
        } else {
            Seq::empty()
        };
        seq![(first.path@, first.is_dir)] + inner + entries_below(children.drop_first(), recursive)
    }
}

/// At most the first `n` of a list.
pub open spec fn at_most<T>(all: Seq<T>, n: int) -> Seq<T> {
    if all.len() <= n {
        all
    } else {
        all.take(n)
    }
}

fn list_into(node: &DirTree, recursive: bool, max: usize, out: &mut Vec<ListedEntry>)
    requires
        old(out)@.len() <= max,
    ensures
        final(out)@.len() <= max,
        final(out)@.map_values(|e: ListedEntry| entry_view(e)) == at_most(
            old(out)@.map_values(|e: ListedEntry| entry_view(e)) + entries_below(
                node.children@,
                recursive,
            ),
            max as int,
        ),
    decreases node,
{
    let ghost view = |e: ListedEntry| entry_view(e);
    let ghost start = out@.map_values(view);
    let ghost whole = start + entries_below(node.children@, recursive);
    let mut i: usize = 0;
    proof {
        assert(node.children@.skip(0) =~= node.children@);
        assert(start.len() <= max);
    }
    while i < node.children.len()
        invariant_except_break
            i <= node.children.len(),
            out@.len() <= max,
            view == (|e: ListedEntry| entry_view(e)),
            at_most(
                out@.map_values(view) + entries_below(node.children@.skip(i as int), recursive),
                max as int,
            ) == at_most(whole, max as int),
        ensures
            out@.len() <= max,
            view == (|e: ListedEntry| entry_view(e)),
            out@.map_values(view) == at_most(whole, max as int),
        decreases node.children.len() - i,
    {
        let ghost before = out@.map_values(view);
        let ghost rest = node.children@.skip(i as int);
        let ghost tail = entries_below(node.children@.skip(i + 1), recursive);
        let child: &DirTree = &node.children[i];
        proof {
            assert(rest[0] == *child);
            assert(rest.drop_first() =~= node.children@.skip(i + 1));
        }
        if out.len() >= max {
            proof {
                let more = before + entries_below(rest, recursive);
                assert(more.take(max as int) =~= before);
                assert(more.len() > max);
            }
            break;
        }
        out.push(ListedEntry { path: child.path.clone(), is_dir: child.is_dir });
        let ghost one = (child.path@, child.is_dir);
        let ghost inner = if recursive && child.is_dir {
            entries_below(child.children@, recursive)
        } else {
            Seq::empty()
        };
        proof {
            assert(out@.map_values(view) =~= before.push(one));
            assert(before.push(one) + inner + tail =~= before + (seq![one] + inner + tail));
        }
        if recursive && child.is_dir {
            assert(decreases_to!(node => node.children@[i as int]));
            let ghost pushed = out@.map_values(view);
            list_into(child, recursive, max, out);
            proof {
                let x = pushed + inner;
                assert(out@.map_values(view) == at_most(x, max as int));
                assert(at_most(at_most(x, max as int) + tail, max as int) =~= at_most(
                    x + tail,
                    max as int,
                ));
            }
        } else {
            proof {
                assert(before.push(one) + inner =~= before.push(one));
            }
        }
        i = i + 1;
        proof {
            if i == node.children.len() {
                assert(node.children@.skip(i as int) =~= Seq::empty());
                let v = out@.map_values(view);
                assert(v + Seq::<(Seq<char>, bool)>::empty() =~= v);
            }
        }
    }
    proof {
        if node.children.len() == 0 {
            assert(whole =~= start);
        }
    }
}

/// How many entries a listing holds: one for every 64 bytes of `cap`.
pub fn list_max(cap: usize) -> (r: usize)
    ensures
        r == cap as int / 64,
{
    cap / 64
}

/// The entries of a directory, with what they hold where `recursive` asks for it, one for every 64
/// bytes of `cap` at most.
pub fn collect_entries(node: &DirTree, recursive: bool, cap: usize) -> (r: Vec<ListedEntry>)
    ensures
        r@.map_values(|e: ListedEntry| entry_view(e)) == at_most(
            entries_below(node.children@, recursive),
            cap as int / 64,
        ),
{
    let mut out: Vec<ListedEntry> = Vec::new();
    let ghost view = |e: ListedEntry| entry_view(e);
    list_into(node, recursive, list_max(cap), &mut out);
    proof {
        let v = entries_below(node.children@, recursive);
        assert(Seq::<ListedEntry>::empty().map_values(view) =~= Seq::<(Seq<char>, bool)>::empty());
        assert(Seq::<(Seq<char>, bool)>::empty() + v =~= v);
    }
    out
}

/// The paths of everything below a directory, each before what it holds.
pub open spec fn paths_below(children: Seq<DirTree>) -> Seq<Seq<char>> {
    entries_below(children, true).map_values(|e: (Seq<char>, bool)| e.0)
}

proof fn lemma_paths_below(children: Seq<DirTree>)
    requires
        children.len() > 0,
    ensures
        paths_below(children) == seq![children[0].path@] + (if children[0].is_dir {
            paths_below(children[0].children@)
        } else {
            Seq::empty()
        }) + paths_below(children.drop_first()),
{
    let inner = if children[0].is_dir {
        paths_below(children[0].children@)
    } else {
        Seq::empty()
    };
    assert(paths_below(children) =~= seq![children[0].path@] + inner + paths_below(
        children.drop_first(),
    ));
}

/// `part` is the whole list or, where a walk stopped at `end`, a part from its front.
spec fn is_front(part: Seq<Seq<char>>, all: Seq<Seq<char>>, end: int, max: int) -> bool {
    &&& part.len() <= all.len()
    &&& part == all.take(part.len() as int)
    &&& end < max ==> part.len() == all.len()
}

proof fn lemma_walk_dir(node: DirTree, seen: int, max: int)
    requires
        seen <= max,
    ensures
        ({
            let (part, end) = walk_dir(node, seen, max);
            &&& end == seen + part.len()
            &&& end <= max + 1
            &&& is_front(part, seq![node.path@] + paths_below(node.children@), end, max)
        }),
    decreases node,
{
    let (part, end) = walk_dir(node, seen, max);
    let all = seq![node.path@] + paths_below(node.children@);
    if seen < max {
        lemma_walk_children(node.children@, seen + 1, max);
        let (below, _) = walk_children(node.children@, seen + 1, max);
        assert(part =~= all.take(part.len() as int)) by {
            assert(below == paths_below(node.children@).take(below.len() as int));
        }
    } else {
        assert(part =~= all.take(0));
    }
}

proof fn lemma_walk_children(children: Seq<DirTree>, seen: int, max: int)
    requires
        seen <= max,
    ensures
        ({
            let (part, end) = walk_children(children, seen, max);
            &&& end == seen + part.len()
            &&& end <= max + 1
            &&& is_front(part, paths_below(children), end, max)
        }),
    decreases children,
{
    let (part, end) = walk_children(children, seen, max);
    let all = paths_below(children);
    if children.len() == 0 {
        assert(part =~= all.take(0));
        assert(all =~= Seq::empty());
    } else {
        let first = children[0];
        lemma_paths_below(children);
        let inner = if first.is_dir {
            paths_below(first.children@)
        } else {
            Seq::empty()
        };
        let head = seq![first.path@] + inner;
        let tail = paths_below(children.drop_first());
        assert(all == head + tail);
        if first.is_dir {
            lemma_walk_dir(first, seen, max);
        }
        let (here, after) = if first.is_dir {
            walk_dir(first, seen, max)
        } else {
            (seq![first.path@], seen + 1)
        };
        assert(here =~= head.take(here.len() as int));
        if after < max {
            lemma_walk_children(children.drop_first(), after, max);
            let (rest, _) = walk_children(children.drop_first(), after, max);
            assert(here =~= head);
            assert(rest == tail.take(rest.len() as int));
        }
        assert(part =~= all.take(part.len() as int));
    }
}

/// What a walk visits is the front of everything there is, each directory before what it holds: all
/// of it, or as many entries as the limit says, and at most one more. So nothing behind those
/// entries has to be read for it.
pub proof fn law_walk_visits_the_front(root: DirTree, cap: nat)
    ensures
        ({
            let all = seq![root.path@] + paths_below(root.children@);
            let visited = walk_dir(root, 0, walk_limit(cap as int)).0;
            &&& visited.len() <= all.len()
            &&& visited == all.take(visited.len() as int)
            &&& visited.len() <= walk_limit(cap as int) + 1
            &&& visited.len() == all.len() || visited.len() >= walk_limit(cap as int)
        }),
{
    lemma_walk_dir(root, 0, walk_limit(cap as int));
}

/// What separates the words of a command.
pub open spec fn is_break(c: char) -> bool {
    crate::text::is_space(c) || c == ';' || c == '&' || c == '|'
}

/// Whether a word of a command stands at `i .. j`.
pub open spec fn is_word(s: Seq<char>, i: int, j: int) -> bool {
    &&& 0 <= i <= j <= s.len()
    &&& i == 0 || is_break(s[i - 1])
    &&& j == s.len() || is_break(s[j])
    &&& forall|k: int| i <= k < j ==> !is_break(#[trigger] s[k])
}

/// The commands that reach out to a network.
pub open spec fn is_network_word(w: Seq<char>) -> bool {
    ||| w == "curl"@
    ||| w == "wget"@
    ||| w == "nc"@
    ||| w == "ncat"@
    ||| w == "ssh"@
    ||| w == "scp"@
    ||| w == "rsync"@
}

/// Whether some word of a command reaches out to a network.
pub open spec fn uses_network(s: Seq<char>) -> bool {
    exists|i: int, j: int| #[trigger] is_word(s, i, j) && is_network_word(s.subrange(i, j))
}

fn network_word(w: &str) -> (r: bool)
    ensures
        r == is_network_word(w@),
{
    crate::text::same(w, "curl") || crate::text::same(w, "wget") || crate::text::same(w, "nc")
        || crate::text::same(w, "ncat") || crate::text::same(w, "ssh") || crate::text::same(
        w,
        "scp",
    ) || crate::text::same(w, "rsync")
}

/// Whether some word of a command reaches out to a network.
pub fn looks_like_network_command(command: &str) -> (r: bool)
    ensures
        r == uses_network(command@),
{
    let s: Vec<char> = crate::text::to_chars(command);
    let ghost all = command@;
    let mut start: usize = 0;
    let mut i: usize = 0;
    loop
        invariant
            start <= i <= s.len(),
            s@ == all,
            all == command@,
            start == 0 || is_break(all[start - 1]),
            forall|k: int| start <= k < i ==> !is_break(#[trigger] all[k]),
            forall|a: int, b: int|
                #[trigger] is_word(all, a, b) && b < i ==> !is_network_word(all.subrange(a, b)),
        decreases s.len() - i,
    {
        let at_end: bool = i >= s.len();
        let stop: bool = if at_end {
            true
        } else {
            let c: char = s[i];
            crate::text::is_whitespace(c) || c == ';' || c == '&' || c == '|'
        };
        if stop {
            let word: String = crate::text::from_chars(
                vstd::slice::slice_subrange(s.as_slice(), start, i),
            );
            assert(is_word(all, start as int, i as int));
            if network_word(word.as_str()) {
                return true;
            }
            proof {
                assert forall|a: int, b: int| #[trigger] is_word(all, a, b) && b <= i implies
                    !is_network_word(all.subrange(a, b)) by {
                    if b == i {
                        if a < start {
                            assert(is_break(all[start - 1]));
                        } else if a > start {
                            assert(is_break(all[a - 1]));
                        }
                    }
                }
            }
            if at_end {
                proof {
                    assert forall|a: int, b: int| #[trigger] is_word(all, a, b) implies
                        !is_network_word(all.subrange(a, b)) by {
                        assert(b <= i);
                    }
                }
                return false;
            }
            start = i + 1;
        }
        proof {
            if !stop {
                assert forall|a: int, b: int| #[trigger] is_word(all, a, b) && b <= i implies
                    !is_network_word(all.subrange(a, b)) by {
                    assert(b != i);
                }
            }
        }
        i = i + 1;
    }
}

/// The index of the first white space, or the length.
pub open spec fn first_gap(s: Seq<char>) -> int
    decreases s.len(),
{
    if s.len() == 0 || crate::text::is_space(s[0]) {
        0
    } else {
        1 + first_gap(s.drop_first())
    }
}

/// The first word of a text, empty where there is none.
pub open spec fn leading_word(s: Seq<char>) -> Seq<char> {
    let t = s.skip(crate::text::first_word(s));
    t.take(first_gap(t))
}

/// The commands that only read.
pub open spec fn is_reading_word(w: Seq<char>) -> bool {
    ||| w == "cat"@
    ||| w == "ls"@
    ||| w == "pwd"@
    ||| w == "rg"@
    ||| w == "grep"@
    ||| w == "find"@
    ||| w == "sed"@
    ||| w == "head"@
    ||| w == "tail"@
    ||| w == "wc"@
    ||| w == "git"@
}

proof fn lemma_first_gap(s: Seq<char>, k: int)
    requires
        0 <= k <= s.len(),
        forall|i: int| 0 <= i < k ==> !crate::text::is_space(#[trigger] s[i]),
        k < s.len() ==> crate::text::is_space(s[k]),
    ensures
        first_gap(s) == k,
    decreases k,
{
    if k > 0 {
        assert(!crate::text::is_space(s[0]));
        let f = s.drop_first();
        assert forall|i: int| 0 <= i < k - 1 implies !crate::text::is_space(#[trigger] f[i]) by {
            assert(f[i] == s[i + 1]);
        }
        lemma_first_gap(f, k - 1);
    }
}

/// The first word of a text, empty where there is none.
pub fn first_word_of(text: &str) -> (r: String)
    ensures
        r@ == leading_word(text@),
{
    let s: Vec<char> = crate::text::to_chars(text);
    let mut lo: usize = 0;
    while lo < s.len() && crate::text::is_whitespace(s[lo])
        invariant
            lo <= s.len(),
            forall|i: int| 0 <= i < lo ==> crate::text::is_space(#[trigger] s@[i]),
        decreases s.len() - lo,
    {
        lo = lo + 1;
    }
    proof {
        crate::text::lemma_first_word_at(s@, lo as int);
    }
    let ghost t = s@.skip(lo as int);
    let mut hi: usize = lo;
    while hi < s.len() && !crate::text::is_whitespace(s[hi])
        invariant
            lo <= hi <= s.len(),
            t == s@.skip(lo as int),
            forall|i: int| 0 <= i < hi - lo ==> !crate::text::is_space(#[trigger] t[i]),
        decreases s.len() - hi,
    {
        assert(t[hi - lo] == s@[hi as int]);
        hi = hi + 1;
    }
    proof {
        assert(hi < s@.len() ==> t[hi - lo] == s@[hi as int]);
        lemma_first_gap(t, hi - lo);
        assert(s@.subrange(lo as int, hi as int) =~= t.take(hi - lo));
    }
    crate::text::from_chars(vstd::slice::slice_subrange(s.as_slice(), lo, hi))
}

/// Whether a command begins with one that only reads.
pub fn looks_read_only(command: &str) -> (r: bool)
    ensures
        r == is_reading_word(leading_word(command@)),
{
    let word: String = first_word_of(command);
    let w: &str = word.as_str();
    crate::text::same(w, "cat") || crate::text::same(w, "ls") || crate::text::same(w, "pwd")
        || crate::text::same(w, "rg") || crate::text::same(w, "grep") || crate::text::same(
        w,
        "find",
    ) || crate::text::same(w, "sed") || crate::text::same(w, "head") || crate::text::same(w, "tail")
        || crate::text::same(w, "wc") || crate::text::same(w, "git")
}

/// The line `n` of a file as a search shows it: the file, the number, the tag and the line.
pub open spec fn shown_line(path: Seq<char>, lines: Seq<Seq<char>>, n: int) -> MatchView {
    MatchView {
        path,
        line: n,
        tag: crate::text::decimal(n as nat) + seq![':'] + super::lines::hash_of(lines[n - 1]),
        text: lines[n - 1],
    }
}

/// The lines found in a file are exactly those in whose searched form the needle stands at some
/// position, wherever in the line that is.
pub proof fn law_line_is_found_where_the_needle_stands(
    path: Seq<char>,
    lines: Seq<Seq<char>>,
    hays: Seq<Seq<char>>,
    needle: Seq<char>,
    total: int,
    n: int,
)
    requires
        1 <= n <= total,
    ensures
        found(path, lines, hays, needle, total).contains(shown_line(path, lines, n)) == exists|k: int|
            0 <= k && k + needle.len() <= hays[n - 1].len() && #[trigger] hays[n - 1].subrange(
                k,
                k + needle.len(),
            ) == needle,
    decreases total,
{
    crate::text::law_occurs_somewhere(hays[n - 1], needle);
    law_found_lines_are_in_order(path, lines, hays, needle, total - 1);
    let before = found(path, lines, hays, needle, total - 1);
    let all = found(path, lines, hays, needle, total);
    let m = shown_line(path, lines, n);
    if n < total {
        law_line_is_found_where_the_needle_stands(path, lines, hays, needle, total - 1, n);
        if before.contains(m) {
            let i = choose|i: int| 0 <= i < before.len() && before[i] == m;
            assert(all[i] == m);
        }
        if all.contains(m) {
            let i = choose|i: int| 0 <= i < all.len() && all[i] == m;
            assert(all[i].line == n);
            assert(i < before.len());
            assert(before[i] == m);
        }
    } else {
        if crate::text::occurs(hays[n - 1], needle) {
            assert(all.last().tag =~= m.tag);
            assert(all[all.len() - 1] == m);
        } else if all.contains(m) {
            let i = choose|i: int| 0 <= i < all.len() && all[i] == m;
            assert(before[i].line < n);
        }
    }
}

/// What is found in a file are lines of it as they are shown, by rising number, none twice.
pub proof fn law_found_lines_are_in_order(
    path: Seq<char>,
    lines: Seq<Seq<char>>,
    hays: Seq<Seq<char>>,
    needle: Seq<char>,
    total: int,
)
    ensures
        forall|i: int|
            #![trigger found(path, lines, hays, needle, total)[i]]
            0 <= i < found(path, lines, hays, needle, total).len() ==> ({
                let m = found(path, lines, hays, needle, total)[i];
                1 <= m.line <= total && m == shown_line(path, lines, m.line)
            }),
        forall|i: int, j: int|
            #![trigger found(path, lines, hays, needle, total)[i], found(path, lines, hays, needle, total)[j]]
            0 <= i < j < found(path, lines, hays, needle, total).len() ==> found(
                path,
                lines,
                hays,
                needle,
                total,
            )[i].line < found(path, lines, hays, needle, total)[j].line,
    decreases total,
{
    if total > 0 {
        law_found_lines_are_in_order(path, lines, hays, needle, total - 1);
        let before = found(path, lines, hays, needle, total - 1);
        let all = found(path, lines, hays, needle, total);
        assert forall|i: int| 0 <= i < all.len() implies ({
            let m = #[trigger] all[i];
            1 <= m.line <= total && m == shown_line(path, lines, m.line)
        }) by {
            if i < before.len() {
                assert(all[i] == before[i]);
            } else {
                assert(all[i].tag =~= shown_line(path, lines, total).tag);
            }
        }
        assert forall|i: int, j: int| 0 <= i < j < all.len() implies #[trigger] all[i].line
            < #[trigger] all[j].line by {
            assert(all[i] == before[i]);
            if j < before.len() {
                assert(all[j] == before[j]);
            }
        }
    }
}

/// A search that minds the case looks at lines and pattern as they are, any other at both in lower case.
pub proof fn law_case_of_a_search(line: Seq<char>)
    ensures
        searched_form(line, true) == line,
        searched_form(line, false) == crate::text::lowercase_of(line),
{
}

/// A file that can be read and does not look binary gives each of its lines in whose searched form the
/// searched form of the pattern stands at some position.
pub proof fn law_file_is_searched_by_line(
    path: Seq<char>,
    text: Seq<char>,
    pattern: Seq<char>,
    case_sensitive: bool,
    n: int,
)
    requires
        !looks_binary(path),
        1 <= n <= crate::text::lines_of(text).len(),
    ensures
        ({
            let lines = crate::text::lines_of(text);
            let hay = searched_form(lines[n - 1], case_sensitive);
            let needle = searched_form(pattern, case_sensitive);
            found_in(FileView { path, text: Some(text) }, pattern, case_sensitive).contains(
                shown_line(path, lines, n),
            ) == exists|k: int|
                0 <= k && k + needle.len() <= hay.len() && #[trigger] hay.subrange(
                    k,
                    k + needle.len(),
                ) == needle
        }),
{
    let lines = crate::text::lines_of(text);
    let hays = lines.map_values(|l: Seq<char>| searched_form(l, case_sensitive));
    assert(hays[n - 1] == searched_form(lines[n - 1], case_sensitive));
    law_line_is_found_where_the_needle_stands(
        path,
        lines,
        hays,
        searched_form(pattern, case_sensitive),
        lines.len() as int,
        n,
    );
}

/// A file that cannot be read gives nothing, and neither does one that looks binary.
pub proof fn law_unreadable_file_gives_nothing(
    path: Seq<char>,
    text: Option<Seq<char>>,
    pattern: Seq<char>,
    case_sensitive: bool,
)
    requires
        text is None || looks_binary(path),
    ensures
        found_in(FileView { path, text }, pattern, case_sensitive).len() == 0,
{
}

/// Files are searched one after the other, and what is shown are the first two hundred matches.
pub proof fn law_matches_are_the_first_two_hundred(
    files: Seq<FileView>,
    file: FileView,
    pattern: Seq<char>,
    case_sensitive: bool,
    i: int,
)
    ensures
        found_in_all(Seq::empty(), pattern, case_sensitive).len() == 0,
        found_in_all(files.push(file), pattern, case_sensitive) == found_in_all(
            files,
            pattern,
            case_sensitive,
        ) + found_in(file, pattern, case_sensitive),
        ({
            let all = found_in_all(files, pattern, case_sensitive);
            let shown = searched(files, pattern, case_sensitive);
            &&& all.len() <= 200 ==> shown == all
            &&& all.len() > 200 ==> shown.len() == 200
            &&& 0 <= i < shown.len() ==> shown[i] == all[i]
        }),
{
    assert(files.push(file).drop_last() =~= files);
    law_search_gives_the_first(files, pattern, case_sensitive);
}

/// Files with the endings of pictures, documents, archives and recordings look binary, and no others.
pub proof fn law_binary_by_its_ending(path: Seq<char>)
    ensures
        looks_binary(path) == (super::paths::extension_of(path) is Some && set![
            "gif"@,
            "gz"@,
            "jpeg"@,
            "jpg"@,
            "mp3"@,
            "mp4"@,
            "pdf"@,
            "png"@,
            "webp"@,
            "xz"@,
            "zip"@,
        ].contains(super::paths::extension_of(path)->0)),
{
}

/// In a pattern, `?` takes any one byte, `*` any number of them, and every other byte itself; a pattern
/// at its end matches nothing more.
pub proof fn law_glob_by_its_first_byte(p: Seq<u8>, c: u8, t: Seq<u8>)
    ensures
        globs(Seq::empty(), t) == (t.len() == 0),
        globs(seq![63u8] + p, t) == (t.len() > 0 && globs(p, t.drop_first())),
        c != 42 && c != 63 ==> globs(seq![c] + p, t) == (t.len() > 0 && t[0] == c && globs(
            p,
            t.drop_first(),
        )),
        globs(seq![42u8] + p, t) == exists|k: int|
            0 <= k <= t.len() && #[trigger] globs(p, t.skip(k)),
{
    assert((seq![63u8] + p).drop_first() =~= p);
    assert((seq![c] + p).drop_first() =~= p);
    lemma_star_takes_any_number(p, t);
}

proof fn lemma_star_takes_any_number(p: Seq<u8>, t: Seq<u8>)
    ensures
        globs(seq![42u8] + p, t) == exists|k: int|
            0 <= k <= t.len() && #[trigger] globs(p, t.skip(k)),
    decreases t.len(),
{
    let star = seq![42u8] + p;
    assert(star.drop_first() =~= p);
    assert(t.skip(0) =~= t);
    let u = t.drop_first();
    if globs(star, t) {
        if globs(p, t) {
            assert(globs(p, t.skip(0)));
        } else {
            lemma_star_takes_any_number(p, u);
            let k = choose|k: int| 0 <= k <= u.len() && #[trigger] globs(p, u.skip(k));
            assert(u.skip(k) =~= t.skip(k + 1));
            assert(globs(p, t.skip(k + 1)));
        }
    }
    if exists|k: int| 0 <= k <= t.len() && #[trigger] globs(p, t.skip(k)) {
        let k = choose|k: int| 0 <= k <= t.len() && #[trigger] globs(p, t.skip(k));
        if k > 0 {
            lemma_star_takes_any_number(p, u);
            assert(u.skip(k - 1) =~= t.skip(k));
            assert(globs(p, u.skip(k - 1)));
        }
    }
}

/// A listing holds every entry of a directory, in its order, and right behind a directory what it holds
/// where the listing goes down.
pub proof fn law_listing_entry_by_entry(children: Seq<DirTree>, last: DirTree, recursive: bool)
    ensures
        entries_below(Seq::empty(), recursive).len() == 0,
        entries_below(children.push(last), recursive) == entries_below(children, recursive) + seq![
            (last.path@, last.is_dir),
        ] + (if last.is_dir && recursive {
            entries_below(last.children@, true)
        } else {
            Seq::empty()
        }),
    decreases children.len(),
{
    let more = children.push(last);
    let inner = if last.is_dir && recursive {
        entries_below(last.children@, true)
    } else {
        Seq::empty()
    };
    reveal_with_fuel(entries_below, 2);
    if children.len() == 0 {
        assert(more.drop_first() =~= Seq::empty());
        assert(children =~= Seq::empty());
        assert(entries_below(children, recursive) + seq![(last.path@, last.is_dir)] + inner =~= seq![
            (last.path@, last.is_dir),
        ] + inner + Seq::empty());
    } else {
        law_listing_entry_by_entry(children.drop_first(), last, recursive);
        assert(more.drop_first() =~= children.drop_first().push(last));
        let first = children[0];
        let below = if recursive && first.is_dir {
            entries_below(first.children@, recursive)
        } else {
            Seq::empty()
        };
        let rest = entries_below(children.drop_first(), recursive);
        assert(seq![(first.path@, first.is_dir)] + below + (rest + seq![(last.path@, last.is_dir)]
            + inner) =~= (seq![(first.path@, first.is_dir)] + below + rest) + seq![
            (last.path@, last.is_dir),
        ] + inner);
    }
}

/// What is cut to a length keeps its front.
pub proof fn law_cut_keeps_the_front<T>(all: Seq<T>, n: nat, i: int)
    ensures
        at_most(all, n as int).len() == (if all.len() < n {
            all.len()
        } else {
            n
        }),
        0 <= i < at_most(all, n as int).len() ==> at_most(all, n as int)[i] == all[i],
{
}

/// How far a walk goes, by the size that an answer may have.
pub proof fn law_walk_limit_by_size(cap: nat)
    ensures
        cap < 6_400 ==> walk_limit(cap as int) == 100,
        cap >= 640_000 ==> walk_limit(cap as int) == 10_000,
        6_400 <= cap < 640_000 ==> 64 * walk_limit(cap as int) <= cap < 64 * (walk_limit(cap as int)
            + 1),
{
}

/// The words of commands that reach out to a network, and of those that only read.
pub proof fn law_known_commands(w: Seq<char>)
    ensures
        is_network_word(w) == set![
            "curl"@,
            "nc"@,
            "ncat"@,
            "rsync"@,
            "scp"@,
            "ssh"@,
            "wget"@,
        ].contains(w),
        is_reading_word(w) == set![
            "cat"@,
            "find"@,
            "git"@,
            "grep"@,
            "head"@,
            "ls"@,
            "pwd"@,
            "rg"@,
            "sed"@,
            "tail"@,
            "wc"@,
        ].contains(w),
{
}

/// A command reaches out to a network where one of the known words stands in it between its beginning or
/// a separator and its end or a separator: white space, `;`, `&` or `|`.
pub proof fn law_network_word_anywhere(a: Seq<char>, w: Seq<char>, b: Seq<char>)
    requires
        is_network_word(w),
        forall|i: int| 0 <= i < w.len() ==> !is_break(#[trigger] w[i]),
        a.len() == 0 || crate::text::is_space(a.last()) || a.last() == ';' || a.last() == '&'
            || a.last() == '|',
        b.len() == 0 || crate::text::is_space(b[0]) || b[0] == ';' || b[0] == '&' || b[0] == '|',
    ensures
        uses_network(a + w + b),
{
    let s = a + w + b;
    let (i, j) = (a.len() as int, (a.len() + w.len()) as int);
    assert(s.subrange(i, j) =~= w);
    assert forall|k: int| i <= k < j implies !is_break(#[trigger] s[k]) by {
        assert(s[k] == w[k - i]);
    }
    assert(is_word(s, i, j));
}

/// The first word of a text is what stands between the white space before it and the next.
pub proof fn law_first_word_of_a_text(a: Seq<char>, w: Seq<char>, b: Seq<char>)
    requires
        forall|i: int| 0 <= i < a.len() ==> crate::text::is_space(#[trigger] a[i]),
        forall|i: int| 0 <= i < w.len() ==> !crate::text::is_space(#[trigger] w[i]),
        w.len() > 0,
        b.len() == 0 || crate::text::is_space(b[0]),
    ensures
        leading_word(a + w + b) == w,
        leading_word(a).len() == 0,
{
    let s = a + w + b;
    crate::text::lemma_first_word_behind(a, w + b);
    assert(a + (w + b) =~= s);
    assert(s.skip(a.len() as int) =~= w + b);
    lemma_first_gap_behind(w, b);
    assert((w + b).take(w.len() as int) =~= w);
    crate::text::lemma_first_word_behind(a, Seq::empty());
    assert(a + Seq::<char>::empty() =~= a);
}

proof fn lemma_first_gap_behind(w: Seq<char>, b: Seq<char>)
    requires
        forall|i: int| 0 <= i < w.len() ==> !crate::text::is_space(#[trigger] w[i]),
        b.len() == 0 || crate::text::is_space(b[0]),
    ensures
        first_gap(w + b) == w.len(),
    decreases w.len(),
{
    if w.len() > 0 {
        assert((w + b).drop_first() =~= w.drop_first() + b);
        lemma_first_gap_behind(w.drop_first(), b);
    } else {
        assert(w + b =~= b);
    }
}

/// A command that reaches out to a network holds one of the known words, with nothing but a separator or
/// an end of the command on either side; a word that only holds such a word does not count.
pub proof fn law_network_word_stands_alone(s: Seq<char>)
    requires
        uses_network(s),
    ensures
        exists|i: int, j: int|
            #![trigger s.subrange(i, j)]
            0 <= i <= j <= s.len() && is_network_word(s.subrange(i, j)) && (i == 0
                || crate::text::is_space(s[i - 1]) || s[i - 1] == ';' || s[i - 1] == '&' || s[i - 1]
                == '|') && (j == s.len() || crate::text::is_space(s[j]) || s[j] == ';' || s[j] == '&'
                || s[j] == '|'),
{
    let (i, j) = choose|i: int, j: int| #[trigger]
        is_word(s, i, j) && is_network_word(s.subrange(i, j));
    assert(0 <= i <= j <= s.len());
}

/// An entry of a listing is its path and whether it is a directory.
pub proof fn law_entry_holds_its_path(e: ListedEntry)
    ensures
        entry_view(e).0 == e.path@,
        entry_view(e).1 == e.is_dir,
{
}

} // verus!
