//! Paths as text: components, normal form and containment. A path is a Unix path; `/` parts its
//! components.
use vstd::prelude::*;
use vstd::string::*;

use crate::tools::ToolCtx;

verus! {

/// One component of a path.
#[derive(Debug, PartialEq, Eq)]
pub enum PathPart {
    /// The root directory, at the beginning of an absolute path.
    Root,
    /// `.` at the beginning of a relative path.
    Current,
    /// `..`.
    Parent,
    /// A name.
    Name(String),
}

/// A [`PathPart`] with its name as a sequence of characters.
pub enum PartView {
    /// See [`PathPart::Root`].
    Root,
    /// See [`PathPart::Current`].
    Current,
    /// See [`PathPart::Parent`].
    Parent,
    /// See [`PathPart::Name`].
    Name(Seq<char>),
}

impl View for PathPart {
    type V = PartView;

    open spec fn view(&self) -> PartView {
        match self {
            PathPart::Root => PartView::Root,
            PathPart::Current => PartView::Current,
            PathPart::Parent => PartView::Parent,
            PathPart::Name(s) => PartView::Name(s@),
        }
    }
}

impl Clone for PathPart {
    fn clone(&self) -> (r: Self)
        ensures
            r@ == self@,
    {
        match self {
            PathPart::Root => PathPart::Root,
            PathPart::Current => PathPart::Current,
            PathPart::Parent => PathPart::Parent,
            PathPart::Name(s) => PathPart::Name(s.clone()),
        }
    }
}

/// Whether a path starts at the root.
pub open spec fn absolute(path: Seq<char>) -> bool {
    path.len() > 0 && path[0] == '/'
}

/// What a piece between slashes stands for: nothing and `.` are passed over, except for a `.` at
/// the very beginning.
pub open spec fn piece(s: Seq<char>, leading: bool) -> Seq<PartView> {
    if s.len() == 0 {
        Seq::empty()
    } else if s == seq!['.'] {
        if leading {
            seq![PartView::Current]
        } else {
            Seq::empty()
        }
    } else if s == seq!['.', '.'] {
        seq![PartView::Parent]
    } else {
        seq![PartView::Name(s)]
    }
}

/// The components of what is between slashes.
pub open spec fn pieces(path: Seq<char>, leading: bool) -> Seq<PartView>
    decreases path.len(),
{
    let k = crate::text::first_at(path, '/');
    if k < 0 || k >= path.len() {
        piece(path, leading)
    } else {
        piece(path.subrange(0, k), leading) + pieces(path.subrange(k + 1, path.len() as int), false)
    }
}

/// The components of a path.
pub open spec fn parts(path: Seq<char>) -> Seq<PartView> {
    if absolute(path) {
        seq![PartView::Root] + pieces(path, false)
    } else {
        pieces(path, true)
    }
}

/// Whether a path starts at the root.
pub fn is_absolute(path: &str) -> (r: bool)
    ensures
        r == absolute(path@),
{
    path.unicode_len() > 0 && path.get_char(0) == '/'
}

fn push_piece(out: &mut Vec<PathPart>, s: &[char], leading: bool)
    ensures
        crate::text::views(final(out)@) == crate::text::views(old(out)@) + piece(s@, leading),
{
    let ghost before = crate::text::views(out@);
    if s.len() == 0 {
        assert(before + piece(s@, leading) =~= before);
        return;
    }
    if s.len() == 1 && s[0] == '.' {
        assert(s@ =~= seq!['.']);
        if leading {
            out.push(PathPart::Current);
            assert(crate::text::views(out@) =~= before + piece(s@, leading));
        } else {
            assert(before + piece(s@, leading) =~= before);
        }
        return;
    }
    if s.len() == 2 && s[0] == '.' && s[1] == '.' {
        assert(s@ =~= seq!['.', '.']);
        out.push(PathPart::Parent);
        assert(s@ != seq!['.']);
        assert(crate::text::views(out@) =~= before + piece(s@, leading));
        return;
    }
    let name: String = crate::text::from_chars(s);
    out.push(PathPart::Name(name));
    proof {
        assert(s@ != seq!['.']) by {
            if s@ == seq!['.'] {
                assert(s@[0] == '.');
            }
        }
        assert(s@ != seq!['.', '.']) by {
            if s@ == seq!['.', '.'] {
                assert(s@[0] == '.' && s@[1] == '.');
            }
        }
        assert(crate::text::views(out@) =~= before + piece(s@, leading));
    }
}

/// The components of a path.
pub fn components(path: &str) -> (r: Vec<PathPart>)
    ensures
        crate::text::views(r@) == parts(path@),
{
    let chars: Vec<char> = crate::text::to_chars(path);
    let ghost all = path@;
    let mut out: Vec<PathPart> = Vec::new();
    let rooted: bool = is_absolute(path);
    if rooted {
        out.push(PathPart::Root);
    }
    let mut leading: bool = !rooted;
    let mut start: usize = 0;
    let mut i: usize = 0;
    proof {
        assert(all.subrange(0, all.len() as int) =~= all);
        if rooted {
            assert(crate::text::views(out@) =~= seq![PartView::Root]);
        } else {
            assert(crate::text::views(out@) =~= Seq::empty());
            assert(Seq::<PartView>::empty() + pieces(all, true) =~= pieces(all, true));
        }
    }
    while i < chars.len()
        invariant
            start <= i <= chars.len(),
            chars@ == all,
            crate::text::views(out@) + pieces(
                all.subrange(start as int, all.len() as int),
                leading,
            ) == parts(all),
            forall|k: int| start <= k < i ==> chars@[k] != '/',
        decreases chars.len() - i,
    {
        if chars[i] == '/' {
            let ghost before = crate::text::views(out@);
            let ghost rest = all.subrange(start as int, all.len() as int);
            let ghost was_leading = leading;
            push_piece(
                &mut out,
                vstd::slice::slice_subrange(chars.as_slice(), start, i),
                leading,
            );
            proof {
                let k = i - start;
                assert forall|j: int| 0 <= j < k implies #[trigger] rest[j] != '/' by {
                    assert(rest[j] == chars@[start + j]);
                }
                assert(rest[k] == '/');
                crate::text::lemma_first_at_is(rest, '/', k);
                assert(rest.subrange(0, k) =~= all.subrange(start as int, i as int));
                assert(rest.subrange(k + 1, rest.len() as int) =~= all.subrange(
                    i + 1,
                    all.len() as int,
                ));
                let p = piece(all.subrange(start as int, i as int), was_leading);
                let tail = pieces(all.subrange(i + 1, all.len() as int), false);
                assert(pieces(rest, was_leading) == p + tail);
                assert(before + (p + tail) =~= (before + p) + tail);
            }
            leading = false;
            start = i + 1;
        }
        i = i + 1;
    }
    let ghost rest = all.subrange(start as int, all.len() as int);
    proof {
        assert forall|j: int| 0 <= j < rest.len() implies #[trigger] rest[j] != '/' by {
            assert(rest[j] == chars@[start + j]);
        }
        crate::text::lemma_first_at_is(rest, '/', rest.len() as int);
    }
    push_piece(
        &mut out,
        vstd::slice::slice_subrange(chars.as_slice(), start, chars.len()),
        leading,
    );
    out
}

/// What a path and one more component make: a name is added, `..` takes the last name away, `.`
/// changes nothing, and the root starts anew.
pub open spec fn step(names: Seq<PartView>, part: PartView) -> Seq<PartView> {
    match part {
        PartView::Root => seq![PartView::Root],
        PartView::Current => names,
        PartView::Parent => if names.len() > 0 && names.last() is Name {
            names.drop_last()
        } else {
            names
        },
        PartView::Name(s) => names.push(part),
    }
}

/// A list of components without `.` and `..`.
pub open spec fn normal(all: Seq<PartView>) -> Seq<PartView>
    decreases all.len(),
{
    if all.len() == 0 {
        Seq::empty()
    } else {
        step(normal(all.drop_last()), all.last())
    }
}

/// A list of components as text.
pub open spec fn written(all: Seq<PartView>) -> Seq<char>
    decreases all.len(),
{
    if all.len() == 0 {
        Seq::empty()
    } else {
        let front = written(all.drop_last());
        let name = match all.last() {
            PartView::Root => seq!['/'],
            PartView::Current => seq!['.'],
            PartView::Parent => seq!['.', '.'],
            PartView::Name(s) => s,
        };
        if all.len() == 1 || (all.len() == 2 && all[0] is Root) {
            front + name
        } else {
            front + seq!['/'] + name
        }
    }
}

/// A list of components as text.
pub fn write_parts(all: &[PathPart]) -> (r: String)
    ensures
        r@ == written(crate::text::views(all@)),
{
    let ghost full = crate::text::views(all@);
    let mut out: String = String::new();
    let mut i: usize = 0;
    while i < all.len()
        invariant
            i <= all.len(),
            full == crate::text::views(all@),
            out@ == written(full.take(i as int)),
        decreases all.len() - i,
    {
        let first_is_root: bool = match &all[0] {
            PathPart::Root => true,
            _ => false,
        };
        let ghost before = out@;
        if !(i == 0 || (i == 1 && first_is_root)) {
            out.push('/');
        }
        let ghost middle = out@;
        match &all[i] {
            PathPart::Root => {
                out.push('/');
                assert(out@ =~= middle + seq!['/']);
            },
            PathPart::Current => {
                out.push('.');
                assert(out@ =~= middle + seq!['.']);
            },
            PathPart::Parent => {
                out.push('.');
                out.push('.');
                assert(out@ =~= middle + seq!['.', '.']);
            },
            PathPart::Name(s) => {
                out.append(s.as_str());
            },
        }
        proof {
            let next = full.take(i + 1);
            assert(next.drop_last() =~= full.take(i as int));
            assert(next.last() == all@[i as int]@);
            assert(next[0] == all@[0]@);
            assert(before.push('/') =~= before + seq!['/']);
        }
        i = i + 1;
    }
    proof {
        assert(full.take(i as int) =~= full);
    }
    out
}

/// The components of a path without `.` and `..`.
pub fn normal_components(path: &str) -> (r: Vec<PathPart>)
    ensures
        crate::text::views(r@) == normal(parts(path@)),
{
    let all: Vec<PathPart> = components(path);
    let ghost full = parts(path@);
    let mut out: Vec<PathPart> = Vec::new();
    let mut i: usize = 0;
    proof {
        assert(crate::text::views(out@) =~= normal(full.take(0)));
    }
    while i < all.len()
        invariant
            i <= all.len(),
            full == crate::text::views(all@),
            crate::text::views(out@) == normal(full.take(i as int)),
        decreases all.len() - i,
    {
        let ghost before = crate::text::views(out@);
        proof {
            let next = full.take(i + 1);
            assert(next.drop_last() =~= full.take(i as int));
            assert(next.last() == all@[i as int]@);
        }
        match &all[i] {
            PathPart::Root => {
                out = Vec::new();
                out.push(PathPart::Root);
                assert(crate::text::views(out@) =~= seq![PartView::Root]);
            },
            PathPart::Current => {},
            PathPart::Parent => {
                let n: usize = out.len();
                if n > 0 {
                    let named: bool = match &out[n - 1] {
                        PathPart::Name(_) => true,
                        _ => false,
                    };
                    assert(before.last() == out@[n - 1]@);
                    if named {
                        out.pop();
                        assert(crate::text::views(out@) =~= before.drop_last());
                    }
                }
            },
            PathPart::Name(s) => {
                out.push(PathPart::Name(s.clone()));
                assert(crate::text::views(out@) =~= before.push(PartView::Name(s@)));
            },
        }
        i = i + 1;
    }
    proof {
        assert(full.take(i as int) =~= full);
    }
    out
}

/// A path as seen from a directory.
pub open spec fn joined(cwd: Seq<char>, path: Seq<char>) -> Seq<char> {
    if absolute(path) {
        path
    } else {
        crate::history::file::path_in(cwd, path)
    }
}

/// A path as seen from a directory.
pub fn join(cwd: &str, path: &str) -> (r: String)
    ensures
        r@ == joined(cwd@, path@),
{
    if is_absolute(path) {
        path.to_owned()
    } else {
        crate::history::file::join_path(cwd, path)
    }
}

/// A path as seen from a directory, without `.` and `..`.
pub open spec fn resolved(cwd: Seq<char>, path: Seq<char>) -> Seq<char> {
    written(normal(parts(joined(cwd, path))))
}

/// A path as seen from the working directory, without `.` and `..`.
pub fn resolve_path(ctx: &ToolCtx, path: &str) -> (r: String)
    ensures
        r@ == resolved(ctx.cwd@, path@),
{
    let full: String = join(ctx.cwd.as_str(), path);
    let names: Vec<PathPart> = normal_components(full.as_str());
    write_parts(names.as_slice())
}

/// Whether a path lies at or below a root, component by component.
pub open spec fn lies_in(path: Seq<char>, root: Seq<char>) -> bool {
    parts(root).is_prefix_of(parts(path))
}

fn same_part(a: &PathPart, b: &PathPart) -> (r: bool)
    ensures
        r == (a@ == b@),
{
    match (a, b) {
        (PathPart::Root, PathPart::Root) => true,
        (PathPart::Current, PathPart::Current) => true,
        (PathPart::Parent, PathPart::Parent) => true,
        (PathPart::Name(x), PathPart::Name(y)) => crate::text::same(x.as_str(), y.as_str()),
        _ => false,
    }
}

/// Whether a path lies at or below a root, component by component.
pub fn starts_with(path: &str, root: &str) -> (r: bool)
    ensures
        r == lies_in(path@, root@),
{
    let p: Vec<PathPart> = components(path);
    let q: Vec<PathPart> = components(root);
    let ghost a = parts(path@);
    let ghost b = parts(root@);
    if q.len() > p.len() {
        return false;
    }
    let mut i: usize = 0;
    while i < q.len()
        invariant
            i <= q.len() <= p.len(),
            crate::text::views(p@) == a,
            crate::text::views(q@) == b,
            a == parts(path@),
            b == parts(root@),
            forall|k: int| 0 <= k < i ==> a[k] == #[trigger] b[k],
        decreases q.len() - i,
    {
        assert(a[i as int] == p@[i as int]@);
        assert(b[i as int] == q@[i as int]@);
        if !same_part(&p[i], &q[i]) {
            assert(a.subrange(0, b.len() as int)[i as int] != b[i as int]);
            return false;
        }
        i = i + 1;
    }
    assert(b =~= a.subrange(0, b.len() as int));
    true
}

/// Whether a path lies at or below one of the roots.
pub open spec fn lies_in_any(path: Seq<char>, roots: Seq<String>) -> bool {
    exists|i: int| 0 <= i < roots.len() && lies_in(path, (#[trigger] roots[i])@)
}

/// Whether a path lies at or below one of the roots.
pub fn inside_any(path: &str, roots: &[String]) -> (r: bool)
    ensures
        r == lies_in_any(path@, roots@),
{
    let mut i: usize = 0;
    while i < roots.len()
        invariant
            i <= roots.len(),
            forall|k: int| 0 <= k < i ==> !lies_in(path@, (#[trigger] roots@[k])@),
        decreases roots.len() - i,
    {
        if starts_with(path, roots[i].as_str()) {
            assert(lies_in(path@, roots@[i as int]@));
            return true;
        }
        i = i + 1;
    }
    false
}

/// A path in the form that its components give, `..` kept.
pub fn tidy(path: &str) -> (r: String)
    ensures
        r@ == written(parts(path@)),
{
    let all: Vec<PathPart> = components(path);
    write_parts(all.as_slice())
}

/// The roots that a list of configured roots stands for: the default where there is none, else each
/// as seen from the working directory.
pub open spec fn effective_roots(
    roots: Seq<Seq<char>>,
    cwd: Seq<char>,
    default_root: Seq<char>,
) -> Seq<Seq<char>> {
    if roots.len() == 0 {
        seq![written(parts(default_root))]
    } else {
        roots.map_values(|root: Seq<char>| written(parts(joined(cwd, root))))
    }
}

/// The roots that a list of configured roots stands for.
pub fn roots_or_default(roots: &[String], cwd: &str, default_root: &str) -> (r: Vec<String>)
    ensures
        crate::text::views(r@) == effective_roots(
            crate::text::views(roots@),
            cwd@,
            default_root@,
        ),
{
    let mut out: Vec<String> = Vec::new();
    if roots.len() == 0 {
        out.push(tidy(default_root));
        assert(crate::text::views(out@) =~= seq![written(parts(default_root@))]);
        return out;
    }
    let ghost full = effective_roots(crate::text::views(roots@), cwd@, default_root@);
    let mut i: usize = 0;
    while i < roots.len()
        invariant
            i <= roots.len(),
            roots@.len() > 0,
            full == effective_roots(crate::text::views(roots@), cwd@, default_root@),
            crate::text::views(out@) =~= full.take(i as int),
        decreases roots.len() - i,
    {
        let ghost before = crate::text::views(out@);
        let at: String = join(cwd, roots[i].as_str());
        out.push(tidy(at.as_str()));
        i = i + 1;
        proof {
            assert(full[i - 1] == written(parts(joined(cwd@, roots@[i - 1]@))));
            assert(full.take(i as int) =~= full.take(i - 1).push(full[i - 1]));
            assert(crate::text::views(out@) =~= before.push(full[i - 1]));
        }
    }
    assert(full.take(i as int) =~= full);
    out
}

/// The root of the file system.
pub fn filesystem_root() -> (r: String)
    ensures
        r@ == seq!['/'],
{
    let mut out: String = String::new();
    out.push('/');
    assert(out@ =~= seq!['/']);
    out
}

/// The last name of a path, if it ends in one.
pub open spec fn file_name(path: Seq<char>) -> Option<Seq<char>> {
    let all = parts(path);
    if all.len() > 0 {
        match all.last() {
            PartView::Name(s) => Some(s),
            _ => None,
        }
    } else {
        None
    }
}

/// The index of the last `c` in `s`, or -1.
pub open spec fn last_at(s: Seq<char>, c: char) -> int
    decreases s.len(),
{
    if s.len() == 0 {
        -1
    } else if s.last() == c {
        s.len() - 1
    } else {
        last_at(s.drop_last(), c)
    }
}

/// What follows the last dot of a path's last name, unless that dot begins the name.
pub open spec fn extension_of(path: Seq<char>) -> Option<Seq<char>> {
    match file_name(path) {
        Some(name) => {
            let k = last_at(name, '.');
            if k > 0 {
                Some(name.subrange(k + 1, name.len() as int))
            } else {
                None
            }
        },
        None => None,
    }
}

/// What follows the last dot of a path's last name, unless that dot begins the name.
pub fn extension(path: &str) -> (r: Option<String>)
    ensures
        crate::history::session::opt_text(r) == extension_of(path@),
{
    let all: Vec<PathPart> = components(path);
    let n: usize = all.len();
    if n == 0 {
        return None;
    }
    assert(parts(path@).last() == all@[n - 1]@);
    match &all[n - 1] {
        PathPart::Name(s) => {
            let name: Vec<char> = crate::text::to_chars(s.as_str());
            let mut k: usize = name.len();
            assert(name@.take(name@.len() as int) =~= name@);
            while k > 0 && name[k - 1] != '.'
                invariant
                    k <= name.len(),
                    last_at(name@, '.') == last_at(name@.take(k as int), '.'),
                decreases k,
            {
                assert(name@.take(k as int).drop_last() =~= name@.take(k - 1));
                k = k - 1;
            }
            if k <= 1 {
                return None;
            }
            assert(name@.take(k as int).last() == '.');
            Some(
                crate::text::from_chars(
                    vstd::slice::slice_subrange(name.as_slice(), k, name.len()),
                ),
            )
        },
        _ => None,
    }
}

/// A name that can stand between slashes: not empty, not `.` or `..`, and without a slash.
pub open spec fn is_name(s: Seq<char>) -> bool {
    &&& s.len() > 0
    &&& s != seq!['.']
    &&& s != seq!['.', '.']
    &&& forall|i: int| 0 <= i < s.len() ==> #[trigger] s[i] != '/'
}

/// Every name in a list of components can stand between slashes.
pub open spec fn names_are_sound(all: Seq<PartView>) -> bool {
    forall|i: int|
        0 <= i < all.len() ==> (#[trigger] all[i] matches PartView::Name(s) ==> is_name(s))
}

/// Only names, but for the root at the beginning.
pub open spec fn is_plain(all: Seq<PartView>) -> bool {
    forall|i: int| 0 <= i < all.len() ==> (#[trigger] all[i] is Name || (i == 0 && all[i] is Root))
}

proof fn lemma_pieces_sound(path: Seq<char>, leading: bool)
    ensures
        names_are_sound(pieces(path, leading)),
        forall|i: int| 0 <= i < pieces(path, leading).len() ==> !(#[trigger] pieces(path, leading)[i] is Root),
    decreases path.len(),
{
    crate::text::lemma_first_at(path, '/');
    let k = crate::text::first_at(path, '/');
    if k < path.len() {
        let head = path.subrange(0, k);
        let tail = path.subrange(k + 1, path.len() as int);
        assert forall|i: int| 0 <= i < head.len() implies #[trigger] head[i] != '/' by {
            assert(head[i] == path[i]);
        }
        lemma_pieces_sound(tail, false);
        let p = piece(head, leading);
        let t = pieces(tail, false);
        assert(pieces(path, leading) == p + t);
        assert forall|i: int| 0 <= i < (p + t).len() implies !(#[trigger] (p + t)[i] is Root) && (
        (p + t)[i] matches PartView::Name(s) ==> is_name(s)) by {
            if i >= p.len() {
                assert((p + t)[i] == t[i - p.len()]);
            }
        }
    }
}

proof fn lemma_normal_plain(all: Seq<PartView>)
    requires
        names_are_sound(all),
    ensures
        is_plain(normal(all)),
        names_are_sound(normal(all)),
    decreases all.len(),
{
    if all.len() > 0 {
        let front = all.drop_last();
        assert forall|i: int| 0 <= i < front.len() implies (#[trigger] front[i] matches PartView::Name(
            s,
        ) ==> is_name(s)) by {
            assert(front[i] == all[i]);
        }
        lemma_normal_plain(front);
        assert(all[all.len() - 1] matches PartView::Name(s) ==> is_name(s));
    }
}

proof fn lemma_pieces_append(a: Seq<char>, b: Seq<char>, leading: bool)
    ensures
        pieces(a + seq!['/'] + b, leading) == pieces(a, leading) + pieces(b, false),
    decreases a.len(),
{
    let whole = a + seq!['/'] + b;
    crate::text::lemma_first_at(a, '/');
    let k = crate::text::first_at(a, '/');
    if k >= a.len() {
        assert forall|i: int| 0 <= i < k implies #[trigger] whole[i] != '/' by {
            assert(whole[i] == a[i]);
        }
        assert(whole[k] == '/');
        crate::text::lemma_first_at_is(whole, '/', k);
        assert(whole.subrange(0, k) =~= a);
        assert(whole.subrange(k + 1, whole.len() as int) =~= b);
    } else {
        assert forall|i: int| 0 <= i < k implies #[trigger] whole[i] != '/' by {
            assert(whole[i] == a[i]);
        }
        assert(whole[k] == '/');
        crate::text::lemma_first_at_is(whole, '/', k);
        let rest = a.subrange(k + 1, a.len() as int);
        assert(whole.subrange(0, k) =~= a.subrange(0, k));
        assert(whole.subrange(k + 1, whole.len() as int) =~= rest + seq!['/'] + b);
        lemma_pieces_append(rest, b, false);
        let p = piece(a.subrange(0, k), leading);
        assert(p + (pieces(rest, false) + pieces(b, false)) =~= (p + pieces(rest, false)) + pieces(
            b,
            false,
        ));
    }
}

/// Names and `..`, but for what stands at the beginning.
pub open spec fn is_placed(all: Seq<PartView>) -> bool {
    forall|i: int| 0 < i < all.len() ==> (#[trigger] all[i] is Name || all[i] is Parent)
}

/// A component as text.
spec fn part_text(part: PartView) -> Seq<char> {
    match part {
        PartView::Root => seq!['/'],
        PartView::Current => seq!['.'],
        PartView::Parent => seq!['.', '.'],
        PartView::Name(s) => s,
    }
}

proof fn lemma_pieces_of_part(part: PartView, leading: bool)
    requires
        part matches PartView::Name(s) ==> is_name(s),
        part !is Root,
        part is Current ==> leading,
    ensures
        pieces(part_text(part), leading) == seq![part],
        part_text(part).len() > 0,
        part_text(part)[0] != '/',
{
    let s = part_text(part);
    crate::text::lemma_first_at_is(s, '/', s.len() as int);
    assert(seq!['.'][0] == '.' && seq!['.', '.'].len() == 2 && seq!['.'].len() == 1);
}

proof fn lemma_written_rooted(all: Seq<PartView>)
    requires
        is_placed(all),
        names_are_sound(all),
        all.len() > 0,
    ensures
        written(all).len() > 0,
        all[0] is Root ==> written(all)[0] == '/',
        !(all[0] is Root) ==> written(all)[0] != '/',
        all[0] is Root && all.len() > 1 ==> pieces(written(all), false) == all.drop_first(),
        all[0] is Root && all.len() == 1 ==> written(all) == seq!['/'],
        !(all[0] is Root) ==> pieces(written(all), true) == all,
    decreases all.len(),
{
    let front = all.drop_last();
    let last = all.last();
    let w = written(front);
    let s = part_text(last);
    if all.len() == 1 {
        assert(front =~= Seq::empty());
        assert(written(front) =~= Seq::empty());
        assert(written(all) =~= s);
        if last !is Root {
            lemma_pieces_of_part(last, true);
            assert(seq![last] =~= all);
        }
    } else {
        assert(last == all[all.len() - 1]);
        assert forall|i: int| 0 < i < front.len() implies (#[trigger] front[i] is Name
            || front[i] is Parent) by {
            assert(front[i] == all[i]);
        }
        assert forall|i: int| 0 <= i < front.len() implies (#[trigger] front[i] matches PartView::Name(
            t,
        ) ==> is_name(t)) by {
            assert(front[i] == all[i]);
        }
        lemma_written_rooted(front);
        assert(front[0] == all[0]);
        lemma_pieces_of_part(last, false);
        if all.len() == 2 && all[0] is Root {
            assert(w =~= seq!['/']);
            assert(written(all) =~= seq!['/'] + s);
            let e = Seq::<char>::empty();
            lemma_pieces_append(e, s, false);
            assert(e + seq!['/'] + s =~= seq!['/'] + s);
            crate::text::lemma_first_at_is(e, '/', 0);
            assert(pieces(e, false) =~= Seq::empty());
            assert(all.drop_first() =~= seq![last]);
            assert(Seq::<PartView>::empty() + seq![last] =~= all.drop_first());
        } else {
            assert(written(all) == w + seq!['/'] + s);
            if all[0] is Root {
                lemma_pieces_append(w, s, false);
                assert(front.drop_first() + seq![last] =~= all.drop_first());
            } else {
                lemma_pieces_append(w, s, true);
                assert(front + seq![last] =~= all);
            }
        }
    }
}

/// What is written from components has those components.
proof fn lemma_written_reads_back(all: Seq<PartView>)
    requires
        is_placed(all),
        names_are_sound(all),
    ensures
        parts(written(all)) == all,
{
    let w = written(all);
    if all.len() == 0 {
        assert(w =~= Seq::empty());
        crate::text::lemma_first_at_is(w, '/', 0);
        assert(parts(w) =~= all);
    } else {
        lemma_written_rooted(all);
        if all[0] is Root {
            if all.len() == 1 {
                assert(w =~= seq!['/']);
                crate::text::lemma_first_at_is(w, '/', 0);
                assert(w.subrange(0, 0) =~= Seq::<char>::empty());
                assert(w.subrange(1, 1) =~= Seq::<char>::empty());
                crate::text::lemma_first_at_is(Seq::<char>::empty(), '/', 0);
                assert(pieces(Seq::<char>::empty(), false) =~= Seq::empty());
                assert(pieces(w, false) =~= Seq::empty());
                assert(parts(w) =~= all);
            } else {
                assert(seq![PartView::Root] + all.drop_first() =~= all);
            }
        }
    }
}

/// A `.` stands only at the beginning of what is between slashes, and there only where it leads.
proof fn lemma_pieces_placed(path: Seq<char>, leading: bool)
    ensures
        is_placed(pieces(path, leading)),
        !leading && pieces(path, leading).len() > 0 ==> (pieces(path, leading)[0] is Name
            || pieces(path, leading)[0] is Parent),
    decreases path.len(),
{
    crate::text::lemma_first_at(path, '/');
    let k = crate::text::first_at(path, '/');
    if k < path.len() {
        let tail = path.subrange(k + 1, path.len() as int);
        lemma_pieces_placed(tail, false);
        let p = piece(path.subrange(0, k), leading);
        let t = pieces(tail, false);
        assert(pieces(path, leading) == p + t);
        assert forall|i: int| 0 < i < (p + t).len() implies (#[trigger] (p + t)[i] is Name || (p
            + t)[i] is Parent) by {
            assert((p + t)[i] == t[i - p.len()]);
            assert(t[i - p.len()] is Name || t[i - p.len()] is Parent);
        }
    }
}

proof fn lemma_parts_sound(path: Seq<char>)
    ensures
        names_are_sound(parts(path)),
        is_placed(parts(path)),
{
    lemma_pieces_sound(path, false);
    lemma_pieces_sound(path, true);
    lemma_pieces_placed(path, false);
    lemma_pieces_placed(path, true);
    let all = parts(path);
    if absolute(path) {
        let rest = pieces(path, false);
        assert forall|i: int| 0 < i < all.len() implies #[trigger] all[i] == rest[i - 1] by {
        }
        assert forall|i: int| 0 <= i < all.len() implies (#[trigger] all[i] matches PartView::Name(s)
            ==> is_name(s)) by {
            if i > 0 {
                assert(all[i] == rest[i - 1]);
            }
        }
        assert forall|i: int| 0 < i < all.len() implies (#[trigger] all[i] is Name
            || all[i] is Parent) by {
            assert(all[i] == rest[i - 1]);
            assert(rest[i - 1] is Name || rest[i - 1] is Parent);
        }
    }
}

/// A path written from its components, as it is tidied, has the same components, `..` among them.
pub proof fn law_tidied_path_is_the_same(path: Seq<char>)
    ensures
        parts(written(parts(path))) == parts(path),
{
    lemma_parts_sound(path);
    lemma_written_reads_back(parts(path));
}

/// A configured root has exactly the components of the path that it stands for, so containment in it
/// is decided on those.
pub proof fn law_root_keeps_its_components(
    roots: Seq<Seq<char>>,
    cwd: Seq<char>,
    default_root: Seq<char>,
    i: int,
)
    requires
        0 <= i < effective_roots(roots, cwd, default_root).len(),
    ensures
        parts(effective_roots(roots, cwd, default_root)[i]) == parts(
            if roots.len() == 0 {
                default_root
            } else {
                joined(cwd, roots[i])
            },
        ),
{
    law_tidied_path_is_the_same(
        if roots.len() == 0 {
            default_root
        } else {
            joined(cwd, roots[i])
        },
    );
}

/// A resolved path holds no `.` and no `..`, and its text has exactly the components that it was
/// resolved to, so whether it lies in a root is decided on those.
pub proof fn law_resolved_path_is_plain(cwd: Seq<char>, path: Seq<char>)
    ensures
        is_plain(normal(parts(joined(cwd, path)))),
        parts(resolved(cwd, path)) == normal(parts(joined(cwd, path))),
{
    let all = parts(joined(cwd, path));
    lemma_parts_sound(joined(cwd, path));
    lemma_normal_plain(all);
    lemma_written_reads_back(normal(all));
}

/// What a path is made of: nothing, the root, and what stands between slashes.
pub proof fn law_shortest_paths(name: Seq<char>)
    requires
        is_name(name),
    ensures
        parts(Seq::empty()) == Seq::<PartView>::empty(),
        parts(seq!['/']) == seq![PartView::Root],
        parts(seq!['.']) == seq![PartView::Current],
        parts(seq!['.', '.']) == seq![PartView::Parent],
        parts(name) == seq![PartView::Name(name)],
        parts(seq!['/'] + name) == seq![PartView::Root, PartView::Name(name)],
{
    let none = Seq::<char>::empty();
    crate::text::lemma_first_at_is(none, '/', 0);
    assert(pieces(none, false) =~= Seq::<PartView>::empty());
    assert(pieces(none, true) =~= Seq::<PartView>::empty());
    lemma_pieces_of_part(PartView::Current, true);
    lemma_pieces_of_part(PartView::Parent, true);
    lemma_pieces_of_part(PartView::Name(name), true);
    lemma_pieces_of_part(PartView::Name(name), false);
    lemma_pieces_append(none, none, false);
    lemma_pieces_append(none, name, false);
    assert(none + seq!['/'] + none =~= seq!['/']);
    assert(none + seq!['/'] + name =~= seq!['/'] + name);
    assert(parts(seq!['/']) =~= seq![PartView::Root]);
    assert(parts(seq!['/'] + name) =~= seq![PartView::Root, PartView::Name(name)]);
}

/// A path that goes on behind a slash has one more component: a name, or `..`; a `.` or nothing adds
/// none.
pub proof fn law_path_goes_on(path: Seq<char>, name: Seq<char>)
    requires
        path.len() > 0,
        is_name(name),
    ensures
        parts(path + seq!['/'] + name) == parts(path).push(PartView::Name(name)),
        parts(path + seq!['/'] + seq!['.', '.']) == parts(path).push(PartView::Parent),
        parts(path + seq!['/'] + seq!['.']) == parts(path),
        parts(path.push('/')) == parts(path),
{
    let none = Seq::<char>::empty();
    crate::text::lemma_first_at_is(none, '/', 0);
    assert(pieces(none, false) =~= Seq::<PartView>::empty());
    lemma_pieces_of_part(PartView::Parent, false);
    lemma_pieces_of_part(PartView::Name(name), false);
    crate::text::lemma_first_at_is(seq!['.'], '/', 1);
    assert(pieces(seq!['.'], false) =~= Seq::<PartView>::empty());
    let leading = !absolute(path);
    lemma_pieces_append(path, name, leading);
    lemma_pieces_append(path, seq!['.', '.'], leading);
    lemma_pieces_append(path, seq!['.'], leading);
    lemma_pieces_append(path, none, leading);
    assert(path + seq!['/'] + none =~= path.push('/'));
    assert(parts(path + seq!['/'] + name) =~= parts(path).push(PartView::Name(name)));
    assert(parts(path + seq!['/'] + seq!['.', '.']) =~= parts(path).push(PartView::Parent));
    assert(parts(path + seq!['/'] + seq!['.']) =~= parts(path));
    assert(parts(path.push('/')) =~= parts(path));
}

/// In the normal form of a path a name goes behind the others, and `..` behind a name takes it away
/// again; `.` changes nothing, and above the root there is the root.
pub proof fn law_parent_undoes_a_name(path: Seq<char>, name: Seq<char>)
    requires
        path.len() > 0,
        is_name(name),
    ensures
        normal(parts(path + seq!['/'] + name)) == normal(parts(path)).push(PartView::Name(name)),
        normal(parts(path + seq!['/'] + name + seq!['/'] + seq!['.', '.'])) == normal(parts(path)),
        normal(parts(path + seq!['/'] + seq!['.'])) == normal(parts(path)),
        normal(parts(seq!['/'])) == seq![PartView::Root],
        normal(parts(seq!['/'] + seq!['/'] + seq!['.', '.'])) == seq![PartView::Root],
        normal(parts(seq!['.'])).len() == 0,
        normal(parts(seq!['.', '.'])).len() == 0,
{
    law_shortest_paths(name);
    law_path_goes_on(path, name);
    law_path_goes_on(path + seq!['/'] + name, name);
    law_path_goes_on(seq!['/'], name);
    let all = parts(path);
    let more = all.push(PartView::Name(name));
    assert(more.drop_last() =~= all);
    assert(more.push(PartView::Parent).drop_last() =~= more);
    assert(normal(all).push(PartView::Name(name)).drop_last() =~= normal(all));
    let root = seq![PartView::Root];
    reveal_with_fuel(normal, 3);
    assert(root.drop_last() =~= Seq::empty());
    assert(root.push(PartView::Parent).drop_last() =~= root);
    assert(seq![PartView::Current].drop_last() =~= Seq::empty());
    assert(seq![PartView::Parent].drop_last() =~= Seq::empty());
}

/// A path from the root is the same from every directory; any other continues the directory.
pub proof fn law_resolved_from_a_directory(cwd: Seq<char>, other: Seq<char>, path: Seq<char>)
    ensures
        path.len() > 0 && path[0] == '/' ==> resolved(cwd, path) == resolved(other, path),
        path.len() > 0 && path[0] == '/' ==> resolved(cwd, path) == written(normal(parts(path))),
        (path.len() == 0 || path[0] != '/') && cwd.len() > 0 && cwd.last() != '/' ==> resolved(
            cwd,
            path,
        ) == written(normal(parts(cwd + seq!['/'] + path))),
        (path.len() == 0 || path[0] != '/') && cwd.len() > 0 && cwd.last() == '/' ==> resolved(
            cwd,
            path,
        ) == written(normal(parts(cwd + path))),
        path.len() == 0 || path[0] != '/' ==> resolved(Seq::empty(), path) == written(
            normal(parts(path)),
        ),
{
    assert(Seq::<char>::empty() + path =~= path);
}

/// Components are written behind each other with one slash between two, and none behind the root's own.
pub proof fn law_components_are_written(all: Seq<PartView>, name: Seq<char>)
    ensures
        written(Seq::empty()).len() == 0,
        written(seq![PartView::Root]) == seq!['/'],
        written(seq![PartView::Name(name)]) == name,
        written(seq![PartView::Root, PartView::Name(name)]) == seq!['/'] + name,
        all.len() > 1 || (all.len() == 1 && all[0] !is Root) ==> written(
            all.push(PartView::Name(name)),
        ) == written(all) + seq!['/'] + name,
        all.len() > 1 || (all.len() == 1 && all[0] !is Root) ==> written(all.push(PartView::Parent))
            == written(all) + seq!['/', '.', '.'],
{
    reveal_with_fuel(written, 3);
    let root = seq![PartView::Root];
    assert(root.drop_last() =~= Seq::empty());
    assert(seq![PartView::Name(name)].drop_last() =~= Seq::empty());
    assert(seq![PartView::Root, PartView::Name(name)].drop_last() =~= root);
    assert(all.push(PartView::Name(name)).drop_last() =~= all);
    assert(all.push(PartView::Parent).drop_last() =~= all);
    assert(Seq::<char>::empty() + seq!['/'] =~= seq!['/']);
    assert(written(seq![PartView::Name(name)]) =~= name);
    assert(written(all) + seq!['/'] + seq!['.', '.'] =~= written(all) + seq!['/', '.', '.']);
}

/// A path lies in a root where the root's components are its first ones; so every path lies in itself
/// and in what it continues, and two names beside each other do not lie in one another.
pub proof fn law_containment_by_component(path: Seq<char>, root: Seq<char>, name: Seq<char>, other: Seq<char>)
    requires
        root.len() > 0,
        is_name(name),
        is_name(other),
    ensures
        lies_in(path, root) == (parts(root).len() <= parts(path).len() && forall|i: int|
            0 <= i < parts(root).len() ==> #[trigger] parts(root)[i] == parts(path)[i]),
        lies_in(path, path),
        lies_in(root + seq!['/'] + name, root),
        !lies_in(root, root + seq!['/'] + name),
        name != other ==> !lies_in(root + seq!['/'] + name, root + seq!['/'] + other),
{
    law_path_goes_on(root, name);
    law_path_goes_on(root, other);
    let (r, p) = (parts(root), parts(path));
    if r.len() <= p.len() && forall|i: int| 0 <= i < r.len() ==> #[trigger] r[i] == p[i] {
        assert(p.subrange(0, r.len() as int) =~= r);
    }
    if lies_in(path, root) {
        assert forall|i: int| 0 <= i < r.len() implies #[trigger] r[i] == p[i] by {
            assert(p.subrange(0, r.len() as int)[i] == p[i]);
        }
    }
    assert(p.subrange(0, p.len() as int) =~= p);
    let n = r.push(PartView::Name(name));
    let o = r.push(PartView::Name(other));
    assert(n.subrange(0, r.len() as int) =~= r);
    if name != other {
        assert(n.subrange(0, o.len() as int)[r.len() as int] != o[r.len() as int]);
    }
}

/// The ending of a file's name is what stands behind its last dot. A name without a dot has none, nor
/// has one whose only dot begins it.
pub proof fn law_ending_of_a_name(dir: Seq<char>, stem: Seq<char>, ext: Seq<char>)
    requires
        dir.len() > 0,
        forall|i: int| 0 <= i < stem.len() ==> #[trigger] stem[i] != '/',
        forall|i: int| 0 <= i < ext.len() ==> #[trigger] ext[i] != '/' && ext[i] != '.',
    ensures
        stem.len() > 0 && is_name(stem + seq!['.'] + ext) ==> extension_of(
            dir + seq!['/'] + (stem + seq!['.'] + ext),
        ) == Some(ext),
        ext.len() > 0 ==> extension_of(dir + seq!['/'] + ext) is None,
        ext.len() > 0 ==> extension_of(dir + seq!['/'] + (seq!['.'] + ext)) is None,
{
    let name = stem + seq!['.'] + ext;
    if stem.len() > 0 && is_name(name) {
        law_path_goes_on(dir, name);
        lemma_last_at_behind(stem + seq!['.'], ext, '.');
        assert((stem + seq!['.']).last() == '.');
        assert(name.subrange(stem.len() as int + 1, name.len() as int) =~= ext);
    }
    if ext.len() > 0 {
        assert(ext[0] != '.');
        assert(seq!['.'][0] == '.' && seq!['.', '.'][0] == '.' && seq!['.', '.'][1] == '.');
        assert(is_name(ext));
        law_path_goes_on(dir, ext);
        lemma_last_at_behind(Seq::empty(), ext, '.');
        assert(Seq::<char>::empty() + ext =~= ext);
        let hidden = seq!['.'] + ext;
        assert forall|i: int| 0 <= i < hidden.len() implies #[trigger] hidden[i] != '/' by {
            if i > 0 {
                assert(hidden[i] == ext[i - 1]);
            }
        }
        assert(hidden[1] == ext[0]);
        assert(hidden.len() >= 2 && seq!['.'].len() == 1);
        assert(is_name(hidden));
        law_path_goes_on(dir, hidden);
        lemma_last_at_behind(seq!['.'], ext, '.');
    }
}

proof fn lemma_last_at_behind(a: Seq<char>, b: Seq<char>, c: char)
    requires
        forall|i: int| 0 <= i < b.len() ==> #[trigger] b[i] != c,
        a.len() == 0 || a.last() == c,
    ensures
        last_at(a + b, c) == a.len() - 1,
    decreases b.len(),
{
    if b.len() > 0 {
        assert((a + b).drop_last() =~= a + b.drop_last());
        assert((a + b).last() == b[b.len() - 1]);
        lemma_last_at_behind(a, b.drop_last(), c);
    } else {
        assert(a + b =~= a);
    }
}

/// A path lies in one of several roots where it lies in any of them; it lies in none of no roots.
pub proof fn law_any_root_will_do(path: Seq<char>, roots: Seq<String>, root: String)
    ensures
        !lies_in_any(path, Seq::empty()),
        lies_in_any(path, roots.push(root)) == (lies_in_any(path, roots) || lies_in(path, root@)),
{
    let more = roots.push(root);
    if lies_in_any(path, roots) {
        let i = choose|i: int| 0 <= i < roots.len() && lies_in(path, (#[trigger] roots[i])@);
        assert(more[i] == roots[i]);
    }
    if lies_in(path, root@) {
        assert(more[roots.len() as int] == root);
    }
    if lies_in_any(path, more) {
        let i = choose|i: int| 0 <= i < more.len() && lies_in(path, (#[trigger] more[i])@);
        if i < roots.len() {
            assert(roots[i] == more[i]);
        }
    }
}

/// The roots that a configuration stands for: the default where it names none, else each of its own, in
/// their order, seen from the working directory and tidied.
pub proof fn law_configured_roots(roots: Seq<Seq<char>>, cwd: Seq<char>, default_root: Seq<char>, i: int)
    ensures
        effective_roots(Seq::empty(), cwd, default_root) == seq![written(parts(default_root))],
        roots.len() > 0 ==> effective_roots(roots, cwd, default_root).len() == roots.len(),
        roots.len() > 0 && 0 <= i < roots.len() && roots[i].len() > 0 && roots[i][0] == '/'
            ==> effective_roots(roots, cwd, default_root)[i] == written(parts(roots[i])),
        roots.len() > 0 && 0 <= i < roots.len() && (roots[i].len() == 0 || roots[i][0] != '/')
            && cwd.len() > 0 && cwd.last() != '/' ==> effective_roots(roots, cwd, default_root)[i]
            == written(parts(cwd + seq!['/'] + roots[i])),
{
}

} // verus!
