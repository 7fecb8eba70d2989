//! The name under which a file is written before it replaces another.
use vstd::prelude::*;
use vstd::string::*;

use crate::builtin::paths::{PartView, PathPart};

verus! {

/// The last name of a path with a tag of the process behind it; a path without one has only the
/// tag.
pub open spec fn sibling_parts(path: Seq<char>, pid: u32) -> Seq<PartView> {
    let all = crate::builtin::paths::parts(path);
    let tag = ".tmp."@ + crate::text::decimal(pid as nat);
    match crate::builtin::paths::file_name(path) {
        Some(name) => all.drop_last().push(PartView::Name(name + tag)),
        None => all.push(PartView::Name(tag)),
    }
}

/// A path in the same directory as `path`, tagged with the process, so that no two writers meet and
/// a rename stays on one file system.
pub fn tmp_sibling(path: &str, pid: u32) -> (r: String)
    ensures
        r@ == crate::builtin::paths::written(sibling_parts(path@, pid)),
{
    let number: String = crate::text::to_decimal(pid as u64);
    let tag: String = crate::text::join2(".tmp.", number.as_str());
    let mut all: Vec<PathPart> = crate::builtin::paths::components(path);
    let ghost views = crate::text::views(all@);
    let n: usize = all.len();
    if n > 0 {
        assert(views.last() == all@[n - 1]@);
        match all.pop() {
            Some(PathPart::Name(name)) => {
                let tagged: String = crate::text::join2(name.as_str(), tag.as_str());
                all.push(PathPart::Name(tagged));
                assert(crate::text::views(all@) =~= sibling_parts(path@, pid));
                return crate::builtin::paths::write_parts(all.as_slice());
            },
            Some(other) => {
                all.push(other);
            },
            None => {},
        }
    }
    assert(crate::text::views(all@) =~= views);
    all.push(PathPart::Name(tag));
    assert(crate::text::views(all@) =~= sibling_parts(path@, pid));
    crate::builtin::paths::write_parts(all.as_slice())
}

/// The name under which a file is first written stands in the same directory: the file's own with the
/// tag of the process behind it.
pub proof fn law_sibling_in_the_same_directory(dir: Seq<char>, name: Seq<char>, pid: u32)
    requires
        dir.len() > 0,
        crate::builtin::paths::is_name(name),
    ensures
        sibling_parts(dir + seq!['/'] + name, pid) == crate::builtin::paths::parts(dir).push(
            PartView::Name(name + seq!['.', 't', 'm', 'p', '.'] + crate::text::decimal(pid as nat)),
        ),
{
    reveal_strlit(".tmp.");
    crate::builtin::paths::law_path_goes_on(dir, name);
    let all = crate::builtin::paths::parts(dir);
    assert(all.push(PartView::Name(name)).drop_last() =~= all);
    assert(".tmp."@ =~= seq!['.', 't', 'm', 'p', '.']);
    assert(name + (".tmp."@ + crate::text::decimal(pid as nat)) =~= name + seq![
        '.',
        't',
        'm',
        'p',
        '.',
    ] + crate::text::decimal(pid as nat));
}

} // verus!
