//! Paths as text. A path is absolute when it begins with the separator `/`.

use vstd::prelude::*;

verus! {

/// Whether a path begins at the root.
pub open spec fn is_absolute(path: Seq<char>) -> bool {
    path.len() > 0 && path[0] == '/'
}

/// The path of `name` below `base`. An absolute `name` stands for itself. A
/// separator is put between the two unless `base` is empty or already ends in one.
pub open spec fn joined(base: Seq<char>, name: Seq<char>) -> Seq<char> {
    if is_absolute(name) {
        name
    } else if base.len() == 0 || base.last() == '/' {
        base + name
    } else {
        base + seq!['/'] + name
    }
}

/// The absolute form of a path: the path itself if it is absolute, else the path
/// below the current directory.
pub open spec fn absolute_form(path: Seq<char>, current_dir: Seq<char>) -> Seq<char> {
    if is_absolute(path) {
        path
    } else {
        joined(current_dir, path)
    }
}

/// Tells whether `path` begins at the root.
pub fn begins_at_root(path: &str) -> (absolute: bool)
    ensures
        absolute == is_absolute(path@),
{
    path.unicode_len() > 0 && path.get_char(0) == '/'
}

/// Makes the path of `name` below `base`.
pub fn join(base: &str, name: &str) -> (path: String)
    ensures
        path@ == joined(base@, name@),
{
    if begins_at_root(name) {
        return name.to_owned();
    }
    let length: usize = base.unicode_len();
    let mut path = base.to_owned();
    if length > 0 && base.get_char(length - 1) != '/' {
        proof {
            reveal_strlit("/");
        }
        path.append("/");
        assert(path@ =~= base@ + seq!['/']);
    }
    path.append(name);
    path
}

/// Gives the absolute form of `path`, which may be relative to `current_dir`.
pub fn absolute_path(path: &str, current_dir: &str) -> (absolute: String)
    ensures
        absolute@ == absolute_form(path@, current_dir@),
{
    if begins_at_root(path) {
        path.to_owned()
    } else {
        join(current_dir, path)
    }
}

/// The place of the last separator in a path, or -1 for a path without one.
pub open spec fn last_separator(path: Seq<char>) -> int
    decreases path.len(),
{
    if path.len() == 0 {
        -1
    } else if path.last() == '/' {
        path.len() - 1
    } else {
        last_separator(path.drop_last())
    }
}

/// The directory that holds the entry at `path`: the path up to its last
/// separator, or the root for an entry that stands in the root. The root itself
/// has no parent, nor has a path without a separator.
pub open spec fn parent_of(path: Seq<char>) -> Option<Seq<char>> {
    let cut = last_separator(path);
    if cut < 0 || path.len() == 1 {
        None
    } else if cut == 0 {
        Some(seq!['/'])
    } else {
        Some(path.subrange(0, cut))
    }
}

/// Gives the directory that holds the entry at `path`, for a path that is
/// absolute and resolved.
pub fn parent(path: &str) -> (result: Option<String>)
    ensures
        match result {
            Some(directory) => parent_of(path@) == Some(directory@),
            None => parent_of(path@) is None,
        },
{
    let length: usize = path.unicode_len();
    let mut end: usize = length;
    assert(path@.take(end as int) =~= path@);
    while end > 0 && path.get_char(end - 1) != '/'
        invariant
            end <= length,
            length == path@.len(),
            last_separator(path@) == last_separator(path@.take(end as int)),
        decreases end,
    {
        assert(path@.take(end as int).drop_last() =~= path@.take(end - 1));
        end -= 1;
    }
    if end == 0 || length == 1 {
        return None;
    }
    let cut: usize = end - 1;
    assert(last_separator(path@) == cut);
    if cut == 0 {
        proof {
            reveal_strlit("/");
        }
        let root = String::from_str("/");
        assert(root@ =~= seq!['/']);
        Some(root)
    } else {
        Some(path.substring_char(0, cut).to_owned())
    }
}

/// A parent is shorter than its child, so a walk from parent to parent ends.
pub proof fn lemma_parent_is_shorter(path: Seq<char>)
    requires
        parent_of(path) is Some,
    ensures
        parent_of(path)->0.len() < path.len(),
{
    lemma_last_separator_in_range(path);
}

/// The last separator lies within the path.
pub proof fn lemma_last_separator_in_range(path: Seq<char>)
    ensures
        -1 <= last_separator(path) < path.len(),
        last_separator(path) >= 0 ==> path[last_separator(path)] == '/',
    decreases path.len(),
{
    if path.len() != 0 && path.last() != '/' {
        lemma_last_separator_in_range(path.drop_last());
    }
}

} // verus!
