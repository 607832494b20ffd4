//! Finding the repository that a directory belongs to.

use vstd::prelude::*;
use crate::error::StoreError;
use crate::path::AbsolutePath;

verus! {

/// The name of the directory that marks a repository root.
pub open spec fn metadata_dir() -> Seq<char> {
    seq!['.', 'r', 'e', 'p', 'o', '-', 'm', 'e', 't', 'a']
}

/// The first `depth` components of a path: the path itself at its own
/// depth, its ancestors above, the filesystem root at depth zero.
pub open spec fn ancestor(path: Seq<Seq<char>>, depth: int) -> Seq<Seq<char>> {
    path.subrange(0, depth)
}

/// Whether `path` is one of the directories in `dirs`.
pub open spec fn lists(dirs: Seq<AbsolutePath>, path: Seq<Seq<char>>) -> bool {
    exists|i: int| 0 <= i < dirs.len() && (#[trigger] dirs[i])@ == path
}

/// Whether `dir` holds the metadata directory, going by the directories
/// in `dirs`.
pub open spec fn holds_repository(dir: Seq<Seq<char>>, dirs: Seq<AbsolutePath>) -> bool {
    lists(dirs, dir.push(metadata_dir()))
}

/// Whether `root` is the repository that `search_path` belongs to: the
/// nearest of `search_path` and its ancestors that holds the metadata
/// directory.
pub open spec fn is_repository_root(
    root: Seq<Seq<char>>,
    search_path: Seq<Seq<char>>,
    dirs: Seq<AbsolutePath>,
) -> bool {
    &&& root.len() <= search_path.len()
    &&& root == ancestor(search_path, root.len() as int)
    &&& holds_repository(root, dirs)
    &&& forall|depth: int|
        root.len() < depth <= search_path.len() ==> !holds_repository(
            #[trigger] ancestor(search_path, depth),
            dirs,
        )
}

/// Whether neither `search_path` nor any directory above it holds the
/// metadata directory.
pub open spec fn outside_any_repository(
    search_path: Seq<Seq<char>>,
    dirs: Seq<AbsolutePath>,
) -> bool {
    forall|depth: int|
        0 <= depth <= search_path.len() ==> !holds_repository(
            #[trigger] ancestor(search_path, depth),
            dirs,
        )
}

/// The name of the metadata directory.
pub fn metadata_dir_name() -> (name: &'static str)
    ensures
        name@ == metadata_dir(),
{
    proof {
        reveal_strlit(".repo-meta");
    }
    let name = ".repo-meta";
    assert(name@ =~= metadata_dir());
    name
}

/// Looks `path` up among `dirs`.
pub fn is_listed(dirs: &[AbsolutePath], path: &AbsolutePath) -> (listed: bool)
    ensures
        listed == lists(dirs@, path@),
{
    let mut i: usize = 0;
    while i < dirs.len()
        invariant
            i <= dirs@.len(),
            forall|j: int| 0 <= j < i ==> (#[trigger] dirs@[j])@ != path@,
        decreases dirs@.len() - i,
    {
        if dirs[i].same_as(path) {
            return true;
        }
        i = i + 1;
    }
    false
}

/// The directories whose presence the search asks about, in the order in
/// which it asks: the metadata directory in `search_path` itself, then in
/// its parent, and so on up to the filesystem root.
pub fn metadata_candidates(search_path: &AbsolutePath) -> (candidates: Vec<AbsolutePath>)
    ensures
        candidates@.len() == search_path@.len() + 1,
        forall|k: int|
            0 <= k < candidates@.len() ==> (#[trigger] candidates@[k])@ == ancestor(
                search_path@,
                search_path@.len() - k,
            ).push(metadata_dir()),
{
    let mut candidates: Vec<AbsolutePath> = Vec::new();
    let mut current = search_path.clone();
    assert(current@ =~= ancestor(search_path@, search_path@.len() as int));
    loop
        invariant
            current@.len() + candidates@.len() == search_path@.len(),
            current@ == ancestor(search_path@, current@.len() as int),
            forall|k: int|
                0 <= k < candidates@.len() ==> (#[trigger] candidates@[k])@ == ancestor(
                    search_path@,
                    search_path@.len() - k,
                ).push(metadata_dir()),
        decreases current@.len(),
    {
        candidates.push(current.join(metadata_dir_name()));
        match current.parent() {
            Some(up) => {
                assert(up@ =~= ancestor(search_path@, current@.len() - 1));
                current = up;
            },
            None => {
                return candidates;
            },
        }
    }
}

/// Finds the repository that `search_path` belongs to. It looks for the
/// metadata directory in `search_path`, then in its parent, and so on, and
/// stops at the first directory that holds it. `dirs` lists the directories
/// that exist. When the filesystem root is reached and does not hold it
/// either, there is no repository.
pub fn find_git_root(search_path: &AbsolutePath, dirs: &[AbsolutePath]) -> (found: Result<
    AbsolutePath,
    StoreError,
>)
    ensures
        match found {
            Ok(root) => is_repository_root(root@, search_path@, dirs@),
            Err(error) => error == StoreError::RepositoryNotFound && outside_any_repository(
                search_path@,
                dirs@,
            ),
        },
{
    let mut current = search_path.clone();
    assert(current@ =~= ancestor(search_path@, search_path@.len() as int));
    loop
        invariant
            current@.len() <= search_path@.len(),
            current@ == ancestor(search_path@, current@.len() as int),
            forall|depth: int|
                current@.len() < depth <= search_path@.len() ==> !holds_repository(
                    #[trigger] ancestor(search_path@, depth),
                    dirs@,
                ),
        decreases current@.len(),
    {
        let candidate = current.join(metadata_dir_name());
        if is_listed(dirs, &candidate) {
            return Ok(current);
        }
        match current.parent() {
            Some(up) => {
                assert(up@ =~= ancestor(search_path@, current@.len() - 1));
                current = up;
            },
            None => {
                return Err(StoreError::RepositoryNotFound);
            },
        }
    }
}

/// A directory belongs to at most one repository: two roots found for the
/// same starting point and the same directories are the same path.
pub proof fn lemma_repository_root_unique(
    first: Seq<Seq<char>>,
    second: Seq<Seq<char>>,
    search_path: Seq<Seq<char>>,
    dirs: Seq<AbsolutePath>,
)
    requires
        is_repository_root(first, search_path, dirs),
        is_repository_root(second, search_path, dirs),
    ensures
        first == second,
{
    if first.len() < second.len() {
        assert(!holds_repository(ancestor(search_path, second.len() as int), dirs));
    }
    if second.len() < first.len() {
        assert(!holds_repository(ancestor(search_path, first.len() as int), dirs));
    }
}

/// The search fails exactly when no directory on the way up holds the
/// metadata directory: a root and a failed search exclude each other, and
/// one of the two always holds.
pub proof fn lemma_found_unless_outside(search_path: Seq<Seq<char>>, dirs: Seq<AbsolutePath>)
    ensures
        outside_any_repository(search_path, dirs) <==> !exists|root: Seq<Seq<char>>|
            is_repository_root(root, search_path, dirs),
{
    if outside_any_repository(search_path, dirs) {
        assert forall|root: Seq<Seq<char>>| !is_repository_root(root, search_path, dirs) by {
            if is_repository_root(root, search_path, dirs) {
                assert(!holds_repository(ancestor(search_path, root.len() as int), dirs));
            }
        }
    } else {
        let depth = nearest_repository_depth(search_path, dirs, search_path.len() as int);
        assert(is_repository_root(ancestor(search_path, depth), search_path, dirs));
    }
}

/// The depth of the nearest directory at or above `from` that holds the
/// metadata directory.
proof fn nearest_repository_depth(
    search_path: Seq<Seq<char>>,
    dirs: Seq<AbsolutePath>,
    from: int,
) -> (depth: int)
    requires
        0 <= from <= search_path.len(),
        exists|d: int|
            0 <= d <= from && holds_repository(#[trigger] ancestor(search_path, d), dirs),
        forall|d: int|
            from < d <= search_path.len() ==> !holds_repository(
                #[trigger] ancestor(search_path, d),
                dirs,
            ),
    ensures
        0 <= depth <= from,
        is_repository_root(ancestor(search_path, depth), search_path, dirs),
    decreases from,
{
    if holds_repository(ancestor(search_path, from), dirs) {
        assert(ancestor(search_path, from) =~= ancestor(
            search_path,
            ancestor(search_path, from).len() as int,
        ));
        from
    } else {
        nearest_repository_depth(search_path, dirs, from - 1)
    }
}

} // verus!
