//! Absolute paths as the names from the filesystem root down, and where an
//! object is kept below a repository root.

use vstd::prelude::*;
use crate::digest::{is_digest_text, ContentDigest, DIGEST_CHARS};

verus! {

/// An absolute, resolved path: the names of its components, outermost
/// first. The filesystem root is the path without components.
#[derive(Debug, PartialEq, Eq)]
pub struct AbsolutePath {
    /// The component names, from the root down.
    pub components: Vec<String>,
}

impl View for AbsolutePath {
    type V = Seq<Seq<char>>;

    open spec fn view(&self) -> Seq<Seq<char>> {
        Seq::new(self.components@.len(), |i: int| self.components@[i]@)
    }
}

/// The name of the directory that holds the objects of a repository.
pub open spec fn objects_dir() -> Seq<char> {
    seq!['o', 'b', 'j', 'e', 'c', 't', 's']
}

/// The directory that shards the objects whose digest starts with the same
/// two characters.
pub open spec fn shard_dir_of(repo_root: Seq<Seq<char>>, digest: Seq<char>) -> Seq<Seq<char>> {
    repo_root.push(objects_dir()).push(digest.subrange(0, 2))
}

/// Where the object with this digest is kept: below the objects directory,
/// in the directory named by the first two characters of the digest, in a
/// file named by the rest.
pub open spec fn object_path_of(repo_root: Seq<Seq<char>>, digest: Seq<char>) -> Seq<Seq<char>> {
    shard_dir_of(repo_root, digest).push(digest.subrange(2, digest.len() as int))
}

/// The names of a path, each behind a `/`.
pub open spec fn joined(path: Seq<Seq<char>>) -> Seq<char>
    decreases path.len(),
{
    if path.len() == 0 {
        Seq::empty()
    } else {
        joined(path.drop_last()) + seq!['/'] + path.last()
    }
}

/// A path as text: `/` for the filesystem root, else every name behind a
/// `/`.
pub open spec fn rendered(path: Seq<Seq<char>>) -> Seq<char> {
    if path.len() == 0 {
        seq!['/']
    } else {
        joined(path)
    }
}

fn copy_names(names: &Vec<String>, count: usize) -> (copy: Vec<String>)
    requires
        count <= names@.len(),
    ensures
        copy@ == names@.subrange(0, count as int),
{
    let mut copy: Vec<String> = Vec::new();
    let mut i: usize = 0;
    while i < count
        invariant
            i <= count <= names@.len(),
            copy@ == names@.subrange(0, i as int),
        decreases count - i,
    {
        copy.push(names[i].clone());
        i = i + 1;
        assert(copy@ =~= names@.subrange(0, i as int));
    }
    copy
}

impl Clone for AbsolutePath {
    fn clone(&self) -> (copy: AbsolutePath)
        ensures
            copy@ == self@,
    {
        let components = copy_names(&self.components, self.components.len());
        assert(components@ =~= self.components@);
        AbsolutePath { components }
    }
}

impl AbsolutePath {
    /// The filesystem root.
    pub fn root() -> (path: AbsolutePath)
        ensures
            path@ == Seq::<Seq<char>>::empty(),
    {
        let path = AbsolutePath { components: Vec::new() };
        assert(path@ =~= Seq::<Seq<char>>::empty());
        path
    }

    /// The path one level down, at `name`.
    pub fn join(&self, name: &str) -> (path: AbsolutePath)
        ensures
            path@ == self@.push(name@),
    {
        let mut components = copy_names(&self.components, self.components.len());
        components.push(name.to_owned());
        let path = AbsolutePath { components };
        assert(path@ =~= self@.push(name@));
        path
    }

    /// The directory that holds this path, or `None` at the filesystem
    /// root, which has none.
    pub fn parent(&self) -> (up: Option<AbsolutePath>)
        ensures
            self@.len() == 0 <==> up is None,
            up matches Some(dir) ==> dir@ == self@.drop_last(),
    {
        let len: usize = self.components.len();
        if len == 0 {
            None
        } else {
            let dir = AbsolutePath { components: copy_names(&self.components, len - 1) };
            assert(dir@ =~= self@.drop_last());
            Some(dir)
        }
    }

    /// The path as text, with `/` between the names.
    pub fn render(&self) -> (text: String)
        ensures
            text@ == rendered(self@),
    {
        let len: usize = self.components.len();
        if len == 0 {
            proof {
                reveal_strlit("/");
            }
            let text = "/".to_owned();
            assert(text@ =~= rendered(self@));
            return text;
        }
        let mut text = String::new();
        let mut i: usize = 0;
        assert(self@.subrange(0, 0) =~= Seq::<Seq<char>>::empty());
        while i < len
            invariant
                len == self.components@.len(),
                i <= len,
                text@ == joined(self@.subrange(0, i as int)),
            decreases len - i,
        {
            proof {
                reveal_strlit("/");
                lemma_joined_push(self@.subrange(0, i as int), self@[i as int]);
                assert(self@.subrange(0, i as int).push(self@[i as int]) =~= self@.subrange(
                    0,
                    i + 1,
                ));
            }
            text.append("/");
            text.append(self.components[i].as_str());
            i = i + 1;
        }
        assert(self@.subrange(0, len as int) =~= self@);
        text
    }

    /// Whether two paths have the same components.
    pub fn same_as(&self, other: &AbsolutePath) -> (same: bool)
        ensures
            same == (self@ == other@),
    {
        let len: usize = self.components.len();
        if len != other.components.len() {
            assert(self@.len() != other@.len());
            return false;
        }
        let mut i: usize = 0;
        while i < len
            invariant
                len == self.components@.len(),
                len == other.components@.len(),
                i <= len,
                forall|j: int| 0 <= j < i ==> self@[j] == other@[j],
            decreases len - i,
        {
            if self.components[i] != other.components[i] {
                assert(self@[i as int] != other@[i as int]);
                return false;
            }
            i = i + 1;
        }
        assert(self@ =~= other@);
        true
    }
}

/// The name of the objects directory.
pub fn objects_dir_name() -> (name: &'static str)
    ensures
        name@ == objects_dir(),
{
    proof {
        reveal_strlit("objects");
    }
    let name = "objects";
    assert(name@ =~= objects_dir());
    name
}

/// Derives the shard directory of an object from the repository root and
/// the object's digest.
pub fn shard_dir(repo_root: &AbsolutePath, digest: &ContentDigest) -> (dir: AbsolutePath)
    ensures
        dir@ == shard_dir_of(repo_root@, digest@),
{
    let shard = digest.as_str().substring_char(0, 2);
    repo_root.join(objects_dir_name()).join(shard)
}

/// Derives the storage path of an object from the repository root and the
/// object's digest.
pub fn object_path(repo_root: &AbsolutePath, digest: &ContentDigest) -> (path: AbsolutePath)
    ensures
        path@ == object_path_of(repo_root@, digest@),
{
    let file = digest.as_str().substring_char(2, DIGEST_CHARS);
    shard_dir(repo_root, digest).join(file)
}

/// A storage path is the repository root followed by three names: the
/// objects directory, a shard of two characters and a file of
/// thirty-eight, which together spell the digest.
pub proof fn lemma_object_path_shape(repo_root: Seq<Seq<char>>, digest: Seq<char>)
    requires
        is_digest_text(digest),
    ensures
        object_path_of(repo_root, digest) == repo_root + seq![
            objects_dir(),
            digest.subrange(0, 2),
            digest.subrange(2, 40),
        ],
        digest.subrange(0, 2).len() == 2,
        digest.subrange(2, 40).len() == 38,
        digest.subrange(0, 2) + digest.subrange(2, 40) == digest,
        object_path_of(repo_root, digest).drop_last() == shard_dir_of(repo_root, digest),
{
    let path = object_path_of(repo_root, digest);
    assert(path =~= repo_root + seq![
        objects_dir(),
        digest.subrange(0, 2),
        digest.subrange(2, 40),
    ]);
    assert(digest.subrange(0, 2) + digest.subrange(2, 40) =~= digest);
    assert(path.drop_last() =~= shard_dir_of(repo_root, digest));
}

/// One more name puts a `/` and that name behind the text.
pub proof fn lemma_joined_push(path: Seq<Seq<char>>, name: Seq<char>)
    ensures
        joined(path.push(name)) == joined(path) + seq!['/'] + name,
{
    assert(path.push(name).drop_last() =~= path);
}

/// The storage path as text: the repository root, then `/objects/`, the
/// first two characters of the digest, `/`, and the other thirty-eight.
pub proof fn lemma_object_path_layout(repo_root: Seq<Seq<char>>, digest: Seq<char>)
    requires
        is_digest_text(digest),
    ensures
        joined(object_path_of(repo_root, digest)) == joined(repo_root) + seq!['/'] + objects_dir()
            + seq!['/'] + digest.subrange(0, 2) + seq!['/'] + digest.subrange(2, 40),
        rendered(object_path_of(repo_root, digest)) == joined(object_path_of(repo_root, digest)),
{
    lemma_joined_push(repo_root, objects_dir());
    lemma_joined_push(repo_root.push(objects_dir()), digest.subrange(0, 2));
    lemma_joined_push(shard_dir_of(repo_root, digest), digest.subrange(2, 40));
}

/// Two digests that share a storage path below the same root are the same
/// digest: distinct objects never meet in one file.
pub proof fn lemma_object_path_injective(
    repo_root: Seq<Seq<char>>,
    first: Seq<char>,
    second: Seq<char>,
)
    requires
        is_digest_text(first),
        is_digest_text(second),
        object_path_of(repo_root, first) == object_path_of(repo_root, second),
    ensures
        first == second,
{
    lemma_object_path_shape(repo_root, first);
    lemma_object_path_shape(repo_root, second);
    let n = repo_root.len() as int;
    let a = object_path_of(repo_root, first);
    let b = object_path_of(repo_root, second);
    assert(a[n + 1] == first.subrange(0, 2) && a[n + 2] == first.subrange(2, 40));
    assert(b[n + 1] == second.subrange(0, 2) && b[n + 2] == second.subrange(2, 40));
}

} // verus!
