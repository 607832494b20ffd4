//! The closed set of object type tags and their labels.

use vstd::prelude::*;
use vstd::string::StringSliceAdditionalSpecFns;

verus! {

/// The different kinds of objects a repository knows about.
#[derive(Copy, Clone, Debug, PartialEq, Eq, Structural)]
pub enum GitObjectType {
    /// Just a bunch of data.
    Blob,
    /// Represents a file system.
    Tree,
    /// A link to another object.
    Tag,
    /// A commit.
    Commit,
}

impl GitObjectType {
    /// The label of a tag, as characters.
    pub open spec fn label(self) -> Seq<char> {
        match self {
            GitObjectType::Blob => seq!['b', 'l', 'o', 'b'],
            GitObjectType::Tree => seq!['t', 'r', 'e', 'e'],
            GitObjectType::Tag => seq!['t', 'a', 'g'],
            GitObjectType::Commit => seq!['c', 'o', 'm', 'm', 'i', 't'],
        }
    }

    /// The label of a tag as the ASCII bytes that open a frame.
    pub open spec fn label_bytes(self) -> Seq<u8> {
        match self {
            GitObjectType::Blob => seq![0x62u8, 0x6c, 0x6f, 0x62],
            GitObjectType::Tree => seq![0x74u8, 0x72, 0x65, 0x65],
            GitObjectType::Tag => seq![0x74u8, 0x61, 0x67],
            GitObjectType::Commit => seq![0x63u8, 0x6f, 0x6d, 0x6d, 0x69, 0x74],
        }
    }

    /// The fixed lowercase label of this tag.
    pub fn name_as_string(&self) -> (name: &'static str)
        ensures
            name@ == self.label(),
            name.is_ascii(),
            name.spec_bytes() == self.label_bytes(),
    {
        let name = match self {
            GitObjectType::Blob => "blob",
            GitObjectType::Tree => "tree",
            GitObjectType::Tag => "tag",
            GitObjectType::Commit => "commit",
        };
        proof {
            reveal_strlit("blob");
            reveal_strlit("tree");
            reveal_strlit("tag");
            reveal_strlit("commit");
            assert(name@ =~= self.label());
            vstd::string::is_ascii_spec_bytes(name);
            assert(name.spec_bytes() =~= self.label_bytes());
        }
        name
    }
}

/// The label bytes are the label's characters, one byte each, and no label
/// holds a NUL or a space.
pub proof fn lemma_label_bytes(kind: GitObjectType)
    ensures
        kind.label_bytes().len() == kind.label().len(),
        3 <= kind.label_bytes().len() <= 6,
        forall|i: int|
            0 <= i < kind.label().len() ==> #[trigger] kind.label_bytes()[i] == kind.label()[i] as u8,
        forall|i: int|
            0 <= i < kind.label_bytes().len() ==> 0x61 <= #[trigger] kind.label_bytes()[i] <= 0x7a,
{
}

/// Distinct tags have distinct labels: the first two bytes already tell
/// them apart.
pub proof fn lemma_label_injective(a: GitObjectType, b: GitObjectType)
    requires
        a.label_bytes()[0] == b.label_bytes()[0],
        a.label_bytes()[1] == b.label_bytes()[1],
    ensures
        a == b,
{
}

} // verus!
