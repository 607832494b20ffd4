//! The content digest: SHA-1 of a frame, as 40 lowercase hexadecimal
//! characters.

use vstd::prelude::*;
use crate::frame::{encode, frame, lemma_frame_injective};
use crate::object_type::GitObjectType;

verus! {

/// The number of characters in a digest.
pub const DIGEST_CHARS: usize = 40;

/// The SHA-1 hash of a byte sequence. The algorithm is not written out
/// here: the name stands for what the `sha1` crate computes.
pub uninterp spec fn sha1_digest(data: Seq<u8>) -> Seq<u8>;

/// The lowercase hexadecimal digit of a value below sixteen.
pub open spec fn hex_digit(nibble: int) -> char {
    if nibble < 10 {
        (0x30 + nibble) as char
    } else {
        (0x57 + nibble) as char
    }
}

/// Two lowercase hexadecimal digits for every byte, the high half first.
pub open spec fn hex_lower(data: Seq<u8>) -> Seq<char> {
    Seq::new(
        2 * data.len(),
        |i: int|
            if i % 2 == 0 {
                hex_digit(data[i / 2] as int / 16)
            } else {
                hex_digit(data[i / 2] as int % 16)
            },
    )
}

/// Whether a character is one of `0` to `9` or `a` to `f`.
pub open spec fn is_lower_hex(c: char) -> bool {
    ('0' <= c && c <= '9') || ('a' <= c && c <= 'f')
}

/// Whether a text has the shape of a digest: exactly 40 lowercase
/// hexadecimal characters.
pub open spec fn is_digest_text(text: Seq<char>) -> bool {
    &&& text.len() == DIGEST_CHARS
    &&& forall|i: int| 0 <= i < text.len() ==> is_lower_hex(#[trigger] text[i])
}

/// The digest of a byte sequence as text.
pub open spec fn digest_text(data: Seq<u8>) -> Seq<char> {
    hex_lower(sha1_digest(data))
}

/// The digest under which an object is known: that of its frame.
pub open spec fn object_id(kind: GitObjectType, payload: Seq<u8>) -> Seq<char> {
    digest_text(frame(kind, payload))
}

/// Hexadecimal text is twice as long as the bytes and holds lowercase
/// hexadecimal characters only.
pub proof fn lemma_hex_lower_shape(data: Seq<u8>)
    ensures
        hex_lower(data).len() == 2 * data.len(),
        forall|i: int| 0 <= i < hex_lower(data).len() ==> is_lower_hex(#[trigger] hex_lower(data)[i]),
{
    assert forall|i: int| 0 <= i < hex_lower(data).len() implies is_lower_hex(
        #[trigger] hex_lower(data)[i],
    ) by {
        let byte = data[i / 2] as int;
        assert(0 <= byte / 16 < 16);
        assert(0 <= byte % 16 < 16);
    }
}

/// Hexadecimal text loses nothing: two byte sequences with the same text
/// are the same bytes.
pub proof fn lemma_hex_lower_injective(first: Seq<u8>, second: Seq<u8>)
    requires
        hex_lower(first) == hex_lower(second),
    ensures
        first == second,
{
    assert(hex_lower(first).len() == 2 * first.len());
    assert(hex_lower(second).len() == 2 * second.len());
    assert(first.len() == second.len());
    assert forall|k: int| 0 <= k < first.len() implies first[k] == second[k] by {
        let a = first[k] as int;
        let b = second[k] as int;
        assert(hex_lower(first)[2 * k] == hex_digit(a / 16));
        assert(hex_lower(second)[2 * k] == hex_digit(b / 16));
        assert(hex_lower(first)[2 * k + 1] == hex_digit(a % 16));
        assert(hex_lower(second)[2 * k + 1] == hex_digit(b % 16));
        assert(0 <= a / 16 < 16 && 0 <= b / 16 < 16);
        assert(0 <= a % 16 < 16 && 0 <= b % 16 < 16);
        assert(a / 16 == b / 16);
        assert(a % 16 == b % 16);
    }
    assert(first =~= second);
}

/// Two different objects share a digest only where SHA-1 itself collides:
/// their frames differ, and the hash of the two frames is the same. How
/// rare that is, is a matter of SHA-1 and not proved here.
pub proof fn lemma_shared_digest_is_a_collision(
    kind_a: GitObjectType,
    payload_a: Seq<u8>,
    kind_b: GitObjectType,
    payload_b: Seq<u8>,
)
    requires
        kind_a != kind_b || payload_a != payload_b,
        object_id(kind_a, payload_a) == object_id(kind_b, payload_b),
    ensures
        frame(kind_a, payload_a) != frame(kind_b, payload_b),
        sha1_digest(frame(kind_a, payload_a)) == sha1_digest(frame(kind_b, payload_b)),
{
    if frame(kind_a, payload_a) == frame(kind_b, payload_b) {
        lemma_frame_injective(kind_a, payload_a, kind_b, payload_b);
    }
    lemma_hex_lower_injective(
        sha1_digest(frame(kind_a, payload_a)),
        sha1_digest(frame(kind_b, payload_b)),
    );
}

/// Calls `sha1::Sha1::digest`, the one-shot SHA-1 of the `sha1` crate, on
/// `data`. Believed, not proved: the 20 bytes that come back are the hash
/// that `sha1_digest` names.
#[verifier::external_body]
fn sha1_of(data: &[u8]) -> (hash: [u8; 20])
    ensures
        hash@ == sha1_digest(data@),
{
    <sha1::Sha1 as sha1::Digest>::digest(data).into()
}

/// Calls `hex::encode` on `data`. Believed, not proved: the string holds
/// two characters per byte, taken from `0123456789abcdef`, the high four
/// bits first.
#[verifier::external_body]
fn hex_encode(data: &[u8]) -> (text: String)
    ensures
        text@ == hex_lower(data@),
{
    hex::encode(data)
}

/// A content digest: the address of a framed object.
#[derive(Debug, PartialEq, Eq)]
pub struct ContentDigest {
    hex: String,
}

impl View for ContentDigest {
    type V = Seq<char>;

    closed spec fn view(&self) -> Seq<char> {
        self.hex@
    }
}

impl Clone for ContentDigest {
    fn clone(&self) -> (copy: ContentDigest)
        ensures
            copy@ == self@,
    {
        proof {
            use_type_invariant(self);
        }
        ContentDigest { hex: self.hex.clone() }
    }
}

impl ContentDigest {
    #[verifier::type_invariant]
    spec fn well_formed(self) -> bool {
        is_digest_text(self.hex@)
    }

    /// Reads a digest from its text. Only a text of exactly 40 lowercase
    /// hexadecimal characters is one.
    pub fn from_hex(text: &str) -> (parsed: Option<ContentDigest>)
        ensures
            parsed is Some <==> is_digest_text(text@),
            parsed matches Some(digest) ==> digest@ == text@,
    {
        let len: usize = text.unicode_len();
        if len != DIGEST_CHARS {
            return None;
        }
        let mut i: usize = 0;
        while i < len
            invariant
                len == text@.len(),
                i <= len,
                forall|j: int| 0 <= j < i ==> is_lower_hex(#[trigger] text@[j]),
            decreases len - i,
        {
            let c: char = text.get_char(i);
            let ok: bool = ('0' <= c && c <= '9') || ('a' <= c && c <= 'f');
            if !ok {
                return None;
            }
            i = i + 1;
        }
        Some(ContentDigest { hex: text.to_owned() })
    }

    /// The digest as text.
    pub fn as_str(&self) -> (text: &str)
        ensures
            text@ == self@,
            is_digest_text(text@),
    {
        proof {
            use_type_invariant(self);
        }
        self.hex.as_str()
    }
}

/// Hashes a framed object.
pub fn digest(framed: &[u8]) -> (id: ContentDigest)
    ensures
        id@ == digest_text(framed@),
        is_digest_text(id@),
{
    let hash: [u8; 20] = sha1_of(framed);
    let hex: String = hex_encode(hash.as_slice());
    proof {
        lemma_hex_lower_shape(hash@);
    }
    ContentDigest { hex }
}

/// A framed object together with its digest.
#[derive(Debug, PartialEq, Eq)]
pub struct HashedObject {
    /// The canonical bytes that were hashed.
    pub framed: Vec<u8>,
    /// Their digest.
    pub digest: ContentDigest,
}

impl HashedObject {
    /// Whether this is what hashing `payload` under `kind` gives.
    pub open spec fn is_hash_of(self, kind: GitObjectType, payload: Seq<u8>) -> bool {
        &&& self.framed@ == frame(kind, payload)
        &&& self.digest@ == object_id(kind, payload)
        &&& is_digest_text(self.digest@)
    }
}

/// Frames `payload` under `object_type` and hashes the frame. This needs no
/// repository and cannot fail.
pub fn hash_object(object_type: GitObjectType, payload: &[u8]) -> (hashed: HashedObject)
    ensures
        hashed.is_hash_of(object_type, payload@),
{
    let framed = encode(object_type, payload);
    let digest = digest(framed.as_slice());
    HashedObject { framed, digest }
}

/// Hashing is a function of the tag and the payload alone: whatever two
/// runs return for the same tag and payload, the frames agree byte for byte
/// and the digests character for character.
pub proof fn lemma_hash_object_deterministic(
    kind: GitObjectType,
    payload: Seq<u8>,
    first: HashedObject,
    second: HashedObject,
)
    requires
        first.is_hash_of(kind, payload),
        second.is_hash_of(kind, payload),
    ensures
        first.framed@ == second.framed@,
        first.digest@ == second.digest@,
{
}

} // verus!
