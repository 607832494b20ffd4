//! The framed object: label, space, decimal length, NUL, payload.

use vstd::prelude::*;
use crate::decimal::{decimal_digits, lemma_decimal_digits_are_digits, to_decimal};
use crate::object_type::{lemma_label_bytes, lemma_label_injective, GitObjectType};

verus! {

/// The byte between the label and the length.
pub const SPACE: u8 = 0x20;

/// The byte between the length and the payload.
pub const NUL: u8 = 0x00;

/// What stands in front of a payload of `len` bytes: the label, a space,
/// `len` in decimal, and a NUL.
pub open spec fn header(kind: GitObjectType, len: nat) -> Seq<u8> {
    kind.label_bytes() + seq![SPACE] + decimal_digits(len) + seq![NUL]
}

/// The canonical byte sequence of an object: its header, then the payload
/// as it is.
pub open spec fn frame(kind: GitObjectType, payload: Seq<u8>) -> Seq<u8> {
    header(kind, payload.len()) + payload
}

/// Builds the framed object of `payload` under the tag `object_type`.
pub fn encode(object_type: GitObjectType, payload: &[u8]) -> (framed: Vec<u8>)
    ensures
        framed@ == frame(object_type, payload@),
        framed@.len() == object_type.label_bytes().len() + 1 + decimal_digits(
            payload@.len(),
        ).len() + 1 + payload@.len(),
{
    let name = object_type.name_as_string();
    let mut framed: Vec<u8> = Vec::new();
    framed.extend_from_slice(name.as_bytes());
    assert(framed@ =~= object_type.label_bytes());
    framed.push(SPACE);
    let mut digits = to_decimal(payload.len());
    framed.append(&mut digits);
    framed.push(NUL);
    assert(framed@ =~= header(object_type, payload@.len()));
    let ghost head = framed@;
    framed.extend_from_slice(payload);
    assert(framed@ =~= head + payload@);
    framed
}

/// A frame is as long as its label, the two separators, the digits of the
/// length and the payload together.
pub proof fn lemma_frame_len(kind: GitObjectType, payload: Seq<u8>)
    ensures
        frame(kind, payload).len() == kind.label_bytes().len() + 1 + decimal_digits(
            payload.len(),
        ).len() + 1 + payload.len(),
{
}

/// The payload passes through unchanged: it is the frame without its
/// header.
pub proof fn lemma_frame_payload(kind: GitObjectType, payload: Seq<u8>)
    ensures
        header(kind, payload.len()).len() <= frame(kind, payload).len(),
        frame(kind, payload).subrange(
            header(kind, payload.len()).len() as int,
            frame(kind, payload).len() as int,
        ) == payload,
        frame(kind, payload).subrange(0, header(kind, payload.len()).len() as int) == header(
            kind,
            payload.len(),
        ),
{
    let h = header(kind, payload.len());
    let f = frame(kind, payload);
    assert(f.subrange(h.len() as int, f.len() as int) =~= payload);
    assert(f.subrange(0, h.len() as int) =~= h);
}

/// Framing loses nothing: two objects with the same frame have the same tag
/// and the same payload.
pub proof fn lemma_frame_injective(
    kind_a: GitObjectType,
    payload_a: Seq<u8>,
    kind_b: GitObjectType,
    payload_b: Seq<u8>,
)
    requires
        frame(kind_a, payload_a) == frame(kind_b, payload_b),
    ensures
        kind_a == kind_b,
        payload_a == payload_b,
{
    let fa = frame(kind_a, payload_a);
    let fb = frame(kind_b, payload_b);
    let la = kind_a.label_bytes();
    let lb = kind_b.label_bytes();
    let da = decimal_digits(payload_a.len());
    let db = decimal_digits(payload_b.len());
    lemma_label_bytes(kind_a);
    lemma_label_bytes(kind_b);
    lemma_decimal_digits_are_digits(payload_a.len());
    lemma_decimal_digits_are_digits(payload_b.len());
    assert(fa[0] == la[0] && fa[1] == la[1]);
    assert(fb[0] == lb[0] && fb[1] == lb[1]);
    lemma_label_injective(kind_a, kind_b);
    let start: int = la.len() as int + 1;
    let na: int = da.len() as int;
    let nb: int = db.len() as int;
    // The first NUL after the label ends the digits of either frame.
    assert(fa[start + na] == NUL);
    assert(fb[start + nb] == NUL);
    if na < nb {
        assert(fb[start + na] == db[na]);
    }
    if nb < na {
        assert(fa[start + nb] == da[nb]);
    }
    assert(na == nb);
    lemma_frame_len(kind_a, payload_a);
    lemma_frame_len(kind_b, payload_b);
    assert(fa.len() == fb.len());
    assert(payload_a.len() == payload_b.len());
    lemma_frame_payload(kind_a, payload_a);
    lemma_frame_payload(kind_b, payload_b);
}

} // verus!
