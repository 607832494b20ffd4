//! What persisting an object asks of the filesystem: the compressed frame
//! and the place to write it.

use vstd::prelude::*;
use crate::digest::{object_id, ContentDigest};
use crate::error::StoreError;
use crate::frame::frame;
use crate::object_type::GitObjectType;
use crate::path::{object_path, object_path_of, shard_dir, shard_dir_of, AbsolutePath};

verus! {

/// The zlib stream that the `flate2` crate's encoder makes of a byte
/// sequence at its default compression level. The algorithm is not written
/// out here: the name stands for what the encoder returns.
pub uninterp spec fn zlib_deflate(data: Seq<u8>) -> Seq<u8>;

/// The error type of the standard library's I/O, which the encoder
/// reports failures in.
#[verifier::external_type_specification]
#[verifier::external_body]
pub struct ExIoError(std::io::Error);

/// Runs `flate2::write::ZlibEncoder` over `data`: a new encoder at
/// `flate2::Compression::default()` that writes into an empty vector, one
/// `write_all` of `data`, then `finish`. Believed, not proved: the call
/// returns `Ok`, and the vector holds the stream that `zlib_deflate` names.
/// The encoder reports the failures of the writer it wraps and of a
/// compressor that is used out of order. Neither can come up here: a
/// vector in memory takes every write, and the three calls are made once
/// each, in this order.
#[verifier::external_body]
fn zlib_encode(data: &[u8]) -> (packed: Result<Vec<u8>, std::io::Error>)
    ensures
        packed is Ok,
        packed matches Ok(bytes) ==> bytes@ == zlib_deflate(data@),
{
    let mut encoder = flate2::write::ZlibEncoder::new(Vec::new(), flate2::Compression::default());
    std::io::Write::write_all(&mut encoder, data)?;
    encoder.finish()
}

/// One file to write: the compressed frame of an object and where it
/// belongs.
#[derive(Debug, PartialEq, Eq)]
pub struct WritePlan {
    /// The shard directory, which must exist before the file is written.
    pub directory: AbsolutePath,
    /// The file to write.
    pub path: AbsolutePath,
    /// The bytes of the file.
    pub contents: Vec<u8>,
}

impl WritePlan {
    /// Whether this plan puts `contents` at the place that `digest` has
    /// below `repo_root`.
    pub open spec fn places(
        self,
        contents: Seq<u8>,
        digest: Seq<char>,
        repo_root: Seq<Seq<char>>,
    ) -> bool {
        &&& self.path@ == object_path_of(repo_root, digest)
        &&& self.directory@ == shard_dir_of(repo_root, digest)
        &&& self.contents@ == contents
    }

    /// Whether this is the plan for persisting the frame `framed`, known
    /// by `digest`, below `repo_root`: the whole frame, compressed, at the
    /// place of the digest.
    pub open spec fn persists(
        self,
        framed: Seq<u8>,
        digest: Seq<char>,
        repo_root: Seq<Seq<char>>,
    ) -> bool {
        self.places(zlib_deflate(framed), digest, repo_root)
    }

    /// The number of bytes that carrying out the plan writes.
    pub fn bytes_written(&self) -> (count: usize)
        ensures
            count == self.contents@.len(),
    {
        self.contents.len()
    }
}

/// Compresses a framed object, header and payload alike. Every frame is
/// compressed: the result is always `Ok`.
pub fn compress(framed: &[u8]) -> (packed: Result<Vec<u8>, StoreError>)
    ensures
        packed matches Ok(bytes) && bytes@ == zlib_deflate(framed@),
{
    match zlib_encode(framed) {
        Ok(bytes) => Ok(bytes),
        Err(_) => Err(StoreError::CompressionFailed),
    }
}

/// Plans the write of `compressed`, the compressed frame of the object
/// known by `digest`, below `repo_root`.
pub fn plan_write(compressed: Vec<u8>, digest: &ContentDigest, repo_root: &AbsolutePath) -> (plan:
    WritePlan)
    ensures
        plan.places(compressed@, digest@, repo_root@),
{
    WritePlan {
        directory: shard_dir(repo_root, digest),
        path: object_path(repo_root, digest),
        contents: compressed,
    }
}

/// Plans the persisting of the frame `framed`, known by `digest`, below
/// `repo_root`: compresses the frame and derives its place. The plan is
/// the same whether or not the object is already there, and there is one
/// for every frame, digest and root: the result is always `Ok`.
pub fn plan_persist(framed: &[u8], digest: &ContentDigest, repo_root: &AbsolutePath) -> (plan:
    Result<WritePlan, StoreError>)
    ensures
        plan matches Ok(made) && made.persists(framed@, digest@, repo_root@),
{
    match compress(framed) {
        Ok(bytes) => Ok(plan_write(bytes, digest, repo_root)),
        Err(error) => Err(error),
    }
}

/// Persisting is idempotent: whatever two plans are made for the same tag
/// and payload below the same root, they name the same file and hold the
/// same bytes, so carrying out the second leaves what the first wrote.
pub proof fn lemma_persist_idempotent(
    kind: GitObjectType,
    payload: Seq<u8>,
    repo_root: Seq<Seq<char>>,
    first: WritePlan,
    second: WritePlan,
)
    requires
        first.persists(frame(kind, payload), object_id(kind, payload), repo_root),
        second.persists(frame(kind, payload), object_id(kind, payload), repo_root),
    ensures
        first.directory@ == second.directory@,
        first.path@ == second.path@,
        first.contents@ == second.contents@,
{
}

} // verus!
