//! A minimal content-addressable object store.
//!
//! A payload and a type tag are framed into one canonical byte sequence, the
//! frame is hashed into a 40-character object id, and the id fixes where the
//! compressed frame is kept below a repository root. A repository root is
//! found by walking from a directory towards the filesystem root.
//!
//! Nothing here touches the filesystem: callers hand in bytes and directory
//! listings and receive bytes and paths.

pub mod decimal;
pub mod digest;
pub mod error;
pub mod frame;
pub mod locate;
pub mod object_type;
pub mod path;
pub mod store;

pub use digest::{digest, hash_object, ContentDigest, HashedObject};
pub use error::StoreError;
pub use frame::encode;
pub use locate::{find_git_root, metadata_candidates};
pub use object_type::GitObjectType;
pub use path::{object_path, shard_dir, AbsolutePath};
pub use store::{compress, plan_persist, plan_write, WritePlan};
