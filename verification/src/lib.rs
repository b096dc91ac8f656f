//! Integrity verification for a multi-pack object index.
//!
//! A multi-pack index aggregates object lookups over a set of pack files,
//! each of which carries its own per-pack index. This crate checks every
//! structural invariant of such an aggregate index - trailer checksum,
//! fan-out monotonicity, object-id sort order - and cross-references each
//! entry against the pack that claims to hold it. A worktree path stack
//! and a small object data model round out the library.
#![verifier::loop_isolation(false)]

mod bytes;
mod multi_index;
mod object;
mod pack_index;
mod stack;
mod verify;

pub use bytes::oid_less;
pub use multi_index::MultiIndex;
pub use multi_index::MultiIndexEntry;
pub use multi_index::validate_fan;
pub use object::Commit;
pub use object::DetachedObject;
pub use object::Kind;
pub use object::Object;
pub use object::Tree;
pub use object::steal_from_freelist;
pub use pack_index::PackIndex;
pub use pack_index::PackIndexEntry;
pub use stack::Delegate;
pub use stack::Stack;
pub use stack::StackError;
pub use verify::ChecksumError;
pub use verify::Error;
pub use verify::Outcome;
pub use verify::PackError;
pub use verify::PackReport;
pub use verify::PackTraverseOutcome;
pub use verify::PackVerdict;
pub use verify::Verification;
pub use verify::remap_pack_error;
