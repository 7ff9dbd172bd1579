//! Branch-workflow engine: a three-way line-range text merge, a conflict
//! classifier and resolution state machine for replaying a branch onto an
//! updated base, and the temporary-commit bracketing discipline that protects
//! uncommitted work. The version-control backend (object store, diffs, rebase
//! primitives) is an outside collaborator reached through a small set of
//! trusted wrappers.

pub mod cli;
pub mod ctx;
pub mod diff;
pub mod error;
pub mod gitio;
pub mod lines;
pub mod mcp;
pub mod merge;
pub mod range;
pub mod repro;
pub mod save;
pub mod squash;
pub mod status;
pub mod sync;
