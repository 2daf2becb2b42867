//! Derives a self-contained modpack from a child pack and the parent pack it
//! inherits from: merges the two file indexes, checks downloaded content
//! against its declared digest, and rewrites the child's pack document so
//! that it points at the merged index.
mod digests;

pub mod structs;
pub mod verify;
pub mod merge;
pub mod fetch;
pub mod assemble;
