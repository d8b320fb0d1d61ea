//! Verified core of a repository browser: reference resolution, tree
//! navigation, blob rendering, commit-history pagination and tree-to-tree
//! diffs over an immutable object store.
//!
//! All object-store reads go through the trusted boundary in [`store`];
//! everything layered on top of those reads is verified.

pub mod diff;
pub mod git;
pub mod history;
pub mod model;
pub mod refs;
pub mod repository;
pub mod relative_time;
pub mod render;
pub mod text;
pub mod time_utils;
pub mod store;
pub mod tree;
