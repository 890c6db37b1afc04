//! Discovery of git repositories under a workspace tree, with a validity-checked cache.
//!
//! The crate holds the rules of the tool: what a cache entry is and when it may
//! be trusted, how the store changes under each operation, what the walker does
//! with each directory it visits, and how repository URLs are taken apart. The
//! clock and the filesystem reach these rules as plain values.

pub mod assoc;
pub mod cache;
pub mod cache_laws;
pub mod commands;
pub mod config;
pub mod error;
pub mod paths;
pub mod persist;
mod slots;
pub mod snapshot;
pub mod stored;
pub mod text;
