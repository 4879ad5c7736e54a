//! A session manager for git worktrees: projects, their worktrees and the
//! interactive sessions bound to them, kept consistent across three
//! independently-mutable sources of truth — the metadata store, the
//! filesystem/git state, and the live session backend.
//!
//! The store and every lifecycle decision live here, verified. The outside
//! world (git, the session backend, the filesystem, the clock) enters only
//! as plain observations handed to the managers, and leaves as plain
//! actions the caller performs.

pub mod backend;
pub mod config;
pub mod error;
pub mod managers;
pub mod models;
pub mod names;
pub mod picker;
pub mod store;
pub mod text;
