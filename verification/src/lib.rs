//! Isolated per-task execution environments ("jails"): each jail pairs a
//! version-control worktree with an unprivileged sandbox built from kernel
//! namespaces, bind mounts and a pivoted root filesystem.
//!
//! The library holds the verified logic: name validation, the jail registry
//! and its JSON persistence format, the sandbox recipe and its assembly, and
//! the lifecycle decisions (create, destroy, list, status). Process spawning
//! and terminal plumbing live in the surrounding binary.

pub mod codec;
pub mod config;
pub mod error;
pub mod jail;
pub mod mount;
pub mod namespace;
pub mod sandbox;
pub mod security;
pub mod status;
pub mod state;
pub mod strutil;
pub mod sys;
pub mod validation;
