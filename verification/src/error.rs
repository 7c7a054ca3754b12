//! The library's error taxonomy.
//!
//! Syscall-level failures carry the raw `errno` so callers can classify them;
//! mount failures carry the target path they were aimed at.

use vstd::prelude::*;

verus! {

#[derive(Debug, Clone)]
pub enum Error {
    /// The named jail is absent from the registry.
    JailNotFound(String),
    /// A jail of this name is already registered.
    JailExists(String),
    /// The jail has a live sandbox child and destruction was not forced.
    JailRunning(String),
    /// The path is not the root of a version-controlled repository.
    NotGitRepo(String),
    /// The path does not exist on the host.
    PathNotFound(String),
    /// The jail name does not match the accepted shape.
    InvalidJailName(String),
    /// Unsharing the user namespace was refused outright by the kernel.
    NamespacesUnavailable,
    /// A sandbox construction step other than a mount failed.
    SandboxSetup(String),
    /// A mount operation failed; `path` is the mount target.
    MountFailed { path: String, errno: i32 },
    /// The version-control collaborator could not create the worktree.
    WorktreeCreation(String),
    /// The version-control collaborator could not remove the worktree.
    WorktreeRemoval(String),
    /// An invocation of the version-control tool failed.
    GitCommand(String),
    /// A configuration value is unusable.
    Config(String),
    /// The persisted registry document could not be parsed.
    StateCorrupted(String),
    /// A raw system error identified by its errno.
    Sys(i32),
}

} // verus!
