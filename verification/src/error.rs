use vstd::prelude::*;

verus! {

/// The library's error taxonomy: entities that were not found, records that
/// already exist, records whose physical counterpart went away, and failures
/// of the external collaborators.
#[derive(Debug)]
pub enum Error {
    /// No project matched the given name.
    ProjectNotFound { name: String },
    /// No project row carries the given id.
    ProjectIdNotFound { id: i64 },
    /// No worktree row carries the given id.
    WorktreeNotFound { worktree_id: i64 },
    /// The branch exists neither locally nor on the remote.
    BranchNotFound { branch: String },
    /// No session with the given name is recorded.
    SessionNotFound { name: String },
    /// The worktree's directory no longer exists on disk.
    WorktreeStale { path: String },
    /// The external session backend is not installed or not runnable.
    BackendUnavailable { backend: String, install_hint: String },
    /// No fuzzy finder is available for interactive selection.
    NoPickerAvailable,
    /// A git operation failed.
    GitError { message: String },
    /// A worktree row for this branch already exists, or its target
    /// directory is already taken on disk.
    WorktreeExists { branch: String },
    /// There is no previous session in the history.
    NoPreviousSession,
    /// The URL does not contain the host/user/repo segments.
    InvalidUrl { url: String },
    /// A repository already occupies the target path.
    RepositoryExists { path: String },
    /// The name matched more than one project.
    AmbiguousProjectName { name: String, matches: Vec<String> },
    /// The metadata store refused the operation (a uniqueness constraint).
    StoreFailure { message: String },
    /// The configuration file holds an unsupported value.
    ConfigError { message: String },
}

} // verus!
