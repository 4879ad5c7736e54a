pub mod history;
pub mod project;
pub mod session;
pub mod worktree;
