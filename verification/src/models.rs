use vstd::prelude::*;

verus! {

/// A cloned repository registered in the metadata store. `name` is the
/// canonical "host/user/repo" slug and is unique across projects; identity is
/// `id`.
#[derive(Debug)]
pub struct Project {
    pub id: i64,
    pub name: String,
    pub display_name: String,
    pub remote_url: String,
    pub clone_path: String,
    pub default_branch: String,
    pub created_at: String,
    pub last_fetched_at: Option<String>,
}

/// The mathematical value of a Project row.
pub ghost struct ProjectView {
    pub id: int,
    pub name: Seq<char>,
    pub display_name: Seq<char>,
    pub remote_url: Seq<char>,
    pub clone_path: Seq<char>,
    pub default_branch: Seq<char>,
    pub created_at: Seq<char>,
    pub last_fetched_at: Option<Seq<char>>,
}

impl View for Project {
    type V = ProjectView;

    open spec fn view(&self) -> ProjectView {
        ProjectView {
            id: self.id as int,
            name: self.name@,
            display_name: self.display_name@,
            remote_url: self.remote_url@,
            clone_path: self.clone_path@,
            default_branch: self.default_branch@,
            created_at: self.created_at@,
            last_fetched_at: match self.last_fetched_at {
                Some(ref s) => Some(s@),
                None => None,
            },
        }
    }
}

impl Clone for Project {
    fn clone(&self) -> (r: Self)
        ensures
            r@ == self@,
    {
        Project {
            id: self.id,
            name: self.name.clone(),
            display_name: self.display_name.clone(),
            remote_url: self.remote_url.clone(),
            clone_path: self.clone_path.clone(),
            default_branch: self.default_branch.clone(),
            created_at: self.created_at.clone(),
            last_fetched_at: match self.last_fetched_at {
                Some(ref s) => Some(s.clone()),
                None => None,
            },
        }
    }
}

/// The fields a caller supplies to register a project.
#[derive(Debug)]
pub struct CreateProject {
    pub name: String,
    pub display_name: String,
    pub remote_url: String,
    pub clone_path: String,
    pub default_branch: String,
}

/// A checked-out working directory for one branch of a project. Exactly one
/// worktree per `(project_id, branch)`; exactly one per project is primary
/// (the original clone directory).
#[derive(Debug)]
pub struct Worktree {
    pub id: i64,
    pub project_id: i64,
    pub branch: String,
    pub path: String,
    pub is_primary: bool,
    pub created_at: String,
    pub last_accessed_at: String,
}

/// The mathematical value of a Worktree row.
pub ghost struct WorktreeView {
    pub id: int,
    pub project_id: int,
    pub branch: Seq<char>,
    pub path: Seq<char>,
    pub is_primary: bool,
    pub created_at: Seq<char>,
    pub last_accessed_at: Seq<char>,
}

impl View for Worktree {
    type V = WorktreeView;

    open spec fn view(&self) -> WorktreeView {
        WorktreeView {
            id: self.id as int,
            project_id: self.project_id as int,
            branch: self.branch@,
            path: self.path@,
            is_primary: self.is_primary,
            created_at: self.created_at@,
            last_accessed_at: self.last_accessed_at@,
        }
    }
}

impl Clone for Worktree {
    fn clone(&self) -> (r: Self)
        ensures
            r@ == self@,
    {
        Worktree {
            id: self.id,
            project_id: self.project_id,
            branch: self.branch.clone(),
            path: self.path.clone(),
            is_primary: self.is_primary,
            created_at: self.created_at.clone(),
            last_accessed_at: self.last_accessed_at.clone(),
        }
    }
}

/// The fields a caller supplies to register a worktree.
#[derive(Debug)]
pub struct CreateWorktree {
    pub project_id: i64,
    pub branch: String,
    pub path: String,
    pub is_primary: bool,
}

/// An interactive session bound to one worktree; at most one per worktree.
/// `session_name` is the deterministic name derived from the project name
/// and branch.
#[derive(Debug)]
pub struct Session {
    pub id: i64,
    pub worktree_id: i64,
    pub session_name: String,
    pub backend: String,
    pub created_at: String,
    pub last_attached_at: String,
}

/// The mathematical value of a Session row.
pub ghost struct SessionView {
    pub id: int,
    pub worktree_id: int,
    pub session_name: Seq<char>,
    pub backend: Seq<char>,
    pub created_at: Seq<char>,
    pub last_attached_at: Seq<char>,
}

impl View for Session {
    type V = SessionView;

    open spec fn view(&self) -> SessionView {
        SessionView {
            id: self.id as int,
            worktree_id: self.worktree_id as int,
            session_name: self.session_name@,
            backend: self.backend@,
            created_at: self.created_at@,
            last_attached_at: self.last_attached_at@,
        }
    }
}

impl Clone for Session {
    fn clone(&self) -> (r: Self)
        ensures
            r@ == self@,
    {
        Session {
            id: self.id,
            worktree_id: self.worktree_id,
            session_name: self.session_name.clone(),
            backend: self.backend.clone(),
            created_at: self.created_at.clone(),
            last_attached_at: self.last_attached_at.clone(),
        }
    }
}

/// The fields a caller supplies to register a session.
#[derive(Debug)]
pub struct CreateSession {
    pub worktree_id: i64,
    pub session_name: String,
    pub backend: String,
}

/// One session activation, appended on every switch and never deleted.
#[derive(Debug)]
pub struct HistoryEntry {
    pub session_id: i64,
    pub accessed_at: String,
}

/// The mathematical value of a history row.
pub ghost struct HistoryView {
    pub session_id: int,
    pub accessed_at: Seq<char>,
}

impl View for HistoryEntry {
    type V = HistoryView;

    open spec fn view(&self) -> HistoryView {
        HistoryView { session_id: self.session_id as int, accessed_at: self.accessed_at@ }
    }
}

impl Clone for HistoryEntry {
    fn clone(&self) -> (r: Self)
        ensures
            r@ == self@,
    {
        HistoryEntry { session_id: self.session_id, accessed_at: self.accessed_at.clone() }
    }
}

} // verus!
