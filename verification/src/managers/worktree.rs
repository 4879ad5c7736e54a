use vstd::prelude::*;

use crate::config::{spec_expand_tilde, Config};
use crate::error::Error;
use crate::models::{CreateWorktree, SessionView, Worktree, WorktreeView};
use crate::names::{branch_dir_name, spec_branch_dashes};
use crate::store::{Store, StoreView};
use crate::text::{join_path, lex_leq};

verus! {

/// Owns worktree identity within a project: creation on demand, branch
/// status resolution, and deletion of non-primary worktrees.
pub struct WorktreeManager {
    pub worktrees_dir: String,
}

/// Whether a branch can be switched to: tracked with a live upstream, local
/// only (possibly with a warning about its remote), or absent altogether.
#[derive(Debug, PartialEq)]
pub enum BranchStatus {
    RemoteTracked,
    LocalOnly { warning: Option<String> },
    NotFound,
}

/// What git reports about a branch: whether a local ref exists, the
/// upstream ref name if the branch has one, and whether that upstream still
/// resolves on the remote-tracking refs (None when the probe itself failed).
#[derive(Debug)]
pub struct BranchObservation {
    pub local_exists: bool,
    pub upstream: Option<String>,
    pub remote_exists: Option<bool>,
}

/// What `ensure_worktree` produced: the worktree row, and the path at which
/// the caller still has to create the physical git worktree, when the row
/// was created rather than reused.
#[derive(Debug)]
pub struct EnsureWorktree {
    pub worktree: Worktree,
    pub create_on_disk: Option<String>,
}

/// What deleting a worktree leaves to the caller: remove the physical git
/// worktree at `worktree_path`, whose metadata lives in the primary clone at
/// `repo_path`.
#[derive(Debug)]
pub struct WorktreeRemoval {
    pub repo_path: String,
    pub worktree_path: String,
}

/// The full outcome of `ensure_worktree` on a store: reuse the existing row
/// unchanged, or insert a fresh non-primary row at the chosen path and
/// report that path for physical creation; fail when the project is missing
/// or the chosen path is already occupied on disk.
pub open spec fn spec_ensure_outcome(
    worktrees_dir: Seq<char>,
    pre: StoreView,
    post: StoreView,
    project_id: int,
    branch: Seq<char>,
    path: Option<Seq<char>>,
    path_exists: bool,
    now: Seq<char>,
    r: Result<EnsureWorktree, Error>,
) -> bool {
    &&& (pre.has_worktree_for(project_id, branch) ==> {
        &&& r is Ok
        &&& post == pre
        &&& r->Ok_0.create_on_disk is None
        &&& r->Ok_0.worktree@.project_id == project_id
        &&& r->Ok_0.worktree@.branch == branch
        &&& pre.worktrees.contains(r->Ok_0.worktree@)
    })
    &&& (!pre.has_worktree_for(project_id, branch) && !pre.has_project_id(project_id) ==> {
        &&& r is Err
        &&& post == pre
        &&& r->Err_0 matches Error::ProjectIdNotFound { id } && id as int == project_id
    })
    &&& (!pre.has_worktree_for(project_id, branch) && pre.has_project_id(project_id)
        && path_exists ==> {
        &&& r is Err
        &&& post == pre
        &&& r->Err_0 matches Error::WorktreeExists { branch: b } && b@ == branch
    })
    &&& (!pre.has_worktree_for(project_id, branch) && pre.has_project_id(project_id)
        && !path_exists ==> {
        &&& r is Ok
        &&& r->Ok_0.worktree@.id == pre.next_worktree_id
        &&& r->Ok_0.worktree@.project_id == project_id
        &&& r->Ok_0.worktree@.branch == branch
        &&& r->Ok_0.worktree@.is_primary == false
        &&& r->Ok_0.worktree@.created_at == now
        &&& r->Ok_0.worktree@.last_accessed_at == now
        &&& (match path {
            Some(p) => r->Ok_0.worktree@.path == p,
            None => exists|k: int|
                0 <= k < pre.projects.len() && #[trigger] pre.projects[k].id == project_id
                    && r->Ok_0.worktree@.path == worktrees_dir + seq!['/'] + pre.projects[k].name
                    + seq!['/'] + spec_branch_dashes(branch),
        })
        &&& r->Ok_0.create_on_disk matches Some(p) && p@ == r->Ok_0.worktree@.path
        &&& post.projects == pre.projects
        &&& post.worktrees == pre.worktrees.push(r->Ok_0.worktree@)
        &&& post.sessions == pre.sessions
        &&& post.history == pre.history
        &&& post.next_worktree_id == pre.next_worktree_id + 1
    })
}

/// `ensure_worktree` is idempotent. A first successful call leaves a store
/// that holds a row for `(project_id, branch)` — whether it inserted one or
/// found one. A second call for the same pair therefore takes the reuse
/// branch, whatever path argument or filesystem answer it is given: it
/// returns the very same worktree row, leaves the store untouched, and
/// plans no second filesystem mutation.
pub proof fn lemma_ensure_worktree_idempotent(
    worktrees_dir: Seq<char>,
    pre: StoreView,
    mid: StoreView,
    post: StoreView,
    project_id: int,
    branch: Seq<char>,
    path1: Option<Seq<char>>,
    path_exists1: bool,
    now1: Seq<char>,
    r1: Result<EnsureWorktree, Error>,
    path2: Option<Seq<char>>,
    path_exists2: bool,
    now2: Seq<char>,
    r2: Result<EnsureWorktree, Error>,
)
    requires
        pre.wf(),
        mid.wf(),
        spec_ensure_outcome(
            worktrees_dir,
            pre,
            mid,
            project_id,
            branch,
            path1,
            path_exists1,
            now1,
            r1,
        ),
        r1 is Ok,
        spec_ensure_outcome(
            worktrees_dir,
            mid,
            post,
            project_id,
            branch,
            path2,
            path_exists2,
            now2,
            r2,
        ),
    ensures
        r2 is Ok,
        post == mid,
        r2->Ok_0.create_on_disk is None,
        r2->Ok_0.worktree@ == r1->Ok_0.worktree@,
{
    let w1 = r1->Ok_0.worktree@;
    if pre.has_worktree_for(project_id, branch) {
        assert(mid.has_worktree_for(project_id, branch));
    } else {
        assert(mid.worktrees == pre.worktrees.push(w1));
        assert(mid.worktrees[mid.worktrees.len() - 1] == w1);
        assert(mid.has_worktree_for(project_id, branch));
    }
    let w2 = r2->Ok_0.worktree@;
    assert(mid.worktrees.contains(w1)) by {
        if pre.has_worktree_for(project_id, branch) {
            assert(pre.worktrees.contains(w1));
            let a = choose|a: int| 0 <= a < pre.worktrees.len() && pre.worktrees[a] == w1;
            assert(mid.worktrees[a] == w1);
        } else {
            assert(mid.worktrees[mid.worktrees.len() - 1] == w1);
        }
    }
    let a = choose|a: int| 0 <= a < mid.worktrees.len() && mid.worktrees[a] == w1;
    let b = choose|b: int| 0 <= b < mid.worktrees.len() && mid.worktrees[b] == w2;
    assert(mid.worktrees[a].project_id == project_id && mid.worktrees[a].branch == branch);
    assert(mid.worktrees[b].project_id == project_id && mid.worktrees[b].branch == branch);
    assert(a == b);
}

/// Deleting a project's records removes every trace of it: the project row
/// itself, every worktree of the project (the primary one included), and
/// every session of those worktrees.
pub proof fn lemma_delete_project_removes_all(pre: StoreView, post: StoreView, project_id: int)
    requires
        post.projects == pre.projects.filter(|p: crate::models::ProjectView| p.id != project_id),
        post.worktrees == pre.worktrees.filter(
            |w: WorktreeView| w.project_id != project_id,
        ),
        post.sessions == pre.sessions.filter(
            |s: SessionView| !pre.worktree_in_project(s.worktree_id, project_id),
        ),
    ensures
        !post.has_project_id(project_id),
        forall|i: int|
            0 <= i < post.worktrees.len() ==> #[trigger] post.worktrees[i].project_id
                != project_id,
        forall|i: int|
            0 <= i < post.sessions.len() ==> !pre.worktree_in_project(
                #[trigger] post.sessions[i].worktree_id,
                project_id,
            ),
{
    let ppred = |p: crate::models::ProjectView| p.id != project_id;
    let wpred = |w: WorktreeView| w.project_id != project_id;
    let spred = |s: SessionView| !pre.worktree_in_project(s.worktree_id, project_id);
    assert forall|i: int| 0 <= i < post.projects.len() implies #[trigger] post.projects[i].id
        != project_id by {
        pre.projects.lemma_filter_pred(ppred, i);
    }
    assert forall|i: int|
        0 <= i < post.worktrees.len() implies #[trigger] post.worktrees[i].project_id
        != project_id by {
        pre.worktrees.lemma_filter_pred(wpred, i);
    }
    assert forall|i: int| 0 <= i < post.sessions.len() implies !pre.worktree_in_project(
        #[trigger] post.sessions[i].worktree_id,
        project_id,
    ) by {
        pre.sessions.lemma_filter_pred(spred, i);
    }
}

impl WorktreeManager {
    /// A manager whose default worktree directory is the configured
    /// worktrees directory.
    pub fn new(config: &Config) -> (r: WorktreeManager)
        ensures
            exists|h: Option<Seq<char>>|
                r.worktrees_dir@ == spec_expand_tilde(config.workspace.worktrees_dir@, h),
    {
        WorktreeManager { worktrees_dir: config.worktrees_dir() }
    }

    /// Ensure a worktree row exists for `(project_id, branch)`. Idempotent:
    /// an existing row is returned unchanged, with no filesystem check and
    /// nothing to create on disk. Otherwise the path is the given one or
    /// `{worktrees_dir}/{project name}/{branch with '/' as '-'}`;
    /// `path_exists` is the filesystem's answer for that path, and a taken
    /// path is refused rather than silently adopted.
    pub fn ensure_worktree(
        &self,
        store: &mut Store,
        project_id: i64,
        branch: &str,
        path: Option<String>,
        path_exists: bool,
        now: &str,
    ) -> (r: Result<EnsureWorktree, Error>)
        requires
            old(store)@.wf(),
            old(store).next_worktree_id < i64::MAX,
        ensures
            final(store)@.wf(),
            spec_ensure_outcome(
                self.worktrees_dir@,
                old(store)@,
                final(store)@,
                project_id as int,
                branch@,
                match path {
                    Some(ref p) => Some(p@),
                    None => None,
                },
                path_exists,
                now@,
                r,
            ),
    {
        if let Some(w) = store.get_worktree_by_project_branch(project_id, branch) {
            let found = w.clone();
            return Ok(EnsureWorktree { worktree: found, create_on_disk: None });
        }
        let project = match store.get_project(project_id) {
            Some(p) => p.clone(),
            None => {
                return Err(Error::ProjectIdNotFound { id: project_id });
            },
        };
        let worktree_path = match path {
            Some(p) => p,
            None => {
                let dir = join_path(self.worktrees_dir.as_str(), project.name.as_str());
                let leaf = branch_dir_name(branch);
                join_path(dir.as_str(), leaf.as_str())
            },
        };
        if path_exists {
            return Err(Error::WorktreeExists { branch: branch.to_owned() });
        }
        let created = store.create_worktree(
            CreateWorktree {
                project_id,
                branch: branch.to_owned(),
                path: worktree_path.clone(),
                is_primary: false,
            },
            now,
        );
        match created {
            Ok(wt) => Ok(EnsureWorktree { worktree: wt, create_on_disk: Some(worktree_path) }),
            Err(_) => {
                proof {
                    assert(false);
                }
                Err(Error::ProjectIdNotFound { id: project_id })
            },
        }
    }

    /// Resolve a branch's status from what git reports: no local ref is
    /// `NotFound`; a local ref without an upstream is `LocalOnly` with no
    /// warning; an upstream that no longer resolves warns that the remote
    /// branch was deleted; a failed probe warns that the remote could not be
    /// verified; a resolving upstream is `Tracked`.
    pub fn validate_branch(&self, obs: &BranchObservation) -> (r: BranchStatus)
        ensures
            !obs.local_exists ==> r is NotFound,
            obs.local_exists && obs.upstream is None ==> (r matches BranchStatus::LocalOnly {
                warning,
            } && warning is None),
            obs.local_exists && obs.upstream is Some && obs.remote_exists == Some(true) ==> r
                is RemoteTracked,
            obs.local_exists && obs.upstream is Some && obs.remote_exists == Some(false) ==> (r
                matches BranchStatus::LocalOnly { warning } && warning matches Some(m) && m@
                == "Remote branch was deleted"@),
            obs.local_exists && obs.upstream is Some && obs.remote_exists is None ==> (r
                matches BranchStatus::LocalOnly { warning } && warning matches Some(m) && m@
                == "Could not verify remote (network issue?)"@),
    {
        if !obs.local_exists {
            return BranchStatus::NotFound;
        }
        match obs.upstream {
            None => BranchStatus::LocalOnly { warning: None },
            Some(_) => {
                match obs.remote_exists {
                    Some(true) => BranchStatus::RemoteTracked,
                    Some(false) => BranchStatus::LocalOnly {
                        warning: Some(String::from_str("Remote branch was deleted")),
                    },
                    None => BranchStatus::LocalOnly {
                        warning: Some(String::from_str("Could not verify remote (network issue?)")),
                    },
                }
            },
        }
    }

    /// Switch to a branch: a `Tracked` or `LocalOnly` branch proceeds to
    /// `ensure_worktree` (a warning is the caller's to report, not an
    /// error); an absent branch fails with `BranchNotFound`, so that branch
    /// creation is always an explicit, separate decision.
    pub fn switch_branch(
        &self,
        store: &mut Store,
        project_id: i64,
        branch: &str,
        path: Option<String>,
        obs: &BranchObservation,
        path_exists: bool,
        now: &str,
    ) -> (r: Result<EnsureWorktree, Error>)
        requires
            old(store)@.wf(),
            old(store).next_worktree_id < i64::MAX,
        ensures
            final(store)@.wf(),
            !old(store)@.has_project_id(project_id as int) ==> final(store)@ == old(store)@ && (r
                matches Err(Error::ProjectIdNotFound { id }) && id == project_id),
            old(store)@.has_project_id(project_id as int) && !obs.local_exists ==> final(store)@
                == old(store)@ && (r matches Err(Error::BranchNotFound { branch: b }) && b@
                == branch@),
            old(store)@.has_project_id(project_id as int) && obs.local_exists
                ==> spec_ensure_outcome(
                self.worktrees_dir@,
                old(store)@,
                final(store)@,
                project_id as int,
                branch@,
                match path {
                    Some(ref p) => Some(p@),
                    None => None,
                },
                path_exists,
                now@,
                r,
            ),
    {
        if store.get_project(project_id).is_none() {
            return Err(Error::ProjectIdNotFound { id: project_id });
        }
        let status = self.validate_branch(obs);
        match status {
            BranchStatus::NotFound => {
                proof {
                    if obs.local_exists {
                        if obs.upstream is None {
                            assert(status is LocalOnly);
                        } else if obs.remote_exists is None {
                            assert(status is LocalOnly);
                        } else if obs.remote_exists == Some(true) {
                            assert(status is RemoteTracked);
                        } else {
                            assert(obs.remote_exists == Some(false));
                            assert(status is LocalOnly);
                        }
                        assert(false);
                    }
                }
                Err(Error::BranchNotFound { branch: branch.to_owned() })
            },
            _ => self.ensure_worktree(store, project_id, branch, path, path_exists, now),
        }
    }

    /// All worktrees of a project, ordered by branch ascending: exactly the
    /// project's worktree rows, as a multiset, in sorted order.
    pub fn list(&self, store: &Store, project_id: i64) -> (r: Vec<Worktree>)
        ensures
            r@.map_values(|w: Worktree| w@).to_multiset() == store@.worktrees.filter(
                |w: WorktreeView| w.project_id == project_id as int,
            ).to_multiset(),
            forall|k1: int, k2: int|
                0 <= k1 < k2 < r@.len() ==> lex_leq(
                    #[trigger] r@[k1]@.branch,
                    #[trigger] r@[k2]@.branch,
                ),
            forall|k: int|
                0 <= k < r@.len() ==> (#[trigger] r@[k]@).project_id == project_id as int,
    {
        store.list_worktrees(project_id)
    }

    /// The worktree with this id.
    pub fn get(&self, store: &Store, id: i64) -> (r: Result<Worktree, Error>)
        ensures
            r is Ok <==> store@.has_worktree_id(id as int),
            r is Ok ==> r->Ok_0@.id == id as int && store@.worktrees.contains(r->Ok_0@),
            r is Err ==> (r->Err_0 matches Error::WorktreeNotFound { worktree_id } && worktree_id
                == id),
    {
        match store.get_worktree(id) {
            Some(w) => Ok(w.clone()),
            None => Err(Error::WorktreeNotFound { worktree_id: id }),
        }
    }

    /// Delete a worktree row and its session. Deleting the primary worktree
    /// always fails: the project owns it, and must be deleted as a whole
    /// instead. On success the caller still removes the physical worktree
    /// named in the result.
    pub fn delete(&self, store: &mut Store, worktree_id: i64) -> (r: Result<
        WorktreeRemoval,
        Error,
    >)
        requires
            old(store)@.wf(),
        ensures
            final(store)@.wf(),
            !old(store)@.has_worktree_id(worktree_id as int) ==> final(store)@ == old(store)@ && (r
                matches Err(Error::WorktreeNotFound { worktree_id: w }) && w == worktree_id),
            forall|i: int|
                0 <= i < old(store)@.worktrees.len() && #[trigger] old(store)@.worktrees[i].id
                    == worktree_id as int && old(store)@.worktrees[i].is_primary ==> final(store)@
                    == old(store)@ && r is Err && r->Err_0 is GitError,
            (exists|i: int|
                0 <= i < old(store)@.worktrees.len() && #[trigger] old(store)@.worktrees[i].id
                    == worktree_id as int && !old(store)@.worktrees[i].is_primary) ==> {
                &&& r is Ok
                &&& final(store)@.projects == old(store)@.projects
                &&& final(store)@.worktrees == old(store)@.worktrees.filter(
                    |w: WorktreeView| w.id != worktree_id as int,
                )
                &&& final(store)@.sessions == old(store)@.sessions.filter(
                    |s: SessionView| s.worktree_id != worktree_id as int,
                )
                &&& final(store)@.history == old(store)@.history
                &&& exists|i: int|
                    0 <= i < old(store)@.worktrees.len() && #[trigger] old(store)@.worktrees[i].id
                        == worktree_id as int && r->Ok_0.worktree_path@ == old(
                        store,
                    )@.worktrees[i].path
            },
    {
        let worktree = match store.get_worktree(worktree_id) {
            Some(w) => w.clone(),
            None => {
                return Err(Error::WorktreeNotFound { worktree_id });
            },
        };
        if worktree.is_primary {
            return Err(
                Error::GitError {
                    message: String::from_str(
                        "Cannot delete primary worktree. Delete the project instead.",
                    ),
                },
            );
        }
        proof {
            let i = choose|i: int|
                0 <= i < store@.worktrees.len() && store@.worktrees[i] == worktree@;
            assert(store@.worktrees[i].id == worktree_id as int && !store@.worktrees[i].is_primary);
            assert forall|k: int|
                0 <= k < store@.worktrees.len() && #[trigger] store@.worktrees[k].id
                    == worktree_id as int implies !store@.worktrees[k].is_primary by {
                assert(k == i);
            }
        }
        let project = match store.get_project(worktree.project_id) {
            Some(p) => p.clone(),
            None => {
                proof {
                    let i = choose|i: int|
                        0 <= i < store@.worktrees.len() && store@.worktrees[i] == worktree@;
                    assert(store@.has_project_id(store@.worktrees[i].project_id));
                    assert(false);
                }
                return Err(Error::ProjectIdNotFound { id: worktree.project_id });
            },
        };
        store.delete_worktree(worktree_id);
        Ok(WorktreeRemoval { repo_path: project.clone_path, worktree_path: worktree.path })
    }
}

} // verus!
