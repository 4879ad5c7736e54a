use vstd::prelude::*;

use crate::config::{spec_expand_tilde, Config};
use crate::error::Error;
use crate::models::{CreateProject, Project, ProjectView, WorktreeView};
use crate::names::{
    count_slash, generate_session_name, parse_project_name, spec_after_last_slash,
    spec_branch_slug, spec_is_lower_hex, spec_session_name, spec_strip_git, valid_name_cut,
};
use crate::store::Store;
use crate::text::{join_path, lex_leq};

verus! {

/// Owns project identity: cloning, deletion, and the comparison of store
/// records with the filesystem.
pub struct ProjectManager {
    pub projects_dir: String,
}

/// What a clone will create: the canonical identity of the project and the
/// path the repository goes to. The caller performs the clone itself, then
/// registers it.
#[derive(Debug)]
pub struct ClonePlan {
    pub name: String,
    pub display_name: String,
    pub remote_url: String,
    pub clone_path: String,
}

/// How a project's store record compares with the filesystem.
#[derive(Debug, Clone, Copy, PartialEq, Eq, Structural)]
pub enum EntityStatus {
    Valid,
    Stale,
    Corrupted,
    Orphaned,
}

/// What the filesystem and git report about a project's clone directory:
/// whether the path exists, whether it holds a ".git" entry, and the remote
/// URL git reads there (None when it could not be read).
#[derive(Debug)]
pub struct ProjectFsObservation {
    pub clone_path_exists: bool,
    pub git_dir_exists: bool,
    pub remote_url: Option<String>,
}

/// The remote URL of an observation, if git could read one.
pub open spec fn spec_observed_url(o: &ProjectFsObservation) -> Option<Seq<char>> {
    match o.remote_url {
        Some(ref u) => Some(u@),
        None => None,
    }
}

/// The status a project record earns under an observation: `Stale` when its
/// directory is gone, `Corrupted` when the directory is no git repository or
/// belongs to a different remote, `Valid` otherwise.
pub open spec fn spec_entity_status(
    stored_url: Seq<char>,
    path_exists: bool,
    git_dir_exists: bool,
    observed_url: Option<Seq<char>>,
) -> EntityStatus {
    if !path_exists {
        EntityStatus::Stale
    } else if !git_dir_exists {
        EntityStatus::Corrupted
    } else {
        match observed_url {
            Some(u) => if u == stored_url {
                EntityStatus::Valid
            } else {
                EntityStatus::Corrupted
            },
            None => EntityStatus::Corrupted,
        }
    }
}

/// The physical actions a project deletion owes: remove each non-primary
/// worktree directory first (their git metadata lives inside the primary
/// clone), then the clone directory itself.
#[derive(Debug)]
pub struct ProjectDeletePlan {
    pub clone_path: String,
    pub worktree_paths: Vec<String>,
}

impl ProjectManager {
    /// A manager whose default clone directory is the configured projects
    /// directory.
    pub fn new(config: &Config) -> (r: ProjectManager)
        ensures
            exists|h: Option<Seq<char>>|
                r.projects_dir@ == spec_expand_tilde(config.workspace.projects_dir@, h),
    {
        ProjectManager { projects_dir: config.projects_dir() }
    }

    /// Parse the canonical "host/user/repo" name from a repository URL.
    pub fn parse_project_name(url: &str) -> (r: Result<String, Error>)
        ensures
            r is Ok <==> count_slash(spec_strip_git(url@)) >= 2,
            r is Ok ==> exists|cut: int|
                #[trigger] valid_name_cut(spec_strip_git(url@), cut) && r->Ok_0@ == spec_strip_git(
                    url@,
                ).skip(cut),
            r is Err ==> (r->Err_0 matches Error::InvalidUrl { url: u } && u@ == spec_strip_git(
                url@,
            )),
    {
        parse_project_name(url)
    }

    /// The repository basename of a canonical project name.
    pub fn extract_repo_name(project_name: &str) -> (r: String)
        ensures
            r@ == spec_after_last_slash(project_name@),
    {
        crate::names::extract_repo_name(project_name)
    }

    /// The deterministic, globally unique session name for a worktree of
    /// this project: repository basename, branch slug, and exactly four
    /// lowercase hex characters of a content hash.
    pub fn generate_session_name(project_name: &str, branch: &str) -> (r: String)
        ensures
            r@ == spec_session_name(project_name@, branch@),
            r@.len() == spec_after_last_slash(project_name@).len() + spec_branch_slug(
                branch@,
            ).len() + 6,
            forall|j: int|
                r@.len() - 4 <= j < r@.len() ==> spec_is_lower_hex(#[trigger] r@[j]),
    {
        generate_session_name(project_name, branch)
    }

    /// Decide what cloning a URL will create. Fails with `InvalidUrl` when
    /// the URL has fewer than three path segments, and with
    /// `RepositoryExists` when the target path is already occupied
    /// (`path_exists` is the filesystem's answer for that path).
    pub fn clone_plan(&self, url: &str, path: Option<String>, path_exists: bool) -> (r: Result<
        ClonePlan,
        Error,
    >)
        ensures
            r is Ok <==> (count_slash(spec_strip_git(url@)) >= 2 && !path_exists),
            count_slash(spec_strip_git(url@)) < 2 ==> (r->Err_0 matches Error::InvalidUrl {
                url: u,
            } && u@ == spec_strip_git(url@)),
            r is Ok ==> exists|cut: int|
                {
                    &&& #[trigger] valid_name_cut(spec_strip_git(url@), cut)
                    &&& r->Ok_0.name@ == spec_strip_git(url@).skip(cut)
                    &&& r->Ok_0.display_name@ == spec_after_last_slash(r->Ok_0.name@)
                    &&& r->Ok_0.remote_url@ == url@
                    &&& r->Ok_0.clone_path@ == (match path {
                        Some(p) => p@,
                        None => self.projects_dir@ + seq!['/'] + spec_strip_git(url@).skip(cut),
                    })
                },
            (count_slash(spec_strip_git(url@)) >= 2 && path_exists) ==> (r->Err_0
                matches Error::RepositoryExists { path: p } && (match path {
                Some(q) => p@ == q@,
                None => exists|cut: int|
                    #[trigger] valid_name_cut(spec_strip_git(url@), cut) && p@ == self.projects_dir@
                        + seq!['/'] + spec_strip_git(url@).skip(cut),
            })),
    {
        let name = match parse_project_name(url) {
            Ok(n) => n,
            Err(e) => {
                return Err(e);
            },
        };
        let clone_path = match path {
            Some(p) => p,
            None => join_path(self.projects_dir.as_str(), name.as_str()),
        };
        if path_exists {
            return Err(Error::RepositoryExists { path: clone_path });
        }
        let display_name = crate::names::extract_repo_name(name.as_str());
        Ok(
            ClonePlan {
                name,
                display_name,
                remote_url: url.to_owned(),
                clone_path,
            },
        )
    }

    /// Register a cloned repository: one project row and its primary
    /// worktree row, bound to the default branch at the clone path, as one
    /// logical unit. Fails only when the canonical name is already taken.
    pub fn register_clone(
        &self,
        store: &mut Store,
        plan: &ClonePlan,
        default_branch: &str,
        now: &str,
    ) -> (r: Result<Project, Error>)
        requires
            old(store)@.wf(),
            old(store).next_project_id < i64::MAX,
            old(store).next_worktree_id < i64::MAX,
        ensures
            final(store)@.wf(),
            r is Ok <==> !old(store)@.has_project_name(plan.name@),
            r is Err ==> final(store)@ == old(store)@ && (r->Err_0 is StoreFailure),
            r is Ok ==> {
                let p = r->Ok_0;
                &&& p.id == old(store)@.next_project_id
                &&& p@.name == plan.name@
                &&& p@.display_name == plan.display_name@
                &&& p@.remote_url == plan.remote_url@
                &&& p@.clone_path == plan.clone_path@
                &&& p@.default_branch == default_branch@
                &&& p@.created_at == now@
                &&& final(store)@.projects == old(store)@.projects.push(p@)
                &&& final(store)@.worktrees == old(store)@.worktrees.push(
                    WorktreeView {
                        id: old(store)@.next_worktree_id,
                        project_id: p@.id,
                        branch: default_branch@,
                        path: plan.clone_path@,
                        is_primary: true,
                        created_at: now@,
                        last_accessed_at: now@,
                    },
                )
                &&& final(store)@.sessions == old(store)@.sessions
                &&& final(store)@.history == old(store)@.history
            },
    {
        let create = CreateProject {
            name: plan.name.clone(),
            display_name: plan.display_name.clone(),
            remote_url: plan.remote_url.clone(),
            clone_path: plan.clone_path.clone(),
            default_branch: default_branch.to_owned(),
        };
        match store.create_project(create, now) {
            Ok((p, wt)) => {
                proof {
                    assert(wt@ == WorktreeView {
                        id: old(store)@.next_worktree_id,
                        project_id: p@.id,
                        branch: default_branch@,
                        path: plan.clone_path@,
                        is_primary: true,
                        created_at: now@,
                        last_accessed_at: now@,
                    });
                }
                Ok(p)
            },
            Err(e) => Err(e),
        }
    }

    /// All projects in the store, ordered by canonical name ascending:
    /// exactly the project rows, as a multiset, in sorted order.
    pub fn list(&self, store: &Store) -> (r: Vec<Project>)
        ensures
            r@.map_values(|p: Project| p@).to_multiset() == store@.projects.to_multiset(),
            forall|k1: int, k2: int|
                0 <= k1 < k2 < r@.len() ==> lex_leq(
                    #[trigger] r@[k1]@.name,
                    #[trigger] r@[k2]@.name,
                ),
    {
        store.list_projects()
    }

    /// The project with this id.
    pub fn get(&self, store: &Store, id: i64) -> (r: Result<Project, Error>)
        ensures
            r is Ok <==> store@.has_project_id(id as int),
            r is Ok ==> r->Ok_0@.id == id as int && store@.projects.contains(r->Ok_0@),
            r is Err ==> (r->Err_0 matches Error::ProjectIdNotFound { id: i } && i == id),
    {
        match store.get_project(id) {
            Some(p) => Ok(p.clone()),
            None => Err(Error::ProjectIdNotFound { id }),
        }
    }

    /// The project with this canonical name.
    pub fn get_by_name(&self, store: &Store, name: &str) -> (r: Result<Project, Error>)
        ensures
            r is Ok <==> store@.has_project_name(name@),
            r is Ok ==> r->Ok_0@.name == name@ && store@.projects.contains(r->Ok_0@),
            r is Err ==> (r->Err_0 matches Error::ProjectNotFound { name: n } && n@ == name@),
    {
        match store.get_project_by_name(name) {
            Some(p) => Ok(p.clone()),
            None => Err(Error::ProjectNotFound { name: name.to_owned() }),
        }
    }

    /// The physical removals a project deletion owes: every non-primary
    /// worktree directory, then the clone directory.
    pub fn delete_plan(&self, store: &Store, project_id: i64) -> (r: Result<
        ProjectDeletePlan,
        Error,
    >)
        ensures
            r is Ok <==> store@.has_project_id(project_id as int),
            r is Err ==> (r->Err_0 matches Error::ProjectIdNotFound { id: i } && i == project_id),
            r is Ok ==> {
                let plan = r->Ok_0;
                &&& exists|k: int|
                    0 <= k < store@.projects.len() && #[trigger] store@.projects[k].id
                        == project_id as int && plan.clone_path@ == store@.projects[k].clone_path
                &&& plan.worktree_paths@.map_values(|s: String| s@) == store@.worktrees.filter(
                    |w: WorktreeView| w.project_id == project_id as int && !w.is_primary,
                ).map_values(|w: WorktreeView| w.path)
            },
    {
        let project = match store.get_project(project_id) {
            Some(p) => p.clone(),
            None => {
                return Err(Error::ProjectIdNotFound { id: project_id });
            },
        };
        let ghost pred = |w: WorktreeView| w.project_id == project_id as int && !w.is_primary;
        let n = store.worktrees.len();
        let mut paths: Vec<String> = Vec::new();
        let mut i: usize = 0;
        while i < n
            invariant
                i <= n,
                n == store.worktrees@.len(),
                pred == (|w: WorktreeView| w.project_id == project_id as int && !w.is_primary),
                paths@.map_values(|s: String| s@) == store@.worktrees.take(i as int).filter(
                    pred,
                ).map_values(|w: WorktreeView| w.path),
            decreases n - i,
        {
            proof {
                crate::store::lemma_filter_take_step(store@.worktrees, pred, i as int);
            }
            if store.worktrees[i].project_id == project_id && !store.worktrees[i].is_primary {
                paths.push(store.worktrees[i].path.clone());
                proof {
                    assert(store@.worktrees[i as int] == store.worktrees@[i as int]@);
                    assert(paths@.map_values(|s: String| s@) =~= store@.worktrees.take(
                        i as int,
                    ).filter(pred).map_values(|w: WorktreeView| w.path).push(
                        store@.worktrees[i as int].path,
                    ));
                    assert(store@.worktrees.take(i as int).filter(pred).push(
                        store@.worktrees[i as int],
                    ).map_values(|w: WorktreeView| w.path) =~= store@.worktrees.take(
                        i as int,
                    ).filter(pred).map_values(|w: WorktreeView| w.path).push(
                        store@.worktrees[i as int].path,
                    ));
                }
            }
            i = i + 1;
        }
        proof {
            assert(store@.worktrees.take(n as int) =~= store@.worktrees);
        }
        Ok(ProjectDeletePlan { clone_path: project.clone_path, worktree_paths: paths })
    }

    /// Delete a project's store records: the project row, every worktree of
    /// it, and every session of those worktrees, in one cascade. Succeeds
    /// exactly when the project exists.
    pub fn delete(&self, store: &mut Store, project_id: i64) -> (r: Result<(), Error>)
        requires
            old(store)@.wf(),
        ensures
            final(store)@.wf(),
            r is Ok <==> old(store)@.has_project_id(project_id as int),
            r is Err ==> final(store)@ == old(store)@ && (r->Err_0
                matches Error::ProjectIdNotFound { id: i } && i == project_id),
            r is Ok ==> {
                &&& final(store)@.projects == old(store)@.projects.filter(
                    |p: ProjectView| p.id != project_id as int,
                )
                &&& final(store)@.worktrees == old(store)@.worktrees.filter(
                    |w: WorktreeView| w.project_id != project_id as int,
                )
                &&& final(store)@.sessions == old(store)@.sessions.filter(
                    |s: crate::models::SessionView|
                        !old(store)@.worktree_in_project(s.worktree_id, project_id as int),
                )
                &&& final(store)@.history == old(store)@.history
            },
    {
        if store.get_project(project_id).is_none() {
            return Err(Error::ProjectIdNotFound { id: project_id });
        }
        store.delete_project(project_id);
        Ok(())
    }

    /// Compare one project's record with the filesystem observation of its
    /// clone directory.
    pub fn validate(&self, store: &Store, project_id: i64, fs: &ProjectFsObservation) -> (r:
        Result<EntityStatus, Error>)
        ensures
            r is Ok <==> store@.has_project_id(project_id as int),
            r is Err ==> (r->Err_0 matches Error::ProjectIdNotFound { id: i } && i == project_id),
            r is Ok ==> exists|k: int|
                0 <= k < store@.projects.len() && #[trigger] store@.projects[k].id
                    == project_id as int && r->Ok_0 == spec_entity_status(
                    store@.projects[k].remote_url,
                    fs.clone_path_exists,
                    fs.git_dir_exists,
                    spec_observed_url(fs),
                ),
    {
        match store.get_project(project_id) {
            Some(p) => Ok(status_of(p, fs)),
            None => Err(Error::ProjectIdNotFound { id: project_id }),
        }
    }

    /// Every project, each with the status its observation earns it. The
    /// observations are given in store order, one per project.
    pub fn list_validated(&self, store: &Store, observations: &Vec<ProjectFsObservation>) -> (r:
        Vec<(Project, EntityStatus)>)
        requires
            observations@.len() == store@.projects.len(),
        ensures
            r@.len() == store@.projects.len(),
            forall|k: int|
                0 <= k < r@.len() ==> (#[trigger] r@[k]).0@ == store@.projects[k] && r@[k].1
                    == spec_entity_status(
                    store@.projects[k].remote_url,
                    observations@[k].clone_path_exists,
                    observations@[k].git_dir_exists,
                    spec_observed_url(&observations@[k]),
                ),
    {
        let n = store.projects.len();
        let mut r: Vec<(Project, EntityStatus)> = Vec::new();
        let mut i: usize = 0;
        while i < n
            invariant
                i <= n,
                n == store.projects@.len(),
                observations@.len() == n,
                r@.len() == i,
                forall|k: int|
                    0 <= k < i ==> (#[trigger] r@[k]).0@ == store@.projects[k] && r@[k].1
                        == spec_entity_status(
                        store@.projects[k].remote_url,
                        observations@[k].clone_path_exists,
                        observations@[k].git_dir_exists,
                        spec_observed_url(&observations@[k]),
                    ),
            decreases n - i,
        {
            let status = status_of(&store.projects[i], &observations[i]);
            r.push((store.projects[i].clone(), status));
            proof {
                assert(store@.projects[i as int] == store.projects@[i as int]@);
            }
            i = i + 1;
        }
        r
    }
}

/// The status one project record earns under one observation.
fn status_of(p: &Project, fs: &ProjectFsObservation) -> (r: EntityStatus)
    ensures
        r == spec_entity_status(
            p@.remote_url,
            fs.clone_path_exists,
            fs.git_dir_exists,
            spec_observed_url(fs),
        ),
{
    if !fs.clone_path_exists {
        EntityStatus::Stale
    } else if !fs.git_dir_exists {
        EntityStatus::Corrupted
    } else {
        match fs.remote_url {
            Some(ref u) => {
                if *u == p.remote_url {
                    EntityStatus::Valid
                } else {
                    EntityStatus::Corrupted
                }
            },
            None => EntityStatus::Corrupted,
        }
    }
}

} // verus!
