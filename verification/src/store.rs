use vstd::prelude::*;

use crate::error::Error;
use crate::text::{lemma_lex_leq_total, lemma_lex_leq_trans, lex_leq, str_eq, str_leq, str_to_chars};
use crate::models::{
    CreateProject, CreateSession, CreateWorktree, HistoryEntry, HistoryView, Project, ProjectView,
    Session, SessionView, Worktree, WorktreeView,
};

verus! {

/// The metadata store: the durable record of projects, worktrees, sessions
/// and the session-switch history. It owns identity and relationships; the
/// filesystem and the session backend own physical reality.
pub struct Store {
    pub projects: Vec<Project>,
    pub worktrees: Vec<Worktree>,
    pub sessions: Vec<Session>,
    pub history: Vec<HistoryEntry>,
    pub next_project_id: i64,
    pub next_worktree_id: i64,
    pub next_session_id: i64,
}

/// The mathematical value of the whole store.
pub ghost struct StoreView {
    pub projects: Seq<ProjectView>,
    pub worktrees: Seq<WorktreeView>,
    pub sessions: Seq<SessionView>,
    pub history: Seq<HistoryView>,
    pub next_project_id: int,
    pub next_worktree_id: int,
    pub next_session_id: int,
}

impl View for Store {
    type V = StoreView;

    open spec fn view(&self) -> StoreView {
        StoreView {
            projects: self.projects@.map_values(|p: Project| p@),
            worktrees: self.worktrees@.map_values(|w: Worktree| w@),
            sessions: self.sessions@.map_values(|s: Session| s@),
            history: self.history@.map_values(|h: HistoryEntry| h@),
            next_project_id: self.next_project_id as int,
            next_worktree_id: self.next_worktree_id as int,
            next_session_id: self.next_session_id as int,
        }
    }
}

impl StoreView {
    /// Some project row carries this id.
    pub open spec fn has_project_id(self, id: int) -> bool {
        exists|i: int| 0 <= i < self.projects.len() && self.projects[i].id == id
    }

    /// Some project row carries this canonical name.
    pub open spec fn has_project_name(self, name: Seq<char>) -> bool {
        exists|i: int| 0 <= i < self.projects.len() && self.projects[i].name == name
    }

    /// Some worktree row carries this id.
    pub open spec fn has_worktree_id(self, id: int) -> bool {
        exists|i: int| 0 <= i < self.worktrees.len() && self.worktrees[i].id == id
    }

    /// Some worktree row binds this branch of this project.
    pub open spec fn has_worktree_for(self, project_id: int, branch: Seq<char>) -> bool {
        exists|i: int|
            0 <= i < self.worktrees.len() && self.worktrees[i].project_id == project_id
                && self.worktrees[i].branch == branch
    }

    /// Some worktree row is the primary worktree of this project.
    pub open spec fn has_primary_for(self, project_id: int) -> bool {
        exists|i: int|
            0 <= i < self.worktrees.len() && self.worktrees[i].project_id == project_id
                && self.worktrees[i].is_primary
    }

    /// Some session row is bound to this worktree.
    pub open spec fn has_session_for(self, worktree_id: int) -> bool {
        exists|i: int|
            0 <= i < self.sessions.len() && self.sessions[i].worktree_id == worktree_id
    }

    /// Some session row carries this id.
    pub open spec fn has_session_id(self, id: int) -> bool {
        exists|i: int| 0 <= i < self.sessions.len() && self.sessions[i].id == id
    }

    /// Some session row carries this backend session name.
    pub open spec fn has_session_named(self, name: Seq<char>) -> bool {
        exists|i: int|
            0 <= i < self.sessions.len() && self.sessions[i].session_name == name
    }

    /// The worktree with this id belongs to this project.
    pub open spec fn worktree_in_project(self, worktree_id: int, project_id: int) -> bool {
        exists|i: int|
            0 <= i < self.worktrees.len() && #[trigger] self.worktrees[i].id == worktree_id
                && self.worktrees[i].project_id == project_id
    }

    /// History entry `i` points at a live session other than the current
    /// one: a candidate for "previous session".
    pub open spec fn history_admissible(self, cur: Option<Seq<char>>, i: int) -> bool {
        exists|k: int|
            0 <= k < self.sessions.len() && #[trigger] self.sessions[k].id
                == self.history[i].session_id && (cur matches Some(c) ==> self.sessions[
                k
            ].session_name != c)
    }

    /// Project rows have unique ids and unique names, and ids below the next
    /// free id.
    pub open spec fn projects_wf(self) -> bool {
        &&& 0 < self.next_project_id
        &&& forall|i: int, j: int|
            0 <= i < j < self.projects.len() ==> self.projects[i].id != self.projects[j].id
        &&& forall|i: int, j: int|
            0 <= i < j < self.projects.len() ==> self.projects[i].name != self.projects[j].name
        &&& forall|i: int|
            0 <= i < self.projects.len() ==> 0 < #[trigger] self.projects[i].id
                < self.next_project_id
    }

    /// Worktree rows have unique ids, at most one row per
    /// `(project_id, branch)`, a project row behind every `project_id`, and
    /// exactly one primary worktree per project.
    pub open spec fn worktrees_wf(self) -> bool {
        &&& 0 < self.next_worktree_id
        &&& forall|i: int, j: int|
            0 <= i < j < self.worktrees.len() ==> self.worktrees[i].id != self.worktrees[j].id
        &&& forall|i: int, j: int|
            0 <= i < j < self.worktrees.len() ==> !(self.worktrees[i].project_id
                == self.worktrees[j].project_id && self.worktrees[i].branch
                == self.worktrees[j].branch)
        &&& forall|i: int|
            0 <= i < self.worktrees.len() ==> 0 < #[trigger] self.worktrees[i].id
                < self.next_worktree_id
        &&& forall|i: int|
            0 <= i < self.worktrees.len() ==> self.has_project_id(
                #[trigger] self.worktrees[i].project_id,
            )
        &&& forall|i: int, j: int|
            0 <= i < j < self.worktrees.len() && self.worktrees[i].is_primary
                && self.worktrees[j].is_primary ==> self.worktrees[i].project_id
                != self.worktrees[j].project_id
        &&& forall|k: int|
            0 <= k < self.projects.len() ==> self.has_primary_for(
                #[trigger] self.projects[k].id,
            )
    }

    /// Session rows have unique ids, at most one session per worktree, and a
    /// worktree row behind every `worktree_id`.
    pub open spec fn sessions_wf(self) -> bool {
        &&& 0 < self.next_session_id
        &&& forall|i: int, j: int|
            0 <= i < j < self.sessions.len() ==> self.sessions[i].id != self.sessions[j].id
        &&& forall|i: int, j: int|
            0 <= i < j < self.sessions.len() ==> self.sessions[i].worktree_id
                != self.sessions[j].worktree_id
        &&& forall|i: int|
            0 <= i < self.sessions.len() ==> 0 < #[trigger] self.sessions[i].id
                < self.next_session_id
        &&& forall|i: int|
            0 <= i < self.sessions.len() ==> self.has_worktree_id(
                #[trigger] self.sessions[i].worktree_id,
            )
    }

    /// The store's invariant. History rows are exempt: they are never
    /// deleted, so they may outlive the session they refer to.
    pub open spec fn wf(self) -> bool {
        &&& self.projects_wf()
        &&& self.worktrees_wf()
        &&& self.sessions_wf()
    }
}

impl Store {
    /// An empty store.
    pub fn new() -> (r: Store)
        ensures
            r@.wf(),
            r@.projects.len() == 0,
            r@.worktrees.len() == 0,
            r@.sessions.len() == 0,
            r@.history.len() == 0,
    {
        let r = Store {
            projects: Vec::new(),
            worktrees: Vec::new(),
            sessions: Vec::new(),
            history: Vec::new(),
            next_project_id: 1,
            next_worktree_id: 1,
            next_session_id: 1,
        };
        proof {
            assert(r@.projects =~= Seq::<ProjectView>::empty());
            assert(r@.worktrees =~= Seq::<WorktreeView>::empty());
            assert(r@.sessions =~= Seq::<SessionView>::empty());
            assert(r@.history =~= Seq::<HistoryView>::empty());
        }
        r
    }

    /// Look a project up by id.
    pub fn get_project(&self, id: i64) -> (r: Option<&Project>)
        ensures
            match r {
                Some(p) => p@.id == id as int && self@.projects.contains(p@),
                None => !self@.has_project_id(id as int),
            },
    {
        let n = self.projects.len();
        let mut i: usize = 0;
        while i < n
            invariant
                i <= n,
                n == self.projects@.len(),
                forall|k: int| 0 <= k < i ==> self@.projects[k].id != id as int,
            decreases n - i,
        {
            if self.projects[i].id == id {
                proof {
                    assert(self@.projects[i as int] == self.projects@[i as int]@);
                }
                return Some(&self.projects[i]);
            }
            i = i + 1;
        }
        None
    }

    /// Look a project up by its canonical name.
    pub fn get_project_by_name(&self, name: &str) -> (r: Option<&Project>)
        ensures
            match r {
                Some(p) => p@.name == name@ && self@.projects.contains(p@),
                None => !self@.has_project_name(name@),
            },
    {
        let wanted = name.to_owned();
        let n = self.projects.len();
        let mut i: usize = 0;
        while i < n
            invariant
                i <= n,
                n == self.projects@.len(),
                wanted@ == name@,
                forall|k: int| 0 <= k < i ==> self@.projects[k].name != name@,
            decreases n - i,
        {
            if self.projects[i].name == wanted {
                proof {
                    assert(self@.projects[i as int] == self.projects@[i as int]@);
                }
                return Some(&self.projects[i]);
            }
            i = i + 1;
        }
        None
    }

    /// Register a project together with its primary worktree: the original
    /// clone directory, bound to the default branch. The two rows are one
    /// logical unit; a project without a primary worktree would be an
    /// invalid state. Fails only when the canonical name is already taken
    /// (the store's uniqueness constraint).
    pub fn create_project(&mut self, p: CreateProject, now: &str) -> (r: Result<
        (Project, Worktree),
        Error,
    >)
        requires
            old(self)@.wf(),
            old(self).next_project_id < i64::MAX,
            old(self).next_worktree_id < i64::MAX,
        ensures
            final(self)@.wf(),
            r is Ok <==> !old(self)@.has_project_name(p.name@),
            r is Err ==> final(self)@ == old(self)@ && (r->Err_0 is StoreFailure),
            r is Ok ==> {
                let (pr, wt) = r->Ok_0;
                &&& pr.id == old(self)@.next_project_id
                &&& pr@.name == p.name@
                &&& pr@.display_name == p.display_name@
                &&& pr@.remote_url == p.remote_url@
                &&& pr@.clone_path == p.clone_path@
                &&& pr@.default_branch == p.default_branch@
                &&& pr@.created_at == now@
                &&& pr@.last_fetched_at is None
                &&& wt.id == old(self)@.next_worktree_id
                &&& wt@.project_id == pr@.id
                &&& wt@.branch == p.default_branch@
                &&& wt@.path == p.clone_path@
                &&& wt@.is_primary
                &&& wt@.created_at == now@
                &&& wt@.last_accessed_at == now@
                &&& final(self)@.projects == old(self)@.projects.push(pr@)
                &&& final(self)@.worktrees == old(self)@.worktrees.push(wt@)
                &&& final(self)@.sessions == old(self)@.sessions
                &&& final(self)@.history == old(self)@.history
                &&& final(self)@.next_project_id == old(self)@.next_project_id + 1
                &&& final(self)@.next_worktree_id == old(self)@.next_worktree_id + 1
                &&& final(self)@.next_session_id == old(self)@.next_session_id
            },
    {
        if self.name_taken(&p.name) {
            return Err(Error::StoreFailure { message: String::new() });
        }
        let project = Project {
            id: self.next_project_id,
            name: p.name,
            display_name: p.display_name,
            remote_url: p.remote_url,
            clone_path: p.clone_path,
            default_branch: p.default_branch,
            created_at: now.to_owned(),
            last_fetched_at: None,
        };
        let worktree = Worktree {
            id: self.next_worktree_id,
            project_id: project.id,
            branch: project.default_branch.clone(),
            path: project.clone_path.clone(),
            is_primary: true,
            created_at: now.to_owned(),
            last_accessed_at: now.to_owned(),
        };
        let pr = project.clone();
        let wt = worktree.clone();
        self.projects.push(project);
        self.worktrees.push(worktree);
        self.next_project_id = self.next_project_id + 1;
        self.next_worktree_id = self.next_worktree_id + 1;
        proof {
            assert(final(self)@.projects =~= old(self)@.projects.push(pr@));
            assert(final(self)@.worktrees =~= old(self)@.worktrees.push(wt@));
            assert_store_wf_after_create(old(self)@, final(self)@, pr@, wt@);
        }
        Ok((pr, wt))
    }

    /// All projects, ordered by canonical name ascending: the result holds
    /// exactly the store's project rows, as a multiset, in sorted order.
    pub fn list_projects(&self) -> (r: Vec<Project>)
        ensures
            r@.map_values(|p: Project| p@).to_multiset() == self@.projects.to_multiset(),
            forall|k1: int, k2: int|
                0 <= k1 < k2 < r@.len() ==> lex_leq(
                    #[trigger] r@[k1]@.name,
                    #[trigger] r@[k2]@.name,
                ),
    {
        let n = self.projects.len();
        let mut r: Vec<Project> = Vec::new();
        let mut i: usize = 0;
        proof {
            assert(r@.map_values(|p: Project| p@) =~= self@.projects.take(0));
        }
        while i < n
            invariant
                i <= n,
                n == self.projects@.len(),
                r@.len() == i,
                r@.map_values(|p: Project| p@).to_multiset() == self@.projects.take(
                    i as int,
                ).to_multiset(),
                forall|k1: int, k2: int|
                    0 <= k1 < k2 < r@.len() ==> lex_leq(
                        #[trigger] r@[k1]@.name,
                        #[trigger] r@[k2]@.name,
                    ),
            decreases n - i,
        {
            let row = self.projects[i].clone();
            let ghost rv = row@;
            proof {
                assert(rv == self@.projects[i as int]);
            }
            let pos = project_insertion_point(&r, &row.name);
            let ghost so = r@;
            let ghost rowg = row;
            r.insert(pos, row);
            proof {
                let f = |p: Project| p@;
                let sm = so.map_values(f);
                so.insert_ensures(pos as int, rowg);
                sm.insert_ensures(pos as int, rv);
                assert(r@.map_values(f) =~= sm.insert(pos as int, rv));
                lemma_sorted_insert_by_name(sm, pos as int, rv);
                vstd::seq_lib::to_multiset_insert(sm, pos as int, rv);
                vstd::seq_lib::to_multiset_build(self@.projects.take(i as int), rv);
                assert(self@.projects.take(i as int + 1) =~= self@.projects.take(
                    i as int,
                ).push(rv));
                assert forall|k1: int, k2: int| 0 <= k1 < k2 < r@.len() implies lex_leq(
                    #[trigger] r@[k1]@.name,
                    #[trigger] r@[k2]@.name,
                ) by {
                    assert(r@[k1]@ == sm.insert(pos as int, rv)[k1]);
                    assert(r@[k2]@ == sm.insert(pos as int, rv)[k2]);
                }
            }
            i = i + 1;
        }
        proof {
            assert(self@.projects.take(n as int) =~= self@.projects);
        }
        r
    }

    /// Find a project by flexible name matching: an exact canonical name
    /// wins; otherwise a project whose display name equals the search term or
    /// whose canonical name ends in "/{search}" matches. No match is
    /// `ProjectNotFound`; several are `AmbiguousProjectName`, carrying the
    /// canonical names of all of them.
    pub fn find_project_by_name(&self, search: &str) -> (r: Result<Project, Error>)
        ensures
            self@.has_project_name(search@) ==> r is Ok && r->Ok_0@.name == search@
                && self@.projects.contains(r->Ok_0@),
            !self@.has_project_name(search@) ==> {
                let found = self@.projects.filter(|p: ProjectView| spec_search_match(p, search@));
                match r {
                    Ok(p) => found.len() == 1 && p@ == found[0],
                    Err(e) => match e {
                        Error::ProjectNotFound { name } => found.len() == 0 && name@ == search@,
                        Error::AmbiguousProjectName { name, matches } => found.len() > 1 && name@
                            == search@ && matches@.map_values(|s: String| s@) =~= found.map_values(
                            |p: ProjectView| p.name,
                        ),
                        _ => false,
                    },
                }
            },
    {
        if let Some(p) = self.get_project_by_name(search) {
            return Ok(p.clone());
        }
        let ghost pred = |p: ProjectView| spec_search_match(p, search@);
        let n = self.projects.len();
        let mut found: Vec<Project> = Vec::new();
        let mut i: usize = 0;
        while i < n
            invariant
                i <= n,
                n == self.projects@.len(),
                pred == (|p: ProjectView| spec_search_match(p, search@)),
                found@.map_values(|p: Project| p@) == self@.projects.take(i as int).filter(pred),
            decreases n - i,
        {
            proof {
                lemma_filter_take_step(self@.projects, pred, i as int);
            }
            if project_matches_search(&self.projects[i], search) {
                found.push(self.projects[i].clone());
                proof {
                    assert(found@.map_values(|p: Project| p@) =~= self@.projects.take(
                        i as int,
                    ).filter(pred).push(self@.projects[i as int]));
                }
            }
            i = i + 1;
        }
        proof {
            assert(self@.projects.take(n as int) =~= self@.projects);
        }
        if found.len() == 0 {
            Err(Error::ProjectNotFound { name: search.to_owned() })
        } else if found.len() == 1 {
            let p = found[0].clone();
            proof {
                assert(p@ == found@.map_values(|q: Project| q@)[0]);
            }
            Ok(p)
        } else {
            let m = found.len();
            let ghost fnames = found@.map_values(|p: Project| p@).map_values(
                |p: ProjectView| p.name,
            );
            let mut matches: Vec<String> = Vec::new();
            let mut j: usize = 0;
            while j < m
                invariant
                    j <= m,
                    m == found@.len(),
                    fnames == found@.map_values(|p: Project| p@).map_values(
                        |p: ProjectView| p.name,
                    ),
                    matches@.map_values(|s: String| s@) == fnames.take(j as int),
                decreases m - j,
            {
                proof {
                    assert(found@.map_values(|p: Project| p@)[j as int] == found@[j as int]@);
                    assert(fnames[j as int] == found@[j as int]@.name);
                }
                matches.push(found[j].name.clone());
                proof {
                    assert(matches@.map_values(|s: String| s@) =~= fnames.take(j as int).push(
                        fnames[j as int],
                    ));
                    assert(fnames.take(j as int + 1) =~= fnames.take(j as int).push(
                        fnames[j as int],
                    ));
                }
                j = j + 1;
            }
            proof {
                assert(fnames.take(m as int) =~= fnames);
            }
            Err(Error::AmbiguousProjectName { name: search.to_owned(), matches })
        }
    }

    /// Look a worktree up by id.
    pub fn get_worktree(&self, id: i64) -> (r: Option<&Worktree>)
        ensures
            match r {
                Some(w) => w@.id == id as int && self@.worktrees.contains(w@),
                None => !self@.has_worktree_id(id as int),
            },
    {
        let n = self.worktrees.len();
        let mut i: usize = 0;
        while i < n
            invariant
                i <= n,
                n == self.worktrees@.len(),
                forall|k: int| 0 <= k < i ==> self@.worktrees[k].id != id as int,
            decreases n - i,
        {
            if self.worktrees[i].id == id {
                proof {
                    assert(self@.worktrees[i as int] == self.worktrees@[i as int]@);
                }
                return Some(&self.worktrees[i]);
            }
            i = i + 1;
        }
        None
    }

    /// Look a worktree up by its project and branch.
    pub fn get_worktree_by_project_branch(&self, project_id: i64, branch: &str) -> (r: Option<
        &Worktree,
    >)
        ensures
            match r {
                Some(w) => w@.project_id == project_id as int && w@.branch == branch@
                    && self@.worktrees.contains(w@),
                None => !self@.has_worktree_for(project_id as int, branch@),
            },
    {
        let wanted = branch.to_owned();
        let n = self.worktrees.len();
        let mut i: usize = 0;
        while i < n
            invariant
                i <= n,
                n == self.worktrees@.len(),
                wanted@ == branch@,
                forall|k: int|
                    0 <= k < i ==> !(self@.worktrees[k].project_id == project_id as int
                        && self@.worktrees[k].branch == branch@),
            decreases n - i,
        {
            if self.worktrees[i].project_id == project_id && self.worktrees[i].branch == wanted {
                proof {
                    assert(self@.worktrees[i as int] == self.worktrees@[i as int]@);
                }
                return Some(&self.worktrees[i]);
            }
            i = i + 1;
        }
        None
    }

    /// All worktrees of a project, ordered by branch ascending: exactly the
    /// project's worktree rows, as a multiset, in sorted order.
    pub fn list_worktrees(&self, project_id: i64) -> (r: Vec<Worktree>)
        ensures
            r@.map_values(|w: Worktree| w@).to_multiset() == self@.worktrees.filter(
                |w: WorktreeView| w.project_id == project_id as int,
            ).to_multiset(),
            forall|k1: int, k2: int|
                0 <= k1 < k2 < r@.len() ==> lex_leq(
                    #[trigger] r@[k1]@.branch,
                    #[trigger] r@[k2]@.branch,
                ),
            forall|k: int|
                0 <= k < r@.len() ==> (#[trigger] r@[k]@).project_id == project_id as int,
    {
        let ghost pred = |w: WorktreeView| w.project_id == project_id as int;
        let n = self.worktrees.len();
        let mut r: Vec<Worktree> = Vec::new();
        let mut i: usize = 0;
        proof {
            reveal(Seq::filter);
            assert(self@.worktrees.take(0) =~= Seq::<WorktreeView>::empty());
            assert(r@.map_values(|w: Worktree| w@) =~= self@.worktrees.take(0).filter(pred));
        }
        while i < n
            invariant
                i <= n,
                n == self.worktrees@.len(),
                pred == (|w: WorktreeView| w.project_id == project_id as int),
                r@.map_values(|w: Worktree| w@).to_multiset() == self@.worktrees.take(
                    i as int,
                ).filter(pred).to_multiset(),
                forall|k1: int, k2: int|
                    0 <= k1 < k2 < r@.len() ==> lex_leq(
                        #[trigger] r@[k1]@.branch,
                        #[trigger] r@[k2]@.branch,
                    ),
                forall|k: int|
                    0 <= k < r@.len() ==> (#[trigger] r@[k]@).project_id == project_id as int,
            decreases n - i,
        {
            proof {
                lemma_filter_take_step(self@.worktrees, pred, i as int);
            }
            if self.worktrees[i].project_id == project_id {
                let row = self.worktrees[i].clone();
                let ghost rv = row@;
                proof {
                    assert(rv == self@.worktrees[i as int]);
                }
                let pos = worktree_insertion_point(&r, &row.branch);
                let ghost so = r@;
                let ghost rowg = row;
                r.insert(pos, row);
                proof {
                    let f = |w: Worktree| w@;
                    let sm = so.map_values(f);
                    so.insert_ensures(pos as int, rowg);
                    sm.insert_ensures(pos as int, rv);
                    assert(r@.map_values(f) =~= sm.insert(pos as int, rv));
                    lemma_sorted_insert_by_branch(sm, pos as int, rv);
                    vstd::seq_lib::to_multiset_insert(sm, pos as int, rv);
                    vstd::seq_lib::to_multiset_build(
                        self@.worktrees.take(i as int).filter(pred),
                        rv,
                    );
                    assert forall|k1: int, k2: int| 0 <= k1 < k2 < r@.len() implies lex_leq(
                        #[trigger] r@[k1]@.branch,
                        #[trigger] r@[k2]@.branch,
                    ) by {
                        assert(r@[k1]@ == sm.insert(pos as int, rv)[k1]);
                        assert(r@[k2]@ == sm.insert(pos as int, rv)[k2]);
                    }
                    assert forall|k: int| 0 <= k < r@.len() implies (#[trigger] r@[k]@).project_id
                        == project_id as int by {
                        assert(r@[k]@ == sm.insert(pos as int, rv)[k]);
                        if k < pos {
                            assert(r@[k]@ == so[k]@);
                        } else if k > pos {
                            assert(r@[k]@ == so[k - 1]@);
                        }
                    }
                }
            }
            i = i + 1;
        }
        proof {
            assert(self@.worktrees.take(n as int) =~= self@.worktrees);
        }
        r
    }

    /// Register a worktree row. Only non-primary worktrees are registered
    /// this way: the primary comes with its project. Fails when the project
    /// does not exist, when a row for `(project_id, branch)` already exists,
    /// or when the row claims to be primary (the store's constraints).
    pub fn create_worktree(&mut self, w: CreateWorktree, now: &str) -> (r: Result<Worktree, Error>)
        requires
            old(self)@.wf(),
            old(self).next_worktree_id < i64::MAX,
        ensures
            final(self)@.wf(),
            r is Ok <==> (!w.is_primary && old(self)@.has_project_id(w.project_id as int) && !old(
                self,
            )@.has_worktree_for(w.project_id as int, w.branch@)),
            r is Err ==> final(self)@ == old(self)@ && (r->Err_0 is StoreFailure),
            r is Ok ==> {
                let wt = r->Ok_0;
                &&& wt.id == old(self)@.next_worktree_id
                &&& wt@.project_id == w.project_id as int
                &&& wt@.branch == w.branch@
                &&& wt@.path == w.path@
                &&& wt@.is_primary == false
                &&& wt@.created_at == now@
                &&& wt@.last_accessed_at == now@
                &&& final(self)@.projects == old(self)@.projects
                &&& final(self)@.worktrees == old(self)@.worktrees.push(wt@)
                &&& final(self)@.sessions == old(self)@.sessions
                &&& final(self)@.history == old(self)@.history
                &&& final(self)@.next_worktree_id == old(self)@.next_worktree_id + 1
                &&& final(self)@.next_project_id == old(self)@.next_project_id
                &&& final(self)@.next_session_id == old(self)@.next_session_id
            },
    {
        if w.is_primary {
            return Err(Error::StoreFailure { message: String::new() });
        }
        if self.get_project(w.project_id).is_none() {
            return Err(Error::StoreFailure { message: String::new() });
        }
        if self.get_worktree_by_project_branch(w.project_id, w.branch.as_str()).is_some() {
            return Err(Error::StoreFailure { message: String::new() });
        }
        let worktree = Worktree {
            id: self.next_worktree_id,
            project_id: w.project_id,
            branch: w.branch,
            path: w.path,
            is_primary: false,
            created_at: now.to_owned(),
            last_accessed_at: now.to_owned(),
        };
        let wt = worktree.clone();
        self.worktrees.push(worktree);
        self.next_worktree_id = self.next_worktree_id + 1;
        proof {
            assert(final(self)@.worktrees =~= old(self)@.worktrees.push(wt@));
            assert_store_wf_after_worktree(old(self)@, final(self)@, wt@);
        }
        Ok(wt)
    }

    /// Update a worktree's `last_accessed_at`; a missing id changes nothing.
    pub fn touch_worktree(&mut self, id: i64, now: &str)
        requires
            old(self)@.wf(),
        ensures
            final(self)@.wf(),
            final(self)@.projects == old(self)@.projects,
            final(self)@.sessions == old(self)@.sessions,
            final(self)@.history == old(self)@.history,
            final(self)@.next_project_id == old(self)@.next_project_id,
            final(self)@.next_worktree_id == old(self)@.next_worktree_id,
            final(self)@.next_session_id == old(self)@.next_session_id,
            !old(self)@.has_worktree_id(id as int) ==> final(self)@ == old(self)@,
            old(self)@.has_worktree_id(id as int) ==> exists|i: int|
                0 <= i < old(self)@.worktrees.len() && #[trigger] old(self)@.worktrees[i].id
                    == id as int && final(self)@.worktrees == old(self)@.worktrees.update(
                    i,
                    WorktreeView { last_accessed_at: now@, ..old(self)@.worktrees[i] },
                ),
    {
        let n = self.worktrees.len();
        let mut i: usize = 0;
        while i < n
            invariant
                i <= n,
                n == self.worktrees@.len(),
                self == old(self),
                old(self)@.wf(),
                forall|k: int| 0 <= k < i ==> self@.worktrees[k].id != id as int,
            decreases n - i,
        {
            if self.worktrees[i].id == id {
                let mut row = self.worktrees[i].clone();
                row.last_accessed_at = now.to_owned();
                let ghost rowv = row@;
                self.worktrees[i] = row;
                proof {
                    assert(final(self)@.worktrees =~= old(self)@.worktrees.update(
                        i as int,
                        rowv,
                    ));
                    assert(rowv == WorktreeView {
                        last_accessed_at: now@,
                        ..old(self)@.worktrees[i as int]
                    });
                    assert_store_wf_after_worktree_update(old(self)@, final(self)@, i as int);
                }
                return ;
            }
            i = i + 1;
        }
        proof {
            assert(final(self)@ == old(self)@);
        }
    }

    /// Look a session up by id.
    pub fn get_session(&self, id: i64) -> (r: Option<&Session>)
        ensures
            match r {
                Some(s) => s@.id == id as int && self@.sessions.contains(s@),
                None => !self@.has_session_id(id as int),
            },
    {
        let n = self.sessions.len();
        let mut i: usize = 0;
        while i < n
            invariant
                i <= n,
                n == self.sessions@.len(),
                forall|k: int| 0 <= k < i ==> self@.sessions[k].id != id as int,
            decreases n - i,
        {
            if self.sessions[i].id == id {
                proof {
                    assert(self@.sessions[i as int] == self.sessions@[i as int]@);
                }
                return Some(&self.sessions[i]);
            }
            i = i + 1;
        }
        None
    }

    /// Look the session of a worktree up, if one is bound to it.
    pub fn get_session_for_worktree(&self, worktree_id: i64) -> (r: Option<&Session>)
        ensures
            match r {
                Some(s) => s@.worktree_id == worktree_id as int && self@.sessions.contains(s@),
                None => !self@.has_session_for(worktree_id as int),
            },
    {
        let n = self.sessions.len();
        let mut i: usize = 0;
        while i < n
            invariant
                i <= n,
                n == self.sessions@.len(),
                forall|k: int| 0 <= k < i ==> self@.sessions[k].worktree_id != worktree_id as int,
            decreases n - i,
        {
            if self.sessions[i].worktree_id == worktree_id {
                proof {
                    assert(self@.sessions[i as int] == self.sessions@[i as int]@);
                }
                return Some(&self.sessions[i]);
            }
            i = i + 1;
        }
        None
    }

    /// Look a session up by its backend name.
    pub fn get_session_by_name(&self, name: &str) -> (r: Option<&Session>)
        ensures
            match r {
                Some(s) => s@.session_name == name@ && self@.sessions.contains(s@),
                None => !self@.has_session_named(name@),
            },
    {
        let wanted = name.to_owned();
        let n = self.sessions.len();
        let mut i: usize = 0;
        while i < n
            invariant
                i <= n,
                n == self.sessions@.len(),
                wanted@ == name@,
                forall|k: int| 0 <= k < i ==> self@.sessions[k].session_name != name@,
            decreases n - i,
        {
            if self.sessions[i].session_name == wanted {
                proof {
                    assert(self@.sessions[i as int] == self.sessions@[i as int]@);
                }
                return Some(&self.sessions[i]);
            }
            i = i + 1;
        }
        None
    }

    /// Register a session row. Fails when the worktree does not exist or
    /// already has a session (the store's constraints).
    pub fn create_session(&mut self, s: CreateSession, now: &str) -> (r: Result<Session, Error>)
        requires
            old(self)@.wf(),
            old(self).next_session_id < i64::MAX,
        ensures
            final(self)@.wf(),
            r is Ok <==> (old(self)@.has_worktree_id(s.worktree_id as int) && !old(
                self,
            )@.has_session_for(s.worktree_id as int)),
            r is Err ==> final(self)@ == old(self)@ && (r->Err_0 is StoreFailure),
            r is Ok ==> {
                let se = r->Ok_0;
                &&& se.id == old(self)@.next_session_id
                &&& se@.worktree_id == s.worktree_id as int
                &&& se@.session_name == s.session_name@
                &&& se@.backend == s.backend@
                &&& se@.created_at == now@
                &&& se@.last_attached_at == now@
                &&& final(self)@.projects == old(self)@.projects
                &&& final(self)@.worktrees == old(self)@.worktrees
                &&& final(self)@.sessions == old(self)@.sessions.push(se@)
                &&& final(self)@.history == old(self)@.history
                &&& final(self)@.next_project_id == old(self)@.next_project_id
                &&& final(self)@.next_worktree_id == old(self)@.next_worktree_id
                &&& final(self)@.next_session_id == old(self)@.next_session_id + 1
            },
    {
        if self.get_worktree(s.worktree_id).is_none() {
            return Err(Error::StoreFailure { message: String::new() });
        }
        if self.get_session_for_worktree(s.worktree_id).is_some() {
            return Err(Error::StoreFailure { message: String::new() });
        }
        let session = Session {
            id: self.next_session_id,
            worktree_id: s.worktree_id,
            session_name: s.session_name,
            backend: s.backend,
            created_at: now.to_owned(),
            last_attached_at: now.to_owned(),
        };
        let se = session.clone();
        self.sessions.push(session);
        self.next_session_id = self.next_session_id + 1;
        proof {
            assert(final(self)@.sessions =~= old(self)@.sessions.push(se@));
            assert_store_wf_after_session(old(self)@, final(self)@, se@);
        }
        Ok(se)
    }

    /// Update a session's `last_attached_at`; a missing id changes nothing.
    pub fn touch_session(&mut self, id: i64, now: &str)
        requires
            old(self)@.wf(),
        ensures
            final(self)@.wf(),
            final(self)@.projects == old(self)@.projects,
            final(self)@.worktrees == old(self)@.worktrees,
            final(self)@.history == old(self)@.history,
            final(self)@.next_project_id == old(self)@.next_project_id,
            final(self)@.next_worktree_id == old(self)@.next_worktree_id,
            final(self)@.next_session_id == old(self)@.next_session_id,
            !old(self)@.has_session_id(id as int) ==> final(self)@ == old(self)@,
            old(self)@.has_session_id(id as int) ==> exists|i: int|
                0 <= i < old(self)@.sessions.len() && #[trigger] old(self)@.sessions[i].id
                    == id as int && final(self)@.sessions == old(self)@.sessions.update(
                    i,
                    SessionView { last_attached_at: now@, ..old(self)@.sessions[i] },
                ),
    {
        let n = self.sessions.len();
        let mut i: usize = 0;
        while i < n
            invariant
                i <= n,
                n == self.sessions@.len(),
                self == old(self),
                old(self)@.wf(),
                forall|k: int| 0 <= k < i ==> self@.sessions[k].id != id as int,
            decreases n - i,
        {
            if self.sessions[i].id == id {
                let mut row = self.sessions[i].clone();
                row.last_attached_at = now.to_owned();
                let ghost rowv = row@;
                self.sessions[i] = row;
                proof {
                    assert(final(self)@.sessions =~= old(self)@.sessions.update(i as int, rowv));
                    assert(rowv == SessionView {
                        last_attached_at: now@,
                        ..old(self)@.sessions[i as int]
                    });
                    assert_store_wf_after_session_update(old(self)@, final(self)@, i as int);
                }
                return ;
            }
            i = i + 1;
        }
        proof {
            assert(final(self)@ == old(self)@);
        }
    }

    /// Append one activation to the history. History is append-only and may
    /// refer to sessions that are later deleted.
    pub fn add_to_history(&mut self, session_id: i64, now: &str)
        requires
            old(self)@.wf(),
        ensures
            final(self)@.wf(),
            final(self)@.projects == old(self)@.projects,
            final(self)@.worktrees == old(self)@.worktrees,
            final(self)@.sessions == old(self)@.sessions,
            final(self)@.history == old(self)@.history.push(
                HistoryView { session_id: session_id as int, accessed_at: now@ },
            ),
            final(self)@.next_project_id == old(self)@.next_project_id,
            final(self)@.next_worktree_id == old(self)@.next_worktree_id,
            final(self)@.next_session_id == old(self)@.next_session_id,
    {
        let entry = HistoryEntry { session_id, accessed_at: now.to_owned() };
        let ghost ev = entry@;
        self.history.push(entry);
        proof {
            assert(final(self)@.history =~= old(self)@.history.push(ev));
            assert_store_wf_same_rows(old(self)@, final(self)@);
        }
    }

    /// The most recently activated session other than the current one: scan
    /// the history from the newest entry backwards, skipping entries whose
    /// session is gone and entries that name the current session.
    pub fn get_previous_session(&self, current: Option<&String>) -> (r: Option<&Session>)
        requires
            self@.wf(),
        ensures
            match r {
                Some(s) => {
                    let cur = spec_current(current);
                    exists|i: int|
                        0 <= i < self@.history.len() && #[trigger] self@.history_admissible(cur, i)
                            && s@.id == self@.history[i].session_id && self@.sessions.contains(s@)
                            && (forall|j: int|
                            i < j < self@.history.len() ==> !self@.history_admissible(cur, j))
                            && (cur matches Some(c) ==> s@.session_name != c)
                },
                None => forall|i: int|
                    0 <= i < self@.history.len() ==> !self@.history_admissible(
                        spec_current(current),
                        i,
                    ),
            },
    {
        let ghost cur = spec_current(current);
        let n = self.history.len();
        let mut i: usize = n;
        while i > 0
            invariant
                0 <= i <= n,
                n == self.history@.len(),
                self@.wf(),
                forall|j: int| i <= j < n ==> !self@.history_admissible(cur, j),
                cur == spec_current(current),
            decreases i,
        {
            i = i - 1;
            let hid = self.history[i].session_id;
            proof {
                assert(self@.history[i as int] == self.history@[i as int]@);
            }
            match self.get_session(hid) {
                Some(s) => {
                    let name_ok = match current {
                        Some(c) => s.session_name != *c,
                        None => true,
                    };
                    if name_ok {
                        proof {
                            assert(self@.history_admissible(cur, i as int)) by {
                                let k = choose|k: int|
                                    0 <= k < self@.sessions.len() && self@.sessions[k] == s@;
                                assert(self@.sessions[k].id == self@.history[i as int].session_id);
                            }
                        }
                        return Some(s);
                    } else {
                        proof {
                            assert(!self@.history_admissible(cur, i as int)) by {
                                if self@.history_admissible(cur, i as int) {
                                    let k = choose|k: int|
                                        0 <= k < self@.sessions.len()
                                            && #[trigger] self@.sessions[k].id == self@.history[
                                            i as int
                                        ].session_id && (cur matches Some(c)
                                            ==> self@.sessions[k].session_name != c);
                                    let k2 = choose|k2: int|
                                        0 <= k2 < self@.sessions.len() && self@.sessions[k2] == s@;
                                    assert(self@.sessions[k].id == self@.sessions[k2].id);
                                    assert(k == k2);
                                }
                            }
                        }
                    }
                },
                None => {
                    proof {
                        assert(!self@.history_admissible(cur, i as int));
                    }
                },
            }
        }
        None
    }

    /// Delete a worktree row and the session bound to it. The primary
    /// worktree of a project is never deleted this way: the whole project is
    /// deleted instead, which is why the target must be non-primary.
    pub fn delete_worktree(&mut self, id: i64)
        requires
            old(self)@.wf(),
            forall|i: int|
                0 <= i < old(self)@.worktrees.len() && #[trigger] old(self)@.worktrees[i].id
                    == id as int ==> !old(self)@.worktrees[i].is_primary,
        ensures
            final(self)@.wf(),
            final(self)@.projects == old(self)@.projects,
            final(self)@.worktrees == old(self)@.worktrees.filter(
                |w: WorktreeView| w.id != id as int,
            ),
            final(self)@.sessions == old(self)@.sessions.filter(
                |s: SessionView| s.worktree_id != id as int,
            ),
            final(self)@.history == old(self)@.history,
            final(self)@.next_project_id == old(self)@.next_project_id,
            final(self)@.next_worktree_id == old(self)@.next_worktree_id,
            final(self)@.next_session_id == old(self)@.next_session_id,
    {
        let ghost wpred = |w: WorktreeView| w.id != id as int;
        let ghost spred = |s: SessionView| s.worktree_id != id as int;
        let ghost oldv = self@;

        let n = self.worktrees.len();
        let mut kept_w: Vec<Worktree> = Vec::new();
        let mut i: usize = 0;
        while i < n
            invariant
                i <= n,
                n == self.worktrees@.len(),
                self == old(self),
                wpred == (|w: WorktreeView| w.id != id as int),
                kept_w@.map_values(|w: Worktree| w@) == self@.worktrees.take(i as int).filter(
                    wpred,
                ),
            decreases n - i,
        {
            proof {
                lemma_filter_take_step(self@.worktrees, wpred, i as int);
            }
            if self.worktrees[i].id != id {
                kept_w.push(self.worktrees[i].clone());
                proof {
                    assert(kept_w@.map_values(|w: Worktree| w@) =~= self@.worktrees.take(
                        i as int,
                    ).filter(wpred).push(self@.worktrees[i as int]));
                }
            }
            i = i + 1;
        }

        let m = self.sessions.len();
        let mut kept_s: Vec<Session> = Vec::new();
        let mut j: usize = 0;
        while j < m
            invariant
                j <= m,
                m == self.sessions@.len(),
                self == old(self),
                spred == (|s: SessionView| s.worktree_id != id as int),
                kept_s@.map_values(|s: Session| s@) == self@.sessions.take(j as int).filter(spred),
            decreases m - j,
        {
            proof {
                lemma_filter_take_step(self@.sessions, spred, j as int);
            }
            if self.sessions[j].worktree_id != id {
                kept_s.push(self.sessions[j].clone());
                proof {
                    assert(kept_s@.map_values(|s: Session| s@) =~= self@.sessions.take(
                        j as int,
                    ).filter(spred).push(self@.sessions[j as int]));
                }
            }
            j = j + 1;
        }

        self.worktrees = kept_w;
        self.sessions = kept_s;
        proof {
            assert(oldv.worktrees.take(n as int) =~= oldv.worktrees);
            assert(oldv.sessions.take(m as int) =~= oldv.sessions);
            assert_store_wf_after_delete_worktree(oldv, final(self)@, id as int);
        }
    }

    /// Delete a project row and cascade: every worktree of the project goes,
    /// and every session bound to one of those worktrees. History rows stay.
    pub fn delete_project(&mut self, id: i64)
        requires
            old(self)@.wf(),
        ensures
            final(self)@.wf(),
            final(self)@.projects == old(self)@.projects.filter(
                |p: ProjectView| p.id != id as int,
            ),
            final(self)@.worktrees == old(self)@.worktrees.filter(
                |w: WorktreeView| w.project_id != id as int,
            ),
            final(self)@.sessions == old(self)@.sessions.filter(
                |s: SessionView| !old(self)@.worktree_in_project(s.worktree_id, id as int),
            ),
            final(self)@.history == old(self)@.history,
            final(self)@.next_project_id == old(self)@.next_project_id,
            final(self)@.next_worktree_id == old(self)@.next_worktree_id,
            final(self)@.next_session_id == old(self)@.next_session_id,
    {
        let ghost oldv = self@;
        let ghost ppred = |p: ProjectView| p.id != id as int;
        let ghost wpred = |w: WorktreeView| w.project_id != id as int;
        let ghost spred = |s: SessionView| !oldv.worktree_in_project(s.worktree_id, id as int);

        let np = self.projects.len();
        let mut kept_p: Vec<Project> = Vec::new();
        let mut i: usize = 0;
        while i < np
            invariant
                i <= np,
                np == self.projects@.len(),
                self == old(self),
                ppred == (|p: ProjectView| p.id != id as int),
                kept_p@.map_values(|p: Project| p@) == self@.projects.take(i as int).filter(ppred),
            decreases np - i,
        {
            proof {
                lemma_filter_take_step(self@.projects, ppred, i as int);
            }
            if self.projects[i].id != id {
                kept_p.push(self.projects[i].clone());
                proof {
                    assert(kept_p@.map_values(|p: Project| p@) =~= self@.projects.take(
                        i as int,
                    ).filter(ppred).push(self@.projects[i as int]));
                }
            }
            i = i + 1;
        }

        let nw = self.worktrees.len();
        let mut kept_w: Vec<Worktree> = Vec::new();
        let mut j: usize = 0;
        while j < nw
            invariant
                j <= nw,
                nw == self.worktrees@.len(),
                self == old(self),
                wpred == (|w: WorktreeView| w.project_id != id as int),
                kept_w@.map_values(|w: Worktree| w@) == self@.worktrees.take(j as int).filter(
                    wpred,
                ),
            decreases nw - j,
        {
            proof {
                lemma_filter_take_step(self@.worktrees, wpred, j as int);
            }
            if self.worktrees[j].project_id != id {
                kept_w.push(self.worktrees[j].clone());
                proof {
                    assert(kept_w@.map_values(|w: Worktree| w@) =~= self@.worktrees.take(
                        j as int,
                    ).filter(wpred).push(self@.worktrees[j as int]));
                }
            }
            j = j + 1;
        }

        let ns = self.sessions.len();
        let mut kept_s: Vec<Session> = Vec::new();
        let mut k: usize = 0;
        while k < ns
            invariant
                k <= ns,
                ns == self.sessions@.len(),
                self == old(self),
                self@.wf(),
                oldv == self@,
                spred == (|s: SessionView| !oldv.worktree_in_project(s.worktree_id, id as int)),
                kept_s@.map_values(|s: Session| s@) == self@.sessions.take(k as int).filter(spred),
            decreases ns - k,
        {
            proof {
                lemma_filter_take_step(self@.sessions, spred, k as int);
            }
            let wid = self.sessions[k].worktree_id;
            let wt_opt = self.get_worktree(wid);
            let keep: bool = match wt_opt {
                Some(w) => w.project_id != id,
                None => true,
            };
            proof {
                let sv = self@.sessions[k as int];
                assert(sv == self.sessions@[k as int]@);
                match wt_opt {
                    Some(w) => {
                        let b = choose|b: int|
                            0 <= b < oldv.worktrees.len() && oldv.worktrees[b] == w@;
                        if oldv.worktree_in_project(sv.worktree_id, id as int) {
                            let a = choose|a: int|
                                0 <= a < oldv.worktrees.len() && #[trigger] oldv.worktrees[a].id
                                    == sv.worktree_id && oldv.worktrees[a].project_id == id as int;
                            assert(oldv.worktrees[a].id == oldv.worktrees[b].id);
                            assert(a == b);
                            assert(w@.project_id == id as int);
                        }
                        if w@.project_id == id as int {
                            assert(oldv.worktrees[b].id == sv.worktree_id
                                && oldv.worktrees[b].project_id == id as int);
                            assert(oldv.worktree_in_project(sv.worktree_id, id as int));
                        }
                        assert(keep == spred(sv));
                    },
                    None => {
                        if oldv.worktree_in_project(sv.worktree_id, id as int) {
                            let a = choose|a: int|
                                0 <= a < oldv.worktrees.len() && #[trigger] oldv.worktrees[a].id
                                    == sv.worktree_id && oldv.worktrees[a].project_id == id as int;
                            assert(oldv.has_worktree_id(sv.worktree_id));
                        }
                        assert(keep == spred(sv));
                    },
                }
            }
            if keep {
                kept_s.push(self.sessions[k].clone());
                proof {
                    assert(kept_s@.map_values(|s: Session| s@) =~= self@.sessions.take(
                        k as int,
                    ).filter(spred).push(self@.sessions[k as int]));
                }
            }
            k = k + 1;
        }

        self.projects = kept_p;
        self.worktrees = kept_w;
        self.sessions = kept_s;
        proof {
            assert(oldv.projects.take(np as int) =~= oldv.projects);
            assert(oldv.worktrees.take(nw as int) =~= oldv.worktrees);
            assert(oldv.sessions.take(ns as int) =~= oldv.sessions);
            assert_store_wf_after_delete_project(oldv, final(self)@, id as int);
        }
    }

    /// Check the store's invariant at run time: a store loaded from
    /// persistence is only trusted after this says so.
    pub fn check_wf(&self) -> (r: bool)
        ensures
            r == self@.wf(),
    {
        let p = self.check_projects_wf();
        let w = self.check_worktrees_wf();
        let s = self.check_sessions_wf();
        p && w && s
    }

    /// Check uniqueness of project ids and names, and the id bounds.
    fn check_projects_wf(&self) -> (r: bool)
        ensures
            r == self@.projects_wf(),
    {
        if self.next_project_id <= 0 {
            return false;
        }
        let n = self.projects.len();
        let mut i: usize = 0;
        while i < n
            invariant
                i <= n,
                n == self.projects@.len(),
                0 < self.next_project_id,
                forall|a: int, b: int|
                    0 <= a < b < n && a < i ==> self@.projects[a].id != self@.projects[b].id,
                forall|a: int, b: int|
                    0 <= a < b < n && a < i ==> self@.projects[a].name != self@.projects[b].name,
                forall|a: int|
                    0 <= a < i ==> 0 < #[trigger] self@.projects[a].id < self@.next_project_id,
            decreases n - i,
        {
            if !(self.projects[i].id > 0 && self.projects[i].id < self.next_project_id) {
                proof {
                    assert(!self@.projects_wf()) by {
                        if self@.projects_wf() {
                            assert(0 < self@.projects[i as int].id < self@.next_project_id);
                        }
                    }
                }
                return false;
            }
            let mut j: usize = i + 1;
            while j < n
                invariant
                    i < j <= n,
                    n == self.projects@.len(),
                    forall|b: int|
                        i < b < j ==> self@.projects[i as int].id != #[trigger] self@.projects[
                            b
                        ].id,
                    forall|b: int|
                        i < b < j ==> self@.projects[i as int].name != #[trigger] self@.projects[
                            b
                        ].name,
                decreases n - j,
            {
                if self.projects[i].id == self.projects[j].id {
                    proof {
                        assert(!self@.projects_wf()) by {
                            if self@.projects_wf() {
                                assert(self@.projects[i as int].id != self@.projects[j as int].id);
                            }
                        }
                    }
                    return false;
                }
                if self.projects[i].name == self.projects[j].name {
                    proof {
                        assert(self@.projects[i as int].name == self@.projects[j as int].name);
                        assert(!self@.projects_wf()) by {
                            if self@.projects_wf() {
                                assert(self@.projects[i as int].name != self@.projects[
                                    j as int
                                ].name);
                            }
                        }
                    }
                    return false;
                }
                j = j + 1;
            }
            i = i + 1;
        }
        true
    }

    /// Check the worktree table: unique ids, unique `(project_id, branch)`
    /// pairs, id bounds, a project behind each row, and exactly one primary
    /// per project.
    fn check_worktrees_wf(&self) -> (r: bool)
        ensures
            r == self@.worktrees_wf(),
    {
        if self.next_worktree_id <= 0 {
            return false;
        }
        let n = self.worktrees.len();
        let mut i: usize = 0;
        while i < n
            invariant
                i <= n,
                n == self.worktrees@.len(),
                0 < self.next_worktree_id,
                forall|a: int, b: int|
                    0 <= a < b < n && a < i ==> self@.worktrees[a].id != self@.worktrees[b].id,
                forall|a: int, b: int|
                    0 <= a < b < n && a < i ==> !(self@.worktrees[a].project_id
                        == self@.worktrees[b].project_id && self@.worktrees[a].branch
                        == self@.worktrees[b].branch),
                forall|a: int, b: int|
                    0 <= a < b < n && a < i && self@.worktrees[a].is_primary
                        && self@.worktrees[b].is_primary ==> self@.worktrees[a].project_id
                        != self@.worktrees[b].project_id,
                forall|a: int|
                    0 <= a < i ==> 0 < #[trigger] self@.worktrees[a].id < self@.next_worktree_id,
                forall|a: int|
                    0 <= a < i ==> self@.has_project_id(#[trigger] self@.worktrees[a].project_id),
            decreases n - i,
        {
            if !(self.worktrees[i].id > 0 && self.worktrees[i].id < self.next_worktree_id) {
                proof {
                    assert(!self@.worktrees_wf()) by {
                        if self@.worktrees_wf() {
                            assert(0 < self@.worktrees[i as int].id < self@.next_worktree_id);
                        }
                    }
                }
                return false;
            }
            if self.get_project(self.worktrees[i].project_id).is_none() {
                proof {
                    assert(!self@.worktrees_wf()) by {
                        if self@.worktrees_wf() {
                            assert(self@.has_project_id(self@.worktrees[i as int].project_id));
                        }
                    }
                }
                return false;
            }
            let mut j: usize = i + 1;
            while j < n
                invariant
                    i < j <= n,
                    n == self.worktrees@.len(),
                    forall|b: int|
                        i < b < j ==> self@.worktrees[i as int].id != #[trigger] self@.worktrees[
                            b
                        ].id,
                    forall|b: int|
                        i < b < j ==> !(self@.worktrees[i as int].project_id
                            == #[trigger] self@.worktrees[b].project_id && self@.worktrees[
                            i as int
                        ].branch == self@.worktrees[b].branch),
                    forall|b: int|
                        i < b < j && self@.worktrees[i as int].is_primary
                            && #[trigger] self@.worktrees[b].is_primary ==> self@.worktrees[
                            i as int
                        ].project_id != self@.worktrees[b].project_id,
                decreases n - j,
            {
                if self.worktrees[i].id == self.worktrees[j].id {
                    proof {
                        assert(!self@.worktrees_wf()) by {
                            if self@.worktrees_wf() {
                                assert(self@.worktrees[i as int].id != self@.worktrees[
                                    j as int
                                ].id);
                            }
                        }
                    }
                    return false;
                }
                if self.worktrees[i].project_id == self.worktrees[j].project_id
                    && self.worktrees[i].branch == self.worktrees[j].branch {
                    proof {
                        assert(self@.worktrees[i as int].branch == self@.worktrees[
                            j as int
                        ].branch);
                        assert(!self@.worktrees_wf()) by {
                            if self@.worktrees_wf() {
                                assert(!(self@.worktrees[i as int].project_id == self@.worktrees[
                                    j as int
                                ].project_id && self@.worktrees[i as int].branch
                                    == self@.worktrees[j as int].branch));
                            }
                        }
                    }
                    return false;
                }
                if self.worktrees[i].is_primary && self.worktrees[j].is_primary
                    && self.worktrees[i].project_id == self.worktrees[j].project_id {
                    proof {
                        assert(!self@.worktrees_wf()) by {
                            if self@.worktrees_wf() {
                                assert(self@.worktrees[i as int].project_id != self@.worktrees[
                                    j as int
                                ].project_id);
                            }
                        }
                    }
                    return false;
                }
                j = j + 1;
            }
            i = i + 1;
        }
        // Every project must still have its primary worktree.
        let np = self.projects.len();
        let mut k: usize = 0;
        while k < np
            invariant
                k <= np,
                np == self.projects@.len(),
                n == self.worktrees@.len(),
                0 < self.next_worktree_id,
                forall|a: int, b: int|
                    0 <= a < b < n ==> self@.worktrees[a].id != self@.worktrees[b].id,
                forall|a: int, b: int|
                    0 <= a < b < n ==> !(self@.worktrees[a].project_id
                        == self@.worktrees[b].project_id && self@.worktrees[a].branch
                        == self@.worktrees[b].branch),
                forall|a: int, b: int|
                    0 <= a < b < n && self@.worktrees[a].is_primary && self@.worktrees[b].is_primary
                        ==> self@.worktrees[a].project_id != self@.worktrees[b].project_id,
                forall|a: int|
                    0 <= a < n ==> 0 < #[trigger] self@.worktrees[a].id < self@.next_worktree_id,
                forall|a: int|
                    0 <= a < n ==> self@.has_project_id(#[trigger] self@.worktrees[a].project_id),
                forall|a: int|
                    0 <= a < k ==> self@.has_primary_for(#[trigger] self@.projects[a].id),
            decreases np - k,
        {
            let mut found = false;
            let mut t: usize = 0;
            while t < n
                invariant
                    t <= n,
                    n == self.worktrees@.len(),
                    np == self.projects@.len(),
                    k < np,
                    found ==> self@.has_primary_for(self@.projects[k as int].id),
                    !found ==> forall|b: int|
                        0 <= b < t ==> !(#[trigger] self@.worktrees[b].project_id
                            == self@.projects[k as int].id && self@.worktrees[b].is_primary),
                decreases n - t,
            {
                if self.worktrees[t].project_id == self.projects[k].id
                    && self.worktrees[t].is_primary {
                    found = true;
                    proof {
                        assert(self@.worktrees[t as int].project_id == self@.projects[k as int].id
                            && self@.worktrees[t as int].is_primary);
                        assert(self@.has_primary_for(self@.projects[k as int].id));
                    }
                }
                t = t + 1;
            }
            if !found {
                proof {
                    assert(!self@.worktrees_wf()) by {
                        if self@.worktrees_wf() {
                            assert(self@.has_primary_for(self@.projects[k as int].id));
                            let b = choose|b: int|
                                0 <= b < self@.worktrees.len() && self@.worktrees[b].project_id
                                    == self@.projects[k as int].id && self@.worktrees[
                                    b
                                ].is_primary;
                            assert(!(self@.worktrees[b].project_id == self@.projects[
                                k as int
                            ].id && self@.worktrees[b].is_primary));
                        }
                    }
                }
                return false;
            }
            k = k + 1;
        }
        true
    }

    /// Check the session table: unique ids, one session per worktree, id
    /// bounds, and a worktree behind each row.
    fn check_sessions_wf(&self) -> (r: bool)
        ensures
            r == self@.sessions_wf(),
    {
        if self.next_session_id <= 0 {
            return false;
        }
        let n = self.sessions.len();
        let mut i: usize = 0;
        while i < n
            invariant
                i <= n,
                n == self.sessions@.len(),
                0 < self.next_session_id,
                forall|a: int, b: int|
                    0 <= a < b < n && a < i ==> self@.sessions[a].id != self@.sessions[b].id,
                forall|a: int, b: int|
                    0 <= a < b < n && a < i ==> self@.sessions[a].worktree_id != self@.sessions[
                        b
                    ].worktree_id,
                forall|a: int|
                    0 <= a < i ==> 0 < #[trigger] self@.sessions[a].id < self@.next_session_id,
                forall|a: int|
                    0 <= a < i ==> self@.has_worktree_id(#[trigger] self@.sessions[a].worktree_id),
            decreases n - i,
        {
            if !(self.sessions[i].id > 0 && self.sessions[i].id < self.next_session_id) {
                proof {
                    assert(!self@.sessions_wf()) by {
                        if self@.sessions_wf() {
                            assert(0 < self@.sessions[i as int].id < self@.next_session_id);
                        }
                    }
                }
                return false;
            }
            if self.get_worktree(self.sessions[i].worktree_id).is_none() {
                proof {
                    assert(!self@.sessions_wf()) by {
                        if self@.sessions_wf() {
                            assert(self@.has_worktree_id(self@.sessions[i as int].worktree_id));
                        }
                    }
                }
                return false;
            }
            let mut j: usize = i + 1;
            while j < n
                invariant
                    i < j <= n,
                    n == self.sessions@.len(),
                    forall|b: int|
                        i < b < j ==> self@.sessions[i as int].id != #[trigger] self@.sessions[
                            b
                        ].id,
                    forall|b: int|
                        i < b < j ==> self@.sessions[i as int].worktree_id
                            != #[trigger] self@.sessions[b].worktree_id,
                decreases n - j,
            {
                if self.sessions[i].id == self.sessions[j].id {
                    proof {
                        assert(!self@.sessions_wf()) by {
                            if self@.sessions_wf() {
                                assert(self@.sessions[i as int].id != self@.sessions[j as int].id);
                            }
                        }
                    }
                    return false;
                }
                if self.sessions[i].worktree_id == self.sessions[j].worktree_id {
                    proof {
                        assert(!self@.sessions_wf()) by {
                            if self@.sessions_wf() {
                                assert(self@.sessions[i as int].worktree_id != self@.sessions[
                                    j as int
                                ].worktree_id);
                            }
                        }
                    }
                    return false;
                }
                j = j + 1;
            }
            i = i + 1;
        }
        true
    }

    /// Whether some project row already carries this name.
    fn name_taken(&self, name: &String) -> (r: bool)
        ensures
            r == self@.has_project_name(name@),
    {
        let n = self.projects.len();
        let mut i: usize = 0;
        while i < n
            invariant
                i <= n,
                n == self.projects@.len(),
                forall|k: int| 0 <= k < i ==> self@.projects[k].name != name@,
            decreases n - i,
        {
            if self.projects[i].name == *name {
                proof {
                    assert(self@.projects[i as int].name == name@);
                }
                return true;
            }
            i = i + 1;
        }
        false
    }
}

/// The first position in a name-sorted project vector whose row does not
/// sort at or before `name`: where a row named `name` belongs.
fn project_insertion_point(r: &Vec<Project>, name: &String) -> (pos: usize)
    ensures
        pos <= r@.len(),
        forall|k: int| 0 <= k < pos ==> lex_leq(#[trigger] r@[k]@.name, name@),
        pos < r@.len() ==> !lex_leq(r@[pos as int]@.name, name@),
{
    let m = r.len();
    let mut pos: usize = 0;
    while pos < m
        invariant
            pos <= m,
            m == r@.len(),
            forall|k: int| 0 <= k < pos ==> lex_leq(#[trigger] r@[k]@.name, name@),
        decreases m - pos,
    {
        if !str_leq(r[pos].name.as_str(), name.as_str()) {
            return pos;
        }
        pos = pos + 1;
    }
    pos
}

/// Inserting a row at its insertion point keeps the sequence sorted by
/// name.
proof fn lemma_sorted_insert_by_name(sm: Seq<ProjectView>, pos: int, v: ProjectView)
    requires
        0 <= pos <= sm.len(),
        forall|k1: int, k2: int|
            0 <= k1 < k2 < sm.len() ==> lex_leq(#[trigger] sm[k1].name, #[trigger] sm[k2].name),
        forall|k: int| 0 <= k < pos ==> lex_leq(#[trigger] sm[k].name, v.name),
        pos < sm.len() ==> !lex_leq(sm[pos].name, v.name),
    ensures
        forall|k1: int, k2: int|
            0 <= k1 < k2 < sm.insert(pos, v).len() ==> lex_leq(
                #[trigger] sm.insert(pos, v)[k1].name,
                #[trigger] sm.insert(pos, v)[k2].name,
            ),
{
    sm.insert_ensures(pos, v);
    if pos < sm.len() {
        lemma_lex_leq_total(sm[pos].name, v.name);
    }
    let s2 = sm.insert(pos, v);
    assert forall|k1: int, k2: int| 0 <= k1 < k2 < s2.len() implies lex_leq(
        #[trigger] s2[k1].name,
        #[trigger] s2[k2].name,
    ) by {
        if k1 < pos {
            assert(s2[k1] == sm[k1]);
            if k2 < pos {
                assert(s2[k2] == sm[k2]);
            } else if k2 == pos {
                assert(s2[k2] == v);
            } else {
                assert(s2[k2] == sm[k2 - 1]);
                if k2 - 1 == k1 {
                    assert(lex_leq(sm[k1].name, v.name));
                    assert(lex_leq(v.name, sm[pos].name));
                    lemma_lex_leq_trans(v.name, sm[pos].name, sm[k2 - 1].name);
                }
            }
        } else if k1 == pos {
            assert(s2[k1] == v);
            assert(s2[k2] == sm[k2 - 1]);
            if k2 - 1 == pos {
                assert(lex_leq(v.name, sm[pos].name));
            } else {
                lemma_lex_leq_trans(v.name, sm[pos].name, sm[k2 - 1].name);
            }
        } else {
            assert(s2[k1] == sm[k1 - 1]);
            assert(s2[k2] == sm[k2 - 1]);
        }
    }
}

/// The first position in a branch-sorted worktree vector whose row does not
/// sort at or before `branch`: where a row for `branch` belongs.
fn worktree_insertion_point(r: &Vec<Worktree>, branch: &String) -> (pos: usize)
    ensures
        pos <= r@.len(),
        forall|k: int| 0 <= k < pos ==> lex_leq(#[trigger] r@[k]@.branch, branch@),
        pos < r@.len() ==> !lex_leq(r@[pos as int]@.branch, branch@),
{
    let m = r.len();
    let mut pos: usize = 0;
    while pos < m
        invariant
            pos <= m,
            m == r@.len(),
            forall|k: int| 0 <= k < pos ==> lex_leq(#[trigger] r@[k]@.branch, branch@),
        decreases m - pos,
    {
        if !str_leq(r[pos].branch.as_str(), branch.as_str()) {
            return pos;
        }
        pos = pos + 1;
    }
    pos
}

/// Inserting a row at its insertion point keeps the sequence sorted by
/// branch.
proof fn lemma_sorted_insert_by_branch(sm: Seq<WorktreeView>, pos: int, v: WorktreeView)
    requires
        0 <= pos <= sm.len(),
        forall|k1: int, k2: int|
            0 <= k1 < k2 < sm.len() ==> lex_leq(
                #[trigger] sm[k1].branch,
                #[trigger] sm[k2].branch,
            ),
        forall|k: int| 0 <= k < pos ==> lex_leq(#[trigger] sm[k].branch, v.branch),
        pos < sm.len() ==> !lex_leq(sm[pos].branch, v.branch),
    ensures
        forall|k1: int, k2: int|
            0 <= k1 < k2 < sm.insert(pos, v).len() ==> lex_leq(
                #[trigger] sm.insert(pos, v)[k1].branch,
                #[trigger] sm.insert(pos, v)[k2].branch,
            ),
{
    sm.insert_ensures(pos, v);
    if pos < sm.len() {
        lemma_lex_leq_total(sm[pos].branch, v.branch);
    }
    let s2 = sm.insert(pos, v);
    assert forall|k1: int, k2: int| 0 <= k1 < k2 < s2.len() implies lex_leq(
        #[trigger] s2[k1].branch,
        #[trigger] s2[k2].branch,
    ) by {
        if k1 < pos {
            assert(s2[k1] == sm[k1]);
            if k2 < pos {
                assert(s2[k2] == sm[k2]);
            } else if k2 == pos {
                assert(s2[k2] == v);
            } else {
                assert(s2[k2] == sm[k2 - 1]);
                if k2 - 1 == k1 {
                    assert(lex_leq(sm[k1].branch, v.branch));
                    assert(lex_leq(v.branch, sm[pos].branch));
                    lemma_lex_leq_trans(v.branch, sm[pos].branch, sm[k2 - 1].branch);
                }
            }
        } else if k1 == pos {
            assert(s2[k1] == v);
            assert(s2[k2] == sm[k2 - 1]);
            if k2 - 1 == pos {
                assert(lex_leq(v.branch, sm[pos].branch));
            } else {
                lemma_lex_leq_trans(v.branch, sm[pos].branch, sm[k2 - 1].branch);
            }
        } else {
            assert(s2[k1] == sm[k1 - 1]);
            assert(s2[k2] == sm[k2 - 1]);
        }
    }
}

/// The canonical name ends in "/{q}": the suffix match of the flexible
/// project search.
pub open spec fn spec_like_suffix(name: Seq<char>, q: Seq<char>) -> bool {
    &&& name.len() > q.len()
    &&& name.skip(name.len() - q.len()) == q
    &&& name[name.len() - q.len() - 1] == '/'
}

/// A project matches a search term when its display name equals the term or
/// its canonical name ends in "/{term}".
pub open spec fn spec_search_match(p: ProjectView, q: Seq<char>) -> bool {
    p.display_name == q || spec_like_suffix(p.name, q)
}

/// Whether one project matches the flexible search term.
fn project_matches_search(p: &Project, search: &str) -> (r: bool)
    ensures
        r == spec_search_match(p@, search@),
{
    if str_eq(p.display_name.as_str(), search) {
        return true;
    }
    let nv = str_to_chars(p.name.as_str());
    let qv = str_to_chars(search);
    let nlen = nv.len();
    let qlen = qv.len();
    if nlen > qlen {
        let off = nlen - qlen;
        if nv[off - 1] != '/' {
            return false;
        }
        let mut k: usize = 0;
        while k < qlen
            invariant
                k <= qlen,
                nlen == nv@.len(),
                qlen == qv@.len(),
                nlen > qlen,
                off == nlen - qlen,
                nv@ == p.name@,
                qv@ == search@,
                p.display_name@ != search@,
                forall|m: int| 0 <= m < k ==> nv@[off + m] == qv@[m],
            decreases qlen - k,
        {
            if nv[off + k] != qv[k] {
                proof {
                    if nv@.skip(off as int) == qv@ {
                        assert(nv@.skip(off as int)[k as int] == qv@[k as int]);
                        assert(nv@[off + k] == qv@[k as int]);
                    }
                }
                return false;
            }
            k = k + 1;
        }
        proof {
            assert(nv@.skip(off as int) =~= qv@);
        }
        true
    } else {
        false
    }
}

/// The character sequence of the current session name handed to
/// `get_previous_session`, if one was handed in.
pub open spec fn spec_current(current: Option<&String>) -> Option<Seq<char>> {
    match current {
        Some(c) => Some(c@),
        None => None,
    }
}

/// The invariant only speaks of the three row tables and the next free ids:
/// a store that keeps them keeps the invariant.
proof fn assert_store_wf_same_rows(pre: StoreView, post: StoreView)
    requires
        pre.wf(),
        post.projects == pre.projects,
        post.worktrees == pre.worktrees,
        post.sessions == pre.sessions,
        post.next_project_id == pre.next_project_id,
        post.next_worktree_id == pre.next_worktree_id,
        post.next_session_id == pre.next_session_id,
    ensures
        post.wf(),
{
    assert forall|i: int| 0 <= i < post.worktrees.len() implies post.has_project_id(
        #[trigger] post.worktrees[i].project_id,
    ) by {
        assert(pre.has_project_id(pre.worktrees[i].project_id));
    }
    assert forall|k: int| 0 <= k < post.projects.len() implies post.has_primary_for(
        #[trigger] post.projects[k].id,
    ) by {
        assert(pre.has_primary_for(pre.projects[k].id));
    }
    assert forall|i: int| 0 <= i < post.sessions.len() implies post.has_worktree_id(
        #[trigger] post.sessions[i].worktree_id,
    ) by {
        assert(pre.has_worktree_id(pre.sessions[i].worktree_id));
    }
}

/// The invariant still holds after one session is appended with a fresh id
/// for a present worktree that had none.
proof fn assert_store_wf_after_session(pre: StoreView, post: StoreView, se: SessionView)
    requires
        pre.wf(),
        pre.has_worktree_id(se.worktree_id),
        !pre.has_session_for(se.worktree_id),
        se.id == pre.next_session_id,
        post.projects == pre.projects,
        post.worktrees == pre.worktrees,
        post.sessions == pre.sessions.push(se),
        post.next_project_id == pre.next_project_id,
        post.next_worktree_id == pre.next_worktree_id,
        post.next_session_id == pre.next_session_id + 1,
    ensures
        post.wf(),
{
    assert forall|i: int| 0 <= i < post.worktrees.len() implies post.has_project_id(
        #[trigger] post.worktrees[i].project_id,
    ) by {
        assert(pre.has_project_id(pre.worktrees[i].project_id));
    }
    assert forall|k: int| 0 <= k < post.projects.len() implies post.has_primary_for(
        #[trigger] post.projects[k].id,
    ) by {
        assert(pre.has_primary_for(pre.projects[k].id));
    }
    assert forall|i: int| 0 <= i < post.sessions.len() implies post.has_worktree_id(
        #[trigger] post.sessions[i].worktree_id,
    ) by {
        if i < pre.sessions.len() {
            assert(pre.has_worktree_id(pre.sessions[i].worktree_id));
        } else {
            assert(pre.has_worktree_id(se.worktree_id));
        }
    }
}

/// The invariant still holds after one session's `last_attached_at` is
/// rewritten in place.
proof fn assert_store_wf_after_session_update(pre: StoreView, post: StoreView, i: int)
    requires
        pre.wf(),
        0 <= i < pre.sessions.len(),
        post.sessions == pre.sessions.update(
            i,
            SessionView { last_attached_at: post.sessions[i].last_attached_at,
                ..pre.sessions[i] },
        ),
        post.projects == pre.projects,
        post.worktrees == pre.worktrees,
        post.history == pre.history,
        post.next_project_id == pre.next_project_id,
        post.next_worktree_id == pre.next_worktree_id,
        post.next_session_id == pre.next_session_id,
    ensures
        post.wf(),
{
    assert(forall|k: int|
        0 <= k < post.sessions.len() ==> #[trigger] post.sessions[k].id == pre.sessions[k].id
            && post.sessions[k].worktree_id == pre.sessions[k].worktree_id);
    assert forall|i2: int| 0 <= i2 < post.worktrees.len() implies post.has_project_id(
        #[trigger] post.worktrees[i2].project_id,
    ) by {
        assert(pre.has_project_id(pre.worktrees[i2].project_id));
    }
    assert forall|k: int| 0 <= k < post.projects.len() implies post.has_primary_for(
        #[trigger] post.projects[k].id,
    ) by {
        assert(pre.has_primary_for(pre.projects[k].id));
    }
    assert forall|i2: int| 0 <= i2 < post.sessions.len() implies post.has_worktree_id(
        #[trigger] post.sessions[i2].worktree_id,
    ) by {
        assert(pre.has_worktree_id(pre.sessions[i2].worktree_id));
    }
}

/// Appending to a sequence prefix extends the filtered prefix exactly when
/// the new element satisfies the predicate.
pub proof fn lemma_filter_take_step<A>(s: Seq<A>, p: spec_fn(A) -> bool, i: int)
    requires
        0 <= i < s.len(),
    ensures
        s.take(i + 1).filter(p) == if p(s[i]) {
            s.take(i).filter(p).push(s[i])
        } else {
            s.take(i).filter(p)
        },
{
    reveal(Seq::filter);
    assert(s.take(i + 1).drop_last() =~= s.take(i));
    assert(s.take(i + 1).last() == s[i]);
}

/// Every element of a filtered sequence is an element of the original.
proof fn lemma_filter_membership<A>(s: Seq<A>, p: spec_fn(A) -> bool)
    ensures
        forall|j: int| 0 <= j < s.filter(p).len() ==> s.contains(#[trigger] s.filter(p)[j]),
    decreases s.len(),
{
    reveal(Seq::filter);
    if s.len() > 0 {
        let d = s.drop_last();
        lemma_filter_membership(d, p);
        assert forall|j: int| 0 <= j < s.filter(p).len() implies s.contains(
            #[trigger] s.filter(p)[j],
        ) by {
            if j < d.filter(p).len() {
                assert(s.filter(p)[j] == d.filter(p)[j]);
                assert(d.contains(d.filter(p)[j]));
                let k = choose|k: int| 0 <= k < d.len() && d[k] == d.filter(p)[j];
                assert(s[k] == s.filter(p)[j]);
            } else {
                assert(s.filter(p)[j] == s[s.len() - 1]);
            }
        }
    }
}

/// Filtering keeps any pairwise property that held of the original, in
/// order: if no ordered pair of the original conflicts, no ordered pair of
/// the filtered sequence conflicts.
proof fn lemma_filter_pairwise<A>(s: Seq<A>, p: spec_fn(A) -> bool, bad: spec_fn(A, A) -> bool)
    requires
        forall|i: int, j: int| 0 <= i < j < s.len() ==> !bad(s[i], s[j]),
    ensures
        forall|i: int, j: int|
            0 <= i < j < s.filter(p).len() ==> !bad(s.filter(p)[i], s.filter(p)[j]),
    decreases s.len(),
{
    reveal(Seq::filter);
    if s.len() > 0 {
        let d = s.drop_last();
        assert(forall|i: int, j: int| 0 <= i < j < d.len() ==> !bad(d[i], d[j])) by {
            assert(forall|i: int| 0 <= i < d.len() ==> d[i] == s[i]);
        }
        lemma_filter_pairwise(d, p, bad);
        lemma_filter_membership(d, p);
        assert forall|i: int, j: int| 0 <= i < j < s.filter(p).len() implies !bad(
            s.filter(p)[i],
            s.filter(p)[j],
        ) by {
            if j < d.filter(p).len() {
                assert(s.filter(p)[i] == d.filter(p)[i]);
                assert(s.filter(p)[j] == d.filter(p)[j]);
            } else {
                assert(s.filter(p)[j] == s.last());
                assert(s.filter(p)[i] == d.filter(p)[i]);
                assert(d.contains(d.filter(p)[i]));
                let k = choose|k: int| 0 <= k < d.len() && d[k] == d.filter(p)[i];
                assert(d[k] == s[k]);
                assert(!bad(s[k], s[s.len() - 1]));
            }
        }
    }
}

/// The invariant still holds after one non-primary worktree is appended with
/// a fresh id for a present project and an unbound branch.
proof fn assert_store_wf_after_worktree(pre: StoreView, post: StoreView, wt: WorktreeView)
    requires
        pre.wf(),
        pre.has_project_id(wt.project_id),
        !pre.has_worktree_for(wt.project_id, wt.branch),
        wt.id == pre.next_worktree_id,
        !wt.is_primary,
        post.projects == pre.projects,
        post.worktrees == pre.worktrees.push(wt),
        post.sessions == pre.sessions,
        post.history == pre.history,
        post.next_project_id == pre.next_project_id,
        post.next_worktree_id == pre.next_worktree_id + 1,
        post.next_session_id == pre.next_session_id,
    ensures
        post.wf(),
{
    assert forall|i: int| 0 <= i < post.worktrees.len() implies post.has_project_id(
        #[trigger] post.worktrees[i].project_id,
    ) by {
        if i < pre.worktrees.len() {
            assert(pre.has_project_id(pre.worktrees[i].project_id));
        } else {
            assert(pre.has_project_id(wt.project_id));
        }
        let k = choose|k: int|
            0 <= k < pre.projects.len() && pre.projects[k].id == post.worktrees[i].project_id;
        assert(post.projects[k].id == post.worktrees[i].project_id);
    }
    assert forall|k: int| 0 <= k < post.projects.len() implies post.has_primary_for(
        #[trigger] post.projects[k].id,
    ) by {
        assert(pre.has_primary_for(pre.projects[k].id));
        let i = choose|i: int|
            0 <= i < pre.worktrees.len() && pre.worktrees[i].project_id == pre.projects[k].id
                && pre.worktrees[i].is_primary;
        assert(post.worktrees[i].project_id == post.projects[k].id
            && post.worktrees[i].is_primary);
    }
    assert forall|i: int| 0 <= i < post.sessions.len() implies post.has_worktree_id(
        #[trigger] post.sessions[i].worktree_id,
    ) by {
        assert(pre.has_worktree_id(pre.sessions[i].worktree_id));
        let k = choose|k: int|
            0 <= k < pre.worktrees.len() && pre.worktrees[k].id == pre.sessions[i].worktree_id;
        assert(post.worktrees[k].id == post.sessions[i].worktree_id);
    }
}

/// The invariant still holds after one worktree's `last_accessed_at` is
/// rewritten in place.
proof fn assert_store_wf_after_worktree_update(pre: StoreView, post: StoreView, i: int)
    requires
        pre.wf(),
        0 <= i < pre.worktrees.len(),
        post.worktrees == pre.worktrees.update(
            i,
            WorktreeView { last_accessed_at: post.worktrees[i].last_accessed_at,
                ..pre.worktrees[i] },
        ),
        post.projects == pre.projects,
        post.sessions == pre.sessions,
        post.history == pre.history,
        post.next_project_id == pre.next_project_id,
        post.next_worktree_id == pre.next_worktree_id,
        post.next_session_id == pre.next_session_id,
    ensures
        post.wf(),
{
    assert(forall|k: int|
        0 <= k < post.worktrees.len() ==> #[trigger] post.worktrees[k].id == pre.worktrees[k].id
            && post.worktrees[k].project_id == pre.worktrees[k].project_id
            && post.worktrees[k].branch == pre.worktrees[k].branch
            && post.worktrees[k].is_primary == pre.worktrees[k].is_primary);
    assert forall|i2: int| 0 <= i2 < post.worktrees.len() implies post.has_project_id(
        #[trigger] post.worktrees[i2].project_id,
    ) by {
        assert(pre.has_project_id(pre.worktrees[i2].project_id));
    }
    assert forall|k: int| 0 <= k < post.projects.len() implies post.has_primary_for(
        #[trigger] post.projects[k].id,
    ) by {
        assert(pre.has_primary_for(pre.projects[k].id));
        let j = choose|j: int|
            0 <= j < pre.worktrees.len() && pre.worktrees[j].project_id == pre.projects[k].id
                && pre.worktrees[j].is_primary;
        assert(post.worktrees[j].project_id == post.projects[k].id
            && post.worktrees[j].is_primary);
    }
    assert forall|i2: int| 0 <= i2 < post.sessions.len() implies post.has_worktree_id(
        #[trigger] post.sessions[i2].worktree_id,
    ) by {
        assert(pre.has_worktree_id(pre.sessions[i2].worktree_id));
        let k = choose|k: int|
            0 <= k < pre.worktrees.len() && pre.worktrees[k].id == pre.sessions[i2].worktree_id;
        assert(post.worktrees[k].id == post.sessions[i2].worktree_id);
    }
}

/// The invariant still holds after a non-primary worktree and its session
/// are deleted.
proof fn assert_store_wf_after_delete_worktree(pre: StoreView, post: StoreView, id: int)
    requires
        pre.wf(),
        forall|i: int|
            0 <= i < pre.worktrees.len() && #[trigger] pre.worktrees[i].id == id
                ==> !pre.worktrees[i].is_primary,
        post.projects == pre.projects,
        post.worktrees == pre.worktrees.filter(|w: WorktreeView| w.id != id),
        post.sessions == pre.sessions.filter(|s: SessionView| s.worktree_id != id),
        post.next_project_id == pre.next_project_id,
        post.next_worktree_id == pre.next_worktree_id,
        post.next_session_id == pre.next_session_id,
    ensures
        post.wf(),
{
    let wpred = |w: WorktreeView| w.id != id;
    let spred = |s: SessionView| s.worktree_id != id;
    lemma_filter_membership(pre.worktrees, wpred);
    lemma_filter_membership(pre.sessions, spred);
    lemma_filter_pairwise(pre.worktrees, wpred, |a: WorktreeView, b: WorktreeView| a.id == b.id);
    lemma_filter_pairwise(
        pre.worktrees,
        wpred,
        |a: WorktreeView, b: WorktreeView| a.project_id == b.project_id && a.branch == b.branch,
    );
    lemma_filter_pairwise(
        pre.worktrees,
        wpred,
        |a: WorktreeView, b: WorktreeView|
            a.is_primary && b.is_primary && a.project_id == b.project_id,
    );
    lemma_filter_pairwise(pre.sessions, spred, |a: SessionView, b: SessionView| a.id == b.id);
    lemma_filter_pairwise(
        pre.sessions,
        spred,
        |a: SessionView, b: SessionView| a.worktree_id == b.worktree_id,
    );
    assert forall|i: int| 0 <= i < post.worktrees.len() implies 0 < #[trigger] post.worktrees[i].id
        < post.next_worktree_id by {
        assert(pre.worktrees.contains(post.worktrees[i]));
        let k = choose|k: int| 0 <= k < pre.worktrees.len() && pre.worktrees[k] == post.worktrees[i];
    }
    assert forall|i: int| 0 <= i < post.worktrees.len() implies post.has_project_id(
        #[trigger] post.worktrees[i].project_id,
    ) by {
        assert(pre.worktrees.contains(post.worktrees[i]));
        let k = choose|k: int| 0 <= k < pre.worktrees.len() && pre.worktrees[k] == post.worktrees[i];
        assert(pre.has_project_id(pre.worktrees[k].project_id));
    }
    assert forall|k: int| 0 <= k < post.projects.len() implies post.has_primary_for(
        #[trigger] post.projects[k].id,
    ) by {
        assert(pre.has_primary_for(pre.projects[k].id));
        let i = choose|i: int|
            0 <= i < pre.worktrees.len() && pre.worktrees[i].project_id == pre.projects[k].id
                && pre.worktrees[i].is_primary;
        assert(pre.worktrees[i].id != id);
        pre.worktrees.lemma_filter_contains(wpred, i);
        assert(post.worktrees.contains(pre.worktrees[i]));
        let j = choose|j: int|
            0 <= j < post.worktrees.len() && post.worktrees[j] == pre.worktrees[i];
        assert(post.worktrees[j].project_id == post.projects[k].id
            && post.worktrees[j].is_primary);
    }
    assert forall|i: int| 0 <= i < post.sessions.len() implies 0 < #[trigger] post.sessions[i].id
        < post.next_session_id by {
        assert(pre.sessions.contains(post.sessions[i]));
        let k = choose|k: int| 0 <= k < pre.sessions.len() && pre.sessions[k] == post.sessions[i];
    }
    assert forall|i: int| 0 <= i < post.sessions.len() implies post.has_worktree_id(
        #[trigger] post.sessions[i].worktree_id,
    ) by {
        assert(pre.sessions.contains(post.sessions[i]));
        let k = choose|k: int| 0 <= k < pre.sessions.len() && pre.sessions[k] == post.sessions[i];
        assert(pre.has_worktree_id(pre.sessions[k].worktree_id));
        let a = choose|a: int|
            0 <= a < pre.worktrees.len() && pre.worktrees[a].id == pre.sessions[k].worktree_id;
        assert(pre.worktrees[a].id != id);
        pre.worktrees.lemma_filter_contains(wpred, a);
        assert(post.worktrees.contains(pre.worktrees[a]));
        let b = choose|b: int|
            0 <= b < post.worktrees.len() && post.worktrees[b] == pre.worktrees[a];
        assert(post.worktrees[b].id == post.sessions[i].worktree_id);
    }
}

/// The invariant still holds after a project, its worktrees and their
/// sessions are deleted together.
proof fn assert_store_wf_after_delete_project(pre: StoreView, post: StoreView, id: int)
    requires
        pre.wf(),
        post.projects == pre.projects.filter(|p: ProjectView| p.id != id),
        post.worktrees == pre.worktrees.filter(|w: WorktreeView| w.project_id != id),
        post.sessions == pre.sessions.filter(
            |s: SessionView| !pre.worktree_in_project(s.worktree_id, id),
        ),
        post.next_project_id == pre.next_project_id,
        post.next_worktree_id == pre.next_worktree_id,
        post.next_session_id == pre.next_session_id,
    ensures
        post.wf(),
{
    let ppred = |p: ProjectView| p.id != id;
    let wpred = |w: WorktreeView| w.project_id != id;
    let spred = |s: SessionView| !pre.worktree_in_project(s.worktree_id, id);
    lemma_filter_membership(pre.projects, ppred);
    lemma_filter_membership(pre.worktrees, wpred);
    lemma_filter_membership(pre.sessions, spred);
    lemma_filter_pairwise(pre.projects, ppred, |a: ProjectView, b: ProjectView| a.id == b.id);
    lemma_filter_pairwise(pre.projects, ppred, |a: ProjectView, b: ProjectView| a.name == b.name);
    lemma_filter_pairwise(pre.worktrees, wpred, |a: WorktreeView, b: WorktreeView| a.id == b.id);
    lemma_filter_pairwise(
        pre.worktrees,
        wpred,
        |a: WorktreeView, b: WorktreeView| a.project_id == b.project_id && a.branch == b.branch,
    );
    lemma_filter_pairwise(
        pre.worktrees,
        wpred,
        |a: WorktreeView, b: WorktreeView|
            a.is_primary && b.is_primary && a.project_id == b.project_id,
    );
    lemma_filter_pairwise(pre.sessions, spred, |a: SessionView, b: SessionView| a.id == b.id);
    lemma_filter_pairwise(
        pre.sessions,
        spred,
        |a: SessionView, b: SessionView| a.worktree_id == b.worktree_id,
    );
    assert forall|i: int| 0 <= i < post.projects.len() implies 0 < #[trigger] post.projects[i].id
        < post.next_project_id by {
        assert(pre.projects.contains(post.projects[i]));
        let k = choose|k: int| 0 <= k < pre.projects.len() && pre.projects[k] == post.projects[i];
    }
    assert forall|i: int| 0 <= i < post.worktrees.len() implies 0 < #[trigger] post.worktrees[i].id
        < post.next_worktree_id by {
        assert(pre.worktrees.contains(post.worktrees[i]));
        let k = choose|k: int| 0 <= k < pre.worktrees.len() && pre.worktrees[k] == post.worktrees[i];
    }
    assert forall|i: int| 0 <= i < post.worktrees.len() implies post.has_project_id(
        #[trigger] post.worktrees[i].project_id,
    ) by {
        assert(pre.worktrees.contains(post.worktrees[i]));
        let k = choose|k: int| 0 <= k < pre.worktrees.len() && pre.worktrees[k] == post.worktrees[i];
        assert(pre.has_project_id(pre.worktrees[k].project_id));
        let a = choose|a: int|
            0 <= a < pre.projects.len() && pre.projects[a].id == pre.worktrees[k].project_id;
        assert(pre.projects[a].id != id);
        pre.projects.lemma_filter_contains(ppred, a);
        assert(post.projects.contains(pre.projects[a]));
        let b = choose|b: int| 0 <= b < post.projects.len() && post.projects[b] == pre.projects[a];
        assert(post.projects[b].id == post.worktrees[i].project_id);
    }
    assert forall|k: int| 0 <= k < post.projects.len() implies post.has_primary_for(
        #[trigger] post.projects[k].id,
    ) by {
        assert(pre.projects.contains(post.projects[k]));
        let a = choose|a: int| 0 <= a < pre.projects.len() && pre.projects[a] == post.projects[k];
        assert(pre.has_primary_for(pre.projects[a].id));
        let i = choose|i: int|
            0 <= i < pre.worktrees.len() && pre.worktrees[i].project_id == pre.projects[a].id
                && pre.worktrees[i].is_primary;
        assert(pre.worktrees[i].project_id != id);
        pre.worktrees.lemma_filter_contains(wpred, i);
        assert(post.worktrees.contains(pre.worktrees[i]));
        let j = choose|j: int|
            0 <= j < post.worktrees.len() && post.worktrees[j] == pre.worktrees[i];
        assert(post.worktrees[j].project_id == post.projects[k].id
            && post.worktrees[j].is_primary);
    }
    assert forall|i: int| 0 <= i < post.sessions.len() implies 0 < #[trigger] post.sessions[i].id
        < post.next_session_id by {
        assert(pre.sessions.contains(post.sessions[i]));
        let k = choose|k: int| 0 <= k < pre.sessions.len() && pre.sessions[k] == post.sessions[i];
    }
    assert forall|i: int| 0 <= i < post.sessions.len() implies post.has_worktree_id(
        #[trigger] post.sessions[i].worktree_id,
    ) by {
        assert(pre.sessions.contains(post.sessions[i]));
        let k = choose|k: int| 0 <= k < pre.sessions.len() && pre.sessions[k] == post.sessions[i];
        assert(pre.has_worktree_id(pre.sessions[k].worktree_id));
        let a = choose|a: int|
            0 <= a < pre.worktrees.len() && pre.worktrees[a].id == pre.sessions[k].worktree_id;
        assert(pre.worktrees[a].project_id != id) by {
            if pre.worktrees[a].project_id == id {
                assert(pre.worktree_in_project(pre.sessions[k].worktree_id, id));
            }
        }
        pre.worktrees.lemma_filter_contains(wpred, a);
        assert(post.worktrees.contains(pre.worktrees[a]));
        let b = choose|b: int|
            0 <= b < post.worktrees.len() && post.worktrees[b] == pre.worktrees[a];
        assert(post.worktrees[b].id == post.sessions[i].worktree_id);
    }
}

/// The invariant still holds after one project and its primary worktree are
/// appended with fresh ids.
proof fn assert_store_wf_after_create(
    pre: StoreView,
    post: StoreView,
    pr: ProjectView,
    wt: WorktreeView,
)
    requires
        pre.wf(),
        !pre.has_project_name(pr.name),
        pr.id == pre.next_project_id,
        wt.id == pre.next_worktree_id,
        wt.project_id == pr.id,
        wt.is_primary,
        post.projects == pre.projects.push(pr),
        post.worktrees == pre.worktrees.push(wt),
        post.sessions == pre.sessions,
        post.next_project_id == pre.next_project_id + 1,
        post.next_worktree_id == pre.next_worktree_id + 1,
        post.next_session_id == pre.next_session_id,
    ensures
        post.wf(),
{
    assert forall|i: int| 0 <= i < post.worktrees.len() implies post.has_project_id(
        #[trigger] post.worktrees[i].project_id,
    ) by {
        if i < pre.worktrees.len() {
            assert(pre.has_project_id(pre.worktrees[i].project_id));
            let k = choose|k: int|
                0 <= k < pre.projects.len() && pre.projects[k].id == pre.worktrees[i].project_id;
            assert(post.projects[k].id == post.worktrees[i].project_id);
        } else {
            assert(post.projects[pre.projects.len() as int].id == pr.id);
        }
    }
    assert forall|k: int| 0 <= k < post.projects.len() implies post.has_primary_for(
        #[trigger] post.projects[k].id,
    ) by {
        if k < pre.projects.len() {
            assert(pre.has_primary_for(pre.projects[k].id));
            let i = choose|i: int|
                0 <= i < pre.worktrees.len() && pre.worktrees[i].project_id == pre.projects[k].id
                    && pre.worktrees[i].is_primary;
            assert(post.worktrees[i].project_id == post.projects[k].id
                && post.worktrees[i].is_primary);
        } else {
            let i = pre.worktrees.len() as int;
            assert(post.worktrees[i].project_id == post.projects[k].id
                && post.worktrees[i].is_primary);
        }
    }
    assert forall|i: int| 0 <= i < post.sessions.len() implies post.has_worktree_id(
        #[trigger] post.sessions[i].worktree_id,
    ) by {
        assert(pre.has_worktree_id(pre.sessions[i].worktree_id));
        let k = choose|k: int|
            0 <= k < pre.worktrees.len() && pre.worktrees[k].id == pre.sessions[i].worktree_id;
        assert(post.worktrees[k].id == post.sessions[i].worktree_id);
    }
    assert forall|i: int, j: int|
        0 <= i < j < post.worktrees.len() implies !(post.worktrees[i].project_id
        == post.worktrees[j].project_id && post.worktrees[i].branch
        == post.worktrees[j].branch) by {
        if j == pre.worktrees.len() {
            // The new worktree belongs to the new project, whose id is fresh.
            if post.worktrees[i].project_id == pr.id {
                assert(pre.has_project_id(pre.worktrees[i].project_id));
            }
        }
    }
    assert forall|i: int, j: int|
        0 <= i < j < post.worktrees.len() && post.worktrees[i].is_primary
        && post.worktrees[j].is_primary implies post.worktrees[i].project_id
        != post.worktrees[j].project_id by {
        if j == pre.worktrees.len() {
            if post.worktrees[i].project_id == pr.id {
                assert(pre.has_project_id(pre.worktrees[i].project_id));
            }
        }
    }
}

} // verus!
