use vstd::prelude::*;

use crate::backend::{spec_backend_str, BackendKind};
use crate::error::Error;
use crate::models::{CreateSession, HistoryView, Session, SessionView, WorktreeView};
use crate::names::{generate_session_name, spec_session_name};
use crate::store::{spec_current, Store, StoreView};

verus! {

/// Owns session identity: creation and re-creation policy, the
/// attach-versus-switch decision, and the "pop to previous" operation.
pub struct SessionManager {
    pub backend_kind: BackendKind,
}

/// A backend session that still has to be created: its name and the
/// directory it starts in.
#[derive(Debug)]
pub struct BackendRequest {
    pub name: String,
    pub working_dir: String,
}

/// How the caller reaches the resolved session: a non-destructive switch
/// (already inside a session of this backend), an attach that may replace
/// the calling process (terminal multiplexers), or opening the workspace
/// directory (editors).
#[derive(Debug)]
pub enum SessionAction {
    SwitchClient { name: String },
    Attach { name: String },
    OpenWorkspace { path: String },
}

/// What a switch resolved to: the session row (already touched), the
/// backend session to create first if the backend does not have it, and the
/// final action to perform.
#[derive(Debug)]
pub struct SwitchOutcome {
    pub session: Session,
    pub create: Option<BackendRequest>,
    pub action: SessionAction,
}

/// The full outcome of a successful switch. One worktree row carries the
/// id; its `last_accessed_at` is touched. If a session row existed it is
/// reused under its stored name — touched, never duplicated — and a backend
/// session is requested only if the backend reported none alive. If no row
/// existed, a fresh row is inserted under the generated name and its
/// backend session is always requested. One history entry is appended, and
/// the action follows the caller's position: switch when inside a session,
/// otherwise attach (multiplexer) or open the workspace (editor).
pub open spec fn spec_switch_outcome(
    kind: BackendKind,
    pre: StoreView,
    post: StoreView,
    worktree_id: int,
    alive: bool,
    inside: bool,
    now: Seq<char>,
    o: SwitchOutcome,
) -> bool {
    exists|i: int|
        0 <= i < pre.worktrees.len() && #[trigger] pre.worktrees[i].id == worktree_id && {
            let w = pre.worktrees[i];
            &&& post.worktrees == pre.worktrees.update(
                i,
                WorktreeView { last_accessed_at: now, ..w },
            )
            &&& o.session@.worktree_id == worktree_id
            &&& o.session@.last_attached_at == now
            &&& (pre.has_session_for(worktree_id) ==> exists|j: int|
                0 <= j < pre.sessions.len() && #[trigger] pre.sessions[j].worktree_id
                    == worktree_id && {
                    let s = pre.sessions[j];
                    &&& o.session@ == SessionView { last_attached_at: now, ..s }
                    &&& post.sessions == pre.sessions.update(
                        j,
                        SessionView { last_attached_at: now, ..s },
                    )
                    &&& (alive ==> o.create is None)
                    &&& (!alive ==> (o.create matches Some(c) && c.name@ == s.session_name
                        && c.working_dir@ == w.path))
                    &&& post.next_session_id == pre.next_session_id
                })
            &&& (!pre.has_session_for(worktree_id) ==> exists|k: int|
                0 <= k < pre.projects.len() && #[trigger] pre.projects[k].id == w.project_id && {
                    &&& o.session@.id == pre.next_session_id
                    &&& o.session@.session_name == spec_session_name(
                        pre.projects[k].name,
                        w.branch,
                    )
                    &&& o.session@.backend == spec_backend_str(kind)
                    &&& o.session@.created_at == now
                    &&& post.sessions == pre.sessions.push(o.session@)
                    &&& (o.create matches Some(c) && c.name@ == o.session@.session_name
                        && c.working_dir@ == w.path)
                    &&& post.next_session_id == pre.next_session_id + 1
                })
            &&& post.history == pre.history.push(
                HistoryView { session_id: o.session@.id, accessed_at: now },
            )
            &&& post.projects == pre.projects
            &&& post.next_project_id == pre.next_project_id
            &&& post.next_worktree_id == pre.next_worktree_id
            &&& (inside ==> (o.action matches SessionAction::SwitchClient { name } && name@
                == o.session@.session_name))
            &&& (!inside && (kind is Code || kind is Cursor) ==> (o.action
                matches SessionAction::OpenWorkspace { path } && path@ == w.path))
            &&& (!inside && kind is Tmux ==> (o.action matches SessionAction::Attach { name }
                && name@ == o.session@.session_name))
        }
}

/// A switch after the backend session died out of band re-creates it under
/// the identical stored name and never duplicates the store row: the
/// request to the backend names the stored session, and the session table
/// keeps its length, with the same row (id, worktree and name) in place.
pub proof fn lemma_switch_recreates_same_name(
    kind: BackendKind,
    pre: StoreView,
    post: StoreView,
    worktree_id: int,
    inside: bool,
    now: Seq<char>,
    o: SwitchOutcome,
)
    requires
        pre.wf(),
        pre.has_session_for(worktree_id),
        spec_switch_outcome(kind, pre, post, worktree_id, false, inside, now, o),
    ensures
        post.sessions.len() == pre.sessions.len(),
        o.create is Some,
        exists|j: int|
            0 <= j < pre.sessions.len() && #[trigger] pre.sessions[j].worktree_id == worktree_id
                && o.create->0.name@ == pre.sessions[j].session_name && o.session@.id
                == pre.sessions[j].id && o.session@.session_name == pre.sessions[j].session_name,
{
    let j = choose|j: int|
        0 <= j < pre.sessions.len() && #[trigger] pre.sessions[j].worktree_id == worktree_id
            && post.sessions == pre.sessions.update(
            j,
            SessionView { last_attached_at: now, ..pre.sessions[j] },
        );
    assert(pre.sessions[j].worktree_id == worktree_id);
}

impl SessionManager {
    pub fn new(backend_kind: BackendKind) -> (r: SessionManager)
        ensures
            r.backend_kind == backend_kind,
    {
        SessionManager { backend_kind }
    }

    /// Create or reuse the session of a worktree and say how to reach it.
    ///
    /// `path_exists` is the filesystem's answer for the worktree's path: a
    /// gone path is `WorktreeStale` and must be reconciled before any
    /// session work. `alive` is the backend's answer whether the stored
    /// session (if any) is still running: a dead one is re-created under
    /// the identical stored name, and no duplicate row appears. `inside` is
    /// whether the calling process already sits inside a session of this
    /// backend.
    #[verifier::rlimit(100)]
    pub fn switch_to(
        &self,
        store: &mut Store,
        worktree_id: i64,
        path_exists: bool,
        alive: bool,
        inside: bool,
        now: &str,
    ) -> (r: Result<SwitchOutcome, Error>)
        requires
            old(store)@.wf(),
            old(store).next_session_id < i64::MAX,
        ensures
            final(store)@.wf(),
            r is Ok <==> (old(store)@.has_worktree_id(worktree_id as int) && path_exists),
            !old(store)@.has_worktree_id(worktree_id as int) ==> final(store)@ == old(store)@ && (
            r matches Err(Error::WorktreeNotFound { worktree_id: w }) && w == worktree_id),
            old(store)@.has_worktree_id(worktree_id as int) && !path_exists ==> final(store)@
                == old(store)@ && (r matches Err(Error::WorktreeStale { path }) && exists|i: int|
                0 <= i < old(store)@.worktrees.len() && #[trigger] old(store)@.worktrees[i].id
                    == worktree_id as int && path@ == old(store)@.worktrees[i].path),
            r is Ok ==> spec_switch_outcome(
                self.backend_kind,
                old(store)@,
                final(store)@,
                worktree_id as int,
                alive,
                inside,
                now@,
                r->Ok_0,
            ),
    {
        let ghost pre = store@;
        let worktree = match store.get_worktree(worktree_id) {
            Some(w) => w.clone(),
            None => {
                return Err(Error::WorktreeNotFound { worktree_id });
            },
        };
        let ghost wi = choose|i: int|
            0 <= i < pre.worktrees.len() && pre.worktrees[i] == worktree@;
        proof {
            assert(pre.worktrees[wi].id == worktree_id as int);
        }
        if !path_exists {
            return Err(Error::WorktreeStale { path: worktree.path.clone() });
        }

        let existing = match store.get_session_for_worktree(worktree_id) {
            Some(s) => Some(s.clone()),
            None => None,
        };
        let (session, create): (Session, Option<BackendRequest>) = match existing {
            Some(s) => {
                let ghost sj = choose|j: int|
                    0 <= j < pre.sessions.len() && pre.sessions[j] == s@;
                store.touch_session(s.id, now);
                proof {
                    let jt = choose|j: int|
                        0 <= j < pre.sessions.len() && #[trigger] pre.sessions[j].id == s@.id
                            && store@.sessions == pre.sessions.update(
                            j,
                            SessionView { last_attached_at: now@, ..pre.sessions[j] },
                        );
                    assert(jt == sj);
                }
                let mut touched = s.clone();
                touched.last_attached_at = now.to_owned();
                let create = if alive {
                    None
                } else {
                    Some(
                        BackendRequest {
                            name: s.session_name.clone(),
                            working_dir: worktree.path.clone(),
                        },
                    )
                };
                (touched, create)
            },
            None => {
                let project = match store.get_project(worktree.project_id) {
                    Some(p) => p.clone(),
                    None => {
                        proof {
                            assert(pre.has_project_id(pre.worktrees[wi].project_id));
                            assert(false);
                        }
                        return Err(Error::ProjectIdNotFound { id: worktree.project_id });
                    },
                };
                let name = generate_session_name(project.name.as_str(), worktree.branch.as_str());
                let created = store.create_session(
                    CreateSession {
                        worktree_id,
                        session_name: name.clone(),
                        backend: self.backend_kind.as_str().to_owned(),
                    },
                    now,
                );
                match created {
                    Ok(fresh) => {
                        let req = BackendRequest { name, working_dir: worktree.path.clone() };
                        (fresh, Some(req))
                    },
                    Err(_) => {
                        proof {
                            assert(false);
                        }
                        return Err(Error::WorktreeNotFound { worktree_id });
                    },
                }
            },
        };
        let ghost mid = store@;
        store.add_to_history(session.id, now);
        store.touch_worktree(worktree_id, now);
        proof {
            let it = choose|i: int|
                0 <= i < mid.worktrees.len() && #[trigger] mid.worktrees[i].id == worktree_id as int
                    && store@.worktrees == mid.worktrees.update(
                    i,
                    WorktreeView { last_accessed_at: now@, ..mid.worktrees[i] },
                );
            assert(mid.worktrees == pre.worktrees);
            assert(it == wi);
        }
        let action = if inside {
            SessionAction::SwitchClient { name: session.session_name.clone() }
        } else if self.backend_kind.is_editor() {
            SessionAction::OpenWorkspace { path: worktree.path.clone() }
        } else {
            SessionAction::Attach { name: session.session_name.clone() }
        };
        let outcome = SwitchOutcome { session, create, action };
        proof {
            let w = pre.worktrees[wi];
            if pre.has_session_for(worktree_id as int) {
                let sj = choose|j: int|
                    0 <= j < pre.sessions.len() && #[trigger] pre.sessions[j].worktree_id
                        == worktree_id as int;
                assert(outcome.session@ == SessionView {
                    last_attached_at: now@,
                    ..pre.sessions[sj]
                });
            } else {
                let pk = choose|k: int|
                    0 <= k < pre.projects.len() && #[trigger] pre.projects[k].id == w.project_id;
                assert(outcome.session@.session_name == spec_session_name(
                    pre.projects[pk].name,
                    w.branch,
                ));
            }
            assert(0 <= wi < pre.worktrees.len() && pre.worktrees[wi].id == worktree_id as int);
        }
        Ok(outcome)
    }

    /// The most recently activated session other than the current one, the
    /// target of "pop". Fails with `NoPreviousSession` when the history
    /// holds no such session.
    pub fn pop(&self, store: &Store, current: Option<&String>) -> (r: Result<Session, Error>)
        requires
            store@.wf(),
        ensures
            match r {
                Ok(s) => {
                    let cur = spec_current(current);
                    exists|i: int|
                        0 <= i < store@.history.len() && #[trigger] store@.history_admissible(
                            cur,
                            i,
                        ) && s@.id == store@.history[i].session_id && store@.sessions.contains(s@)
                            && (forall|j: int|
                            i < j < store@.history.len() ==> !store@.history_admissible(cur, j))
                            && (cur matches Some(c) ==> s@.session_name != c)
                },
                Err(e) => e is NoPreviousSession && (forall|i: int|
                    0 <= i < store@.history.len() ==> !store@.history_admissible(
                        spec_current(current),
                        i,
                    )),
            },
    {
        match store.get_previous_session(current) {
            Some(s) => Ok(s.clone()),
            None => Err(Error::NoPreviousSession),
        }
    }

    /// The session bound to a worktree, if the store holds one.
    pub fn get_for_worktree(&self, store: &Store, worktree_id: i64) -> (r: Option<Session>)
        ensures
            match r {
                Some(s) => s@.worktree_id == worktree_id as int && store@.sessions.contains(s@),
                None => !store@.has_session_for(worktree_id as int),
            },
    {
        match store.get_session_for_worktree(worktree_id) {
            Some(s) => Some(s.clone()),
            None => None,
        }
    }
}

} // verus!
