use vstd::prelude::*;

use crate::error::Error;
use crate::models::Session;
use crate::store::{spec_current, Store};

verus! {

/// Owns the append-only session-switch history and resolves "the previous
/// session".
pub struct HistoryManager;

impl HistoryManager {
    pub fn new() -> (r: HistoryManager) {
        HistoryManager
    }

    /// The most recently activated session other than the current one.
    /// Fails with `NoPreviousSession` when the history holds none.
    pub fn get_previous(&self, store: &Store, current: Option<&String>) -> (r: Result<
        Session,
        Error,
    >)
        requires
            store@.wf(),
        ensures
            match r {
                Ok(s) => {
                    let cur = spec_current(current);
                    exists|i: int|
                        0 <= i < store@.history.len() && #[trigger] store@.history_admissible(
                            cur,
                            i,
                        ) && s@.id == store@.history[i].session_id && store@.sessions.contains(s@)
                            && (forall|j: int|
                            i < j < store@.history.len() ==> !store@.history_admissible(cur, j))
                            && (cur matches Some(c) ==> s@.session_name != c)
                },
                Err(e) => e is NoPreviousSession && (forall|i: int|
                    0 <= i < store@.history.len() ==> !store@.history_admissible(
                        spec_current(current),
                        i,
                    )),
            },
    {
        match store.get_previous_session(current) {
            Some(s) => Ok(s.clone()),
            None => Err(Error::NoPreviousSession),
        }
    }

    /// Record one activation of a session.
    pub fn add(&self, store: &mut Store, session_id: i64, now: &str)
        requires
            old(store)@.wf(),
        ensures
            final(store)@.wf(),
            final(store)@.projects == old(store)@.projects,
            final(store)@.worktrees == old(store)@.worktrees,
            final(store)@.sessions == old(store)@.sessions,
            final(store)@.history == old(store)@.history.push(
                crate::models::HistoryView { session_id: session_id as int, accessed_at: now@ },
            ),
    {
        store.add_to_history(session_id, now);
    }
}

} // verus!
