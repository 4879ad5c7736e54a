use sesh::backend::BackendKind;
use sesh::error::Error;
use sesh::managers::history::HistoryManager;
use sesh::managers::session::SessionManager;
use sesh::managers::worktree::WorktreeManager;
use sesh::store::Store;

fn project_manager() -> sesh::managers::project::ProjectManager {
    sesh::managers::project::ProjectManager { projects_dir: "/projects".to_string() }
}

fn worktree_manager() -> WorktreeManager {
    WorktreeManager { worktrees_dir: "/worktrees".to_string() }
}

/// A store with one project and sessions on two worktrees; returns their
/// session names in activation order (main first, dev second).
fn two_sessions(store: &mut Store) -> (String, String) {
    let pm = project_manager();
    let wm = worktree_manager();
    let sm = SessionManager::new(BackendKind::Tmux);

    let plan = pm.clone_plan("https://example.com/org/repo", None, false).unwrap();
    let project = pm.register_clone(store, &plan, "main", "t0").unwrap();
    let main_wid = store.worktrees[0].id;
    let dev = wm.ensure_worktree(store, project.id, "dev", None, false, "t1").unwrap();

    let first = sm.switch_to(store, main_wid, true, false, false, "t2").unwrap();
    let second = sm.switch_to(store, dev.worktree.id, true, false, false, "t3").unwrap();
    (first.session.session_name, second.session.session_name)
}

#[test]
fn pop_with_no_history_fails() {
    let sm = SessionManager::new(BackendKind::Tmux);
    let store = Store::new();
    let err = sm.pop(&store, None);
    assert!(matches!(err, Err(Error::NoPreviousSession)));
}

#[test]
fn pop_returns_most_recent_other_session_and_again_swings_back() {
    let sm = SessionManager::new(BackendKind::Tmux);
    let mut store = Store::new();
    let (main_name, dev_name) = two_sessions(&mut store);

    // Current is the dev session: pop lands on the main session.
    let prev = sm.pop(&store, Some(&dev_name)).unwrap();
    assert_eq!(prev.session_name, main_name);

    // Immediately popping again from there swings back: the previous
    // becomes current, and the one before that is the dev session.
    let prev2 = sm.pop(&store, Some(&prev.session_name)).unwrap();
    assert_eq!(prev2.session_name, dev_name);
}

#[test]
fn pop_without_current_takes_latest_history_entry() {
    let sm = SessionManager::new(BackendKind::Tmux);
    let mut store = Store::new();
    let (_, dev_name) = two_sessions(&mut store);

    let prev = sm.pop(&store, None).unwrap();
    assert_eq!(prev.session_name, dev_name);
}

#[test]
fn pop_skips_history_of_deleted_sessions() {
    let sm = SessionManager::new(BackendKind::Tmux);
    let wm = worktree_manager();
    let mut store = Store::new();
    let (main_name, _) = two_sessions(&mut store);

    // Deleting the dev worktree removes its session; its history entries
    // stay behind but no longer resolve.
    let dev_wid = store.worktrees[1].id;
    wm.delete(&mut store, dev_wid).unwrap();

    let prev = sm.pop(&store, None).unwrap();
    assert_eq!(prev.session_name, main_name);
}

#[test]
fn history_manager_reads_and_appends() {
    let hm = HistoryManager::new();
    let mut store = Store::new();
    let (main_name, dev_name) = two_sessions(&mut store);

    let prev = hm.get_previous(&store, Some(&dev_name)).unwrap();
    assert_eq!(prev.session_name, main_name);

    // Appending another activation of the main session changes the answer
    // for a caller currently in the main session.
    let main_id = store
        .sessions
        .iter()
        .find(|s| s.session_name == main_name)
        .unwrap()
        .id;
    hm.add(&mut store, main_id, "t9");
    let prev = hm.get_previous(&store, Some(&main_name)).unwrap();
    assert_eq!(prev.session_name, dev_name);
}
