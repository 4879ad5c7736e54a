use sesh::backend::BackendKind;
use sesh::error::Error;
use sesh::managers::project::{EntityStatus, ProjectFsObservation, ProjectManager};
use sesh::managers::session::{SessionAction, SessionManager};
use sesh::managers::worktree::{BranchObservation, BranchStatus, WorktreeManager};
use sesh::store::Store;

fn project_manager() -> ProjectManager {
    ProjectManager { projects_dir: "/projects".to_string() }
}

fn worktree_manager() -> WorktreeManager {
    WorktreeManager { worktrees_dir: "/worktrees".to_string() }
}

/// Clone a fixed repository into a fresh store and return its project id.
fn clone_example(store: &mut Store) -> i64 {
    let pm = project_manager();
    let plan = pm.clone_plan("https://example.com/org/repo", None, false).unwrap();
    let project = pm.register_clone(store, &plan, "main", "t0").unwrap();
    project.id
}

#[test]
fn clone_end_to_end_creates_project_and_primary_worktree() {
    let pm = project_manager();
    let mut store = Store::new();

    let plan = pm.clone_plan("https://example.com/org/repo", None, false).unwrap();
    assert_eq!(plan.name, "example.com/org/repo");
    assert_eq!(plan.display_name, "repo");
    assert_eq!(plan.remote_url, "https://example.com/org/repo");
    assert_eq!(plan.clone_path, "/projects/example.com/org/repo");

    let project = pm.register_clone(&mut store, &plan, "main", "t0").unwrap();
    assert_eq!(project.name, "example.com/org/repo");
    assert_eq!(project.display_name, "repo");
    assert_eq!(project.default_branch, "main");

    // The primary worktree came with the project, in one logical unit.
    assert_eq!(store.projects.len(), 1);
    assert_eq!(store.worktrees.len(), 1);
    let primary = &store.worktrees[0];
    assert_eq!(primary.project_id, project.id);
    assert_eq!(primary.branch, "main");
    assert_eq!(primary.path, "/projects/example.com/org/repo");
    assert!(primary.is_primary);
}

#[test]
fn reclone_to_occupied_path_fails_with_repository_exists() {
    let pm = project_manager();
    // The default path already exists on disk.
    let err = pm.clone_plan("https://example.com/org/repo", None, true);
    match err {
        Err(Error::RepositoryExists { path }) => {
            assert_eq!(path, "/projects/example.com/org/repo");
        }
        other => panic!("expected RepositoryExists, got {:?}", other),
    }
}

#[test]
fn ensure_worktree_is_idempotent() {
    let wm = worktree_manager();
    let mut store = Store::new();
    let pid = clone_example(&mut store);

    let first = wm.ensure_worktree(&mut store, pid, "dev", None, false, "t1").unwrap();
    assert_eq!(first.worktree.branch, "dev");
    assert!(!first.worktree.is_primary);
    assert_eq!(
        first.create_on_disk.as_deref(),
        Some("/worktrees/example.com/org/repo/dev")
    );
    let rows_after_first = store.worktrees.len();

    // A second call returns the same row and plans no filesystem mutation,
    // whatever the filesystem would say about the path now.
    let second = wm.ensure_worktree(&mut store, pid, "dev", None, true, "t2").unwrap();
    assert_eq!(second.worktree.id, first.worktree.id);
    assert!(second.create_on_disk.is_none());
    assert_eq!(store.worktrees.len(), rows_after_first);
}

#[test]
fn ensure_worktree_refuses_an_occupied_path() {
    let wm = worktree_manager();
    let mut store = Store::new();
    let pid = clone_example(&mut store);

    let err = wm.ensure_worktree(&mut store, pid, "dev", None, true, "t1");
    assert!(matches!(err, Err(Error::WorktreeExists { .. })));
    assert_eq!(store.worktrees.len(), 1);
}

#[test]
fn worktree_branch_slashes_become_dashes_in_default_path() {
    let wm = worktree_manager();
    let mut store = Store::new();
    let pid = clone_example(&mut store);

    let made = wm.ensure_worktree(&mut store, pid, "feature/x", None, false, "t1").unwrap();
    assert_eq!(made.worktree.path, "/worktrees/example.com/org/repo/feature-x");
}

#[test]
fn deleting_primary_worktree_always_fails() {
    let wm = worktree_manager();
    let mut store = Store::new();
    let pid = clone_example(&mut store);
    let primary_id = store.worktrees[0].id;
    assert_eq!(store.worktrees[0].project_id, pid);

    let err = wm.delete(&mut store, primary_id);
    assert!(matches!(err, Err(Error::GitError { .. })));
    // The row is still there.
    assert_eq!(store.worktrees.len(), 1);
}

#[test]
fn deleting_non_primary_worktree_removes_row_and_session() {
    let wm = worktree_manager();
    let sm = SessionManager::new(BackendKind::Tmux);
    let mut store = Store::new();
    let pid = clone_example(&mut store);

    let made = wm.ensure_worktree(&mut store, pid, "dev", None, false, "t1").unwrap();
    let wid = made.worktree.id;
    sm.switch_to(&mut store, wid, true, false, false, "t2").unwrap();
    assert_eq!(store.sessions.len(), 1);

    let removal = wm.delete(&mut store, wid).unwrap();
    assert_eq!(removal.worktree_path, "/worktrees/example.com/org/repo/dev");
    assert_eq!(removal.repo_path, "/projects/example.com/org/repo");
    assert_eq!(store.worktrees.len(), 1);
    assert_eq!(store.sessions.len(), 0);
}

#[test]
fn deleting_project_always_succeeds_and_cascades() {
    let pm = project_manager();
    let wm = worktree_manager();
    let sm = SessionManager::new(BackendKind::Tmux);
    let mut store = Store::new();
    let pid = clone_example(&mut store);

    let made = wm.ensure_worktree(&mut store, pid, "dev", None, false, "t1").unwrap();
    sm.switch_to(&mut store, made.worktree.id, true, false, false, "t2").unwrap();
    assert_eq!(store.worktrees.len(), 2);
    assert_eq!(store.sessions.len(), 1);

    pm.delete(&mut store, pid).unwrap();
    assert_eq!(store.projects.len(), 0);
    assert_eq!(store.worktrees.len(), 0);
    assert_eq!(store.sessions.len(), 0);
}

#[test]
fn validate_branch_resolves_the_three_statuses() {
    let wm = worktree_manager();

    // Absent both locally and remotely.
    let s = wm.validate_branch(&BranchObservation {
        local_exists: false,
        upstream: None,
        remote_exists: None,
    });
    assert!(matches!(s, BranchStatus::NotFound));

    // Local with a resolving upstream.
    let s = wm.validate_branch(&BranchObservation {
        local_exists: true,
        upstream: Some("origin/main".to_string()),
        remote_exists: Some(true),
    });
    assert!(matches!(s, BranchStatus::RemoteTracked));

    // Local without an upstream.
    let s = wm.validate_branch(&BranchObservation {
        local_exists: true,
        upstream: None,
        remote_exists: None,
    });
    assert!(matches!(s, BranchStatus::LocalOnly { warning: None }));

    // Local whose upstream no longer resolves.
    let s = wm.validate_branch(&BranchObservation {
        local_exists: true,
        upstream: Some("origin/dev".to_string()),
        remote_exists: Some(false),
    });
    match s {
        BranchStatus::LocalOnly { warning: Some(w) } => {
            assert_eq!(w, "Remote branch was deleted");
        }
        other => panic!("expected LocalOnly with warning, got {:?}", other),
    }

    // Local whose upstream could not be probed.
    let s = wm.validate_branch(&BranchObservation {
        local_exists: true,
        upstream: Some("origin/dev".to_string()),
        remote_exists: None,
    });
    match s {
        BranchStatus::LocalOnly { warning: Some(w) } => {
            assert_eq!(w, "Could not verify remote (network issue?)");
        }
        other => panic!("expected LocalOnly with warning, got {:?}", other),
    }
}

#[test]
fn switch_branch_never_creates_branches() {
    let wm = worktree_manager();
    let mut store = Store::new();
    let pid = clone_example(&mut store);

    let obs = BranchObservation { local_exists: false, upstream: None, remote_exists: None };
    let err = wm.switch_branch(&mut store, pid, "ghost", None, &obs, false, "t1");
    match err {
        Err(Error::BranchNotFound { branch }) => assert_eq!(branch, "ghost"),
        other => panic!("expected BranchNotFound, got {:?}", other),
    }
    assert_eq!(store.worktrees.len(), 1);
}

#[test]
fn switch_branch_proceeds_for_local_only_branches() {
    let wm = worktree_manager();
    let mut store = Store::new();
    let pid = clone_example(&mut store);

    let obs = BranchObservation {
        local_exists: true,
        upstream: Some("origin/dev".to_string()),
        remote_exists: Some(false),
    };
    let made = wm.switch_branch(&mut store, pid, "dev", None, &obs, false, "t1").unwrap();
    assert_eq!(made.worktree.branch, "dev");
    assert_eq!(store.worktrees.len(), 2);
}

#[test]
fn project_validate_reports_stale_and_corrupted() {
    let pm = project_manager();
    let mut store = Store::new();
    let pid = clone_example(&mut store);

    let s = pm
        .validate(&store, pid, &ProjectFsObservation {
            clone_path_exists: false,
            git_dir_exists: false,
            remote_url: None,
        })
        .unwrap();
    assert_eq!(s, EntityStatus::Stale);

    let s = pm
        .validate(&store, pid, &ProjectFsObservation {
            clone_path_exists: true,
            git_dir_exists: false,
            remote_url: None,
        })
        .unwrap();
    assert_eq!(s, EntityStatus::Corrupted);

    // A different repository sits at the recorded path.
    let s = pm
        .validate(&store, pid, &ProjectFsObservation {
            clone_path_exists: true,
            git_dir_exists: true,
            remote_url: Some("https://example.com/other/repo".to_string()),
        })
        .unwrap();
    assert_eq!(s, EntityStatus::Corrupted);

    let s = pm
        .validate(&store, pid, &ProjectFsObservation {
            clone_path_exists: true,
            git_dir_exists: true,
            remote_url: Some("https://example.com/org/repo".to_string()),
        })
        .unwrap();
    assert_eq!(s, EntityStatus::Valid);
}

#[test]
fn register_clone_rejects_taken_names() {
    let pm = project_manager();
    let mut store = Store::new();
    clone_example(&mut store);

    let plan = pm
        .clone_plan("https://example.com/org/repo", Some("/elsewhere".to_string()), false)
        .unwrap();
    let err = pm.register_clone(&mut store, &plan, "main", "t9");
    assert!(matches!(err, Err(Error::StoreFailure { .. })));
    assert_eq!(store.projects.len(), 1);
}

#[test]
fn list_projects_is_ordered_by_name() {
    let pm = project_manager();
    let mut store = Store::new();

    // Registered out of name order.
    for url in [
        "https://example.com/org/zeta",
        "https://example.com/org/alpha",
        "https://example.com/org/midway",
    ] {
        let plan = pm.clone_plan(url, None, false).unwrap();
        pm.register_clone(&mut store, &plan, "main", "t0").unwrap();
    }

    let names: Vec<String> = pm.list(&store).into_iter().map(|p| p.name).collect();
    assert_eq!(
        names,
        vec![
            "example.com/org/alpha".to_string(),
            "example.com/org/midway".to_string(),
            "example.com/org/zeta".to_string(),
        ]
    );
}

#[test]
fn list_worktrees_is_ordered_by_branch() {
    let wm = worktree_manager();
    let mut store = Store::new();
    let pid = clone_example(&mut store);

    // The primary worktree is on "main"; add branches out of order.
    for branch in ["zz-last", "aa-first", "nn-middle"] {
        wm.ensure_worktree(&mut store, pid, branch, None, false, "t1").unwrap();
    }

    let branches: Vec<String> =
        wm.list(&store, pid).into_iter().map(|w| w.branch).collect();
    assert_eq!(
        branches,
        vec![
            "aa-first".to_string(),
            "main".to_string(),
            "nn-middle".to_string(),
            "zz-last".to_string(),
        ]
    );
}

#[test]
fn lookups_by_missing_ids_fail() {
    let pm = project_manager();
    let wm = worktree_manager();
    let mut store = Store::new();
    let pid = clone_example(&mut store);

    let err = pm.get(&store, pid + 10);
    assert!(matches!(err, Err(Error::ProjectIdNotFound { id }) if id == pid + 10));
    let err = pm.delete(&mut store, pid + 10);
    assert!(matches!(err, Err(Error::ProjectIdNotFound { .. })));
    assert_eq!(store.projects.len(), 1);

    let err = wm.get(&store, 42);
    assert!(matches!(err, Err(Error::WorktreeNotFound { worktree_id: 42 })));
    let err = pm.get_by_name(&store, "no.such/org/repo");
    assert!(matches!(err, Err(Error::ProjectNotFound { .. })));

    let found = pm.get(&store, pid).unwrap();
    assert_eq!(found.id, pid);
}

#[test]
fn find_project_by_name_matches_flexibly() {
    let pm = project_manager();
    let mut store = Store::new();
    clone_example(&mut store);

    // Exact canonical name.
    let p = store.find_project_by_name("example.com/org/repo").unwrap();
    assert_eq!(p.name, "example.com/org/repo");

    // Display name.
    let p = store.find_project_by_name("repo").unwrap();
    assert_eq!(p.name, "example.com/org/repo");

    // No match at all.
    let err = store.find_project_by_name("absent");
    assert!(matches!(err, Err(Error::ProjectNotFound { .. })));

    // Two projects whose names end in the same "/{term}" are ambiguous.
    let plan = pm
        .clone_plan("https://example.org/team/repo", Some("/p2".to_string()), false)
        .unwrap();
    pm.register_clone(&mut store, &plan, "main", "t3").unwrap();
    let err = store.find_project_by_name("repo");
    match err {
        Err(Error::AmbiguousProjectName { matches, .. }) => {
            assert_eq!(matches.len(), 2);
        }
        other => panic!("expected AmbiguousProjectName, got {:?}", other),
    }
}

#[test]
fn switch_to_missing_or_stale_worktrees_fails() {
    let sm = SessionManager::new(BackendKind::Tmux);
    let mut store = Store::new();
    let pid = clone_example(&mut store);
    let wid = store.worktrees[0].id;
    assert_eq!(store.worktrees[0].project_id, pid);

    let err = sm.switch_to(&mut store, wid + 100, true, false, false, "t1");
    assert!(matches!(err, Err(Error::WorktreeNotFound { .. })));

    // The worktree's directory is gone: stale, to be reconciled first.
    let err = sm.switch_to(&mut store, wid, false, false, false, "t1");
    match err {
        Err(Error::WorktreeStale { path }) => {
            assert_eq!(path, "/projects/example.com/org/repo");
        }
        other => panic!("expected WorktreeStale, got {:?}", other),
    }
    assert_eq!(store.sessions.len(), 0);
}

#[test]
fn switch_to_creates_session_then_reuses_it() {
    let sm = SessionManager::new(BackendKind::Tmux);
    let mut store = Store::new();
    clone_example(&mut store);
    let wid = store.worktrees[0].id;

    // No session row: one is created under the generated name.
    let first = sm.switch_to(&mut store, wid, true, false, false, "t1").unwrap();
    assert_eq!(store.sessions.len(), 1);
    assert_eq!(first.session.session_name, "repo_main_f08f");
    let created = first.create.expect("a fresh session must be created on the backend");
    assert_eq!(created.name, "repo_main_f08f");
    assert_eq!(created.working_dir, "/projects/example.com/org/repo");
    assert!(matches!(first.action, SessionAction::Attach { .. }));

    // Row present and the backend reports it alive: reused as-is.
    let second = sm.switch_to(&mut store, wid, true, true, false, "t2").unwrap();
    assert_eq!(store.sessions.len(), 1);
    assert_eq!(second.session.id, first.session.id);
    assert!(second.create.is_none());
}

#[test]
fn switch_to_recreates_dead_session_under_same_name() {
    let sm = SessionManager::new(BackendKind::Tmux);
    let mut store = Store::new();
    clone_example(&mut store);
    let wid = store.worktrees[0].id;

    let first = sm.switch_to(&mut store, wid, true, false, false, "t1").unwrap();
    let stored_name = first.session.session_name.clone();

    // The backend session was killed out of band: it is re-created under
    // the identical stored name, and no duplicate row appears.
    let again = sm.switch_to(&mut store, wid, true, false, false, "t2").unwrap();
    let recreated = again.create.expect("a dead session must be re-created");
    assert_eq!(recreated.name, stored_name);
    assert_eq!(again.session.id, first.session.id);
    assert_eq!(store.sessions.len(), 1);
}

#[test]
fn switch_to_dispatches_on_position_and_backend() {
    let mut store = Store::new();
    clone_example(&mut store);
    let wid = store.worktrees[0].id;

    // Inside a session: a non-destructive switch.
    let tmux = SessionManager::new(BackendKind::Tmux);
    let o = tmux.switch_to(&mut store, wid, true, false, true, "t1").unwrap();
    assert!(matches!(o.action, SessionAction::SwitchClient { .. }));

    // Outside, editor backend: open the workspace directory.
    let mut store2 = Store::new();
    clone_example(&mut store2);
    let wid2 = store2.worktrees[0].id;
    let code = SessionManager::new(BackendKind::Code);
    let o = code.switch_to(&mut store2, wid2, true, false, false, "t1").unwrap();
    match o.action {
        SessionAction::OpenWorkspace { path } => {
            assert_eq!(path, "/projects/example.com/org/repo");
        }
        other => panic!("expected OpenWorkspace, got {:?}", other),
    }
}

#[test]
fn switch_to_records_history_and_touches_timestamps() {
    let sm = SessionManager::new(BackendKind::Tmux);
    let mut store = Store::new();
    clone_example(&mut store);
    let wid = store.worktrees[0].id;

    sm.switch_to(&mut store, wid, true, false, false, "t1").unwrap();
    sm.switch_to(&mut store, wid, true, true, false, "t2").unwrap();
    assert_eq!(store.history.len(), 2);
    assert_eq!(store.worktrees[0].last_accessed_at, "t2");
    assert_eq!(store.sessions[0].last_attached_at, "t2");
}
