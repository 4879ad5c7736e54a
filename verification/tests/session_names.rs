use sesh::managers::project::ProjectManager;
use sha2::Digest;

#[test]
fn session_name_has_expected_shape() {
    // repo basename, branch slug, then four hex characters of the SHA-256
    // digest of "{project_name}:{branch}".
    let name = ProjectManager::generate_session_name("example.com/org/repo", "main");
    assert_eq!(name, "repo_main_f08f");
}

#[test]
fn session_name_matches_direct_hash_composition() {
    let digest = sha2::Sha256::digest("host/user/proj:dev".as_bytes());
    let suffix = hex::encode(&digest[..2]);
    let name = ProjectManager::generate_session_name("host/user/proj", "dev");
    assert_eq!(name, format!("proj_dev_{}", suffix));
    assert_eq!(name, "proj_dev_acb8");
}

#[test]
fn session_name_is_deterministic() {
    let a = ProjectManager::generate_session_name("example.com/org/repo", "main");
    let b = ProjectManager::generate_session_name("example.com/org/repo", "main");
    assert_eq!(a, b);
}

#[test]
fn session_name_slug_is_capped_and_slashes_become_dashes() {
    let name = ProjectManager::generate_session_name(
        "example.com/org/repo",
        "feature/one-two-three-four",
    );
    // 26 characters of branch collapse to a 20-character slug.
    assert_eq!(name, "repo_feature-one-two-thre_b051");
}

#[test]
fn different_branches_differ_in_suffix() {
    let a = ProjectManager::generate_session_name("example.com/org/repo", "main");
    let b = ProjectManager::generate_session_name("example.com/org/repo", "maim");
    assert_ne!(a, b);
}

#[test]
fn extract_repo_name_takes_last_segment() {
    assert_eq!(ProjectManager::extract_repo_name("example.com/org/repo"), "repo");
    assert_eq!(ProjectManager::extract_repo_name("repo"), "repo");
}

#[test]
fn parse_project_name_takes_last_three_segments() {
    assert_eq!(
        ProjectManager::parse_project_name("https://example.com/org/repo.git").unwrap(),
        "example.com/org/repo"
    );
    assert_eq!(
        ProjectManager::parse_project_name("https://example.com/org/repo").unwrap(),
        "example.com/org/repo"
    );
    assert_eq!(
        ProjectManager::parse_project_name("git@host/team/project.git").unwrap(),
        "git@host/team/project"
    );
}

#[test]
fn parse_project_name_rejects_short_urls() {
    let err = ProjectManager::parse_project_name("repo.git");
    assert!(matches!(err, Err(sesh::error::Error::InvalidUrl { .. })));
    let err = ProjectManager::parse_project_name("org/repo");
    assert!(matches!(err, Err(sesh::error::Error::InvalidUrl { .. })));
}
