use sesh::backend::{BackendKind, EditorBackend, TmuxBackend};
use sesh::config::expand_tilde;
use sesh::picker::{FzfPicker, PickerItem, PickerOptions, SkimPicker};

#[test]
fn expand_tilde_uses_home_directory() {
    let home = "/home/someone".to_string();
    assert_eq!(expand_tilde("~/projects", Some(&home)), "/home/someone/projects");
    assert_eq!(expand_tilde("/absolute", Some(&home)), "/absolute");
    assert_eq!(expand_tilde("~/projects", None), "~/projects");
    assert_eq!(expand_tilde("~", Some(&home)), "~");
}

#[test]
fn backend_kind_round_trips_through_strings() {
    assert_eq!(BackendKind::from_str("tmux"), Some(BackendKind::Tmux));
    assert_eq!(BackendKind::from_str("code"), Some(BackendKind::Code));
    assert_eq!(BackendKind::from_str("cursor"), Some(BackendKind::Cursor));
    assert_eq!(BackendKind::from_str("emacs"), None);

    assert_eq!(BackendKind::Tmux.as_str(), "tmux");
    assert_eq!(BackendKind::Code.as_str(), "code");
    assert_eq!(BackendKind::Cursor.as_str(), "cursor");
}

#[test]
fn editor_backend_derives_its_kind() {
    let code = EditorBackend::new("code");
    assert_eq!(code.kind(), BackendKind::Code);
    assert_eq!(code.command, "code");

    let cursor = EditorBackend::new("cursor");
    assert_eq!(cursor.kind(), BackendKind::Cursor);

    // An unrecognized command is treated as the default editor kind.
    let other = EditorBackend::new("subl");
    assert_eq!(other.kind(), BackendKind::Code);

    let tmux = TmuxBackend::new();
    assert_eq!(tmux.kind(), BackendKind::Tmux);
}

#[test]
fn picker_identities() {
    assert_eq!(FzfPicker::new().name(), "fzf");
    assert_eq!(SkimPicker::new().name(), "skim");

    let item = PickerItem::new("repo (example.com/org/repo)".to_string(), "repo".to_string());
    assert_eq!(item.value, "repo");

    let opts = PickerOptions::default();
    assert!(opts.prompt.is_none());
    assert!(!opts.multi_select);
}
