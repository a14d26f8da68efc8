use octopush::error::ErrorKind;
use octopush::project::{base_name_str, ensure_repo, parent_dir, resolve_repo_name, Project};

#[test]
fn resolves_root_name_from_nested_path() {
    // The marker sits in /home/user/proj; resolving from a path nested
    // several directories deeper yields the root directory's name.
    let marked = vec!["/home/user/proj".to_string()];
    let name = resolve_repo_name("/home/user/proj/src/util/deep", &marked);
    assert_eq!(name, Some("proj".to_string()));
}

#[test]
fn resolves_nearest_marked_ancestor() {
    // A nested repository wins over an enclosing one.
    let marked = vec!["/a".to_string(), "/a/b".to_string()];
    let name = resolve_repo_name("/a/b/c", &marked);
    assert_eq!(name, Some("b".to_string()));
}

#[test]
fn resolves_from_the_marked_directory_itself() {
    let marked = vec!["/srv/tool".to_string()];
    assert_eq!(
        resolve_repo_name("/srv/tool", &marked),
        Some("tool".to_string())
    );
}

#[test]
fn resolve_fails_without_marker_in_any_ancestor() {
    let marked = vec!["/somewhere/else".to_string()];
    assert_eq!(resolve_repo_name("/home/user/plain/dir", &marked), None);
    let no_marks: Vec<String> = vec![];
    assert_eq!(resolve_repo_name("/home/user", &no_marks), None);
}

#[test]
fn parent_dir_walks_to_the_root() {
    assert_eq!(parent_dir("/a/b/c"), Some("/a/b".to_string()));
    assert_eq!(parent_dir("/a"), Some("/".to_string()));
    assert_eq!(parent_dir("/"), None);
    assert_eq!(parent_dir("plain"), None);
}

#[test]
fn base_name_is_the_last_component() {
    assert_eq!(base_name_str("/home/user/proj"), "proj".to_string());
    assert_eq!(base_name_str("proj"), "proj".to_string());
    assert_eq!(base_name_str("/"), "".to_string());
}

#[test]
fn project_new_rejects_missing_path() {
    let err = Project::new("/definitely/not/an/existing/path".to_string()).unwrap_err();
    assert_eq!(err.kind(), ErrorKind::InvalidInput);
    assert_eq!(err.message(), "invalid path".to_string());
}

#[test]
fn ensure_repo_rejects_a_missing_directory() {
    let err = ensure_repo("/definitely/not/an/existing/path").unwrap_err();
    assert_eq!(err.kind(), ErrorKind::InvalidInput);
    assert_eq!(err.message(), "not a git repository".to_string());
}
