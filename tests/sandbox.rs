use mcp_fs::filesystem::{permissions_text, FileSystemManager, FsError};
use mcp_fs::paths::{is_absolute, is_within, make_absolute, split_leaf};

fn manager(roots: &[&str]) -> FileSystemManager {
    FileSystemManager::new(roots.iter().map(|r| r.to_string()).collect()).unwrap()
}

#[test]
fn traversal_out_of_root_is_denied() {
    let m = manager(&["/home/user/project"]);
    let r = m.validate_path("/home/user/project/../secrets", "/");
    assert!(matches!(r, Err(FsError::AccessDenied(_))));
}

#[test]
fn sibling_with_shared_prefix_is_denied() {
    let m = manager(&["/data"]);
    assert!(matches!(m.validate_path("/data-other/file", "/"), Err(FsError::AccessDenied(_))));
    assert_eq!(m.validate_path("/data/file", "/"), Ok("/data/file".to_string()));
}

#[test]
fn root_itself_and_nested_paths_are_allowed() {
    let m = manager(&["/data"]);
    assert_eq!(m.validate_path("/data", "/"), Ok("/data".to_string()));
    assert_eq!(m.validate_path("/data/a/./b/../c", "/"), Ok("/data/a/c".to_string()));
    assert_eq!(m.validate_path("//data///x", "/"), Ok("/data/x".to_string()));
}

#[test]
fn relative_paths_resolve_against_working_directory() {
    let m = manager(&["/data"]);
    assert_eq!(m.validate_path("logs/a.log", "/data"), Ok("/data/logs/a.log".to_string()));
    assert!(matches!(m.validate_path("../etc/passwd", "/data"), Err(FsError::AccessDenied(_))));
}

#[test]
fn empty_or_relative_allow_list_is_a_config_error() {
    assert!(matches!(FileSystemManager::new(vec![]), Err(FsError::Config(_))));
    assert!(matches!(FileSystemManager::new(vec!["data".to_string()]), Err(FsError::Config(_))));
}

#[test]
fn repeated_allowed_directories_are_kept_once() {
    let m = FileSystemManager::new(vec!["/a".to_string(), "/a/".to_string(), "/b".to_string(), "/a".to_string()]).unwrap();
    assert_eq!(m.list_allowed_directories(), vec!["/a".to_string(), "/b".to_string()]);
}

#[test]
fn allowed_directories_are_listed_cleaned_in_order() {
    let m = FileSystemManager::new(vec!["/b/".to_string(), "/a/./x".to_string()]).unwrap();
    assert_eq!(m.list_allowed_directories(), vec!["/b".to_string(), "/a/x".to_string()]);
}

#[test]
fn batch_keeps_order_and_isolates_failures() {
    let m = manager(&["/allowed"]);
    let r = m.validate_batch(&vec!["/allowed/a.txt".to_string(), "/denied/b.txt".to_string()], "/");
    assert_eq!(r.len(), 2);
    assert_eq!(r[0], Ok("/allowed/a.txt".to_string()));
    match &r[1] {
        Err(e) => assert!(e.message().starts_with("Access denied")),
        Ok(_) => panic!("denied path admitted"),
    }
}

#[test]
fn move_onto_existing_destination_is_refused() {
    let m = manager(&["/data"]);
    assert!(matches!(m.plan_move("/data/a", "/data/b", "/", true), Err(FsError::AlreadyExists(_))));
    assert_eq!(
        m.plan_move("/data/a", "/data/b", "/", false),
        Ok(("/data/a".to_string(), "/data/b".to_string()))
    );
    assert!(matches!(m.plan_move("/data/a", "/etc/b", "/", false), Err(FsError::AccessDenied(_))));
    assert!(matches!(m.plan_move("/etc/a", "/data/b", "/", true), Err(FsError::AccessDenied(_))));
}

#[test]
fn permissions_are_octal_without_padding() {
    assert_eq!(permissions_text(0o100644), "644");
    assert_eq!(permissions_text(0o40755), "755");
    assert_eq!(permissions_text(0o044), "44");
    assert_eq!(permissions_text(0), "0");
    assert_eq!(permissions_text(0o10), "10");
}

#[test]
fn error_messages_name_the_path() {
    assert_eq!(FsError::AlreadyExists("/d/b".to_string()).message(), "Destination already exists: /d/b");
}

#[test]
fn containment_is_component_wise() {
    assert!(is_within("/data", "/data"));
    assert!(is_within("/data", "/data/x"));
    assert!(!is_within("/data", "/data-other"));
    assert!(!is_within("/data", "/dat"));
    assert!(is_within("/", "/anything"));
}

#[test]
fn absolute_paths_are_kept_and_relative_ones_joined() {
    assert!(is_absolute("/x"));
    assert!(!is_absolute("x"));
    assert!(!is_absolute(""));
    assert_eq!(make_absolute("/x", "/w"), "/x");
    assert_eq!(make_absolute("x/y", "/w"), "/w/x/y");
}

#[test]
fn paths_split_at_last_separator() {
    assert_eq!(split_leaf("/data/new.txt"), Some(("/data".to_string(), "new.txt".to_string())));
    assert_eq!(split_leaf("/top"), Some(("".to_string(), "top".to_string())));
    assert_eq!(split_leaf("name"), None);
}
