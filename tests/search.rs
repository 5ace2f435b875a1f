use mcp_fs::filesystem::FileSystemManager;
use mcp_fs::search::{base_name, below, contains_folded, name_matches, SearchWalk};

#[test]
fn matching_ignores_case() {
    assert!(name_matches("access.log", "log"));
    assert!(name_matches("LOGFILE.txt", "log"));
    assert!(name_matches("x", ""));
    assert!(!name_matches("readme.md", "log"));
}

#[test]
fn substring_test_is_exact() {
    assert!(contains_folded("abcabd", "abd"));
    assert!(!contains_folded("ab", "abc"));
    assert!(contains_folded("", ""));
}

#[test]
fn base_name_is_last_component() {
    assert_eq!(base_name("/data/logs/access.log"), "access.log");
    assert_eq!(base_name("plain"), "plain");
    assert_eq!(base_name("/"), "");
}

#[test]
fn walk_reports_matches_and_skips_escaping_entries() {
    let m = FileSystemManager::new(vec!["/data".to_string(), "/other".to_string()]).unwrap();
    let mut w = SearchWalk::start(&m, "/data", "log", "/").unwrap();
    assert_eq!(w.next_dir(), Some("/data".to_string()));
    w.on_entry(&m, "/data", "/data/access.log", "/", false);
    w.on_entry(&m, "/data", "/data/LOGFILE.txt", "/", false);
    w.on_entry(&m, "/data", "/data/readme.md", "/", false);
    // a link inside /data that resolves outside the sandbox
    w.on_entry(&m, "/data", "/etc/logrotate.d", "/", true);
    // a link inside /data that resolves into another allowed root
    w.on_entry(&m, "/data", "/other/log.txt", "/", false);
    w.on_entry(&m, "/data", "/data/sub", "/", true);
    assert_eq!(w.next_dir(), Some("/data/sub".to_string()));
    w.on_entry(&m, "/data/sub", "/data/sub/app.LOG", "/", false);
    // a link back up the tree is not walked again
    w.on_entry(&m, "/data/sub", "/data", "/", true);
    assert_eq!(w.next_dir(), None);
    assert_eq!(
        w.into_results(),
        vec!["/data/access.log".to_string(), "/data/LOGFILE.txt".to_string(), "/data/sub/app.LOG".to_string()]
    );
}

#[test]
fn strictly_below_is_component_wise() {
    assert!(below("/data", "/data/x"));
    assert!(!below("/data", "/data"));
    assert!(!below("/data", "/data-x"));
}

#[test]
fn walk_outside_sandbox_does_not_start() {
    let m = FileSystemManager::new(vec!["/data".to_string()]).unwrap();
    assert!(SearchWalk::start(&m, "/etc", "x", "/").is_err());
}
