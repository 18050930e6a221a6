use oav_lib::order::sort_strings;
use oav_lib::paths::{join_path_exec, path_starts_with, strip_prefix_exec, to_posix_path};

#[test]
fn path_joining_follows_push() {
    assert_eq!(join_path_exec("/tmp", "a/b"), "/tmp/a/b");
    assert_eq!(join_path_exec("/tmp/", "a"), "/tmp/a");
    assert_eq!(join_path_exec("/tmp", "/etc/x"), "/etc/x");
    assert_eq!(join_path_exec("", "a"), "a");
}

#[test]
fn path_prefixes_compare_components() {
    assert_eq!(strip_prefix_exec("/tmp/repo/a.yaml", "/tmp/repo").unwrap(), "a.yaml");
    assert!(strip_prefix_exec("/tmp/repository/a", "/tmp/repo").is_none());
    assert!(strip_prefix_exec("tmp/repo/a", "/tmp/repo").is_none());
    assert!(path_starts_with("/tmp/repo/.oav/x", "/tmp/repo/"));
    assert!(!path_starts_with("/etc", "/tmp"));
    assert_eq!(to_posix_path("a\\b\\c"), "a/b/c");
}

#[test]
fn strings_sort_by_code_point() {
    let v = vec!["b".to_string(), "B".into(), "a".into(), "ab".into(), "".into()];
    assert_eq!(sort_strings(&v), vec!["", "B", "a", "ab", "b"]);
}
