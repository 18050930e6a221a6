use std::path::Path;
use oav_lib::paths::{has_parent_dir_exec, path_starts_with, strip_prefix_exec};
use oav_lib::spec::extension;
use oav_lib::pipeline::commands::container_path;

#[test]
fn container_path_keeps_the_remainder_as_written() {
    assert_eq!(container_path("/t", "/t/a//b").unwrap(), "/work/a//b");
    assert_eq!(container_path("/t", "/t/a/./b").unwrap(), "/work/a/./b");
}

#[test]
fn container_path_trims_separators_and_dots_at_the_ends() {
    assert_eq!(container_path("/t/", "/t//a/").unwrap(), "/work/a");
    assert_eq!(container_path("/t", "/t/./a/.").unwrap(), "/work/a");
    assert_eq!(container_path("/t", "/t").unwrap(), "/work/");
}

#[test]
fn container_path_keeps_relative_paths_verbatim() {
    assert_eq!(container_path("/t", "./a//b").unwrap(), "/work/./a//b");
}

#[test]
fn strip_prefix_matches_components() {
    assert_eq!(strip_prefix_exec("/t/a", "/t").as_deref(), Some("a"));
    assert_eq!(strip_prefix_exec("/ta/b", "/t"), None);
    assert_eq!(strip_prefix_exec("./a/b", "."), Some("a/b".to_string()));
    assert_eq!(strip_prefix_exec("./a/b", "a"), None);
    assert_eq!(strip_prefix_exec("a/b", "./a"), None);
    assert_eq!(strip_prefix_exec("a//b/", "a"), Some("b".to_string()));
}

#[test]
fn strip_prefix_of_empty_base_keeps_root_and_leading_dot() {
    assert_eq!(strip_prefix_exec("/a/b/", ""), Some("/a/b".to_string()));
    assert_eq!(strip_prefix_exec("/", ""), Some("/".to_string()));
    assert_eq!(strip_prefix_exec("./", ""), Some(".".to_string()));
    assert_eq!(strip_prefix_exec("./a/.", ""), Some("./a".to_string()));
    assert_eq!(strip_prefix_exec("a/./", ""), Some("a".to_string()));
}

#[test]
fn path_starts_with_compares_components() {
    assert!(path_starts_with("/t/a", "/t/"));
    assert!(!path_starts_with("/t", "/t/a"));
    assert!(path_starts_with("x", ""));
}

#[test]
fn strip_prefix_agrees_with_std() {
    let paths = [
        "/t/a//b", "/t/a/./b", "/t//a/", "/t/./a/.", "/t", "/t/", "/", "//", "./a/b", "./a/.", "./",
        ".", "a/b", "a//b/", "a/./", "", "/t/../a", "/ta/b", "/t/a/b/..", "..", "../x", "a/.b",
        "/t/.a/", "./.", ".//a",
    ];
    let bases = ["/t", "/t/", "/", "", ".", "./", "a", "./a", "/t/a", "//t//", "/t/.", "a/"];
    for p in paths {
        for b in bases {
            let ours = strip_prefix_exec(p, b);
            let theirs = Path::new(p)
                .strip_prefix(b)
                .ok()
                .map(|r| r.to_string_lossy().into_owned());
            assert_eq!(ours, theirs, "strip_prefix({p:?}, {b:?})");
            assert_eq!(path_starts_with(p, b), Path::new(p).starts_with(b), "starts_with({p:?}, {b:?})");
        }
    }
}

#[test]
fn extension_and_parent_dir_agree_with_std() {
    let paths = [
        "a.yaml", "/t/a.b.json", "a/.", "./", "/", "..", "a/..", ".hidden", "x.", "/t/.oav/run.sh",
        "dir.d/", "a/./b.yml", "", "a/../b",
    ];
    for p in paths {
        let ours: Option<String> = extension(p).map(|e| e.into_iter().collect());
        let theirs = Path::new(p).extension().map(|e| e.to_string_lossy().into_owned());
        assert_eq!(ours, theirs, "extension({p:?})");
        let parent = Path::new(p).components().any(|c| matches!(c, std::path::Component::ParentDir));
        assert_eq!(has_parent_dir_exec(p), parent, "parent dir in {p:?}");
    }
}
