use oav_lib::scaffold::{
    add_gitignore_entries, asset_action, ensure_workspace_gitignore, is_shell_script,
    remove_gitignore_entries, runtime_dirs, workspace_gitignore_entries, AssetAction, DOCKER_COMPOSE_FILE, GITIGNORE_HEADER, OAV_DIR,
};

#[test]
fn add_entries_creates_file_with_header() {
    let content = add_gitignore_entries("", &[".oav/"], Some(GITIGNORE_HEADER)).unwrap();
    assert!(content.contains(GITIGNORE_HEADER), "header missing");
    assert!(content.contains(".oav/"), "entry missing");
    let header_pos = content.find(GITIGNORE_HEADER).unwrap();
    let entry_pos = content.find(".oav/").unwrap();
    assert!(header_pos < entry_pos);
    assert_eq!(content, "# openapi-validator\n.oav/\n");
}

#[test]
fn add_entries_appends_with_blank_separator() {
    let content =
        add_gitignore_entries("node_modules/\n", &[".oav/"], Some(GITIGNORE_HEADER)).unwrap();
    assert!(content.starts_with("node_modules/\n"));
    assert!(content.contains("\n\n"), "expected blank separator");
    assert!(content.contains(GITIGNORE_HEADER));
    assert!(content.contains(".oav/"));
}

#[test]
fn add_entries_idempotent() {
    let first = add_gitignore_entries("", &[".oav/"], Some(GITIGNORE_HEADER)).unwrap();
    assert!(add_gitignore_entries(&first, &[".oav/"], Some(GITIGNORE_HEADER)).is_none());
    assert_eq!(first.matches(GITIGNORE_HEADER).count(), 1, "header duplicated");
    assert_eq!(first.matches(".oav/").count(), 1, "entry duplicated");
}

#[test]
fn add_entries_no_header() {
    let content = add_gitignore_entries("node_modules/\n", &[".oavc"], None).unwrap();
    assert!(content.contains("node_modules/"));
    assert!(content.contains(".oavc"));
    assert!(!content.contains(GITIGNORE_HEADER));
}

#[test]
fn add_entries_no_write_when_all_present() {
    assert!(add_gitignore_entries(".oav/\n", &[".oav/"], None).is_none());
    assert!(add_gitignore_entries("  .oav/  \r\n", &[".oav/"], None).is_none());
}

#[test]
fn add_entries_header_not_duplicated_when_already_present() {
    let content = add_gitignore_entries(
        &format!("{GITIGNORE_HEADER}\n"),
        &[".oav/"],
        Some(GITIGNORE_HEADER),
    )
    .unwrap();
    assert_eq!(content.matches(GITIGNORE_HEADER).count(), 1, "header duplicated");
    assert!(content.contains(".oav/"));
}

#[test]
fn add_entries_closes_an_open_last_line() {
    assert_eq!(
        add_gitignore_entries("target", &["a", "b"], None).unwrap(),
        "target\na\nb\n"
    );
    assert_eq!(
        add_gitignore_entries("target", &["a"], Some("# h")).unwrap(),
        "target\n\n# h\na\n"
    );
    assert_eq!(
        add_gitignore_entries("# h\ntarget", &["a"], Some("# h")).unwrap(),
        "# h\ntarget\na\n"
    );
}

#[test]
fn remove_entries_drops_matching_lines() {
    let content = remove_gitignore_entries("node_modules/\n.oav/\n.oavc\n", &[".oav/", ".oavc"]);
    assert!(!content.contains(".oav/"));
    assert!(!content.contains(".oavc"));
    assert!(content.contains("node_modules/"));
    assert!(content.ends_with('\n'));
}

#[test]
fn remove_entries_preserves_trailing_newline() {
    assert_eq!(
        remove_gitignore_entries("node_modules/\n.oav/\n", &[".oav/"]),
        "node_modules/\n"
    );
}

#[test]
fn remove_entries_of_everything_leaves_empty_text() {
    assert_eq!(remove_gitignore_entries(" .oav/ \r\n", &[".oav/"]), "");
    assert_eq!(remove_gitignore_entries("a\r\nb", &[]), "a\nb\n");
}

#[test]
fn ensure_workspace_gitignore_writes_oav_entry() {
    let content = ensure_workspace_gitignore("").unwrap();
    assert!(content.contains(GITIGNORE_HEADER));
    assert!(content.contains(".oav/"));
}

#[test]
fn ensure_workspace_gitignore_idempotent() {
    let content = ensure_workspace_gitignore("").unwrap();
    assert!(ensure_workspace_gitignore(&content).is_none());
    assert_eq!(content.matches(GITIGNORE_HEADER).count(), 1);
    assert_eq!(content.matches(".oav/").count(), 1);
}

#[test]
fn manage_gitignore_appends_oav_entry() {
    let content = ensure_workspace_gitignore("node_modules/\n").unwrap();
    assert!(content.contains(".oav/"), "workspace entry missing");
    assert!(content.contains("# openapi-validator"), "header missing");
}

#[test]
fn manage_gitignore_idempotent() {
    assert!(ensure_workspace_gitignore(".oav/\n").is_none());
}

#[test]
fn workspace_layout_constants() {
    assert_eq!(OAV_DIR, ".oav");
    assert_eq!(DOCKER_COMPOSE_FILE, ".oav/docker-compose.yaml");
    assert_eq!(workspace_gitignore_entries(), vec![".oav/"]);
    let dirs = runtime_dirs();
    assert_eq!(dirs.len(), 7);
    assert!(dirs.iter().all(|d| d.starts_with(".oav/")));
}

#[test]
fn manage_gitignore_creates_when_missing() {
    let content = ensure_workspace_gitignore("").unwrap();
    assert!(content.contains(".oav/"));
    assert!(content.contains("# openapi-validator"));
}

#[test]
fn remove_undoes_add_without_header() {
    let before = "node_modules/\ntarget/\n";
    let added = add_gitignore_entries(before, &[".oav/", "dist/"], None).unwrap();
    assert_eq!(added, "node_modules/\ntarget/\n.oav/\ndist/\n");
    assert_eq!(remove_gitignore_entries(&added, &[".oav/", "dist/"]), before);
    let added = add_gitignore_entries("", &[".oav/"], None).unwrap();
    assert_eq!(remove_gitignore_entries(&added, &[".oav/"]), "");
}

#[test]
fn asset_actions() {
    assert_eq!(asset_action(false, false), AssetAction::Write);
    assert_eq!(asset_action(true, true), AssetAction::Keep);
    assert_eq!(asset_action(true, false), AssetAction::Refuse);
}

#[test]
fn only_sh_files_are_scripts() {
    assert!(is_shell_script("/t/.oav/scripts/run.sh"));
    assert!(!is_shell_script("/t/.oav/scripts/run.SH"));
    assert!(!is_shell_script("/t/.oav/generators/server/spring.yaml"));
    assert!(!is_shell_script("/t/.oav/sh"));
}
