use oav_lib::config::{
    insert_binding, insert_pair, lookup_exec, Config, Jobs, JobsError, Linter, Mode, StringOrVec,
    CONFIG_FILE,
};

#[test]
fn mode_and_linter_names() {
    assert_eq!(Mode::Server.as_str(), "server");
    assert_eq!(Mode::Client.as_str(), "client");
    assert_eq!(Mode::Both.as_str(), "both");
    assert_eq!(Linter::Spectral.as_str(), "spectral");
    assert_eq!(Linter::Redocly.as_str(), "redocly");
    assert_eq!(Linter::Off.as_str(), "none");
}

#[test]
fn jobs_resolve() {
    assert_eq!(Jobs::Fixed(3).resolve(Some(16)), 3);
    assert_eq!(Jobs::Auto.resolve(Some(16)), 4);
    assert_eq!(Jobs::Auto.resolve(Some(2)), 2);
    assert_eq!(Jobs::Auto.resolve(None), 1);
}

#[test]
fn jobs_values() {
    assert_eq!(Jobs::from_unsigned(0), Err(JobsError::NotPositive));
    assert_eq!(Jobs::from_unsigned(6), Ok(Jobs::Fixed(6)));
    assert_eq!(Jobs::from_signed(-2), Err(JobsError::NotPositive));
    assert_eq!(Jobs::from_signed(2), Ok(Jobs::Fixed(2)));
    assert_eq!(Jobs::from_text("AuTo"), Ok(Jobs::Auto));
    assert_eq!(Jobs::from_text("autos"), Err(JobsError::NotAuto));
    assert_eq!(Jobs::from_text("4"), Err(JobsError::NotAuto));
}

#[test]
fn keys_scalar_string_wraps_into_vec() {
    assert_eq!(StringOrVec::Single("j".into()).into_vec(), vec!["j"]);
    assert_eq!(
        StringOrVec::Multiple(vec!["q".into(), "C-c".into()]).into_vec(),
        vec!["q", "C-c"]
    );
    assert!(StringOrVec::Multiple(vec![]).into_vec().is_empty());
}

#[test]
fn default_config_values() {
    let cfg = Config::default();
    assert_eq!(CONFIG_FILE, ".oavc");
    assert!(cfg.spec.is_none());
    assert_eq!(cfg.mode, Mode::Server);
    assert!(cfg.lint && cfg.generate && cfg.compile);
    assert_eq!(cfg.generator_image, "openapitools/openapi-generator-cli:v7.17.0");
    assert_eq!(cfg.redocly_image, "redocly/cli:1.25.5");
    assert_eq!(cfg.linter, Linter::Spectral);
    assert_eq!(cfg.spectral_image, "stoplight/spectral:6");
    assert_eq!(cfg.spectral_fail_severity, "error");
    assert_eq!(cfg.docker_timeout, 300);
    assert_eq!(cfg.search_depth, 4);
    assert_eq!(cfg.jobs, Jobs::Auto);
    assert!(cfg.keys.is_empty());
    assert!(cfg.manage_gitignore);
}

#[test]
fn insert_pair_replaces_an_existing_key() {
    let mut table: Vec<(String, String)> = Vec::new();
    insert_pair(&mut table, "spring".to_string(), "a.yaml".to_string());
    insert_pair(&mut table, "go".to_string(), "b.yaml".to_string());
    insert_pair(&mut table, "spring".to_string(), "c.yaml".to_string());
    assert_eq!(table.len(), 2);
    assert_eq!(lookup_exec(&table, "spring").map(|s| s.as_str()), Some("c.yaml"));
    assert_eq!(lookup_exec(&table, "go").map(|s| s.as_str()), Some("b.yaml"));
    assert_eq!(lookup_exec(&table, "kotlin"), None);
}

#[test]
fn insert_binding_keeps_one_entry_per_action() {
    let mut table: Vec<(String, Vec<String>)> = Vec::new();
    insert_binding(&mut table, "quit".to_string(), vec!["q".to_string()]);
    insert_binding(&mut table, "quit".to_string(), vec!["x".to_string(), "esc".to_string()]);
    assert_eq!(table.len(), 1);
    assert_eq!(table[0].1, vec!["x".to_string(), "esc".to_string()]);
}
