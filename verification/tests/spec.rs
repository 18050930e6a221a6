use oav_lib::spec::{
    choose_spec, is_json, is_openapi_document, is_spec_file, looks_like_openapi,
    discovered_specs, normalize_spec_path, openapi_in_keys, should_skip_entry, sorted_matches, spec_candidate_path,
    well_known_spec_names, SpecChoice, SpecPathError,
};

#[test]
fn looks_like_openapi_yaml_positive() {
    assert!(looks_like_openapi(
        "openapi: 3.0.3\ninfo:\n  title: Test",
        false
    ));
}

#[test]
fn looks_like_openapi_yaml_negative() {
    assert!(!looks_like_openapi("name: not a spec\nversion: 1.0", false));
}

#[test]
fn looks_like_openapi_json_positive() {
    assert!(looks_like_openapi(
        r#"{"openapi": "3.0.3", "info": {}}"#,
        true
    ));
}

#[test]
fn looks_like_openapi_json_negative() {
    assert!(!looks_like_openapi(r#"{"name": "not a spec"}"#, true));
}

#[test]
fn looks_like_openapi_json_value_not_key() {
    assert!(!looks_like_openapi(
        r#"{"type": "openapi", "name": "tool"}"#,
        true
    ));
}

#[test]
fn looks_like_openapi_only_reads_the_head() {
    let mut late = " ".repeat(512);
    late.push_str("openapi: 3.0.0");
    assert!(!looks_like_openapi(&late, false));
    let mut early = " ".repeat(500);
    early.push_str("openapi: 3.0.0");
    assert!(looks_like_openapi(&early, false));
}

#[test]
fn normalize_rejects_missing_file() {
    let result = normalize_spec_path("/tmp/project", "nonexistent.yaml", false);
    assert!(matches!(result, Err(SpecPathError::NotFound { .. })));
}

#[test]
fn normalize_rejects_blank_path() {
    let result = normalize_spec_path("/tmp/project", "   ", true);
    assert!(matches!(result, Err(SpecPathError::Blank)));
}

#[test]
fn normalize_resolves_relative_path() {
    assert_eq!(
        spec_candidate_path("/tmp/project", "api.yaml").unwrap(),
        "/tmp/project/api.yaml"
    );
    let path = normalize_spec_path("/tmp/project", "api.yaml", true).unwrap();
    assert_eq!(path, "api.yaml");
}

#[test]
fn normalize_rejects_file_outside_root() {
    assert!(matches!(
        normalize_spec_path("/tmp/project", "/etc/api.yaml", true),
        Err(SpecPathError::OutsideRoot)
    ));
    assert_eq!(
        normalize_spec_path("/tmp/project", "/tmp/project/apis/a.json", true).unwrap(),
        "apis/a.json"
    );
}

#[test]
fn spec_file_extensions() {
    assert!(is_spec_file("api/spec.yml"));
    assert!(is_spec_file("OPENAPI.YAML"));
    assert!(is_spec_file("a.Json"));
    assert!(!is_spec_file("readme.md"));
    assert!(!is_spec_file(".yaml"));
    assert!(!is_spec_file("dir.yaml/.."));
    assert!(is_json("x/y.JSON"));
    assert!(!is_json("x/y.yaml"));
}

#[test]
fn openapi_document_needs_top_level_key() {
    let yaml = "openapi: 3.0.0\ninfo:\n  title: Test\n  version: '1.0'\npaths: {}\n";
    assert!(is_openapi_document(yaml, yaml, false));
    let json = r#"{"openapi":"3.0.0","info":{"title":"Test","version":"1.0"},"paths":{}}"#;
    assert!(is_openapi_document(json, json, true));
    let nested = "x:\n  openapi: 3.0.0\n";
    assert!(!is_openapi_document(nested, nested, false));
    let broken = "openapi: [\n";
    assert!(!is_openapi_document(broken, broken, false));
    let config = "database:\n  host: localhost\n";
    assert!(!is_openapi_document(config, config, false));
}

#[test]
fn discovery_skips_tool_directories() {
    assert!(should_skip_entry(1, true, Some("node_modules")));
    assert!(should_skip_entry(3, true, Some(".git")));
    assert!(!should_skip_entry(0, true, Some("node_modules")));
    assert!(!should_skip_entry(1, false, Some("target")));
    assert!(!should_skip_entry(1, true, Some("api")));
    assert!(!should_skip_entry(1, true, None));
}

#[test]
fn discovery_orders_matches() {
    let found = vec![
        "b/spec.yaml".to_string(),
        "api/spec.yml".to_string(),
        "a.json".to_string(),
        "api/spec.yml".to_string(),
    ];
    assert_eq!(
        sorted_matches(&found),
        vec!["a.json", "api/spec.yml", "api/spec.yml", "b/spec.yaml"]
    );
    assert_eq!(well_known_spec_names(), vec!["openapi.yaml", "openapi.yml", "openapi.json"]);
}

#[test]
fn choosing_among_discovered_specs() {
    assert!(matches!(choose_spec(vec![], false), SpecChoice::NoneFound));
    match choose_spec(vec!["a.yaml".into()], true) {
        SpecChoice::Found(s) => assert_eq!(s, "a.yaml"),
        other => panic!("unexpected {other:?}"),
    }
    assert!(matches!(
        choose_spec(vec!["a".into(), "b".into()], true),
        SpecChoice::AmbiguousQuiet
    ));
    assert!(matches!(
        choose_spec(vec!["a".into(), "b".into()], false),
        SpecChoice::Ask(v) if v.len() == 2
    ));
}

#[test]
fn openapi_key_among_parsed_keys() {
    assert!(openapi_in_keys(&Some(vec![None, Some("openapi".to_string())])));
    assert!(!openapi_in_keys(&Some(vec![Some("swagger".to_string())])));
    assert!(!openapi_in_keys(&None));
}

#[test]
fn normalize_rejects_parent_traversal() {
    assert!(matches!(
        normalize_spec_path("/tmp/project", "../x.yaml", true),
        Err(SpecPathError::OutsideRoot)
    ));
    assert!(matches!(
        normalize_spec_path("/tmp/project", "apis/../../x.yaml", true),
        Err(SpecPathError::OutsideRoot)
    ));
    assert!(matches!(
        normalize_spec_path("/tmp/project", "apis/../x.yaml", true),
        Err(SpecPathError::OutsideRoot)
    ));
    assert_eq!(
        normalize_spec_path("/tmp/project", "apis/./x.yaml", true).unwrap(),
        "apis/./x.yaml"
    );
}

#[test]
fn discovered_specs_prefers_the_first_well_known_name() {
    let found = vec!["b/api.yaml".to_string(), "a/api.yaml".to_string()];
    assert_eq!(discovered_specs(&vec![false, true, true], &found), vec!["openapi.yml"]);
    assert_eq!(discovered_specs(&vec![true, false, false], &found), vec!["openapi.yaml"]);
    assert_eq!(
        discovered_specs(&vec![false, false, false], &found),
        vec!["a/api.yaml", "b/api.yaml"]
    );
}
