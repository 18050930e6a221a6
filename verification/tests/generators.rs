use oav_lib::custom::{CustomGeneratorDef, GenerateBlock};
use oav_lib::generators::{
    all_client_names, all_server_names, builtin_client_generators, builtin_generators,
    builtin_generators_for_scope, builtin_server_generators, client_names, find_builtin,
    server_names,
};

#[test]
fn server_generator_count() {
    assert_eq!(builtin_server_generators().len(), 6);
}

#[test]
fn client_generator_count() {
    assert_eq!(builtin_client_generators().len(), 8);
}

#[test]
fn find_builtin_spring() {
    let def = find_builtin("spring", "server").unwrap();
    assert_eq!(def.name, "spring");
    assert!(def.config_yaml.contains("generatorName: spring"));
}

#[test]
fn find_builtin_typescript_axios() {
    let def = find_builtin("typescript-axios", "client").unwrap();
    assert_eq!(def.name, "typescript-axios");
    assert!(def.config_yaml.contains("generatorName: typescript-axios"));
}

#[test]
fn find_builtin_unknown_returns_none() {
    assert!(find_builtin("nonexistent", "server").is_none());
}

#[test]
fn find_builtin_wrong_scope_returns_none() {
    assert!(find_builtin("spring", "client").is_none());
}

#[test]
fn all_configs_contain_oav_output_dir() {
    for def in builtin_server_generators()
        .iter()
        .chain(builtin_client_generators().iter())
    {
        assert!(
            def.config_yaml.contains("outputDir: .oav/generated/"),
            "config for {} missing .oav/generated/ outputDir",
            def.name
        );
    }
}

#[test]
fn server_names_returns_all() {
    let names = server_names();
    assert_eq!(names.len(), 6);
    assert!(names.contains(&"spring"));
    assert!(names.contains(&"kotlin-spring"));
}

#[test]
fn client_names_returns_all() {
    let names = client_names();
    assert_eq!(names.len(), 8);
    assert!(names.contains(&"typescript-axios"));
    assert!(names.contains(&"java"));
}

#[test]
fn builtin_generators_yields_all_scopes() {
    assert_eq!(builtin_generators().iter().count(), 14);
}

fn custom_def(name: &str, scope: &str) -> CustomGeneratorDef {
    CustomGeneratorDef {
        name: name.to_string(),
        scope: scope.to_string(),
        generate: GenerateBlock {
            image: "img".to_string(),
            command: "cmd".to_string(),
        },
        compile: None,
    }
}

#[test]
fn all_server_names_includes_custom() {
    let custom = vec![
        custom_def("my-server", "server"),
        custom_def("my-client", "client"),
    ];
    let names = all_server_names(&custom);
    assert!(names.contains(&"spring".to_string()));
    assert!(names.contains(&"my-server".to_string()));
    assert!(!names.contains(&"my-client".to_string()));
}

#[test]
fn all_client_names_includes_custom() {
    let custom = vec![custom_def("my-client", "client")];
    let names = all_client_names(&custom);
    assert!(names.contains(&"java".to_string()));
    assert!(names.contains(&"my-client".to_string()));
}

#[test]
fn builtin_generators_lists_server_before_client() {
    let all = builtin_generators();
    assert_eq!(all[0].name, "spring");
    assert_eq!(all[5].name, "typescript-nestjs");
    assert_eq!(all[6].name, "java");
    assert!(all[..6].iter().all(|d| d.scope == "server"));
    assert!(all[6..].iter().all(|d| d.scope == "client"));
}

#[test]
fn config_yaml_is_exact_for_spring() {
    let def = find_builtin("spring", "server").unwrap();
    assert_eq!(
        def.config_yaml,
        "generatorName: spring\noutputDir: .oav/generated/server/spring\n"
    );
}

#[test]
fn unknown_scope_has_no_builtins() {
    assert!(builtin_generators_for_scope("both").is_empty());
    assert_eq!(builtin_generators_for_scope("client").len(), 8);
}

#[test]
fn custom_names_keep_order_per_scope() {
    let custom = vec![
        custom_def("b", "server"),
        custom_def("x", "client"),
        custom_def("a", "server"),
    ];
    let names = all_server_names(&custom);
    assert_eq!(&names[6..], &["b".to_string(), "a".to_string()]);
    assert_eq!(oav_lib::custom::client_names(&custom), vec!["x".to_string()]);
}
