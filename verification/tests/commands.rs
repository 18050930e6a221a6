use oav_lib::config::{Config, Mode};
use oav_lib::custom::{CompileBlock, CustomGeneratorDef, GenerateBlock};
use oav_lib::docker::user_args;
use oav_lib::paths::join_path_exec;
use oav_lib::pipeline::commands::{
    build_generator_list, builtin_compile_command, builtin_config_files,
    builtin_generate_command, builtin_generate_from_config_command, compile_service_name,
    container_path, custom_compile_command, custom_compile_step, custom_generate_command,
    custom_generate_step, generate_command_text, redocly_command, resolve_config_path,
    spectral_command, CommandError,
};

fn test_config() -> Config {
    Config {
        spectral_image: "stoplight/spectral:6".into(),
        spectral_ruleset: "https://example.com/.spectral.yml".into(),
        spectral_fail_severity: "error".into(),
        redocly_image: "redocly/cli:1.25.5".into(),
        generator_image: "openapitools/openapi-generator-cli:v7.17.0".into(),
        docker_timeout: 120,
        mode: Mode::Both,
        server_generators: vec!["spring".into()],
        client_generators: vec!["typescript-axios".into()],
        ..Config::default()
    }
}

fn user() -> Vec<String> {
    user_args(1000, 1000)
}

fn custom_def(name: &str, scope: &str) -> CustomGeneratorDef {
    CustomGeneratorDef {
        name: name.into(),
        scope: scope.into(),
        generate: GenerateBlock {
            image: "my-image:latest".into(),
            command: "gen --spec {spec} --output /work/.oav/generated/server/my-gen".into(),
        },
        compile: Some(CompileBlock {
            image: "build-image:latest".into(),
            command: "npm run build".into(),
        }),
    }
}

#[test]
fn nested_spec_paths_are_root_relative() {
    let root = "/tmp/repo";
    let spec = join_path_exec(root, "apis/petstore/openapi.yaml");
    assert_eq!(
        container_path(root, &spec).unwrap(),
        "/work/apis/petstore/openapi.yaml"
    );
}

#[test]
fn spectral_command_uses_nested_spec_path() {
    let cfg = test_config();
    let cmd = spectral_command(&cfg, "/tmp/repo", "/tmp/repo/apis/spec.yaml", &user()).unwrap();
    assert!(cmd.cmd.args.contains(&"/work/apis/spec.yaml".into()));
}

#[test]
fn redocly_command_sets_workdir() {
    let cfg = test_config();
    let cmd = redocly_command(&cfg, "/tmp", "/tmp/spec.yaml", &user()).unwrap();
    let w_pos = cmd.cmd.args.iter().position(|a| a == "-w").unwrap();
    assert_eq!(cmd.cmd.args[w_pos + 1], "/work");
}

#[test]
fn generate_commands_include_user_args() {
    let cfg = test_config();
    let u = user();
    let cmd = builtin_generate_command(&cfg, "/tmp", "/tmp/spec.yaml", "spring", "server", None, &u)
        .unwrap();
    assert!(cmd.cmd.args.contains(&"--user".into()) || u.is_empty());
}

#[test]
fn builtin_generate_from_config_builds_log_and_args() {
    let cfg = test_config();
    let cmd = builtin_generate_from_config_command(
        &cfg,
        "/tmp",
        "/tmp/spec.yaml",
        "spring",
        "server",
        "/tmp/.oav/generators/server/spring.yaml",
        &user(),
    )
    .unwrap();
    assert!(cmd.cmd.args.contains(&"-c".into()));
    assert!(cmd
        .cmd
        .args
        .contains(&"/work/.oav/generators/server/spring.yaml".into()));
    assert_eq!(cmd.log_path, "/tmp/.oav/reports/generate/server/spring.log");
}

#[test]
fn custom_generate_interpolates_nested_spec() {
    let cfg = test_config();
    let def = custom_def("my-gen", "server");
    let cmd = custom_generate_command(&cfg, "/tmp/repo", "/tmp/repo/apis/spec.yaml", &def, &user())
        .unwrap();
    assert!(cmd.cmd.args.iter().any(|a| a == "/work/apis/spec.yaml"));
    assert!(!cmd.cmd.args.iter().any(|a| a.contains("{spec}")));
}

#[test]
fn compile_commands_omit_user_args() {
    let cfg = test_config();
    let builtin = builtin_compile_command(&cfg, "/tmp", "spring", "server").unwrap();
    let def = custom_def("my-gen", "server");
    let custom = custom_compile_command(&cfg, "/tmp", &def, def.compile.as_ref().unwrap()).unwrap();
    assert!(!builtin.cmd.args.contains(&"--user".into()));
    assert!(!custom.cmd.args.contains(&"--user".into()));
}

#[test]
fn compile_service_names_match_scope() {
    assert_eq!(compile_service_name("spring", "server"), "build-spring");
    assert_eq!(
        compile_service_name("typescript-axios", "client"),
        "build-client-typescript-axios"
    );
}

#[test]
fn build_generator_list_empty_defaults_to_builtins() {
    let mut cfg = test_config();
    cfg.server_generators.clear();
    cfg.client_generators.clear();
    let pairs = build_generator_list(&cfg, &[]);
    assert_eq!(pairs.len(), 14);
}

#[test]
fn resolve_config_path_builtin_and_override() {
    let mut cfg = test_config();
    assert_eq!(
        resolve_config_path(&cfg, "/tmp", "spring", "server")
            .unwrap()
            .as_deref(),
        Some("/work/.oav/configs/server/spring.yaml")
    );
    cfg.generator_overrides
        .push(("spring".into(), ".oav/custom/spring.yaml".into()));
    assert_eq!(
        resolve_config_path(&cfg, "/tmp", "spring", "server")
            .unwrap()
            .as_deref(),
        Some("/work/.oav/custom/spring.yaml")
    );
}

#[test]
fn write_builtin_configs_creates_files() {
    let cfg = test_config();
    let files = builtin_config_files(&cfg, "/tmp", &vec![("spring".into(), "server".into())]);
    assert_eq!(files.len(), 1);
    assert_eq!(files[0].dir, "/tmp/.oav/configs/server");
    assert_eq!(files[0].path, "/tmp/.oav/configs/server/spring.yaml");
    assert!(files[0].contents.contains("generatorName: spring"));
}

#[test]
fn config_files_skip_overrides_and_unknown_generators() {
    let mut cfg = test_config();
    cfg.generator_overrides
        .push(("spring".into(), "my/spring.yaml".into()));
    let gens = vec![
        ("spring".to_string(), "server".to_string()),
        ("nope".to_string(), "server".to_string()),
        ("go".to_string(), "client".to_string()),
    ];
    let files = builtin_config_files(&cfg, "/tmp", &gens);
    assert_eq!(files.len(), 1);
    assert_eq!(files[0].path, "/tmp/.oav/configs/client/go.yaml");
}

#[test]
fn container_path_rejects_outside_and_parent() {
    assert!(matches!(
        container_path("/tmp/repo", "/etc/passwd"),
        Err(CommandError::OutsideRepository { .. })
    ));
    assert!(matches!(
        container_path("/tmp/repo", "../secret.yaml"),
        Err(CommandError::ParentTraversal { .. })
    ));
    assert_eq!(container_path("/tmp/repo", "a\\b.yaml").unwrap(), "/work/a/b.yaml");
}

#[test]
fn spectral_command_exact_arguments() {
    let cfg = test_config();
    let cmd = spectral_command(&cfg, "/tmp", "spec.yaml", &vec![]).unwrap();
    let expected: Vec<String> = [
        "run", "--rm", "-v", "/tmp:/work", "stoplight/spectral:6", "lint", "/work/spec.yaml",
        "--ruleset", "https://example.com/.spectral.yml", "--fail-severity", "error", "-f",
        "stylish",
    ]
    .iter()
    .map(|s| s.to_string())
    .collect();
    assert_eq!(cmd.cmd.args, expected);
    assert_eq!(cmd.cmd.timeout_secs, 120);
    assert_eq!(cmd.log_path, "/tmp/.oav/reports/lint/spectral.log");
    assert_eq!(
        cmd.command_line,
        "$ docker run --rm -v /tmp:/work stoplight/spectral:6 lint /work/spec.yaml --ruleset https://example.com/.spectral.yml --fail-severity error -f stylish"
    );
}

#[test]
fn builtin_generate_with_config_path_appends_c() {
    let cfg = test_config();
    let cmd = builtin_generate_command(
        &cfg,
        "/tmp",
        "/tmp/spec.yaml",
        "spring",
        "server",
        Some("/work/.oav/configs/server/spring.yaml"),
        &vec![],
    )
    .unwrap();
    let n = cmd.cmd.args.len();
    assert_eq!(cmd.cmd.args[n - 2], "-c");
    assert_eq!(cmd.cmd.args[n - 3], "/work/.oav/generated/server/spring");
    assert_eq!(cmd.log_path, "/tmp/.oav/reports/generate/server/spring.log");
}

#[test]
fn compile_command_uses_compose_file() {
    let cfg = test_config();
    let cmd = builtin_compile_command(&cfg, "/tmp", "go", "client").unwrap();
    assert_eq!(
        cmd.cmd.args,
        vec![
            "compose",
            "-f",
            "/tmp/.oav/docker-compose.yaml",
            "--project-directory",
            "/tmp/.oav",
            "run",
            "--rm",
            "build-client-go"
        ]
    );
    assert_eq!(cmd.log_path, "/tmp/.oav/reports/compile/client/go.log");
}

#[test]
fn custom_commands_report_unbalanced_quotes() {
    let cfg = test_config();
    let mut def = custom_def("bad", "server");
    def.generate.command = "gen 'oops".into();
    assert!(matches!(
        custom_generate_command(&cfg, "/tmp", "/tmp/spec.yaml", &def, &vec![]),
        Err(CommandError::UnparsableGenerateCommand { .. })
    ));
    let compile = CompileBlock {
        image: "i".into(),
        command: "make \"x".into(),
    };
    assert!(matches!(
        custom_compile_command(&cfg, "/tmp", &def, &compile),
        Err(CommandError::UnparsableCompileCommand { .. })
    ));
}

#[test]
fn custom_compile_runs_in_generated_dir() {
    let cfg = test_config();
    let def = custom_def("my-gen", "server");
    let cmd = custom_compile_command(&cfg, "/tmp", &def, def.compile.as_ref().unwrap()).unwrap();
    assert_eq!(
        cmd.cmd.args,
        vec![
            "run",
            "--rm",
            "-v",
            "/tmp:/work",
            "-w",
            "/work/.oav/generated/server/my-gen",
            "build-image:latest",
            "npm",
            "run",
            "build"
        ]
    );
}

#[test]
fn resolve_config_path_rejects_escaping_override() {
    let mut cfg = test_config();
    cfg.generator_overrides
        .push(("spring".into(), "/etc/spring.yaml".into()));
    assert!(matches!(
        resolve_config_path(&cfg, "/tmp", "spring", "server"),
        Err(CommandError::ConfigOutsideRepository { .. })
    ));
    assert_eq!(
        resolve_config_path(&cfg, "/tmp", "unknown", "server").unwrap(),
        None
    );
}

#[test]
fn build_generator_list_orders_and_uses_custom() {
    let mut cfg = test_config();
    assert_eq!(
        build_generator_list(&cfg, &[]),
        vec![
            ("spring".to_string(), "server".to_string()),
            ("typescript-axios".to_string(), "client".to_string())
        ]
    );
    cfg.mode = Mode::Client;
    cfg.client_generators.clear();
    let custom = vec![custom_def("mine", "client"), custom_def("other", "server")];
    let pairs = build_generator_list(&cfg, &custom);
    assert_eq!(pairs.len(), 9);
    assert_eq!(pairs[8], ("mine".to_string(), "client".to_string()));
}

#[test]
fn generate_command_text_replaces_every_placeholder() {
    let mut def = custom_def("my-gen", "server");
    def.generate.command = "gen {spec} --also {spec}".into();
    assert_eq!(
        generate_command_text(&def, "/work/a.yaml"),
        "gen /work/a.yaml --also /work/a.yaml"
    );
}

#[test]
fn custom_generate_step_uses_the_given_words() {
    let cfg = test_config();
    let def = custom_def("my-gen", "server");
    let words = vec!["gen".to_string(), "a b".to_string()];
    let step = custom_generate_step(&cfg, "/r", &def, Some(words), &user()).unwrap();
    assert_eq!(
        step.cmd.args,
        vec!["run", "--rm", "-v", "/r:/work", "--user", "1000:1000", "my-image:latest", "gen", "a b"]
    );
    assert_eq!(step.log_path, "/r/.oav/reports/generate/server/my-gen.log");
    assert!(matches!(
        custom_generate_step(&cfg, "/r", &def, None, &user()),
        Err(CommandError::UnparsableGenerateCommand { name }) if name == "my-gen"
    ));
}

#[test]
fn custom_compile_step_uses_the_given_words() {
    let cfg = test_config();
    let def = custom_def("my-gen", "client");
    let compile = def.compile.clone().unwrap();
    let step = custom_compile_step(&cfg, "/r", &def, &compile, Some(vec!["make".to_string()])).unwrap();
    assert_eq!(
        step.cmd.args,
        vec!["run", "--rm", "-v", "/r:/work", "-w", "/work/.oav/generated/client/my-gen", "build-image:latest", "make"]
    );
    assert!(matches!(
        custom_compile_step(&cfg, "/r", &def, &compile, None),
        Err(CommandError::UnparsableCompileCommand { name }) if name == "my-gen"
    ));
}

#[test]
fn unterminated_quote_in_custom_command_is_refused() {
    let cfg = test_config();
    let mut def = custom_def("my-gen", "server");
    def.generate.command = "gen 'oops {spec}".into();
    assert!(matches!(
        custom_generate_command(&cfg, "/r", "spec.yaml", &def, &user()),
        Err(CommandError::UnparsableGenerateCommand { .. })
    ));
}

#[test]
fn config_files_are_written_exactly_for_shipped_resolutions() {
    let mut cfg = test_config();
    cfg.generator_overrides
        .push(("spring".into(), ".oav/configs/server/spring.yaml".into()));
    let gens = vec![
        ("spring".to_string(), "server".to_string()),
        ("go-server".to_string(), "server".to_string()),
        ("nope".to_string(), "client".to_string()),
    ];
    let files = builtin_config_files(&cfg, "/tmp", &gens);
    // Only go-server resolves to its shipped config through the built-in
    // branch; spring's override gets no file even though it names the
    // same place.
    assert_eq!(
        resolve_config_path(&cfg, "/tmp", "go-server", "server").unwrap().as_deref(),
        Some("/work/.oav/configs/server/go-server.yaml")
    );
    assert_eq!(files.len(), 1);
    assert_eq!(files[0].path, "/tmp/.oav/configs/server/go-server.yaml");
    assert_eq!(resolve_config_path(&cfg, "/tmp", "nope", "client").unwrap(), None);
}
