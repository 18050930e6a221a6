//! Docker steps of the pipeline: lint, generate and compile commands.
use vstd::prelude::*;
use crate::config::{lookup, lookup_exec, Config, Mode};
use crate::custom::{names_for_scope, names_in_scope, CompileBlock, CustomGeneratorDef};
use crate::docker::ContainerCommand;
use crate::generators::{builtin_generators_for_scope, builtin_names, find_builtin, generator_config, is_builtin_def, table_matches};
use crate::paths::{lemma_strip_joined, plain_relative, has_parent_dir, has_parent_dir_exec, is_absolute, join_path, join_path_exec, path_starts_with, path_under, posix, strip_prefix, strip_prefix_exec, to_posix_path};
use crate::shell::{join_words, shell_join, shell_split, split_words};
use crate::text::{chars_of, extend_owned, owned, push_owned, push_str, replace_all, replace_chars, str_eq, string_of};

verus! {

/// A docker invocation ready to run, with its log file and the command line
/// echoed at the top of that log.
#[derive(Debug, Clone)]
pub struct DockerStep {
    pub cmd: ContainerCommand,
    pub log_path: String,
    pub command_line: String,
}

/// Why a step could not be built.
#[derive(Debug, Clone)]
pub enum CommandError {
    /// An absolute path does not lie under the repository root.
    OutsideRepository { path: String, root: String },
    /// A path relative to the root climbs out of it with `..`.
    ParentTraversal { path: String },
    /// A configured generator config path resolves outside the repository.
    ConfigOutsideRepository { path: String },
    /// A custom generate command has an unterminated quote.
    UnparsableGenerateCommand { name: String },
    /// A custom compile command has an unterminated quote.
    UnparsableCompileCommand { name: String },
}

// ---------------------------------------------------------------------------
// Paths inside the container
// ---------------------------------------------------------------------------

/// The path relative to the root that `path` names: the remainder after the
/// root for an absolute path, the path itself otherwise.
pub open spec fn container_rel(root: Seq<char>, path: Seq<char>) -> Option<Seq<char>> {
    if is_absolute(path) {
        strip_prefix(path, root)
    } else {
        Some(path)
    }
}

/// `path` can be mounted: it lies under the root and does not climb out.
pub open spec fn container_path_ok(root: Seq<char>, path: Seq<char>) -> bool {
    container_rel(root, path) matches Some(rel) && !has_parent_dir(rel)
}

/// Where `path` appears inside a container that mounts `root` on `/work`.
pub open spec fn container_view(root: Seq<char>, path: Seq<char>) -> Seq<char> {
    "/work/"@ + posix(container_rel(root, path)->0)
}

/// `e` is the error that mounting `path` gives.
pub open spec fn container_error(e: CommandError, root: Seq<char>, path: Seq<char>) -> bool {
    match container_rel(root, path) {
        None => e matches CommandError::OutsideRepository { path: p, root: r } && p@ == path && r@
            == root,
        Some(rel) => e matches CommandError::ParentTraversal { path: p } && p@ == rel,
    }
}

/// Refuses a relative path that climbs out of the root with `..`.
pub fn ensure_safe_relative(path: &str) -> (res: Result<(), CommandError>)
    ensures
        match res {
            Ok(()) => !has_parent_dir(path@),
            Err(e) => has_parent_dir(path@) && (e matches CommandError::ParentTraversal { path: p } && p@ == path@),
        },
{
    if has_parent_dir_exec(path) {
        return Err(CommandError::ParentTraversal { path: owned(path) });
    }
    Ok(())
}

/// The path of `path` inside a container that mounts `root` on `/work`.
pub fn container_path(root: &str, path: &str) -> (res: Result<String, CommandError>)
    ensures
        match res {
            Ok(s) => container_path_ok(root@, path@) && s@ == container_view(root@, path@),
            Err(e) => !container_path_ok(root@, path@) && container_error(e, root@, path@),
        },
{
    let cs = chars_of(path);
    let rel: String;
    if cs.len() > 0 && cs[0] == '/' {
        match strip_prefix_exec(path, root) {
            Some(r) => {
                rel = r;
            },
            None => {
                return Err(CommandError::OutsideRepository { path: owned(path), root: owned(root) });
            },
        }
    } else {
        rel = owned(path);
    }
    match ensure_safe_relative(rel.as_str()) {
        Ok(()) => {},
        Err(e) => return Err(e),
    }
    let mut out = owned("/work/");
    let p = to_posix_path(rel.as_str());
    push_str(&mut out, p.as_str());
    Ok(out)
}

/// A plainly written relative path joined onto an absolute root mounts at
/// `/work/` followed by that path as written (with `/` for `\\`).
pub proof fn law_container_path_of_nested_path(root: Seq<char>, rel: Seq<char>)
    requires
        is_absolute(root),
        plain_relative(rel),
        !has_parent_dir(rel),
    ensures
        container_path_ok(root, join_path(root, rel)),
        container_view(root, join_path(root, rel)) == "/work/"@ + posix(rel),
{
    lemma_strip_joined(root, rel);
}

// ---------------------------------------------------------------------------
// Steps
// ---------------------------------------------------------------------------

/// The command line echoed for docker arguments.
pub open spec fn command_line_of(args: Seq<Seq<char>>) -> Seq<char> {
    "$ docker "@ + shell_join(args)
}

/// `step` runs `docker args` for at most `timeout` seconds, logging to `log`.
pub open spec fn step_is(step: DockerStep, timeout: u64, log: Seq<char>, args: Seq<Seq<char>>) -> bool {
    &&& step.cmd.args.deep_view() == args
    &&& step.cmd.timeout_secs == timeout
    &&& step.log_path@ == log
    &&& step.command_line@ == command_line_of(args)
}

/// The time a step may run, in seconds.
fn timeout(cfg: &Config) -> (t: u64)
    ensures
        t == cfg.docker_timeout,
{
    cfg.docker_timeout
}

/// The command line echoed for docker arguments.
fn command_line(args: &Vec<String>) -> (line: String)
    ensures
        line@ == command_line_of(args.deep_view()),
{
    let joined = join_words(args);
    let mut line = owned("$ docker ");
    push_str(&mut line, joined.as_str());
    line
}

fn step(cfg: &Config, log_path: String, args: Vec<String>) -> (s: DockerStep)
    ensures
        step_is(s, cfg.docker_timeout, log_path@, args.deep_view()),
{
    let line = command_line(&args);
    DockerStep { cmd: ContainerCommand { args, timeout_secs: timeout(cfg) }, log_path, command_line: line }
}

/// `-v root:/work`, the mount every step but compile uses.
pub open spec fn mount(root: Seq<char>) -> Seq<char> {
    root + ":/work"@
}

fn mount_arg(root: &str) -> (s: String)
    ensures
        s@ == mount(root@),
{
    let mut s = owned(root);
    push_str(&mut s, ":/work");
    s
}

/// `root/rel` as a string.
fn under_root(root: &str, rel: String) -> (s: String)
    ensures
        s@ == join_path(root@, rel@),
{
    join_path_exec(root, rel.as_str())
}

/// Arguments of the Spectral lint step.
pub open spec fn spectral_args(cfg: Config, root: Seq<char>, spec: Seq<char>, user: Seq<Seq<char>>) -> Seq<Seq<char>> {
    seq!["run"@, "--rm"@, "-v"@, mount(root)] + user + seq![
        cfg.spectral_image@,
        "lint"@,
        spec,
        "--ruleset"@,
        cfg.spectral_ruleset@,
        "--fail-severity"@,
        cfg.spectral_fail_severity@,
        "-f"@,
        "stylish"@,
    ]
}

/// The Spectral lint step. `user_args` is the `--user` mapping of the
/// invoking user (empty where there is none).
pub fn spectral_command(cfg: &Config, root: &str, spec_path: &str, user_args: &Vec<String>) -> (res: Result<DockerStep, CommandError>)
    ensures
        match res {
            Ok(s) => container_path_ok(root@, spec_path@) && step_is(
                s,
                cfg.docker_timeout,
                join_path(root@, ".oav/reports/lint/spectral.log"@),
                spectral_args(*cfg, root@, container_view(root@, spec_path@), user_args.deep_view()),
            ),
            Err(e) => !container_path_ok(root@, spec_path@) && container_error(e, root@, spec_path@),
        },
{
    let spec = match container_path(root, spec_path) {
        Ok(s) => s,
        Err(e) => return Err(e),
    };
    let mut args: Vec<String> = Vec::new();
    push_owned(&mut args, "run");
    push_owned(&mut args, "--rm");
    push_owned(&mut args, "-v");
    let m = mount_arg(root);
    push_owned(&mut args, m.as_str());
    extend_owned(&mut args, user_args);
    push_owned(&mut args, cfg.spectral_image.as_str());
    push_owned(&mut args, "lint");
    push_owned(&mut args, spec.as_str());
    push_owned(&mut args, "--ruleset");
    push_owned(&mut args, cfg.spectral_ruleset.as_str());
    push_owned(&mut args, "--fail-severity");
    push_owned(&mut args, cfg.spectral_fail_severity.as_str());
    push_owned(&mut args, "-f");
    push_owned(&mut args, "stylish");
    assert(args.deep_view() =~= spectral_args(*cfg, root@, spec@, user_args.deep_view()));
    let log = under_root(root, owned(".oav/reports/lint/spectral.log"));
    Ok(step(cfg, log, args))
}

/// Arguments of the Redocly lint step.
pub open spec fn redocly_args(cfg: Config, root: Seq<char>, spec: Seq<char>, user: Seq<Seq<char>>) -> Seq<Seq<char>> {
    seq!["run"@, "--rm"@, "-v"@, mount(root)] + user + seq![
        "-w"@,
        "/work"@,
        cfg.redocly_image@,
        "lint"@,
        spec,
        "--format"@,
        "stylish"@,
    ]
}

/// The Redocly lint step.
pub fn redocly_command(cfg: &Config, root: &str, spec_path: &str, user_args: &Vec<String>) -> (res: Result<DockerStep, CommandError>)
    ensures
        match res {
            Ok(s) => container_path_ok(root@, spec_path@) && step_is(
                s,
                cfg.docker_timeout,
                join_path(root@, ".oav/reports/lint/redocly.log"@),
                redocly_args(*cfg, root@, container_view(root@, spec_path@), user_args.deep_view()),
            ),
            Err(e) => !container_path_ok(root@, spec_path@) && container_error(e, root@, spec_path@),
        },
{
    let spec = match container_path(root, spec_path) {
        Ok(s) => s,
        Err(e) => return Err(e),
    };
    let mut args: Vec<String> = Vec::new();
    push_owned(&mut args, "run");
    push_owned(&mut args, "--rm");
    push_owned(&mut args, "-v");
    let m = mount_arg(root);
    push_owned(&mut args, m.as_str());
    extend_owned(&mut args, user_args);
    push_owned(&mut args, "-w");
    push_owned(&mut args, "/work");
    push_owned(&mut args, cfg.redocly_image.as_str());
    push_owned(&mut args, "lint");
    push_owned(&mut args, spec.as_str());
    push_owned(&mut args, "--format");
    push_owned(&mut args, "stylish");
    assert(args.deep_view() =~= redocly_args(*cfg, root@, spec@, user_args.deep_view()));
    let log = under_root(root, owned(".oav/reports/lint/redocly.log"));
    Ok(step(cfg, log, args))
}

/// `prefix + scope + "/" + generator + suffix`.
pub open spec fn scoped(prefix: Seq<char>, scope: Seq<char>, generator: Seq<char>, suffix: Seq<char>) -> Seq<char> {
    prefix + scope + "/"@ + generator + suffix
}

fn scoped_exec(prefix: &str, scope: &str, generator: &str, suffix: &str) -> (s: String)
    ensures
        s@ == scoped(prefix@, scope@, generator@, suffix@),
{
    let mut s = owned(prefix);
    push_str(&mut s, scope);
    push_str(&mut s, "/");
    push_str(&mut s, generator);
    push_str(&mut s, suffix);
    s
}

/// Arguments of a built-in generate step.
pub open spec fn generate_args(
    cfg: Config,
    root: Seq<char>,
    spec: Seq<char>,
    generator: Seq<char>,
    scope: Seq<char>,
    config_path: Option<Seq<char>>,
    user: Seq<Seq<char>>,
) -> Seq<Seq<char>> {
    seq!["run"@, "--rm"@, "-v"@, mount(root)] + user + seq![
        cfg.generator_image@,
        "generate"@,
        "-i"@,
        spec,
        "-g"@,
        generator,
        "-o"@,
        scoped("/work/.oav/generated/"@, scope, generator, ""@),
    ] + match config_path {
        Some(p) => seq!["-c"@, p],
        None => Seq::empty(),
    }
}

/// A built-in generator run with `-g`, and with `-c` when a config path is
/// given.
pub fn builtin_generate_command(
    cfg: &Config,
    root: &str,
    spec_path: &str,
    generator: &str,
    scope: &str,
    config_path: Option<&str>,
    user_args: &Vec<String>,
) -> (res: Result<DockerStep, CommandError>)
    ensures
        match res {
            Ok(s) => container_path_ok(root@, spec_path@) && step_is(
                s,
                cfg.docker_timeout,
                join_path(root@, scoped(".oav/reports/generate/"@, scope@, generator@, ".log"@)),
                generate_args(
                    *cfg,
                    root@,
                    container_view(root@, spec_path@),
                    generator@,
                    scope@,
                    match config_path {
                        Some(p) => Some(p@),
                        None => None,
                    },
                    user_args.deep_view(),
                ),
            ),
            Err(e) => !container_path_ok(root@, spec_path@) && container_error(e, root@, spec_path@),
        },
{
    let spec = match container_path(root, spec_path) {
        Ok(s) => s,
        Err(e) => return Err(e),
    };
    let output_dir = scoped_exec("/work/.oav/generated/", scope, generator, "");
    let mut args: Vec<String> = Vec::new();
    push_owned(&mut args, "run");
    push_owned(&mut args, "--rm");
    push_owned(&mut args, "-v");
    let m = mount_arg(root);
    push_owned(&mut args, m.as_str());
    extend_owned(&mut args, user_args);
    push_owned(&mut args, cfg.generator_image.as_str());
    push_owned(&mut args, "generate");
    push_owned(&mut args, "-i");
    push_owned(&mut args, spec.as_str());
    push_owned(&mut args, "-g");
    push_owned(&mut args, generator);
    push_owned(&mut args, "-o");
    push_owned(&mut args, output_dir.as_str());
    match config_path {
        Some(p) => {
            push_owned(&mut args, "-c");
            push_owned(&mut args, p);
        },
        None => {},
    }
    assert(args.deep_view() =~= generate_args(
        *cfg,
        root@,
        spec@,
        generator@,
        scope@,
        match config_path {
            Some(p) => Some(p@),
            None => None,
        },
        user_args.deep_view(),
    ));
    let log = under_root(root, scoped_exec(".oav/reports/generate/", scope, generator, ".log"));
    Ok(step(cfg, log, args))
}

/// Arguments of a built-in generate step driven by a config file.
pub open spec fn generate_from_config_args(
    cfg: Config,
    root: Seq<char>,
    spec: Seq<char>,
    config: Seq<char>,
    user: Seq<Seq<char>>,
) -> Seq<Seq<char>> {
    seq!["run"@, "--rm"@] + user + seq![
        "-v"@,
        mount(root),
        "-w"@,
        "/work/.oav"@,
        cfg.generator_image@,
        "generate"@,
        "-i"@,
        spec,
        "-c"@,
        config,
    ]
}

/// A built-in generator run from a config file, in `/work/.oav`. The spec
/// path is checked first, then the config path.
pub fn builtin_generate_from_config_command(
    cfg: &Config,
    root: &str,
    spec_path: &str,
    generator: &str,
    scope: &str,
    config_path: &str,
    user_args: &Vec<String>,
) -> (res: Result<DockerStep, CommandError>)
    ensures
        match res {
            Ok(s) => container_path_ok(root@, spec_path@) && container_path_ok(root@, config_path@)
                && step_is(
                s,
                cfg.docker_timeout,
                join_path(root@, scoped(".oav/reports/generate/"@, scope@, generator@, ".log"@)),
                generate_from_config_args(
                    *cfg,
                    root@,
                    container_view(root@, spec_path@),
                    container_view(root@, config_path@),
                    user_args.deep_view(),
                ),
            ),
            Err(e) => if !container_path_ok(root@, spec_path@) {
                container_error(e, root@, spec_path@)
            } else {
                !container_path_ok(root@, config_path@) && container_error(e, root@, config_path@)
            },
        },
{
    let spec = match container_path(root, spec_path) {
        Ok(s) => s,
        Err(e) => return Err(e),
    };
    let config = match container_path(root, config_path) {
        Ok(s) => s,
        Err(e) => return Err(e),
    };
    let mut args: Vec<String> = Vec::new();
    push_owned(&mut args, "run");
    push_owned(&mut args, "--rm");
    extend_owned(&mut args, user_args);
    push_owned(&mut args, "-v");
    let m = mount_arg(root);
    push_owned(&mut args, m.as_str());
    push_owned(&mut args, "-w");
    push_owned(&mut args, "/work/.oav");
    push_owned(&mut args, cfg.generator_image.as_str());
    push_owned(&mut args, "generate");
    push_owned(&mut args, "-i");
    push_owned(&mut args, spec.as_str());
    push_owned(&mut args, "-c");
    push_owned(&mut args, config.as_str());
    assert(args.deep_view() =~= generate_from_config_args(*cfg, root@, spec@, config@, user_args.deep_view()));
    let log = under_root(root, scoped_exec(".oav/reports/generate/", scope, generator, ".log"));
    Ok(step(cfg, log, args))
}

/// The compose service that compiles a generator's output.
pub open spec fn service_name(generator: Seq<char>, scope: Seq<char>) -> Seq<char> {
    if scope == "server"@ {
        "build-"@ + generator
    } else {
        "build-client-"@ + generator
    }
}

/// The compose service that compiles a generator's output: `build-NAME`
/// for server generators, `build-client-NAME` for any other scope.
pub fn compile_service_name(generator: &str, scope: &str) -> (res: String)
    ensures
        res@ == service_name(generator@, scope@),
{
    let mut s = if str_eq(scope, "server") {
        owned("build-")
    } else {
        owned("build-client-")
    };
    push_str(&mut s, generator);
    s
}

/// Arguments of a built-in compile step.
pub open spec fn compile_args(root: Seq<char>, generator: Seq<char>, scope: Seq<char>) -> Seq<Seq<char>> {
    seq![
        "compose"@,
        "-f"@,
        join_path(root, ".oav/docker-compose.yaml"@),
        "--project-directory"@,
        join_path(root, ".oav"@),
        "run"@,
        "--rm"@,
        service_name(generator, scope),
    ]
}

/// A built-in compile step: a service of the workspace's compose file.
/// It runs without the user mapping, and it cannot fail.
pub fn builtin_compile_command(cfg: &Config, root: &str, generator: &str, scope: &str) -> (res: Result<DockerStep, CommandError>)
    ensures
        res matches Ok(s) && step_is(
            s,
            cfg.docker_timeout,
            join_path(root@, scoped(".oav/reports/compile/"@, scope@, generator@, ".log"@)),
            compile_args(root@, generator@, scope@),
        ),
{
    let service = compile_service_name(generator, scope);
    let compose_file = join_path_exec(root, ".oav/docker-compose.yaml");
    let project_dir = join_path_exec(root, ".oav");
    let mut args: Vec<String> = Vec::new();
    push_owned(&mut args, "compose");
    push_owned(&mut args, "-f");
    push_owned(&mut args, compose_file.as_str());
    push_owned(&mut args, "--project-directory");
    push_owned(&mut args, project_dir.as_str());
    push_owned(&mut args, "run");
    push_owned(&mut args, "--rm");
    push_owned(&mut args, service.as_str());
    assert(args.deep_view() =~= compile_args(root@, generator@, scope@));
    let log = under_root(root, scoped_exec(".oav/reports/compile/", scope, generator, ".log"));
    Ok(step(cfg, log, args))
}

/// Built-in compile steps run without mapping the invoking user.
pub proof fn law_compile_steps_omit_user_mapping(root: Seq<char>, generator: Seq<char>, scope: Seq<char>)
    ensures
        !compile_args(root, generator, scope).contains("--user"@),
{
    reveal_strlit("--user");
    reveal_strlit("compose");
    reveal_strlit("-f");
    reveal_strlit("--project-directory");
    reveal_strlit("run");
    reveal_strlit("--rm");
    reveal_strlit(".oav/docker-compose.yaml");
    reveal_strlit(".oav");
    reveal_strlit("build-");
    reveal_strlit("build-client-");
    reveal_strlit("server");
    let args = compile_args(root, generator, scope);
    let u = "--user"@;
    let f = join_path(root, ".oav/docker-compose.yaml"@);
    let d = join_path(root, ".oav"@);
    assert(f.len() > 0 && f.last() == 'l') by {
        if root.len() == 0 {
        } else if root.last() == '/' {
            assert(f == root + ".oav/docker-compose.yaml"@);
        } else {
            assert(f == root + seq!['/'] + ".oav/docker-compose.yaml"@);
        }
    }
    assert(d.len() > 0 && d.last() == 'v') by {
        if root.len() == 0 {
        } else if root.last() == '/' {
            assert(d == root + ".oav"@);
        } else {
            assert(d == root + seq!['/'] + ".oav"@);
        }
    }
    let s = service_name(generator, scope);
    assert(s[0] == 'b');
    assert forall|i: int| 0 <= i < args.len() implies args[i] != u by {
        if i == 2 {
            assert(u.last() == 'r');
        } else if i == 4 {
            assert(u.last() == 'r');
        } else if i == 7 {
            assert(u[0] == '-');
        } else {
            assert(args[i].len() != u.len() || args[i][1] != u[1] || args[i][2] != u[2]);
        }
    }
}

/// Arguments of a custom generate step, given the parsed command words.
pub open spec fn custom_generate_args(root: Seq<char>, image: Seq<char>, words: Seq<Seq<char>>, user: Seq<Seq<char>>) -> Seq<Seq<char>> {
    seq!["run"@, "--rm"@, "-v"@, mount(root)] + user + seq![image] + words
}

/// A custom generator's command with `{spec}` replaced by the spec's path in
/// the container.
pub open spec fn resolved_generate_command(def: CustomGeneratorDef, spec: Seq<char>) -> Seq<char> {
    replace_all(def.generate.command@, "{spec}"@, spec)
}

/// A custom generator run: its image, then its command with `{spec}`
/// replaced and split into shell words.
pub fn custom_generate_command(
    cfg: &Config,
    root: &str,
    spec_path: &str,
    def: &CustomGeneratorDef,
    user_args: &Vec<String>,
) -> (res: Result<DockerStep, CommandError>)
    ensures
        match res {
            Ok(s) => {
                &&& container_path_ok(root@, spec_path@)
                &&& shell_split(resolved_generate_command(*def, container_view(root@, spec_path@)))
                    matches Some(words)
                &&& step_is(
                    s,
                    cfg.docker_timeout,
                    join_path(root@, scoped(".oav/reports/generate/"@, def.scope@, def.name@, ".log"@)),
                    custom_generate_args(root@, def.generate.image@, words, user_args.deep_view()),
                )
            },
            Err(e) => if !container_path_ok(root@, spec_path@) {
                container_error(e, root@, spec_path@)
            } else {
                &&& shell_split(resolved_generate_command(*def, container_view(root@, spec_path@))) is None
                &&& e matches CommandError::UnparsableGenerateCommand { name }
                &&& name@ == def.name@
            },
        },
{
    let spec = match container_path(root, spec_path) {
        Ok(s) => s,
        Err(e) => return Err(e),
    };
    let resolved = generate_command_text(def, spec.as_str());
    let words = split_words(resolved.as_str());
    custom_generate_step(cfg, root, def, words, user_args)
}

/// The custom generator's command with `{spec}` replaced by `spec`.
pub fn generate_command_text(def: &CustomGeneratorDef, spec: &str) -> (res: String)
    ensures
        res@ == resolved_generate_command(*def, spec@),
{
    let command = chars_of(def.generate.command.as_str());
    let pattern = chars_of("{spec}");
    let with = chars_of(spec);
    proof {
        reveal_strlit("{spec}");
    }
    string_of(&replace_chars(&command, &pattern, &with))
}

/// The custom generate step for the shell words its resolved command split
/// into (`None` when the command has an unterminated quote).
pub fn custom_generate_step(
    cfg: &Config,
    root: &str,
    def: &CustomGeneratorDef,
    words: Option<Vec<String>>,
    user_args: &Vec<String>,
) -> (res: Result<DockerStep, CommandError>)
    ensures
        match words {
            Some(w) => res matches Ok(s) && step_is(
                s,
                cfg.docker_timeout,
                join_path(root@, scoped(".oav/reports/generate/"@, def.scope@, def.name@, ".log"@)),
                custom_generate_args(root@, def.generate.image@, w.deep_view(), user_args.deep_view()),
            ),
            None => res matches Err(CommandError::UnparsableGenerateCommand { name }) && name@ == def.name@,
        },
{
    let words = match words {
        Some(w) => w,
        None => return Err(CommandError::UnparsableGenerateCommand { name: def.name.clone() }),
    };
    let mut args: Vec<String> = Vec::new();
    push_owned(&mut args, "run");
    push_owned(&mut args, "--rm");
    push_owned(&mut args, "-v");
    let m = mount_arg(root);
    push_owned(&mut args, m.as_str());
    extend_owned(&mut args, user_args);
    push_owned(&mut args, def.generate.image.as_str());
    extend_owned(&mut args, &words);
    assert(args.deep_view() =~= custom_generate_args(root@, def.generate.image@, words.deep_view(), user_args.deep_view()));
    let log = under_root(root, scoped_exec(".oav/reports/generate/", def.scope.as_str(), def.name.as_str(), ".log"));
    Ok(step(cfg, log, args))
}

/// Arguments of a custom compile step, given the parsed command words.
pub open spec fn custom_compile_args(root: Seq<char>, def: CustomGeneratorDef, image: Seq<char>, words: Seq<Seq<char>>) -> Seq<Seq<char>> {
    seq![
        "run"@,
        "--rm"@,
        "-v"@,
        mount(root),
        "-w"@,
        scoped("/work/.oav/generated/"@, def.scope@, def.name@, ""@),
        image,
    ] + words
}

/// A custom compile run in the generator's output directory, without the
/// user mapping.
pub fn custom_compile_command(cfg: &Config, root: &str, def: &CustomGeneratorDef, compile: &CompileBlock) -> (res: Result<DockerStep, CommandError>)
    ensures
        match res {
            Ok(s) => {
                &&& shell_split(compile.command@) matches Some(words)
                &&& step_is(
                    s,
                    cfg.docker_timeout,
                    join_path(root@, scoped(".oav/reports/compile/"@, def.scope@, def.name@, ".log"@)),
                    custom_compile_args(root@, *def, compile.image@, words),
                )
            },
            Err(e) => {
                &&& shell_split(compile.command@) is None
                &&& e matches CommandError::UnparsableCompileCommand { name }
                &&& name@ == def.name@
            },
        },
{
    let words = split_words(compile.command.as_str());
    custom_compile_step(cfg, root, def, compile, words)
}

/// The custom compile step for the shell words its command split into
/// (`None` when the command has an unterminated quote).
pub fn custom_compile_step(
    cfg: &Config,
    root: &str,
    def: &CustomGeneratorDef,
    compile: &CompileBlock,
    words: Option<Vec<String>>,
) -> (res: Result<DockerStep, CommandError>)
    ensures
        match words {
            Some(w) => res matches Ok(s) && step_is(
                s,
                cfg.docker_timeout,
                join_path(root@, scoped(".oav/reports/compile/"@, def.scope@, def.name@, ".log"@)),
                custom_compile_args(root@, *def, compile.image@, w.deep_view()),
            ),
            None => res matches Err(CommandError::UnparsableCompileCommand { name }) && name@ == def.name@,
        },
{
    let workdir = scoped_exec("/work/.oav/generated/", def.scope.as_str(), def.name.as_str(), "");
    let words = match words {
        Some(w) => w,
        None => return Err(CommandError::UnparsableCompileCommand { name: def.name.clone() }),
    };
    let mut args: Vec<String> = Vec::new();
    push_owned(&mut args, "run");
    push_owned(&mut args, "--rm");
    push_owned(&mut args, "-v");
    let m = mount_arg(root);
    push_owned(&mut args, m.as_str());
    push_owned(&mut args, "-w");
    push_owned(&mut args, workdir.as_str());
    push_owned(&mut args, compile.image.as_str());
    extend_owned(&mut args, &words);
    assert(args.deep_view() =~= custom_compile_args(root@, *def, compile.image@, words.deep_view()));
    let log = under_root(root, scoped_exec(".oav/reports/compile/", def.scope.as_str(), def.name.as_str(), ".log"));
    Ok(step(cfg, log, args))
}

// ---------------------------------------------------------------------------
// Generator configs and the list of generators to run
// ---------------------------------------------------------------------------

/// Where a configured path points: itself when absolute, under the root
/// otherwise.
pub open spec fn resolved_under_root(root: Seq<char>, path: Seq<char>) -> Seq<char> {
    join_path(root, path)
}

/// A configured path resolved against the root; refused when it does not
/// lie under the root.
pub fn resolve_under_root(root: &str, path: &str) -> (res: Result<String, CommandError>)
    ensures
        match res {
            Ok(r) => path_under(resolved_under_root(root@, path@), root@) && r@ == resolved_under_root(root@, path@),
            Err(e) => {
                &&& !path_under(resolved_under_root(root@, path@), root@)
                &&& e matches CommandError::ConfigOutsideRepository { path: p }
                &&& p@ == path@
            },
        },
{
    let resolved = join_path_exec(root, path);
    if !path_starts_with(resolved.as_str(), root) {
        return Err(CommandError::ConfigOutsideRepository { path: owned(path) });
    }
    Ok(resolved)
}

/// The container path of the shipped config of a built-in generator.
pub open spec fn builtin_config_path(scope: Seq<char>, generator: Seq<char>) -> Seq<char> {
    scoped("/work/.oav/configs/"@, scope, generator, ".yaml"@)
}

/// The config a generator runs with, as a path in the container: the
/// configured override when there is one (which must lie in the
/// repository), else the shipped config of a built-in generator, else none.
pub fn resolve_config_path(cfg: &Config, root: &str, generator: &str, scope: &str) -> (res: Result<Option<String>, CommandError>)
    ensures
        match lookup(cfg.generator_overrides@, generator@) {
            Some(user_path) => {
                let resolved = resolved_under_root(root@, user_path);
                if !path_under(resolved, root@) {
                    res matches Err(CommandError::ConfigOutsideRepository { path: p }) && p@ == user_path
                } else if !container_path_ok(root@, resolved) {
                    res matches Err(e) && container_error(e, root@, resolved)
                } else {
                    res matches Ok(Some(p)) && p@ == container_view(root@, resolved)
                }
            },
            None => if builtin_names(scope@).contains(generator@) {
                res matches Ok(Some(p)) && p@ == builtin_config_path(scope@, generator@)
            } else {
                res matches Ok(None)
            },
        },
        uses_shipped_config(cfg.generator_overrides@, generator@, scope@) ==> (res matches Ok(Some(p))
            && p@ == builtin_config_path(scope@, generator@)),
{
    match lookup_exec(&cfg.generator_overrides, generator) {
        Some(user_path) => {
            let resolved = match resolve_under_root(root, user_path.as_str()) {
                Ok(r) => r,
                Err(e) => return Err(e),
            };
            match container_path(root, resolved.as_str()) {
                Ok(p) => Ok(Some(p)),
                Err(e) => Err(e),
            }
        },
        None => {
            if find_builtin(generator, scope).is_some() {
                Ok(Some(scoped_exec("/work/.oav/configs/", scope, generator, ".yaml")))
            } else {
                Ok(None)
            }
        },
    }
}

/// Views of `(name, scope)` pairs.
pub open spec fn pair_views(v: Seq<(String, String)>) -> Seq<(Seq<char>, Seq<char>)> {
    v.map_values(|p: (String, String)| (p.0@, p.1@))
}

/// Each name paired with `scope`.
pub open spec fn with_scope(names: Seq<Seq<char>>, scope: Seq<char>) -> Seq<(Seq<char>, Seq<char>)> {
    names.map_values(|n: Seq<char>| (n, scope))
}

/// The generators of one scope: the configured list when it is not empty,
/// else every built-in generator of the scope followed by the custom ones.
pub open spec fn scope_generators(
    configured: Seq<Seq<char>>,
    scope: Seq<char>,
    custom: Seq<CustomGeneratorDef>,
) -> Seq<(Seq<char>, Seq<char>)> {
    if configured.len() == 0 {
        with_scope(builtin_names(scope) + names_in_scope(custom, scope), scope)
    } else {
        with_scope(configured, scope)
    }
}

/// The `(generator, scope)` pairs a run covers, server before client.
pub open spec fn generator_list(
    mode: Mode,
    servers: Seq<Seq<char>>,
    clients: Seq<Seq<char>>,
    custom: Seq<CustomGeneratorDef>,
) -> Seq<(Seq<char>, Seq<char>)> {
    match mode {
        Mode::Server => scope_generators(servers, "server"@, custom),
        Mode::Client => scope_generators(clients, "client"@, custom),
        Mode::Both => scope_generators(servers, "server"@, custom) + scope_generators(
            clients,
            "client"@,
            custom,
        ),
    }
}

fn push_with_scope(pairs: &mut Vec<(String, String)>, names: &Vec<String>, scope: &str)
    ensures
        pair_views(final(pairs)@) == pair_views(old(pairs)@) + with_scope(names.deep_view(), scope@),
{
    let ghost p0 = pair_views(pairs@);
    let mut i: usize = 0;
    while i < names.len()
        invariant
            i <= names.len(),
            pair_views(pairs@) == p0 + with_scope(names.deep_view().take(i as int), scope@),
        decreases names.len() - i,
    {
        let ghost before = pairs@;
        let item = (names[i].clone(), owned(scope));
        pairs.push(item);
        i = i + 1;
        assert(pairs@ == before.push(item));
        assert(pair_views(pairs@) =~= pair_views(before).push((names@[i - 1]@, scope@)));
        assert(names.deep_view().take(i as int) =~= names.deep_view().take(i - 1).push(names@[i - 1]@));
        assert(with_scope(names.deep_view().take(i as int), scope@) =~= with_scope(names.deep_view().take(i - 1), scope@).push((names@[i - 1]@, scope@)));
    }
    assert(names.deep_view().take(i as int) =~= names.deep_view());
}

fn builtin_name_list(scope: &str) -> (res: Vec<String>)
    ensures
        res.deep_view() == builtin_names(scope@),
{
    let defs = builtin_generators_for_scope(scope);
    let mut res: Vec<String> = Vec::new();
    let mut i: usize = 0;
    while i < defs.len()
        invariant
            i <= defs.len(),
            table_matches(defs@, scope@),
            res.deep_view() == builtin_names(scope@).take(i as int),
        decreases defs.len() - i,
    {
        assert(is_builtin_def(defs@[i as int], scope@, builtin_names(scope@)[i as int]));
        push_owned(&mut res, defs[i].name);
        i = i + 1;
        assert(builtin_names(scope@).take(i as int) =~= builtin_names(scope@).take(i - 1).push(builtin_names(scope@)[i - 1]));
    }
    assert(builtin_names(scope@).take(i as int) =~= builtin_names(scope@));
    res
}

fn add_for_scope(pairs: &mut Vec<(String, String)>, generators: &Vec<String>, scope: &str, custom: &[CustomGeneratorDef])
    ensures
        pair_views(final(pairs)@) == pair_views(old(pairs)@) + scope_generators(generators.deep_view(), scope@, custom@),
{
    if generators.len() == 0 {
        let mut names = builtin_name_list(scope);
        let extra = names_for_scope(custom, scope);
        assert(extra.deep_view() =~= extra@.map_values(|s: String| s@));
        extend_owned(&mut names, &extra);
        push_with_scope(pairs, &names, scope);
    } else {
        push_with_scope(pairs, generators, scope);
    }
}

/// The `(generator, scope)` pairs a run covers: per scope of the mode, the
/// configured generators, or when none are configured every built-in
/// generator of the scope and then the custom ones; server before client.
pub fn build_generator_list(cfg: &Config, custom_defs: &[CustomGeneratorDef]) -> (res: Vec<(String, String)>)
    ensures
        pair_views(res@) == generator_list(
            cfg.mode,
            cfg.server_generators.deep_view(),
            cfg.client_generators.deep_view(),
            custom_defs@,
        ),
{
    let mut pairs: Vec<(String, String)> = Vec::new();
    assert(pair_views(pairs@) =~= Seq::empty());
    match cfg.mode {
        Mode::Server => {
            add_for_scope(&mut pairs, &cfg.server_generators, "server", custom_defs);
        },
        Mode::Client => {
            add_for_scope(&mut pairs, &cfg.client_generators, "client", custom_defs);
        },
        Mode::Both => {
            add_for_scope(&mut pairs, &cfg.server_generators, "server", custom_defs);
            add_for_scope(&mut pairs, &cfg.client_generators, "client", custom_defs);
        },
    }
    pairs
}

/// A shipped generator config to write into the workspace.
#[derive(Debug, Clone)]
pub struct ConfigFile {
    /// The directory to create.
    pub dir: String,
    /// The file to write.
    pub path: String,
    pub contents: &'static str,
}

/// Views of config files to write: directory, file and contents.
pub open spec fn file_views(v: Seq<ConfigFile>) -> Seq<(Seq<char>, Seq<char>, Seq<char>)> {
    v.map_values(|f: ConfigFile| (f.dir@, f.path@, f.contents@))
}

/// `name` in `scope` runs with its shipped config: no override is
/// configured for it and it is a built-in generator of the scope.
pub open spec fn uses_shipped_config(overrides: Seq<(String, String)>, name: Seq<char>, scope: Seq<char>) -> bool {
    lookup(overrides, name) is None && builtin_names(scope).contains(name)
}

/// The shipped config file of a `(name, scope)` pair: its directory
/// `.oav/configs/SCOPE` under the root, the file `NAME.yaml` in it, and the
/// shipped text.
pub open spec fn shipped_config_file(root: Seq<char>, pair: (Seq<char>, Seq<char>)) -> (Seq<char>, Seq<char>, Seq<char>) {
    let dir = join_path(root, ".oav/configs/"@ + pair.1);
    (dir, join_path(dir, pair.0 + ".yaml"@), generator_config(pair.1, pair.0))
}

/// The shipped configs to write for `generators`: one per built-in
/// generator that has no configured override, under `.oav/configs/SCOPE/`.
pub open spec fn config_files(
    overrides: Seq<(String, String)>,
    root: Seq<char>,
    generators: Seq<(Seq<char>, Seq<char>)>,
) -> Seq<(Seq<char>, Seq<char>, Seq<char>)>
    decreases generators.len(),
{
    if generators.len() == 0 {
        Seq::empty()
    } else {
        let r = config_files(overrides, root, generators.drop_last());
        if uses_shipped_config(overrides, generators.last().0, generators.last().1) {
            r.push(shipped_config_file(root, generators.last()))
        } else {
            r
        }
    }
}

/// The shipped config files written for a list of generators are exactly
/// those of its pairs that [`resolve_config_path`] points at their shipped
/// config (no override, built-in): each such pair gets its file, and every
/// file written belongs to such a pair.
pub proof fn law_config_files_follow_resolution(
    overrides: Seq<(String, String)>,
    root: Seq<char>,
    generators: Seq<(Seq<char>, Seq<char>)>,
)
    ensures
        forall|i: int|
            0 <= i < generators.len() && uses_shipped_config(overrides, generators[i].0, generators[i].1)
                ==> config_files(overrides, root, generators).contains(
                #[trigger] shipped_config_file(root, generators[i]),
            ),
        forall|f: (Seq<char>, Seq<char>, Seq<char>)|
            #[trigger] config_files(overrides, root, generators).contains(f) ==> exists|i: int|
                0 <= i < generators.len() && uses_shipped_config(overrides, generators[i].0, generators[i].1)
                    && f == shipped_config_file(root, generators[i]),
    decreases generators.len(),
{
    if generators.len() > 0 {
        let init = generators.drop_last();
        let last = generators.last();
        law_config_files_follow_resolution(overrides, root, init);
        let r = config_files(overrides, root, init);
        let all = config_files(overrides, root, generators);
        assert forall|i: int|
            0 <= i < generators.len() && uses_shipped_config(overrides, generators[i].0, generators[i].1)
                implies all.contains(#[trigger] shipped_config_file(root, generators[i])) by {
            if i < init.len() {
                assert(init[i] == generators[i]);
                assert(r.contains(shipped_config_file(root, init[i])));
                let k = choose|k: int| 0 <= k < r.len() && r[k] == shipped_config_file(root, init[i]);
                if uses_shipped_config(overrides, last.0, last.1) {
                    assert(all[k] == r[k]);
                } else {
                    assert(all == r);
                }
            } else {
                assert(generators[i] == last);
                assert(all == r.push(shipped_config_file(root, last)));
                assert(all[r.len() as int] == shipped_config_file(root, last));
            }
        }
        assert forall|f: (Seq<char>, Seq<char>, Seq<char>)| #[trigger] all.contains(f) implies exists|i: int|
            0 <= i < generators.len() && uses_shipped_config(overrides, generators[i].0, generators[i].1)
                && f == shipped_config_file(root, generators[i]) by {
            let k = choose|k: int| 0 <= k < all.len() && all[k] == f;
            if k < r.len() {
                if uses_shipped_config(overrides, last.0, last.1) {
                    assert(all[k] == r[k]);
                }
                assert(r.contains(f));
                let i = choose|i: int|
                    0 <= i < init.len() && uses_shipped_config(overrides, init[i].0, init[i].1)
                        && f == shipped_config_file(root, init[i]);
                assert(init[i] == generators[i]);
            } else {
                let i = generators.len() - 1;
                assert(generators[i] == last);
            }
        }
    }
}

/// The files that writing the shipped configs of `generators` creates.
pub fn builtin_config_files(cfg: &Config, root: &str, generators: &Vec<(String, String)>) -> (res: Vec<ConfigFile>)
    ensures
        file_views(res@) == config_files(cfg.generator_overrides@, root@, pair_views(generators@)),
{
    let mut res: Vec<ConfigFile> = Vec::new();
    let mut i: usize = 0;
    assert(pair_views(generators@).take(0) =~= Seq::empty());
    while i < generators.len()
        invariant
            i <= generators.len(),
            file_views(res@) == config_files(cfg.generator_overrides@, root@, pair_views(generators@).take(i as int)),
        decreases generators.len() - i,
    {
        let ghost gv = pair_views(generators@);
        assert(gv.take(i + 1).drop_last() =~= gv.take(i as int));
        assert(gv.take(i + 1).last() == (generators@[i as int].0@, generators@[i as int].1@));
        let name = generators[i].0.as_str();
        let scope = generators[i].1.as_str();
        if lookup_exec(&cfg.generator_overrides, name).is_none() {
            match find_builtin(name, scope) {
                Some(def) => {
                    let mut d = owned(".oav/configs/");
                    push_str(&mut d, scope);
                    let dir = join_path_exec(root, d.as_str());
                    let mut f = owned(name);
                    push_str(&mut f, ".yaml");
                    let path = join_path_exec(dir.as_str(), f.as_str());
                    let ghost before = res@;
                    let item = ConfigFile { dir, path, contents: def.config_yaml };
                    res.push(item);
                    assert(file_views(res@) =~= file_views(before).push((item.dir@, item.path@, item.contents@)));
                },
                None => {},
            }
        }
        i = i + 1;
    }
    assert(pair_views(generators@).take(i as int) =~= pair_views(generators@));
    res
}

// ---------------------------------------------------------------------------
// What the steps run
// ---------------------------------------------------------------------------

/// The Spectral step runs `docker run --rm -v ROOT:/work`, then the user
/// mapping (docker options, so all of them before the image), then the
/// Spectral image, whose command is `lint SPEC --ruleset RULESET
/// --fail-severity SEVERITY -f stylish`.
pub proof fn law_spectral_step_layout(cfg: Config, root: Seq<char>, spec: Seq<char>, user: Seq<Seq<char>>)
    ensures
        ({
            let a = spectral_args(cfg, root, spec, user);
            let n = user.len() as int;
            &&& a.len() == n + 13
            &&& a[0] == "run"@ && a[1] == "--rm"@ && a[2] == "-v"@ && a[3] == root + ":/work"@
            &&& forall|i: int| 0 <= i < n ==> #[trigger] a[4 + i] == user[i]
            &&& a[4 + n] == cfg.spectral_image@
            &&& a[5 + n] == "lint"@
            &&& a[6 + n] == spec
            &&& a[7 + n] == "--ruleset"@ && a[8 + n] == cfg.spectral_ruleset@
            &&& a[9 + n] == "--fail-severity"@ && a[10 + n] == cfg.spectral_fail_severity@
            &&& a[11 + n] == "-f"@ && a[12 + n] == "stylish"@
        }),
{
    let a = spectral_args(cfg, root, spec, user);
    let n = user.len() as int;
    assert forall|i: int| 0 <= i < n implies #[trigger] a[4 + i] == user[i] by {
        assert((seq!["run"@, "--rm"@, "-v"@, mount(root)] + user)[4 + i] == user[i]);
    }
}

/// The Redocly step runs `docker run --rm -v ROOT:/work`, then the user
/// mapping, then `-w /work` and the Redocly image, whose command is
/// `lint SPEC --format stylish`.
pub proof fn law_redocly_step_layout(cfg: Config, root: Seq<char>, spec: Seq<char>, user: Seq<Seq<char>>)
    ensures
        ({
            let a = redocly_args(cfg, root, spec, user);
            let n = user.len() as int;
            &&& a.len() == n + 11
            &&& a[0] == "run"@ && a[1] == "--rm"@ && a[2] == "-v"@ && a[3] == root + ":/work"@
            &&& forall|i: int| 0 <= i < n ==> #[trigger] a[4 + i] == user[i]
            &&& a[4 + n] == "-w"@ && a[5 + n] == "/work"@
            &&& a[6 + n] == cfg.redocly_image@
            &&& a[7 + n] == "lint"@ && a[8 + n] == spec
            &&& a[9 + n] == "--format"@ && a[10 + n] == "stylish"@
        }),
{
    let a = redocly_args(cfg, root, spec, user);
    let n = user.len() as int;
    assert forall|i: int| 0 <= i < n implies #[trigger] a[4 + i] == user[i] by {
        assert((seq!["run"@, "--rm"@, "-v"@, mount(root)] + user)[4 + i] == user[i]);
    }
}

/// A lint step is given the spec where the container sees it: `/work/`
/// followed by its path relative to the root, with `/` separators.
pub proof fn law_lint_steps_name_the_mounted_spec(cfg: Config, root: Seq<char>, path: Seq<char>, user: Seq<Seq<char>>)
    requires
        container_path_ok(root, path),
    ensures
        ({
            let n = user.len() as int;
            let rel = if is_absolute(path) { strip_prefix(path, root)->0 } else { path };
            &&& spectral_args(cfg, root, container_view(root, path), user)[6 + n] == "/work/"@ + posix(rel)
            &&& redocly_args(cfg, root, container_view(root, path), user)[8 + n] == "/work/"@ + posix(rel)
        }),
{
    law_spectral_step_layout(cfg, root, container_view(root, path), user);
    law_redocly_step_layout(cfg, root, container_view(root, path), user);
}

/// A built-in generate step runs `docker run --rm -v ROOT:/work`, the user
/// mapping, then the generator image with `generate -i SPEC -g GENERATOR
/// -o /work/.oav/generated/SCOPE/GENERATOR`, and `-c CONFIG` last when a
/// config is given.
pub proof fn law_generate_step_layout(
    cfg: Config,
    root: Seq<char>,
    spec: Seq<char>,
    generator: Seq<char>,
    scope: Seq<char>,
    config_path: Option<Seq<char>>,
    user: Seq<Seq<char>>,
)
    ensures
        ({
            let a = generate_args(cfg, root, spec, generator, scope, config_path, user);
            let n = user.len() as int;
            &&& a[0] == "run"@ && a[1] == "--rm"@ && a[2] == "-v"@ && a[3] == root + ":/work"@
            &&& forall|i: int| 0 <= i < n ==> #[trigger] a[4 + i] == user[i]
            &&& a[4 + n] == cfg.generator_image@
            &&& a[5 + n] == "generate"@
            &&& a[6 + n] == "-i"@ && a[7 + n] == spec
            &&& a[8 + n] == "-g"@ && a[9 + n] == generator
            &&& a[10 + n] == "-o"@ && a[11 + n] == "/work/.oav/generated/"@ + scope + "/"@ + generator
            &&& match config_path {
                Some(p) => a.len() == n + 14 && a[12 + n] == "-c"@ && a[13 + n] == p,
                None => a.len() == n + 12,
            }
        }),
{
    let a = generate_args(cfg, root, spec, generator, scope, config_path, user);
    let n = user.len() as int;
    let head = seq!["run"@, "--rm"@, "-v"@, mount(root)] + user;
    assert forall|i: int| 0 <= i < n implies #[trigger] a[4 + i] == user[i] by {
        assert(head[4 + i] == user[i]);
    }
    reveal_strlit("");
    assert(""@ =~= Seq::<char>::empty());
    assert("/work/.oav/generated/"@ + scope + "/"@ + generator + ""@ =~= "/work/.oav/generated/"@ + scope + "/"@ + generator);
}

/// A generate step driven by a config file runs the generator image with
/// `generate -i SPEC -c CONFIG`, in `/work/.oav`.
pub proof fn law_generate_from_config_step_layout(
    cfg: Config,
    root: Seq<char>,
    spec: Seq<char>,
    config: Seq<char>,
    user: Seq<Seq<char>>,
)
    ensures
        ({
            let a = generate_from_config_args(cfg, root, spec, config, user);
            let n = user.len() as int;
            &&& a.len() == n + 12
            &&& a[0] == "run"@ && a[1] == "--rm"@
            &&& forall|i: int| 0 <= i < n ==> #[trigger] a[2 + i] == user[i]
            &&& a[2 + n] == "-v"@ && a[3 + n] == root + ":/work"@
            &&& a[4 + n] == "-w"@ && a[5 + n] == "/work/.oav"@
            &&& a[6 + n] == cfg.generator_image@ && a[7 + n] == "generate"@
            &&& a[8 + n] == "-i"@ && a[9 + n] == spec
            &&& a[10 + n] == "-c"@ && a[11 + n] == config
        }),
{
    let a = generate_from_config_args(cfg, root, spec, config, user);
    let n = user.len() as int;
    assert forall|i: int| 0 <= i < n implies #[trigger] a[2 + i] == user[i] by {
        assert((seq!["run"@, "--rm"@] + user)[2 + i] == user[i]);
    }
}

/// A built-in compile step runs `docker compose -f ROOT/.oav/docker-compose.yaml
/// --project-directory ROOT/.oav run --rm SERVICE`, where the service is the
/// one of the generator's own scope: `build-NAME` for a server generator,
/// `build-client-NAME` for any other scope. The two scopes never share a
/// service.
pub proof fn law_compile_step_runs_the_scope_service(root: Seq<char>, generator: Seq<char>, scope: Seq<char>)
    ensures
        ({
            let a = compile_args(root, generator, scope);
            &&& a.len() == 8
            &&& a[0] == "compose"@ && a[1] == "-f"@ && a[2] == join_path(root, ".oav/docker-compose.yaml"@)
            &&& a[3] == "--project-directory"@ && a[4] == join_path(root, ".oav"@)
            &&& a[5] == "run"@ && a[6] == "--rm"@
            &&& a[7] == (if scope == "server"@ {
                "build-"@ + generator
            } else {
                "build-client-"@ + generator
            })
        }),
        service_name(generator, "server"@) == "build-"@ + generator,
        scope != "server"@ ==> service_name(generator, scope) == "build-client-"@ + generator,
        service_name(generator, "server"@) != service_name(generator, "client"@),
{
    reveal_strlit("build-");
    reveal_strlit("build-client-");
    reveal_strlit("server");
    reveal_strlit("client");
    assert("server"@ != "client"@) by {
        assert("server"@[0] != "client"@[0]);
    }
    let s = "build-"@ + generator;
    let c = "build-client-"@ + generator;
    assert(s.len() != c.len());
}

/// In both mode the run covers the server-mode list followed by the
/// client-mode list.
pub proof fn law_both_mode_is_server_then_client(
    servers: Seq<Seq<char>>,
    clients: Seq<Seq<char>>,
    custom: Seq<CustomGeneratorDef>,
)
    ensures
        generator_list(Mode::Both, servers, clients, custom) == generator_list(
            Mode::Server,
            servers,
            clients,
            custom,
        ) + generator_list(Mode::Client, servers, clients, custom),
{
}

proof fn lemma_names_in_scope_has(defs: Seq<CustomGeneratorDef>, scope: Seq<char>, j: int)
    requires
        0 <= j < defs.len(),
        defs[j].scope@ == scope,
    ensures
        names_in_scope(defs, scope).contains(defs[j].name@),
    decreases defs.len(),
{
    let r = names_in_scope(defs.drop_last(), scope);
    if j == defs.len() - 1 {
        assert(names_in_scope(defs, scope) == r.push(defs[j].name@));
        assert(names_in_scope(defs, scope)[r.len() as int] == defs[j].name@);
    } else {
        assert(defs.drop_last()[j] == defs[j]);
        lemma_names_in_scope_has(defs.drop_last(), scope, j);
        let k = choose|k: int| 0 <= k < r.len() && r[k] == defs[j].name@;
        if defs.last().scope@ == scope {
            assert(names_in_scope(defs, scope)[k] == r[k]);
        }
    }
}

/// When no generators are configured for a scope, the scope's list is its
/// built-in generators, in order, and after them every custom generator
/// defined for that scope, each paired with the scope.
pub proof fn law_unconfigured_scope_lists_builtins_then_custom(
    configured: Seq<Seq<char>>,
    scope: Seq<char>,
    custom: Seq<CustomGeneratorDef>,
)
    requires
        configured.len() == 0,
    ensures
        ({
            let g = scope_generators(configured, scope, custom);
            let b = builtin_names(scope);
            &&& forall|k: int| 0 <= k < b.len() ==> #[trigger] g[k] == (b[k], scope)
            &&& forall|j: int|
                0 <= j < custom.len() && #[trigger] custom[j].scope@ == scope ==> exists|k: int|
                    b.len() <= k < g.len() && g[k] == (custom[j].name@, scope)
        }),
{
    let g = scope_generators(configured, scope, custom);
    let b = builtin_names(scope);
    let names = b + names_in_scope(custom, scope);
    assert forall|k: int| 0 <= k < b.len() implies #[trigger] g[k] == (b[k], scope) by {
        assert(names[k] == b[k]);
    }
    assert forall|j: int| 0 <= j < custom.len() && #[trigger] custom[j].scope@ == scope implies exists|k: int|
        b.len() <= k < g.len() && g[k] == (custom[j].name@, scope) by {
        lemma_names_in_scope_has(custom, scope, j);
        let c = names_in_scope(custom, scope);
        let m = choose|m: int| 0 <= m < c.len() && c[m] == custom[j].name@;
        assert(names[b.len() + m] == c[m]);
        assert(g[b.len() + m] == (custom[j].name@, scope));
    }
}

/// Whatever the mode, a custom generator of a scope the mode covers, when
/// that scope has no configured generators, is in the run's list, paired
/// with its scope.
pub proof fn law_custom_generators_are_listed(
    mode: Mode,
    servers: Seq<Seq<char>>,
    clients: Seq<Seq<char>>,
    custom: Seq<CustomGeneratorDef>,
    j: int,
)
    requires
        0 <= j < custom.len(),
    ensures
        mode != Mode::Client && servers.len() == 0 && custom[j].scope@ == "server"@ ==> generator_list(
            mode,
            servers,
            clients,
            custom,
        ).contains((custom[j].name@, "server"@)),
        mode != Mode::Server && clients.len() == 0 && custom[j].scope@ == "client"@ ==> generator_list(
            mode,
            servers,
            clients,
            custom,
        ).contains((custom[j].name@, "client"@)),
{
    let sg = scope_generators(servers, "server"@, custom);
    let cg = scope_generators(clients, "client"@, custom);
    law_both_mode_is_server_then_client(servers, clients, custom);
    if servers.len() == 0 && custom[j].scope@ == "server"@ {
        law_unconfigured_scope_lists_builtins_then_custom(servers, "server"@, custom);
        let k = choose|k: int| builtin_names("server"@).len() <= k < sg.len() && sg[k] == (custom[j].name@, "server"@);
        assert(sg.contains((custom[j].name@, "server"@)));
        assert((sg + cg)[k] == sg[k]);
    }
    if clients.len() == 0 && custom[j].scope@ == "client"@ {
        law_unconfigured_scope_lists_builtins_then_custom(clients, "client"@, custom);
        let k = choose|k: int| builtin_names("client"@).len() <= k < cg.len() && cg[k] == (custom[j].name@, "client"@);
        assert(cg.contains((custom[j].name@, "client"@)));
        assert((sg + cg)[sg.len() + k] == cg[k]);
    }
}

/// A custom generate step runs `docker run --rm -v ROOT:/work`, the user
/// mapping, then the generator's image with the words of its command.
pub proof fn law_custom_generate_step_layout(root: Seq<char>, image: Seq<char>, words: Seq<Seq<char>>, user: Seq<Seq<char>>)
    ensures
        ({
            let a = custom_generate_args(root, image, words, user);
            let n = user.len() as int;
            &&& a.len() == 5 + n + words.len()
            &&& a[0] == "run"@ && a[1] == "--rm"@ && a[2] == "-v"@ && a[3] == root + ":/work"@
            &&& forall|i: int| 0 <= i < n ==> #[trigger] a[4 + i] == user[i]
            &&& a[4 + n] == image
            &&& forall|i: int| 0 <= i < words.len() ==> #[trigger] a[5 + n + i] == words[i]
        }),
{
    let a = custom_generate_args(root, image, words, user);
    let n = user.len() as int;
    let head = seq!["run"@, "--rm"@, "-v"@, mount(root)] + user;
    assert forall|i: int| 0 <= i < n implies #[trigger] a[4 + i] == user[i] by {
        assert(head[4 + i] == user[i]);
    }
    assert forall|i: int| 0 <= i < words.len() implies #[trigger] a[5 + n + i] == words[i] by {}
}

/// A custom compile step runs `docker run --rm -v ROOT:/work` without the
/// user mapping, in the generator's output directory
/// `/work/.oav/generated/SCOPE/NAME`, then the compile image with the words
/// of its command.
pub proof fn law_custom_compile_step_layout(root: Seq<char>, def: CustomGeneratorDef, image: Seq<char>, words: Seq<Seq<char>>)
    ensures
        ({
            let a = custom_compile_args(root, def, image, words);
            &&& a.len() == 7 + words.len()
            &&& a[0] == "run"@ && a[1] == "--rm"@ && a[2] == "-v"@ && a[3] == root + ":/work"@
            &&& a[4] == "-w"@ && a[5] == "/work/.oav/generated/"@ + def.scope@ + "/"@ + def.name@
            &&& a[6] == image
            &&& forall|i: int| 0 <= i < words.len() ==> #[trigger] a[7 + i] == words[i]
        }),
{
    reveal_strlit("");
    assert(""@ =~= Seq::<char>::empty());
    assert("/work/.oav/generated/"@ + def.scope@ + "/"@ + def.name@ + ""@ =~= "/work/.oav/generated/"@ + def.scope@ + "/"@ + def.name@);
}

/// The shipped config of a built-in generator is mounted at
/// `/work/.oav/configs/SCOPE/NAME.yaml`.
pub proof fn law_builtin_config_path_layout(scope: Seq<char>, generator: Seq<char>)
    ensures
        builtin_config_path(scope, generator) == "/work/.oav/configs/"@ + scope + "/"@ + generator + ".yaml"@,
{
}

} // verus!
