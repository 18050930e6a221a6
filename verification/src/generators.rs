//! The built-in generator catalogue.
use vstd::prelude::*;
use crate::custom::{names_in_scope, server_names as custom_server_names, client_names as custom_client_names, CustomGeneratorDef};
use crate::text::{contains_sub, occurs_at, owned, str_eq};

verus! {

/// A built-in generator definition.
#[derive(Debug, Clone, Copy)]
pub struct GeneratorDef {
    pub name: &'static str,
    pub scope: &'static str,
    pub config_yaml: &'static str,
}

/// Built-in server generators, in catalogue order.
pub open spec fn server_generator_names() -> Seq<Seq<char>> {
    seq!["spring"@, "kotlin-spring"@, "go-server"@, "python-fastapi"@, "aspnetcore"@, "typescript-nestjs"@]
}

/// Built-in client generators, in catalogue order.
pub open spec fn client_generator_names() -> Seq<Seq<char>> {
    seq!["java"@, "kotlin"@, "python"@, "go"@, "csharp"@, "typescript-axios"@, "typescript-fetch"@, "typescript-node"@]
}

/// Built-in generator names of a scope; no scope but `server` and `client`
/// has any.
pub open spec fn builtin_names(scope: Seq<char>) -> Seq<Seq<char>> {
    if scope == "server"@ {
        server_generator_names()
    } else if scope == "client"@ {
        client_generator_names()
    } else {
        Seq::empty()
    }
}

/// The openapi-generator configuration shipped for a built-in generator:
/// its generator name and an output directory under `.oav/generated/`.
pub open spec fn generator_config(scope: Seq<char>, name: Seq<char>) -> Seq<char> {
    "generatorName: "@ + name + "\noutputDir: .oav/generated/"@ + scope + "/"@ + name + "\n"@
}

/// `d` is the built-in definition of `name` in `scope`.
pub open spec fn is_builtin_def(d: GeneratorDef, scope: Seq<char>, name: Seq<char>) -> bool {
    &&& d.name@ == name
    &&& d.scope@ == scope
    &&& d.config_yaml@ == generator_config(scope, name)
}

/// `defs` is the catalogue of `scope`, in order.
pub open spec fn table_matches(defs: Seq<GeneratorDef>, scope: Seq<char>) -> bool {
    &&& defs.len() == builtin_names(scope).len()
    &&& forall|i: int| 0 <= i < defs.len() ==> is_builtin_def(#[trigger] defs[i], scope, builtin_names(scope)[i])
}

fn def(name: &'static str, scope: &'static str, config_yaml: &'static str) -> (d: GeneratorDef)
    requires
        config_yaml@ == generator_config(scope@, name@),
    ensures
        is_builtin_def(d, scope@, name@),
{
    GeneratorDef { name, scope, config_yaml }
}

/// The built-in server generators.
pub fn builtin_server_generators() -> (res: Vec<GeneratorDef>)
    ensures
        table_matches(res@, "server"@),
{
    let mut v: Vec<GeneratorDef> = Vec::new();
    proof {
        reveal_strlit("generatorName: ");
        reveal_strlit("\noutputDir: .oav/generated/");
        reveal_strlit("/");
        reveal_strlit("\n");
    }
    proof {
        reveal_strlit("spring");
        reveal_strlit("server");
        reveal_strlit("generatorName: spring\noutputDir: .oav/generated/server/spring\n");
        assert("generatorName: spring\noutputDir: .oav/generated/server/spring\n"@ =~= generator_config("server"@, "spring"@));
    }
    v.push(def("spring", "server", "generatorName: spring\noutputDir: .oav/generated/server/spring\n"));
    proof {
        reveal_strlit("kotlin-spring");
        reveal_strlit("server");
        reveal_strlit("generatorName: kotlin-spring\noutputDir: .oav/generated/server/kotlin-spring\n");
        assert("generatorName: kotlin-spring\noutputDir: .oav/generated/server/kotlin-spring\n"@ =~= generator_config("server"@, "kotlin-spring"@));
    }
    v.push(def("kotlin-spring", "server", "generatorName: kotlin-spring\noutputDir: .oav/generated/server/kotlin-spring\n"));
    proof {
        reveal_strlit("go-server");
        reveal_strlit("server");
        reveal_strlit("generatorName: go-server\noutputDir: .oav/generated/server/go-server\n");
        assert("generatorName: go-server\noutputDir: .oav/generated/server/go-server\n"@ =~= generator_config("server"@, "go-server"@));
    }
    v.push(def("go-server", "server", "generatorName: go-server\noutputDir: .oav/generated/server/go-server\n"));
    proof {
        reveal_strlit("python-fastapi");
        reveal_strlit("server");
        reveal_strlit("generatorName: python-fastapi\noutputDir: .oav/generated/server/python-fastapi\n");
        assert("generatorName: python-fastapi\noutputDir: .oav/generated/server/python-fastapi\n"@ =~= generator_config("server"@, "python-fastapi"@));
    }
    v.push(def("python-fastapi", "server", "generatorName: python-fastapi\noutputDir: .oav/generated/server/python-fastapi\n"));
    proof {
        reveal_strlit("aspnetcore");
        reveal_strlit("server");
        reveal_strlit("generatorName: aspnetcore\noutputDir: .oav/generated/server/aspnetcore\n");
        assert("generatorName: aspnetcore\noutputDir: .oav/generated/server/aspnetcore\n"@ =~= generator_config("server"@, "aspnetcore"@));
    }
    v.push(def("aspnetcore", "server", "generatorName: aspnetcore\noutputDir: .oav/generated/server/aspnetcore\n"));
    proof {
        reveal_strlit("typescript-nestjs");
        reveal_strlit("server");
        reveal_strlit("generatorName: typescript-nestjs\noutputDir: .oav/generated/server/typescript-nestjs\n");
        assert("generatorName: typescript-nestjs\noutputDir: .oav/generated/server/typescript-nestjs\n"@ =~= generator_config("server"@, "typescript-nestjs"@));
    }
    v.push(def("typescript-nestjs", "server", "generatorName: typescript-nestjs\noutputDir: .oav/generated/server/typescript-nestjs\n"));
    v
}

/// The built-in client generators.
pub fn builtin_client_generators() -> (res: Vec<GeneratorDef>)
    ensures
        table_matches(res@, "client"@),
{
    let mut v: Vec<GeneratorDef> = Vec::new();
    proof {
        reveal_strlit("generatorName: ");
        reveal_strlit("\noutputDir: .oav/generated/");
        reveal_strlit("/");
        reveal_strlit("\n");
    }
    proof {
        reveal_strlit("java");
        reveal_strlit("client");
        reveal_strlit("generatorName: java\noutputDir: .oav/generated/client/java\n");
        assert("generatorName: java\noutputDir: .oav/generated/client/java\n"@ =~= generator_config("client"@, "java"@));
    }
    v.push(def("java", "client", "generatorName: java\noutputDir: .oav/generated/client/java\n"));
    proof {
        reveal_strlit("kotlin");
        reveal_strlit("client");
        reveal_strlit("generatorName: kotlin\noutputDir: .oav/generated/client/kotlin\n");
        assert("generatorName: kotlin\noutputDir: .oav/generated/client/kotlin\n"@ =~= generator_config("client"@, "kotlin"@));
    }
    v.push(def("kotlin", "client", "generatorName: kotlin\noutputDir: .oav/generated/client/kotlin\n"));
    proof {
        reveal_strlit("python");
        reveal_strlit("client");
        reveal_strlit("generatorName: python\noutputDir: .oav/generated/client/python\n");
        assert("generatorName: python\noutputDir: .oav/generated/client/python\n"@ =~= generator_config("client"@, "python"@));
    }
    v.push(def("python", "client", "generatorName: python\noutputDir: .oav/generated/client/python\n"));
    proof {
        reveal_strlit("go");
        reveal_strlit("client");
        reveal_strlit("generatorName: go\noutputDir: .oav/generated/client/go\n");
        assert("generatorName: go\noutputDir: .oav/generated/client/go\n"@ =~= generator_config("client"@, "go"@));
    }
    v.push(def("go", "client", "generatorName: go\noutputDir: .oav/generated/client/go\n"));
    proof {
        reveal_strlit("csharp");
        reveal_strlit("client");
        reveal_strlit("generatorName: csharp\noutputDir: .oav/generated/client/csharp\n");
        assert("generatorName: csharp\noutputDir: .oav/generated/client/csharp\n"@ =~= generator_config("client"@, "csharp"@));
    }
    v.push(def("csharp", "client", "generatorName: csharp\noutputDir: .oav/generated/client/csharp\n"));
    proof {
        reveal_strlit("typescript-axios");
        reveal_strlit("client");
        reveal_strlit("generatorName: typescript-axios\noutputDir: .oav/generated/client/typescript-axios\n");
        assert("generatorName: typescript-axios\noutputDir: .oav/generated/client/typescript-axios\n"@ =~= generator_config("client"@, "typescript-axios"@));
    }
    v.push(def("typescript-axios", "client", "generatorName: typescript-axios\noutputDir: .oav/generated/client/typescript-axios\n"));
    proof {
        reveal_strlit("typescript-fetch");
        reveal_strlit("client");
        reveal_strlit("generatorName: typescript-fetch\noutputDir: .oav/generated/client/typescript-fetch\n");
        assert("generatorName: typescript-fetch\noutputDir: .oav/generated/client/typescript-fetch\n"@ =~= generator_config("client"@, "typescript-fetch"@));
    }
    v.push(def("typescript-fetch", "client", "generatorName: typescript-fetch\noutputDir: .oav/generated/client/typescript-fetch\n"));
    proof {
        reveal_strlit("typescript-node");
        reveal_strlit("client");
        reveal_strlit("generatorName: typescript-node\noutputDir: .oav/generated/client/typescript-node\n");
        assert("generatorName: typescript-node\noutputDir: .oav/generated/client/typescript-node\n"@ =~= generator_config("client"@, "typescript-node"@));
    }
    v.push(def("typescript-node", "client", "generatorName: typescript-node\noutputDir: .oav/generated/client/typescript-node\n"));
    proof {
        reveal_strlit("server");
        assert("client"@ != "server"@) by {
            assert("client"@[0] != "server"@[0]);
        }
        assert(builtin_names("client"@) == client_generator_names());
    }
    v
}

/// The built-in generators of `scope`; none for a scope but `server` and
/// `client`.
pub fn builtin_generators_for_scope(scope: &str) -> (res: Vec<GeneratorDef>)
    ensures
        table_matches(res@, scope@),
{
    if str_eq(scope, "server") {
        builtin_server_generators()
    } else if str_eq(scope, "client") {
        builtin_client_generators()
    } else {
        Vec::new()
    }
}

/// The built-in generator `name` of `scope`, if there is one.
pub fn find_builtin(name: &str, scope: &str) -> (res: Option<GeneratorDef>)
    ensures
        match res {
            Some(d) => builtin_names(scope@).contains(name@) && is_builtin_def(d, scope@, name@),
            None => !builtin_names(scope@).contains(name@),
        },
{
    let defs = builtin_generators_for_scope(scope);
    let ghost names = builtin_names(scope@);
    let mut i: usize = 0;
    while i < defs.len()
        invariant
            i <= defs.len(),
            names == builtin_names(scope@),
            table_matches(defs@, scope@),
            forall|k: int| 0 <= k < i ==> names[k] != name@,
        decreases defs.len() - i,
    {
        let d = defs[i];
        assert(is_builtin_def(defs@[i as int], scope@, names[i as int]));
        if str_eq(d.name, name) {
            assert(names[i as int] == name@);
            return Some(d);
        }
        i = i + 1;
    }
    assert forall|k: int| 0 <= k < names.len() implies names[k] != name@ by {}
    None
}

/// Every shipped generator config writes its output under
/// `.oav/generated/`.
pub proof fn law_configs_output_under_workspace(scope: Seq<char>, name: Seq<char>)
    ensures
        contains_sub(generator_config(scope, name), "outputDir: .oav/generated/"@),
{
    reveal_strlit("generatorName: ");
    reveal_strlit("\noutputDir: .oav/generated/");
    reveal_strlit("outputDir: .oav/generated/");
    let c = generator_config(scope, name);
    let i: int = ("generatorName: "@.len() + name.len() + 1) as int;
    assert(c.subrange(i, i + ("outputDir: .oav/generated/"@.len() as int)) =~= "outputDir: .oav/generated/"@);
    assert(occurs_at(c, "outputDir: .oav/generated/"@, i));
}

/// Every built-in generator, server generators first.
pub fn builtin_generators() -> (res: Vec<GeneratorDef>)
    ensures
        res@.len() == server_generator_names().len() + client_generator_names().len(),
        table_matches(res@.take(server_generator_names().len() as int), "server"@),
        table_matches(res@.skip(server_generator_names().len() as int), "client"@),
{
    let mut res = builtin_server_generators();
    let mut clients = builtin_client_generators();
    let ghost s = res@;
    let ghost c = clients@;
    res.append(&mut clients);
    proof {
        reveal_strlit("server");
        reveal_strlit("client");
        assert("client"@ != "server"@) by {
            assert("client"@[0] != "server"@[0]);
        }
    }
    assert(res@.take(s.len() as int) =~= s);
    assert(res@.skip(s.len() as int) =~= c);
    res
}

/// Names of the built-in generators of a catalogue.
fn names_of(defs: &Vec<GeneratorDef>) -> (res: Vec<&'static str>)
    ensures
        res@.map_values(|s: &str| s@) == defs@.map_values(|d: GeneratorDef| d.name@),
{
    let mut res: Vec<&'static str> = Vec::new();
    let mut i: usize = 0;
    while i < defs.len()
        invariant
            i <= defs.len(),
            res@.map_values(|s: &str| s@) == defs@.take(i as int).map_values(|d: GeneratorDef| d.name@),
        decreases defs.len() - i,
    {
        let ghost old = res@;
        let nm = defs[i].name;
        res.push(nm);
        i = i + 1;
        assert(res@ == old.push(nm));
        assert(defs@.take(i as int) =~= defs@.take(i - 1).push(defs@[i - 1]));
        assert(res@.map_values(|s: &str| s@) =~= old.map_values(|s: &str| s@).push(nm@));
        assert(defs@.take(i as int).map_values(|d: GeneratorDef| d.name@) =~= defs@.take(i - 1).map_values(|d: GeneratorDef| d.name@).push(nm@));
    }
    assert(defs@.take(i as int) =~= defs@);
    res
}

proof fn lemma_table_names(defs: Seq<GeneratorDef>, scope: Seq<char>)
    requires
        table_matches(defs, scope),
    ensures
        defs.map_values(|d: GeneratorDef| d.name@) == builtin_names(scope),
{
    assert(defs.map_values(|d: GeneratorDef| d.name@) =~= builtin_names(scope));
}

/// Names of the built-in server generators.
pub fn server_names() -> (res: Vec<&'static str>)
    ensures
        res@.map_values(|s: &str| s@) == server_generator_names(),
{
    let defs = builtin_server_generators();
    proof {
        lemma_table_names(defs@, "server"@);
    }
    names_of(&defs)
}

/// Names of the built-in client generators.
pub fn client_names() -> (res: Vec<&'static str>)
    ensures
        res@.map_values(|s: &str| s@) == client_generator_names(),
{
    let defs = builtin_client_generators();
    proof {
        lemma_table_names(defs@, "client"@);
        reveal_strlit("server");
        reveal_strlit("client");
        assert("client"@ != "server"@) by {
            assert("client"@[0] != "server"@[0]);
        }
    }
    names_of(&defs)
}

/// Built-in names followed by the custom names of a scope.
fn all_names(builtin: Vec<&'static str>, custom: Vec<String>) -> (res: Vec<String>)
    ensures
        res@.map_values(|s: String| s@) == builtin@.map_values(|s: &str| s@) + custom@.map_values(
            |s: String| s@,
        ),
{
    let mut res: Vec<String> = Vec::new();
    let mut i: usize = 0;
    while i < builtin.len()
        invariant
            i <= builtin.len(),
            res@.map_values(|s: String| s@) == builtin@.take(i as int).map_values(|s: &str| s@),
        decreases builtin.len() - i,
    {
        let ghost old = res@;
        let t = owned(builtin[i]);
        res.push(t);
        i = i + 1;
        assert(res@ == old.push(t));
        assert(builtin@.take(i as int) =~= builtin@.take(i - 1).push(builtin@[i - 1]));
        assert(res@.map_values(|s: String| s@) =~= old.map_values(|s: String| s@).push(t@));
        assert(builtin@.take(i as int).map_values(|s: &str| s@) =~= builtin@.take(i - 1).map_values(|s: &str| s@).push(builtin@[i - 1]@));
    }
    assert(builtin@.take(i as int) =~= builtin@);
    let ghost r0 = res@;
    let mut custom = custom;
    let ghost c0 = custom@;
    res.append(&mut custom);
    assert(res@ =~= r0 + c0);
    assert(res@.map_values(|s: String| s@) =~= r0.map_values(|s: String| s@) + c0.map_values(
        |s: String| s@,
    ));
    res
}

/// Built-in plus custom server generator names.
pub fn all_server_names(custom: &[CustomGeneratorDef]) -> (res: Vec<String>)
    ensures
        res@.map_values(|s: String| s@) == server_generator_names() + names_in_scope(custom@, "server"@),
{
    all_names(server_names(), custom_server_names(custom))
}

/// Built-in plus custom client generator names.
pub fn all_client_names(custom: &[CustomGeneratorDef]) -> (res: Vec<String>)
    ensures
        res@.map_values(|s: String| s@) == client_generator_names() + names_in_scope(custom@, "client"@),
{
    all_names(client_names(), custom_client_names(custom))
}

} // verus!
