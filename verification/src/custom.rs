//! Generators that a project defines for itself in YAML files.
use vstd::prelude::*;
use crate::text::str_eq;

verus! {

/// The container that produces a custom generator's sources.
#[derive(Debug, Clone)]
pub struct GenerateBlock {
    pub image: String,
    /// Command line run in the image; `{spec}` stands for the spec's path.
    pub command: String,
}

/// The container that compiles a custom generator's output.
#[derive(Debug, Clone)]
pub struct CompileBlock {
    pub image: String,
    pub command: String,
}

/// A custom generator definition.
#[derive(Debug, Clone)]
pub struct CustomGeneratorDef {
    pub name: String,
    /// `server` or `client`.
    pub scope: String,
    pub generate: GenerateBlock,
    pub compile: Option<CompileBlock>,
}

/// Names of the definitions whose scope is `scope`, in order.
pub open spec fn names_in_scope(defs: Seq<CustomGeneratorDef>, scope: Seq<char>) -> Seq<Seq<char>>
    decreases defs.len(),
{
    if defs.len() == 0 {
        Seq::empty()
    } else {
        let r = names_in_scope(defs.drop_last(), scope);
        if defs.last().scope@ == scope {
            r.push(defs.last().name@)
        } else {
            r
        }
    }
}

/// Names of the definitions in `scope`, in order.
pub fn names_for_scope(custom: &[CustomGeneratorDef], scope: &str) -> (res: Vec<String>)
    ensures
        res@.map_values(|s: String| s@) == names_in_scope(custom@, scope@),
{
    let mut res: Vec<String> = Vec::new();
    let mut i: usize = 0;
    assert(custom@.take(0) =~= Seq::<CustomGeneratorDef>::empty());
    while i < custom.len()
        invariant
            i <= custom@.len(),
            res@.map_values(|s: String| s@) == names_in_scope(custom@.take(i as int), scope@),
        decreases custom@.len() - i,
    {
        assert(custom@.take(i + 1).drop_last() =~= custom@.take(i as int));
        if str_eq(custom[i].scope.as_str(), scope) {
            let n = custom[i].name.clone();
            res.push(n);
        }
        i = i + 1;
        assert(res@.map_values(|s: String| s@) =~= names_in_scope(custom@.take(i as int), scope@));
    }
    assert(custom@.take(i as int) =~= custom@);
    res
}

/// Names of the custom server generators.
pub fn server_names(custom: &[CustomGeneratorDef]) -> (res: Vec<String>)
    ensures
        res@.map_values(|s: String| s@) == names_in_scope(custom@, "server"@),
{
    names_for_scope(custom, "server")
}

/// Names of the custom client generators.
pub fn client_names(custom: &[CustomGeneratorDef]) -> (res: Vec<String>)
    ensures
        res@.map_values(|s: String| s@) == names_in_scope(custom@, "client"@),
{
    names_for_scope(custom, "client")
}

} // verus!
