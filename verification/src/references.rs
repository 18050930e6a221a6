//! Editable copies of the shipped generator configs under
//! `.oav/generators/`, and spotting which of them the user changed.
use vstd::prelude::*;
use crate::generators::{
    builtin_client_generators, builtin_server_generators, client_generator_names,
    generator_config, is_builtin_def, server_generator_names, table_matches,
};
use crate::order::{lex_sorted, sort_strings};
use crate::pipeline::commands::scoped;
use crate::text::{owned, push_str, str_eq};
use vstd::string::StringSliceAdditionalSpecFns;

verus! {

/// A reference copy of a shipped config: where it goes under `.oav/`, the
/// directory that holds it, and the shipped text.
#[derive(Debug, Clone)]
pub struct ReferenceFile {
    pub dir: String,
    pub rel: String,
    pub contents: &'static str,
}

/// `generators/SCOPE/NAME.yaml`.
pub open spec fn reference_rel(scope: Seq<char>, name: Seq<char>) -> Seq<char> {
    scoped("generators/"@, scope, name, ".yaml"@)
}

/// The reference file of the built-in generator `name` in `scope`.
pub open spec fn is_reference(r: ReferenceFile, scope: Seq<char>, name: Seq<char>) -> bool {
    &&& r.dir@ == "generators/"@ + scope
    &&& r.rel@ == reference_rel(scope, name)
    &&& r.contents@ == generator_config(scope, name)
}

/// The reference files of every built-in generator, server generators first.
pub open spec fn references_match(refs: Seq<ReferenceFile>) -> bool {
    let s = server_generator_names();
    let c = client_generator_names();
    &&& refs.len() == s.len() + c.len()
    &&& forall|i: int| 0 <= i < s.len() ==> is_reference(#[trigger] refs[i], "server"@, s[i])
    &&& forall|i: int| s.len() <= i < refs.len() ==> is_reference(#[trigger] refs[i], "client"@, c[i - s.len()])
}

fn push_references(refs: &mut Vec<ReferenceFile>, scope: &str)
    requires
        scope@ == "server"@ || scope@ == "client"@,
    ensures
        final(refs)@.len() == old(refs)@.len() + (if scope@ == "server"@ {
            server_generator_names()
        } else {
            client_generator_names()
        }).len(),
        forall|i: int| 0 <= i < old(refs)@.len() ==> #[trigger] final(refs)@[i] == old(refs)@[i],
        forall|i: int| 0 <= i < final(refs)@.len() - old(refs)@.len() ==> is_reference(
            #[trigger] final(refs)@[old(refs)@.len() + i],
            scope@,
            (if scope@ == "server"@ {
                server_generator_names()
            } else {
                client_generator_names()
            })[i],
        ),
{
    let defs = if str_eq(scope, "server") {
        builtin_server_generators()
    } else {
        builtin_client_generators()
    };
    proof {
        reveal_strlit("server");
        reveal_strlit("client");
        assert("client"@ != "server"@) by {
            assert("client"@[0] != "server"@[0]);
        }
    }
    let ghost names = if scope@ == "server"@ {
        server_generator_names()
    } else {
        client_generator_names()
    };
    assert(table_matches(defs@, scope@));
    let ghost r0 = refs@;
    let mut i: usize = 0;
    while i < defs.len()
        invariant
            i <= defs.len(),
            table_matches(defs@, scope@),
            defs@.len() == names.len(),
            names == (if scope@ == "server"@ {
                server_generator_names()
            } else {
                client_generator_names()
            }),
            scope@ == "server"@ || scope@ == "client"@,
            "client"@ != "server"@,
            refs@.len() == r0.len() + i,
            forall|k: int| 0 <= k < r0.len() ==> #[trigger] refs@[k] == r0[k],
            forall|k: int| 0 <= k < i ==> is_reference(#[trigger] refs@[r0.len() + k], scope@, names[k]),
        decreases defs.len() - i,
    {
        let d = defs[i];
        assert(is_builtin_def(defs@[i as int], scope@, names[i as int]));
        let mut dir = owned("generators/");
        push_str(&mut dir, scope);
        let mut rel = owned("generators/");
        push_str(&mut rel, scope);
        push_str(&mut rel, "/");
        push_str(&mut rel, d.name);
        push_str(&mut rel, ".yaml");
        refs.push(ReferenceFile { dir, rel, contents: d.config_yaml });
        i = i + 1;
    }
}

/// The reference copies of all built-in configs, server generators first.
pub fn generator_references() -> (res: Vec<ReferenceFile>)
    ensures
        references_match(res@),
{
    let mut refs: Vec<ReferenceFile> = Vec::new();
    proof {
        reveal_strlit("server");
        reveal_strlit("client");
        assert("client"@ != "server"@) by {
            assert("client"@[0] != "server"@[0]);
        }
    }
    push_references(&mut refs, "server");
    let ghost after_server = refs@;
    assert(forall|i: int| 0 <= i < after_server.len() ==> is_reference(#[trigger] after_server[0 + i], "server"@, server_generator_names()[i]));
    push_references(&mut refs, "client");
    let ghost s = server_generator_names();
    assert forall|i: int| 0 <= i < s.len() implies is_reference(#[trigger] refs@[i], "server"@, s[i]) by {
        assert(refs@[i] == after_server[i]);
        assert(after_server[0 + i] == after_server[i]);
    }
    assert forall|i: int| s.len() <= i < refs@.len() implies is_reference(#[trigger] refs@[i], "client"@, client_generator_names()[i - s.len()]) by {
        let k = i - s.len();
        assert(refs@[after_server.len() + k] == refs@[i]);
    }
    refs
}

/// The bytes of `b` differ from the UTF-8 encoding of `text`.
pub open spec fn differs(b: Seq<u8>, text: Seq<char>) -> bool {
    b != vstd::utf8::encode_utf8(text)
}

/// The references whose copy on disk was read and differs from the shipped
/// text, in order.
pub open spec fn changed_refs(refs: Seq<ReferenceFile>, disk: Seq<Option<Vec<u8>>>) -> Seq<Seq<char>>
    decreases refs.len(),
{
    if refs.len() == 0 || disk.len() != refs.len() {
        Seq::empty()
    } else {
        let r = changed_refs(refs.drop_last(), disk.drop_last());
        if disk.last() matches Some(b) && differs(b@, refs.last().contents@) {
            r.push(refs.last().rel@)
        } else {
            r
        }
    }
}

/// The files found on disk that no reference names, in order.
pub open spec fn unknown_files(refs: Seq<ReferenceFile>, files: Seq<Seq<char>>) -> Seq<Seq<char>>
    decreases files.len(),
{
    if files.len() == 0 {
        Seq::empty()
    } else {
        let r = unknown_files(refs, files.drop_last());
        if exists|i: int| 0 <= i < refs.len() && refs[i].rel@ == files.last() {
            r
        } else {
            r.push(files.last())
        }
    }
}

fn bytes_differ(b: &Vec<u8>, text: &str) -> (res: bool)
    ensures
        res == differs(b@, text@),
{
    let t = text.as_bytes();
    if b.len() != t.len() {
        return true;
    }
    let mut i: usize = 0;
    while i < b.len()
        invariant
            i <= b.len(),
            b.len() == t@.len(),
            t@ == text.spec_bytes(),
            forall|k: int| 0 <= k < i ==> b@[k] == t@[k],
        decreases b.len() - i,
    {
        if b[i] != t[i] {
            assert(b@[i as int] != t@[i as int]);
            return true;
        }
        i = i + 1;
    }
    assert(b@ =~= t@);
    false
}

/// Reference files that the user changed or added: those whose copy on
/// disk (`disk[i]` for `refs[i]`, `None` when it could not be read)
/// differs from the shipped text, and the files found under
/// `.oav/generators/` (`files`, relative to `.oav/`) that no reference
/// names; sorted.
pub fn modified_references(refs: &Vec<ReferenceFile>, disk: &Vec<Option<Vec<u8>>>, files: &Vec<String>) -> (res: Vec<String>)
    requires
        disk.len() == refs.len(),
    ensures
        lex_sorted(res.deep_view()),
        res.deep_view().to_multiset() == (changed_refs(refs@, disk@) + unknown_files(refs@, files.deep_view())).to_multiset(),
{
    let mut found: Vec<String> = Vec::new();
    let mut i: usize = 0;
    assert(refs@.take(0) =~= Seq::<ReferenceFile>::empty());
    while i < refs.len()
        invariant
            i <= refs.len(),
            disk.len() == refs.len(),
            found.deep_view() == changed_refs(refs@.take(i as int), disk@.take(i as int)),
        decreases refs.len() - i,
    {
        assert(refs@.take(i + 1).drop_last() =~= refs@.take(i as int));
        assert(disk@.take(i + 1).drop_last() =~= disk@.take(i as int));
        match &disk[i] {
            Some(b) => {
                if bytes_differ(b, refs[i].contents) {
                    let ghost f0 = found.deep_view();
                    found.push(refs[i].rel.clone());
                    assert(found.deep_view() =~= f0.push(refs@[i as int].rel@));
                }
            },
            None => {},
        }
        i = i + 1;
    }
    assert(refs@.take(i as int) =~= refs@);
    assert(disk@.take(i as int) =~= disk@);
    let ghost changed = found.deep_view();
    let mut j: usize = 0;
    let ghost fv = files.deep_view();
    assert(fv.take(0) =~= Seq::<Seq<char>>::empty());
    while j < files.len()
        invariant
            j <= files.len(),
            fv == files.deep_view(),
            found.deep_view() == changed + unknown_files(refs@, fv.take(j as int)),
        decreases files.len() - j,
    {
        assert(fv.take(j + 1).drop_last() =~= fv.take(j as int));
        assert(fv.take(j + 1).last() == files@[j as int]@);
        let mut known = false;
        let mut k: usize = 0;
        while k < refs.len()
            invariant
                k <= refs.len(),
                j < files.len(),
                known == exists|m: int| 0 <= m < k && refs@[m].rel@ == files@[j as int]@,
            decreases refs.len() - k,
        {
            if str_eq(refs[k].rel.as_str(), files[j].as_str()) {
                known = true;
            }
            k = k + 1;
        }
        if !known {
            let ghost f0 = found.deep_view();
            found.push(files[j].clone());
            assert(found.deep_view() =~= f0.push(files@[j as int]@));
        }
        j = j + 1;
        assert(found.deep_view() =~= changed + unknown_files(refs@, fv.take(j as int)));
    }
    assert(fv.take(j as int) =~= fv);
    sort_strings(&found)
}

} // verus!
