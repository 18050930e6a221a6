//! Recognising and locating OpenAPI spec files.
use vstd::prelude::*;
use crate::order::{lex_sorted, sort_strings};
use crate::paths::{has_parent_dir, has_parent_dir_exec, is_absolute, lemma_strip_joined, plain_relative, join_path, join_path_exec, segments, segments_of, strip_prefix, strip_prefix_exec};
use crate::text::{
    ascii_lower, char_ascii_lower, char_is_ws, chars_eq, chars_of, contains_chars, contains_sub,
    eq_ignore_ascii_case, is_ws, owned, str_eq, trim, trim_chars,
};

verus! {

// ---------------------------------------------------------------------------
// Content heuristics
// ---------------------------------------------------------------------------

/// How many characters of a file the quick check inspects.
pub const HEAD_CHARS: usize = 512;

/// The first 512 characters of `content`.
pub open spec fn head(content: Seq<char>) -> Seq<char> {
    if content.len() <= 512 {
        content
    } else {
        content.take(512)
    }
}

/// `s` without its white-space characters.
pub open spec fn without_ws(s: Seq<char>) -> Seq<char> {
    s.filter(|c: char| !is_ws(c))
}

/// The quick check: within the first 512 characters, JSON content has the
/// key `"openapi":` (white space ignored) and YAML content has `openapi:`.
pub open spec fn looks_like(content: Seq<char>, json: bool) -> bool {
    if json {
        contains_sub(without_ws(head(content)), "\"openapi\":"@)
    } else {
        contains_sub(head(content), "openapi:"@)
    }
}

/// Only the first 512 characters decide the quick check.
pub proof fn law_looks_like_reads_only_the_head(content: Seq<char>, more: Seq<char>, json: bool)
    requires
        content.len() >= 512,
    ensures
        looks_like(content + more, json) == looks_like(content, json),
{
    assert(head(content + more) =~= head(content));
}

/// Whether `content` looks like an OpenAPI spec (see [`looks_like`]).
pub fn looks_like_openapi(content: &str, json: bool) -> (res: bool)
    ensures
        res == looks_like(content@, json),
{
    let all = chars_of(content);
    let n = if all.len() <= HEAD_CHARS {
        all.len()
    } else {
        HEAD_CHARS
    };
    let mut h: Vec<char> = Vec::new();
    let mut i: usize = 0;
    while i < n
        invariant
            i <= n <= all.len(),
            h@ == all@.take(i as int),
        decreases n - i,
    {
        h.push(all[i]);
        i = i + 1;
        assert(all@.take(i as int) =~= all@.take(i - 1).push(all@[i - 1]));
    }
    assert(h@ =~= head(content@));
    if json {
        let mut stripped: Vec<char> = Vec::new();
        let mut k: usize = 0;
        assert(h@.take(0).filter(|c: char| !is_ws(c)) =~= Seq::<char>::empty()) by {
            reveal(Seq::filter);
        }
        while k < h.len()
            invariant
                k <= h.len(),
                stripped@ == h@.take(k as int).filter(|c: char| !is_ws(c)),
            decreases h.len() - k,
        {
            proof {
                reveal(Seq::filter);
                assert(h@.take(k + 1).drop_last() =~= h@.take(k as int));
            }
            if !char_is_ws(h[k]) {
                stripped.push(h[k]);
            }
            k = k + 1;
        }
        assert(h@.take(k as int) =~= h@);
        let key = chars_of("\"openapi\":");
        contains_chars(&stripped, &key)
    } else {
        let key = chars_of("openapi:");
        contains_chars(&h, &key)
    }
}

/// The names of the keys of a YAML document's top-level mapping, as
/// `yaml_serde` parses it: `None` when the text does not parse or its top
/// level is not a plain mapping; a key that is not a string has no name.
pub uninterp spec fn yaml_mapping_keys(content: Seq<char>) -> Option<Seq<Option<Seq<char>>>>;

/// Parses `content` with `yaml_serde::from_str` into a `yaml_serde::Value`
/// and lists the keys of a top-level mapping, each by `Value::as_str`;
/// `None` for a parse error or any other kind of top-level value. The
/// result is [`yaml_mapping_keys`] of the text.
#[verifier::external_body]
fn yaml_top_level_keys(content: &str) -> (res: Option<Vec<Option<String>>>)
    ensures
        match res {
            Some(ks) => yaml_mapping_keys(content@) == Some(
                ks@.map_values(|k: Option<String>| match k {
                    Some(s) => Some(s@),
                    None => None,
                }),
            ),
            None => yaml_mapping_keys(content@) is None,
        },
{
    match yaml_serde::from_str::<yaml_serde::Value>(content) {
        Ok(yaml_serde::Value::Mapping(m)) => Some(m.keys().map(|k| k.as_str().map(String::from)).collect()),
        Ok(yaml_serde::Value::Null) => None,
        Ok(yaml_serde::Value::Bool(_)) => None,
        Ok(yaml_serde::Value::Number(_)) => None,
        Ok(yaml_serde::Value::String(_)) => None,
        Ok(yaml_serde::Value::Sequence(_)) => None,
        Ok(yaml_serde::Value::Tagged(_)) => None,
        Err(_) => None,
    }
}

/// The views of parsed key names.
pub open spec fn key_views(keys: Seq<Option<String>>) -> Seq<Option<Seq<char>>> {
    keys.map_values(|k: Option<String>| match k {
        Some(s) => Some(s@),
        None => None,
    })
}

/// Parsed top-level keys (`None` when the text gave no mapping) that
/// include `openapi`.
pub open spec fn keys_have_openapi(keys: Option<Seq<Option<Seq<char>>>>) -> bool {
    keys matches Some(ks) && ks.contains(Some("openapi"@))
}

/// A parsed document is a mapping with an `openapi` key.
pub open spec fn has_openapi_key(content: Seq<char>) -> bool {
    keys_have_openapi(yaml_mapping_keys(content))
}

/// Whether the top-level keys of a parsed document (`None` when it gave no
/// mapping) include `openapi`.
pub fn openapi_in_keys(parsed: &Option<Vec<Option<String>>>) -> (res: bool)
    ensures
        res == keys_have_openapi(
            match parsed {
                Some(ks) => Some(key_views(ks@)),
                None => None,
            },
        ),
{
    let keys = match parsed {
        Some(ks) => ks,
        None => return false,
    };
    assert(*parsed == Some(*keys));
    let ghost kv = key_views(keys@);
    let mut i: usize = 0;
    while i < keys.len()
        invariant
            i <= keys.len(),
            kv == key_views(keys@),
            *parsed == Some(*keys),
            forall|j: int| 0 <= j < i ==> kv[j] != Some("openapi"@),
        decreases keys.len() - i,
    {
        match &keys[i] {
            Some(k) => {
                if str_eq(k.as_str(), "openapi") {
                    assert(kv[i as int] == Some("openapi"@));
                    assert(kv.contains(Some("openapi"@)));
                    return true;
                }
            },
            None => {},
        }
        i = i + 1;
    }
    false
}

/// The two-stage check of a spec file: the quick check on its first bytes
/// (`prefix`, decoded as text), then a full parse of the whole text
/// (`content`) that must give a mapping with an `openapi` key. JSON is YAML,
/// so the same parser serves both.
pub fn is_openapi_document(prefix: &str, content: &str, json: bool) -> (res: bool)
    ensures
        res == (looks_like(prefix@, json) && has_openapi_key(content@)),
{
    if !looks_like_openapi(prefix, json) {
        return false;
    }
    let keys = yaml_top_level_keys(content);
    openapi_in_keys(&keys)
}

// ---------------------------------------------------------------------------
// File names
// ---------------------------------------------------------------------------

/// The last component of a path, as `Path::file_name` gives it: none for a
/// path without components or ending in `..`.
pub open spec fn file_name(p: Seq<char>) -> Option<Seq<char>> {
    let segs = segments(p);
    if segs.len() == 0 || segs.last() == seq!['.', '.'] {
        None
    } else {
        Some(segs.last())
    }
}

/// The text after the last dot of a file name, as `Path::extension` gives
/// it: none without a dot, or when the only dot starts the name.
pub open spec fn extension_of(name: Seq<char>) -> Option<Seq<char>> {
    if exists|k: int| 1 <= k < name.len() && name[k] == '.' {
        let k = choose|k: int|
            1 <= k < name.len() && name[k] == '.' && forall|j: int| k < j < name.len() ==> name[j] != '.';
        Some(name.skip(k + 1))
    } else {
        None
    }
}

/// The extension of a path's file name.
pub open spec fn path_extension(p: Seq<char>) -> Option<Seq<char>> {
    match file_name(p) {
        Some(n) => extension_of(n),
        None => None,
    }
}

/// The path has one of the given extensions, compared without regard to
/// ASCII case. (No character lower-cases to one of the letters of `yaml`,
/// `yml` or `json` but that letter and its capital, so this is the
/// lower-casing comparison the tool makes.)
pub open spec fn has_extension_in(p: Seq<char>, exts: Seq<Seq<char>>) -> bool {
    path_extension(p) matches Some(e) && exists|i: int| 0 <= i < exts.len() && eq_ignore_ascii_case(e, #[trigger] exts[i])
}

fn last_dot(name: &Vec<char>) -> (res: Option<usize>)
    ensures
        match res {
            Some(k) => 1 <= k < name@.len() && name@[k as int] == '.' && forall|j: int| k < j < name@.len() ==> name@[j] != '.',
            None => !exists|k: int| 1 <= k < name@.len() && name@[k] == '.',
        },
{
    let mut i: usize = name.len();
    while i > 1
        invariant
            0 <= i <= name.len(),
            forall|j: int| i <= j < name@.len() ==> name@[j] != '.',
        decreases i,
    {
        if name[i - 1] == '.' {
            return Some(i - 1);
        }
        i = i - 1;
    }
    None
}

fn ext_eq(e: &Vec<char>, target: &str) -> (res: bool)
    ensures
        res == eq_ignore_ascii_case(e@, target@),
{
    let t = chars_of(target);
    if e.len() != t.len() {
        return false;
    }
    let mut i: usize = 0;
    while i < e.len()
        invariant
            i <= e.len(),
            e.len() == t.len(),
            t@ == target@,
            forall|k: int| 0 <= k < i ==> ascii_lower(#[trigger] e@[k]) == ascii_lower(t@[k]),
        decreases e.len() - i,
    {
        if char_ascii_lower(e[i]) != char_ascii_lower(t[i]) {
            return false;
        }
        i = i + 1;
    }
    true
}

/// The extension of a path's file name.
pub fn extension(path: &str) -> (res: Option<Vec<char>>)
    ensures
        match res {
            Some(e) => path_extension(path@) == Some(e@),
            None => path_extension(path@) is None,
        },
{
    let cs = chars_of(path);
    let segs = segments_of(&cs);
    if segs.len() == 0 {
        return None;
    }
    let name = &segs[segs.len() - 1];
    let dots: Vec<char> = vec!['.', '.'];
    assert(dots@ =~= seq!['.', '.']);
    assert(name@ == segments(path@).last());
    if chars_eq(name, &dots) {
        return None;
    }
    match last_dot(name) {
        Some(k) => {
            let mut e: Vec<char> = Vec::new();
            let mut j: usize = k + 1;
            while j < name.len()
                invariant
                    k + 1 <= j <= name.len(),
                    e@ == name@.subrange(k + 1, j as int),
                decreases name.len() - j,
            {
                e.push(name[j]);
                j = j + 1;
                assert(name@.subrange(k + 1, j as int) =~= name@.subrange(k + 1, j - 1).push(name@[j - 1]));
            }
            assert(e@ =~= name@.skip(k + 1));
            proof {
                let n = name@;
                let kk = choose|kk: int|
                    1 <= kk < n.len() && n[kk] == '.' && forall|jj: int| kk < jj < n.len() ==> n[jj] != '.';
                assert(kk == k);
            }
            Some(e)
        },
        None => None,
    }
}

/// Whether the path names a YAML or JSON file by its extension.
pub fn is_spec_file(path: &str) -> (res: bool)
    ensures
        res == has_extension_in(path@, seq!["yaml"@, "yml"@, "json"@]),
{
    match extension(path) {
        Some(e) => {
            let r = ext_eq(&e, "yaml") || ext_eq(&e, "yml") || ext_eq(&e, "json");
            let ghost exts = seq!["yaml"@, "yml"@, "json"@];
            assert(r == exists|i: int| 0 <= i < exts.len() && eq_ignore_ascii_case(e@, #[trigger] exts[i])) by {
                if eq_ignore_ascii_case(e@, "yaml"@) { assert(exts[0] == "yaml"@); }
                if eq_ignore_ascii_case(e@, "yml"@) { assert(exts[1] == "yml"@); }
                if eq_ignore_ascii_case(e@, "json"@) { assert(exts[2] == "json"@); }
            }
            r
        },
        None => false,
    }
}

/// Whether the path names a JSON file by its extension.
pub fn is_json(path: &str) -> (res: bool)
    ensures
        res == has_extension_in(path@, seq!["json"@]),
{
    match extension(path) {
        Some(e) => {
            let r = ext_eq(&e, "json");
            let ghost exts = seq!["json"@];
            assert(r == exists|i: int| 0 <= i < exts.len() && eq_ignore_ascii_case(e@, #[trigger] exts[i])) by {
                if r { assert(exts[0] == "json"@); }
            }
            r
        },
        None => false,
    }
}

// ---------------------------------------------------------------------------
// Directory walk and spec paths
// ---------------------------------------------------------------------------

/// Directories that the spec search never enters.
pub open spec fn skipped_dir_names() -> Seq<Seq<char>> {
    seq![".git"@, ".oav"@, "target"@, "node_modules"@, ".idea"@, ".vscode"@]
}

/// The walk skips an entry: a directory below the root whose name is one
/// of [`skipped_dir_names`] (a name that is not valid text counts as empty).
pub open spec fn walk_skips(depth: int, is_dir: bool, name: Option<Seq<char>>) -> bool {
    depth != 0 && is_dir && match name {
        Some(n) => skipped_dir_names().contains(n),
        None => skipped_dir_names().contains(Seq::<char>::empty()),
    }
}

/// Whether the walk skips an entry (see [`walk_skips`]).
pub fn should_skip_entry(depth: usize, is_dir: bool, name: Option<&str>) -> (res: bool)
    ensures
        res == walk_skips(
            depth as int,
            is_dir,
            match name {
                Some(n) => Some(n@),
                None => None,
            },
        ),
        res == (depth != 0 && is_dir && match name {
            Some(n) => skipped_dir_names().contains(n@),
            None => skipped_dir_names().contains(Seq::<char>::empty()),
        }),
{
    if depth == 0 || !is_dir {
        return false;
    }
    let n = match name {
        Some(n) => n,
        None => "",
    };
    let ghost target = match name {
        Some(x) => x@,
        None => Seq::<char>::empty(),
    };
    proof {
        if name is None {
            reveal_strlit("");
            assert(n@ =~= Seq::<char>::empty());
        }
    }
    assert(n@ == target);
    let skip = vec![".git", ".oav", "target", "node_modules", ".idea", ".vscode"];
    let ghost sv = skip@.map_values(|s: &str| s@);
    assert(sv =~= skipped_dir_names());
    let mut i: usize = 0;
    while i < skip.len()
        invariant
            i <= skip.len(),
            sv == skip@.map_values(|s: &str| s@),
            forall|j: int| 0 <= j < i ==> sv[j] != n@,
            n@ == target,
            sv == skipped_dir_names(),
            depth != 0 && is_dir,
            target == match name {
                Some(x) => x@,
                None => Seq::<char>::empty(),
            },
        decreases skip.len() - i,
    {
        if str_eq(skip[i], n) {
            assert(sv[i as int] == n@);
            assert(sv.contains(n@));
            return true;
        }
        i = i + 1;
    }
    assert(!sv.contains(n@));
    false
}

/// The spec walk never enters the tool directories below the root: `.git`,
/// the tool's own `.oav` workspace, `target`, `node_modules`, `.idea` and
/// `.vscode` are skipped at every depth below the root; the root itself and
/// files are never skipped.
pub proof fn law_spec_walk_skips_tool_directories(depth: int, is_dir: bool, name: Seq<char>)
    ensures
        depth > 0 && (name == ".git"@ || name == ".oav"@ || name == "target"@ || name == "node_modules"@
            || name == ".idea"@ || name == ".vscode"@) ==> walk_skips(depth, true, Some(name)),
        !walk_skips(0, is_dir, Some(name)),
        !walk_skips(depth, false, Some(name)),
{
    let d = skipped_dir_names();
    if name == ".git"@ {
        assert(d[0] == name);
    } else if name == ".oav"@ {
        assert(d[1] == name);
    } else if name == "target"@ {
        assert(d[2] == name);
    } else if name == "node_modules"@ {
        assert(d[3] == name);
    } else if name == ".idea"@ {
        assert(d[4] == name);
    } else if name == ".vscode"@ {
        assert(d[5] == name);
    }
}

/// File names that are taken as the spec without a content check when they
/// sit at the project root, in order of preference.
pub fn well_known_spec_names() -> (res: Vec<&'static str>)
    ensures
        res@.map_values(|s: &str| s@) == seq!["openapi.yaml"@, "openapi.yml"@, "openapi.json"@],
{
    let res = vec!["openapi.yaml", "openapi.yml", "openapi.json"];
    assert(res@.map_values(|s: &str| s@) =~= seq!["openapi.yaml"@, "openapi.yml"@, "openapi.json"@]);
    res
}

/// Why a spec path was refused.
#[derive(Debug, Clone)]
pub enum SpecPathError {
    /// The path is empty or white space.
    Blank,
    /// No file exists at the resolved path.
    NotFound { path: String },
    /// The file does not lie under the project root.
    OutsideRoot,
}

/// The path is blank: empty once trimmed.
pub open spec fn blank(spec: Seq<char>) -> bool {
    trim(spec).len() == 0
}

/// Where a spec path given by the user or the config points: the path
/// itself when absolute, else under the root; refused when blank.
pub fn spec_candidate_path(root: &str, spec: &str) -> (res: Result<String, SpecPathError>)
    ensures
        blank(spec@) ==> res matches Err(SpecPathError::Blank),
        !blank(spec@) ==> (res matches Ok(p) && p@ == join_path(root@, spec@)),
{
    let cs = chars_of(spec);
    if trim_chars(&cs).len() == 0 {
        return Err(SpecPathError::Blank);
    }
    Ok(join_path_exec(root, spec))
}

/// A spec path resolved relative to the project root. `candidate_is_file`
/// tells whether a file exists at [`spec_candidate_path`]'s result. The
/// spec must lie inside the root: a path that does not lie under it, or
/// whose remainder climbs out of it with `..`, is refused.
pub fn normalize_spec_path(root: &str, spec: &str, candidate_is_file: bool) -> (res: Result<String, SpecPathError>)
    ensures
        blank(spec@) ==> res matches Err(SpecPathError::Blank),
        !blank(spec@) && !candidate_is_file ==> (res matches Err(SpecPathError::NotFound { path }) && path@ == join_path(root@, spec@)),
        !blank(spec@) && candidate_is_file ==> match strip_prefix(join_path(root@, spec@), root@) {
            Some(rel) => if has_parent_dir(rel) {
                res matches Err(SpecPathError::OutsideRoot)
            } else {
                res matches Ok(r) && r@ == rel
            },
            None => res matches Err(SpecPathError::OutsideRoot),
        },
        res matches Ok(r) ==> !has_parent_dir(r@),
{
    let absolute = match spec_candidate_path(root, spec) {
        Ok(p) => p,
        Err(e) => return Err(e),
    };
    if !candidate_is_file {
        return Err(SpecPathError::NotFound { path: absolute });
    }
    match strip_prefix_exec(absolute.as_str(), root) {
        Some(rel) => if has_parent_dir_exec(rel.as_str()) {
            Err(SpecPathError::OutsideRoot)
        } else {
            Ok(rel)
        },
        None => Err(SpecPathError::OutsideRoot),
    }
}

/// A plainly written relative spec path without `..` that names a file
/// resolves to itself, as written, whatever the (absolute) root: the root
/// strips off and leaves the path (which [`normalize_spec_path`] then
/// accepts, as it does not climb out).
pub proof fn law_normalize_relative_spec_path(root: Seq<char>, spec: Seq<char>)
    requires
        is_absolute(root),
        plain_relative(spec),
        !has_parent_dir(spec),
    ensures
        strip_prefix(join_path(root, spec), root) == Some(spec),
{
    lemma_strip_joined(root, spec);
}

/// What spec discovery settles on, given the files it found.
#[derive(Debug, Clone)]
pub enum SpecChoice {
    /// Nothing was found.
    NoneFound,
    /// Exactly one spec was found.
    Found(String),
    /// Several were found and no one may be asked to choose.
    AmbiguousQuiet,
    /// Several were found; the user picks one of them.
    Ask(Vec<String>),
}

/// Settles discovery: no candidate, the only candidate, or, among several,
/// an error in quiet mode and a question otherwise.
pub fn choose_spec(candidates: Vec<String>, quiet: bool) -> (res: SpecChoice)
    ensures
        candidates.len() == 0 ==> res matches SpecChoice::NoneFound,
        candidates.len() == 1 ==> (res matches SpecChoice::Found(s) && s == candidates@[0]),
        candidates.len() > 1 && quiet ==> res matches SpecChoice::AmbiguousQuiet,
        candidates.len() > 1 && !quiet ==> (res matches SpecChoice::Ask(v) && v@ == candidates@),
{
    if candidates.len() == 0 {
        return SpecChoice::NoneFound;
    }
    if candidates.len() == 1 {
        let mut c = candidates;
        let s = c.remove(0);
        return SpecChoice::Found(s);
    }
    if quiet {
        SpecChoice::AmbiguousQuiet
    } else {
        SpecChoice::Ask(candidates)
    }
}

/// The spec files a walk found, in sorted order.
pub fn sorted_matches(matches: &Vec<String>) -> (res: Vec<String>)
    ensures
        lex_sorted(res.deep_view()),
        res.deep_view().to_multiset() == matches.deep_view().to_multiset(),
{
    sort_strings(matches)
}

/// The well-known names, in order of preference.
pub open spec fn well_known_names() -> Seq<Seq<char>> {
    seq!["openapi.yaml"@, "openapi.yml"@, "openapi.json"@]
}

/// The first well-known name whose file exists at the root (`present[i]`
/// for the `i`-th name), if any.
pub open spec fn first_present(present: Seq<bool>) -> Option<int> {
    if present.len() > 0 && present[0] {
        Some(0)
    } else if present.len() > 1 && present[1] {
        Some(1)
    } else if present.len() > 2 && present[2] {
        Some(2)
    } else {
        None
    }
}

/// What discovery returns: the first well-known name present at the root,
/// alone and without any content check; otherwise the spec files the walk
/// found, sorted. `present[i]` tells whether the `i`-th well-known name is a
/// file at the root; `matches` are the walk's finds (the walk is only
/// needed when no well-known name is present).
pub fn discovered_specs(present: &Vec<bool>, matches: &Vec<String>) -> (res: Vec<String>)
    requires
        present.len() == 3,
    ensures
        match first_present(present@) {
            Some(i) => res.deep_view() == seq![well_known_names()[i]],
            None => lex_sorted(res.deep_view()) && res.deep_view().to_multiset()
                == matches.deep_view().to_multiset(),
        },
{
    let names = well_known_spec_names();
    assert(names@.map_values(|s: &str| s@).len() == 3);
    let mut i: usize = 0;
    while i < 3
        invariant
            i <= 3,
            present.len() == 3,
            names.len() == 3,
            names@.map_values(|s: &str| s@) == well_known_names(),
            forall|k: int| 0 <= k < i ==> !present@[k],
        decreases 3 - i,
    {
        if present[i] {
            let mut res: Vec<String> = Vec::new();
            res.push(owned(names[i]));
            proof {
                assert(names@.map_values(|s: &str| s@)[i as int] == names@[i as int]@);
                assert(first_present(present@) == Some(i as int));
                assert(res.deep_view() =~= seq![well_known_names()[i as int]]);
            }
            return res;
        }
        i = i + 1;
    }
    assert(first_present(present@) is None);
    sorted_matches(matches)
}

} // verus!
