//! The `.oav/` workspace: its layout, and the `.gitignore` entries that keep
//! it out of version control.
use vstd::prelude::*;
use crate::spec::{extension, path_extension};
use crate::text::{
    lemma_join_split, lemma_join_terminated, lemma_lines_no_newline, lemma_split_last_empty,
    lemma_split_on_nonempty, lemma_trimmed_no_cr, split_on,
    at_line_start, chars_eq, chars_of, join_with, join_with_exec, lemma_close_line,
    lemma_lines_append, lemma_lines_terminated, lemma_trim_strip_cr, lines, lines_of, string_of,
    strip_cr, terminated, trim, trim_chars,
};

verus! {

/// The workspace directory name.
pub const OAV_DIR: &'static str = ".oav";

/// Header line written above the tool's entries in `.gitignore`.
pub const GITIGNORE_HEADER: &'static str = "# openapi-validator";

/// Relative path of the compose file that the compile phase runs against.
pub const DOCKER_COMPOSE_FILE: &'static str = ".oav/docker-compose.yaml";

/// The standard workspace entry: ignore the whole `.oav/` tree.
pub fn workspace_gitignore_entries() -> (res: Vec<&'static str>)
    ensures
        res@.map_values(|e: &str| e@) == seq![".oav/"@],
{
    let res = vec![".oav/"];
    assert(res@.map_values(|e: &str| e@) =~= seq![".oav/"@]);
    res
}

/// Directories the pipeline expects under the workspace root.
pub fn runtime_dirs() -> (res: Vec<&'static str>)
    ensures
        res@.map_values(|e: &str| e@) == seq![
            ".oav/configs"@,
            ".oav/generated"@,
            ".oav/reports/lint"@,
            ".oav/reports/generate/server"@,
            ".oav/reports/generate/client"@,
            ".oav/reports/compile/server"@,
            ".oav/reports/compile/client"@,
        ],
{
    let res = vec![
        ".oav/configs",
        ".oav/generated",
        ".oav/reports/lint",
        ".oav/reports/generate/server",
        ".oav/reports/generate/client",
        ".oav/reports/compile/server",
        ".oav/reports/compile/client",
    ];
    assert(res@.map_values(|e: &str| e@) =~= seq![
        ".oav/configs"@,
        ".oav/generated"@,
        ".oav/reports/lint"@,
        ".oav/reports/generate/server"@,
        ".oav/reports/generate/client"@,
        ".oav/reports/compile/server"@,
        ".oav/reports/compile/client"@,
    ]);
    res
}

// ---------------------------------------------------------------------------
// Shipped asset files
// ---------------------------------------------------------------------------

/// What writing a shipped asset file does at the path it goes to.
#[derive(Debug, Clone, Copy, PartialEq, Eq, Structural)]
pub enum AssetAction {
    /// Nothing is there yet: write the file.
    Write,
    /// A regular file is already there: leave it as the user has it.
    Keep,
    /// Something other than a regular file is there: refuse.
    Refuse,
}

/// A missing path is written, an existing regular file is kept, and any
/// other existing entry is refused.
pub fn asset_action(exists: bool, is_file: bool) -> (res: AssetAction)
    ensures
        res == (if !exists {
            AssetAction::Write
        } else if is_file {
            AssetAction::Keep
        } else {
            AssetAction::Refuse
        }),
{
    if !exists {
        AssetAction::Write
    } else if is_file {
        AssetAction::Keep
    } else {
        AssetAction::Refuse
    }
}

/// A written asset is made executable exactly when its file name has the
/// extension `sh` (compared exactly).
pub fn is_shell_script(path: &str) -> (res: bool)
    ensures
        res == (path_extension(path@) == Some("sh"@)),
{
    match extension(path) {
        Some(e) => {
            let sh = chars_of("sh");
            chars_eq(&e, &sh)
        },
        None => false,
    }
}

// ---------------------------------------------------------------------------
// `.gitignore` maintenance
// ---------------------------------------------------------------------------

/// Some line of `content`, trimmed, is `e`.
pub open spec fn has_line(content: Seq<char>, e: Seq<char>) -> bool {
    exists|i: int| 0 <= i < lines(content).len() && trim(#[trigger] lines(content)[i]) == e
}

/// The entries that no line of `content` holds, in order.
pub open spec fn missing_entries(content: Seq<char>, entries: Seq<Seq<char>>) -> Seq<Seq<char>> {
    entries.filter(|e: Seq<char>| !has_line(content, e))
}

/// `content` ends with a newline.
pub open spec fn ends_nl(content: Seq<char>) -> bool {
    content.len() > 0 && content.last() == '\n'
}

/// What goes between the existing content and the new entries: the header
/// (when one is asked for and absent) after a blank line, or just the
/// newline that ends an open last line.
pub open spec fn header_block(content: Seq<char>, header: Option<Seq<char>>) -> Seq<char> {
    match header {
        Some(h) => if !has_line(content, h) {
            if content.len() == 0 {
                h + seq!['\n']
            } else {
                (if !ends_nl(content) {
                    seq!['\n']
                } else {
                    Seq::empty()
                }) + seq!['\n'] + h + seq!['\n']
            }
        } else if !ends_nl(content) {
            seq!['\n']
        } else {
            Seq::empty()
        },
        None => if !ends_nl(content) && content.len() != 0 {
            seq!['\n']
        } else {
            Seq::empty()
        },
    }
}

/// The new `.gitignore` text after adding `entries` under `header`, or
/// `None` when every entry is already there and nothing is to be written.
pub open spec fn with_entries(content: Seq<char>, entries: Seq<Seq<char>>, header: Option<Seq<char>>) -> Option<Seq<char>> {
    let missing = missing_entries(content, entries);
    if missing.len() == 0 {
        None
    } else {
        Some(content + header_block(content, header) + terminated(missing))
    }
}

/// The `.gitignore` text without the lines that, trimmed, are one of
/// `entries`; the remaining lines end with a newline each, and an empty
/// result stays empty.
pub open spec fn without_entries(content: Seq<char>, entries: Seq<Seq<char>>) -> Seq<char> {
    let kept = lines(content).filter(|l: Seq<char>| !entries.contains(trim(l)));
    let body = join_with(kept, '\n');
    if body.len() == 0 {
        body
    } else {
        body + seq!['\n']
    }
}

/// Views of string slices.
pub open spec fn str_views(v: Seq<&str>) -> Seq<Seq<char>> {
    v.map_values(|e: &str| e@)
}

/// Views of an optional string slice.
pub open spec fn opt_view(o: Option<&str>) -> Option<Seq<char>> {
    match o {
        Some(h) => Some(h@),
        None => None,
    }
}

/// Trimmed lines of `content`.
fn trimmed_lines(content: &Vec<char>) -> (res: Vec<Vec<char>>)
    ensures
        res@.len() == lines(content@).len(),
        forall|i: int| 0 <= i < res@.len() ==> #[trigger] res@[i]@ == trim(lines(content@)[i]),
{
    let ls = lines_of(content);
    let mut res: Vec<Vec<char>> = Vec::new();
    let mut i: usize = 0;
    while i < ls.len()
        invariant
            i <= ls.len(),
            ls@.len() == lines(content@).len(),
            forall|k: int| 0 <= k < ls@.len() ==> #[trigger] ls@[k]@ == lines(content@)[k],
            res@.len() == i,
            forall|k: int| 0 <= k < i ==> #[trigger] res@[k]@ == trim(lines(content@)[k]),
        decreases ls.len() - i,
    {
        let t = trim_chars(&ls[i]);
        res.push(t);
        i = i + 1;
    }
    res
}

/// Whether some trimmed line equals `e`.
fn has_line_exec(trimmed: &Vec<Vec<char>>, content: Ghost<Seq<char>>, e: &Vec<char>) -> (res: bool)
    requires
        trimmed@.len() == lines(content@).len(),
        forall|i: int| 0 <= i < trimmed@.len() ==> #[trigger] trimmed@[i]@ == trim(lines(content@)[i]),
    ensures
        res == has_line(content@, e@),
{
    let mut i: usize = 0;
    while i < trimmed.len()
        invariant
            i <= trimmed.len(),
            trimmed@.len() == lines(content@).len(),
            forall|k: int| 0 <= k < trimmed@.len() ==> #[trigger] trimmed@[k]@ == trim(lines(content@)[k]),
            forall|k: int| 0 <= k < i ==> trim(#[trigger] lines(content@)[k]) != e@,
        decreases trimmed.len() - i,
    {
        if chars_eq(&trimmed[i], e) {
            assert(trim(lines(content@)[i as int]) == e@);
            return true;
        }
        i = i + 1;
    }
    false
}

proof fn lemma_filter_step(es: Seq<Seq<char>>, c: Seq<char>, i: int)
    requires
        0 <= i < es.len(),
    ensures
        es.take(i + 1).filter(|e: Seq<char>| !has_line(c, e)) == (if !has_line(c, es[i]) {
            es.take(i).filter(|e: Seq<char>| !has_line(c, e)).push(es[i])
        } else {
            es.take(i).filter(|e: Seq<char>| !has_line(c, e))
        }),
{
    reveal(Seq::filter);
    assert(es.take(i + 1).drop_last() =~= es.take(i));
}

fn push_chars(out: &mut Vec<char>, s: &Vec<char>)
    ensures
        final(out)@ == old(out)@ + s@,
{
    let mut k: usize = 0;
    let ghost o0 = out@;
    while k < s.len()
        invariant
            k <= s.len(),
            out@ == o0 + s@.take(k as int),
        decreases s.len() - k,
    {
        out.push(s[k]);
        k = k + 1;
        assert(s@.take(k as int) =~= s@.take(k - 1).push(s@[k - 1]));
    }
    assert(s@.take(k as int) =~= s@);
}

/// The `.gitignore` text with the missing `entries` appended (see
/// [`with_entries`]); `None` when nothing needs writing.
pub fn add_gitignore_entries(content: &str, entries: &[&str], header: Option<&str>) -> (res: Option<String>)
    ensures
        match with_entries(content@, str_views(entries@), opt_view(header)) {
            Some(t) => res matches Some(r) && r@ == t,
            None => res is None,
        },
{
    let c = chars_of(content);
    let trimmed = trimmed_lines(&c);
    let ghost es = str_views(entries@);
    let mut missing: Vec<Vec<char>> = Vec::new();
    let mut i: usize = 0;
    assert(es.take(0).filter(|e: Seq<char>| !has_line(content@, e)) =~= Seq::<Seq<char>>::empty()) by {
        reveal(Seq::filter);
    }
    while i < entries.len()
        invariant
            i <= entries.len(),
            c@ == content@,
            es == str_views(entries@),
            trimmed@.len() == lines(content@).len(),
            forall|k: int| 0 <= k < trimmed@.len() ==> #[trigger] trimmed@[k]@ == trim(lines(content@)[k]),
            missing@.map_values(|v: Vec<char>| v@) == es.take(i as int).filter(|e: Seq<char>| !has_line(content@, e)),
        decreases entries.len() - i,
    {
        let e = chars_of(entries[i]);
        proof {
            lemma_filter_step(es, content@, i as int);
        }
        if !has_line_exec(&trimmed, Ghost(content@), &e) {
            let ghost m0 = missing@;
            missing.push(e);
            assert(missing@.map_values(|v: Vec<char>| v@) =~= m0.map_values(|v: Vec<char>| v@).push(es[i as int]));
        }
        i = i + 1;
    }
    assert(es.take(i as int) =~= es);
    if missing.len() == 0 {
        return None;
    }
    let mut out: Vec<char> = c.clone();
    let ends = c.len() > 0 && c[c.len() - 1] == '\n';
    match header {
        Some(hdr) => {
            let h = chars_of(hdr);
            if !has_line_exec(&trimmed, Ghost(content@), &h) {
                if c.len() == 0 {
                    push_chars(&mut out, &h);
                    out.push('\n');
                } else {
                    if !ends {
                        out.push('\n');
                    }
                    out.push('\n');
                    push_chars(&mut out, &h);
                    out.push('\n');
                }
            } else if !ends {
                out.push('\n');
            }
        },
        None => {
            if !ends && c.len() != 0 {
                out.push('\n');
            }
        },
    }
    assert(out@ =~= content@ + header_block(content@, opt_view(header)));
    let ghost mv = missing@.map_values(|v: Vec<char>| v@);
    let mut j: usize = 0;
    let ghost o0 = out@;
    assert(mv.take(0) =~= Seq::<Seq<char>>::empty());
    while j < missing.len()
        invariant
            j <= missing.len(),
            mv == missing@.map_values(|v: Vec<char>| v@),
            out@ == o0 + terminated(mv.take(j as int)),
        decreases missing.len() - j,
    {
        push_chars(&mut out, &missing[j]);
        out.push('\n');
        j = j + 1;
        assert(mv.take(j as int).drop_last() =~= mv.take(j - 1));
        assert(out@ =~= o0 + terminated(mv.take(j as int)));
    }
    assert(mv.take(j as int) =~= mv);
    Some(string_of(&out))
}

/// The `.gitignore` text without the lines whose trimmed text is one of
/// `entries` (see [`without_entries`]).
pub fn remove_gitignore_entries(content: &str, entries: &[&str]) -> (res: String)
    ensures
        res@ == without_entries(content@, str_views(entries@)),
{
    let c = chars_of(content);
    let ls = lines_of(&c);
    let ghost es = str_views(entries@);
    let ghost pred = |l: Seq<char>| !es.contains(trim(l));
    let mut ev: Vec<Vec<char>> = Vec::new();
    let mut k: usize = 0;
    while k < entries.len()
        invariant
            k <= entries.len(),
            es == str_views(entries@),
            ev@.len() == k,
            forall|j: int| 0 <= j < k ==> #[trigger] ev@[j]@ == es[j],
        decreases entries.len() - k,
    {
        ev.push(chars_of(entries[k]));
        k = k + 1;
    }
    let mut kept: Vec<Vec<char>> = Vec::new();
    let mut i: usize = 0;
    let ghost lv = lines(content@);
    assert(lv.take(0).filter(pred) =~= Seq::<Seq<char>>::empty()) by {
        reveal(Seq::filter);
    }
    while i < ls.len()
        invariant
            i <= ls.len(),
            c@ == content@,
            lv == lines(content@),
            ls@.len() == lv.len(),
            forall|j: int| 0 <= j < ls@.len() ==> #[trigger] ls@[j]@ == lv[j],
            es == str_views(entries@),
            ev@.len() == es.len(),
            forall|j: int| 0 <= j < ev@.len() ==> #[trigger] ev@[j]@ == es[j],
            pred == (|l: Seq<char>| !es.contains(trim(l))),
            kept@.map_values(|v: Vec<char>| v@) == lv.take(i as int).filter(pred),
        decreases ls.len() - i,
    {
        let t = trim_chars(&ls[i]);
        let mut matched = false;
        let mut k: usize = 0;
        while k < ev.len()
            invariant
                k <= ev.len(),
                ev@.len() == es.len(),
                forall|j: int| 0 <= j < ev@.len() ==> #[trigger] ev@[j]@ == es[j],
                matched == (exists|j: int| 0 <= j < k && es[j] == t@),
            decreases ev.len() - k,
        {
            if chars_eq(&ev[k], &t) {
                matched = true;
            }
            k = k + 1;
        }
        assert(matched == es.contains(trim(lv[i as int])));
        proof {
            reveal(Seq::filter);
            assert(lv.take(i + 1).drop_last() =~= lv.take(i as int));
        }
        if !matched {
            let ghost k0 = kept@;
            kept.push(ls[i].clone());
            assert(kept@.map_values(|v: Vec<char>| v@) =~= k0.map_values(|v: Vec<char>| v@).push(lv[i as int]));
        }
        i = i + 1;
    }
    assert(lv.take(i as int) =~= lv);
    let mut body = join_with_exec(&kept, '\n');
    if body.len() != 0 {
        body.push('\n');
    }
    string_of(&body)
}

/// Ensures the standard `.oav/` entry is in `.gitignore`, under the
/// `# openapi-validator` header.
pub fn ensure_workspace_gitignore(content: &str) -> (res: Option<String>)
    ensures
        match with_entries(content@, seq![".oav/"@], Some("# openapi-validator"@)) {
            Some(t) => res matches Some(r) && r@ == t,
            None => res is None,
        },
{
    let entries = workspace_gitignore_entries();
    add_gitignore_entries(content, entries.as_slice(), Some(GITIGNORE_HEADER))
}

// ---------------------------------------------------------------------------
// Laws of `.gitignore` maintenance
// ---------------------------------------------------------------------------

/// Entries that read back as lines: trimmed, and without newlines.
pub open spec fn clean_entries(entries: Seq<Seq<char>>) -> bool {
    forall|i: int|
        0 <= i < entries.len() ==> trim(#[trigger] entries[i]) == entries[i] && !entries[i].contains(
            '\n',
        )
}

proof fn lemma_block_line_start(content: Seq<char>, header: Option<Seq<char>>)
    ensures
        at_line_start(content + header_block(content, header)),
        !at_line_start(content) ==> header_block(content, header).len() > 0 && header_block(
            content,
            header,
        )[0] == '\n',
{
    let b = header_block(content, header);
    if b.len() > 0 {
        assert((content + b).last() == b.last());
    } else {
        assert(content + b =~= content);
    }
}

proof fn lemma_lines_kept(content: Seq<char>, header: Option<Seq<char>>, e: Seq<char>)
    requires
        has_line(content, e),
    ensures
        has_line(content + header_block(content, header), e),
{
    let b = header_block(content, header);
    let i = choose|i: int| 0 <= i < lines(content).len() && trim(#[trigger] lines(content)[i]) == e;
    lemma_block_line_start(content, header);
    if at_line_start(content) {
        lemma_lines_append(content, b);
        assert(lines(content + b)[i] == lines(content)[i]);
    } else {
        let c1 = content + seq!['\n'];
        let rest = b.drop_first();
        assert(content + b =~= c1 + rest);
        lemma_close_line(content, i);
        assert(at_line_start(c1));
        lemma_lines_append(c1, rest);
        assert(lines(content + b)[i] == lines(c1)[i]);
    }
}

/// After entries are added, each of them stands on a line of its own; so
/// adding the same entries again writes nothing. Entries must be trimmed
/// and hold no newline, as they are compared with trimmed lines.
pub proof fn law_add_gitignore_entries_idempotent(
    content: Seq<char>,
    entries: Seq<Seq<char>>,
    header: Option<Seq<char>>,
)
    requires
        clean_entries(entries),
        with_entries(content, entries, header) is Some,
    ensures
        forall|i: int| 0 <= i < entries.len() ==> has_line(with_entries(content, entries, header)->0, #[trigger] entries[i]),
        with_entries(with_entries(content, entries, header)->0, entries, header) is None,
{
    let r = with_entries(content, entries, header)->0;
    let missing = missing_entries(content, entries);
    let pre = content + header_block(content, header);
    assert(r == pre + terminated(missing));
    lemma_block_line_start(content, header);
    broadcast use Seq::lemma_filter_contains_rev, Seq::lemma_filter_contains;
    assert forall|i: int| 0 <= i < missing.len() implies !(#[trigger] missing[i]).contains('\n') by {
        assert(missing.contains(missing[i]));
        assert(entries.contains(missing[i]));
    }
    lemma_lines_terminated(missing);
    lemma_lines_append(pre, terminated(missing));
    assert forall|i: int| 0 <= i < entries.len() implies has_line(r, #[trigger] entries[i]) by {
        let e = entries[i];
        lemma_trimmed_no_cr(e);
        if has_line(content, e) {
            lemma_lines_kept(content, header, e);
            let k = choose|k: int| 0 <= k < lines(pre).len() && trim(#[trigger] lines(pre)[k]) == e;
            assert(lines(r)[k] == lines(pre)[k]);
        } else {
            assert(missing.contains(e));
            let k = choose|k: int| 0 <= k < missing.len() && missing[k] == e;
            let idx = lines(pre).len() + k;
            assert(lines(r)[idx] == strip_cr(missing[k]));
            assert(trim(lines(r)[idx]) == e);
        }
    }
    let m2 = missing_entries(r, entries);
    if m2.len() > 0 {
        assert(m2.contains(m2[0]));
        assert(entries.contains(m2[0]));
        let j = choose|j: int| 0 <= j < entries.len() && entries[j] == m2[0];
        assert(has_line(r, entries[j]));
        Seq::lemma_filter_pred(entries, |e: Seq<char>| !has_line(r, e), 0);
    }
}

/// Adding entries keeps the existing text as a prefix of the new text.
pub proof fn law_add_gitignore_entries_preserves_content(
    content: Seq<char>,
    entries: Seq<Seq<char>>,
    header: Option<Seq<char>>,
)
    requires
        with_entries(content, entries, header) is Some,
    ensures
        with_entries(content, entries, header)->0.take(content.len() as int) == content,
{
    let r = with_entries(content, entries, header)->0;
    assert(r.take(content.len() as int) =~= content);
}

/// After removing entries, no line of the text, trimmed, is one of them.
pub proof fn law_remove_gitignore_entries_removes(content: Seq<char>, entries: Seq<Seq<char>>, i: int)
    requires
        0 <= i < lines(without_entries(content, entries)).len(),
    ensures
        !entries.contains(trim(lines(without_entries(content, entries))[i])),
{
    let pred = |l: Seq<char>| !entries.contains(trim(l));
    let kept = lines(content).filter(pred);
    let body = join_with(kept, '\n');
    let res = without_entries(content, entries);
    broadcast use Seq::lemma_filter_contains_rev, Seq::lemma_filter_pred;
    if body.len() == 0 {
        assert(res =~= Seq::<char>::empty());
        assert(split_on(res, '\n') =~= seq![Seq::<char>::empty()]);
        assert(lines(res).len() == 0);
    } else {
        if kept.len() == 0 {
            assert(body =~= Seq::<char>::empty());
        }
        lemma_join_terminated(kept);
        assert forall|k: int| 0 <= k < kept.len() implies !(#[trigger] kept[k]).contains('\n') by {
            assert(kept.contains(kept[k]));
            assert(lines(content).contains(kept[k]));
            let j = choose|j: int| 0 <= j < lines(content).len() && lines(content)[j] == kept[k];
            lemma_lines_no_newline(content, j);
        }
        lemma_lines_terminated(kept);
        assert(lines(res)[i] == strip_cr(kept[i]));
        lemma_trim_strip_cr(kept[i]);
        assert(pred(kept[i]));
    }
}

/// Ensuring the workspace entry twice writes nothing the second time: after
/// the first call `.oav/` stands on a line of its own.
pub proof fn law_ensure_workspace_gitignore_idempotent(content: Seq<char>)
    requires
        with_entries(content, seq![".oav/"@], Some("# openapi-validator"@)) is Some,
    ensures
        has_line(with_entries(content, seq![".oav/"@], Some("# openapi-validator"@))->0, ".oav/"@),
        with_entries(
            with_entries(content, seq![".oav/"@], Some("# openapi-validator"@))->0,
            seq![".oav/"@],
            Some("# openapi-validator"@),
        ) is None,
{
    let entries = seq![".oav/"@];
    reveal_strlit(".oav/");
    assert(trim(entries[0]) == entries[0]);
    assert(!entries[0].contains('\n')) by {
        if entries[0].contains('\n') {
            let k = choose|k: int| 0 <= k < entries[0].len() && entries[0][k] == '\n';
        }
    }
    assert(clean_entries(entries));
    law_add_gitignore_entries_idempotent(content, entries, Some("# openapi-validator"@));
    assert(entries[0] == ".oav/"@);
}

proof fn lemma_filter_keeps_all(s: Seq<Seq<char>>, p: spec_fn(Seq<char>) -> bool)
    requires
        forall|i: int| 0 <= i < s.len() ==> p(#[trigger] s[i]),
    ensures
        s.filter(p) == s,
    decreases s.len(),
{
    reveal(Seq::filter);
    if s.len() > 0 {
        let init = s.drop_last();
        assert forall|i: int| 0 <= i < init.len() implies p(#[trigger] init[i]) by {
            assert(init[i] == s[i]);
        }
        lemma_filter_keeps_all(init, p);
        assert(p(s[s.len() - 1]));
        assert(init.push(s.last()) =~= s);
    }
}

proof fn lemma_split_pieces_avoid(s: Seq<char>, sep: char, x: char, i: int)
    requires
        0 <= i < split_on(s, sep).len(),
        !s.contains(x),
    ensures
        !split_on(s, sep)[i].contains(x),
    decreases s.len(),
{
    lemma_split_on_nonempty(s, sep);
    if s.len() > 0 {
        let s1 = s.drop_last();
        assert(!s1.contains(x)) by {
            if s1.contains(x) {
                let k = choose|k: int| 0 <= k < s1.len() && s1[k] == x;
                assert(s[k] == x);
            }
        }
        let r = split_on(s1, sep);
        lemma_split_on_nonempty(s1, sep);
        assert(s[s.len() - 1] == s.last());
        if s.last() == sep {
            if i < r.len() {
                lemma_split_pieces_avoid(s1, sep, x, i);
                assert(split_on(s, sep)[i] == r[i]);
            } else {
                assert(split_on(s, sep)[i] == Seq::<char>::empty());
            }
        } else {
            if i < r.len() - 1 {
                lemma_split_pieces_avoid(s1, sep, x, i);
                assert(split_on(s, sep)[i] == r[i]);
            } else {
                lemma_split_pieces_avoid(s1, sep, x, r.len() - 1);
                let p = r.last().push(s.last());
                assert(split_on(s, sep)[i] == p);
                if p.contains(x) {
                    let k = choose|k: int| 0 <= k < p.len() && p[k] == x;
                    if k < r.last().len() {
                        assert(r.last()[k] == x);
                        assert(r[r.len() - 1] == r.last());
                    }
                }
            }
        }
    }
}

/// Text that is empty or ends with a newline, without carriage returns,
/// is its lines, each followed by a newline.
proof fn lemma_rejoin_lines(content: Seq<char>)
    requires
        content.len() == 0 || ends_nl(content),
        !content.contains('\r'),
    ensures
        content.len() == 0 ==> lines(content).len() == 0,
        content.len() > 0 ==> content == join_with(lines(content), '\n') + seq!['\n'],
{
    let parts = split_on(content, '\n');
    lemma_split_last_empty(content, '\n');
    lemma_join_split(content, '\n');
    if content.len() == 0 {
        assert(parts =~= seq![Seq::<char>::empty()]);
        assert(lines(content) =~= Seq::<Seq<char>>::empty());
    } else {
        let body = parts.drop_last();
        assert forall|i: int| 0 <= i < body.len() implies strip_cr(#[trigger] body[i]) == body[i] by {
            lemma_split_pieces_avoid(content, '\n', '\r', i);
            assert(body[i] == parts[i]);
            if body[i].len() > 0 && body[i].last() == '\r' {
                assert(body[i][body[i].len() - 1] == '\r');
            }
        }
        assert(lines(content) =~= body);
        assert(parts.len() >= 2) by {
            if parts.len() == 1 {
                assert(join_with(parts, '\n') == parts[0]);
                assert(parts[0] == parts.last());
            }
        }
        assert(parts.drop_last() == body);
        assert(join_with(parts, '\n') == join_with(body, '\n') + seq!['\n'] + parts.last());
        assert(join_with(body, '\n') + seq!['\n'] + Seq::<char>::empty() =~= join_with(body, '\n') + seq!['\n']);
    }
}

/// After adding entries that no line holds yet, the lines that do not hold
/// an entry are exactly the old lines.
proof fn lemma_lines_after_add(content: Seq<char>, entries: Seq<Seq<char>>)
    requires
        at_line_start(content),
        forall|i: int| 0 <= i < lines(content).len() ==> !entries.contains(trim(#[trigger] lines(content)[i])),
        clean_entries(entries),
    ensures
        lines(match with_entries(content, entries, None) {
            Some(t) => t,
            None => content,
        }).filter(|l: Seq<char>| !entries.contains(trim(l))) == lines(content),
{
    let f = |e: Seq<char>| !has_line(content, e);
    let pred = |l: Seq<char>| !entries.contains(trim(l));
    let lc = lines(content);
    assert forall|i: int| 0 <= i < entries.len() implies f(#[trigger] entries[i]) by {
        if has_line(content, entries[i]) {
            let k = choose|k: int| 0 <= k < lc.len() && trim(#[trigger] lc[k]) == entries[i];
            assert(entries.contains(entries[i]));
        }
    }
    lemma_filter_keeps_all(entries, f);
    let added = match with_entries(content, entries, None) {
        Some(t) => t,
        None => content,
    };
    assert(header_block(content, None) =~= Seq::<char>::empty());
    assert(added == content + terminated(entries)) by {
        if entries.len() == 0 {
            assert(terminated(entries) =~= Seq::<char>::empty());
            assert(content + terminated(entries) =~= content);
        } else {
            assert(content + Seq::<char>::empty() =~= content);
        }
    }
    lemma_lines_append(content, terminated(entries));
    lemma_lines_terminated(entries);
    assert(entries.map_values(|l: Seq<char>| strip_cr(l)) =~= entries) by {
        assert forall|i: int| 0 <= i < entries.len() implies strip_cr(#[trigger] entries[i]) == entries[i] by {
            lemma_trimmed_no_cr(entries[i]);
        }
    }
    assert(lines(added) == lc + entries);
    Seq::filter_distributes_over_add(lc, entries, pred);
    assert forall|i: int| 0 <= i < lc.len() implies pred(#[trigger] lc[i]) by {}
    lemma_filter_keeps_all(lc, pred);
    assert(entries.filter(pred).len() == 0) by {
        if entries.filter(pred).len() > 0 {
            entries.lemma_filter_pred(pred, 0);
            let x = entries.filter(pred)[0];
            assert(entries.filter(pred).contains(x));
            entries.lemma_filter_contains_rev(pred, x);
            let k = choose|k: int| 0 <= k < entries.len() && entries[k] == x;
            assert(trim(entries[k]) == entries[k]);
            assert(entries.contains(entries[k]));
        }
    }
    assert(lines(added).filter(pred) =~= lc);
}

/// Removing entries right after adding them (without a header) gives back
/// the text as it was, when that text is empty or ends with a newline (and
/// is not a lone newline), holds no carriage return, and has no line that
/// is one of the entries; the entries are trimmed and hold no newline.
pub proof fn law_remove_gitignore_entries_undoes_add(content: Seq<char>, entries: Seq<Seq<char>>)
    requires
        content.len() == 0 || (ends_nl(content) && content != seq!['\n']),
        !content.contains('\r'),
        forall|i: int| 0 <= i < lines(content).len() ==> !entries.contains(trim(#[trigger] lines(content)[i])),
        clean_entries(entries),
    ensures
        without_entries(
            match with_entries(content, entries, None) {
                Some(t) => t,
                None => content,
            },
            entries,
        ) == content,
{
    lemma_lines_after_add(content, entries);
    lemma_rejoin_lines(content);
    let lc = lines(content);
    if content.len() == 0 {
        assert(join_with(lc, '\n') =~= Seq::<char>::empty());
    } else {
        assert(join_with(lc, '\n').len() > 0) by {
            if join_with(lc, '\n').len() == 0 {
                assert(join_with(lc, '\n') + seq!['\n'] =~= seq!['\n']);
            }
        }
    }
}

} // verus!
