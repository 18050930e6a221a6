//! A model of POSIX paths held as strings.
//!
//! A path is absolute when it starts with `/`. Its segments are the pieces
//! between `/` separators, leaving out empty pieces and `.` pieces, which is
//! how `std::path` compares paths component by component on Unix.
use vstd::prelude::*;
use crate::text::{join_with, lemma_join_split, lemma_split_append, lemma_split_on_nonempty, chars_eq, chars_of, owned, push_char, push_str, split_on, string_of};

verus! {

pub open spec fn is_absolute(p: Seq<char>) -> bool {
    p.len() > 0 && p[0] == '/'
}

/// A piece between separators that names a path component.
pub open spec fn keep_segment(s: Seq<char>) -> bool {
    s.len() > 0 && s != seq!['.']
}

/// The named components of `p`, in order.
pub open spec fn segments(p: Seq<char>) -> Seq<Seq<char>> {
    split_on(p, '/').filter(|s: Seq<char>| keep_segment(s))
}

/// `rel` appended to `base` as `PathBuf::push` does on Unix: an absolute
/// `rel` replaces `base`, otherwise a separator is put between them unless
/// `base` is empty or already ends with one.
pub open spec fn join_path(base: Seq<char>, rel: Seq<char>) -> Seq<char> {
    if is_absolute(rel) || base.len() == 0 {
        rel
    } else if base.last() == '/' {
        base + rel
    } else {
        base + seq!['/'] + rel
    }
}

/// `p` starts with a `.` component (`.` alone or `./...`), which a relative
/// path counts among its components (`Component::CurDir`).
pub open spec fn cur_dir_lead(p: Seq<char>) -> bool {
    p.len() > 0 && p[0] == '.' && (p.len() == 1 || p[1] == '/')
}

/// The components of `base` are the leading components of `path`, as
/// `Path::starts_with` compares them: an empty `base` has none; otherwise
/// the root, a leading `.` and the named segments must agree.
pub open spec fn components_prefix(path: Seq<char>, base: Seq<char>) -> bool {
    let ps = segments(path);
    let bs = segments(base);
    base.len() == 0 || (is_absolute(path) == is_absolute(base) && cur_dir_lead(path) == cur_dir_lead(
        base,
    ) && bs.len() <= ps.len() && ps.take(bs.len() as int) == bs)
}

/// The pieces of `raw` that follow its `m`-th component.
pub open spec fn after_kept(raw: Seq<Seq<char>>, m: nat) -> Seq<Seq<char>>
    decreases raw.len(),
{
    if m == 0 || raw.len() == 0 {
        raw
    } else if keep_segment(raw[0]) {
        after_kept(raw.drop_first(), (m - 1) as nat)
    } else {
        after_kept(raw.drop_first(), m)
    }
}

/// `ps` without its leading empty and `.` pieces.
pub open spec fn trim_front(ps: Seq<Seq<char>>) -> Seq<Seq<char>>
    decreases ps.len(),
{
    if ps.len() > 0 && !keep_segment(ps[0]) {
        trim_front(ps.drop_first())
    } else {
        ps
    }
}

/// `ps` without its trailing empty and `.` pieces.
pub open spec fn trim_back(ps: Seq<Seq<char>>) -> Seq<Seq<char>>
    decreases ps.len(),
{
    if ps.len() > 0 && !keep_segment(ps.last()) {
        trim_back(ps.drop_last())
    } else {
        ps
    }
}

/// The path text that `Components::as_path` gives before any component was
/// taken: trailing separators and `.` pieces go, but neither the root nor a
/// leading `.`.
pub open spec fn untaken_path(p: Seq<char>) -> Seq<char> {
    let raw = split_on(p, '/');
    if is_absolute(p) {
        seq!['/'] + join_with(trim_back(raw.drop_first()), '/')
    } else if cur_dir_lead(p) {
        let t = trim_back(raw.drop_first());
        if t.len() == 0 {
            seq!['.']
        } else {
            seq!['.', '/'] + join_with(t, '/')
        }
    } else {
        join_with(trim_back(raw), '/')
    }
}

/// `path` relative to `base`, as `Path::strip_prefix` gives it on Unix: when
/// the components of `base` lead those of `path`, the text of `path` after
/// the last of them, written as it stands except for leading and trailing
/// separators and `.` pieces.
pub open spec fn strip_prefix(path: Seq<char>, base: Seq<char>) -> Option<Seq<char>> {
    if base.len() == 0 {
        Some(untaken_path(path))
    } else if components_prefix(path, base) {
        Some(
            join_with(
                trim_back(trim_front(after_kept(split_on(path, '/'), segments(base).len()))),
                '/',
            ),
        )
    } else {
        None
    }
}

/// `path` lies under `base` (`Path::starts_with`).
pub open spec fn path_under(path: Seq<char>, base: Seq<char>) -> bool {
    strip_prefix(path, base) is Some
}

/// `p` has a `..` component.
pub open spec fn has_parent_dir(p: Seq<char>) -> bool {
    segments(p).contains(seq!['.', '.'])
}

/// `p` with every backslash turned into a slash.
pub open spec fn posix(p: Seq<char>) -> Seq<char> {
    p.map_values(|c: char| if c == '\\' { '/' } else { c })
}

proof fn lemma_filter_push(r: Seq<Seq<char>>, x: Seq<char>)
    ensures
        r.push(x).filter(|s: Seq<char>| keep_segment(s)) == (if keep_segment(x) {
            r.filter(|s: Seq<char>| keep_segment(s)).push(x)
        } else {
            r.filter(|s: Seq<char>| keep_segment(s))
        }),
{
    reveal(Seq::filter);
    assert(r.push(x).drop_last() =~= r);
}

fn keeps(cur: &Vec<char>) -> (b: bool)
    ensures
        b == keep_segment(cur@),
{
    if cur.len() == 0 {
        return false;
    }
    if cur.len() == 1 && cur[0] == '.' {
        assert(cur@ =~= seq!['.']);
        return false;
    }
    assert(cur@.len() != 1 || cur@[0] != '.');
    true
}

/// The segments of `p`.
pub fn segments_of(p: &Vec<char>) -> (res: Vec<Vec<char>>)
    ensures
        res@.len() == segments(p@).len(),
        forall|i: int| 0 <= i < res@.len() ==> #[trigger] res@[i]@ == segments(p@)[i],
{
    let mut done: Vec<Vec<char>> = Vec::new();
    let ghost mut raw: Seq<Seq<char>> = Seq::empty();
    let ghost mut kept: Seq<Seq<char>> = Seq::empty();
    let mut cur: Vec<char> = Vec::new();
    let mut i: usize = 0;
    assert(p@.take(0) =~= Seq::<char>::empty());
    proof {
        reveal(Seq::filter);
    }
    while i < p.len()
        invariant
            i <= p.len(),
            split_on(p@.take(i as int), '/') == raw.push(cur@),
            kept == raw.filter(|s: Seq<char>| keep_segment(s)),
            done@.len() == kept.len(),
            forall|k: int| 0 <= k < kept.len() ==> #[trigger] done@[k]@ == kept[k],
        decreases p.len() - i,
    {
        let c = p[i];
        assert(p@.take(i + 1).drop_last() =~= p@.take(i as int));
        if c == '/' {
            proof {
                lemma_filter_push(raw, cur@);
                raw = raw.push(cur@);
            }
            if keeps(&cur) {
                proof {
                    kept = kept.push(cur@);
                }
                done.push(cur);
            }
            cur = Vec::new();
        } else {
            cur.push(c);
        }
        i = i + 1;
        proof {
            let pr = split_on(p@.take(i as int), '/');
            assert(pr =~= raw.push(cur@));
        }
    }
    assert(p@.take(i as int) =~= p@);
    proof {
        lemma_filter_push(raw, cur@);
    }
    if keeps(&cur) {
        done.push(cur);
    }
    done
}

/// Joins the pieces `ss[from..to]` with `/`.
pub fn join_range_exec(ss: &Vec<Vec<char>>, from: usize, to: usize) -> (res: Vec<char>)
    requires
        from <= to <= ss.len(),
    ensures
        res@ == join_with(ss@.subrange(from as int, to as int).map_values(|v: Vec<char>| v@), '/'),
{
    let mut out: Vec<char> = Vec::new();
    let mut i: usize = from;
    let ghost views = ss@.subrange(from as int, to as int).map_values(|v: Vec<char>| v@);
    assert(views.take(0) =~= Seq::<Seq<char>>::empty());
    while i < to
        invariant
            from <= i <= to <= ss.len(),
            views == ss@.subrange(from as int, to as int).map_values(|v: Vec<char>| v@),
            out@ == join_with(views.take(i - from), '/'),
        decreases to - i,
    {
        let ghost before = out@;
        if i > from {
            out.push('/');
        }
        let seg = &ss[i];
        let mut k: usize = 0;
        let ghost mid = out@;
        while k < seg.len()
            invariant
                k <= seg.len(),
                out@ == mid + seg@.take(k as int),
            decreases seg.len() - k,
        {
            out.push(seg[k]);
            k = k + 1;
            assert(seg@.take(k as int) =~= seg@.take(k - 1).push(seg@[k - 1]));
        }
        assert(seg@.take(k as int) =~= seg@);
        i = i + 1;
        proof {
            let t = views.take(i - from);
            assert(t.drop_last() =~= views.take(i - 1 - from));
            assert(t.last() == seg@);
            if i - from == 1 {
                assert(out@ =~= seg@);
            } else {
                assert(out@ =~= before + seq!['/'] + seg@);
            }
        }
    }
    assert(views.take(i - from) =~= views);
    out
}

/// The pieces of `p` between `/` separators.
pub fn pieces_of(p: &Vec<char>) -> (res: Vec<Vec<char>>)
    ensures
        res@.map_values(|v: Vec<char>| v@) == split_on(p@, '/'),
{
    let mut done: Vec<Vec<char>> = Vec::new();
    let mut cur: Vec<char> = Vec::new();
    let mut i: usize = 0;
    assert(p@.take(0) =~= Seq::<char>::empty());
    assert(split_on(Seq::<char>::empty(), '/') =~= seq![Seq::<char>::empty()]);
    while i < p.len()
        invariant
            i <= p.len(),
            split_on(p@.take(i as int), '/') == done@.map_values(|v: Vec<char>| v@).push(cur@),
        decreases p.len() - i,
    {
        let c = p[i];
        assert(p@.take(i + 1).drop_last() =~= p@.take(i as int));
        let ghost before = done@.map_values(|v: Vec<char>| v@).push(cur@);
        if c == '/' {
            let ghost cv = cur@;
            done.push(cur);
            cur = Vec::new();
            assert(done@.map_values(|v: Vec<char>| v@) =~= before);
            assert(done@.map_values(|v: Vec<char>| v@).push(cur@) =~= before.push(Seq::<char>::empty()));
        } else {
            cur.push(c);
            assert(done@.map_values(|v: Vec<char>| v@).push(cur@) =~= before.update(
                before.len() - 1,
                before.last().push(c),
            ));
        }
        i = i + 1;
    }
    assert(p@.take(i as int) =~= p@);
    done.push(cur);
    done
}

/// Joins `rel` onto `base` (see [`join_path`]).
pub fn join_path_exec(base: &str, rel: &str) -> (res: String)
    ensures
        res@ == join_path(base@, rel@),
{
    let b = chars_of(base);
    let r = chars_of(rel);
    if (r.len() > 0 && r[0] == '/') || b.len() == 0 {
        return owned(rel);
    }
    let mut out = owned(base);
    if b[b.len() - 1] != '/' {
        push_char(&mut out, '/');
    }
    push_str(&mut out, rel);
    out
}

/// Where the pieces of `raw` that follow its `m`-th component start.
fn skip_kept(raw: &Vec<Vec<char>>, m: usize) -> (i: usize)
    ensures
        i <= raw.len(),
        after_kept(raw@.map_values(|x: Vec<char>| x@), m as nat) == raw@.map_values(
            |x: Vec<char>| x@,
        ).skip(i as int),
{
    let ghost v = raw@.map_values(|x: Vec<char>| x@);
    let mut i: usize = 0;
    let mut c: usize = 0;
    assert(v.skip(0) =~= v);
    while c < m && i < raw.len()
        invariant
            i <= raw.len(),
            c <= m,
            v == raw@.map_values(|x: Vec<char>| x@),
            after_kept(v, m as nat) == after_kept(v.skip(i as int), (m - c) as nat),
        decreases raw.len() - i,
    {
        assert(v.skip(i as int).drop_first() =~= v.skip(i + 1));
        assert(v.skip(i as int)[0] == v[i as int]);
        if keeps(&raw[i]) {
            c = c + 1;
        }
        i = i + 1;
    }
    i
}

/// The first piece from `from` on that names a component.
fn front_start(raw: &Vec<Vec<char>>, from: usize) -> (a: usize)
    requires
        from <= raw.len(),
    ensures
        from <= a <= raw.len(),
        trim_front(raw@.map_values(|x: Vec<char>| x@).skip(from as int)) == raw@.map_values(
            |x: Vec<char>| x@,
        ).skip(a as int),
{
    let ghost v = raw@.map_values(|x: Vec<char>| x@);
    let mut a: usize = from;
    while a < raw.len() && !keeps(&raw[a])
        invariant
            from <= a <= raw.len(),
            v == raw@.map_values(|x: Vec<char>| x@),
            trim_front(v.skip(from as int)) == trim_front(v.skip(a as int)),
        decreases raw.len() - a,
    {
        assert(v.skip(a as int).drop_first() =~= v.skip(a + 1));
        assert(v.skip(a as int)[0] == v[a as int]);
        a = a + 1;
    }
    if a < raw.len() {
        assert(v.skip(a as int)[0] == v[a as int]);
    }
    a
}

/// The end of the pieces from `a` on without the trailing ones that name
/// no component.
fn back_end(raw: &Vec<Vec<char>>, a: usize) -> (e: usize)
    requires
        a <= raw.len(),
    ensures
        a <= e <= raw.len(),
        trim_back(raw@.map_values(|x: Vec<char>| x@).skip(a as int)) == raw@.map_values(
            |x: Vec<char>| x@,
        ).subrange(a as int, e as int),
{
    let ghost v = raw@.map_values(|x: Vec<char>| x@);
    let mut e: usize = raw.len();
    assert(v.skip(a as int) =~= v.subrange(a as int, e as int));
    while e > a && !keeps(&raw[e - 1])
        invariant
            a <= e <= raw.len(),
            v == raw@.map_values(|x: Vec<char>| x@),
            trim_back(v.skip(a as int)) == trim_back(v.subrange(a as int, e as int)),
        decreases e - a,
    {
        assert(v.subrange(a as int, e as int).drop_last() =~= v.subrange(a as int, e - 1));
        assert(v.subrange(a as int, e as int).last() == v[e - 1]);
        e = e - 1;
    }
    if e > a {
        assert(v.subrange(a as int, e as int).last() == v[e - 1]);
    }
    e
}

fn append_chars(out: &mut Vec<char>, b: &Vec<char>)
    ensures
        final(out)@ == old(out)@ + b@,
{
    let ghost start = out@;
    let mut k: usize = 0;
    while k < b.len()
        invariant
            k <= b.len(),
            out@ == start + b@.take(k as int),
        decreases b.len() - k,
    {
        out.push(b[k]);
        k = k + 1;
        assert(b@.take(k as int) =~= b@.take(k - 1).push(b@[k - 1]));
    }
    assert(b@.take(k as int) =~= b@);
}

/// [`untaken_path`] of the characters `p`, whose pieces are `raw`.
fn untaken_exec(p: &Vec<char>, raw: &Vec<Vec<char>>) -> (res: Vec<char>)
    requires
        raw@.map_values(|x: Vec<char>| x@) == split_on(p@, '/'),
    ensures
        res@ == untaken_path(p@),
{
    proof {
        lemma_split_on_nonempty(p@, '/');
    }
    let ghost v = split_on(p@, '/');
    assert(v.drop_first() =~= v.skip(1));
    if p.len() > 0 && p[0] == '/' {
        let e = back_end(raw, 1);
        let j = join_range_exec(raw, 1, e);
        assert(raw@.subrange(1, e as int).map_values(|x: Vec<char>| x@) =~= v.subrange(1, e as int));
        let mut out: Vec<char> = vec!['/'];
        append_chars(&mut out, &j);
        assert(out@ =~= seq!['/'] + j@);
        out
    } else if p.len() > 0 && p[0] == '.' && (p.len() == 1 || p[1] == '/') {
        let e = back_end(raw, 1);
        if e == 1 {
            let out: Vec<char> = vec!['.'];
            assert(out@ =~= seq!['.']);
            out
        } else {
            let j = join_range_exec(raw, 1, e);
            assert(raw@.subrange(1, e as int).map_values(|x: Vec<char>| x@) =~= v.subrange(
                1,
                e as int,
            ));
            let mut out: Vec<char> = vec!['.', '/'];
            append_chars(&mut out, &j);
            assert(out@ =~= seq!['.', '/'] + j@);
            out
        }
    } else {
        let e = back_end(raw, 0);
        assert(v.skip(0) =~= v);
        let j = join_range_exec(raw, 0, e);
        assert(raw@.subrange(0, e as int).map_values(|x: Vec<char>| x@) =~= v.subrange(0, e as int));
        j
    }
}

/// `path` relative to `base`, when `base` is a leading part of it.
pub fn strip_prefix_exec(path: &str, base: &str) -> (res: Option<String>)
    ensures
        res matches Some(r) ==> strip_prefix(path@, base@) == Some(r@),
        res is None ==> strip_prefix(path@, base@) is None,
{
    let p = chars_of(path);
    let b = chars_of(base);
    let raw = pieces_of(&p);
    let ghost v = split_on(path@, '/');
    if b.len() == 0 {
        let u = untaken_exec(&p, &raw);
        return Some(string_of(&u));
    }
    let pa = p.len() > 0 && p[0] == '/';
    let ba = b.len() > 0 && b[0] == '/';
    if pa != ba {
        return None;
    }
    let pc = p.len() > 0 && p[0] == '.' && (p.len() == 1 || p[1] == '/');
    let bc = b.len() > 0 && b[0] == '.' && (b.len() == 1 || b[1] == '/');
    if pc != bc {
        return None;
    }
    let ps = segments_of(&p);
    let bs = segments_of(&b);
    let ghost psv = segments(path@);
    let ghost bsv = segments(base@);
    if bs.len() > ps.len() {
        assert(bsv.len() > psv.len());
        return None;
    }
    let mut i: usize = 0;
    while i < bs.len()
        invariant
            base@.len() > 0,
            bs.len() <= ps.len(),
            i <= bs.len(),
            psv == segments(path@),
            bsv == segments(base@),
            ps@.len() == psv.len(),
            bs@.len() == bsv.len(),
            forall|k: int| 0 <= k < ps@.len() ==> #[trigger] ps@[k]@ == psv[k],
            forall|k: int| 0 <= k < bs@.len() ==> #[trigger] bs@[k]@ == bsv[k],
            forall|k: int| 0 <= k < i ==> psv[k] == bsv[k],
        decreases bs.len() - i,
    {
        if !chars_eq(&ps[i], &bs[i]) {
            assert(psv.take(bsv.len() as int)[i as int] != bsv[i as int]);
            return None;
        }
        i = i + 1;
    }
    assert(psv.take(bsv.len() as int) =~= bsv);
    let i0 = skip_kept(&raw, bs.len());
    let a = front_start(&raw, i0);
    let e = back_end(&raw, a);
    let joined = join_range_exec(&raw, a, e);
    assert(raw@.subrange(a as int, e as int).map_values(|x: Vec<char>| x@) =~= v.subrange(
        a as int,
        e as int,
    ));
    Some(string_of(&joined))
}

/// Whether `path` lies under `base`.
pub fn path_starts_with(path: &str, base: &str) -> (res: bool)
    ensures
        res == path_under(path@, base@),
{
    strip_prefix_exec(path, base).is_some()
}

/// Whether `p` has a `..` component.
pub fn has_parent_dir_exec(p: &str) -> (res: bool)
    ensures
        res == has_parent_dir(p@),
{
    let cs = chars_of(p);
    let ss = segments_of(&cs);
    let ghost sv = segments(p@);
    let dots: Vec<char> = vec!['.', '.'];
    assert(dots@ =~= seq!['.', '.']);
    let mut i: usize = 0;
    while i < ss.len()
        invariant
            i <= ss.len(),
            ss@.len() == sv.len(),
            dots@ == seq!['.', '.'],
            sv == segments(p@),
            forall|k: int| 0 <= k < ss@.len() ==> #[trigger] ss@[k]@ == sv[k],
            forall|k: int| 0 <= k < i ==> sv[k] != seq!['.', '.'],
        decreases ss.len() - i,
    {
        if chars_eq(&ss[i], &dots) {
            assert(sv[i as int] == seq!['.', '.']);
            assert(sv.contains(seq!['.', '.']));
            return true;
        }
        i = i + 1;
    }
    false
}

/// `path` with backslashes turned into slashes.
pub fn to_posix_path(path: &str) -> (res: String)
    ensures
        res@ == posix(path@),
{
    let cs = chars_of(path);
    let mut out = String::new();
    let mut i: usize = 0;
    while i < cs.len()
        invariant
            i <= cs.len(),
            cs@ == path@,
            out@ == posix(cs@.take(i as int)),
        decreases cs.len() - i,
    {
        let c = cs[i];
        push_char(&mut out, if c == '\\' { '/' } else { c });
        i = i + 1;
        assert(posix(cs@.take(i as int)) =~= posix(cs@.take(i - 1)).push(
            if c == '\\' { '/' } else { c },
        ));
    }
    assert(cs@.take(i as int) =~= cs@);
    out
}

// ---------------------------------------------------------------------------
// How segments behave under joining
// ---------------------------------------------------------------------------

/// The pieces of `base` that stay in front when a relative path is joined
/// onto it: all of them, without a final empty piece after a trailing `/`.
pub open spec fn base_pieces(base: Seq<char>) -> Seq<Seq<char>> {
    if base.len() > 0 && base.last() == '/' {
        split_on(base.drop_last(), '/')
    } else {
        split_on(base, '/')
    }
}

/// The segments of `base` joined with a relative path are those of `base`
/// followed by those of the relative path; the pieces are those of `base`
/// followed by those of the relative path.
pub proof fn lemma_segments_join_path(base: Seq<char>, rel: Seq<char>)
    requires
        base.len() > 0,
        !is_absolute(rel),
    ensures
        segments(join_path(base, rel)) == segments(base) + segments(rel),
        split_on(join_path(base, rel), '/') == base_pieces(base) + split_on(rel, '/'),
        base_pieces(base).filter(|s: Seq<char>| keep_segment(s)) == segments(base),
{
    let f = |s: Seq<char>| keep_segment(s);
    let a = if base.last() == '/' {
        base
    } else {
        base + seq!['/']
    };
    assert(join_path(base, rel) == a + rel) by {
        if base.last() != '/' {
            assert(base + seq!['/'] + rel =~= a + rel);
        }
    }
    lemma_split_on_nonempty(base, '/');
    lemma_split_on_nonempty(rel, '/');
    let sa = split_on(a, '/');
    if base.last() == '/' {
        assert(base.drop_last().push('/') =~= base);
        assert(sa == split_on(base.drop_last(), '/').push(Seq::<char>::empty()));
    } else {
        assert(a.drop_last() =~= base);
        assert(sa == split_on(base, '/').push(Seq::<char>::empty()));
    }
    assert(sa.drop_last() =~= base_pieces(base));
    let sb = split_on(rel, '/');
    lemma_split_append(a, rel, '/');
    assert(Seq::<char>::empty() + sb[0] =~= sb[0]);
    assert(sb.update(0, sb[0]) =~= sb);
    assert(split_on(a + rel, '/') == sa.drop_last() + sb);
    Seq::filter_distributes_over_add(sa.drop_last(), sb, f);
    reveal(Seq::filter);
    assert(sa.drop_last().push(Seq::<char>::empty()) =~= sa);
    assert(sa.filter(f) == sa.drop_last().filter(f));
    if base.last() == '/' {
        let sr = split_on(base, '/');
        assert(sr == split_on(base.drop_last(), '/').push(Seq::<char>::empty()));
        assert(sr.drop_last() =~= sa.drop_last());
        assert(sr.filter(f) == sr.drop_last().filter(f));
    } else {
        assert(sa.drop_last() =~= split_on(base, '/'));
    }
}

proof fn lemma_filter_first(s: Seq<Seq<char>>)
    requires
        s.len() > 0,
    ensures
        s.filter(|x: Seq<char>| keep_segment(x)) == (if keep_segment(s[0]) {
            seq![s[0]]
        } else {
            Seq::<Seq<char>>::empty()
        }) + s.drop_first().filter(|x: Seq<char>| keep_segment(x)),
{
    let f = |x: Seq<char>| keep_segment(x);
    assert(s =~= seq![s[0]] + s.drop_first());
    Seq::filter_distributes_over_add(seq![s[0]], s.drop_first(), f);
    reveal(Seq::filter);
    let one = seq![s[0]];
    assert(one.drop_last() =~= Seq::<Seq<char>>::empty());
    assert(Seq::<Seq<char>>::empty().filter(f) =~= Seq::<Seq<char>>::empty());
    assert(one.last() == s[0]);
    if keep_segment(s[0]) {
        assert(one.filter(f) =~= Seq::<Seq<char>>::empty().push(s[0]));
        assert(one.filter(f) =~= seq![s[0]]);
    } else {
        assert(one.filter(f) =~= Seq::<Seq<char>>::empty());
    }
}

proof fn lemma_trim_front_skips(a: Seq<Seq<char>>, b: Seq<Seq<char>>)
    requires
        forall|i: int| 0 <= i < a.len() ==> !keep_segment(#[trigger] a[i]),
    ensures
        trim_front(a + b) == trim_front(b),
    decreases a.len(),
{
    if a.len() > 0 {
        assert((a + b)[0] == a[0]);
        assert((a + b).drop_first() =~= a.drop_first() + b);
        assert forall|i: int| 0 <= i < a.drop_first().len() implies !keep_segment(#[trigger] a.drop_first()[i]) by {
            assert(a.drop_first()[i] == a[i + 1]);
        }
        lemma_trim_front_skips(a.drop_first(), b);
    } else {
        assert(a + b =~= b);
    }
}

/// Past the components of `a`, only pieces that name none of them are left
/// before `b`.
proof fn lemma_after_kept_concat(a: Seq<Seq<char>>, b: Seq<Seq<char>>)
    ensures
        trim_front(after_kept(a + b, a.filter(|x: Seq<char>| keep_segment(x)).len())) == trim_front(b),
    decreases a.len(),
{
    let f = |x: Seq<char>| keep_segment(x);
    if a.len() == 0 {
        assert(a + b =~= b);
        reveal(Seq::filter);
    } else {
        lemma_filter_first(a);
        let m = a.filter(f).len();
        assert((a + b).drop_first() =~= a.drop_first() + b);
        assert((a + b)[0] == a[0]);
        if m == 0 {
            assert(!keep_segment(a[0]));
            assert forall|i: int| 0 <= i < a.len() implies !keep_segment(#[trigger] a[i]) by {
                if keep_segment(a[i]) {
                    a.lemma_filter_contains(f, i);
                    assert(a.filter(f).contains(a[i]));
                }
            }
            lemma_trim_front_skips(a, b);
        } else {
            lemma_after_kept_concat(a.drop_first(), b);
        }
    }
}

/// A relative path written plainly: it neither starts nor ends with a
/// separator or a `.` piece.
pub open spec fn plain_relative(p: Seq<char>) -> bool {
    let raw = split_on(p, '/');
    !is_absolute(p) && keep_segment(raw[0]) && keep_segment(raw.last())
}

/// A plainly written relative path joined onto an absolute base comes back
/// unchanged when the base is stripped again.
pub proof fn lemma_strip_joined(base: Seq<char>, rel: Seq<char>)
    requires
        is_absolute(base),
        plain_relative(rel),
    ensures
        is_absolute(join_path(base, rel)),
        strip_prefix(join_path(base, rel), base) == Some(rel),
{
    let p = join_path(base, rel);
    let f = |x: Seq<char>| keep_segment(x);
    lemma_segments_join_path(base, rel);
    lemma_split_on_nonempty(rel, '/');
    assert(is_absolute(p)) by {
        if base.last() == '/' {
            assert((base + rel)[0] == base[0]);
        } else {
            assert((base + seq!['/'] + rel)[0] == base[0]);
        }
    }
    let ps = segments(p);
    let bs = segments(base);
    assert(ps.take(bs.len() as int) =~= bs);
    assert(components_prefix(p, base));
    let bp = base_pieces(base);
    let sb = split_on(rel, '/');
    lemma_after_kept_concat(bp, sb);
    assert(trim_front(sb) == sb);
    assert(trim_back(sb) == sb);
    lemma_join_split(rel, '/');
}

} // verus!
