use vstd::prelude::*;
use vstd::string::*;

verus! {

// ---------------------------------------------------------------------------
// Character classes
// ---------------------------------------------------------------------------

/// Unicode `White_Space` property, the set that `char::is_whitespace` tests.
pub open spec fn is_ws(c: char) -> bool {
    let n = c as u32;
    ||| 0x9 <= n <= 0xD
    ||| n == 0x20
    ||| n == 0x85
    ||| n == 0xA0
    ||| n == 0x1680
    ||| 0x2000 <= n <= 0x200A
    ||| n == 0x2028
    ||| n == 0x2029
    ||| n == 0x202F
    ||| n == 0x205F
    ||| n == 0x3000
}

pub fn char_is_ws(c: char) -> (b: bool)
    ensures
        b == is_ws(c),
{
    let n = c as u32;
    (0x9 <= n && n <= 0xD) || n == 0x20 || n == 0x85 || n == 0xA0 || n == 0x1680 || (0x2000 <= n
        && n <= 0x200A) || n == 0x2028 || n == 0x2029 || n == 0x202F || n == 0x205F || n == 0x3000
}

/// ASCII case folding of one character; other characters are left alone.
pub open spec fn ascii_lower(c: char) -> char {
    if 'A' <= c <= 'Z' {
        ((c as u32) + 32) as char
    } else {
        c
    }
}

pub fn char_ascii_lower(c: char) -> (r: char)
    ensures
        r == ascii_lower(c),
{
    if 'A' <= c && c <= 'Z' {
        ((c as u8) + 32) as char
    } else {
        c
    }
}

/// Equality up to ASCII case, character by character.
pub open spec fn eq_ignore_ascii_case(a: Seq<char>, b: Seq<char>) -> bool {
    &&& a.len() == b.len()
    &&& forall|i: int| 0 <= i < a.len() ==> ascii_lower(#[trigger] a[i]) == ascii_lower(b[i])
}

// ---------------------------------------------------------------------------
// Conversions between `str`, `String` and character vectors
// ---------------------------------------------------------------------------

/// Calls `String::push`, which appends `c` to the end of `s`, as its
/// documentation says; the contract claims exactly that of the string's
/// characters.
#[verifier::external_body]
pub(crate) fn push_char(s: &mut String, c: char)
    ensures
        final(s)@ == old(s)@.push(c),
{
    s.push(c);
}

/// The characters of a string slice, in order.
pub fn chars_of(s: &str) -> (res: Vec<char>)
    ensures
        res@ == s@,
{
    let mut res: Vec<char> = Vec::new();
    for c in it: s.chars()
        invariant
            res@ == it.seq().take(it.index() as int),
            it.seq() == s@,
    {
        res.push(c);
    }
    res
}

/// A string made of the given characters.
pub fn string_of(cs: &Vec<char>) -> (res: String)
    ensures
        res@ == cs@,
{
    let mut res = String::new();
    let mut i: usize = 0;
    while i < cs.len()
        invariant
            i <= cs.len(),
            res@ == cs@.take(i as int),
        decreases cs.len() - i,
    {
        push_char(&mut res, cs[i]);
        i = i + 1;
        assert(cs@.take(i as int) =~= cs@.take(i - 1).push(cs@[i - 1]));
    }
    assert(cs@.take(i as int) =~= cs@);
    res
}

/// Appends a string slice to a string.
pub fn push_str(s: &mut String, t: &str)
    ensures
        final(s)@ == old(s)@ + t@,
{
    s.append(t);
}

/// An owned copy of a string slice.
pub fn owned(t: &str) -> (res: String)
    ensures
        res@ == t@,
{
    String::from_str(t)
}

/// Equality of two string slices.
pub fn str_eq(a: &str, b: &str) -> (res: bool)
    ensures
        res == (a@ == b@),
{
    let x = chars_of(a);
    let y = chars_of(b);
    chars_eq(&x, &y)
}

/// Equality of two character vectors.
pub fn chars_eq(x: &Vec<char>, y: &Vec<char>) -> (res: bool)
    ensures
        res == (x@ == y@),
{
    if x.len() != y.len() {
        return false;
    }
    let mut i: usize = 0;
    while i < x.len()
        invariant
            x.len() == y.len(),
            i <= x.len(),
            forall|j: int| 0 <= j < i ==> x@[j] == y@[j],
        decreases x.len() - i,
    {
        if x[i] != y[i] {
            return false;
        }
        i = i + 1;
    }
    assert(x@ =~= y@);
    true
}

// ---------------------------------------------------------------------------
// Trimming
// ---------------------------------------------------------------------------

/// `s` without its leading white space.
pub open spec fn trim_start(s: Seq<char>) -> Seq<char>
    decreases s.len(),
{
    if s.len() > 0 && is_ws(s[0]) {
        trim_start(s.drop_first())
    } else {
        s
    }
}

/// `s` without its trailing white space.
pub open spec fn trim_end(s: Seq<char>) -> Seq<char>
    decreases s.len(),
{
    if s.len() > 0 && is_ws(s.last()) {
        trim_end(s.drop_last())
    } else {
        s
    }
}

/// `s` without leading and trailing white space, as `str::trim` gives it.
pub open spec fn trim(s: Seq<char>) -> Seq<char> {
    trim_end(trim_start(s))
}

proof fn lemma_trim_start_skip(s: Seq<char>, i: int)
    requires
        0 <= i <= s.len(),
        forall|j: int| 0 <= j < i ==> is_ws(#[trigger] s[j]),
    ensures
        trim_start(s) == trim_start(s.skip(i)),
    decreases i,
{
    if i > 0 {
        assert(s.skip(1) =~= s.drop_first());
        lemma_trim_start_skip(s.drop_first(), i - 1);
        assert(s.drop_first().skip(i - 1) =~= s.skip(i));
    } else {
        assert(s.skip(0) =~= s);
    }
}

proof fn lemma_trim_end_take(s: Seq<char>, k: int)
    requires
        0 <= k <= s.len(),
        forall|j: int| k <= j < s.len() ==> is_ws(#[trigger] s[j]),
    ensures
        trim_end(s) == trim_end(s.take(k)),
    decreases s.len() - k,
{
    if k < s.len() {
        assert(s.take(s.len() - 1) =~= s.drop_last());
        lemma_trim_end_take(s.drop_last(), k);
        assert(s.drop_last().take(k) =~= s.take(k));
    } else {
        assert(s.take(k) =~= s);
    }
}

/// The characters of `s` with leading and trailing white space removed.
pub fn trim_chars(s: &Vec<char>) -> (res: Vec<char>)
    ensures
        res@ == trim(s@),
{
    let n = s.len();
    let mut a: usize = 0;
    while a < n && char_is_ws(s[a])
        invariant
            a <= n == s.len(),
            forall|j: int| 0 <= j < a ==> is_ws(#[trigger] s@[j]),
        decreases n - a,
    {
        a = a + 1;
    }
    proof {
        lemma_trim_start_skip(s@, a as int);
    }
    let ghost t = s@.skip(a as int);
    assert(trim_start(s@) == t);
    let mut b: usize = n;
    while b > a && char_is_ws(s[b - 1])
        invariant
            a <= b <= n == s.len(),
            t == s@.skip(a as int),
            forall|j: int| b <= j < n ==> is_ws(#[trigger] s@[j]),
        decreases b,
    {
        b = b - 1;
    }
    let mut res: Vec<char> = Vec::new();
    let mut i: usize = a;
    while i < b
        invariant
            a <= i <= b <= n == s.len(),
            res@ == s@.subrange(a as int, i as int),
        decreases b - i,
    {
        res.push(s[i]);
        i = i + 1;
        assert(s@.subrange(a as int, i as int) =~= s@.subrange(a as int, i - 1).push(s@[i - 1]));
    }
    proof {
        assert forall|j: int| (b - a) <= j < t.len() implies is_ws(#[trigger] t[j]) by {
            assert(t[j] == s@[j + a]);
        }
        lemma_trim_end_take(t, b - a);
        assert(t.take(b - a) =~= s@.subrange(a as int, b as int));
        if b > a {
            assert(t.take(b - a).last() == s@[b - 1]);
        }
    }
    res
}


// ---------------------------------------------------------------------------
// Splitting into pieces and lines
// ---------------------------------------------------------------------------

/// The pieces of `s` between occurrences of `sep`, as `str::split` yields
/// them: always at least one piece, possibly empty ones.
pub open spec fn split_on(s: Seq<char>, sep: char) -> Seq<Seq<char>>
    decreases s.len(),
{
    if s.len() == 0 {
        seq![Seq::empty()]
    } else {
        let r = split_on(s.drop_last(), sep);
        if s.last() == sep {
            r.push(Seq::empty())
        } else {
            r.update(r.len() - 1, r.last().push(s.last()))
        }
    }
}

pub proof fn lemma_split_on_nonempty(s: Seq<char>, sep: char)
    ensures
        split_on(s, sep).len() >= 1,
    decreases s.len(),
{
    if s.len() > 0 {
        lemma_split_on_nonempty(s.drop_last(), sep);
    }
}

/// A line without the carriage return that ends it, if any.
pub open spec fn strip_cr(l: Seq<char>) -> Seq<char> {
    if l.len() > 0 && l.last() == '\r' {
        l.drop_last()
    } else {
        l
    }
}

/// The lines of `s` as `str::lines` yields them: pieces between `\n`, each
/// terminated line without a trailing `\r`, and no final empty line.
pub open spec fn lines(s: Seq<char>) -> Seq<Seq<char>> {
    let parts = split_on(s, '\n');
    let body = parts.drop_last().map_values(|l: Seq<char>| strip_cr(l));
    if parts.last().len() == 0 {
        body
    } else {
        body.push(parts.last())
    }
}

/// The lines of `s`.
pub fn lines_of(s: &Vec<char>) -> (res: Vec<Vec<char>>)
    ensures
        res@.len() == lines(s@).len(),
        forall|i: int| 0 <= i < res@.len() ==> #[trigger] res@[i]@ == lines(s@)[i],
{
    let mut done: Vec<Vec<char>> = Vec::new();
    let ghost mut raw: Seq<Seq<char>> = Seq::empty();
    let mut cur: Vec<char> = Vec::new();
    let mut i: usize = 0;
    assert(s@.take(0) =~= Seq::<char>::empty());
    while i < s.len()
        invariant
            i <= s.len(),
            split_on(s@.take(i as int), '\n') == raw.push(cur@),
            done@.len() == raw.len(),
            forall|k: int| 0 <= k < raw.len() ==> #[trigger] done@[k]@ == strip_cr(raw[k]),
        decreases s.len() - i,
    {
        let c = s[i];
        assert(s@.take(i + 1).drop_last() =~= s@.take(i as int));
        if c == '\n' {
            let mut line = cur;
            let n = line.len();
            if n > 0 && line[n - 1] == '\r' {
                line.pop();
            }
            proof {
                raw = raw.push(cur@);
            }
            assert(line@ == strip_cr(raw.last()));
            done.push(line);
            cur = Vec::new();
        } else {
            cur.push(c);
        }
        i = i + 1;
        proof {
            let pr = split_on(s@.take(i as int), '\n');
            assert(pr =~= raw.push(cur@));
        }
    }
    assert(s@.take(i as int) =~= s@);
    let ghost parts = split_on(s@, '\n');
    assert(parts.drop_last() =~= raw);
    assert(parts.last() == cur@);
    if cur.len() > 0 {
        done.push(cur);
    }
    done
}

// ---------------------------------------------------------------------------
// Substrings
// ---------------------------------------------------------------------------

/// `t` occurs in `s` starting at index `i`.
pub open spec fn occurs_at(s: Seq<char>, t: Seq<char>, i: int) -> bool {
    0 <= i && i + t.len() <= s.len() && s.subrange(i, i + t.len()) == t
}

/// `t` is a substring of `s`.
pub open spec fn contains_sub(s: Seq<char>, t: Seq<char>) -> bool {
    exists|i: int| occurs_at(s, t, i)
}

/// Whether `t` occurs in `s` at index `i`.
pub fn occurs_at_exec(s: &Vec<char>, t: &Vec<char>, i: usize) -> (res: bool)
    ensures
        res == occurs_at(s@, t@, i as int),
{
    if i > s.len() || t.len() > s.len() - i {
        return false;
    }
    let mut k: usize = 0;
    while k < t.len()
        invariant
            i + t.len() <= s.len(),
            k <= t.len(),
            forall|j: int| 0 <= j < k ==> s@[i + j] == t@[j],
        decreases t.len() - k,
    {
        if s[i + k] != t[k] {
            assert(s@.subrange(i as int, i + t.len())[k as int] != t@[k as int]);
            return false;
        }
        k = k + 1;
    }
    assert(s@.subrange(i as int, i + t.len()) =~= t@);
    true
}

/// Whether `t` is a substring of `s`.
pub fn contains_chars(s: &Vec<char>, t: &Vec<char>) -> (res: bool)
    ensures
        res == contains_sub(s@, t@),
{
    if t.len() > s.len() {
        return false;
    }
    let last = s.len() - t.len();
    let mut i: usize = 0;
    while i < last
        invariant
            t.len() <= s.len(),
            last == s.len() - t.len(),
            i <= last,
            forall|j: int| 0 <= j < i ==> !occurs_at(s@, t@, j),
        decreases last - i,
    {
        if occurs_at_exec(s, t, i) {
            return true;
        }
        i = i + 1;
    }
    occurs_at_exec(s, t, last)
}

/// `s` with every non-overlapping occurrence of the non-empty `p`, found
/// from the left, replaced by `r`, as `str::replace` gives it.
pub open spec fn replace_all(s: Seq<char>, p: Seq<char>, r: Seq<char>) -> Seq<char>
    decreases s.len(),
{
    if p.len() == 0 || s.len() < p.len() {
        s
    } else if s.take(p.len() as int) == p {
        r + replace_all(s.skip(p.len() as int), p, r)
    } else {
        seq![s[0]] + replace_all(s.skip(1), p, r)
    }
}

/// Replaces every occurrence of the non-empty `p` in `s` by `r`.
pub fn replace_chars(s: &Vec<char>, p: &Vec<char>, r: &Vec<char>) -> (res: Vec<char>)
    requires
        p.len() > 0,
    ensures
        res@ == replace_all(s@, p@, r@),
{
    let mut out: Vec<char> = Vec::new();
    let mut i: usize = 0;
    assert(s@.skip(0) =~= s@);
    while i < s.len()
        invariant
            p.len() > 0,
            i <= s.len(),
            out@ + replace_all(s@.skip(i as int), p@, r@) == replace_all(s@, p@, r@),
        decreases s.len() - i,
    {
        let ghost rest = s@.skip(i as int);
        if p.len() <= s.len() - i && occurs_at_exec(s, p, i) {
            assert(rest.take(p.len() as int) =~= p@);
            assert(rest.skip(p.len() as int) =~= s@.skip(i + p.len()));
            let mut k: usize = 0;
            let ghost out0 = out@;
            while k < r.len()
                invariant
                    k <= r.len(),
                    out@ == out0 + r@.take(k as int),
                decreases r.len() - k,
            {
                out.push(r[k]);
                k = k + 1;
                assert(r@.take(k as int) =~= r@.take(k - 1).push(r@[k - 1]));
            }
            assert(r@.take(k as int) =~= r@);
            assert(out0 + replace_all(rest, p@, r@) == out0 + (r@ + replace_all(
                s@.skip(i + p.len()),
                p@,
                r@,
            )));
            assert(out0 + (r@ + replace_all(s@.skip(i + p.len()), p@, r@)) =~= out@
                + replace_all(s@.skip(i + p.len()), p@, r@));
            i = i + p.len();
        } else {
            proof {
                if rest.len() >= p@.len() {
                    assert(rest.take(p@.len() as int) =~= s@.subrange(i as int, i + p@.len()));
                }
            }
            assert(rest.skip(1) =~= s@.skip(i + 1));
            let ghost out0 = out@;
            out.push(s[i]);
            proof {
                if rest.len() < p@.len() {
                    assert(replace_all(rest, p@, r@) == rest);
                    assert(replace_all(s@.skip(i + 1), p@, r@) == s@.skip(i + 1));
                    assert(rest =~= seq![s@[i as int]] + s@.skip(i + 1));
                }
            }
            assert(out0 + (seq![s@[i as int]] + replace_all(s@.skip(i + 1), p@, r@)) =~= out@
                + replace_all(s@.skip(i + 1), p@, r@));
            i = i + 1;
        }
    }
    assert(s@.skip(i as int) =~= Seq::<char>::empty());
    assert(out@ + Seq::<char>::empty() =~= out@);
    out
}

// ---------------------------------------------------------------------------
// Decimal numerals
// ---------------------------------------------------------------------------

/// The ASCII digit for `d < 10`.
pub open spec fn digit(d: nat) -> char {
    (('0' as u32) + d) as char
}

/// Decimal numeral of `n`, as `Display` prints unsigned integers.
pub open spec fn decimal(n: nat) -> Seq<char>
    decreases n,
{
    if n < 10 {
        seq![digit(n)]
    } else {
        decimal(n / 10).push(digit(n % 10))
    }
}

/// Appends the decimal numeral of `n` to `out`.
pub fn push_decimal(out: &mut String, n: u64)
    ensures
        final(out)@ == old(out)@ + decimal(n as nat),
    decreases n,
{
    if n >= 10 {
        push_decimal(out, n / 10);
    }
    let d = (n % 10) as u32;
    let c = char_from_digit(d);
    push_char(out, c);
    proof {
        if n >= 10 {
            assert(decimal(n as nat) == decimal((n / 10) as nat).push(digit((n % 10) as nat)));
        }
    }
    assert(final(out)@ =~= old(out)@ + decimal(n as nat));
}

fn char_from_digit(d: u32) -> (c: char)
    requires
        d < 10,
    ensures
        c == digit(d as nat),
{
    let b: u8 = 48 + (d as u8);
    b as char
}

// ---------------------------------------------------------------------------
// Joining lines, and how `lines` treats concatenations
// ---------------------------------------------------------------------------

/// The pieces joined with `sep` between them.
pub open spec fn join_with(ss: Seq<Seq<char>>, sep: char) -> Seq<char>
    decreases ss.len(),
{
    if ss.len() == 0 {
        Seq::empty()
    } else if ss.len() == 1 {
        ss[0]
    } else {
        join_with(ss.drop_last(), sep) + seq![sep] + ss.last()
    }
}

/// Each piece followed by a newline.
pub open spec fn terminated(ss: Seq<Seq<char>>) -> Seq<char>
    decreases ss.len(),
{
    if ss.len() == 0 {
        Seq::empty()
    } else {
        terminated(ss.drop_last()) + ss.last() + seq!['\n']
    }
}

/// `s` is empty or ends with a newline: what follows starts a new line.
pub open spec fn at_line_start(s: Seq<char>) -> bool {
    s.len() == 0 || s.last() == '\n'
}

/// The pieces joined with `sep`.
pub fn join_with_exec(ss: &Vec<Vec<char>>, sep: char) -> (res: Vec<char>)
    ensures
        res@ == join_with(ss@.map_values(|v: Vec<char>| v@), sep),
{
    let mut out: Vec<char> = Vec::new();
    let mut i: usize = 0;
    let ghost views = ss@.map_values(|v: Vec<char>| v@);
    assert(views.take(0) =~= Seq::<Seq<char>>::empty());
    while i < ss.len()
        invariant
            i <= ss.len(),
            views == ss@.map_values(|v: Vec<char>| v@),
            out@ == join_with(views.take(i as int), sep),
        decreases ss.len() - i,
    {
        let ghost before = out@;
        if i > 0 {
            out.push(sep);
        }
        let piece = &ss[i];
        let mut k: usize = 0;
        let ghost mid = out@;
        while k < piece.len()
            invariant
                k <= piece.len(),
                out@ == mid + piece@.take(k as int),
            decreases piece.len() - k,
        {
            out.push(piece[k]);
            k = k + 1;
            assert(piece@.take(k as int) =~= piece@.take(k - 1).push(piece@[k - 1]));
        }
        assert(piece@.take(k as int) =~= piece@);
        i = i + 1;
        proof {
            let t = views.take(i as int);
            assert(t.drop_last() =~= views.take(i - 1));
            assert(t.last() == piece@);
            if i == 1 {
                assert(out@ =~= piece@);
            } else {
                assert(out@ =~= before + seq![sep] + piece@);
            }
        }
    }
    assert(views.take(i as int) =~= views);
    out
}

/// Splitting on a separator and joining with it gives the text back.
pub proof fn lemma_join_split(s: Seq<char>, sep: char)
    ensures
        join_with(split_on(s, sep), sep) == s,
    decreases s.len(),
{
    if s.len() > 0 {
        let s1 = s.drop_last();
        let c = s.last();
        lemma_join_split(s1, sep);
        lemma_split_on_nonempty(s1, sep);
        let r = split_on(s1, sep);
        if c == sep {
            let t = r.push(Seq::<char>::empty());
            assert(t.drop_last() =~= r);
            assert(join_with(t, sep) =~= s1 + seq![sep] + Seq::<char>::empty());
            assert(s1 + seq![sep] + Seq::<char>::empty() =~= s);
        } else {
            let t = r.update(r.len() - 1, r.last().push(c));
            if r.len() == 1 {
                assert(join_with(t, sep) == t[0]);
                assert(t[0] =~= s);
            } else {
                assert(t.drop_last() =~= r.drop_last());
                assert(t.last() == r.last().push(c));
                assert(join_with(r, sep) == join_with(r.drop_last(), sep) + seq![sep] + r.last());
                assert(join_with(t, sep) == join_with(t.drop_last(), sep) + seq![sep] + t.last());
                assert(join_with(t, sep) =~= s1.push(c));
                assert(s1.push(c) =~= s);
            }
        }
    }
}

pub proof fn lemma_split_last_empty(s: Seq<char>, sep: char)
    ensures
        split_on(s, sep).len() >= 1,
        (split_on(s, sep).last().len() == 0) == (s.len() == 0 || s.last() == sep),
    decreases s.len(),
{
    lemma_split_on_nonempty(s, sep);
    if s.len() > 0 {
        lemma_split_last_empty(s.drop_last(), sep);
    }
}

/// Splitting a concatenation: the last piece of `a` and the first of `b`
/// fuse into one.
pub proof fn lemma_split_append(a: Seq<char>, b: Seq<char>, sep: char)
    ensures
        split_on(a + b, sep) == split_on(a, sep).drop_last() + split_on(b, sep).update(
            0,
            split_on(a, sep).last() + split_on(b, sep)[0],
        ),
    decreases b.len(),
{
    lemma_split_on_nonempty(a, sep);
    lemma_split_on_nonempty(b, sep);
    let sa = split_on(a, sep);
    if b.len() == 0 {
        assert(a + b =~= a);
        assert(sa.last() + Seq::<char>::empty() =~= sa.last());
        assert(sa.drop_last() + seq![sa.last()] =~= sa);
    } else {
        let b1 = b.drop_last();
        let x = b.last();
        lemma_split_append(a, b1, sep);
        lemma_split_on_nonempty(b1, sep);
        assert((a + b).drop_last() =~= a + b1);
        assert((a + b).last() == x);
        let r = split_on(a + b1, sep);
        let sb1 = split_on(b1, sep);
        let sb = split_on(b, sep);
        assert(r == sa.drop_last() + sb1.update(0, sa.last() + sb1[0]));
        if x == sep {
            assert(sb == sb1.push(Seq::empty()));
            assert(split_on(a + b, sep) == r.push(Seq::empty()));
            assert(split_on(a + b, sep) =~= sa.drop_last() + sb.update(0, sa.last() + sb[0]));
        } else {
            assert(sb == sb1.update(sb1.len() - 1, sb1.last().push(x)));
            assert(split_on(a + b, sep) == r.update(r.len() - 1, r.last().push(x)));
            if sb1.len() == 1 {
                assert(sa.last() + sb1[0].push(x) =~= (sa.last() + sb1[0]).push(x));
            }
            assert(split_on(a + b, sep) =~= sa.drop_last() + sb.update(0, sa.last() + sb[0]));
        }
    }
}

/// Lines of a concatenation whose first part ends at a line start.
pub proof fn lemma_lines_append(a: Seq<char>, b: Seq<char>)
    requires
        at_line_start(a),
    ensures
        lines(a + b) == lines(a) + lines(b),
{
    lemma_split_append(a, b, '\n');
    lemma_split_last_empty(a, '\n');
    lemma_split_last_empty(b, '\n');
    lemma_split_last_empty(a + b, '\n');
    let sa = split_on(a, '\n');
    let sb = split_on(b, '\n');
    let sab = split_on(a + b, '\n');
    assert(sa.last() + sb[0] =~= sb[0]);
    assert(sb.update(0, sb[0]) =~= sb);
    assert(sab == sa.drop_last() + sb);
    assert(sab.drop_last() =~= sa.drop_last() + sb.drop_last());
    assert(sab.last() == sb.last());
    let f = |l: Seq<char>| strip_cr(l);
    assert(sab.drop_last().map_values(f) =~= sa.drop_last().map_values(f) + sb.drop_last().map_values(f));
    assert(lines(a) =~= sa.drop_last().map_values(f));
    assert(lines(a + b) =~= lines(a) + lines(b));
}

/// A piece without `sep` splits into itself.
pub proof fn lemma_split_no_sep(s: Seq<char>, sep: char)
    requires
        !s.contains(sep),
    ensures
        split_on(s, sep) == seq![s],
    decreases s.len(),
{
    if s.len() == 0 {
        assert(s =~= Seq::<char>::empty());
    } else {
        assert(!s.drop_last().contains(sep)) by {
            if s.drop_last().contains(sep) {
                let i = choose|i: int| 0 <= i < s.drop_last().len() && s.drop_last()[i] == sep;
                assert(s[i] == sep);
            }
        }
        lemma_split_no_sep(s.drop_last(), sep);
        assert(s.last() != sep) by {
            assert(s[s.len() - 1] == s.last());
        }
        assert(s.drop_last().push(s.last()) =~= s);
    }
}

/// Newline-terminated pieces without newlines read back as themselves,
/// each without a final carriage return.
pub proof fn lemma_lines_terminated(ss: Seq<Seq<char>>)
    requires
        forall|i: int| 0 <= i < ss.len() ==> !(#[trigger] ss[i]).contains('\n'),
    ensures
        lines(terminated(ss)) == ss.map_values(|l: Seq<char>| strip_cr(l)),
        at_line_start(terminated(ss)),
    decreases ss.len(),
{
    if ss.len() == 0 {
        assert(split_on(Seq::<char>::empty(), '\n') =~= seq![Seq::<char>::empty()]);
        assert(lines(terminated(ss)) =~= ss.map_values(|l: Seq<char>| strip_cr(l)));
    } else {
        let init = ss.drop_last();
        let e = ss.last();
        assert forall|i: int| 0 <= i < init.len() implies !(#[trigger] init[i]).contains('\n') by {
            assert(init[i] == ss[i]);
        }
        lemma_lines_terminated(init);
        assert(!e.contains('\n')) by {
            assert(ss[ss.len() - 1] == e);
        }
        let t = e + seq!['\n'];
        assert(terminated(ss) =~= terminated(init) + t);
        lemma_lines_append(terminated(init), t);
        lemma_split_no_sep(e, '\n');
        assert(t.drop_last() =~= e);
        assert(split_on(t, '\n') == seq![e].push(Seq::<char>::empty()));
        assert(lines(t) =~= seq![strip_cr(e)]);
        assert(ss.map_values(|l: Seq<char>| strip_cr(l)) =~= init.map_values(|l: Seq<char>| strip_cr(l)).push(strip_cr(e)));
    }
}

pub proof fn lemma_trim_start_push(m: Seq<char>, x: char)
    ensures
        trim_start(m.push(x)) == (if trim_start(m).len() == 0 && is_ws(x) {
            Seq::<char>::empty()
        } else {
            trim_start(m).push(x)
        }),
    decreases m.len(),
{
    if m.len() == 0 {
        assert(m.push(x) =~= seq![x]);
        assert(seq![x].drop_first() =~= Seq::<char>::empty());
        assert(trim_start(m) == m);
        assert(trim_start(Seq::<char>::empty()) == Seq::<char>::empty());
        assert(seq![x][0] == x);
        if !is_ws(x) {
            assert(trim_start(m).push(x) =~= seq![x]);
        }
    } else if is_ws(m[0]) {
        assert(m.push(x)[0] == m[0]);
        assert(m.push(x).drop_first() =~= m.drop_first().push(x));
        lemma_trim_start_push(m.drop_first(), x);
    } else {
        assert(m.push(x)[0] == m[0]);
    }
}

pub proof fn lemma_trim_end_ws(m: Seq<char>, x: char)
    requires
        is_ws(x),
    ensures
        trim_end(m.push(x)) == trim_end(m),
{
    assert(m.push(x).drop_last() =~= m);
}

/// Dropping a final carriage return leaves the trimmed line unchanged.
pub proof fn lemma_trim_strip_cr(l: Seq<char>)
    ensures
        trim(strip_cr(l)) == trim(l),
{
    if l.len() > 0 && l.last() == '\r' {
        let m = l.drop_last();
        assert(m.push('\r') =~= l);
        lemma_trim_start_push(m, '\r');
        if trim_start(m).len() == 0 {
            assert(trim_end(Seq::<char>::empty()) =~= Seq::<char>::empty());
            assert(trim_end(trim_start(m)) =~= Seq::<char>::empty());
        } else {
            lemma_trim_end_ws(trim_start(m), '\r');
        }
    }
}

/// Closing an open last line keeps every line's trimmed text.
pub proof fn lemma_close_line(c: Seq<char>, i: int)
    requires
        0 <= i < lines(c).len(),
    ensures
        0 <= i < lines(c + seq!['\n']).len(),
        trim(lines(c + seq!['\n'])[i]) == trim(lines(c)[i]),
{
    if at_line_start(c) {
        lemma_lines_append(c, seq!['\n']);
        lemma_split_no_sep(Seq::<char>::empty(), '\n');
        assert(seq!['\n'].drop_last() =~= Seq::<char>::empty());
        assert(split_on(seq!['\n'], '\n') =~= seq![Seq::<char>::empty(), Seq::<char>::empty()]);
        assert((lines(c) + lines(seq!['\n']))[i] == lines(c)[i]);
    } else {
        let c2 = c + seq!['\n'];
        assert(c2.drop_last() =~= c);
        lemma_split_last_empty(c, '\n');
        let sc = split_on(c, '\n');
        assert(split_on(c2, '\n') == sc.push(Seq::<char>::empty()));
        assert(sc.push(Seq::<char>::empty()).drop_last() =~= sc);
        if i < sc.len() - 1 {
            assert(lines(c2)[i] == strip_cr(sc[i]));
            assert(lines(c)[i] == strip_cr(sc[i]));
        } else {
            assert(lines(c2)[i] == strip_cr(sc[i]));
            assert(lines(c)[i] == sc.last());
            lemma_trim_strip_cr(sc[i]);
        }
    }
}

pub proof fn lemma_trim_lengths(s: Seq<char>)
    ensures
        trim_start(s).len() <= s.len(),
        trim_end(s).len() <= s.len(),
        trim_start(s).len() > 0 ==> trim_start(s).last() == s.last(),
        s.len() > 0 && is_ws(s.last()) ==> trim_end(s).len() < s.len(),
    decreases s.len(),
{
    if s.len() > 0 {
        lemma_trim_lengths(s.drop_first());
        lemma_trim_lengths(s.drop_last());
        if is_ws(s[0]) && s.len() > 1 {
            assert(s.drop_first().last() == s.last());
        }
    }
}

/// A trimmed text neither ends with white space nor, so, with `\r`.
pub proof fn lemma_trimmed_no_cr(e: Seq<char>)
    requires
        trim(e) == e,
    ensures
        strip_cr(e) == e,
        e.len() > 0 ==> !is_ws(e.last()),
{
    lemma_trim_lengths(e);
    lemma_trim_lengths(trim_start(e));
    if e.len() > 0 && is_ws(e.last()) {
        let t = trim_start(e);
        if t.len() == 0 {
            assert(trim_end(t) == t);
        } else {
            assert(t.last() == e.last());
        }
    }
}

/// No piece of a split holds the separator.
pub proof fn lemma_split_pieces(s: Seq<char>, sep: char, i: int)
    requires
        0 <= i < split_on(s, sep).len(),
    ensures
        !split_on(s, sep)[i].contains(sep),
    decreases s.len(),
{
    lemma_split_on_nonempty(s, sep);
    if s.len() > 0 {
        let r = split_on(s.drop_last(), sep);
        lemma_split_on_nonempty(s.drop_last(), sep);
        if s.last() == sep {
            if i < r.len() {
                lemma_split_pieces(s.drop_last(), sep, i);
            }
        } else {
            lemma_split_pieces(s.drop_last(), sep, r.len() - 1);
            if i < r.len() - 1 {
                lemma_split_pieces(s.drop_last(), sep, i);
            } else {
                let p = r.last().push(s.last());
                assert(split_on(s, sep)[i] == p);
                if p.contains(sep) {
                    let k = choose|k: int| 0 <= k < p.len() && p[k] == sep;
                    if k < p.len() - 1 {
                        assert(r.last()[k] == sep);
                        assert(r.last().contains(sep));
                    }
                }
            }
        }
    }
}

/// No line holds a newline.
pub proof fn lemma_lines_no_newline(s: Seq<char>, i: int)
    requires
        0 <= i < lines(s).len(),
    ensures
        !lines(s)[i].contains('\n'),
{
    let parts = split_on(s, '\n');
    lemma_split_on_nonempty(s, '\n');
    if i < parts.len() - 1 {
        lemma_split_pieces(s, '\n', i);
        let p = parts[i];
        if strip_cr(p).contains('\n') {
            let k = choose|k: int| 0 <= k < strip_cr(p).len() && strip_cr(p)[k] == '\n';
            assert(p[k] == '\n');
            assert(p.contains('\n'));
        }
    } else {
        lemma_split_pieces(s, '\n', parts.len() - 1);
    }
}

/// Joining non-empty many pieces with newlines and ending with one gives
/// the terminated pieces.
pub proof fn lemma_join_terminated(ss: Seq<Seq<char>>)
    requires
        ss.len() > 0,
    ensures
        join_with(ss, '\n') + seq!['\n'] == terminated(ss),
    decreases ss.len(),
{
    if ss.len() == 1 {
        assert(ss.drop_last() =~= Seq::<Seq<char>>::empty());
        assert(terminated(ss.drop_last()) == Seq::<char>::empty());
        assert(ss.last() == ss[0]);
        assert(Seq::<char>::empty() + ss[0] =~= ss[0]);
        assert(terminated(ss) =~= ss[0] + seq!['\n']);
    } else {
        lemma_join_terminated(ss.drop_last());
        assert(join_with(ss, '\n') + seq!['\n'] =~= (join_with(ss.drop_last(), '\n') + seq!['\n']) + ss.last() + seq!['\n']);
    }
}

// ---------------------------------------------------------------------------
// Vectors of strings
// ---------------------------------------------------------------------------

/// Appends an owned copy of `s` to `v`.
pub fn push_owned(v: &mut Vec<String>, s: &str)
    ensures
        final(v).deep_view() == old(v).deep_view().push(s@),
{
    let t = owned(s);
    v.push(t);
    assert(final(v).deep_view() =~= old(v).deep_view().push(s@));
}

/// Appends copies of the strings of `w` to `v`.
pub fn extend_owned(v: &mut Vec<String>, w: &Vec<String>)
    ensures
        final(v).deep_view() == old(v).deep_view() + w.deep_view(),
{
    let ghost v0 = v.deep_view();
    let mut i: usize = 0;
    while i < w.len()
        invariant
            i <= w.len(),
            v.deep_view() == v0 + w.deep_view().take(i as int),
        decreases w.len() - i,
    {
        let t = w[i].clone();
        let ghost before = v.deep_view();
        v.push(t);
        assert(v.deep_view() =~= before.push(w@[i as int]@));
        i = i + 1;
        assert(w.deep_view().take(i as int) =~= w.deep_view().take(i - 1).push(w@[i - 1]@));
    }
    assert(w.deep_view().take(i as int) =~= w.deep_view());
}

} // verus!
