//! Ordering of strings, and sorting lists of them.
use vstd::prelude::*;
use crate::text::chars_of;

verus! {

/// Lexicographic order of character sequences by code point, which is the
/// order `String`'s `Ord` gives (UTF-8 byte order follows code points).
pub open spec fn lex_le(a: Seq<char>, b: Seq<char>) -> bool
    decreases a.len(),
{
    if a.len() == 0 {
        true
    } else if b.len() == 0 {
        false
    } else if a[0] != b[0] {
        a[0] < b[0]
    } else {
        lex_le(a.drop_first(), b.drop_first())
    }
}

pub proof fn lemma_lex_total(a: Seq<char>, b: Seq<char>)
    ensures
        lex_le(a, b) || lex_le(b, a),
    decreases a.len(),
{
    if a.len() > 0 && b.len() > 0 && a[0] == b[0] {
        lemma_lex_total(a.drop_first(), b.drop_first());
    }
}

pub proof fn lemma_lex_trans(a: Seq<char>, b: Seq<char>, c: Seq<char>)
    requires
        lex_le(a, b),
        lex_le(b, c),
    ensures
        lex_le(a, c),
    decreases a.len(),
{
    if a.len() > 0 && b.len() > 0 && c.len() > 0 && a[0] == b[0] && b[0] == c[0] {
        lemma_lex_trans(a.drop_first(), b.drop_first(), c.drop_first());
    }
}

/// Whether `a` comes no later than `b`.
pub fn lex_le_exec(a: &Vec<char>, b: &Vec<char>) -> (res: bool)
    ensures
        res == lex_le(a@, b@),
{
    let mut i: usize = 0;
    assert(a@.skip(0) =~= a@);
    assert(b@.skip(0) =~= b@);
    while i < a.len() && i < b.len()
        invariant
            i <= a.len(),
            i <= b.len(),
            lex_le(a@, b@) == lex_le(a@.skip(i as int), b@.skip(i as int)),
        decreases a.len() - i,
    {
        assert(a@.skip(i as int)[0] == a@[i as int]);
        assert(b@.skip(i as int)[0] == b@[i as int]);
        if a[i] != b[i] {
            return a[i] < b[i];
        }
        assert(a@.skip(i as int).drop_first() =~= a@.skip(i + 1));
        assert(b@.skip(i as int).drop_first() =~= b@.skip(i + 1));
        i = i + 1;
    }
    i == a.len()
}

/// The sequence is in non-decreasing order.
pub open spec fn lex_sorted(s: Seq<Seq<char>>) -> bool {
    forall|i: int, j: int| 0 <= i < j < s.len() ==> lex_le(#[trigger] s[i], #[trigger] s[j])
}

/// The strings of `v` in non-decreasing order: the same strings, each as
/// often as in `v`.
pub fn sort_strings(v: &Vec<String>) -> (res: Vec<String>)
    ensures
        lex_sorted(res.deep_view()),
        res.deep_view().to_multiset() == v.deep_view().to_multiset(),
{
    let mut res: Vec<String> = Vec::new();
    let mut i: usize = 0;
    assert(v.deep_view().take(0) =~= Seq::<Seq<char>>::empty());
    assert(res.deep_view() =~= Seq::<Seq<char>>::empty());
    while i < v.len()
        invariant
            i <= v.len(),
            lex_sorted(res.deep_view()),
            res.deep_view().to_multiset() == v.deep_view().take(i as int).to_multiset(),
        decreases v.len() - i,
    {
        let x = chars_of(v[i].as_str());
        let mut p: usize = 0;
        while p < res.len() && lex_le_exec(&chars_of(res[p].as_str()), &x)
            invariant
                p <= res.len(),
                i < v.len(),
                x@ == v@[i as int]@,
                forall|k: int| 0 <= k < p ==> lex_le(#[trigger] res.deep_view()[k], x@),
            decreases res.len() - p,
        {
            p = p + 1;
        }
        let ghost old_res = res.deep_view();
        proof {
            if p < old_res.len() {
                lemma_lex_total(old_res[p as int], x@);
            }
        }
        res.insert(p, v[i].clone());
        let ghost nr = res.deep_view();
        assert(nr =~= old_res.insert(p as int, x@));
        assert forall|a: int, b: int| 0 <= a < b < nr.len() implies lex_le(#[trigger] nr[a], #[trigger] nr[b]) by {
            if b < p {
                assert(nr[a] == old_res[a] && nr[b] == old_res[b]);
            } else if b == p {
                assert(nr[a] == old_res[a]);
            } else if a == p {
                assert(nr[b] == old_res[b - 1]);
                if b - 1 > p {
                    assert(lex_le(old_res[p as int], old_res[b - 1]));
                    lemma_lex_trans(x@, old_res[p as int], old_res[b - 1]);
                }
            } else if a < p {
                assert(nr[a] == old_res[a] && nr[b] == old_res[b - 1]);
            } else {
                assert(nr[a] == old_res[a - 1] && nr[b] == old_res[b - 1]);
            }
        }
        proof {
            vstd::seq_lib::to_multiset_insert(old_res, p as int, x@);
            vstd::seq_lib::to_multiset_build(v.deep_view().take(i as int), x@);
            assert(v.deep_view().take(i + 1) =~= v.deep_view().take(i as int).push(x@));
        }
        i = i + 1;
    }
    assert(v.deep_view().take(i as int) =~= v.deep_view());
    res
}

} // verus!
