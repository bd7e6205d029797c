//! Lexicographic order of texts (the order of `String`'s `Ord`, since UTF-8
//! keeps the order of code points) and sorted, duplicate-free string lists.

use vstd::prelude::*;
use crate::text::{str_chars, views};

verus! {

/// `a` sorts strictly before `b`, character by character.
pub open spec fn lex_lt(a: Seq<char>, b: Seq<char>) -> bool
    decreases a.len(),
{
    if a.len() == 0 {
        b.len() > 0
    } else if b.len() == 0 {
        false
    } else if a[0] != b[0] {
        (a[0] as u32) < (b[0] as u32)
    } else {
        lex_lt(a.drop_first(), b.drop_first())
    }
}

/// Strictly increasing: sorted, with no text twice.
pub open spec fn strictly_sorted(s: Seq<Seq<char>>) -> bool {
    forall|i: int, j: int| 0 <= i < j < s.len() ==> lex_lt(#[trigger] s[i], #[trigger] s[j])
}

/// The texts of `s` are exactly, in order, the distinct texts of `set`.
pub open spec fn sorted_set_of(s: Seq<Seq<char>>, set: Set<Seq<char>>) -> bool {
    strictly_sorted(s) && s.to_set() == set
}

/// Distinct characters have distinct code points.
pub proof fn lemma_char_code_injective(a: char, b: char)
    requires
        a != b,
    ensures
        (a as u32) != (b as u32),
{
}

pub proof fn lemma_lex_irreflexive(a: Seq<char>)
    ensures
        !lex_lt(a, a),
    decreases a.len(),
{
    if a.len() > 0 {
        lemma_lex_irreflexive(a.drop_first());
    }
}

pub proof fn lemma_lex_transitive(a: Seq<char>, b: Seq<char>, c: Seq<char>)
    requires
        lex_lt(a, b),
        lex_lt(b, c),
    ensures
        lex_lt(a, c),
    decreases a.len(),
{
    if a.len() > 0 && b.len() > 0 && c.len() > 0 {
        if a[0] == b[0] && b[0] == c[0] {
            lemma_lex_transitive(a.drop_first(), b.drop_first(), c.drop_first());
        }
    }
}

pub proof fn lemma_lex_total(a: Seq<char>, b: Seq<char>)
    requires
        a != b,
    ensures
        lex_lt(a, b) || lex_lt(b, a),
    decreases a.len(),
{
    if a.len() > 0 && b.len() > 0 && a[0] == b[0] {
        if a.drop_first() == b.drop_first() {
            assert(a =~= seq![a[0]] + a.drop_first());
            assert(b =~= seq![b[0]] + b.drop_first());
        }
        lemma_lex_total(a.drop_first(), b.drop_first());
    } else if a.len() == 0 && b.len() == 0 {
        assert(a =~= b);
    } else if a.len() > 0 && b.len() > 0 {
        lemma_char_code_injective(a[0], b[0]);
    }
}

/// A strictly sorted list has as many texts as its set.
pub proof fn lemma_sorted_len(s: Seq<Seq<char>>)
    requires
        strictly_sorted(s),
    ensures
        s.len() == s.to_set().len(),
{
    assert(s.no_duplicates()) by {
        assert forall|i: int, j: int| 0 <= i < s.len() && 0 <= j < s.len() && i != j implies s[i]
            != s[j] by {
            if i < j {
                assert(lex_lt(s[i], s[j]));
                lemma_lex_irreflexive(s[i]);
            } else {
                assert(lex_lt(s[j], s[i]));
                lemma_lex_irreflexive(s[i]);
            }
        }
    }
    s.unique_seq_to_set();
}

/// `a` sorts strictly before `b`.
pub fn lex_less(a: &[char], b: &[char]) -> (r: bool)
    ensures
        r == lex_lt(a@, b@),
{
    let mut i: usize = 0;
    assert(a@.skip(0) =~= a@);
    assert(b@.skip(0) =~= b@);
    while i < a.len() && i < b.len()
        invariant
            i <= a.len(),
            i <= b.len(),
            lex_lt(a@, b@) == lex_lt(a@.skip(i as int), b@.skip(i as int)),
        decreases a.len() - i,
    {
        if a[i] != b[i] {
            proof {
                lemma_char_code_injective(a@[i as int], b@[i as int]);
            }
            return (a[i] as u32) < (b[i] as u32);
        }
        assert(a@.skip(i as int).drop_first() =~= a@.skip(i + 1));
        assert(b@.skip(i as int).drop_first() =~= b@.skip(i + 1));
        i = i + 1;
    }
    i == a.len() && i < b.len()
}

/// Text `a` sorts strictly before text `b`.
pub fn str_less(a: &str, b: &str) -> (r: bool)
    ensures
        r == lex_lt(a@, b@),
{
    let av = str_chars(a);
    let bv = str_chars(b);
    lex_less(av.as_slice(), bv.as_slice())
}

/// Puts `s` into a strictly sorted list, unless the list holds it already.
pub fn insert_sorted(v: &mut Vec<String>, s: String)
    requires
        strictly_sorted(views(old(v)@)),
    ensures
        strictly_sorted(views(final(v)@)),
        views(final(v)@).to_set() == views(old(v)@).to_set().insert(s@),
{
    let ghost old_views = views(v@);
    let mut k: usize = 0;
    while k < v.len() && str_less(v[k].as_str(), s.as_str())
        invariant
            k <= v.len(),
            views(v@) == old_views,
            strictly_sorted(old_views),
            forall|j: int| 0 <= j < k ==> lex_lt(#[trigger] old_views[j], s@),
        decreases v.len() - k,
    {
        k = k + 1;
    }
    assert(views(v@) == old_views);
    if k < v.len() && v[k] == s {
        assert(old_views[k as int] == s@);
        assert(old_views.to_set().insert(s@) =~= old_views.to_set());
        return;
    }
    proof {
        if k < old_views.len() {
            assert(!lex_lt(old_views[k as int], s@));
            assert(old_views[k as int] != s@);
            lemma_lex_total(old_views[k as int], s@);
            assert(lex_lt(s@, old_views[k as int]));
        }
    }
    let ghost sv = s@;
    let ghost ov = v@;
    v.insert(k, s);
    proof {
        let nv = views(v@);
        ov.insert_ensures(k as int, s);
        assert(nv.len() == old_views.len() + 1);
        assert(forall|i: int| 0 <= i < k ==> nv[i] == old_views[i]);
        assert(forall|i: int| k < i < nv.len() ==> nv[i] == old_views[i - 1]) by {
            assert forall|i: int| k < i < nv.len() implies nv[i] == old_views[i - 1] by {
                assert(ov.insert(k as int, s)[(i - 1) + 1] == ov[i - 1]);
            }
        }
        assert(nv[k as int] == sv);
        assert forall|i: int, j: int| 0 <= i < j < nv.len() implies lex_lt(
            #[trigger] nv[i],
            #[trigger] nv[j],
        ) by {
            if j < k {
            } else if i < k && j == k {
            } else if i < k && j > k {
                assert(nv[j] == old_views[j - 1]);
            } else if i == k {
                assert(nv[j] == old_views[j - 1]);
                if j - 1 > k {
                    assert(lex_lt(old_views[k as int], old_views[j - 1]));
                    lemma_lex_transitive(sv, old_views[k as int], old_views[j - 1]);
                }
            } else {
                assert(nv[i] == old_views[i - 1]);
                assert(nv[j] == old_views[j - 1]);
            }
        }
        assert forall|t: Seq<char>| nv.to_set().contains(t) <==> old_views.to_set().insert(
            sv,
        ).contains(t) by {
            if nv.to_set().contains(t) {
                let i = choose|i: int| 0 <= i < nv.len() && nv[i] == t;
                if i < k {
                    assert(old_views[i] == t);
                } else if i > k {
                    assert(old_views[i - 1] == t);
                }
            }
            if old_views.to_set().contains(t) {
                let i = choose|i: int| 0 <= i < old_views.len() && old_views[i] == t;
                if i < k {
                    assert(nv[i] == t);
                } else {
                    assert(nv[i + 1] == t);
                }
            }
            if t == sv {
                assert(nv[k as int] == t);
            }
        }
        assert(nv.to_set() =~= old_views.to_set().insert(sv));
    }
}

/// The distinct texts of `v`, sorted: what sorting a copy of `v` and then
/// removing adjacent duplicates yields.
pub fn sorted_distinct(v: &[String]) -> (r: Vec<String>)
    ensures
        sorted_set_of(views(r@), views(v@).to_set()),
{
    let mut r: Vec<String> = Vec::new();
    let mut i: usize = 0;
    assert(views(r@).to_set() =~= views(v@.take(0)).to_set());
    while i < v.len()
        invariant
            i <= v.len(),
            strictly_sorted(views(r@)),
            views(r@).to_set() == views(v@.take(i as int)).to_set(),
        decreases v.len() - i,
    {
        insert_sorted(&mut r, v[i].clone());
        proof {
            assert(views(v@.take(i + 1)) =~= views(v@.take(i as int)).push(v@[i as int]@));
            views(v@.take(i as int)).lemma_push_to_set_commute(v@[i as int]@);
        }
        i = i + 1;
    }
    assert(v@.take(v.len() as int) =~= v@);
    r
}

} // verus!
