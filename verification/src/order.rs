//! Lexicographic ordering of strings by character value, and a verified
//! insertion sort over string vectors: the result is sorted and holds
//! exactly the input's strings.

use vstd::prelude::*;
use vstd::multiset::Multiset;
use vstd::seq_lib::lemma_multiset_commutative;

use crate::text::str_to_chars;

verus! {

/// Lexicographic order on character sequences: `a` is at most `b`.
pub open spec fn lex_le(a: Seq<char>, b: Seq<char>) -> bool
    decreases a.len(),
{
    if a.len() == 0 {
        true
    } else if b.len() == 0 {
        false
    } else if a[0] as u32 != b[0] as u32 {
        (a[0] as u32) < (b[0] as u32)
    } else {
        lex_le(a.skip(1), b.skip(1))
    }
}

/// Any two character sequences are comparable under [`lex_le`].
pub proof fn lemma_lex_le_total(a: Seq<char>, b: Seq<char>)
    ensures
        lex_le(a, b) || lex_le(b, a),
    decreases a.len(),
{
    if a.len() > 0 && b.len() > 0 && a[0] as u32 == b[0] as u32 {
        lemma_lex_le_total(a.skip(1), b.skip(1));
    }
}

/// [`lex_le`] is transitive.
pub proof fn lemma_lex_le_trans(a: Seq<char>, b: Seq<char>, c: Seq<char>)
    requires
        lex_le(a, b),
        lex_le(b, c),
    ensures
        lex_le(a, c),
    decreases a.len(),
{
    if a.len() > 0 && b.len() > 0 && c.len() > 0 && a[0] as u32 == b[0] as u32 && b[0] as u32
        == c[0] as u32 {
        lemma_lex_le_trans(a.skip(1), b.skip(1), c.skip(1));
    }
}

/// Compares two strings in lexicographic character order.
pub fn str_le(a: &String, b: &String) -> (r: bool)
    ensures
        r == lex_le(a@, b@),
{
    let ac = str_to_chars(a.as_str());
    let bc = str_to_chars(b.as_str());
    let mut i: usize = 0;
    proof {
        assert(a@.skip(0) =~= a@);
        assert(b@.skip(0) =~= b@);
    }
    while i < ac.len() && i < bc.len() && ac[i] == bc[i]
        invariant
            i <= ac@.len(),
            i <= bc@.len(),
            ac@ == a@,
            bc@ == b@,
            lex_le(a@, b@) == lex_le(a@.skip(i as int), b@.skip(i as int)),
            lex_le(b@, a@) == lex_le(b@.skip(i as int), a@.skip(i as int)),
        decreases ac.len() - i,
    {
        proof {
            assert(a@.skip(i as int).skip(1) =~= a@.skip(i + 1));
            assert(b@.skip(i as int).skip(1) =~= b@.skip(i + 1));
        }
        i = i + 1;
    }
    if i == ac.len() {
        proof {
            assert(a@.skip(i as int).len() == 0);
        }
        true
    } else if i == bc.len() {
        proof {
            assert(b@.skip(i as int).len() == 0);
            assert(a@.skip(i as int).len() > 0);
        }
        false
    } else {
        let ca = ac[i];
        let cb = bc[i];
        let r = (ca as u32) < (cb as u32);
        proof {
            assert(a@.skip(i as int)[0] == a@[i as int]);
            assert(b@.skip(i as int)[0] == b@[i as int]);
            vstd::utf8::char_u32_cast(ca, ca as u32);
            vstd::utf8::char_u32_cast(cb, cb as u32);
        }
        r
    }
}

/// The sequences stand in lexicographic order.
pub open spec fn sorted_lex(s: Seq<Seq<char>>) -> bool {
    forall|i: int, j: int| 0 <= i < j < s.len() ==> lex_le(#[trigger] s[i], #[trigger] s[j])
}

/// Sorts the strings into lexicographic character order; the result holds
/// exactly the input's strings, multiplicity included.
pub fn sort_strings(v: &Vec<String>) -> (r: Vec<String>)
    ensures
        sorted_lex(r.deep_view()),
        r.deep_view().to_multiset() == v.deep_view().to_multiset(),
{
    broadcast use vstd::seq_lib::group_to_multiset_ensures;

    let mut r: Vec<String> = Vec::new();
    let mut i: usize = 0;
    proof {
        assert(r.deep_view() =~= Seq::<Seq<char>>::empty());
        assert(v.deep_view().take(0) =~= Seq::<Seq<char>>::empty());
        assert(r.deep_view().to_multiset() =~= v.deep_view().take(0).to_multiset());
    }
    while i < v.len()
        invariant
            i <= v@.len(),
            sorted_lex(r.deep_view()),
            r.deep_view().to_multiset() == v.deep_view().take(i as int).to_multiset(),
        decreases v.len() - i,
    {
        broadcast use vstd::seq_lib::group_to_multiset_ensures;

        let x = v[i].clone();
        let ghost xv = v.deep_view()[i as int];
        proof {
            assert(x@ == xv);
        }
        let ghost old_r = r.deep_view();
        let mut p: usize = 0;
        while p < r.len() && str_le(&r[p], &x)
            invariant
                p <= r@.len(),
                x@ == xv,
                r.deep_view() == old_r,
                forall|t: int| 0 <= t < p ==> lex_le(#[trigger] r.deep_view()[t], xv),
            decreases r.len() - p,
        {
            p = p + 1;
        }
        proof {
            if p < old_r.len() {
                lemma_lex_le_total(old_r[p as int], xv);
                assert(lex_le(xv, old_r[p as int]));
            }
        }
        r.insert(p, x);
        proof {
            let new_r = r.deep_view();
            assert(new_r =~= old_r.take(p as int).push(xv) + old_r.skip(p as int));
            assert forall|s: int, t: int| 0 <= s < t < new_r.len() implies lex_le(
                #[trigger] new_r[s],
                #[trigger] new_r[t],
            ) by {
                if t < p {
                    assert(new_r[s] == old_r[s] && new_r[t] == old_r[t]);
                } else if s < p && t == p {
                    assert(new_r[s] == old_r[s] && new_r[t] == xv);
                } else if s < p && t > p {
                    assert(new_r[s] == old_r[s] && new_r[t] == old_r[t - 1]);
                    assert(lex_le(old_r[s], old_r[t - 1]));
                } else if s == p {
                    assert(new_r[s] == xv && new_r[t] == old_r[t - 1]);
                    assert(lex_le(xv, old_r[p as int]));
                    if t - 1 > p {
                        assert(lex_le(old_r[p as int], old_r[t - 1]));
                        lemma_lex_le_trans(xv, old_r[p as int], old_r[t - 1]);
                    }
                } else {
                    assert(new_r[s] == old_r[s - 1] && new_r[t] == old_r[t - 1]);
                }
            }
            // The inserted vector holds one more copy of the element.
            assert(old_r.take(p as int) + (seq![xv] + old_r.skip(p as int)) =~= new_r);
            lemma_multiset_commutative(old_r.take(p as int), seq![xv] + old_r.skip(p as int));
            lemma_multiset_commutative(seq![xv], old_r.skip(p as int));
            lemma_multiset_commutative(old_r.take(p as int), old_r.skip(p as int));
            assert(old_r.take(p as int) + old_r.skip(p as int) =~= old_r);
            assert(seq![xv] =~= Seq::<Seq<char>>::empty().push(xv));
            assert(seq![xv].to_multiset() =~= Multiset::<Seq<char>>::empty().insert(xv));
            assert(new_r.to_multiset() =~= old_r.to_multiset().insert(xv));
            assert(v.deep_view().take(i + 1) =~= v.deep_view().take(i as int).push(xv));
        }
        i = i + 1;
    }
    proof {
        assert(v.deep_view().take(v@.len() as int) =~= v.deep_view());
    }
    r
}

} // verus!
