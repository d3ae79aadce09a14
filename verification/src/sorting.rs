use vstd::prelude::*;
use vstd::relations::total_ordering;

verus! {

/// Lexicographic order on character strings, by code point; the order of
/// `String`s, which compare their UTF-8 bytes.
pub open spec fn lex_le(a: Seq<char>, b: Seq<char>) -> bool
    decreases a.len(),
{
    if a.len() == 0 {
        true
    } else if b.len() == 0 {
        false
    } else if a[0] < b[0] {
        true
    } else if a[0] > b[0] {
        false
    } else {
        lex_le(a.drop_first(), b.drop_first())
    }
}

proof fn lemma_lex_reflexive(a: Seq<char>)
    ensures
        lex_le(a, a),
    decreases a.len(),
{
    if a.len() > 0 {
        lemma_lex_reflexive(a.drop_first());
    }
}

proof fn lemma_lex_antisymmetric(a: Seq<char>, b: Seq<char>)
    requires
        lex_le(a, b),
        lex_le(b, a),
    ensures
        a == b,
    decreases a.len(),
{
    if a.len() == 0 {
        assert(b.len() == 0);
        assert(a =~= b);
    } else {
        assert(b.len() > 0);
        assert(a[0] == b[0]);
        lemma_lex_antisymmetric(a.drop_first(), b.drop_first());
        assert(a =~= seq![a[0]] + a.drop_first());
        assert(b =~= seq![b[0]] + b.drop_first());
    }
}

proof fn lemma_lex_transitive(a: Seq<char>, b: Seq<char>, c: Seq<char>)
    requires
        lex_le(a, b),
        lex_le(b, c),
    ensures
        lex_le(a, c),
    decreases a.len(),
{
    if a.len() > 0 && b.len() > 0 && c.len() > 0 {
        if a[0] == b[0] && b[0] == c[0] {
            lemma_lex_transitive(a.drop_first(), b.drop_first(), c.drop_first());
        }
    }
}

proof fn lemma_lex_total(a: Seq<char>, b: Seq<char>)
    ensures
        lex_le(a, b) || lex_le(b, a),
    decreases a.len(),
{
    if a.len() > 0 && b.len() > 0 && a[0] == b[0] {
        lemma_lex_total(a.drop_first(), b.drop_first());
    }
}

/// Lexicographic order is a total order.
pub proof fn lemma_lex_total_ordering()
    ensures
        total_ordering(|a: Seq<char>, b: Seq<char>| lex_le(a, b)),
{
    assert forall|a: Seq<char>| #[trigger] lex_le(a, a) by {
        lemma_lex_reflexive(a);
    }
    assert forall|a: Seq<char>, b: Seq<char>| #[trigger] lex_le(a, b) && #[trigger] lex_le(b, a) implies a == b by {
        lemma_lex_antisymmetric(a, b);
    }
    assert forall|a: Seq<char>, b: Seq<char>, c: Seq<char>| #[trigger] lex_le(a, b) && #[trigger] lex_le(b, c) implies lex_le(a, c) by {
        lemma_lex_transitive(a, b, c);
    }
    assert forall|a: Seq<char>, b: Seq<char>| #[trigger] lex_le(a, b) || #[trigger] lex_le(b, a) by {
        lemma_lex_total(a, b);
    }
}

/// Compares two strings lexicographically.
pub fn lex_le_exec(a: &Vec<char>, b: &Vec<char>) -> (r: bool)
    ensures
        r == lex_le(a@, b@),
{
    let mut i: usize = 0;
    assert(a@.skip(0) =~= a@);
    assert(b@.skip(0) =~= b@);
    while i < a.len() && i < b.len() && a[i] == b[i]
        invariant
            i <= a@.len(),
            i <= b@.len(),
            lex_le(a@, b@) == lex_le(a@.skip(i as int), b@.skip(i as int)),
        decreases a@.len() - i,
    {
        assert(a@.skip(i as int).drop_first() =~= a@.skip(i + 1));
        assert(b@.skip(i as int).drop_first() =~= b@.skip(i + 1));
        i = i + 1;
    }
    if i == a.len() {
        true
    } else if i == b.len() {
        false
    } else {
        a[i] < b[i]
    }
}

/// `s` is in non-decreasing lexicographic order.
pub open spec fn sorted_lex(s: Seq<Seq<char>>) -> bool {
    forall|i: int, j: int| 0 <= i < j < s.len() ==> lex_le(#[trigger] s[i], #[trigger] s[j])
}

/// The views of a vector of character vectors.
pub open spec fn views(v: Seq<Vec<char>>) -> Seq<Seq<char>> {
    v.map_values(|w: Vec<char>| w@)
}

/// Sorts strings lexicographically (insertion sort).
pub fn sort_strings(items: Vec<Vec<char>>) -> (r: Vec<Vec<char>>)
    ensures
        sorted_lex(views(r@)),
        views(r@).to_multiset() == views(items@).to_multiset(),
{
    broadcast use vstd::seq_lib::group_to_multiset_ensures;
    let mut out: Vec<Vec<char>> = Vec::new();
    let mut rest = items;
    let ghost original = views(rest@);
    assert(views(out@) =~= Seq::<Seq<char>>::empty());
    assert(views(out@).to_multiset() =~= vstd::multiset::Multiset::empty());
    while rest.len() > 0
        invariant
            sorted_lex(views(out@)),
            views(out@).to_multiset().add(views(rest@).to_multiset()) == original.to_multiset(),
        decreases rest@.len(),
    {
        let ghost old_rest = views(rest@);
        let ghost old_out = views(out@);
        let x = rest.remove(0);
        let ghost rv = views(rest@);
        proof {
            assert(rv =~= old_rest.remove(0));
            vstd::seq_lib::to_multiset_remove(old_rest, 0);
            assert(old_rest[0] == x@);
            assert(old_rest.contains(x@));
            vstd::seq_lib::to_multiset_contains(old_rest, x@);
            assert(old_rest.to_multiset().contains(x@));
            assert(rv.to_multiset() =~= old_rest.to_multiset().remove(x@));
        }
        let mut p: usize = 0;
        while p < out.len() && lex_le_exec(&out[p], &x)
            invariant
                p <= out@.len(),
                forall|j: int| 0 <= j < p ==> lex_le(#[trigger] out@[j]@, x@),
            decreases out@.len() - p,
        {
            p = p + 1;
        }
        let ghost before = views(out@);
        proof {
            assert forall|j: int| p <= j < before.len() implies lex_le(x@, #[trigger] before[j]) by {
                assert(!lex_le(before[p as int], x@));
                assert(before[p as int] == out@[p as int]@);
                lemma_lex_total(x@, before[p as int]);
                if j > p {
                    assert(lex_le(before[p as int], before[j]));
                    lemma_lex_transitive(x@, before[p as int], before[j]);
                }
            }
        }
        out.insert(p, x);
        proof {
            assert(views(out@) =~= before.insert(p as int, x@));
            vstd::seq_lib::to_multiset_insert(before, p as int, x@);
            let after = views(out@);
            assert forall|a: int, b: int| 0 <= a < b < after.len() implies lex_le(#[trigger] after[a], #[trigger] after[b]) by {
                if a < p && b < p {
                    assert(lex_le(before[a], before[b]));
                } else if a < p && b == p {
                    assert(after[a] == out@[a]@);
                } else if a < p && b > p {
                    assert(lex_le(before[a], x@));
                    assert(lex_le(x@, before[b - 1]));
                    lemma_lex_transitive(before[a], x@, before[b - 1]);
                } else if a == p {
                } else {
                    assert(lex_le(before[a - 1], before[b - 1]));
                }
            }
        }
        proof {
            let after = views(out@);
            assert(after.to_multiset() =~= old_out.to_multiset().insert(x@));
            assert(after.to_multiset().add(rv.to_multiset()) =~= old_out.to_multiset().add(
                old_rest.to_multiset(),
            ));
        }
    }
    assert(views(rest@) =~= Seq::<Seq<char>>::empty());
    out
}

} // verus!
