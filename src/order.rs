use vstd::multiset::Multiset;
use vstd::prelude::*;

verus! {

/// Lexicographic order on byte strings: `a` comes no later than `b`.
pub open spec fn lex_le(a: Seq<u8>, b: Seq<u8>) -> bool
    decreases a.len(),
{
    if a.len() == 0 {
        true
    } else if b.len() == 0 {
        false
    } else if a[0] != b[0] {
        a[0] < b[0]
    } else {
        lex_le(a.drop_first(), b.drop_first())
    }
}

/// Any two byte strings are ordered one way or the other.
pub proof fn lemma_lex_total(a: Seq<u8>, b: Seq<u8>)
    ensures
        lex_le(a, b) || lex_le(b, a),
    decreases a.len(),
{
    if a.len() > 0 && b.len() > 0 && a[0] == b[0] {
        lemma_lex_total(a.drop_first(), b.drop_first());
    }
}

/// The order is transitive.
pub proof fn lemma_lex_trans(a: Seq<u8>, b: Seq<u8>, c: Seq<u8>)
    requires
        lex_le(a, b),
        lex_le(b, c),
    ensures
        lex_le(a, c),
    decreases a.len(),
{
    if a.len() > 0 && b.len() > 0 && c.len() > 0 && a[0] == b[0] && b[0] == c[0] {
        lemma_lex_trans(a.drop_first(), b.drop_first(), c.drop_first());
    }
}

/// The order is antisymmetric.
pub proof fn lemma_lex_antisym(a: Seq<u8>, b: Seq<u8>)
    requires
        lex_le(a, b),
        lex_le(b, a),
    ensures
        a == b,
    decreases a.len(),
{
    if a.len() > 0 && b.len() > 0 {
        lemma_lex_antisym(a.drop_first(), b.drop_first());
        assert(a =~= seq![a[0]] + a.drop_first());
        assert(b =~= seq![b[0]] + b.drop_first());
    } else {
        assert(a =~= b);
    }
}

/// `a` comes strictly before `b`.
pub open spec fn lex_lt(a: Seq<u8>, b: Seq<u8>) -> bool {
    lex_le(a, b) && a != b
}

/// The strict order is transitive.
pub proof fn lemma_lex_lt_trans(a: Seq<u8>, b: Seq<u8>, c: Seq<u8>)
    requires
        lex_lt(a, b),
        lex_lt(b, c),
    ensures
        lex_lt(a, c),
{
    lemma_lex_trans(a, b, c);
    if a == c {
        lemma_lex_antisym(a, b);
    }
}

/// Each element of `s` comes no later than the ones after it.
pub open spec fn sorted(s: Seq<Seq<u8>>) -> bool {
    forall|i: int, j: int| 0 <= i < j < s.len() ==> lex_le(#[trigger] s[i], #[trigger] s[j])
}

/// Whether `a` comes no later than `b`.
pub fn bytes_le(a: &[u8], b: &[u8]) -> (r: bool)
    ensures
        r == lex_le(a@, b@),
{
    let mut i: usize = 0;
    proof {
        assert(a@.skip(0) =~= a@);
        assert(b@.skip(0) =~= b@);
    }
    while i < a.len() && i < b.len()
        invariant
            i <= a@.len(),
            i <= b@.len(),
            lex_le(a@, b@) == lex_le(a@.skip(i as int), b@.skip(i as int)),
        decreases a@.len() - i,
    {
        if a[i] != b[i] {
            return a[i] < b[i];
        }
        proof {
            assert(a@.skip(i as int).drop_first() =~= a@.skip(i + 1));
            assert(b@.skip(i as int).drop_first() =~= b@.skip(i + 1));
        }
        i = i + 1;
    }
    i == a.len()
}

/// `v` in lexicographic order; each element keeps its number of occurrences.
pub fn sort_bytes(v: Vec<Vec<u8>>) -> (r: Vec<Vec<u8>>)
    ensures
        sorted(r@.map_values(|x: Vec<u8>| x@)),
        r@.map_values(|x: Vec<u8>| x@).to_multiset() == v@.map_values(|x: Vec<u8>| x@).to_multiset(),
{
    broadcast use vstd::seq_lib::group_to_multiset_ensures, vstd::multiset::group_multiset_axioms;

    let ghost vs = v@.map_values(|x: Vec<u8>| x@);
    let mut r: Vec<Vec<u8>> = Vec::new();
    let mut v = v;
    proof {
        assert(r@.map_values(|x: Vec<u8>| x@) =~= Seq::<Seq<u8>>::empty());
        assert(r@.map_values(|x: Vec<u8>| x@).to_multiset() =~= Multiset::<Seq<u8>>::empty());
        assert(r@.map_values(|x: Vec<u8>| x@).to_multiset().add(vs.to_multiset()) =~= vs.to_multiset());
    }
    while v.len() > 0
        invariant
            sorted(r@.map_values(|x: Vec<u8>| x@)),
            r@.map_values(|x: Vec<u8>| x@).to_multiset().add(v@.map_values(|x: Vec<u8>| x@).to_multiset())
                == vs.to_multiset(),
        decreases v@.len(),
    {
        let ghost before_v = v@.map_values(|x: Vec<u8>| x@);
        let x = v.pop().unwrap();
        proof {
            assert(before_v =~= v@.map_values(|x: Vec<u8>| x@).push(x@));
        }
        let ghost rs = r@.map_values(|x: Vec<u8>| x@);
        let mut j: usize = 0;
        while j < r.len() && bytes_le(r[j].as_slice(), x.as_slice())
            invariant
                j <= r@.len(),
                rs == r@.map_values(|x: Vec<u8>| x@),
                forall|k: int| 0 <= k < j ==> lex_le(rs[k], x@),
            decreases r@.len() - j,
        {
            j = j + 1;
        }
        proof {
            if j < r@.len() {
                assert(!lex_le(rs[j as int], x@));
                lemma_lex_total(rs[j as int], x@);
                assert forall|k: int| j <= k < rs.len() implies lex_le(x@, rs[k]) by {
                    if k > j {
                        assert(lex_le(rs[j as int], rs[k]));
                        lemma_lex_trans(x@, rs[j as int], rs[k]);
                    }
                }
            }
        }
        let ghost xv = x@;
        r.insert(j, x);
        proof {
            let ns = r@.map_values(|x: Vec<u8>| x@);
            assert(ns =~= rs.insert(j as int, xv));
            assert forall|a: int, b: int| 0 <= a < b < ns.len() implies lex_le(
                #[trigger] ns[a],
                #[trigger] ns[b],
            ) by {
                if a < j && b < j {
                } else if a < j && b == j {
                } else if a < j && b > j {
                    assert(ns[b] == rs[b - 1]);
                } else if a == j {
                    assert(ns[b] == rs[b - 1]);
                } else {
                    assert(ns[a] == rs[a - 1]);
                    assert(ns[b] == rs[b - 1]);
                }
            }
            vstd::seq_lib::to_multiset_insert(rs, j as int, xv);
            assert(ns.to_multiset() == rs.to_multiset().insert(xv));
            let vn = v@.map_values(|x: Vec<u8>| x@);
            vstd::seq_lib::to_multiset_build(vn, xv);
            assert(before_v == vn.push(xv));
            assert(before_v.to_multiset() == vn.to_multiset().insert(xv));
            assert(ns.to_multiset().add(vn.to_multiset()) =~= rs.to_multiset().add(
                before_v.to_multiset(),
            ));
        }
    }
    proof {
        assert(v@.map_values(|x: Vec<u8>| x@) =~= Seq::<Seq<u8>>::empty());
        assert(r@.map_values(|x: Vec<u8>| x@).to_multiset() =~= vs.to_multiset());
    }
    r
}

} // verus!
