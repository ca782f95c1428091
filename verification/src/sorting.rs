use vstd::prelude::*;
use vstd::relations::{sorted_by, total_ordering};
use vstd::seq_lib::{
    group_to_multiset_ensures, lemma_multiset_commutative, lemma_sorted_unique,
};

verus! {

/// The ordering by which parent lists are sorted.
pub open spec fn usize_le() -> spec_fn(usize, usize) -> bool {
    |a: usize, b: usize| a <= b
}

pub proof fn lemma_usize_le_total()
    ensures
        total_ordering(usize_le()),
{
}

proof fn lemma_insert_to_multiset(s: Seq<usize>, i: int, x: usize)
    requires
        0 <= i <= s.len(),
    ensures
        s.insert(i, x).to_multiset() == s.to_multiset().insert(x),
{
    broadcast use group_to_multiset_ensures;
    broadcast use vstd::multiset::group_multiset_axioms;

    let a = s.subrange(0, i);
    let b = s.subrange(i, s.len() as int);
    assert(s =~= a + b);
    lemma_multiset_commutative(a, b);
    assert(s.insert(i, x) == a.push(x) + b);
    lemma_multiset_commutative(a.push(x), b);
    assert(a.push(x).to_multiset() =~= a.to_multiset().insert(x));
    assert(a.to_multiset().insert(x).add(b.to_multiset()) =~= a.to_multiset().add(
        b.to_multiset(),
    ).insert(x));
}

/// Places `x` into an already-sorted vector, keeping it sorted.
fn insert_sorted(v: &mut Vec<usize>, x: usize)
    requires
        sorted_by(old(v)@, usize_le()),
    ensures
        sorted_by(final(v)@, usize_le()),
        final(v)@.to_multiset() == old(v)@.to_multiset().insert(x),
        final(v)@.len() == old(v)@.len() + 1,
{
    let mut i: usize = 0;
    while i < v.len() && v[i] <= x
        invariant
            i <= v@.len(),
            v == old(v),
            forall|j: int| 0 <= j < i ==> usize_le()(v@[j], x),
        decreases v@.len() - i,
    {
        i = i + 1;
    }
    proof {
        assert(forall|j: int| i <= j < v@.len() ==> usize_le()(x, v@[j])) by {
            if (i as int) < v@.len() {
                assert(v@[i as int] > x);
                assert(forall|j: int| i < j < v@.len() ==> usize_le()(v@[i as int], v@[j]));
            }
        }
        lemma_insert_to_multiset(v@, i as int, x);
        v@.insert_ensures(i as int, x);
    }
    v.insert(i, x);
    proof {
        let nv = v@;
        let ov = old(v)@;
        assert forall|p: int, q: int| 0 <= p < q < nv.len() implies usize_le()(nv[p], nv[q]) by {
            if p < i && q < i {
                assert(nv[p] == ov[p] && nv[q] == ov[q]);
            } else if p < i && q == i {
                assert(nv[p] == ov[p] && nv[q] == x);
            } else if p < i && q > i {
                assert(nv[p] == ov[p] && nv[q] == ov[q - 1]);
            } else if p == i && q > i {
                assert(nv[p] == x && nv[q] == ov[q - 1]);
            } else {
                assert(nv[p] == ov[p - 1] && nv[q] == ov[q - 1]);
            }
        }
    }
}

/// Sorts the vector ascending; the result is exactly `sort_by` of its view.
pub fn sort_usize(v: Vec<usize>) -> (r: Vec<usize>)
    ensures
        r@ == v@.sort_by(usize_le()),
        sorted_by(r@, usize_le()),
        r@.to_multiset() == v@.to_multiset(),
        r@.len() == v@.len(),
{
    broadcast use group_to_multiset_ensures;

    let mut out: Vec<usize> = Vec::new();
    let mut i: usize = 0;
    proof {
        assert(v@.subrange(0, 0) =~= Seq::<usize>::empty());
        assert(Seq::<usize>::empty().to_multiset() =~= out@.to_multiset());
    }
    while i < v.len()
        invariant
            i <= v@.len(),
            sorted_by(out@, usize_le()),
            out@.to_multiset() == v@.subrange(0, i as int).to_multiset(),
            out@.len() == i,
        decreases v@.len() - i,
    {
        let x = v[i];
        proof {
            assert(v@.subrange(0, i as int + 1) =~= v@.subrange(0, i as int).push(x));
            vstd::seq_lib::to_multiset_build(v@.subrange(0, i as int), x);
        }
        insert_sorted(&mut out, x);
        i = i + 1;
    }
    proof {
        assert(v@.subrange(0, v@.len() as int) =~= v@);
        lemma_usize_le_total();
        v@.lemma_sort_by_ensures(usize_le());
        assert(v@.to_multiset() =~= v@.sort_by(usize_le()).to_multiset());
        lemma_sorted_unique(out@, v@.sort_by(usize_le()), usize_le());
        assert(out@ =~= v@.sort_by(usize_le()));
    }
    out
}

} // verus!
