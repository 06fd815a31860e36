//! Set operations on the register-number sets that the data-flow passes use.
use std::collections::BTreeSet;
use vstd::prelude::*;
use vstd::std_specs::iter::IteratorSpec;

verus! {

broadcast use {vstd::std_specs::btree::group_btree_axioms, vstd::laws_cmp::group_laws_cmp};

/// Adds every element of `src` to `dst`.
pub fn union_into(dst: &mut BTreeSet<usize>, src: &BTreeSet<usize>)
    ensures
        final(dst)@ == old(dst)@.union(src@),
{
    let ghost start = dst@;
    let ghost s = vstd::std_specs::btree::spec_btree_keys_iter(src).remaining().unref();
    for x in it: src.iter()
        invariant
            it.seq().unref() == s,
            s.to_set() == src@,
            dst@ == start.union(it.seq().unref().take(it.index() as int).to_set()),
    {
        let ghost i = it.index();
        dst.insert(*x);
        proof {
            assert(s.take(i + 1) =~= s.take(i).push(s[i]));
            s.take(i).lemma_push_to_set_commute(s[i]);
            assert(dst@ =~= start.union(s.take(i + 1).to_set()));
        }
    }
    proof {
        assert(s.take(s.len() as int) =~= s);
        assert(dst@ =~= start.union(src@));
    }
}

/// The elements of `a` that are not in `b`.
pub fn difference(a: &BTreeSet<usize>, b: &BTreeSet<usize>) -> (r: BTreeSet<usize>)
    ensures
        r@ == a@.difference(b@),
{
    let mut r: BTreeSet<usize> = BTreeSet::new();
    let ghost s = vstd::std_specs::btree::spec_btree_keys_iter(a).remaining().unref();
    for x in it: a.iter()
        invariant
            it.seq().unref() == s,
            s.to_set() == a@,
            r@ == it.seq().unref().take(it.index() as int).to_set().difference(b@),
    {
        let ghost i = it.index();
        if !b.contains(x) {
            r.insert(*x);
        }
        proof {
            assert(s.take(i + 1) =~= s.take(i).push(s[i]));
            s.take(i).lemma_push_to_set_commute(s[i]);
            assert(r@ =~= s.take(i + 1).to_set().difference(b@));
        }
    }
    proof {
        assert(s.take(s.len() as int) =~= s);
    }
    r
}

/// A copy of `a`.
pub fn copy_set(a: &BTreeSet<usize>) -> (r: BTreeSet<usize>)
    ensures
        r@ == a@,
{
    let r: BTreeSet<usize> = BTreeSet::new();
    let mut r = r;
    union_into(&mut r, a);
    assert(r@ =~= a@);
    r
}

/// Whether every element of `a` is in `b`.
pub fn is_subset(a: &BTreeSet<usize>, b: &BTreeSet<usize>) -> (r: bool)
    ensures
        r == a@.subset_of(b@),
{
    let ghost s = vstd::std_specs::btree::spec_btree_keys_iter(a).remaining().unref();
    for x in it: a.iter()
        invariant
            it.seq().unref() == s,
            s.to_set() == a@,
            it.seq().unref().take(it.index() as int).to_set().subset_of(b@),
    {
        let ghost i = it.index();
        if !b.contains(x) {
            proof {
                    assert(a@.contains(s[i]));
            }
            return false;
        }
        proof {
            assert(s.take(i + 1) =~= s.take(i).push(s[i]));
            s.take(i).lemma_push_to_set_commute(s[i]);
        }
    }
    proof {
        assert(s.take(s.len() as int) =~= s);
    }
    true
}

/// Whether `a` and `b` hold the same elements.
pub fn set_equal(a: &BTreeSet<usize>, b: &BTreeSet<usize>) -> (r: bool)
    ensures
        r == (a@ == b@),
{
    let ab = is_subset(a, b);
    let ba = is_subset(b, a);
    proof {
        if ab && ba {
            assert(a@ =~= b@);
        }
    }
    ab && ba
}

} // verus!

verus! {

/// The contents of a `BTreeSet` form a finite set.
pub proof fn lemma_set_finite(s: &BTreeSet<usize>)
    ensures
        s@.finite(),
{
    let q = vstd::std_specs::btree::spec_btree_keys_iter(s).remaining().unref();
    assert(q.to_set() == s@);
    vstd::seq_lib::seq_to_set_is_finite(q);
}

/// A strict subset of a finite set has fewer elements.
pub proof fn lemma_strict_subset_len(a: Set<usize>, b: Set<usize>)
    requires
        a.subset_of(b),
        a != b,
        b.finite(),
    ensures
        a.len() < b.len(),
{
    assert(exists|x: usize| b.contains(x) && !a.contains(x)) by {
        if forall|x: usize| b.contains(x) ==> a.contains(x) {
            assert(a =~= b);
        }
    }
    let x = choose|x: usize| b.contains(x) && !a.contains(x);
    vstd::set_lib::lemma_len_subset(a.insert(x), b);
    vstd::set_lib::lemma_len_subset(a, b);
}

} // verus!
