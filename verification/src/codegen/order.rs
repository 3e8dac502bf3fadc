//! Sets of indices in ascending order.

use std::collections::HashSet;

use vstd::prelude::*;
use vstd::std_specs::iter::IteratorSpec;

use crate::codegen::analysis::{increasing, sorted_insert};

verus! {

broadcast use vstd::std_specs::hash::group_hash_axioms;

/// The members of a set in ascending order.
pub open spec fn in_order(set: Set<u32>) -> Seq<u32> {
    choose|s: Seq<u32>| #[trigger] increasing(s) && s.to_set() == set
}

/// Two ascending lists of the same members are the same.
proof fn lemma_increasing_unique(a: Seq<u32>, b: Seq<u32>)
    requires
        increasing(a),
        increasing(b),
        a.to_set() == b.to_set(),
    ensures
        a == b,
    decreases a.len(),
{
    if a.len() == 0 {
        if b.len() > 0 {
            assert(b.to_set().contains(b[0]));
            assert(a.to_set().contains(b[0]));
        }
        assert(a =~= b);
    } else {
        let x = a.last();
        assert(a.to_set().contains(x));
        assert(b.to_set().contains(x));
        assert(b.contains(x));
        let y = b.last();
        assert(b.to_set().contains(y));
        assert(a.to_set().contains(y));
        assert(a.contains(y));
        assert(x == y);
        let a1 = a.drop_last();
        let b1 = b.drop_last();
        assert forall|e: u32| a1.to_set().contains(e) == b1.to_set().contains(e) by {
            if a1.contains(e) {
                assert(a.contains(e));
                assert(a.to_set().contains(e));
                assert(b.to_set().contains(e));
                let k = choose|k: int| 0 <= k < b.len() && b[k] == e;
                assert(e < x);
                assert(b1[k] == e);
            }
            if b1.contains(e) {
                assert(b.contains(e));
                assert(b.to_set().contains(e));
                assert(a.to_set().contains(e));
                let k = choose|k: int| 0 <= k < a.len() && a[k] == e;
                assert(e < y);
                assert(a1[k] == e);
            }
        }
        assert(a1.to_set() =~= b1.to_set());
        lemma_increasing_unique(a1, b1);
        assert(a =~= a1.push(x));
        assert(b =~= b1.push(y));
    }
}

/// An ascending list is the order of its members.
pub proof fn lemma_in_order(s: Seq<u32>)
    requires
        increasing(s),
    ensures
        in_order(s.to_set()) == s,
{
    lemma_increasing_unique(in_order(s.to_set()), s);
}

/// The members of a set in ascending order.
pub fn sorted_ids(set: &HashSet<u32>) -> (r: Vec<u32>)
    ensures
        r@ == in_order(set@),
        increasing(r@),
        r@.to_set() == set@,
{
    let mut out: Vec<u32> = Vec::new();
    assert(out@.to_set() =~= Set::<u32>::empty());
    let it = set.iter();
    let ghost keys = it.remaining();
    for x in iter: it
        invariant
            iter.seq() == keys,
            increasing(out@),
            forall|e: u32|
                #![trigger out@.to_set().contains(e)]
                out@.to_set().contains(e) <==> exists|k: int|
                    0 <= k < iter.index() && *(#[trigger] iter.seq()[k]) == e,
    {
        let fresh = sorted_insert(&mut out, *x);
    }
    proof {
        assert(keys.unref().to_set() == set@);
        assert forall|e: u32| out@.to_set().contains(e) == set@.contains(e) by {
            if set@.contains(e) {
                assert(keys.unref().to_set().contains(e));
                let k = choose|k: int| 0 <= k < keys.unref().len() && keys.unref()[k] == e;
                assert(*keys[k] == e);
            }
            if out@.to_set().contains(e) {
                let k = choose|k: int| 0 <= k < keys.len() && *(#[trigger] keys[k]) == e;
                assert(keys.unref()[k] == e);
            }
        }
        assert(out@.to_set() =~= set@);
        lemma_in_order(out@);
    }
    out
}

} // verus!
