//! The distinct keys (circuit ids) by which jobs are grouped, in
//! increasing order.

use vstd::prelude::*;
use std::collections::BTreeSet;
use vstd::std_specs::btree::{increasing_seq, spec_btree_keys_iter};
use vstd::std_specs::iter::IteratorSpec;
use vstd::std_specs::cmp::OrdSpec;

verus! {

/// `s` is strictly increasing.
pub open spec fn strictly_increasing(s: Seq<u32>) -> bool {
    forall|i: int, j: int| 0 <= i < j < s.len() ==> s[i] < s[j]
}

/// `out` lists each key of `keys` once, in increasing order.
pub open spec fn distinct_sorted_keys(keys: Seq<u32>, out: Seq<u32>) -> bool {
    &&& strictly_increasing(out)
    &&& forall|k: u32| keys.contains(k) <==> out.contains(k)
}

/// Each key of `keys` once, in increasing order: the keys of a
/// `BTreeSet` that holds them.
pub fn sorted_distinct_keys(keys: &Vec<u32>) -> (r: Vec<u32>)
    ensures
        distinct_sorted_keys(keys@, r@),
{
    let mut set: BTreeSet<u32> = BTreeSet::new();
    let mut i: usize = 0;
    while i < keys.len()
        invariant
            i <= keys@.len(),
            forall|k: u32| keys@.subrange(0, i as int).contains(k) <==> set@.contains(k),
        decreases keys@.len() - i,
    {
        let ghost pre = keys@.subrange(0, i as int);
        let ghost pre1 = keys@.subrange(0, i + 1);
        assert(pre1 == pre.push(keys@[i as int]));
        set.insert(keys[i]);
        assert forall|k: u32| pre1.contains(k) <==> set@.contains(k) by {
            if pre1.contains(k) && k != keys@[i as int] {
                let t = choose|t: int| 0 <= t < pre1.len() && pre1[t] == k;
                assert(pre[t] == k);
            }
            if set@.contains(k) && k == keys@[i as int] {
                assert(pre1[i as int] == k);
            }
        }
        i = i + 1;
    }
    assert(keys@.subrange(0, keys@.len() as int) == keys@);
    keys_in_order(&set)
}

/// References to `u32` values are ordered as the values are.
proof fn lemma_key_refs_ordered()
    ensures
        vstd::laws_cmp::obeys_cmp::<&u32>(),
{
    broadcast use vstd::laws_cmp::group_laws_cmp;

    assert(vstd::laws_cmp::obeys_cmp::<u32>());
    reveal(vstd::laws_eq::obeys_eq_spec_properties);
    reveal(vstd::laws_cmp::obeys_partial_cmp_spec_properties);
    reveal(vstd::laws_cmp::obeys_cmp_partial_ord);
    reveal(vstd::laws_cmp::obeys_cmp_ord);
}

/// The keys of a set, in increasing order.
fn keys_in_order(set: &BTreeSet<u32>) -> (r: Vec<u32>)
    ensures
        strictly_increasing(r@),
        forall|k: u32| set@.contains(k) <==> r@.contains(k),
{
    broadcast use vstd::std_specs::btree::group_btree_axioms;
    broadcast use vstd::laws_cmp::group_laws_cmp;

    let ghost ks = spec_btree_keys_iter(set).remaining();
    let mut out: Vec<u32> = Vec::new();
    for k in it: set.iter()
        invariant
            it.seq() == ks,
            out@.len() == it.index(),
            forall|t: int| 0 <= t < it.index() ==> out@[t] == *it.seq()[t],
    {
        out.push(*k);
    }
    proof {
        lemma_key_refs_ordered();
    }
    assert(out@.len() == ks.len());
    assert(out@ == ks.unref());
    assert(increasing_seq(ks));
    assert forall|a: int, b: int| 0 <= a < b < out@.len() implies out@[a] < out@[b] by {
        let x = ks[a];
        let y = ks[b];
        assert((&x).cmp_spec(&y) is Less);
    }
    out
}

} // verus!
