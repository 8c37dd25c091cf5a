//! The ids of the tile images on screen, held in a `BTreeSet` and read in
//! increasing order.
use std::collections::BTreeSet;
use vstd::prelude::*;
use vstd::std_specs::btree::{increasing_seq, spec_btree_keys_iter};
use vstd::std_specs::iter::IteratorSpec;

verus! {

/// `ids` holds the ids of `set`, each smaller than the next.
pub open spec fn in_order(ids: Seq<u32>, set: Set<u32>) -> bool {
    &&& forall|i: int, j: int| 0 <= i < j < ids.len() ==> ids[i] < ids[j]
    &&& ids.to_set() == set
}

/// The ids of `set` in increasing order.
pub closed spec fn sorted_keys(set: &BTreeSet<u32>) -> Seq<u32> {
    choose|ids: Seq<u32>| in_order(ids, set@)
}

/// Two increasing sequences of the same ids are the same.
proof fn lemma_in_order_unique(a: Seq<u32>, b: Seq<u32>, set: Set<u32>)
    requires
        in_order(a, set),
        in_order(b, set),
    ensures
        a == b,
    decreases a.len(),
{
    if a.len() == 0 {
        if b.len() > 0 {
            assert(b.to_set().contains(b[0]));
            assert(a.to_set().contains(b[0]));
        }
        assert(a =~= b);
    } else if b.len() == 0 {
        assert(a.to_set().contains(a[0]));
        assert(b.to_set().contains(a[0]));
    } else {
        assert(a.to_set().contains(a[0]) && b.to_set().contains(b[0]));
        let k = choose|k: int| 0 <= k < b.len() && b[k] == a[0];
        let m = choose|m: int| 0 <= m < a.len() && a[m] == b[0];
        if k > 0 {
            assert(b[0] < b[k]);
            if m > 0 {
                assert(a[0] < a[m]);
            }
        }
        assert(a[0] == b[0]);
        let rest = set.remove(a[0]);
        assert forall|x: u32| a.drop_first().to_set().contains(x) <==> rest.contains(x) by {
            if a.drop_first().contains(x) {
                let i = choose|i: int| 0 <= i < a.drop_first().len() && a.drop_first()[i] == x;
                assert(a[i + 1] == x);
                assert(a[0] < a[i + 1]);
                assert(a.contains(x));
            }
            if rest.contains(x) {
                assert(a.to_set().contains(x));
                let i = choose|i: int| 0 <= i < a.len() && a[i] == x;
                assert(i != 0);
                assert(a.drop_first()[i - 1] == x);
            }
        }
        assert forall|x: u32| b.drop_first().to_set().contains(x) <==> rest.contains(x) by {
            if b.drop_first().contains(x) {
                let i = choose|i: int| 0 <= i < b.drop_first().len() && b.drop_first()[i] == x;
                assert(b[i + 1] == x);
                assert(b[0] < b[i + 1]);
                assert(b.contains(x));
            }
            if rest.contains(x) {
                assert(b.to_set().contains(x));
                let i = choose|i: int| 0 <= i < b.len() && b[i] == x;
                assert(i != 0);
                assert(b.drop_first()[i - 1] == x);
            }
        }
        assert(a.drop_first().to_set() =~= rest);
        assert(b.drop_first().to_set() =~= rest);
        lemma_in_order_unique(a.drop_first(), b.drop_first(), rest);
        assert(a =~= b) by {
            assert forall|i: int| 0 <= i < a.len() implies a[i] == b[i] by {
                if i > 0 {
                    assert(a.drop_first()[i - 1] == b.drop_first()[i - 1]);
                }
            }
        }
    }
}

/// What a set's iterator yields: its ids in increasing order.
proof fn lemma_iteration_order(set: &BTreeSet<u32>)
    ensures
        in_order(spec_btree_keys_iter(set).remaining().map_values(|id: &u32| *id), set@),
{
    broadcast use vstd::std_specs::btree::group_btree_axioms, vstd::laws_cmp::group_laws_cmp;

    let keys = spec_btree_keys_iter(set).remaining();
    let ids = keys.map_values(|id: &u32| *id);
    assert(keys.unref() =~= ids);
    assert(vstd::laws_cmp::obeys_cmp::<u32>());
    assert(vstd::laws_cmp::obeys_cmp::<&u32>());
    assert(increasing_seq(keys));
    assert forall|i: int, j: int| 0 <= i < j < ids.len() implies ids[i] < ids[j] by {
        assert(vstd::std_specs::cmp::OrdSpec::cmp_spec(&keys[i], &keys[j]) is Less);
    }
}

/// The ids of a set, read in order, are the set's ids, each smaller than
/// the next.
pub proof fn lemma_sorted_keys(set: &BTreeSet<u32>)
    ensures
        in_order(sorted_keys(set), set@),
{
    lemma_iteration_order(set);
}

/// An empty set of ids.
pub fn empty_ids() -> (set: BTreeSet<u32>)
    ensures
        sorted_keys(&set) == Seq::<u32>::empty(),
{
    let set = BTreeSet::new();
    proof {
        lemma_sorted_keys(&set);
        assert(Seq::<u32>::empty().to_set() =~= set@);
        lemma_in_order_unique(sorted_keys(&set), Seq::<u32>::empty(), set@);
    }
    set
}

/// Adds `id` to the set.
pub fn insert_id(set: &mut BTreeSet<u32>, id: u32)
    ensures
        sorted_keys(final(set)).to_set() == sorted_keys(old(set)).to_set().insert(id),
{
    broadcast use vstd::laws_cmp::group_laws_cmp;

    proof {
        lemma_sorted_keys(old(set));
    }
    assert(vstd::laws_cmp::obeys_cmp::<u32>());
    set.insert(id);
    proof {
        lemma_sorted_keys(set);
    }
}

/// The ids of the set in increasing order.
pub fn ids_in_order(set: &BTreeSet<u32>) -> (ids: Vec<u32>)
    ensures
        ids@ == sorted_keys(set),
{
    broadcast use vstd::std_specs::btree::group_btree_axioms, vstd::laws_cmp::group_laws_cmp;

    let mut ids: Vec<u32> = Vec::new();
    let ghost keys = spec_btree_keys_iter(set).remaining();
    for id in it: set.iter()
        invariant
            ids@ == it.seq().take(it.index()).map_values(|r: &u32| *r),
            it.seq() == keys,
    {
        ids.push(*id);
    }
    proof {
        assert(ids@ =~= keys.map_values(|r: &u32| *r));
        lemma_iteration_order(set);
        lemma_sorted_keys(set);
        lemma_in_order_unique(ids@, sorted_keys(set), set@);
    }
    ids
}

} // verus!
