//! Sorting UUIDs into ascending order (the order of their hex text, which is
//! chronological for version 7 UUIDs).

use vstd::prelude::*;
use vstd::relations::{sorted_by, total_ordering};
use vstd::seq_lib::{group_to_multiset_ensures, lemma_sorted_unique};

verus! {

/// The ascending order on UUIDs.
pub open spec fn uuid_le() -> spec_fn(u128, u128) -> bool {
    |a: u128, b: u128| a <= b
}

/// `uuids` in ascending order.
pub open spec fn sorted_uuids(uuids: Seq<u128>) -> Seq<u128> {
    uuids.sort_by(uuid_le())
}

proof fn lemma_uuid_le_total()
    ensures
        total_ordering(uuid_le()),
{
}

/// Sorts UUIDs into ascending order.
pub fn sort_uuids(uuids: &Vec<u128>) -> (r: Vec<u128>)
    ensures
        r@ == sorted_uuids(uuids@),
{
    broadcast use group_to_multiset_ensures;

    let mut out: Vec<u128> = Vec::new();
    let mut k: usize = 0;
    while k < uuids.len()
        invariant
            k <= uuids@.len(),
            sorted_by(out@, uuid_le()),
            out@.to_multiset() == uuids@.take(k as int).to_multiset(),
        decreases uuids@.len() - k,
    {
        let x = uuids[k];
        let mut i: usize = 0;
        while i < out.len() && out[i] <= x
            invariant
                i <= out@.len(),
                forall|j: int| 0 <= j < i ==> out@[j] <= x,
            decreases out@.len() - i,
        {
            i = i + 1;
        }
        let ghost before = out@;
        out.insert(i, x);
        proof {
            assert(out@ == before.insert(i as int, x));
            assert(sorted_by(out@, uuid_le())) by {
                assert forall|a: int, b: int| 0 <= a < b < out@.len() implies #[trigger] (uuid_le())(out@[a], out@[b]) by {
                    if b < i {
                        assert(out@[a] == before[a] && out@[b] == before[b]);
                    } else if b == i {
                        assert(out@[a] == before[a]);
                    } else if a < i {
                        assert(out@[a] == before[a] && out@[b] == before[b - 1]);
                        assert((uuid_le())(before[a], before[b - 1]));
                    } else if a == i {
                        assert(out@[b] == before[b - 1]);
                        assert(before[i as int] > x);
                        if b - 1 > i {
                            assert((uuid_le())(before[i as int], before[b - 1]));
                        }
                    } else {
                        assert(out@[a] == before[a - 1] && out@[b] == before[b - 1]);
                        assert((uuid_le())(before[a - 1], before[b - 1]));
                    }
                }
            }
            assert(uuids@.take(k + 1) =~= uuids@.take(k as int).push(x));
            vstd::seq_lib::to_multiset_insert(before, i as int, x);
            assert(out@.to_multiset() =~= before.to_multiset().insert(x));
            uuids@.take(k as int).to_multiset_ensures();
            assert(uuids@.take(k as int).push(x).to_multiset() =~= uuids@.take(k as int).to_multiset().insert(x));
            assert(uuids@.take(k + 1).to_multiset() =~= uuids@.take(k as int).to_multiset().insert(x));
        }
        k = k + 1;
    }
    proof {
        assert(uuids@.take(uuids@.len() as int) =~= uuids@);
        lemma_uuid_le_total();
        uuids@.lemma_sort_by_ensures(uuid_le());
        lemma_sorted_unique(out@, sorted_uuids(uuids@), uuid_le());
    }
    out
}

} // verus!
