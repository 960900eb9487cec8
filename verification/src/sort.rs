//! Ascending order of integer keys.

use vstd::prelude::*;

verus! {

/// Whether the keys ascend.
pub open spec fn ascending(keys: Seq<u64>) -> bool {
    forall|i: int, j: int| 0 <= i <= j < keys.len() ==> #[trigger] keys[i] <= #[trigger] keys[j]
}

/// The keys in ascending order.
pub fn sorted_keys(keys: &Vec<u64>) -> (sorted: Vec<u64>)
    ensures
        ascending(sorted@),
        sorted@.to_multiset() == keys@.to_multiset(),
        sorted@.len() == keys@.len(),
{
    let mut sorted: Vec<u64> = Vec::new();
    let mut i: usize = 0;
    assert(sorted@ =~= keys@.take(0));
    while i < keys.len()
        invariant
            i <= keys@.len(),
            sorted@.len() == i,
            ascending(sorted@),
            sorted@.to_multiset() == keys@.take(i as int).to_multiset(),
        decreases keys@.len() - i,
    {
        let key: u64 = keys[i];
        let mut at: usize = sorted.len();
        while at > 0 && sorted[at - 1] > key
            invariant
                at <= sorted@.len(),
                ascending(sorted@),
                forall|k: int| at <= k < sorted@.len() ==> #[trigger] sorted@[k] > key,
            decreases at,
        {
            at = at - 1;
        }
        let ghost before = sorted@;
        sorted.insert(at, key);
        proof {
            vstd::seq_lib::to_multiset_insert(before, at as int, key);
            assert(keys@.take(i + 1) =~= keys@.take(i as int).push(key));
            vstd::seq_lib::to_multiset_insert(keys@.take(i as int), i as int, key);
            assert(keys@.take(i as int).insert(i as int, key) =~= keys@.take(i + 1));
        }
        i = i + 1;
    }
    assert(keys@.take(i as int) =~= keys@);
    sorted
}

} // verus!
