//! Walks over integer-keyed hash maps.

use std::collections::HashMap;
use vstd::prelude::*;
use vstd::std_specs::iter::IteratorSpec;

verus! {

broadcast use vstd::std_specs::hash::group_hash_axioms;

/// The keys of `table`, each once, in no particular order.
pub fn table_keys<V>(table: &HashMap<u64, V>) -> (keys: Vec<u64>)
    ensures
        keys@.no_duplicates(),
        forall|key: u64| #[trigger] keys@.contains(key) <==> table@.contains_key(key),
{
    let ghost all: Seq<u64> = vstd::std_specs::hash::spec_keys_iter(table).remaining().unref();
    let mut keys: Vec<u64> = Vec::new();
    for key in it: table.keys()
        invariant
            it.seq().unref() == all,
            it.seq().no_duplicates(),
            keys@ =~= all.take(it.index() as int),
    {
        keys.push(*key);
    }
    assert(keys@ =~= all);
    assert forall|key: u64| #[trigger] keys@.contains(key) <==> table@.contains_key(key) by {
        assert(all.to_set().contains(key) <==> all.contains(key));
    }
    keys
}

} // verus!
