//! Hash tables with integer keys.

use std::collections::HashMap;
use vstd::prelude::*;
use vstd::std_specs::hash;

verus! {

broadcast use vstd::std_specs::hash::group_hash_axioms;

/// The keys of a table, in no particular order.
pub fn keys_of<K: Copy, V>(table: &HashMap<K, V>) -> (keys: Vec<K>)
    requires
        hash::obeys_key_model::<K>(),
    ensures
        forall|k: K| #[trigger] keys@.contains(k) <==> table@.contains_key(k),
{
    let mut keys: Vec<K> = Vec::new();
    let ghost all = vstd::std_specs::iter::IteratorSpec::remaining(&table.keys()).unref();
    for key in iter: table.keys()
        invariant
            iter.seq().unref() == all,
            keys@ == all.take(iter.index() as int),
            all.to_set() == table@.dom(),
    {
        keys.push(*key);
        assert(all.take(iter.index() as int + 1) =~= all.take(iter.index() as int).push(*key));
    }
    proof {
        assert(keys@ =~= all);
        assert forall|k: K| #[trigger] keys@.contains(k) <==> table@.contains_key(k) by {
            assert(all.to_set().contains(k) <==> all.contains(k));
        }
    }
    keys
}

} // verus!
