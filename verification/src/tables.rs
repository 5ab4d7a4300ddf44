//! The keys of a hash table as a list.

use std::collections::HashMap;
use vstd::prelude::*;

verus! {

broadcast use vstd::std_specs::hash::group_hash_axioms;

/// The keys of a table, each once and in no particular order.
pub fn keys_of<K: Copy, V>(table: &HashMap<K, V>) -> (r: Vec<K>)
    requires
        vstd::std_specs::hash::obeys_key_model::<K>(),
    ensures
        r@.no_duplicates(),
        r@.to_set() == table@.dom(),
{
    let mut r: Vec<K> = Vec::new();
    for k in it: table.keys()
        invariant
            it.seq().unref().to_set() == table@.dom(),
            it.seq().no_duplicates(),
            r@ == it.seq().unref().take(it.index() as int),
            it.index() == it.seq().len() ==> r@ == it.seq().unref(),
    {
        r.push(*k);
        assert(r@ =~= it.seq().unref().take(it.index() + 1));
    }
    r
}

} // verus!
