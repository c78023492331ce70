//! Walking hash maps.

use std::collections::HashMap;
use std::hash::Hash;

use vstd::prelude::*;
use vstd::std_specs::hash::*;
use vstd::std_specs::iter::IteratorSpec;

verus! {

broadcast use group_hash_axioms;

/// The keys of a map in the order in which it is walked. The order belongs to the
/// map: it is the same as long as the map is not changed.
pub open spec fn key_order<K, V>(map: HashMap<K, V>) -> Seq<K> {
    into_iter_keys(map.keys())
}

/// The keys of a map, each of them once, in the order in which it is walked.
pub(crate) fn keys_of<K: Copy + Eq + Hash, V>(map: &HashMap<K, V>) -> (keys: Vec<K>)
    requires
        obeys_key_model::<K>(),
    ensures
        keys@ == key_order(*map),
        keys@.no_duplicates(),
        forall|key: K| #[trigger] keys@.contains(key) <==> map@.dom().contains(key),
{
    let mut keys: Vec<K> = Vec::new();
    for key in it: map.keys()
        invariant
            it.seq() == map.keys().remaining(),
            it.seq().unref() == key_order(*map),
            keys@ == it.seq().unref().take(it.index() as int),
    {
        assert(it.seq().unref().take(it.index() + 1) =~= keys@.push(*key));
        keys.push(*key);
    }
    proof {
        let order = map.keys().remaining();
        assert(order.unref().take(order.len() as int) =~= order.unref());
        assert forall|i: int, j: int|
            0 <= i < keys.len() && 0 <= j < keys.len() && i != j implies keys[i] != keys[j] by {
            assert(order[i] != order[j]);
        }
        assert forall|key: K| #[trigger] keys@.contains(key) <==> map@.dom().contains(key) by {
            assert(keys@.to_set().contains(key) <==> keys@.contains(key));
        }
    }
    keys
}

} // verus!
