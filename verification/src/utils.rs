//! Constructors for the hash maps and sets the library keys by value.

use vstd::prelude::*;
use std::collections::{HashMap, HashSet};

verus! {

/// An empty map.
pub fn fast_map_new<K, V>() -> (r: HashMap<K, V>)
    ensures
        r@ == Map::<K, V>::empty(),
{
    HashMap::new()
}

/// An empty set.
pub fn fast_set_new<T>() -> (r: HashSet<T>)
    ensures
        r@ == Set::<T>::empty(),
{
    HashSet::new()
}

/// An empty map with room for `capacity` entries.
pub fn fast_map_with_capacity<K, V>(capacity: usize) -> (r: HashMap<K, V>)
    ensures
        r@ == Map::<K, V>::empty(),
{
    HashMap::with_capacity(capacity)
}

/// An empty set with room for `capacity` items.
pub fn fast_set_with_capacity<T>(capacity: usize) -> (r: HashSet<T>)
    ensures
        r@ == Set::<T>::empty(),
{
    HashSet::with_capacity(capacity)
}

} // verus!
