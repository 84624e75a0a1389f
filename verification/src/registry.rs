//! The concurrent map from peripheral handles to state slots.

use std::collections::hash_map::RandomState;

use dashmap::DashMap;
use vstd::prelude::*;

verus! {

/// Declares [`dashmap::DashMap`], whose insides stay hidden.
#[verifier::external_type_specification]
#[verifier::external_body]
#[verifier::reject_recursive_types(K)]
#[verifier::reject_recursive_types(V)]
#[verifier::reject_recursive_types(S)]
pub struct ExDashMap<K, V, S>(DashMap<K, V, S>);

/// The entries of a map.
pub uninterp spec fn entries(map: DashMap<u32, usize, RandomState>) -> Map<u32, usize>;

/// [`DashMap::new`]: the map that it makes has no entries.
#[verifier::external_body]
pub(crate) fn new_map() -> (map: DashMap<u32, usize, RandomState>)
    ensures
        entries(map).dom() == Set::<u32>::empty(),
{
    DashMap::new()
}

/// [`DashMap::get`]: the value under the key, copied out of the guard that
/// `get` returns, if the key has an entry.
#[verifier::external_body]
pub(crate) fn get(map: &DashMap<u32, usize, RandomState>, key: u32) -> (value: Option<usize>)
    ensures
        value == if entries(*map).contains_key(key) {
            Some(entries(*map)[key])
        } else {
            None
        },
{
    map.get(&key).map(|entry| *entry.value())
}

/// [`DashMap::insert`]: puts the value under the key, and hands back the value
/// that stood there before. `insert` itself asks only for a shared reference;
/// the exclusive one taken here rules out that the entries of a map that
/// somebody else looks at change.
#[verifier::external_body]
pub(crate) fn insert(map: &mut DashMap<u32, usize, RandomState>, key: u32, value: usize) -> (
    previous: Option<usize>)
    ensures
        entries(*final(map)) == entries(*old(map)).insert(key, value),
        previous == if entries(*old(map)).contains_key(key) {
            Some(entries(*old(map))[key])
        } else {
            None
        },
{
    map.insert(key, value)
}

} // verus!
