//! A concurrent in-memory cache.

use vstd::prelude::*;
use std::hash::Hash;

verus! {

#[verifier::external_type_specification]
#[verifier::external_body]
#[verifier::reject_recursive_types(K)]
#[verifier::reject_recursive_types(V)]
#[verifier::reject_recursive_types(S)]
pub struct ExDashMap<K, V, S>(dashmap::DashMap<K, V, S>);

/// `DashMap::new`: an empty map.
#[verifier::external_body]
fn new_map<K: Eq + Hash, V>() -> dashmap::DashMap<K, V> {
    dashmap::DashMap::new()
}

/// `DashMap::insert`, dropping the value it replaces. The map is shared
/// between threads and changes behind shared references, so nothing is
/// promised about its contents afterwards.
#[verifier::external_body]
fn map_insert<K: Eq + Hash, V>(m: &dashmap::DashMap<K, V>, k: K, v: V) {
    m.insert(k, v);
}

/// `DashMap::get`, the value cloned out of the map. What it finds depends
/// on what all threads inserted; nothing is promised.
#[verifier::external_body]
fn map_get<K: Eq + Hash, V: Clone>(m: &dashmap::DashMap<K, V>, k: &K) -> Option<V> {
    m.get(k).map(|v| v.clone())
}

/// A key-value cache shared between threads.
#[verifier::reject_recursive_types(K)]
#[verifier::reject_recursive_types(V)]
pub struct Cache<K: Eq + Hash, V> {
    inner: dashmap::DashMap<K, V>,
}

impl<K: Eq + Hash, V> Default for Cache<K, V> {
    fn default() -> Self {
        Cache { inner: new_map() }
    }
}

impl<K: Eq + Hash, V> Cache<K, V> {
    /// Stores `v` under `k`, replacing any earlier value.
    pub fn insert(&self, k: K, v: V) {
        map_insert(&self.inner, k, v);
    }

    /// The value stored under `k`, if any, cloned.
    pub fn get(&self, k: &K) -> Option<V>
        where
            V: Clone,
    {
        map_get(&self.inner, k)
    }
}

} // verus!
