//! Hash maps and hash sets with the FNV hasher.
//!
//! `fnv::FnvHashMap` and `fnv::FnvHashSet` are the standard hash map and hash set with the hasher
//! `fnv::FnvHasher`. Every hasher that their builder makes starts from the same state, and its
//! state after a write depends on the state before and on the bytes written alone, so that equal
//! keys get equal hashes. The functions here state what follows: on keys that hash and compare as
//! a table expects, the maps are maps and the sets are sets.

use core::hash::Hash;
use fnv::{FnvHashMap, FnvHashSet};
use vstd::prelude::*;
use vstd::std_specs::hash::obeys_key_model;

verus! {

/// The hasher of the tables.
#[verifier::external_type_specification]
#[verifier::external_body]
pub struct ExFnvHasher(fnv::FnvHasher);

/// The builder of the hashers.
#[verifier::external_type_specification]
#[verifier::external_body]
#[verifier::reject_recursive_types(H)]
pub struct ExBuildHasherDefault<H>(core::hash::BuildHasherDefault<H>);

/// `FnvHashMap::contains_key`: whether the map has the key.
#[verifier::external_body]
pub(crate) fn map_contains_key<K: Eq + Hash, V>(map: &FnvHashMap<K, V>, key: &K) -> (found: bool)
    requires
        obeys_key_model::<K>(),
    ensures
        found == map@.contains_key(*key),
{
    map.contains_key(key)
}

/// `FnvHashMap::get`: the value of the key.
#[verifier::external_body]
pub(crate) fn map_get<'a, K: Eq + Hash, V>(map: &'a FnvHashMap<K, V>, key: &K) -> (value: Option<
    &'a V,
>)
    requires
        obeys_key_model::<K>(),
    ensures
        match value {
            Some(value) => map@.contains_key(*key) && *value == map@[*key],
            None => !map@.contains_key(*key),
        },
{
    map.get(key)
}

/// `FnvHashMap::insert`: gives the key a new value; hands the old one out.
#[verifier::external_body]
pub(crate) fn map_insert<K: Eq + Hash, V>(map: &mut FnvHashMap<K, V>, key: K, value: V) -> (
    replaced: Option<V>)
    requires
        obeys_key_model::<K>(),
    ensures
        final(map)@ == old(map)@.insert(key, value),
        match replaced {
            Some(value) => old(map)@.contains_key(key) && value == old(map)@[key],
            None => !old(map)@.contains_key(key),
        },
{
    map.insert(key, value)
}

/// `FnvHashMap::remove`: takes the key out; hands its value out.
#[verifier::external_body]
pub(crate) fn map_remove<K: Eq + Hash, V>(map: &mut FnvHashMap<K, V>, key: &K) -> (removed: Option<
    V,
>)
    requires
        obeys_key_model::<K>(),
    ensures
        final(map)@ == old(map)@.remove(*key),
        match removed {
            Some(value) => old(map)@.contains_key(*key) && value == old(map)@[*key],
            None => !old(map)@.contains_key(*key),
        },
{
    map.remove(key)
}

/// `FnvHashMap::keys`: the keys, each once, in no particular order.
#[verifier::external_body]
pub(crate) fn map_keys<K: Eq + Hash + Copy, V>(map: &FnvHashMap<K, V>) -> (keys: Vec<K>)
    requires
        obeys_key_model::<K>(),
    ensures
        keys@.no_duplicates(),
        keys@.to_set() == map@.dom(),
{
    map.keys().copied().collect()
}

/// `FnvHashSet::insert`: puts the item in; says whether it is new.
#[verifier::external_body]
pub(crate) fn set_insert<K: Eq + Hash>(set: &mut FnvHashSet<K>, item: K) -> (new: bool)
    requires
        obeys_key_model::<K>(),
    ensures
        final(set)@ == old(set)@.insert(item),
        new == !old(set)@.contains(item),
{
    set.insert(item)
}

/// `FnvHashSet::remove`: takes the item out; says whether it was there.
#[verifier::external_body]
pub(crate) fn set_remove<K: Eq + Hash>(set: &mut FnvHashSet<K>, item: &K) -> (found: bool)
    requires
        obeys_key_model::<K>(),
    ensures
        final(set)@ == old(set)@.remove(*item),
        found == old(set)@.contains(*item),
{
    set.remove(item)
}

/// `FnvHashSet::iter`: the items, each once, in no particular order.
#[verifier::external_body]
pub(crate) fn set_items<'a, K: Eq + Hash>(set: &'a FnvHashSet<K>) -> (items: Vec<&'a K>)
    requires
        obeys_key_model::<K>(),
    ensures
        items@.no_duplicates(),
        items@.unref().to_set() == set@,
{
    set.iter().collect()
}

/// `FnvHashSet::drain`: the items, each once, in no particular order; none is left in the set.
#[verifier::external_body]
pub(crate) fn set_drain<K: Eq + Hash>(set: &mut FnvHashSet<K>) -> (items: Vec<K>)
    requires
        obeys_key_model::<K>(),
    ensures
        final(set)@ == Set::<K>::empty(),
        items@.no_duplicates(),
        items@.to_set() == old(set)@,
{
    set.drain().collect()
}

} // verus!
