//! Access to a hash map keyed by emitter stream.
//!
//! `rustc_hash::FxHashMap` is std's `HashMap` with `rustc_hash`'s hasher. Each function here is one
//! method of it on keys that are pairs of integers, for which hashing is deterministic and equality
//! is that of the two numbers. The standard specifications of these methods hold only for hashers
//! known to them, and this is not one of those.

use std::collections::hash_map::Entry;

use rustc_hash::{FxBuildHasher, FxHashMap};
use vstd::prelude::*;
use vstd::std_specs::hash::EntrySpecFns;

use crate::protocols::{DpRank, WorkerId};

verus! {

/// Identifies an emitter stream.
pub type StreamKey = (WorkerId, DpRank);

/// `rustc_hash::FxBuildHasher` has no state: every hasher that it builds starts alike.
#[verifier::external_type_specification]
#[verifier::external_body]
pub struct ExFxBuildHasher(FxBuildHasher);

/// `HashMap::get` is trusted to find the value under `key`, and nothing when the key is absent.
#[verifier::external_body]
pub(crate) fn get<V>(map: &FxHashMap<StreamKey, V>, key: StreamKey) -> (value: Option<&V>)
    ensures
        match value {
            Some(v) => map@.contains_key(key) && *v == map@[key],
            None => !map@.contains_key(key),
        },
{
    map.get(&key)
}

/// `HashMap::get_mut` is trusted to find the value under `key`, to leave every other entry alone,
/// and to leave the map unchanged when the key is absent.
#[verifier::external_body]
pub(crate) fn get_mut<V>(map: &mut FxHashMap<StreamKey, V>, key: StreamKey) -> (value: Option<
    &mut V,
>)
    ensures
        match value {
            Some(v) => old(map)@.contains_key(key) && *v == old(map)@[key] && final(map)@ == old(
                map,
            )@.insert(key, *final(v)),
            None => !old(map)@.contains_key(key) && final(map)@ == old(map)@,
        },
{
    map.get_mut(&key)
}

/// `HashMap::entry` is trusted to give the entry of `key` with the value that the map holds there,
/// and to leave every other entry alone: the map ends with what the entry ends with.
#[verifier::external_body]
pub(crate) fn entry<V>(map: &mut FxHashMap<StreamKey, V>, key: StreamKey) -> (slot: Entry<
    '_,
    StreamKey,
    V,
>)
    ensures
        slot.value() == old(map)@.get(key),
        final(map)@ == match slot.final_value() {
            Some(v) => old(map)@.insert(key, v),
            None => old(map)@.remove(key),
        },
{
    map.entry(key)
}

} // verus!
