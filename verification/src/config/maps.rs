//! The ordered maps of profiles and dispatch rules, held in `indexmap::IndexMap`.
//!
//! The contents of each map are named as a sequence of (key, value) entries in
//! map order; the wrappers below say what each `IndexMap` method used here does
//! to that sequence, as the indexmap source documents it.

use indexmap::IndexMap;
use vstd::prelude::*;

use crate::config::model::{DispatchRule, ProfileConfig};

verus! {

#[verifier::external_type_specification]
#[verifier::external_body]
#[verifier::reject_recursive_types(K)]
#[verifier::reject_recursive_types(V)]
#[verifier::reject_recursive_types(S)]
pub struct ExIndexMap<K, V, S>(IndexMap<K, V, S>);

/// The entries of a profile map, in map order, keys by their characters.
pub uninterp spec fn profile_entries(m: IndexMap<String, ProfileConfig>) -> Seq<(Seq<char>, ProfileConfig)>;

/// The entries of a dispatch map, in map order, keys by their characters.
pub uninterp spec fn dispatch_entries(m: IndexMap<String, DispatchRule>) -> Seq<(Seq<char>, DispatchRule)>;

/// Position of the first entry whose key is `key`, if any.
pub open spec fn first_key_index<V>(entries: Seq<(Seq<char>, V)>, key: Seq<char>) -> Option<int> {
    if exists|i: int| 0 <= i < entries.len() && entries[i].0 == key {
        Some(choose|i: int| 0 <= i < entries.len() && entries[i].0 == key
            && forall|j: int| 0 <= j < i ==> entries[j].0 != key)
    } else {
        None
    }
}

/// `key` is among the keys of `entries`.
pub open spec fn has_key<V>(entries: Seq<(Seq<char>, V)>, key: Seq<char>) -> bool {
    exists|i: int| 0 <= i < entries.len() && entries[i].0 == key
}

/// `IndexMap::new`: an empty map.
#[verifier::external_body]
pub fn profiles_new() -> (m: IndexMap<String, ProfileConfig>)
    ensures
        profile_entries(m) == Seq::<(Seq<char>, ProfileConfig)>::empty(),
{
    IndexMap::new()
}

/// `IndexMap::len`: the number of entries.
#[verifier::external_body]
pub fn profiles_len(m: &IndexMap<String, ProfileConfig>) -> (n: usize)
    ensures
        n == profile_entries(*m).len(),
{
    m.len()
}

/// `IndexMap::get_index`: the entry at position `i`.
#[verifier::external_body]
pub fn profiles_at(m: &IndexMap<String, ProfileConfig>, i: usize) -> (r: (&String, &ProfileConfig))
    requires
        i < profile_entries(*m).len(),
    ensures
        r.0@ == profile_entries(*m)[i as int].0,
        *r.1 == profile_entries(*m)[i as int].1,
{
    m.get_index(i).unwrap()
}

/// `IndexMap::get_index_of`: the position of `key`; keys in an `IndexMap` are
/// unique, so it is the first entry with that key.
#[verifier::external_body]
pub fn profiles_index_of(m: &IndexMap<String, ProfileConfig>, key: &str) -> (r: Option<usize>)
    ensures
        r matches Some(i) ==> i < profile_entries(*m).len() && profile_entries(*m)[i as int].0 == key@
            && forall|j: int| 0 <= j < i ==> profile_entries(*m)[j].0 != key@,
        r is None ==> !has_key(profile_entries(*m), key@),
{
    m.get_index_of(key)
}

/// `IndexMap::insert` of a key the map does not hold: the entry goes last.
#[verifier::external_body]
pub fn profiles_insert(m: &mut IndexMap<String, ProfileConfig>, key: String, value: ProfileConfig)
    requires
        !has_key(profile_entries(*old(m)), key@),
    ensures
        profile_entries(*final(m)) == profile_entries(*old(m)).push((key@, value)),
{
    m.insert(key, value);
}

/// `IndexMap::new`: an empty map.
#[verifier::external_body]
pub fn dispatch_new() -> (m: IndexMap<String, DispatchRule>)
    ensures
        dispatch_entries(m) == Seq::<(Seq<char>, DispatchRule)>::empty(),
{
    IndexMap::new()
}

/// `IndexMap::len`: the number of entries.
#[verifier::external_body]
pub fn dispatch_len(m: &IndexMap<String, DispatchRule>) -> (n: usize)
    ensures
        n == dispatch_entries(*m).len(),
{
    m.len()
}

/// `IndexMap::get_index`: the entry at position `i`.
#[verifier::external_body]
pub fn dispatch_at(m: &IndexMap<String, DispatchRule>, i: usize) -> (r: (&String, &DispatchRule))
    requires
        i < dispatch_entries(*m).len(),
    ensures
        r.0@ == dispatch_entries(*m)[i as int].0,
        *r.1 == dispatch_entries(*m)[i as int].1,
{
    m.get_index(i).unwrap()
}

/// `IndexMap::get_index_of`: the position of `key`, the first entry with that key.
#[verifier::external_body]
pub fn dispatch_index_of(m: &IndexMap<String, DispatchRule>, key: &str) -> (r: Option<usize>)
    ensures
        r matches Some(i) ==> i < dispatch_entries(*m).len() && dispatch_entries(*m)[i as int].0 == key@
            && forall|j: int| 0 <= j < i ==> dispatch_entries(*m)[j].0 != key@,
        r is None ==> !has_key(dispatch_entries(*m), key@),
{
    m.get_index_of(key)
}

/// `IndexMap::insert` of a key the map does not hold: the entry goes last.
#[verifier::external_body]
pub fn dispatch_insert(m: &mut IndexMap<String, DispatchRule>, key: String, value: DispatchRule)
    requires
        !has_key(dispatch_entries(*old(m)), key@),
    ensures
        dispatch_entries(*final(m)) == dispatch_entries(*old(m)).push((key@, value)),
{
    m.insert(key, value);
}

/// `IndexMap::shift_insert(0, ..)` of a key the map does not hold: the entry
/// goes first and the others shift back by one.
#[verifier::external_body]
pub fn dispatch_insert_first(m: &mut IndexMap<String, DispatchRule>, key: String, value: DispatchRule)
    requires
        !has_key(dispatch_entries(*old(m)), key@),
    ensures
        dispatch_entries(*final(m)) == seq![(key@, value)] + dispatch_entries(*old(m)),
{
    m.shift_insert(0, key, value);
}

} // verus!
