//! The ordered keyword map, kept in a Patricia tree.

use vstd::prelude::*;
use crate::order::strictly_ascending;
use crate::record::MDictRecordIndex;
use patricia_tree::PatriciaMap;

verus! {

/// What a keyword maps to: the number of the file that holds the record,
/// and the record's place in that file.
pub type Located = (u8, MDictRecordIndex);

/// Declares the map of `patricia_tree`. Nothing is known of what is
/// inside a map but through [`map_entries`].
#[verifier::external_type_specification]
#[verifier::external_body]
#[verifier::reject_recursive_types(K)]
#[verifier::reject_recursive_types(V)]
pub struct ExGenericPatriciaMap<K, V>(patricia_tree::GenericPatriciaMap<K, V>);

/// The entries that a keyword map holds.
pub uninterp spec fn map_entries(map: PatriciaMap<Located>) -> Map<Seq<u8>, Located>;

/// The entries of a map that holds nothing.
pub open spec fn empty_entries() -> Map<Seq<u8>, Located> {
    Map::empty()
}

/// The keys of `keys`, each by its view.
pub open spec fn key_views(keys: Seq<Vec<u8>>) -> Seq<Seq<u8>> {
    Seq::new(keys.len(), |i: int| keys[i]@)
}

/// Calls `PatriciaMap::new`: an empty map.
#[verifier::external_body]
pub(crate) fn map_new() -> (res: PatriciaMap<Located>)
    ensures
        map_entries(res) == empty_entries(),
{
    PatriciaMap::new()
}

/// Calls `PatriciaMap::insert`: the map then holds `value` under `key`,
/// in place of what it held there, and its other entries as before.
#[verifier::external_body]
pub(crate) fn map_insert(map: &mut PatriciaMap<Located>, key: &[u8], value: Located)
    ensures
        map_entries(*final(map)) == map_entries(*old(map)).insert(key@, value),
{
    map.insert(key, value);
}

/// Calls `PatriciaMap::get`: the value held under `key`, if there is one.
#[verifier::external_body]
pub(crate) fn map_get(map: &PatriciaMap<Located>, key: &[u8]) -> (res: Option<Located>)
    ensures
        res == if map_entries(*map).contains_key(key@) {
            Some(map_entries(*map)[key@])
        } else {
            None
        },
{
    map.get(key).copied()
}

/// Calls `PatriciaMap::keys`, which walks the keys in sorted order: every
/// key of the map once, each before the keys that follow it bytewise.
#[verifier::external_body]
pub(crate) fn map_keys(map: &PatriciaMap<Located>) -> (keys: Vec<Vec<u8>>)
    ensures
        key_views(keys@).to_set() == map_entries(*map).dom(),
        strictly_ascending(key_views(keys@)),
{
    map.keys().collect()
}

} // verus!
