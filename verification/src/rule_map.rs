//! Named rule lists in insertion order: what this crate assumes of
//! `indexmap::IndexMap`.

use vstd::prelude::*;
use crate::text::texts_of;

verus! {

/// `indexmap::IndexMap`: a map that keeps its entries in the order in which
/// their keys were first inserted.
#[verifier::external_type_specification]
#[verifier::external_body]
#[verifier::reject_recursive_types(K)]
#[verifier::reject_recursive_types(V)]
#[verifier::reject_recursive_types(S)]
pub struct ExIndexMap<K, V, S>(indexmap::IndexMap<K, V, S>);

/// One named list of rules, as a value.
pub type RuleSetModel = (Seq<char>, Seq<Seq<char>>);

/// The entries of a map, in its order: each key with its list.
pub uninterp spec fn rule_map_entries(map: indexmap::IndexMap<String, Vec<String>>) -> Seq<
    RuleSetModel,
>;

/// The index of the entry with the given key, or the number of entries if
/// there is none.
pub open spec fn key_index(entries: Seq<RuleSetModel>, key: Seq<char>) -> int
    decreases entries.len(),
{
    if entries.len() == 0 || entries[0].0 == key {
        0
    } else {
        1 + key_index(entries.drop_first(), key)
    }
}

/// The entries after `key` has been given the list `value`: an entry with
/// that key keeps its place and gets the new list; a new key goes last.
pub open spec fn entries_with(
    entries: Seq<RuleSetModel>,
    key: Seq<char>,
    value: Seq<Seq<char>>,
) -> Seq<RuleSetModel> {
    let i = key_index(entries, key);
    if 0 <= i < entries.len() {
        entries.update(i, (key, value))
    } else {
        entries.push((key, value))
    }
}

/// `IndexMap::clone`: a map with the same entries in the same order.
pub assume_specification<K, V, S>[ <indexmap::IndexMap<K, V, S> as Clone>::clone ](
    map: &indexmap::IndexMap<K, V, S>,
) -> (r: indexmap::IndexMap<K, V, S>) where K: Clone, V: Clone, S: Clone
    ensures
        r == *map,
;

/// `IndexMap::new`: a map without entries.
#[verifier::external_body]
pub(crate) fn rule_map_new() -> (r: indexmap::IndexMap<String, Vec<String>>)
    ensures
        rule_map_entries(r) == Seq::<RuleSetModel>::empty(),
{
    indexmap::IndexMap::new()
}

/// `IndexMap::insert`: gives `key` the list `value`. A key that is already
/// in the map keeps its place in the order; a new key goes last.
#[verifier::external_body]
pub(crate) fn rule_map_insert(
    map: &mut indexmap::IndexMap<String, Vec<String>>,
    key: String,
    value: Vec<String>,
)
    ensures
        rule_map_entries(*final(map)) == entries_with(
            rule_map_entries(*old(map)),
            key@,
            texts_of(value@),
        ),
{
    map.insert(key, value);
}

/// `IndexMap::is_empty`: whether the map has no entries.
#[verifier::external_body]
pub(crate) fn rule_map_is_empty(map: &indexmap::IndexMap<String, Vec<String>>) -> (r: bool)
    ensures
        r == (rule_map_entries(*map).len() == 0),
{
    map.is_empty()
}

/// `IndexMap::iter`: the entries in the map's order, copied out.
#[verifier::external_body]
pub(crate) fn rule_map_to_vec(map: &indexmap::IndexMap<String, Vec<String>>) -> (r: Vec<
    (String, Vec<String>),
>)
    ensures
        r@.len() == rule_map_entries(*map).len(),
        forall|i: int|
            0 <= i < r@.len() ==> (#[trigger] r@[i]).0@ == rule_map_entries(*map)[i].0
                && texts_of(r@[i].1@) == rule_map_entries(*map)[i].1,
{
    map.iter().map(|(k, v)| (k.clone(), v.clone())).collect()
}

} // verus!
