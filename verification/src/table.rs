//! The table of nodes that a search has reached, in the order in which it
//! reached them, kept in an insertion-ordered hash map.

use vstd::prelude::*;
use indexmap::IndexMap;
use std::collections::hash_map::RandomState;

verus! {

/// A node as the table stores it: the value of the direction of arrival,
/// then the coordinate's `x` and `y`.
pub type NodeKey = (u8, i32, i32);

/// What the table holds for a node: the place of its parent in the table,
/// and the cost of the best way found to it.
pub type NodeValue = (usize, u64);

pub type NodeTable = IndexMap<NodeKey, NodeValue, RandomState>;

#[verifier::external_type_specification]
#[verifier::external_body]
#[verifier::reject_recursive_types(K)]
#[verifier::reject_recursive_types(V)]
#[verifier::reject_recursive_types(S)]
pub struct ExIndexMap<K, V, S>(IndexMap<K, V, S>);

/// The pairs of key and value that a table holds, in the order in which
/// their keys were first inserted.
pub uninterp spec fn table_entries(table: NodeTable) -> Seq<(NodeKey, NodeValue)>;

/// `IndexMap::new` of indexmap: a map without entries.
#[verifier::external_body]
pub(crate) fn table_new() -> (table: NodeTable)
    ensures
        table_entries(table).len() == 0,
{
    IndexMap::new()
}

/// `IndexMap::len` of indexmap: the number of entries.
#[verifier::external_body]
pub(crate) fn table_len(table: &NodeTable) -> (n: usize)
    ensures
        n == table_entries(*table).len(),
{
    table.len()
}

/// `IndexMap::get_index` of indexmap: the entry at a place in the order of
/// insertion, `None` from the number of entries upwards.
#[verifier::external_body]
pub(crate) fn table_get_index(table: &NodeTable, index: usize) -> (r: Option<(NodeKey, NodeValue)>)
    ensures
        index < table_entries(*table).len() ==> r == Some(table_entries(*table)[index as int]),
        index >= table_entries(*table).len() ==> r.is_none(),
{
    match table.get_index(index) {
        Some((key, value)) => Some((*key, *value)),
        None => None,
    }
}

/// `IndexMap::get_full` of indexmap: the place and the value of the entry
/// with an equal key, `None` where no entry has one.
#[verifier::external_body]
pub(crate) fn table_get_full(table: &NodeTable, key: &NodeKey) -> (r: Option<(usize, NodeValue)>)
    ensures
        match r {
            Some((index, value)) => index < table_entries(*table).len() && table_entries(
                *table,
            )[index as int] == (*key, value),
            None => forall|i: int|
                0 <= i < table_entries(*table).len() ==> (#[trigger] table_entries(*table)[i]).0
                    != *key,
        },
{
    match table.get_full(key) {
        Some((index, _, value)) => Some((index, *value)),
        None => None,
    }
}

/// `IndexMap::insert_full` of indexmap. Where an entry has an equal key, it
/// keeps its place and gets the new value, and the place is returned with
/// the old value. Where none has, the pair becomes the last entry, and its
/// place is returned with `None`.
#[verifier::external_body]
pub(crate) fn table_insert_full(table: &mut NodeTable, key: NodeKey, value: NodeValue) -> (r: (
    usize,
    Option<NodeValue>,
))
    ensures
        match r.1 {
            Some(before) => r.0 < table_entries(*old(table)).len() && table_entries(
                *old(table),
            )[r.0 as int] == (key, before) && table_entries(*final(table)) == table_entries(
                *old(table),
            ).update(r.0 as int, (key, value)),
            None => r.0 == table_entries(*old(table)).len() && (forall|i: int|
                0 <= i < table_entries(*old(table)).len() ==> (#[trigger] table_entries(
                    *old(table),
                )[i]).0 != key) && table_entries(*final(table)) == table_entries(
                *old(table),
            ).push((key, value)),
        },
{
    table.insert_full(key, value)
}

} // verus!
