//! Ordered maps from text to text, as configuration hands them in.
//!
//! The bindings of an environment, from public name to entry point, and the
//! packages of a request, from name to specifier, arrive as ordered maps.
//! Such a map is read here as the sequence of its entries.

use crate::text::views;
use indexmap::IndexMap;
use vstd::prelude::*;

verus! {

/// `indexmap::IndexMap`, a hash map whose entries have an order of their own:
/// the one in which they were inserted, as long as none is removed. Nothing
/// of its layout is known here.
#[verifier::external_type_specification]
#[verifier::external_body]
#[verifier::reject_recursive_types(K)]
#[verifier::reject_recursive_types(V)]
#[verifier::reject_recursive_types(S)]
pub struct ExIndexMap<K, V, S>(IndexMap<K, V, S>);

/// The entries of a map, key and value, in the order of the map.
pub uninterp spec fn map_entries(map: IndexMap<String, String>) -> Seq<(Seq<char>, Seq<char>)>;

/// Whether no key occurs twice among `entries`.
pub open spec fn keys_distinct(entries: Seq<(Seq<char>, Seq<char>)>) -> bool {
    forall|i: int, j: int|
        0 <= i < j < entries.len() ==> (#[trigger] entries[i]).0 != (#[trigger] entries[j]).0
}

/// Copies the entries of `map` out, in the order of the map.
///
/// Walks `IndexMap::iter`, which yields the key-value pairs of the map in
/// their order, each pair once, and clones key and value. The contract names
/// what comes out and states the one thing every map guarantees of it: no two
/// entries have the same key.
#[verifier::external_body]
pub(crate) fn entries_of(map: &IndexMap<String, String>) -> (entries: Vec<(String, String)>)
    ensures
        views(entries@) == map_entries(*map),
        keys_distinct(views(entries@)),
{
    map.iter().map(|(key, value)| (key.clone(), value.clone())).collect()
}

} // verus!
