//! Reaction collections, kept in the insertion-ordered sets and maps of the
//! `indexmap` crate.

use indexmap::IndexMap;
use indexmap::IndexSet;
use vstd::prelude::*;

verus! {

/// `indexmap::IndexSet`, of which nothing is known but what the functions
/// below say.
#[verifier::external_type_specification]
#[verifier::external_body]
#[verifier::reject_recursive_types(T)]
#[verifier::reject_recursive_types(S)]
pub struct ExIndexSet<T, S>(IndexSet<T, S>);

/// `indexmap::IndexMap`, of which nothing is known but what the functions
/// below say.
#[verifier::external_type_specification]
#[verifier::external_body]
#[verifier::reject_recursive_types(K)]
#[verifier::reject_recursive_types(V)]
#[verifier::reject_recursive_types(S)]
pub struct ExIndexMap<K, V, S>(IndexMap<K, V, S>);

/// `Clone` for `indexmap::IndexSet`, which the derived `Clone` of the types
/// that hold a set calls. Nothing is claimed of the copy.
pub assume_specification<T, S>[ <IndexSet<T, S> as Clone>::clone ](set: &IndexSet<T, S>) -> IndexSet<
    T,
    S,
> where T: Clone, S: Clone
;

/// `Clone` for `indexmap::IndexMap`, which the derived `Clone` of the types
/// that hold a map calls. Nothing is claimed of the copy.
pub assume_specification<K, V, S>[ <IndexMap<K, V, S> as Clone>::clone ](
    map: &IndexMap<K, V, S>,
) -> IndexMap<K, V, S> where K: Clone, V: Clone, S: Clone
;

/// The emoji that a reaction set holds.
pub uninterp spec fn reaction_set_items(set: IndexSet<String>) -> Set<Seq<char>>;

/// The emoji of a reaction map, each with the users who reacted with it.
pub uninterp spec fn reaction_map_entries(map: IndexMap<String, IndexSet<String>>) -> Map<
    Seq<char>,
    Set<Seq<char>>,
>;

/// Calls `indexmap::IndexSet::contains`. Not proved: that it answers whether
/// the text is among the set's items.
#[verifier::external_body]
pub(crate) fn reaction_set_contains(set: &IndexSet<String>, emoji: &str) -> (r: bool)
    ensures
        r == reaction_set_items(*set).contains(emoji@),
{
    set.contains(emoji)
}

/// Calls `indexmap::IndexMap::new`. Not proved: that the new map has no
/// entry.
#[verifier::external_body]
pub(crate) fn empty_reaction_map() -> (r: IndexMap<String, IndexSet<String>>)
    ensures
        reaction_map_entries(r).dom().is_empty(),
{
    IndexMap::new()
}

} // verus!
