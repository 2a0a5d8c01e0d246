//! The ordered key index of a record map, kept in an `IndexMap`.

use indexmap::IndexMap;
use vstd::prelude::*;

verus! {

/// `indexmap::IndexMap`, carried through as an opaque value.
#[verifier::external_type_specification]
#[verifier::external_body]
#[verifier::reject_recursive_types(K)]
#[verifier::reject_recursive_types(V)]
#[verifier::reject_recursive_types(S)]
pub struct ExIndexMap<K, V, S>(IndexMap<K, V, S>);

/// The key-value pairs of a map, in the map's order.
pub uninterp spec fn index_entries(map: IndexMap<String, usize>) -> Seq<(Seq<char>, usize)>;

/// `IndexMap::new`: a map without entries.
#[verifier::external_body]
pub(crate) fn index_new() -> (map: IndexMap<String, usize>)
    ensures
        index_entries(map) == Seq::<(Seq<char>, usize)>::empty(),
{
    IndexMap::new()
}

/// `IndexMap::get`: the value stored for a key, or `None` where no entry
/// has that key.
#[verifier::external_body]
pub(crate) fn index_get(map: &IndexMap<String, usize>, key: &str) -> (r: Option<usize>)
    ensures
        match r {
            Some(v) => exists|i: int|
                0 <= i < index_entries(*map).len() && #[trigger] index_entries(*map)[i] == (
                    key@,
                    v,
                ),
            None => forall|i: int|
                0 <= i < index_entries(*map).len() ==> (#[trigger] index_entries(*map)[i]).0
                    != key@,
        },
{
    map.get(key).copied()
}

/// `IndexMap::insert` of a key that the map does not hold: the pair is
/// added last in order.
#[verifier::external_body]
pub(crate) fn index_insert(map: &mut IndexMap<String, usize>, key: String, value: usize)
    requires
        forall|i: int|
            0 <= i < index_entries(*old(map)).len() ==> (#[trigger] index_entries(
                *old(map),
            )[i]).0 != key@,
    ensures
        index_entries(*final(map)) == index_entries(*old(map)).push((key@, value)),
{
    map.insert(key, value);
}

/// `IndexMap::get_index`: the key of the entry at a position, or `None`
/// where the position is past the last entry.
#[verifier::external_body]
pub(crate) fn index_key_at(map: &IndexMap<String, usize>, position: usize) -> (r: Option<String>)
    ensures
        match r {
            Some(key) => position < index_entries(*map).len() && key@ == index_entries(
                *map,
            )[position as int].0,
            None => position >= index_entries(*map).len(),
        },
{
    map.get_index(position).map(|(key, _)| key.clone())
}

} // verus!
