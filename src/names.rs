use vstd::prelude::*;

use crate::value::Index;
use linked_hash_map::LinkedHashMap;

verus! {

#[verifier::external_type_specification]
#[verifier::external_body]
#[verifier::reject_recursive_types(K)]
#[verifier::reject_recursive_types(V)]
#[verifier::reject_recursive_types(S)]
pub struct ExLinkedHashMap<K, V, S>(LinkedHashMap<K, V, S>);

/// An index from column names to column positions.
pub type NameIndex = LinkedHashMap<String, Index>;

/// What a name index holds: each column name, by its characters, with the
/// column's position.
pub uninterp spec fn name_entries(m: NameIndex) -> Map<Seq<char>, Index>;

/// Relies on `LinkedHashMap::new`: a map with no entries.
#[verifier::external_body]
pub(crate) fn names_new() -> (r: NameIndex)
    ensures
        name_entries(r).dom() == Set::<Seq<char>>::empty(),
{
    LinkedHashMap::new()
}

/// Relies on `LinkedHashMap::insert`: the entry for the key is added or
/// replaced; `String` keys compare by their characters.
#[verifier::external_body]
pub(crate) fn names_insert(m: &mut NameIndex, name: String, position: Index)
    ensures
        name_entries(*final(m)) == name_entries(*old(m)).insert(name@, position),
{
    m.insert(name, position);
}

/// Relies on `LinkedHashMap::get`: the value stored under a key with the
/// same characters, if there is one.
#[verifier::external_body]
pub(crate) fn names_get(m: &NameIndex, name: &String) -> (r: Option<Index>)
    ensures
        match r {
            Some(p) => name_entries(*m).contains_key(name@) && name_entries(*m)[name@] == p,
            None => !name_entries(*m).contains_key(name@),
        },
{
    m.get(name).copied()
}

} // verus!
