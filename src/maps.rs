use std::sync::Arc;
use indexmap::IndexMap;
use vstd::prelude::*;
use crate::condition::BoxCondition;
use crate::event::{ArgView, CheckFieldsPredicateArg};

verus! {

#[verifier::external_type_specification]
#[verifier::external_body]
#[verifier::reject_recursive_types(K)]
#[verifier::reject_recursive_types(V)]
#[verifier::reject_recursive_types(S)]
pub struct ExIndexMap<K, V, S>(IndexMap<K, V, S>);

/// Built conditions by name, as handed to composite conditions.
pub type Siblings = IndexMap<String, Arc<BoxCondition>>;

/// A flat map of scalars, in the order its entries were written.
pub type ArgMap = IndexMap<String, CheckFieldsPredicateArg>;

/// The named conditions that a map of siblings holds.
pub uninterp spec fn sibling_map(m: Siblings) -> Map<Seq<char>, BoxCondition>;

/// The entries of a map of scalars, in their order.
pub uninterp spec fn arg_entries(m: ArgMap) -> Seq<(Seq<char>, ArgView)>;

/// The value of the first entry under `k`: an `IndexMap` holds each key once.
pub open spec fn entry_value(s: Seq<(Seq<char>, ArgView)>, k: Seq<char>) -> Option<ArgView>
    decreases s.len(),
{
    if s.len() == 0 {
        None
    } else if s[0].0 == k {
        Some(s[0].1)
    } else {
        entry_value(s.drop_first(), k)
    }
}

/// Relies on IndexMap::new: a map with no entries.
#[verifier::external_body]
pub(crate) fn new_siblings() -> (r: Siblings)
    ensures
        sibling_map(r).dom() =~= Set::empty(),
{
    IndexMap::new()
}

/// Relies on IndexMap::insert: afterwards `k` maps to `v`, other keys as before.
#[verifier::external_body]
pub(crate) fn insert_sibling(m: &mut Siblings, k: String, v: Arc<BoxCondition>)
    ensures
        sibling_map(*final(m)) == sibling_map(*old(m)).insert(k@, *v),
{
    m.insert(k, v);
}

/// Relies on IndexMap::get: the value stored under `k`, if any.
#[verifier::external_body]
pub(crate) fn get_sibling<'a>(m: &'a Siblings, k: &str) -> (r: Option<&'a Arc<BoxCondition>>)
    ensures
        r is Some == sibling_map(*m).contains_key(k@),
        r matches Some(c) ==> sibling_map(*m)[k@] == **c,
{
    m.get(k)
}

/// Relies on IndexMap::len: the number of entries.
#[verifier::external_body]
pub(crate) fn arg_len(m: &ArgMap) -> (r: usize)
    ensures
        r == arg_entries(*m).len(),
{
    m.len()
}

/// Relies on IndexMap::get_index: the entry at position `i`, in insertion order.
#[verifier::external_body]
pub(crate) fn arg_at(m: &ArgMap, i: usize) -> (r: Option<(&String, &CheckFieldsPredicateArg)>)
    ensures
        r is Some == (i < arg_entries(*m).len()),
        r matches Some(p) ==> arg_entries(*m)[i as int] == (p.0@, p.1@),
{
    m.get_index(i)
}

/// Relies on IndexMap::get: the value stored under `k`, if any.
#[verifier::external_body]
pub(crate) fn arg_get<'a>(m: &'a ArgMap, k: &str) -> (r: Option<&'a CheckFieldsPredicateArg>)
    ensures
        r is Some == (entry_value(arg_entries(*m), k@) is Some),
        r matches Some(v) ==> entry_value(arg_entries(*m), k@) == Some(v@),
{
    m.get(k)
}

/// Relies on IndexMap::shift_remove: the entry under `k` goes, the others keep
/// their order.
#[verifier::external_body]
pub(crate) fn arg_remove(m: &mut ArgMap, k: &str)
    ensures
        arg_entries(*final(m)) == arg_entries(*old(m)).filter(|e: (Seq<char>, ArgView)| e.0 != k@),
{
    m.shift_remove(k);
}

} // verus!
