//! The trusted surface over `indexmap`'s ordered map.
//!
//! The configuration is an insertion-ordered mapping; `indexmap::IndexMap`
//! supplies it.  Its contents are named by two uninterpreted sequence
//! functions, one per instantiation, and the few methods the conversion
//! logic reads are wrapped with contracts over those names.

use crate::structure::{EnvVariableOption, EnvVariableValue};
use indexmap::IndexMap;
use vstd::prelude::*;

verus! {

#[verifier::external_type_specification]
#[verifier::external_body]
#[verifier::reject_recursive_types(K)]
#[verifier::reject_recursive_types(V)]
#[verifier::reject_recursive_types(S)]
pub struct ExIndexMap<K, V, S>(IndexMap<K, V, S>);

/// The entries of a configuration map, as (key characters, entry) pairs in
/// insertion order.
pub uninterp spec fn env_entries(m: IndexMap<String, EnvVariableOption>) -> Seq<
    (Seq<char>, EnvVariableOption),
>;

/// The entries of a per-dialect override map, as (key characters, value)
/// pairs in insertion order.
pub uninterp spec fn value_entries(m: IndexMap<String, EnvVariableValue>) -> Seq<
    (Seq<char>, EnvVariableValue),
>;

/// The value of the first entry whose key is `key`, if any.  A map holds each
/// key at most once, so this is the entry for `key`.
pub open spec fn lookup<V>(entries: Seq<(Seq<char>, V)>, key: Seq<char>) -> Option<V>
    decreases entries.len(),
{
    if entries.len() == 0 {
        None
    } else if entries[0].0 == key {
        Some(entries[0].1)
    } else {
        lookup(entries.drop_first(), key)
    }
}

pub proof fn lemma_lookup_absent<V>(entries: Seq<(Seq<char>, V)>, key: Seq<char>)
    requires
        forall|i: int| 0 <= i < entries.len() ==> entries[i].0 != key,
    ensures
        lookup(entries, key) is None,
    decreases entries.len(),
{
    if entries.len() > 0 {
        lemma_lookup_absent(entries.drop_first(), key);
    }
}

/// Relies on `IndexMap::len`: the number of entries in the map.
#[verifier::external_body]
pub fn env_len(m: &IndexMap<String, EnvVariableOption>) -> (n: usize)
    ensures
        n == env_entries(*m).len(),
{
    m.len()
}

/// Relies on `IndexMap::get_index`: the key-value pair at one position in
/// insertion order; `Some` for every index below the length.
#[verifier::external_body]
pub fn env_entry_at<'a>(m: &'a IndexMap<String, EnvVariableOption>, i: usize) -> (r: (
    &'a String,
    &'a EnvVariableOption,
))
    requires
        i < env_entries(*m).len(),
    ensures
        r.0@ == env_entries(*m)[i as int].0,
        *r.1 == env_entries(*m)[i as int].1,
{
    let (k, v) = m.get_index(i).unwrap();
    (k, v)
}

/// Relies on `IndexMap::get`: a reference to the value stored for the key,
/// if the key is present, else `None`.
#[verifier::external_body]
pub fn value_get<'a>(m: &'a IndexMap<String, EnvVariableValue>, key: &str) -> (r: Option<
    &'a EnvVariableValue,
>)
    ensures
        match r {
            Some(v) => lookup(value_entries(*m), key@) == Some(*v),
            None => lookup(value_entries(*m), key@) is None,
        },
{
    m.get(key)
}

} // verus!
