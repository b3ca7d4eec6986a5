//! Trusted access to `HashMap<String, String>`, the string-to-string maps
//! that template values and mask headers are kept in.
//!
//! vstd models `HashMap` only for keys that obey its key model, which
//! `String` does not; these wrappers state what std documents of each call
//! over one name for the map's contents.

use std::collections::HashMap;
use vstd::prelude::*;

verus! {

/// What a `HashMap<String, String>` holds, keys and values by their views.
pub uninterp spec fn string_map(m: HashMap<String, String>) -> Map<Seq<char>, Seq<char>>;

/// `HashMap::new`: an empty map.
#[verifier::external_body]
pub(crate) fn map_new() -> (fresh: HashMap<String, String>)
    ensures
        string_map(fresh).dom() == Set::<Seq<char>>::empty(),
{
    HashMap::new()
}

/// `HashMap::insert`: afterwards `k` maps to `v` and every other key is
/// unchanged (the previous value, if any, is dropped).
#[verifier::external_body]
pub(crate) fn map_insert(m: &mut HashMap<String, String>, k: String, v: String)
    ensures
        string_map(*final(m)) == string_map(*old(m)).insert(k@, v@),
{
    m.insert(k, v);
}

/// `HashMap::get`: the value stored under `k`, if any.
#[verifier::external_body]
pub(crate) fn map_get<'a>(m: &'a HashMap<String, String>, k: &str) -> (r: Option<&'a String>)
    ensures
        r is Some <==> string_map(*m).dom().contains(k@),
        r matches Some(v) ==> v@ == string_map(*m)[k@],
{
    m.get(k)
}

/// `HashMap::contains_key`.
#[verifier::external_body]
pub(crate) fn map_contains(m: &HashMap<String, String>, k: &str) -> (b: bool)
    ensures
        b == string_map(*m).dom().contains(k@),
{
    m.contains_key(k)
}

/// The entries of the map, copied out in the map's iteration order.
///
/// That order depends on the hasher's per-process seed, so nothing is
/// stated of it: only that each key appears once, that every entry is in
/// the map and that every key of the map appears.
#[verifier::external_body]
pub(crate) fn map_entries(m: &HashMap<String, String>) -> (r: Vec<(String, String)>)
    ensures
        forall|i: int|
            0 <= i < r.len() ==> #[trigger] string_map(*m).dom().contains(r[i].0@)
                && string_map(*m)[r[i].0@] == r[i].1@,
        forall|i: int, j: int| 0 <= i < j < r.len() ==> r[i].0@ != r[j].0@,
        forall|k: Seq<char>|
            #[trigger] string_map(*m).dom().contains(k) ==> exists|i: int|
                0 <= i < r.len() && r[i].0@ == k,
{
    m.iter().map(|(k, v)| (k.clone(), v.clone())).collect()
}

} // verus!
