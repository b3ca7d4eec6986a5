//! Trusted access to `serde_json` for the JSON object texts that app
//! environments and mask headers are stored as.

use std::collections::HashMap;
use vstd::prelude::*;

use crate::strmap::string_map;

verus! {

/// What `serde_json::from_str::<serde_json::Value>` makes of `text`:
/// `Err(message)` when it is not JSON, `Ok(None)` when it is JSON but not an
/// object, and `Ok(Some(entries))` for an object, its entries in the order
/// the parsed map iterates them, each value given as the string itself for a
/// JSON string and as its JSON text otherwise.
pub uninterp spec fn json_read(text: Seq<char>) -> Result<
    Option<Seq<(Seq<char>, Seq<char>)>>,
    Seq<char>,
>;

/// What `serde_json::from_str::<HashMap<String, String>>` makes of `text`:
/// the map when `text` is a JSON object whose values are all strings.
pub uninterp spec fn json_read_string_map(text: Seq<char>) -> Option<Map<Seq<char>, Seq<char>>>;

/// The text `serde_json::to_string` writes for the object built by
/// inserting `pairs` in order into a `serde_json::Map`, each value a JSON
/// string.
pub uninterp spec fn json_write_object(pairs: Seq<(Seq<char>, Seq<char>)>) -> Seq<char>;

pub open spec fn pairs_view(v: Seq<(String, String)>) -> Seq<(Seq<char>, Seq<char>)> {
    v.map_values(|p: (String, String)| (p.0@, p.1@))
}

/// Parses `text` with `serde_json::from_str::<serde_json::Value>` and reads
/// off the result as `json_read` describes it. The result is named, not
/// stated: JSON's grammar takes pages.
#[verifier::external_body]
pub(crate) fn read_json(text: &str) -> (r: Result<Option<Vec<(String, String)>>, String>)
    ensures
        match (r, json_read(text@)) {
            (Err(m), Err(n)) => m@ == n,
            (Ok(None), Ok(None)) => true,
            (Ok(Some(v)), Ok(Some(w))) => pairs_view(v@) == w,
            _ => false,
        },
{
    match serde_json::from_str::<serde_json::Value>(text) {
        Err(e) => Err(e.to_string()),
        Ok(serde_json::Value::Object(map)) => Ok(Some(map.iter().map(|(k, v)| (k.clone(), match v {
            serde_json::Value::String(s) => s.clone(),
            other => other.to_string(),
        })).collect())),
        Ok(_) => Ok(None),
    }
}

/// Parses `text` with `serde_json::from_str::<HashMap<String, String>>`.
#[verifier::external_body]
pub(crate) fn read_json_string_map(text: &str) -> (r: Option<HashMap<String, String>>)
    ensures
        r is Some <==> json_read_string_map(text@) is Some,
        r matches Some(m) ==> string_map(m) == json_read_string_map(text@)->Some_0,
{
    serde_json::from_str::<HashMap<String, String>>(text).ok()
}

/// Serializes the object made by inserting `pairs` in order into a
/// `serde_json::Map` (a later pair overwrites an earlier one of the same
/// key), each value a JSON string, with `serde_json::to_string`, which
/// fails only for a map with keys that are not strings, so never here.
#[verifier::external_body]
pub(crate) fn write_json_object(pairs: &Vec<(String, String)>) -> (r: Option<String>)
    ensures
        r is Some,
        r matches Some(s) ==> s@ == json_write_object(pairs_view(pairs@)),
{
    let mut map = serde_json::Map::new();
    for (k, v) in pairs {
        map.insert(k.clone(), serde_json::Value::String(v.clone()));
    }
    serde_json::to_string(&map).ok()
}

} // verus!
