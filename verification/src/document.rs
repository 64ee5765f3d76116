//! The vault's document: the name-to-secret mapping as one JSON object of
//! strings, which is what gets encrypted. `serde_json` writes and reads it.

use crate::entries::distinct_names;
use crate::entries::entries_map;
use vstd::prelude::*;

verus! {

/// What `serde_json::from_str` reads a text as when asked for a map from
/// strings to strings: `None` where it reports an error. The text has to be
/// one JSON object whose values are all strings, with nothing but white
/// space around it.
pub uninterp spec fn json_object(text: Seq<char>) -> Option<Map<Seq<char>, Seq<char>>>;

/// The JSON text that `serde_json::to_string` writes for a map from strings
/// to strings kept in key order: `None` where it reports an error.
pub uninterp spec fn json_text(entries: Map<Seq<char>, Seq<char>>) -> Option<Seq<char>>;

/// The error of `serde_json`.
#[verifier::external_type_specification]
#[verifier::external_body]
pub struct ExJsonError(serde_json::Error);

/// Calls `serde_json::from_str` for a `BTreeMap<String, String>` and hands
/// out the map's entries.
///
/// Trusted: whether the call succeeds and what map it gives depend on the
/// text alone; a map holds each key once.
#[verifier::external_body]
pub(crate) fn parse_entries(text: &str) -> (r: Result<Vec<(String, String)>, serde_json::Error>)
    ensures
        match r {
            Ok(entries) => {
                &&& distinct_names(entries@)
                &&& json_object(text@) == Some(entries_map(entries@))
            },
            Err(_) => json_object(text@) is None,
        },
{
    let map: std::collections::BTreeMap<String, String> = serde_json::from_str(text)?;
    Ok(map.into_iter().collect())
}

/// Collects the entries into a `BTreeMap` and calls `serde_json::to_string`
/// on it.
///
/// The entries must carry distinct names, so that the map holds each of
/// them and nothing rests on which of two equal keys a map keeps.
///
/// Trusted: whether the call succeeds and what text it writes depend on the
/// map alone, and the text that it writes is one that `serde_json::from_str`
/// reads back as the same map, as the documentation of `serde` shows by
/// example.
#[verifier::external_body]
pub(crate) fn render_entries(entries: &Vec<(String, String)>) -> (r: Result<
    String,
    serde_json::Error,
>)
    requires
        distinct_names(entries@),
    ensures
        match r {
            Ok(text) => {
                &&& json_text(entries_map(entries@)) == Some(text@)
                &&& json_object(text@) == Some(entries_map(entries@))
            },
            Err(_) => json_text(entries_map(entries@)) is None,
        },
{
    let map: std::collections::BTreeMap<&str, &str> = entries.iter().map(
        |e| (e.0.as_str(), e.1.as_str()),
    ).collect();
    serde_json::to_string(&map)
}

} // verus!
