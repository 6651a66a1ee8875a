//! The form in which fragments travel to and from a transformer: UTF-8
//! text that holds one JSON object whose values are all strings.
//!
//! Reading and writing JSON is left to `serde_json`. What it computes is
//! not proved here: the functions of this module state what they rely on.

use std::collections::{BTreeMap, HashMap};
use vstd::prelude::*;
use vstd::utf8::{decode_utf8, valid_utf8};
use crate::fragments::{distinct_names, pair_views, pairs_map};

verus! {

/// The mapping that `serde_json` reads from the JSON text `text` when asked
/// for a map from strings to strings, or `None` where it reports an error:
/// where `text` is no JSON, is no object, or holds a value that is no
/// string.
pub uninterp spec fn json_object(text: Seq<char>) -> Option<Map<Seq<char>, Seq<char>>>;

/// The JSON text that `serde_json` writes for a map from strings to
/// strings whose entries it is given in the order of their keys, as a
/// `BTreeMap` gives them.
pub uninterp spec fn json_text(object: Map<Seq<char>, Seq<char>>) -> Seq<char>;

/// Calls `serde_json::from_str` for a `HashMap<String, String>` and hands
/// out the entries of the map it returns, in no particular order.
///
/// Assumed: what comes back depends on `text` alone. The entries are those
/// of `json_object(text)`, and there are none exactly where `from_str`
/// returns an error.
#[verifier::external_body]
pub(crate) fn decode_object(text: &str) -> (pairs: Option<Vec<(String, String)>>)
    ensures
        match pairs {
            Some(pairs) => json_object(text@) == Some(pairs_map(pair_views(pairs@))),
            None => json_object(text@) is None,
        },
{
    match serde_json::from_str::<HashMap<String, String>>(text) {
        Ok(object) => Some(object.into_iter().collect()),
        Err(_) => None,
    }
}

/// Calls `serde_json::to_string` on the pairs as a `BTreeMap`, in which
/// each pair is one entry, since no name occurs twice.
///
/// Assumed: the call succeeds, and the text depends on the mapping alone
/// that the pairs denote. It succeeds because the keys are strings, the
/// map's own `Serialize` fails only where the serializer does, and the
/// serializer, which writes into a `Vec`, fails only where a write does.
#[verifier::external_body]
pub(crate) fn encode_object(pairs: &Vec<(String, String)>) -> (text: Option<String>)
    requires
        distinct_names(pair_views(pairs@)),
    ensures
        text matches Some(text) && text@ == json_text(pairs_map(pair_views(pairs@))),
{
    let object: BTreeMap<&str, &str> = pairs.iter().map(
        |pair| (pair.0.as_str(), pair.1.as_str()),
    ).collect();
    serde_json::to_string(&object).ok()
}

/// Calls `String::from_utf8`.
///
/// Assumed: it returns the text that the bytes encode where they are
/// valid UTF-8, and an error where they are not.
#[verifier::external_body]
pub(crate) fn decode_text(bytes: Vec<u8>) -> (text: Option<String>)
    ensures
        match text {
            Some(text) => valid_utf8(bytes@) && text@ == decode_utf8(bytes@),
            None => !valid_utf8(bytes@),
        },
{
    String::from_utf8(bytes).ok()
}

} // verus!
