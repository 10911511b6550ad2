//! Reading the text of a secret as a JSON object of strings.

use crate::values::{pair_texts, pairs_to_map};
use vstd::prelude::*;

verus! {

/// `serde_json::Error`: why a text could not be read. It is handed on and
/// never looked into.
#[verifier::external_type_specification]
#[verifier::external_body]
pub struct ExJsonError(serde_json::Error);

/// What `serde_json::from_str` gives for a text when it is asked for a
/// `HashMap<String, String>`: the map, or `None` where it gives an error.
pub uninterp spec fn json_string_map(text: Seq<char>) -> Option<Map<Seq<char>, Seq<char>>>;

/// Calls `serde_json::from_str` for a `HashMap<String, String>` and hands
/// the map out as the list of its entries, in no particular order.
///
/// Believed, not proved: the call answers a text in one way only, so that
/// its answer is `json_string_map` of the text. Where it gives a map, the
/// entries handed out are those of that map; it gives an error exactly
/// where `json_string_map` is `None`.
#[verifier::external_body]
pub(crate) fn parse_string_map(text: &str) -> (parsed: Result<
    Vec<(String, String)>,
    serde_json::Error,
>)
    ensures
        match parsed {
            Ok(pairs) => json_string_map(text@) == Some(pairs_to_map(pair_texts(pairs@))),
            Err(_) => json_string_map(text@) is None,
        },
{
    let object: Result<std::collections::HashMap<String, String>, serde_json::Error> =
        serde_json::from_str(text);
    match object {
        Ok(object) => Ok(object.into_iter().collect()),
        Err(e) => Err(e),
    }
}

} // verus!
