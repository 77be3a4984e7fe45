//! Free-form metadata is JSON text; a parser outside says which texts are.

use vstd::prelude::*;

verus! {

/// What the JSON parser finds wrong with `text`, if anything.
pub uninterp spec fn json_fault(text: Seq<char>) -> Option<Seq<char>>;

/// Asks `serde_json::from_str` for a `serde_json::Value`; its error is handed on
/// as text.  Nothing is claimed but that its verdict on a text is always the same
/// one, named [`json_fault`].
#[verifier::external_body]
pub(crate) fn find_json_fault(text: &str) -> (r: Option<String>)
    ensures
        opt_view(r) == json_fault(text@),
{
    match serde_json::from_str::<serde_json::Value>(text) {
        Ok(_) => None,
        Err(e) => Some(e.to_string()),
    }
}

pub open spec fn opt_view(t: Option<String>) -> Option<Seq<char>> {
    match t {
        Some(s) => Some(s@),
        None => None,
    }
}

/// Why the metadata of a stored row cannot be read, if there is any that cannot.
pub open spec fn meta_fault(meta: Option<String>) -> Option<Seq<char>> {
    match meta {
        None => None,
        Some(text) => json_fault(text@),
    }
}

pub fn check_meta(meta: &Option<String>) -> (r: Option<String>)
    ensures
        opt_view(r) == meta_fault(*meta),
{
    match meta {
        None => None,
        Some(text) => find_json_fault(text.as_str()),
    }
}

} // verus!
