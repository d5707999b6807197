//! Reading JSON text, one layer at a time, with `serde_json`.
//!
//! The library never walks a parsed document. It asks for the members of an
//! object as texts, and for a text as a string, a number or a list of bytes;
//! which members a license needs, and what they mean, is decided by verified
//! code from those answers.

use crate::features::{listing_of, Listing};
use vstd::prelude::*;

verus! {

/// The error of `serde_json`, carried through unopened.
#[verifier::external_type_specification]
#[verifier::external_body]
pub struct ExJsonError(serde_json::Error);

/// What `serde_json` makes of a text as an object: its members, each value
/// as JSON text again, or nothing where the text is no object.
pub uninterp spec fn json_members(text: Seq<char>) -> Option<Listing>;

/// What `serde_json` makes of a text as a string, or nothing where the text
/// is no string.
pub uninterp spec fn json_string(text: Seq<char>) -> Option<Seq<char>>;

/// What `serde_json` makes of a text as an unsigned number of 64 bits, or
/// nothing where the text is none.
pub uninterp spec fn json_number(text: Seq<char>) -> Option<u64>;

/// What `serde_json` makes of a text as a list of bytes, or nothing where the
/// text is none.
pub uninterp spec fn json_bytes(text: Seq<char>) -> Option<Seq<u8>>;

/// Reads a JSON object and hands out its members, each value as compact JSON
/// text.
///
/// Trusted: stands for `serde_json::from_str` at the type of a map from
/// strings to `serde_json::Value`, and for the `Display` of `Value`. The
/// result is named, not described: it is `json_members` of the text.
#[verifier::external_body]
pub(crate) fn read_members(text: &str) -> (r: Result<Vec<(String, String)>, serde_json::Error>)
    ensures
        match r {
            Ok(m) => json_members(text@) == Some(listing_of(m@)),
            Err(_) => json_members(text@) is None,
        },
{
    let members: std::collections::BTreeMap<String, serde_json::Value> = serde_json::from_str(
        text,
    )?;
    Ok(members.into_iter().map(|(name, value)| (name, value.to_string())).collect())
}

/// Reads a JSON string.
///
/// Trusted: stands for `serde_json::from_str` at the type `String`. The
/// result is named, not described: it is `json_string` of the text.
#[verifier::external_body]
pub(crate) fn read_string(text: &str) -> (r: Result<String, serde_json::Error>)
    ensures
        match r {
            Ok(s) => json_string(text@) == Some(s@),
            Err(_) => json_string(text@) is None,
        },
{
    serde_json::from_str::<String>(text)
}

/// Reads a JSON number without sign, fraction or exponent.
///
/// Trusted: stands for `serde_json::from_str` at the type `u64`. The result
/// is named, not described: it is `json_number` of the text.
#[verifier::external_body]
pub(crate) fn read_number(text: &str) -> (r: Result<u64, serde_json::Error>)
    ensures
        match r {
            Ok(n) => json_number(text@) == Some(n),
            Err(_) => json_number(text@) is None,
        },
{
    serde_json::from_str::<u64>(text)
}

/// Reads a JSON array of numbers from 0 to 255.
///
/// Trusted: stands for `serde_json::from_str` at the type `Vec<u8>`. The
/// result is named, not described: it is `json_bytes` of the text.
#[verifier::external_body]
pub(crate) fn read_bytes(text: &str) -> (r: Result<Vec<u8>, serde_json::Error>)
    ensures
        match r {
            Ok(b) => json_bytes(text@) == Some(b@),
            Err(_) => json_bytes(text@) is None,
        },
{
    serde_json::from_str::<Vec<u8>>(text)
}

/// The message of a text that could not be read.
///
/// Trusted: stands for the `Display` of `serde_json::Error`. Nothing is said
/// of the text.
#[verifier::external_body]
pub(crate) fn json_error_message(e: &serde_json::Error) -> (r: String) {
    e.to_string()
}

} // verus!
