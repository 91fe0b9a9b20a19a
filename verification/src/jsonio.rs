//! Trusted names and readers for collaborator answers as JSON.
//!
//! Parsing and every read of the parsed document are functions of the
//! answer text alone, so each read is given a name; the readers' contracts
//! tie what they hand back to those names, and the handler modules state
//! their own contracts over them.

use vstd::prelude::*;

verus! {

/// Whether the text parses as one JSON document.
pub uninterp spec fn json_wf(body: Seq<char>) -> bool;

/// Whether the parsed document holds a value at the given JSON pointer
/// path; false where the text does not parse.
pub uninterp spec fn json_has(body: Seq<char>, path: Seq<char>) -> bool;

/// The text of the string value at the path; `None` where the document
/// does not parse, the path is absent, or the value is not a string.
pub uninterp spec fn json_str_of(body: Seq<char>, path: Seq<char>) -> Option<Seq<char>>;

/// The element count of the array at the path; `None` where the document
/// does not parse, the path is absent, or the value is not an array.
pub uninterp spec fn json_array_len_of(body: Seq<char>, path: Seq<char>) -> Option<int>;

/// Relies on `serde_json::from_str`: whether the text parses as one JSON
/// document; a failure carries the parser's diagnostic line.
#[verifier::external_body]
pub(crate) fn parse_json_check(body: &str) -> (r: Result<(), String>)
    ensures
        (r is Ok) == json_wf(body@),
{
    match serde_json::from_str::<serde_json::Value>(body) {
        Ok(_) => Ok(()),
        Err(e) => Err(e.to_string()),
    }
}

/// Relies on `serde_json::from_str` and `Value::pointer`: whether the
/// parsed document holds a value at the path.
#[verifier::external_body]
pub(crate) fn json_has_path(body: &str, path: &str) -> (r: bool)
    ensures
        r == json_has(body@, path@),
{
    match serde_json::from_str::<serde_json::Value>(body) {
        Ok(v) => v.pointer(path).is_some(),
        Err(_) => false,
    }
}

/// Relies on `serde_json::from_str`, `Value::pointer` and
/// `Value::as_str`: the text of the string value at the path.
#[verifier::external_body]
pub(crate) fn json_read_str(body: &str, path: &str) -> (r: Option<String>)
    ensures
        r matches Some(t) ==> json_str_of(body@, path@) == Some(t@),
        r is None ==> json_str_of(body@, path@) is None,
{
    let parsed: serde_json::Value = serde_json::from_str(body).ok()?;
    Some(parsed.pointer(path)?.as_str()?.to_string())
}

/// Relies on `serde_json::from_str`, `Value::pointer` and
/// `Value::as_array`: the element count of the array at the path.
#[verifier::external_body]
pub(crate) fn json_array_len(body: &str, path: &str) -> (r: Option<usize>)
    ensures
        r matches Some(n) ==> json_array_len_of(body@, path@) == Some(n as int),
        r is None ==> json_array_len_of(body@, path@) is None,
{
    let parsed: serde_json::Value = serde_json::from_str(body).ok()?;
    Some(parsed.pointer(path)?.as_array()?.len())
}

} // verus!
