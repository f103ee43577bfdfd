//! JSON texts read with `serde_json`.
use vstd::prelude::*;
use crate::monitor::plan::views;
use serde_json::Error as JsonError;

verus! {

/// `serde_json::Error`, carried through as it is.
#[verifier::external_type_specification]
#[verifier::external_body]
pub struct ExJsonError(JsonError);

/// What `serde_json::from_str::<Vec<String>>` reads from `text`: the
/// strings of the array, or the message of the error.
pub uninterp spec fn json_string_list(text: Seq<char>) -> Result<Seq<Seq<char>>, Seq<char>>;

/// What `serde_json::from_str::<Vec<u64>>` reads from `text`: the numbers of
/// the array, or the message of the error.
pub uninterp spec fn json_u64_list(text: Seq<char>) -> Result<Seq<u64>, Seq<char>>;

/// What `serde_json::from_str::<u8>` reads from `text`: the number, or the
/// message of the error.
pub uninterp spec fn json_u8(text: Seq<char>) -> Result<u8, Seq<char>>;

/// `serde_json::from_str::<Vec<String>>`, with the error given by its
/// message (`Display`); both are what `json_string_list` names.
#[verifier::external_body]
pub(crate) fn parse_string_list(text: &str) -> (r: Result<Vec<String>, String>)
    ensures
        r is Ok <==> json_string_list(text@) is Ok,
        r matches Ok(v) ==> views(v@) == json_string_list(text@)->Ok_0,
        r matches Err(m) ==> m@ == json_string_list(text@)->Err_0,
{
    match serde_json::from_str::<Vec<String>>(text) {
        Ok(v) => Ok(v),
        Err(e) => Err(e.to_string()),
    }
}

/// `serde_json::from_str::<Vec<u64>>`, with the error given by its message
/// (`Display`); both are what `json_u64_list` names.
#[verifier::external_body]
pub(crate) fn parse_u64_list(text: &str) -> (r: Result<Vec<u64>, String>)
    ensures
        r is Ok <==> json_u64_list(text@) is Ok,
        r matches Ok(v) ==> v@ == json_u64_list(text@)->Ok_0,
        r matches Err(m) ==> m@ == json_u64_list(text@)->Err_0,
{
    match serde_json::from_str::<Vec<u64>>(text) {
        Ok(v) => Ok(v),
        Err(e) => Err(e.to_string()),
    }
}

/// `serde_json::from_str::<u8>`, with the error given by its message
/// (`Display`); both are what `json_u8` names.
#[verifier::external_body]
pub(crate) fn parse_u8(text: &str) -> (r: Result<u8, String>)
    ensures
        r is Ok <==> json_u8(text@) is Ok,
        r matches Ok(v) ==> v == json_u8(text@)->Ok_0,
        r matches Err(m) ==> m@ == json_u8(text@)->Err_0,
{
    match serde_json::from_str::<u8>(text) {
        Ok(v) => Ok(v),
        Err(e) => Err(e.to_string()),
    }
}

/// The error's message (`serde_json::Error`'s `Display`); nothing is stated
/// of its text.
#[verifier::external_body]
pub(crate) fn json_error_text(e: &JsonError) -> String {
    e.to_string()
}

} // verus!
