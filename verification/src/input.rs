//! The request of an execution: the pair whose price is asked for.
//!
//! The request is text: the pair itself, or JSON that is a string or an
//! object with a member `pair`. JSON is read by `serde_json`.

use crate::error::OracleError;
use crate::text::{same_text, to_uppercase, trim, trimmed, uppercased};
use vstd::prelude::*;
use vstd::string::*;

verus! {

/// The one pair that is served.
pub const TARGET_PAIR: &'static str = "WCRO-USDC";

/// The name of the member of a request that names the pair.
pub const PAIR_MEMBER: &'static str = "pair";

/// The text of the member `name` of the JSON object that `text` is, as
/// `serde_json` reads it; `None` where the text is no JSON, no object, has
/// no such member or has one that is no string.
pub uninterp spec fn json_member_text(text: Seq<char>, name: Seq<char>) -> Option<Seq<char>>;

/// The text of the JSON string that `text` is, as `serde_json` reads it;
/// `None` where the text is no JSON or no string.
pub uninterp spec fn json_string_text(text: Seq<char>) -> Option<Seq<char>>;

/// Whether the text is a JSON object, as `serde_json` reads it.
pub uninterp spec fn json_is_object(text: Seq<char>) -> bool;

/// `serde_json::Value::is_object` on the value that `serde_json::from_str`
/// reads from the text; `false` where the text is no JSON. The result
/// depends on the text alone.
#[verifier::external_body]
fn json_object(text: &str) -> (r: bool)
    ensures
        r == json_is_object(text@),
{
    match serde_json::from_str::<serde_json::Value>(text) {
        Ok(value) => value.is_object(),
        Err(_) => false,
    }
}

/// `serde_json::Value::get` with a name, on the value that
/// `serde_json::from_str` reads from the text, and `Value::as_str` on what
/// it finds: the text of a member of a JSON object. The result depends on
/// the two texts alone.
#[verifier::external_body]
fn json_member(text: &str, name: &str) -> (r: Option<String>)
    ensures
        r matches Some(s) ==> json_member_text(text@, name@) == Some(s@),
        r is None ==> json_member_text(text@, name@) is None,
{
    let value: serde_json::Value = serde_json::from_str(text).ok()?;
    Some(value.get(name)?.as_str()?.to_string())
}

/// `serde_json::Value::as_str` on the value that `serde_json::from_str`
/// reads from the text: the text of a JSON string. The result depends on
/// the text alone.
#[verifier::external_body]
fn json_string(text: &str) -> (r: Option<String>)
    ensures
        r matches Some(s) ==> json_string_text(text@) == Some(s@),
        r is None ==> json_string_text(text@) is None,
{
    let value: serde_json::Value = serde_json::from_str(text).ok()?;
    Some(value.as_str()?.to_string())
}

/// The text that names the pair: the member `pair` of a JSON object where
/// there is one, else the text of a JSON string where the request is one,
/// else the request as it stands.
pub open spec fn pair_candidate(
    request: Seq<char>,
    member: Option<Seq<char>>,
    string: Option<Seq<char>>,
) -> Seq<char> {
    match member {
        Some(pair) => pair,
        None => match string {
            Some(pair) => pair,
            None => request,
        },
    }
}

/// Whether the text, in upper case, is the pair that is served.
pub open spec fn is_served(candidate: Seq<char>) -> bool {
    uppercased(candidate) == TARGET_PAIR@
}

/// The text that a request, white space around it left out, names the
/// pair by.
pub open spec fn requested_pair(input: Seq<char>) -> Seq<char> {
    let request = trimmed(input);
    pair_candidate(request, json_member_text(request, PAIR_MEMBER@), json_string_text(request))
}

/// Whether a request is a JSON object without a member `pair` that is a
/// string.
pub open spec fn lacks_pair(input: Seq<char>) -> bool {
    let request = trimmed(input);
    json_member_text(request, PAIR_MEMBER@) is None && json_is_object(request)
}

/// Whether a request, white space around it left out, names the pair that
/// is served. An empty request names none, nor does a JSON object without
/// a member `pair`.
pub open spec fn names_served_pair(input: Seq<char>) -> bool {
    trimmed(input).len() > 0 && !lacks_pair(input) && is_served(requested_pair(input))
}

/// Whether `e` is the failure of a request that does not name the pair
/// that is served: `MissingInput` for an empty request, `MissingPair` for
/// a JSON object without a member `pair`, and else `UnsupportedPair` with
/// the pair that the request names, in upper case.
pub open spec fn is_request_failure(e: OracleError, input: Seq<char>) -> bool {
    if trimmed(input).len() == 0 {
        e == OracleError::MissingInput
    } else if lacks_pair(input) {
        e == OracleError::MissingPair
    } else {
        e matches OracleError::UnsupportedPair(pair) && pair@ == uppercased(requested_pair(input))
    }
}

/// The view of a text that may be absent.
pub open spec fn text_of(text: Option<&str>) -> Option<Seq<char>> {
    match text {
        Some(t) => Some(t@),
        None => None,
    }
}

/// The pair that a request names, in upper case, given what the request
/// holds as JSON: the text of its member `pair`, and its text where it is
/// a JSON string.
///
/// It fails with `UnsupportedPair`, and the pair, where the pair is not
/// the one served.
pub fn select_pair(request: &str, member: Option<&str>, string: Option<&str>) -> (r: Result<
    String,
    OracleError,
>)
    ensures
        is_served(pair_candidate(request@, text_of(member), text_of(string))) ==> (r matches Ok(
            pair,
        ) && pair@ == TARGET_PAIR@),
        !is_served(pair_candidate(request@, text_of(member), text_of(string))) ==> (r matches Err(
            OracleError::UnsupportedPair(pair),
        ) && pair@ == uppercased(pair_candidate(request@, text_of(member), text_of(string)))),
{
    let candidate = match member {
        Some(pair) => pair,
        None => match string {
            Some(pair) => pair,
            None => request,
        },
    };
    let pair = to_uppercase(candidate);
    if same_text(pair.as_str(), TARGET_PAIR) {
        Ok(pair)
    } else {
        Err(OracleError::UnsupportedPair(pair))
    }
}

/// The pair that a request names.
///
/// White space around the request is left out. A request that is then
/// empty fails with `MissingInput`, a JSON object without a member `pair`
/// with `MissingPair`, and a request that names another pair than the one
/// served with `UnsupportedPair`.
pub fn parse_input_pair(input: &str) -> (r: Result<String, OracleError>)
    ensures
        names_served_pair(input@) ==> (r matches Ok(pair) && pair@ == TARGET_PAIR@),
        !names_served_pair(input@) ==> (r matches Err(e) && is_request_failure(e, input@)),
{
    let request = trim(input);
    if request.unicode_len() == 0 {
        return Err(OracleError::MissingInput);
    }
    let member = json_member(request, PAIR_MEMBER);
    if member.is_none() && json_object(request) {
        return Err(OracleError::MissingPair);
    }
    let string = json_string(request);
    select_pair(
        request,
        match &member {
            Some(pair) => Some(pair.as_str()),
            None => None,
        },
        match &string {
            Some(pair) => Some(pair.as_str()),
            None => None,
        },
    )
}

} // verus!
