//! What an answer of the provider means: a payload, or one of the errors
//! that the provider states in a body that came with a good status.

use vstd::prelude::*;
use vstd::string::StringExecFns;
use crate::error::{ExplorerError, ExplorerErrorView};
use crate::logic::json::{json_text, lookup, member, parsed_json, JsonValue};
use crate::logic::json_to_table::members_of;
use crate::text::{contains_text, str_contains};

verus! {

/// Where the provider is asked.
pub const BASE_URL: &'static str = "https://www.alphavantage.co/query";

/// How long one attempt may take, in seconds.
pub const REQUEST_TIMEOUT_SECS: u64 = 10;

/// A status of the 2xx class.
pub open spec fn is_success(status: u16) -> bool {
    200 <= status < 300
}

/// A body that is no JSON counts as CSV where the content type names CSV
/// or the body holds a comma.
pub open spec fn looks_like_csv(content_type: Seq<char>, body: Seq<char>) -> bool {
    contains_text(content_type, "text/csv"@) || contains_text(content_type, "application/csv"@)
        || contains_text(body, ","@)
}

/// The payload that stands for a CSV body: an object with the body as its
/// member `csv_content`.
pub open spec fn is_csv_payload(json: JsonValue, body: Seq<char>) -> bool {
    &&& json matches JsonValue::Object(members)
    &&& members@.len() == 1
    &&& members@[0].0@ == "csv_content"@
    &&& members@[0].1 matches JsonValue::String(text)
    &&& text@ == body
}

/// The error that a payload states, if it states one: a member
/// `Error Message`, of any kind, is an error of the provider, shown as its
/// JSON text; else a member `Note` whose JSON text speaks of the call
/// volume is the provider's rate limit.
pub open spec fn stated_error(json: JsonValue) -> Option<ExplorerErrorView> {
    match member(members_of(json), "Error Message"@) {
        Some(message) => Some(ExplorerErrorView::ProviderError(json_text(message))),
        None => match member(members_of(json), "Note"@) {
            Some(note) => if contains_text(json_text(note), "call volume"@) {
                Some(ExplorerErrorView::RateLimited)
            } else {
                None
            },
            None => None,
        },
    }
}

/// The error that an answer means, if it means one, given what was read
/// from its body (`None` where the body is no JSON): a status outside the
/// 2xx class is an error with that status; a body that is no JSON and does
/// not look like CSV is a network error; a payload that states an error is
/// that error.
pub open spec fn response_error(
    status: u16,
    content_type: Seq<char>,
    body: Seq<char>,
    parsed: Option<JsonValue>,
) -> Option<ExplorerErrorView> {
    if !is_success(status) {
        Some(ExplorerErrorView::HttpStatus(status))
    } else {
        match parsed {
            Some(json) => stated_error(json),
            None => if looks_like_csv(content_type, body) {
                None
            } else {
                Some(ExplorerErrorView::Network("Failed to parse response as JSON: "@ + body))
            },
        }
    }
}

/// Whether the JSON text of a note speaks of the call volume.
pub fn note_signals_limit(note_text: &str) -> (r: bool)
    ensures
        r == contains_text(note_text@, "call volume"@),
{
    str_contains(note_text, "call volume")
}

/// Looks for an error that the payload states.
pub fn find_stated_error(json: &JsonValue) -> (found: Option<ExplorerError>)
    ensures
        match found {
            Some(e) => stated_error(*json) == Some(e@),
            None => stated_error(*json) is None,
        },
{
    match json {
        JsonValue::Object(members) => {
            match lookup(members, "Error Message") {
                Some(message) => {
                    return Some(ExplorerError::ProviderError(message.to_json_text()));
                },
                None => {},
            }
            match lookup(members, "Note") {
                Some(note) => {
                    let text = note.to_json_text();
                    if note_signals_limit(text.as_str()) {
                        return Some(ExplorerError::RateLimited);
                    }
                },
                None => {},
            }
            None
        },
        _ => {
            assert(member(members_of(*json), "Error Message"@) is None);
            assert(member(members_of(*json), "Note"@) is None);
            None
        },
    }
}

/// Says what an answer means, given what was read from its body (`None`
/// where the body is no JSON): the error it means, or else its payload. A
/// body that is no JSON but looks like CSV is passed on as the member
/// `csv_content` of an object.
pub fn interpret_parsed(
    status: u16,
    content_type: &str,
    body: &str,
    parsed: Option<JsonValue>,
) -> (r: Result<JsonValue, ExplorerError>)
    ensures
        match r {
            Err(e) => response_error(status, content_type@, body@, parsed) == Some(e@),
            Ok(json) => response_error(status, content_type@, body@, parsed) is None && match parsed {
                Some(payload) => json == payload,
                None => is_csv_payload(json, body@),
            },
        },
{
    if status < 200 || status >= 300 {
        return Err(ExplorerError::HttpStatus(status));
    }
    let json = match parsed {
        Some(json) => json,
        None => {
            if str_contains(content_type, "text/csv") || str_contains(
                content_type,
                "application/csv",
            ) || str_contains(body, ",") {
                let mut members: Vec<(String, JsonValue)> = Vec::new();
                members.push(
                    (String::from_str("csv_content"), JsonValue::String(String::from_str(body))),
                );
                return Ok(JsonValue::Object(members));
            } else {
                let mut msg = String::from_str("Failed to parse response as JSON: ");
                msg.append(body);
                return Err(ExplorerError::Network(msg));
            }
        },
    };
    match find_stated_error(&json) {
        Some(e) => Err(e),
        None => Ok(json),
    }
}

/// Says what an answer means: reads the body as JSON and interprets it.
pub fn interpret_response(status: u16, content_type: &str, body: &str) -> (r: Result<
    JsonValue,
    ExplorerError,
>)
    ensures
        match r {
            Err(e) => response_error(status, content_type@, body@, parsed_json(body@)) == Some(e@),
            Ok(json) => response_error(status, content_type@, body@, parsed_json(body@)) is None
                && match parsed_json(body@) {
                Some(payload) => json == payload,
                None => is_csv_payload(json, body@),
            },
        },
{
    if status < 200 || status >= 300 {
        return Err(ExplorerError::HttpStatus(status));
    }
    let parsed = JsonValue::parse(body);
    interpret_parsed(status, content_type, body, parsed)
}

} // verus!
