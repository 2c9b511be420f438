//! The state file of the quota tracker: a JSON object that holds the
//! budget between runs.
//!
//! Its members are `tokens_remaining`, `last_reset`, `daily_limit`,
//! `calls_today` (may be absent) and `last_call` (may be absent or null).
//! Counts are whole numbers; instants are texts in the form of RFC 3339.

use vstd::prelude::*;
use vstd::string::StringExecFns;
use crate::logic::json::{
    json_text, lemma_member_at, lookup, member, parsed_json, JsonValue,
};
use crate::logic::json_to_table::members_of;
use crate::quota::TokenState;
use crate::text::{decimal, decimal_string, decimal_u32, parse_decimal_u32};

verus! {

/// The instant that `chrono` reads from a text in the form of RFC 3339, in
/// milliseconds since the epoch; `None` where the text has no such form.
pub uninterp spec fn timestamp_read(text: Seq<char>) -> Option<i64>;

/// The text in the form of RFC 3339 that `chrono` writes for an instant
/// given in milliseconds since the epoch; `None` where the instant lies
/// outside the years that `chrono` knows.
pub uninterp spec fn timestamp_written(millis: i64) -> Option<Seq<char>>;

/// Reads an instant as `chrono`'s `Deserialize` for `DateTime<Utc>` does:
/// with `str::parse` for `DateTime<FixedOffset>`, and hands it on as
/// `DateTime::timestamp_millis` counts it. The claim is that the instant is
/// a function of the text, named `timestamp_read`.
#[verifier::external_body]
fn read_timestamp(text: &str) -> (millis: Option<i64>)
    ensures
        millis == timestamp_read(text@),
{
    match text.parse::<chrono::DateTime<chrono::FixedOffset>>() {
        Ok(instant) => Some(instant.timestamp_millis()),
        Err(_) => None,
    }
}

/// Writes an instant as `chrono`'s `Serialize` for `DateTime<Utc>` does:
/// made by `DateTime::from_timestamp_millis`, written by
/// `DateTime::to_rfc3339_opts` with as many digits of the second's fraction
/// as needed and `Z` for the offset. The claim is that the text is a
/// function of the instant, named `timestamp_written`.
#[verifier::external_body]
fn write_timestamp(millis: i64) -> (text: Option<String>)
    ensures
        match text {
            Some(t) => timestamp_written(millis) == Some(t@),
            None => timestamp_written(millis) is None,
        },
{
    match chrono::DateTime::from_timestamp_millis(millis) {
        Some(instant) => Some(instant.to_rfc3339_opts(chrono::SecondsFormat::AutoSi, true)),
        None => None,
    }
}

/// The count that is the member `key`; `None` where the member is absent
/// or no whole number below 2^32.
pub open spec fn count_member(members: Seq<(String, JsonValue)>, key: Seq<char>) -> Option<u32> {
    match member(members, key) {
        Some(JsonValue::Number(text)) => decimal_u32(text@),
        _ => None,
    }
}

/// The count that is the member `key`, zero where the member is absent;
/// `None` where it is there and no whole number below 2^32.
pub open spec fn count_member_or_zero(members: Seq<(String, JsonValue)>, key: Seq<char>) -> Option<
    u32,
> {
    match member(members, key) {
        None => Some(0u32),
        Some(JsonValue::Number(text)) => decimal_u32(text@),
        _ => None,
    }
}

/// The instant that is the member `key`; `None` where the member is absent
/// or no text that is read as an instant.
pub open spec fn instant_member(members: Seq<(String, JsonValue)>, key: Seq<char>) -> Option<i64> {
    match member(members, key) {
        Some(JsonValue::String(text)) => timestamp_read(text@),
        _ => None,
    }
}

/// The instant that is the member `key`, if there is one: no instant where
/// the member is absent or null; `None` where it is there and no text that
/// is read as an instant.
pub open spec fn optional_instant_member(
    members: Seq<(String, JsonValue)>,
    key: Seq<char>,
) -> Option<Option<i64>> {
    match member(members, key) {
        None => Some(None),
        Some(JsonValue::Null) => Some(None),
        Some(JsonValue::String(text)) => match timestamp_read(text@) {
            Some(t) => Some(Some(t)),
            None => None,
        },
        _ => None,
    }
}

/// The budget that a JSON value holds; `None` where the value is no object
/// or one of its members is not as it has to be.
pub open spec fn stored_state(json: JsonValue) -> Option<TokenState> {
    let m = members_of(json);
    if json is Object && count_member(m, "tokens_remaining"@) is Some && instant_member(
        m,
        "last_reset"@,
    ) is Some && count_member(m, "daily_limit"@) is Some && count_member_or_zero(
        m,
        "calls_today"@,
    ) is Some && optional_instant_member(m, "last_call"@) is Some {
        Some(
            TokenState {
                tokens_remaining: count_member(m, "tokens_remaining"@)->0,
                last_reset: instant_member(m, "last_reset"@)->0,
                daily_limit: count_member(m, "daily_limit"@)->0,
                calls_today: count_member_or_zero(m, "calls_today"@)->0,
                last_call: optional_instant_member(m, "last_call"@)->0,
            },
        )
    } else {
        None
    }
}

/// The budget that the text of a state file holds; `None` where the text
/// is no JSON or holds no budget.
pub open spec fn loaded_state(text: Seq<char>) -> Option<TokenState> {
    match parsed_json(text) {
        Some(json) => stored_state(json),
        None => None,
    }
}

/// Whether an instant can be stored: it can be written, and what is
/// written is read as the same instant.
pub open spec fn storable(millis: i64) -> bool {
    timestamp_written(millis) matches Some(text) && timestamp_read(text) == Some(millis)
}

/// Whether a budget can be stored: its instants can.
pub open spec fn storable_state(state: TokenState) -> bool {
    storable(state.last_reset) && (state.last_call matches Some(t) ==> storable(t))
}

fn read_count(members: &Vec<(String, JsonValue)>, key: &str) -> (r: Option<u32>)
    ensures
        r == count_member(members@, key@),
{
    match lookup(members, key) {
        Some(JsonValue::Number(text)) => parse_decimal_u32(text.as_str()),
        _ => None,
    }
}

fn read_count_or_zero(members: &Vec<(String, JsonValue)>, key: &str) -> (r: Option<u32>)
    ensures
        r == count_member_or_zero(members@, key@),
{
    match lookup(members, key) {
        None => Some(0),
        Some(JsonValue::Number(text)) => parse_decimal_u32(text.as_str()),
        _ => None,
    }
}

fn read_instant(members: &Vec<(String, JsonValue)>, key: &str) -> (r: Option<i64>)
    ensures
        r == instant_member(members@, key@),
{
    match lookup(members, key) {
        Some(JsonValue::String(text)) => read_timestamp(text.as_str()),
        _ => None,
    }
}

fn read_optional_instant(members: &Vec<(String, JsonValue)>, key: &str) -> (r: Option<Option<i64>>)
    ensures
        r == optional_instant_member(members@, key@),
{
    match lookup(members, key) {
        None => Some(None),
        Some(JsonValue::Null) => Some(None),
        Some(JsonValue::String(text)) => match read_timestamp(text.as_str()) {
            Some(t) => Some(Some(t)),
            None => None,
        },
        _ => None,
    }
}

/// Reads the budget that a JSON value holds.
pub fn read_state(json: &JsonValue) -> (state: Option<TokenState>)
    ensures
        state == stored_state(*json),
{
    match json {
        JsonValue::Object(members) => {
            let tokens_remaining = match read_count(members, "tokens_remaining") {
                Some(n) => n,
                None => {
                    return None;
                },
            };
            let last_reset = match read_instant(members, "last_reset") {
                Some(t) => t,
                None => {
                    return None;
                },
            };
            let daily_limit = match read_count(members, "daily_limit") {
                Some(n) => n,
                None => {
                    return None;
                },
            };
            let calls_today = match read_count_or_zero(members, "calls_today") {
                Some(n) => n,
                None => {
                    return None;
                },
            };
            let last_call = match read_optional_instant(members, "last_call") {
                Some(t) => t,
                None => {
                    return None;
                },
            };
            Some(TokenState { tokens_remaining, last_reset, daily_limit, calls_today, last_call })
        },
        _ => None,
    }
}

/// Reads the budget that the text of a state file holds. A file that
/// cannot be read this way is to be taken as absent.
pub fn load_state(text: &str) -> (state: Option<TokenState>)
    ensures
        state == loaded_state(text@),
{
    match JsonValue::parse(text) {
        Some(json) => read_state(&json),
        None => None,
    }
}

/// Writes an instant for storing, and makes sure that it is read back as
/// it is.
fn write_storable(millis: i64) -> (text: Option<String>)
    ensures
        text is Some <==> storable(millis),
        text matches Some(t) ==> timestamp_read(t@) == Some(millis),
{
    match write_timestamp(millis) {
        Some(text) => {
            match read_timestamp(text.as_str()) {
                Some(back) => {
                    if back == millis {
                        Some(text)
                    } else {
                        None
                    }
                },
                None => None,
            }
        },
        None => None,
    }
}

/// Each of the five members of a stored budget is found under its name.
proof fn lemma_member_of_five(members: Seq<(String, JsonValue)>)
    requires
        members.len() == 5,
        members[0].0@ == "tokens_remaining"@,
        members[1].0@ == "last_reset"@,
        members[2].0@ == "daily_limit"@,
        members[3].0@ == "calls_today"@,
        members[4].0@ == "last_call"@,
    ensures
        member(members, "tokens_remaining"@) == Some(members[0].1),
        member(members, "last_reset"@) == Some(members[1].1),
        member(members, "daily_limit"@) == Some(members[2].1),
        member(members, "calls_today"@) == Some(members[3].1),
        member(members, "last_call"@) == Some(members[4].1),
{
    reveal_strlit("tokens_remaining");
    reveal_strlit("last_reset");
    reveal_strlit("daily_limit");
    reveal_strlit("calls_today");
    reveal_strlit("last_call");
    assert("tokens_remaining"@.len() == 16);
    assert("last_reset"@.len() == 10);
    assert("daily_limit"@.len() == 11);
    assert("calls_today"@.len() == 11);
    assert("last_call"@.len() == 9);
    assert("daily_limit"@[0] == 'd');
    assert("calls_today"@[0] == 'c');
    lemma_member_at(members, 0, "tokens_remaining"@);
    lemma_member_at(members, 1, "last_reset"@);
    lemma_member_at(members, 2, "daily_limit"@);
    lemma_member_at(members, 3, "calls_today"@);
    lemma_member_at(members, 4, "last_call"@);
}

/// The JSON value that holds a budget; `None` where the budget cannot be
/// stored. What is handed out is read as the budget it was made from.
pub fn state_json(state: &TokenState) -> (json: Option<JsonValue>)
    ensures
        json is Some <==> storable_state(*state),
        json matches Some(j) ==> stored_state(j) == Some(*state),
{
    let last_reset = match write_storable(state.last_reset) {
        Some(text) => text,
        None => {
            return None;
        },
    };
    let last_call = match state.last_call {
        Some(t) => match write_storable(t) {
            Some(text) => JsonValue::String(text),
            None => {
                return None;
            },
        },
        None => JsonValue::Null,
    };
    let mut members: Vec<(String, JsonValue)> = Vec::new();
    members.push(
        (
            String::from_str("tokens_remaining"),
            JsonValue::Number(decimal_string(state.tokens_remaining as u64)),
        ),
    );
    members.push((String::from_str("last_reset"), JsonValue::String(last_reset)));
    members.push(
        (String::from_str("daily_limit"), JsonValue::Number(decimal_string(state.daily_limit as u64))),
    );
    members.push(
        (String::from_str("calls_today"), JsonValue::Number(decimal_string(state.calls_today as u64))),
    );
    members.push((String::from_str("last_call"), last_call));
    proof {
        lemma_member_of_five(members@);
        lemma_count_read_back(state.tokens_remaining);
        lemma_count_read_back(state.daily_limit);
        lemma_count_read_back(state.calls_today);
    }
    let json = JsonValue::Object(members);
    assert(stored_state(json) == Some(*state));
    Some(json)
}

/// The numeral of a count is read as that count.
pub proof fn lemma_count_read_back(n: u32)
    ensures
        decimal_u32(decimal(n as nat)) == Some(n),
{
    assert forall|m: u32| decimal(n as nat) == decimal(m as nat) implies m == n by {
        crate::text::lemma_decimal_injective(m as nat, n as nat);
    }
}

/// One budget spans a restart: a tracker that is started on the same
/// calendar day and with the same limit from the text that was stored holds
/// the budget that was stored.
pub proof fn lemma_restart_through_file(state: TokenState, text: Seq<char>, now: i64)
    requires
        loaded_state(text) == Some(state),
        !crate::quota::is_new_day(state, now),
    ensures
        crate::quota::started(loaded_state(text), state.daily_limit, now) == state,
{
}

/// Hands a text on if it is read as the budget given, and holds it back if
/// it is not.
pub fn keep_if_read_back(state: &TokenState, text: String) -> (kept: Option<String>)
    ensures
        match kept {
            Some(t) => t@ == text@ && loaded_state(text@) == Some(*state),
            None => loaded_state(text@) != Some(*state),
        },
{
    let same = match load_state(text.as_str()) {
        Some(back) => back.same_as(state),
        None => false,
    };
    if same {
        Some(text)
    } else {
        None
    }
}

/// The text of the state file that holds a budget, which is read back as
/// that budget. `None` only where the budget cannot be stored, or the text
/// of the JSON value that holds it is not read back as it.
pub fn state_text(state: &TokenState) -> (text: Option<String>)
    ensures
        text matches Some(t) ==> loaded_state(t@) == Some(*state),
        text matches Some(t) ==> exists|json: JsonValue|
            stored_state(json) == Some(*state) && #[trigger] json_text(json) == t@,
        text is Some ==> storable_state(*state),
        text is None ==> !storable_state(*state) || exists|json: JsonValue|
            stored_state(json) == Some(*state) && loaded_state(#[trigger] json_text(json)) != Some(
                *state,
            ),
{
    match state_json(state) {
        Some(json) => keep_if_read_back(state, json.to_json_text()),
        None => None,
    }
}

} // verus!
