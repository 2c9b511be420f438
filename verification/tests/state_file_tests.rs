use alphavantage_explorer::logic::json::JsonValue;
use alphavantage_explorer::quota::{RateLimiter, TokenState};
use alphavantage_explorer::state_file::{
    keep_if_read_back, load_state, read_state, state_json, state_text,
};
use alphavantage_explorer::text::parse_decimal_u32;

// 2024-03-05 12:00:00 UTC
const NOON: i64 = 1_709_640_000_000;

fn state() -> TokenState {
    TokenState {
        tokens_remaining: 20,
        last_reset: NOON,
        daily_limit: 25,
        calls_today: 5,
        last_call: Some(NOON + 1_234),
    }
}

#[test]
fn a_state_file_is_read() {
    let text = r#"{
        "tokens_remaining": 20,
        "last_reset": "2024-03-05T12:00:00Z",
        "daily_limit": 25,
        "calls_today": 5,
        "last_call": "2024-03-05T12:00:01.234Z"
    }"#;
    assert_eq!(load_state(text), Some(state()));
}

#[test]
fn instants_are_read_in_any_offset_and_to_the_millisecond() {
    let text = r#"{
        "tokens_remaining": 20,
        "last_reset": "2024-03-05T13:00:00+01:00",
        "daily_limit": 25,
        "calls_today": 5,
        "last_call": "2024-03-05T12:00:01.234567891Z"
    }"#;
    assert_eq!(load_state(text), Some(state()));
    let early = r#"{"tokens_remaining": 1, "last_reset": "1969-12-31T23:59:59.999Z", "daily_limit": 1}"#;
    assert_eq!(load_state(early).unwrap().last_reset, -1);
}

#[test]
fn absent_members_have_their_defaults() {
    let text = r#"{"tokens_remaining": 0, "last_reset": "2024-03-05T12:00:00Z", "daily_limit": 4294967295}"#;
    assert_eq!(
        load_state(text),
        Some(TokenState {
            tokens_remaining: 0,
            last_reset: NOON,
            daily_limit: u32::MAX,
            calls_today: 0,
            last_call: None,
        })
    );
    let with_null = r#"{"tokens_remaining": 0, "last_reset": "2024-03-05T12:00:00Z", "daily_limit": 1, "last_call": null, "note": [1, 2]}"#;
    assert_eq!(load_state(with_null).unwrap().last_call, None);
}

#[test]
fn a_corrupt_file_holds_no_state() {
    let good = r#"{"tokens_remaining": 1, "last_reset": "2024-03-05T12:00:00Z", "daily_limit": 1}"#;
    assert!(load_state(good).is_some());
    for text in [
        "",
        "not json",
        "[]",
        "null",
        "{}",
        r#"{"tokens_remaining": 1, "last_reset": "2024-03-05T12:00:00Z"}"#,
        r#"{"tokens_remaining": 1, "daily_limit": 1}"#,
        r#"{"last_reset": "2024-03-05T12:00:00Z", "daily_limit": 1}"#,
        r#"{"tokens_remaining": -1, "last_reset": "2024-03-05T12:00:00Z", "daily_limit": 1}"#,
        r#"{"tokens_remaining": 1.0, "last_reset": "2024-03-05T12:00:00Z", "daily_limit": 1}"#,
        r#"{"tokens_remaining": "1", "last_reset": "2024-03-05T12:00:00Z", "daily_limit": 1}"#,
        r#"{"tokens_remaining": 4294967296, "last_reset": "2024-03-05T12:00:00Z", "daily_limit": 1}"#,
        r#"{"tokens_remaining": 1, "last_reset": "yesterday", "daily_limit": 1}"#,
        r#"{"tokens_remaining": 1, "last_reset": 1709640000000, "daily_limit": 1}"#,
        r#"{"tokens_remaining": 1, "last_reset": "2024-03-05 12:00:00", "daily_limit": 1}"#,
        r#"{"tokens_remaining": 1, "last_reset": "2024-03-05T12:00:00Z", "daily_limit": 1, "calls_today": null}"#,
        r#"{"tokens_remaining": 1, "last_reset": "2024-03-05T12:00:00Z", "daily_limit": 1, "last_call": "soon"}"#,
        r#"{"tokens_remaining": 1, "last_reset": "2024-03-05T12:00:00Z", "daily_limit": 1, "last_call": 5}"#,
    ] {
        assert_eq!(load_state(text), None, "{text}");
    }
}

#[test]
fn what_is_stored_is_read_back() {
    let states = [
        state(),
        TokenState::new(0, 25),
        TokenState {
            tokens_remaining: u32::MAX,
            last_reset: -1,
            daily_limit: 0,
            calls_today: u32::MAX,
            last_call: Some(253_402_300_799_999),
        },
    ];
    for s in states {
        let text = state_text(&s).unwrap();
        assert_eq!(load_state(&text), Some(s));
        let json = state_json(&s).unwrap();
        assert_eq!(read_state(&json), Some(s));
        assert_eq!(json.to_json_text(), text);
    }
}

#[test]
fn the_state_file_is_a_json_object_of_five_members() {
    assert_eq!(
        state_text(&state()).unwrap(),
        r#"{"calls_today":5,"daily_limit":25,"last_call":"2024-03-05T12:00:01.234Z","last_reset":"2024-03-05T12:00:00Z","tokens_remaining":20}"#
    );
    assert_eq!(
        state_json(&TokenState::new(NOON, 25)),
        Some(JsonValue::Object(vec![
            ("tokens_remaining".to_string(), JsonValue::Number("25".to_string())),
            ("last_reset".to_string(), JsonValue::String("2024-03-05T12:00:00Z".to_string())),
            ("daily_limit".to_string(), JsonValue::Number("25".to_string())),
            ("calls_today".to_string(), JsonValue::Number("0".to_string())),
            ("last_call".to_string(), JsonValue::Null),
        ]))
    );
}

#[test]
fn instants_that_cannot_be_written_are_not_stored() {
    let far = TokenState { last_reset: i64::MAX, ..state() };
    assert_eq!(state_text(&far), None);
    assert_eq!(state_json(&far), None);
    let far_call = TokenState { last_call: Some(i64::MIN), ..state() };
    assert_eq!(state_text(&far_call), None);
    // Years of more than four digits are written with a sign, and read.
    let late = TokenState { last_reset: 253_402_300_800_000, ..state() };
    let text = state_text(&late).unwrap();
    assert!(text.contains("\"+10000-01-01T00:00:00Z\""));
    assert_eq!(load_state(&text), Some(late));
}

#[test]
fn the_budget_survives_a_restart_through_the_file() {
    let mut stored: Option<String> = None;
    let mut granted = 0;
    // Five runs of seven requests each against a budget of thirty.
    for run in 0..5 {
        let loaded = stored.as_deref().and_then(load_state);
        let now = NOON + run * 60_000;
        let mut limiter =
            RateLimiter::with_path("tokens.json".to_string(), loaded, 30, 0, now);
        for i in 0..7 {
            assert!(limiter.has_room(now + i));
            if let Ok(state) = limiter.wait(now + i) {
                granted += 1;
                stored = state_text(&state);
                assert!(stored.is_some());
            }
        }
    }
    assert_eq!(granted, 30);
    assert_eq!(load_state(&stored.unwrap()).unwrap().tokens_remaining, 0);
}

#[test]
fn a_text_is_kept_only_if_it_is_read_back() {
    let text = state_text(&state()).unwrap();
    assert_eq!(keep_if_read_back(&state(), text.clone()), Some(text.clone()));
    let other = TokenState { calls_today: 6, ..state() };
    assert_eq!(keep_if_read_back(&other, text), None);
    assert_eq!(keep_if_read_back(&state(), "{}".to_string()), None);
    assert_eq!(keep_if_read_back(&state(), String::new()), None);
}

#[test]
fn a_budget_below_the_default_spans_a_restart_through_the_file() {
    let mut stored: Option<String> = None;
    let mut granted = 0;
    for run in 0..4 {
        let loaded = stored.as_deref().and_then(load_state);
        let now = NOON + run * 60_000;
        let mut limiter = RateLimiter::with_path("tokens.json".to_string(), loaded, 10, 0, now);
        for i in 0..3 {
            assert!(limiter.has_room(now + i));
            if let Ok(state) = limiter.wait(now + i) {
                granted += 1;
                stored = state_text(&state);
            }
        }
    }
    assert_eq!(granted, 10);
}

#[test]
fn numerals_are_read_strictly() {
    assert_eq!(parse_decimal_u32("0"), Some(0));
    assert_eq!(parse_decimal_u32("7"), Some(7));
    assert_eq!(parse_decimal_u32("4294967295"), Some(u32::MAX));
    for text in [
        "", "00", "01", "+1", "-1", " 1", "1 ", "1.0", "1e2", "4294967296", "99999999999999999999",
        "٣", "1٣", "one",
    ] {
        assert_eq!(parse_decimal_u32(text), None, "{text}");
    }
}
