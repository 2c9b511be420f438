use alphavantage_explorer::error::ExplorerError;
use alphavantage_explorer::quota::{
    consumes_quota, resolve_state_path, utc_day_of, Acquire, RateLimiter, TokenState,
    DEFAULT_DAILY_LIMIT, MILLIS_PER_DAY, STATE_FILENAME,
};

const DAY: i64 = 86_400_000;
// 2024-03-05 12:00:00 UTC
const NOON: i64 = 1_709_640_000_000;

fn limiter(loaded: Option<TokenState>, daily_limit: u32, min_delay_ms: u64, now: i64) -> RateLimiter {
    RateLimiter::with_path("tokens.json".to_string(), loaded, daily_limit, min_delay_ms, now)
}

fn request(limiter: &mut RateLimiter, now: i64) -> Result<TokenState, ExplorerError> {
    assert_eq!(limiter.pacing_delay(now), None);
    assert!(limiter.has_room(now));
    limiter.wait(now)
}

#[test]
fn test_rate_limiter_enforcement() {
    let mut limiter = limiter(None, 25, 0, NOON);

    // Consume all 25 tokens
    for i in 0..25 {
        assert!(request(&mut limiter, NOON + i).is_ok(), "Call {i} failed");
    }

    // 26th call should fail
    assert!(matches!(
        request(&mut limiter, NOON + 25),
        Err(ExplorerError::RateLimited)
    ));
}

#[test]
fn test_persistence() {
    let stored = {
        let mut limiter = limiter(None, 25, 0, NOON);
        // Consume 5
        let mut last = None;
        for i in 0..5 {
            last = Some(request(&mut limiter, NOON + i).unwrap());
        }
        last
    }; // Drop limiter

    // Reload
    let mut limiter = limiter(stored, 25, 0, NOON + 10);
    // Should have 20 left
    for i in 0..20 {
        assert!(
            request(&mut limiter, NOON + 10 + i).is_ok(),
            "Reloaded call {i} failed"
        );
    }
    assert!(matches!(
        request(&mut limiter, NOON + 30),
        Err(ExplorerError::RateLimited)
    ));
}

#[test]
fn test_delay_enforcement() {
    let mut limiter = limiter(None, 10, 500, NOON); // 500ms delay

    assert_eq!(limiter.pacing_delay(NOON), None); // First call: no delay
    request(&mut limiter, NOON).unwrap();
    // Second call: should wait ~500ms
    assert_eq!(limiter.pacing_delay(NOON + 20), Some(480));
    request(&mut limiter, NOON + 500).unwrap();
    assert_eq!(limiter.snapshot().last_call, Some(NOON + 500));
}

#[test]
fn every_budget_grants_exactly_its_size() {
    for n in [1u32, 2, 3, 7, 10, 24, 25, 26, 100] {
        // No state file: the budget is that of the limit.
        let mut limiter = limiter(None, n, 0, NOON);
        let mut stored = limiter.snapshot();
        assert_eq!(
            stored,
            TokenState {
                tokens_remaining: n,
                last_reset: NOON,
                daily_limit: n,
                calls_today: 0,
                last_call: None,
            }
        );
        for i in 0..n {
            // A restart between any two calls changes nothing.
            if i % 2 == 1 {
                limiter = self::limiter(Some(stored), n, 0, NOON + i as i64);
            }
            stored = request(&mut limiter, NOON + i as i64).unwrap();
            assert_eq!(stored, limiter.snapshot());
            assert_eq!(stored.tokens_remaining, n - i - 1);
            assert_eq!(stored.calls_today, i + 1);
        }
        let before = limiter.snapshot();
        assert_eq!(
            request(&mut limiter, NOON + n as i64),
            Err(ExplorerError::RateLimited)
        );
        assert_eq!(limiter.snapshot(), before);
        // A restart after the last call does not bring the budget back.
        let mut again = self::limiter(Some(before), n, 0, NOON + n as i64 + 1);
        assert_eq!(
            request(&mut again, NOON + n as i64 + 1),
            Err(ExplorerError::RateLimited)
        );
    }
}

#[test]
fn a_first_start_holds_the_budget_of_its_limit() {
    let mut l = limiter(None, 10, 0, NOON);
    assert_eq!(l.snapshot().daily_limit, 10);
    assert_eq!(l.snapshot().tokens_remaining, 10);
    for i in 0..10 {
        assert!(request(&mut l, NOON + i).is_ok());
    }
    assert_eq!(request(&mut l, NOON + 10), Err(ExplorerError::RateLimited));
    // The next day brings the same budget.
    for i in 0..10 {
        assert!(request(&mut l, NOON + DAY + i).is_ok());
    }
    assert_eq!(request(&mut l, NOON + DAY + 10), Err(ExplorerError::RateLimited));
    // A limit of nothing grants nothing.
    let mut none = limiter(None, 0, 0, NOON);
    assert_eq!(request(&mut none, NOON), Err(ExplorerError::RateLimited));
}

#[test]
fn a_fresh_state_holds_a_full_budget() {
    let s = TokenState::new(NOON, 25);
    assert_eq!(
        s,
        TokenState {
            tokens_remaining: 25,
            last_reset: NOON,
            daily_limit: 25,
            calls_today: 0,
            last_call: None,
        }
    );
    assert_eq!(TokenState::new(-1, 0).tokens_remaining, 0);
    assert_eq!(TokenState::new(0, u32::MAX).tokens_remaining, u32::MAX);
    assert!(s.same_as(&TokenState::new(NOON, 25)));
    assert!(!s.same_as(&TokenState::new(NOON, 24)));
    assert!(!s.same_as(&TokenState::new(NOON + 1, 25)));
    assert!(!s.same_as(&TokenState { last_call: Some(0), ..s }));
    assert!(!s.same_as(&TokenState { calls_today: 1, ..s }));
    assert_eq!(DEFAULT_DAILY_LIMIT, 25);
    assert_eq!(MILLIS_PER_DAY, DAY);
    let limiter = limiter(None, 25, 1000, NOON);
    assert_eq!(limiter.snapshot(), s);
    assert_eq!(limiter.min_delay_ms(), 1000);
    assert_eq!(limiter.state_path(), "tokens.json");
}

#[test]
fn requests_inside_the_spacing_are_told_to_sleep() {
    let mut l = limiter(None, 3, 500, NOON);
    // The first call is granted at once.
    let first = match l.acquire(NOON) {
        Acquire::Granted(state) => state,
        other => panic!("{other:?}"),
    };
    assert_eq!(first.last_call, Some(NOON));
    assert_eq!(first.tokens_remaining, 2);
    // Too early: nothing changes, whatever is left.
    assert_eq!(l.acquire(NOON + 20), Acquire::Sleep(480));
    assert_eq!(l.acquire(NOON + 499), Acquire::Sleep(1));
    assert_eq!(l.acquire(NOON - 100), Acquire::Sleep(600));
    assert_eq!(l.snapshot(), first);
    // In time.
    let second = match l.acquire(NOON + 500) {
        Acquire::Granted(state) => state,
        other => panic!("{other:?}"),
    };
    assert_eq!(second.last_call, Some(NOON + 500));
    assert_eq!(second.calls_today, 2);
    assert_eq!(l.acquire(NOON + 999), Acquire::Sleep(1));
    assert!(matches!(l.acquire(NOON + 1000), Acquire::Granted(_)));
    // Nothing left: the spacing is still kept first, then the call refused.
    assert_eq!(l.acquire(NOON + 1001), Acquire::Sleep(499));
    assert_eq!(l.acquire(NOON + 1500), Acquire::Refused);
    assert_eq!(l.snapshot().last_call, Some(NOON + 1000));
}

#[test]
fn granted_calls_lie_the_minimum_delay_apart() {
    let mut l = limiter(None, 50, 700, NOON);
    let mut now = NOON;
    let mut grants: Vec<i64> = Vec::new();
    // A caller that asks at odd moments and sleeps less than it is told.
    for step in [0i64, 1, 699, 1, 300, 5000, 0, 350, 349, 1, 700, 2100, 3] {
        now += step;
        match l.acquire(now) {
            Acquire::Granted(state) => {
                assert_eq!(state.last_call, Some(now));
                grants.push(now);
            }
            Acquire::Sleep(ms) => {
                assert!(ms > 0);
                assert_eq!(now + ms as i64, grants.last().unwrap() + 700);
            }
            Acquire::Refused => panic!("refused"),
        }
    }
    assert_eq!(grants.len(), 6);
    for pair in grants.windows(2) {
        assert!(pair[1] - pair[0] >= 700);
    }
}

#[test]
fn a_new_day_replenishes_the_budget() {
    let exhausted = TokenState {
        tokens_remaining: 0,
        last_reset: NOON,
        daily_limit: 25,
        calls_today: 25,
        last_call: Some(NOON + 1000),
    };
    // Later on the same day nothing is granted.
    let mut same_day = limiter(Some(exhausted), 25, 0, NOON + 3_600_000);
    assert_eq!(
        request(&mut same_day, NOON + 3_600_000),
        Err(ExplorerError::RateLimited)
    );
    assert_eq!(same_day.snapshot(), exhausted);

    // The tracker runs over midnight.
    let midnight = NOON + DAY / 2;
    assert_eq!(
        request(&mut same_day, midnight - 1),
        Err(ExplorerError::RateLimited)
    );
    let granted = request(&mut same_day, midnight).unwrap();
    assert_eq!(
        granted,
        TokenState {
            tokens_remaining: 24,
            last_reset: midnight,
            daily_limit: 25,
            calls_today: 1,
            last_call: Some(midnight),
        }
    );

    // The tracker is started on the next day.
    let mut next_day = limiter(Some(exhausted), 25, 0, NOON + DAY);
    assert_eq!(next_day.snapshot().tokens_remaining, 25);
    assert_eq!(next_day.snapshot().calls_today, 0);
    assert_eq!(next_day.snapshot().last_reset, NOON + DAY);
    let granted = request(&mut next_day, NOON + DAY + 5).unwrap();
    assert_eq!(granted.calls_today, 1);
    assert_eq!(granted.tokens_remaining, 24);
}

#[test]
fn check_reset_looks_at_the_calendar_day() {
    let state = TokenState {
        tokens_remaining: 3,
        last_reset: NOON,
        daily_limit: 10,
        calls_today: 7,
        last_call: None,
    };
    let mut l = limiter(Some(state), 10, 0, NOON);
    l.check_reset(NOON + DAY / 2 - 1);
    assert_eq!(l.snapshot(), state);
    l.check_reset(NOON - 3 * DAY);
    assert_eq!(l.snapshot(), state);
    l.check_reset(NOON + DAY / 2);
    assert_eq!(
        l.snapshot(),
        TokenState {
            tokens_remaining: 10,
            last_reset: NOON + DAY / 2,
            daily_limit: 10,
            calls_today: 0,
            last_call: None,
        }
    );
}

#[test]
fn a_changed_limit_is_adopted() {
    let state = TokenState {
        tokens_remaining: 20,
        last_reset: NOON,
        daily_limit: 25,
        calls_today: 5,
        last_call: Some(NOON),
    };
    // A larger limit raises what is left.
    let raised = limiter(Some(state), 50, 0, NOON + 1).snapshot();
    assert_eq!(raised.daily_limit, 50);
    assert_eq!(raised.tokens_remaining, 50);
    assert_eq!(raised.calls_today, 5);
    // A limit between what is left and the old limit leaves what is left.
    let between = limiter(Some(state), 22, 0, NOON + 1).snapshot();
    assert_eq!(between.daily_limit, 22);
    assert_eq!(between.tokens_remaining, 22);
    // A smaller limit does not lower what is left before the next day.
    let shrunk = limiter(Some(state), 10, 0, NOON + 1).snapshot();
    assert_eq!(shrunk.daily_limit, 10);
    assert_eq!(shrunk.tokens_remaining, 20);
    let next_day = limiter(Some(state), 10, 0, NOON + DAY).snapshot();
    assert_eq!(next_day.tokens_remaining, 10);
    // The same limit changes nothing.
    assert_eq!(limiter(Some(state), 25, 0, NOON + 1).snapshot(), state);
}

#[test]
fn pacing_asks_for_what_is_missing() {
    let state = TokenState {
        tokens_remaining: 5,
        last_reset: NOON,
        daily_limit: 5,
        calls_today: 0,
        last_call: Some(NOON),
    };
    let l = limiter(Some(state), 5, 1000, NOON);
    assert_eq!(l.pacing_delay(NOON), Some(1000));
    assert_eq!(l.pacing_delay(NOON + 1), Some(999));
    assert_eq!(l.pacing_delay(NOON + 999), Some(1));
    assert_eq!(l.pacing_delay(NOON + 1000), None);
    assert_eq!(l.pacing_delay(NOON + 5000), None);
    // The clock went back.
    assert_eq!(l.pacing_delay(NOON - 250), Some(1250));
    // No spacing asked for.
    let unpaced = limiter(Some(state), 5, 0, NOON);
    assert_eq!(unpaced.pacing_delay(NOON), None);
    assert_eq!(unpaced.pacing_delay(NOON - 1), Some(1));
    // A delay beyond the machine's range.
    let far = TokenState { last_call: Some(i64::MAX), ..state };
    let l = limiter(Some(far), 5, u64::MAX, i64::MIN);
    assert_eq!(l.pacing_delay(i64::MIN), Some(u64::MAX));
}

#[test]
fn successive_calls_keep_their_distance() {
    let mut l = limiter(None, 10, 500, NOON);
    let mut now = NOON;
    let mut previous: Option<i64> = None;
    for step in [0i64, 10, 700, 499, 500, 1] {
        now += step;
        if let Some(delay) = l.pacing_delay(now) {
            now += delay as i64;
        }
        request(&mut l, now).unwrap();
        if let Some(p) = previous {
            assert!(now - p >= 500);
        }
        previous = Some(now);
    }
}

#[test]
fn a_refused_call_consumes_nothing() {
    let state = TokenState {
        tokens_remaining: 0,
        last_reset: NOON,
        daily_limit: 0,
        calls_today: 0,
        last_call: None,
    };
    let mut l = limiter(Some(state), 0, 0, NOON);
    assert_eq!(request(&mut l, NOON + 1), Err(ExplorerError::RateLimited));
    assert_eq!(l.snapshot(), state);
    // With an empty budget a new day refuses too, and only the day is noted.
    assert_eq!(request(&mut l, NOON + DAY), Err(ExplorerError::RateLimited));
    assert_eq!(l.snapshot(), TokenState { last_reset: NOON + DAY, ..state });
}

#[test]
fn a_full_count_leaves_no_room() {
    let state = TokenState {
        tokens_remaining: 1,
        last_reset: NOON,
        daily_limit: 1,
        calls_today: u32::MAX,
        last_call: None,
    };
    let l = limiter(Some(state), 1, 0, NOON);
    assert!(!l.has_room(NOON));
    assert!(l.has_room(NOON + DAY));
}

#[test]
fn days_are_counted_from_the_epoch() {
    assert_eq!(utc_day_of(0), 0);
    assert_eq!(utc_day_of(DAY - 1), 0);
    assert_eq!(utc_day_of(DAY), 1);
    assert_eq!(utc_day_of(-1), -1);
    assert_eq!(utc_day_of(-DAY), -1);
    assert_eq!(utc_day_of(-DAY - 1), -2);
    assert_eq!(utc_day_of(NOON), 19787);
    assert_eq!(utc_day_of(i64::MAX), 106_751_991_167);
    assert_eq!(utc_day_of(i64::MIN), -106_751_991_168);
}

#[test]
fn the_demo_key_is_free() {
    assert!(!consumes_quota("demo"));
    assert!(consumes_quota("Demo"));
    assert!(consumes_quota("demo "));
    assert!(consumes_quota(""));
    assert!(consumes_quota("ABC123"));
}

#[test]
fn the_state_file_is_sought_at_home_first() {
    let home = || Some(format!("/home/u/{STATE_FILENAME}"));
    let local = "./.alphavantage-explorer-tokens.json";
    assert_eq!(resolve_state_path(home(), true, false, false), home().unwrap());
    assert_eq!(resolve_state_path(home(), false, false, true), home().unwrap());
    assert_eq!(resolve_state_path(home(), true, true, true), local);
    assert_eq!(resolve_state_path(home(), false, false, false), local);
    assert_eq!(resolve_state_path(home(), false, true, false), local);
    assert_eq!(resolve_state_path(None, true, false, true), local);
}
