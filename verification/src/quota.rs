//! The quota tracker: a daily call budget with a minimum spacing between
//! calls.
//!
//! The tracker owns the budget and decides; it neither reads the clock nor
//! sleeps nor touches the state file. Its caller reads the clock, hands the
//! time in as milliseconds since the Unix epoch (UTC), sleeps for the delay
//! the tracker asks for, and stores the snapshot that a granted call returns.

use vstd::prelude::*;
use vstd::string::StringExecFns;
use crate::error::ExplorerError;

verus! {

/// The daily limit of an installation that configures none.
pub const DEFAULT_DAILY_LIMIT: u32 = 25;

/// The name of the file that holds the stored state.
pub const STATE_FILENAME: &'static str = ".alphavantage-explorer-tokens.json";

/// The length of a UTC calendar day in milliseconds.
pub const MILLIS_PER_DAY: i64 = 86_400_000;

/// The budget as it is stored between runs.
#[derive(Debug, Clone, Copy, PartialEq, Eq)]
pub struct TokenState {
    /// Calls still permitted today.
    pub tokens_remaining: u32,
    /// When the budget was last replenished, in milliseconds since the epoch.
    pub last_reset: i64,
    /// Calls permitted per UTC calendar day.
    pub daily_limit: u32,
    /// Calls consumed since the last replenishment.
    pub calls_today: u32,
    /// When the most recent call was granted, in milliseconds since the epoch.
    pub last_call: Option<i64>,
}

/// The UTC calendar day that holds the instant `ms`, counted from the epoch.
pub open spec fn utc_day(ms: int) -> int {
    ms / 86_400_000
}

/// A full budget of the limit given, replenished at `now`, with no call
/// made yet.
pub open spec fn fresh_state(now: i64, daily_limit: u32) -> TokenState {
    TokenState {
        tokens_remaining: daily_limit,
        last_reset: now,
        daily_limit,
        calls_today: 0,
        last_call: None,
    }
}

/// The state that a tracker starts with: without a stored state, a full
/// budget of the configured limit; with one, the stored state after the
/// configured limit has been adopted and the calendar has been checked.
pub open spec fn started(loaded: Option<TokenState>, daily_limit: u32, now: i64) -> TokenState {
    match loaded {
        Some(s) => rolled_over(reconciled(s, daily_limit), now),
        None => fresh_state(now, daily_limit),
    }
}

/// The state after the configured limit has been adopted: a larger limit
/// raises what is left to it, a smaller one leaves what is left untouched.
pub open spec fn reconciled(s: TokenState, daily_limit: u32) -> TokenState {
    if s.daily_limit == daily_limit {
        s
    } else if daily_limit > s.tokens_remaining {
        TokenState { daily_limit, tokens_remaining: daily_limit, ..s }
    } else {
        TokenState { daily_limit, ..s }
    }
}

/// Whether `now` lies on a later UTC calendar day than the last replenishment.
pub open spec fn is_new_day(s: TokenState, now: i64) -> bool {
    utc_day(now as int) > utc_day(s.last_reset as int)
}

/// The state after the calendar check: on a later day the budget is full
/// again and nothing counts as consumed.
pub open spec fn rolled_over(s: TokenState, now: i64) -> TokenState {
    if is_new_day(s, now) {
        TokenState { tokens_remaining: s.daily_limit, calls_today: 0, last_reset: now, ..s }
    } else {
        s
    }
}

/// The state after one call has been granted at `now`.
pub open spec fn consumed(s: TokenState, now: i64) -> TokenState {
    TokenState {
        tokens_remaining: (s.tokens_remaining - 1) as u32,
        calls_today: (s.calls_today + 1) as u32,
        last_call: Some(now),
        ..s
    }
}

/// Whether a call asked for at `now` is granted.
pub open spec fn grants(s: TokenState, now: i64) -> bool {
    rolled_over(s, now).tokens_remaining > 0
}

/// The state after a call was asked for at `now`, granted or not.
pub open spec fn after_request(s: TokenState, now: i64) -> TokenState {
    if grants(s, now) {
        consumed(rolled_over(s, now), now)
    } else {
        rolled_over(s, now)
    }
}

/// Whether the count of today's calls can take one more call at `now`.
pub open spec fn has_room(s: TokenState, now: i64) -> bool {
    grants(s, now) ==> rolled_over(s, now).calls_today < u32::MAX
}

/// How long a caller has to stay idle at `now` before the next call, in
/// milliseconds; zero when no call was made yet or enough time has passed.
pub open spec fn remaining_delay(s: TokenState, min_delay_ms: u64, now: i64) -> int {
    match s.last_call {
        Some(last) => if now - last < min_delay_ms {
            min_delay_ms - (now - last)
        } else {
            0
        },
        None => 0,
    }
}

/// The state after `times.len()` calls were asked for, at the instants given.
pub open spec fn after_requests(s: TokenState, times: Seq<i64>) -> TokenState
    decreases times.len(),
{
    if times.len() == 0 {
        s
    } else {
        after_request(after_requests(s, times.drop_last()), times.last())
    }
}

/// The answer to a request for one call.
#[derive(Debug, Clone, Copy, PartialEq, Eq)]
pub enum Acquire {
    /// Too early: sleep for so many milliseconds, then ask again.
    Sleep(u64),
    /// Granted; the state to store.
    Granted(TokenState),
    /// The budget of the day is used up.
    Refused,
}

/// The delay that a caller is told to sleep: what is missing of the
/// minimum spacing, or the largest number of 64 bits where more is missing.
pub open spec fn delay_asked(s: TokenState, min_delay_ms: u64, now: i64) -> u64 {
    if remaining_delay(s, min_delay_ms, now) <= u64::MAX {
        remaining_delay(s, min_delay_ms, now) as u64
    } else {
        u64::MAX
    }
}

/// The state after, and the answer to, a request at `now` under the
/// budget and the minimum spacing.
pub open spec fn acquired(s: TokenState, min_delay_ms: u64, now: i64) -> (TokenState, Acquire) {
    if remaining_delay(s, min_delay_ms, now) > 0 {
        (s, Acquire::Sleep(delay_asked(s, min_delay_ms, now)))
    } else if grants(s, now) {
        (after_request(s, now), Acquire::Granted(after_request(s, now)))
    } else {
        (after_request(s, now), Acquire::Refused)
    }
}

/// The state after the first `k` of the requests made at the instants
/// `times`, in order.
pub open spec fn state_at(s: TokenState, min_delay_ms: u64, times: Seq<i64>, k: int) -> TokenState
    decreases k,
{
    if k <= 0 {
        s
    } else {
        acquired(state_at(s, min_delay_ms, times, k - 1), min_delay_ms, times[k - 1]).0
    }
}

/// Whether the request number `k` of a run, counted from zero, is granted.
pub open spec fn granted_at(s: TokenState, min_delay_ms: u64, times: Seq<i64>, k: int) -> bool {
    acquired(state_at(s, min_delay_ms, times, k), min_delay_ms, times[k]).1 is Granted
}

/// Computes the UTC calendar day of an instant.
pub fn utc_day_of(ms: i64) -> (day: i64)
    ensures
        day == utc_day(ms as int),
{
    if ms >= 0 {
        ms / MILLIS_PER_DAY
    } else {
        let below: i64 = -(ms + 1);
        let q: i64 = below / MILLIS_PER_DAY;
        proof {
            let d = 86_400_000int;
            let r = below as int % d;
            // ms == -(q * d + r) - 1 == (-q - 1) * d + (d - 1 - r)
            assert(below as int == q as int * d + r) by (nonlinear_arith)
                requires
                    q as int == below as int / d,
                    r == below as int % d,
                    d == 86_400_000int,
            ;
            assert(0 <= r < d);
            vstd::arithmetic::div_mod::lemma_fundamental_div_mod_converse(
                ms as int,
                d,
                -(q as int) - 1,
                d - 1 - r,
            );
        }
        -q - 1
    }
}

impl TokenState {
    /// A full budget of the limit given, replenished at `now_ms`, with no
    /// call made yet.
    pub fn new(now_ms: i64, daily_limit: u32) -> (s: Self)
        ensures
            s == fresh_state(now_ms, daily_limit),
    {
        TokenState {
            tokens_remaining: daily_limit,
            last_reset: now_ms,
            daily_limit,
            calls_today: 0,
            last_call: None,
        }
    }

    /// Whether two states hold the same.
    pub fn same_as(&self, other: &TokenState) -> (r: bool)
        ensures
            r == (*self == *other),
    {
        let same_call = match (self.last_call, other.last_call) {
            (Some(a), Some(b)) => a == b,
            (None, None) => true,
            _ => false,
        };
        same_call && self.tokens_remaining == other.tokens_remaining && self.last_reset
            == other.last_reset && self.daily_limit == other.daily_limit && self.calls_today
            == other.calls_today
    }
}

/// Where the state file lives, given what the caller found on disk: the
/// file in the home directory if it exists and is writable, or does not
/// exist while the home directory is writable; else a file in the working
/// directory.
pub open spec fn state_path_spec(
    home_file: Option<Seq<char>>,
    file_exists: bool,
    file_readonly: bool,
    home_writable: bool,
) -> Seq<char> {
    match home_file {
        Some(path) => if (file_exists && !file_readonly) || (!file_exists && home_writable) {
            path
        } else {
            "./.alphavantage-explorer-tokens.json"@
        },
        None => "./.alphavantage-explorer-tokens.json"@,
    }
}

/// Picks the state file. `home_file` is the path of the state file inside
/// the user's home directory, where there is such a directory.
pub fn resolve_state_path(
    home_file: Option<String>,
    file_exists: bool,
    file_readonly: bool,
    home_writable: bool,
) -> (path: String)
    ensures
        path@ == state_path_spec(
            match home_file {
                Some(p) => Some(p@),
                None => None,
            },
            file_exists,
            file_readonly,
            home_writable,
        ),
{
    match home_file {
        Some(path) => {
            if (file_exists && !file_readonly) || (!file_exists && home_writable) {
                return path;
            }
        },
        None => {},
    }
    String::from_str("./.alphavantage-explorer-tokens.json")
}

/// The quota tracker of one installation.
pub struct RateLimiter {
    state: TokenState,
    state_path: String,
    min_delay_ms: u64,
}

impl RateLimiter {
    /// The budget as the tracker holds it.
    pub closed spec fn state(&self) -> TokenState {
        self.state
    }

    /// The minimum spacing between two calls, in milliseconds.
    pub closed spec fn min_delay(&self) -> u64 {
        self.min_delay_ms
    }

    /// The path of the state file.
    pub closed spec fn path(&self) -> Seq<char> {
        self.state_path@
    }

    /// Starts a tracker from what the state file held (`None` where it was
    /// absent or unreadable). Without a stored state the tracker starts with
    /// a full budget of the configured limit. A stored state is taken over:
    /// the configured limit is adopted, and the budget is replenished if a
    /// new calendar day has begun.
    pub fn with_path(
        state_path: String,
        loaded: Option<TokenState>,
        daily_limit: u32,
        min_delay_ms: u64,
        now_ms: i64,
    ) -> (limiter: Self)
        ensures
            limiter.path() == state_path@,
            limiter.min_delay() == min_delay_ms,
            limiter.state() == started(loaded, daily_limit, now_ms),
    {
        match loaded {
            Some(stored) => {
                let mut state = stored;
                if state.daily_limit != daily_limit {
                    state.daily_limit = daily_limit;
                    if daily_limit > state.tokens_remaining {
                        state.tokens_remaining = daily_limit;
                    }
                }
                let mut limiter = RateLimiter { state, state_path, min_delay_ms };
                limiter.check_reset(now_ms);
                limiter
            },
            None => RateLimiter {
                state: TokenState::new(now_ms, daily_limit),
                state_path,
                min_delay_ms,
            },
        }
    }

    /// Replenishes the budget if `now_ms` lies on a later UTC calendar day
    /// than the last replenishment.
    pub fn check_reset(&mut self, now_ms: i64)
        ensures
            final(self).state() == rolled_over(old(self).state(), now_ms),
            final(self).min_delay() == old(self).min_delay(),
            final(self).path() == old(self).path(),
    {
        let today = utc_day_of(now_ms);
        let last_day = utc_day_of(self.state.last_reset);
        if today > last_day {
            self.state.tokens_remaining = self.state.daily_limit;
            self.state.calls_today = 0;
            self.state.last_reset = now_ms;
        }
    }

    /// How long the caller has to sleep before it asks for a call, in
    /// milliseconds: what is missing of the minimum spacing since the last
    /// granted call. `None` where nothing is missing. A delay beyond the
    /// range of `u64` is reported as `u64::MAX`.
    pub fn pacing_delay(&self, now_ms: i64) -> (delay: Option<u64>)
        ensures
            remaining_delay(self.state(), self.min_delay(), now_ms) == 0 <==> delay is None,
            delay matches Some(d) ==> d == if remaining_delay(
                self.state(),
                self.min_delay(),
                now_ms,
            ) <= u64::MAX {
                remaining_delay(self.state(), self.min_delay(), now_ms)
            } else {
                u64::MAX as int
            },
    {
        match self.state.last_call {
            Some(last) => {
                let elapsed: i128 = now_ms as i128 - last as i128;
                let min_delay: i128 = self.min_delay_ms as i128;
                if elapsed < min_delay {
                    let missing: i128 = min_delay - elapsed;
                    if missing > u64::MAX as i128 {
                        Some(u64::MAX)
                    } else {
                        Some(missing as u64)
                    }
                } else {
                    None
                }
            },
            None => None,
        }
    }

    /// Whether the count of today's calls can take one more call at
    /// `now_ms`: the condition under which [`RateLimiter::wait`] may be
    /// called.
    pub fn has_room(&self, now_ms: i64) -> (r: bool)
        ensures
            r == has_room(self.state(), now_ms),
    {
        let today = utc_day_of(now_ms);
        let last_day = utc_day_of(self.state.last_reset);
        if today > last_day {
            true
        } else {
            self.state.tokens_remaining == 0 || self.state.calls_today < u32::MAX
        }
    }

    /// Asks for one call at `now_ms`, once the minimum delay since the last
    /// granted call has passed: [`RateLimiter::pacing_delay`] says how much
    /// of it is missing, and [`RateLimiter::acquire`] is the request that may
    /// be made at any time.
    ///
    /// The budget is replenished first if a new calendar day has begun. With
    /// a call left, one is consumed, `now_ms` becomes the time of the last
    /// call, and the new state is returned for the caller to store. With none
    /// left the answer is `RateLimited` and nothing is consumed.
    pub fn wait(&mut self, now_ms: i64) -> (granted: Result<TokenState, ExplorerError>)
        requires
            remaining_delay(old(self).state(), old(self).min_delay(), now_ms) == 0,
            has_room(old(self).state(), now_ms),
        ensures
            final(self).state() == after_request(old(self).state(), now_ms),
            granted is Ok ==> final(self).state().last_call == Some(now_ms) && (old(
                self,
            ).state().last_call matches Some(last) ==> now_ms - last >= old(self).min_delay()),
            granted is Err ==> final(self).state().last_call == old(self).state().last_call,
            final(self).min_delay() == old(self).min_delay(),
            final(self).path() == old(self).path(),
            grants(old(self).state(), now_ms) ==> granted == Ok::<TokenState, ExplorerError>(
                final(self).state(),
            ),
            !grants(old(self).state(), now_ms) ==> granted == Err::<TokenState, ExplorerError>(
                ExplorerError::RateLimited,
            ),
    {
        self.check_reset(now_ms);
        if self.state.tokens_remaining > 0 {
            self.state.tokens_remaining -= 1;
            self.state.calls_today += 1;
            self.state.last_call = Some(now_ms);
            Ok(self.state)
        } else {
            Err(ExplorerError::RateLimited)
        }
    }

    /// Asks for one call at `now_ms`, under the daily budget and the minimum
    /// spacing.
    ///
    /// While the minimum delay since the last granted call has not passed,
    /// the answer is how long the caller has to sleep before it asks again,
    /// and nothing changes. Else the request is answered from the budget as
    /// [`RateLimiter::wait`] answers it: granted, with the new state for the
    /// caller to store, or refused.
    pub fn acquire(&mut self, now_ms: i64) -> (answer: Acquire)
        requires
            remaining_delay(old(self).state(), old(self).min_delay(), now_ms) == 0 ==> has_room(
                old(self).state(),
                now_ms,
            ),
        ensures
            final(self).state() == acquired(old(self).state(), old(self).min_delay(), now_ms).0,
            answer == acquired(old(self).state(), old(self).min_delay(), now_ms).1,
            final(self).min_delay() == old(self).min_delay(),
            final(self).path() == old(self).path(),
            answer is Granted ==> (old(self).state().last_call matches Some(last) ==> now_ms - last
                >= old(self).min_delay()),
    {
        match self.pacing_delay(now_ms) {
            Some(delay) => Acquire::Sleep(delay),
            None => match self.wait(now_ms) {
                Ok(state) => Acquire::Granted(state),
                Err(_) => Acquire::Refused,
            },
        }
    }

    /// The budget as the tracker holds it.
    pub fn snapshot(&self) -> (s: TokenState)
        ensures
            s == self.state(),
    {
        self.state
    }

    /// The path of the state file.
    pub fn state_path(&self) -> (p: &str)
        ensures
            p@ == self.path(),
    {
        self.state_path.as_str()
    }

    /// The minimum spacing between two calls, in milliseconds.
    pub fn min_delay_ms(&self) -> (d: u64)
        ensures
            d == self.min_delay(),
    {
        self.min_delay_ms
    }
}

/// Whether a call made under this key consumes quota: the demonstration
/// key `demo` is free and unpaced, every other key is counted.
pub fn consumes_quota(api_key: &str) -> (r: bool)
    ensures
        r == (api_key@ != "demo"@),
{
    !crate::text::str_eq(api_key, "demo")
}

/// A budget of `n` calls grants exactly `n` calls within one calendar day:
/// of `n + 1` requests on the day of the last replenishment the first `n`
/// are granted and the last is refused, with nothing left and `n` counted.
pub proof fn lemma_daily_budget(s: TokenState, times: Seq<i64>)
    requires
        s.tokens_remaining as int + s.calls_today as int <= u32::MAX,
        times.len() == s.tokens_remaining + 1,
        forall|i: int| 0 <= i < times.len() ==> !is_new_day(s, #[trigger] times[i]),
    ensures
        forall|i: int|
            0 <= i < s.tokens_remaining ==> grants(
                #[trigger] after_requests(s, times.take(i)),
                times[i],
            ),
        !grants(after_requests(s, times.drop_last()), times.last()),
        after_requests(s, times).tokens_remaining == 0,
        after_requests(s, times).calls_today == s.calls_today + s.tokens_remaining,
{
    assert forall|i: int| 0 <= i <= s.tokens_remaining implies ({
        let t = #[trigger] after_requests(s, times.take(i));
        &&& t.tokens_remaining == s.tokens_remaining - i
        &&& t.calls_today == s.calls_today + i
        &&& t.last_reset == s.last_reset
    }) by {
        lemma_budget_after(s, times, i);
    }
    assert(times.take(s.tokens_remaining as int) =~= times.drop_last());
    assert(times.take(times.len() as int) =~= times);
    lemma_budget_after(s, times, times.len() as int);
}

/// What is left and what is counted after the first `k` of a run of
/// requests on the day of the last replenishment.
pub proof fn lemma_budget_after(s: TokenState, times: Seq<i64>, k: int)
    requires
        s.tokens_remaining as int + s.calls_today as int <= u32::MAX,
        0 <= k <= times.len(),
        forall|i: int| 0 <= i < times.len() ==> !is_new_day(s, #[trigger] times[i]),
    ensures
        ({
            let t = after_requests(s, times.take(k));
            let used = if k <= s.tokens_remaining {
                k
            } else {
                s.tokens_remaining as int
            };
            &&& t.tokens_remaining == s.tokens_remaining - used
            &&& t.calls_today == s.calls_today + used
            &&& t.last_reset == s.last_reset
            &&& t.daily_limit == s.daily_limit
        }),
    decreases k,
{
    if k > 0 {
        lemma_budget_after(s, times, k - 1);
        assert(times.take(k).drop_last() =~= times.take(k - 1));
        assert(times.take(k).last() == times[k - 1]);
        assert(!is_new_day(s, times[k - 1]));
    } else {
        assert(times.take(0).len() == 0);
    }
}

/// When the budget is full: on every start without a stored state, and on
/// every start and request that begins a new calendar day.
pub proof fn lemma_full_budget(loaded: Option<TokenState>, daily_limit: u32, now: i64)
    ensures
        started(loaded, daily_limit, now).daily_limit == daily_limit,
        loaded is None ==> started(loaded, daily_limit, now) == (TokenState {
            tokens_remaining: daily_limit,
            last_reset: now,
            daily_limit,
            calls_today: 0,
            last_call: None,
        }),
        loaded matches Some(s) && is_new_day(s, now) ==> started(
            loaded,
            daily_limit,
            now,
        ).tokens_remaining == daily_limit && started(loaded, daily_limit, now).calls_today == 0
            && started(loaded, daily_limit, now).last_reset == now,
{
}

/// A tracker that starts without a stored state grants exactly as many
/// calls as its limit says within the calendar day: of `daily_limit + 1`
/// requests on the day of the start the last is refused and all before it
/// are granted.
pub proof fn lemma_first_start_budget(daily_limit: u32, now: i64, times: Seq<i64>)
    requires
        times.len() == daily_limit + 1,
        forall|i: int| 0 <= i < times.len() ==> utc_day(#[trigger] times[i] as int) <= utc_day(now as int),
    ensures
        forall|i: int|
            0 <= i < daily_limit ==> grants(
                #[trigger] after_requests(started(None, daily_limit, now), times.take(i)),
                times[i],
            ),
        !grants(after_requests(started(None, daily_limit, now), times.drop_last()), times.last()),
        after_requests(started(None, daily_limit, now), times).calls_today == daily_limit,
{
    lemma_daily_budget(started(None, daily_limit, now), times);
}

/// One budget spans a restart: a tracker that is started again on the same
/// calendar day from what an earlier one stored, with the same limit, has
/// left what the earlier one had left.
pub proof fn lemma_budget_spans_restart(stored: TokenState, now: i64)
    requires
        !is_new_day(stored, now),
    ensures
        started(Some(stored), stored.daily_limit, now) == stored,
{
}

/// On the first request of a later calendar day a non-empty budget grants
/// the call, whatever was left the day before, and counts it as the first.
pub proof fn lemma_new_day_grants(s: TokenState, now: i64)
    requires
        is_new_day(s, now),
        s.daily_limit > 0,
    ensures
        grants(s, now),
        has_room(s, now),
        after_request(s, now).calls_today == 1,
        after_request(s, now).tokens_remaining == s.daily_limit - 1,
        after_request(s, now).last_reset == now,
        after_request(s, now).last_call == Some(now),
{
}

/// A caller that resumes no earlier than the delay it was told to sleep
/// keeps the minimum spacing: a call granted then lies at least the minimum
/// delay after the call granted before it.
pub proof fn lemma_pacing_keeps_spacing(s: TokenState, min_delay_ms: u64, now: i64, resumed: i64)
    requires
        s.last_call is Some,
        resumed - now >= remaining_delay(s, min_delay_ms, now),
        resumed >= now,
    ensures
        resumed - s.last_call->0 >= min_delay_ms,
        grants(s, resumed) ==> after_request(s, resumed).last_call == Some(resumed),
        !grants(s, resumed) ==> after_request(s, resumed).last_call == s.last_call,
{
}

/// A request is granted only when the minimum delay since the last
/// granted call has passed; it then becomes the last granted call. Any
/// other answer leaves the time of the last granted call as it was.
pub proof fn lemma_acquire_keeps_spacing(s: TokenState, min_delay_ms: u64, now: i64)
    ensures
        acquired(s, min_delay_ms, now).1 is Granted ==> acquired(s, min_delay_ms, now).0.last_call
            == Some(now) && (s.last_call matches Some(last) ==> now - last >= min_delay_ms),
        !(acquired(s, min_delay_ms, now).1 is Granted) ==> acquired(
            s,
            min_delay_ms,
            now,
        ).0.last_call == s.last_call,
        acquired(s, min_delay_ms, now).1 matches Acquire::Sleep(d) ==> d > 0 && acquired(
            s,
            min_delay_ms,
            now,
        ).0 == s,
{
}

/// In a run of requests, the time of the last granted call is the instant
/// of the latest request that was granted, if one was.
pub proof fn lemma_last_call_in_run(
    s: TokenState,
    min_delay_ms: u64,
    times: Seq<i64>,
    i: int,
    k: int,
)
    requires
        0 <= i < k <= times.len(),
        granted_at(s, min_delay_ms, times, i),
    ensures
        exists|g: int|
            i <= g < k && #[trigger] granted_at(s, min_delay_ms, times, g) && state_at(
                s,
                min_delay_ms,
                times,
                k,
            ).last_call == Some(times[g]),
    decreases k,
{
    lemma_acquire_keeps_spacing(state_at(s, min_delay_ms, times, k - 1), min_delay_ms, times[k - 1]);
    if granted_at(s, min_delay_ms, times, k - 1) {
        assert(granted_at(s, min_delay_ms, times, k - 1) && state_at(
            s,
            min_delay_ms,
            times,
            k,
        ).last_call == Some(times[k - 1]));
    } else {
        lemma_last_call_in_run(s, min_delay_ms, times, i, k - 1);
        let g = choose|g: int|
            i <= g < k - 1 && #[trigger] granted_at(s, min_delay_ms, times, g) && state_at(
                s,
                min_delay_ms,
                times,
                k - 1,
            ).last_call == Some(times[g]);
        assert(granted_at(s, min_delay_ms, times, g) && state_at(
            s,
            min_delay_ms,
            times,
            k,
        ).last_call == Some(times[g]));
    }
}

/// The minimum spacing: of the requests of a run, whenever they are made,
/// any two that are granted lie at least the minimum delay apart.
pub proof fn lemma_grants_are_spaced(
    s: TokenState,
    min_delay_ms: u64,
    times: Seq<i64>,
    i: int,
    j: int,
)
    requires
        0 <= i < j < times.len(),
        granted_at(s, min_delay_ms, times, i),
        granted_at(s, min_delay_ms, times, j),
    ensures
        times[j] - times[i] >= min_delay_ms,
    decreases j - i,
{
    lemma_last_call_in_run(s, min_delay_ms, times, i, j);
    let g = choose|g: int|
        i <= g < j && #[trigger] granted_at(s, min_delay_ms, times, g) && state_at(
            s,
            min_delay_ms,
            times,
            j,
        ).last_call == Some(times[g]);
    lemma_acquire_keeps_spacing(state_at(s, min_delay_ms, times, j), min_delay_ms, times[j]);
    if g > i {
        lemma_grants_are_spaced(s, min_delay_ms, times, i, g);
    }
}

/// The budget stays within its limit, and what is left and what is counted
/// add up to the limit, from one request to the next; a new calendar day
/// makes both true whatever was stored.
pub proof fn lemma_accounts_balance(s: TokenState, now: i64)
    ensures
        s.tokens_remaining <= s.daily_limit ==> after_request(s, now).tokens_remaining
            <= after_request(s, now).daily_limit,
        s.tokens_remaining + s.calls_today == s.daily_limit ==> after_request(
            s,
            now,
        ).tokens_remaining + after_request(s, now).calls_today == s.daily_limit,
        is_new_day(s, now) ==> after_request(s, now).tokens_remaining + after_request(
            s,
            now,
        ).calls_today == s.daily_limit,
        after_request(s, now).daily_limit == s.daily_limit,
{
}

/// What is left never grows within a calendar day, and a refused request
/// changes nothing.
pub proof fn lemma_request_within_day(s: TokenState, now: i64)
    requires
        !is_new_day(s, now),
    ensures
        after_request(s, now).tokens_remaining <= s.tokens_remaining,
        !grants(s, now) ==> after_request(s, now) == s,
        grants(s, now) ==> after_request(s, now).tokens_remaining + 1 == s.tokens_remaining,
{
}

} // verus!
