//! The retry policy: which failures are worth another attempt, how many
//! attempts there are, and how long to wait between them.
//!
//! The policy decides; its caller makes the attempts and sleeps.

use rand::Rng;
use vstd::prelude::*;
use crate::error::ExplorerError;

verus! {

/// How often a request is tried again after its first attempt failed.
pub const MAX_RETRIES: u32 = 2;

/// The delay before the first retry, in milliseconds, without jitter.
pub const BASE_DELAY_MS: u64 = 500;

/// The largest jitter that is added to a delay, in milliseconds.
pub const MAX_JITTER_MS: u64 = 100;

/// The largest retry number whose delay fits the machine's integers.
pub const MAX_BACKOFF_ATTEMPT: u32 = 56;

/// What to do after a failed attempt.
#[derive(Debug, Clone, Copy, PartialEq, Eq)]
pub enum RetryDecision {
    /// Sleep for `delay_ms` milliseconds, then make the attempt with the
    /// number `attempt`, counted from one for the first retry.
    Retry { attempt: u32, delay_ms: u64 },
    /// Hand the error to the caller.
    GiveUp,
}

/// Transient failures: the network, I/O, the provider's rate limit, and the
/// HTTP statuses 429 and 500 and above.
pub open spec fn retriable(error: ExplorerError) -> bool {
    match error {
        ExplorerError::RateLimited => true,
        ExplorerError::Network(_) => true,
        ExplorerError::Io(_) => true,
        ExplorerError::HttpStatus(status) => status == 429 || status >= 500,
        _ => false,
    }
}

/// Two to the power of `n`.
pub open spec fn pow2(n: nat) -> nat
    decreases n,
{
    if n == 0 {
        1
    } else {
        2 * pow2((n - 1) as nat)
    }
}

/// The delay before retry number `attempt`, without jitter: the base delay,
/// doubled with every retry after the first.
pub open spec fn backoff_base(attempt: nat) -> nat {
    500 * pow2((attempt - 1) as nat)
}

/// What the policy decides after a failure with `error`, when `attempt`
/// retries were made before and `jitter` was drawn.
pub open spec fn decision(attempt: u32, error: ExplorerError, jitter: u64) -> RetryDecision {
    if attempt < MAX_RETRIES && retriable(error) {
        RetryDecision::Retry {
            attempt: (attempt + 1) as u32,
            delay_ms: (backoff_base((attempt + 1) as nat) + jitter) as u64,
        }
    } else {
        RetryDecision::GiveUp
    }
}

/// How many delays a run makes whose attempts end as `outcomes` say, in
/// order (`None` for success), after `attempt` retries were made before:
/// one for every failure that the policy answers with a retry.
pub open spec fn delays_made(outcomes: Seq<Option<ExplorerError>>, attempt: u32) -> nat
    decreases outcomes.len(),
{
    if outcomes.len() == 0 {
        0
    } else {
        match outcomes[0] {
            None => 0,
            Some(e) => match decision(attempt, e, 0) {
                RetryDecision::Retry { attempt: next, .. } => 1 + delays_made(
                    outcomes.drop_first(),
                    next,
                ),
                RetryDecision::GiveUp => 0,
            },
        }
    }
}

/// How a run ends whose attempts end as `outcomes` say: `Some(None)` for
/// success, `Some(Some(e))` for the error that is handed to the caller, and
/// `None` while the run waits for a further attempt.
pub open spec fn run_result(outcomes: Seq<Option<ExplorerError>>, attempt: u32) -> Option<
    Option<ExplorerError>,
>
    decreases outcomes.len(),
{
    if outcomes.len() == 0 {
        None
    } else {
        match outcomes[0] {
            None => Some(None),
            Some(e) => match decision(attempt, e, 0) {
                RetryDecision::Retry { attempt: next, .. } => run_result(
                    outcomes.drop_first(),
                    next,
                ),
                RetryDecision::GiveUp => Some(Some(e)),
            },
        }
    }
}

/// Whether the policy answers with a retry does not depend on the jitter,
/// nor does the number of the retry.
pub proof fn lemma_jitter_only_delays(attempt: u32, error: ExplorerError, a: u64, b: u64)
    ensures
        decision(attempt, error, a) is Retry <==> decision(attempt, error, b) is Retry,
        decision(attempt, error, a) is Retry <==> attempt < MAX_RETRIES && retriable(error),
        decision(attempt, error, a) is Retry ==> decision(attempt, error, a)->attempt == attempt
            + 1 && decision(attempt, error, b)->attempt == attempt + 1,
{
}

/// Whether a failure is worth another attempt.
pub fn is_retriable(error: &ExplorerError) -> (r: bool)
    ensures
        r == retriable(*error),
{
    match error {
        ExplorerError::RateLimited | ExplorerError::Network(_) | ExplorerError::Io(_) => true,
        ExplorerError::HttpStatus(status) => *status == 429 || *status >= 500,
        _ => false,
    }
}

/// The powers of two grow.
pub proof fn lemma_pow2_monotonic(a: nat, b: nat)
    requires
        a <= b,
    ensures
        pow2(a) <= pow2(b),
        pow2(a) >= 1,
    decreases b,
{
    if a < b {
        lemma_pow2_monotonic(a, (b - 1) as nat);
    } else if a > 0 {
        lemma_pow2_monotonic((a - 1) as nat, (b - 1) as nat);
    }
}

/// All delays up to the largest retry number fit 64 bits, jitter included.
pub proof fn lemma_backoff_fits(attempt: nat)
    requires
        1 <= attempt <= 56,
    ensures
        backoff_base(attempt) + 100 <= u64::MAX,
{
    lemma_pow2_monotonic((attempt - 1) as nat, 55);
    reveal_with_fuel(pow2, 56);
    assert(pow2(55) == 0x80_0000_0000_0000);
}

/// The delay before retry number `attempt` with the jitter given.
pub fn backoff_with_jitter(attempt: u32, jitter: u64) -> (delay_ms: u64)
    requires
        1 <= attempt <= MAX_BACKOFF_ATTEMPT,
        jitter <= MAX_JITTER_MS,
    ensures
        delay_ms == backoff_base(attempt as nat) + jitter,
{
    let mut base: u64 = BASE_DELAY_MS;
    let mut k: u32 = 1;
    while k < attempt
        invariant
            1 <= k <= attempt <= 56,
            base == backoff_base(k as nat),
        decreases attempt - k,
    {
        proof {
            lemma_backoff_fits((k + 1) as nat);
        }
        base = base * 2;
        k += 1;
    }
    proof {
        lemma_backoff_fits(attempt as nat);
    }
    base + jitter
}

/// A number between zero and `max`, both included, drawn by
/// `rand::Rng::gen_range` from the generator of the calling thread. Each
/// call may give another number; nothing but the range is known of it.
#[verifier::external_body]
fn random_up_to(max: u64) -> (drawn: u64)
    ensures
        drawn <= max,
{
    rand::thread_rng().gen_range(0..=max)
}

/// The delay before retry number `attempt`: the base delay, doubled with
/// every retry after the first, plus a jitter of at most a tenth of a second.
pub fn calculate_backoff(attempt: u32) -> (delay_ms: u64)
    requires
        1 <= attempt <= MAX_BACKOFF_ATTEMPT,
    ensures
        backoff_base(attempt as nat) <= delay_ms <= backoff_base(attempt as nat) + MAX_JITTER_MS,
{
    let jitter = random_up_to(MAX_JITTER_MS);
    backoff_with_jitter(attempt, jitter)
}

/// Decides what follows a failure with `error` after `attempt` retries,
/// with the jitter given.
pub fn decide(attempt: u32, error: &ExplorerError, jitter: u64) -> (d: RetryDecision)
    requires
        jitter <= MAX_JITTER_MS,
    ensures
        d == decision(attempt, *error, jitter),
{
    if attempt >= MAX_RETRIES {
        return RetryDecision::GiveUp;
    }
    if is_retriable(error) {
        let next = attempt + 1;
        RetryDecision::Retry { attempt: next, delay_ms: backoff_with_jitter(next, jitter) }
    } else {
        RetryDecision::GiveUp
    }
}

/// Decides what follows a failure with `error` after `attempt` retries,
/// and draws the jitter.
pub fn after_failure(attempt: u32, error: &ExplorerError) -> (d: RetryDecision)
    ensures
        exists|jitter: u64| jitter <= MAX_JITTER_MS && d == #[trigger] decision(attempt, *error, jitter),
        d is GiveUp <==> !(attempt < MAX_RETRIES && retriable(*error)),
{
    let jitter = random_up_to(MAX_JITTER_MS);
    decide(attempt, error, jitter)
}

/// A run makes two delays at most and three attempts at most, and hands
/// back the error of its last attempt where it gives up.
pub proof fn lemma_bounded_retries(outcomes: Seq<Option<ExplorerError>>, attempt: u32)
    requires
        attempt <= MAX_RETRIES,
    ensures
        delays_made(outcomes, attempt) <= MAX_RETRIES - attempt,
        delays_made(outcomes, attempt) <= outcomes.len(),
        run_result(outcomes, attempt) is Some ==> delays_made(outcomes, attempt) < outcomes.len(),
        run_result(outcomes, attempt) matches Some(r) ==> r == outcomes[delays_made(
            outcomes,
            attempt,
        ) as int],
        run_result(outcomes, attempt) matches Some(Some(e)) ==> !retriable(e) || delays_made(
            outcomes,
            attempt,
        ) == MAX_RETRIES - attempt,
    decreases outcomes.len(),
{
    if outcomes.len() > 0 {
        match outcomes[0] {
            None => {},
            Some(e) => {
                if attempt < MAX_RETRIES && retriable(e) {
                    lemma_bounded_retries(outcomes.drop_first(), (attempt + 1) as u32);
                }
            },
        }
    }
}

/// A fatal error ends the run at once, without a delay.
pub proof fn lemma_fatal_is_immediate(outcomes: Seq<Option<ExplorerError>>, e: ExplorerError)
    requires
        outcomes.len() > 0,
        outcomes[0] == Some(e),
        !retriable(e),
    ensures
        delays_made(outcomes, 0) == 0,
        run_result(outcomes, 0) == Some(Some(e)),
{
}

/// Two transient failures followed by a success end in success after two
/// delays.
pub proof fn lemma_third_attempt_succeeds(
    outcomes: Seq<Option<ExplorerError>>,
    first: ExplorerError,
    second: ExplorerError,
)
    requires
        outcomes.len() >= 3,
        outcomes[0] == Some(first),
        outcomes[1] == Some(second),
        outcomes[2] == None::<ExplorerError>,
        retriable(first),
        retriable(second),
    ensures
        delays_made(outcomes, 0) == 2,
        run_result(outcomes, 0) == Some(None::<ExplorerError>),
{
    let rest = outcomes.drop_first();
    let last = rest.drop_first();
    assert(rest[0] == outcomes[1]);
    assert(last[0] == outcomes[2]);
    assert(delays_made(last, 2) == 0);
    assert(delays_made(rest, 1) == 1);
    assert(run_result(last, 2) == Some(None::<ExplorerError>));
    assert(run_result(rest, 1) == Some(None::<ExplorerError>));
}

} // verus!
