//! The retry policy: exponential backoff bounded by an attempt count and a
//! total-delay budget.
//!
//! The engine is a state machine over plain values: callers report each
//! failed attempt, together with the time elapsed since the first attempt
//! as their clock measures it, and are told whether to retry after a delay
//! or to give up. The part of the program that sleeps supplies the waiting
//! itself.

use vstd::prelude::*;

use crate::errors::LlmError;

verus! {

/// Configuration of one multi-attempt operation. Intervals and the total
/// budget are in milliseconds; `multiplier` is in hundredths, so `200` means
/// each interval doubles.
#[derive(Debug, Clone, Copy, PartialEq, Eq, Structural)]
pub struct RetryConfig {
    pub max_retries: u32,
    pub initial_interval: u64,
    pub max_interval: u64,
    pub multiplier: u32,
    pub max_elapsed_time: u64,
}

impl Default for RetryConfig {
    /// Five retries, starting at one second, doubling up to one minute,
    /// within a five-minute budget.
    fn default() -> (r: Self)
        ensures
            r == RetryConfig::default_spec(),
    {
        RetryConfig {
            max_retries: 5,
            initial_interval: 1000,
            max_interval: 60000,
            multiplier: 200,
            max_elapsed_time: 300000,
        }
    }
}

impl RetryConfig {
    /// The default configuration.
    pub open spec fn default_spec() -> RetryConfig {
        RetryConfig {
            max_retries: 5,
            initial_interval: 1000,
            max_interval: 60000,
            multiplier: 200,
            max_elapsed_time: 300000,
        }
    }
}

/// `a + b`, capped at the largest `u64`.
pub open spec fn sat_add_u64(a: u64, b: u64) -> u64 {
    if a + b > u64::MAX {
        u64::MAX
    } else {
        (a + b) as u64
    }
}

/// The interval that follows `cur`: scaled by the multiplier and capped at
/// the configured maximum.
pub open spec fn next_interval_spec(cfg: RetryConfig, cur: u64) -> u64 {
    if (cur * cfg.multiplier) / 100 > cfg.max_interval {
        cfg.max_interval
    } else {
        ((cur * cfg.multiplier) / 100) as u64
    }
}

/// Computes the interval that follows `cur`.
pub fn next_interval(cfg: &RetryConfig, cur: u64) -> (r: u64)
    ensures
        r == next_interval_spec(*cfg, cur),
{
    proof {
        assert(cur as u128 * cfg.multiplier as u128 <= 0xffff_ffff_ffff_ffffu128
            * 0xffff_ffffu128) by (nonlinear_arith)
            requires
                cur as u128 <= 0xffff_ffff_ffff_ffffu128,
                cfg.multiplier as u128 <= 0xffff_ffffu128,
        ;
    }
    let scaled = (cur as u128 * cfg.multiplier as u128) / 100;
    if scaled > cfg.max_interval as u128 {
        cfg.max_interval
    } else {
        scaled as u64
    }
}

/// What to do after a failed attempt.
#[derive(Debug, Clone, Copy, PartialEq, Eq, Structural)]
pub enum RetryDecision {
    /// Suspend for this many milliseconds, then try again.
    RetryAfter(u64),
    /// Surface the error to the caller.
    GiveUp,
}

/// The mutable position of one multi-attempt operation: how many attempts
/// have failed, and the next delay.
#[derive(Debug, Clone, Copy, PartialEq, Eq, Structural)]
pub struct RetryState {
    pub attempt: u32,
    pub current_interval: u64,
}

/// An attempt number `attempt` that failed with a retryable error is retried
/// exactly when the attempt count and the delay budget both permit it.
pub open spec fn retry_permitted(cfg: RetryConfig, attempt: int, elapsed: int, retryable: bool) -> bool {
    retryable && attempt <= cfg.max_retries && elapsed <= cfg.max_elapsed_time
}

impl RetryState {
    /// The position before the first attempt.
    pub fn new(cfg: &RetryConfig) -> (r: Self)
        ensures
            r == (RetryState { attempt: 0, current_interval: cfg.initial_interval }),
    {
        RetryState { attempt: 0, current_interval: cfg.initial_interval }
    }

    /// Registers a failed attempt and decides whether to retry.
    ///
    /// `elapsed_ms` is the time since the first attempt, as the caller's
    /// clock measures it. On a retryable error within the attempt and
    /// elapsed-time budgets, the current interval is prescribed as the
    /// delay and scaled for the next round; otherwise the operation gives
    /// up with the error it has.
    pub fn on_error(&mut self, cfg: &RetryConfig, retryable: bool, elapsed_ms: u64) -> (r:
        RetryDecision)
        ensures
            final(self).attempt == if old(self).attempt < u32::MAX {
                (old(self).attempt + 1) as u32
            } else {
                u32::MAX
            },
            retry_permitted(*cfg, final(self).attempt as int, elapsed_ms as int, retryable) ==> {
                &&& r == RetryDecision::RetryAfter(old(self).current_interval)
                &&& final(self).current_interval == next_interval_spec(
                    *cfg,
                    old(self).current_interval,
                )
            },
            !retry_permitted(*cfg, final(self).attempt as int, elapsed_ms as int, retryable) ==> {
                &&& r == RetryDecision::GiveUp
                &&& final(self).current_interval == old(self).current_interval
            },
    {
        self.attempt = if self.attempt < u32::MAX {
            self.attempt + 1
        } else {
            u32::MAX
        };
        if !retryable || self.attempt > cfg.max_retries {
            return RetryDecision::GiveUp;
        }
        if elapsed_ms > cfg.max_elapsed_time {
            return RetryDecision::GiveUp;
        }
        let delay = self.current_interval;
        self.current_interval = next_interval(cfg, delay);
                RetryDecision::RetryAfter(delay)
    }
}

/// An error is transient exactly when the classifier tags it as rate
/// limiting or as a server-side failure.
pub open spec fn retryable_spec(e: LlmError) -> bool {
    (e matches LlmError::RateLimit(_)) || (e matches LlmError::ServerError(_))
}

/// How many attempts a run of the policy performs, for a scripted series of
/// attempt outcomes (`None` an eventual success, `Some` a failure), starting
/// at attempt number `i` with the given delay budget spent and next delay.
pub open spec fn sim_attempts(
    cfg: RetryConfig,
    outcomes: Seq<Option<LlmError>>,
    i: int,
    elapsed: u64,
    current: u64,
) -> int
    decreases outcomes.len() - i,
{
    if i < 0 || i >= outcomes.len() {
        i
    } else {
        match outcomes[i] {
            None => i + 1,
            Some(e) => if retry_permitted(cfg, i + 1, elapsed as int, retryable_spec(e)) {
                sim_attempts(
                    cfg,
                    outcomes,
                    i + 1,
                    sat_add_u64(elapsed, current),
                    next_interval_spec(cfg, current),
                )
            } else {
                i + 1
            },
        }
    }
}

/// What one run of the policy did.
#[derive(Debug, Clone, Copy, PartialEq, Eq, Structural)]
pub struct RetryRunReport {
    /// Attempts performed, the first one included.
    pub attempts: usize,
    /// Whether the final attempt succeeded.
    pub succeeded: bool,
}

/// Runs the retry policy against a scripted series of attempt outcomes: the
/// attempt at position `k` of `outcomes` yields `None` for success or
/// `Some(error)`. Attempts are taken as instantaneous, so the elapsed time
/// held against the budget is the sum of the delays prescribed so far. The
/// run stops at the first success, at the first error the policy refuses to
/// retry, or when the script is exhausted.
#[verifier::loop_isolation(false)]
pub fn run_retry_schedule(cfg: &RetryConfig, outcomes: &Vec<Option<LlmError>>) -> (r:
    RetryRunReport)
    requires
        outcomes@.len() < u32::MAX,
    ensures
        r.attempts == sim_attempts(*cfg, outcomes@, 0, 0, cfg.initial_interval),
        r.attempts <= outcomes@.len(),
        r.succeeded == (r.attempts >= 1 && outcomes@[r.attempts - 1] is None),
{
    let mut state = RetryState::new(cfg);
    let mut elapsed: u64 = 0;
    let mut i: usize = 0;
    loop
        invariant
            i <= outcomes@.len(),
            state.attempt == i,
            i <= u32::MAX,
            sim_attempts(*cfg, outcomes@, 0, 0, cfg.initial_interval) == sim_attempts(
                *cfg,
                outcomes@,
                i as int,
                elapsed,
                state.current_interval,
            ),
            forall|k: int| 0 <= k < i ==> (#[trigger] outcomes@[k]) is Some,
        decreases outcomes@.len() - i,
    {
        if i >= outcomes.len() {
            return RetryRunReport { attempts: i, succeeded: false };
        }
        match &outcomes[i] {
            None => {
                return RetryRunReport { attempts: i + 1, succeeded: true };
            },
            Some(e) => {
                let retryable = e.is_retryable();
                let delay_base = state.current_interval;
                match state.on_error(cfg, retryable, elapsed) {
                    RetryDecision::GiveUp => {
                        return RetryRunReport { attempts: i + 1, succeeded: false };
                    },
                    RetryDecision::RetryAfter(delay) => {
                        elapsed = elapsed.saturating_add(delay);
                        proof {
                            assert(delay == delay_base);
                        }
                    },
                }
            },
        }
        i = i + 1;
    }
}

/// With the retry count capped at two and every attempt rate limited, the
/// policy performs exactly three attempts, the initial one included, and
/// surfaces the rate-limit error of the last.
pub proof fn lemma_rate_limited_exhaustion(cfg: RetryConfig, outcomes: Seq<Option<LlmError>>)
    requires
        cfg == (RetryConfig { max_retries: 2, ..RetryConfig::default_spec() }),
        outcomes.len() >= 3,
        forall|k: int|
            0 <= k < outcomes.len() ==> (#[trigger] outcomes[k]) matches Some(
                LlmError::RateLimit(_),
            ),
    ensures
        sim_attempts(cfg, outcomes, 0, 0, cfg.initial_interval) == 3,
        outcomes[sim_attempts(cfg, outcomes, 0, 0, cfg.initial_interval) - 1] matches Some(
            LlmError::RateLimit(_),
        ),
{
    assert(outcomes[0] matches Some(LlmError::RateLimit(_)));
    assert(outcomes[1] matches Some(LlmError::RateLimit(_)));
    assert(outcomes[2] matches Some(LlmError::RateLimit(_)));
    assert(next_interval_spec(cfg, 1000) == 2000);
    assert(sat_add_u64(0, 1000) == 1000);
    assert(sat_add_u64(1000, 2000) == 3000);
    assert(sim_attempts(cfg, outcomes, 2, 3000, 4000) == 3);
    assert(sim_attempts(cfg, outcomes, 1, 1000, 2000) == 3);
    assert(sim_attempts(cfg, outcomes, 0, 0, 1000) == 3);
}

/// A non-retryable error on the first attempt ends the run after exactly one
/// attempt, whatever the configuration.
pub proof fn lemma_terminal_error_single_attempt(
    cfg: RetryConfig,
    outcomes: Seq<Option<LlmError>>,
)
    requires
        outcomes.len() >= 1,
        outcomes[0] matches Some(e) && !retryable_spec(e),
    ensures
        sim_attempts(cfg, outcomes, 0, 0, cfg.initial_interval) == 1,
{
}

} // verus!
