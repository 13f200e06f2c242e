use vstd::prelude::*;

use crate::errors::TransferError;

verus! {

/// Base backoff delay in milliseconds.
pub const RETRY_BASE_DELAY_MS: u64 = 1000;

/// Cap on the backoff delay in milliseconds.
pub const RETRY_DELAY_CAP_MS: u64 = 30000;

/// The canonical bounded attempt count.
pub const DEFAULT_MAX_ATTEMPTS: u32 = 3;

pub open spec fn spec_pow2(n: nat) -> nat
    decreases n,
{
    if n == 0 {
        1
    } else {
        2 * spec_pow2((n - 1) as nat)
    }
}

/// The delay slept after a failed attempt: `min(base * 2^(attempt-1), cap)`.
pub open spec fn spec_backoff_delay_ms(attempt: nat) -> nat
    recommends
        attempt >= 1,
{
    let raw = (RETRY_BASE_DELAY_MS as nat) * spec_pow2((attempt - 1) as nat);
    if raw <= RETRY_DELAY_CAP_MS as nat {
        raw
    } else {
        RETRY_DELAY_CAP_MS as nat
    }
}

proof fn lemma_pow2_mono(m: nat, n: nat)
    requires
        m <= n,
    ensures
        spec_pow2(m) <= spec_pow2(n),
    decreases n,
{
    if m < n {
        lemma_pow2_mono(m, (n - 1) as nat);
    }
}

/// Exponential backoff with a cap.
pub fn backoff_delay_ms(attempt: u32) -> (d: u64)
    requires
        attempt >= 1,
    ensures
        d == spec_backoff_delay_ms(attempt as nat),
{
    if attempt == 1 {
        proof {
            reveal_with_fuel(spec_pow2, 6);
        }
        1000
    } else if attempt == 2 {
        proof {
            reveal_with_fuel(spec_pow2, 6);
        }
        2000
    } else if attempt == 3 {
        proof {
            reveal_with_fuel(spec_pow2, 6);
        }
        4000
    } else if attempt == 4 {
        proof {
            reveal_with_fuel(spec_pow2, 6);
        }
        8000
    } else if attempt == 5 {
        proof {
            reveal_with_fuel(spec_pow2, 6);
        }
        16000
    } else {
        proof {
            reveal_with_fuel(spec_pow2, 6);
            lemma_pow2_mono(5, (attempt - 1) as nat);
        }
        30000
    }
}

/// What one attempt of the wrapped operation reported back.
#[derive(Clone, Copy, Debug, PartialEq, Eq, Structural)]
pub enum AttemptOutcome {
    Success,
    Failure,
    DeadlineExpired,
}

/// What the retry executor does after one attempt.
#[derive(Debug, PartialEq, Eq, Structural)]
pub enum RetryDecision {
    Done,
    RetryAfter(u64),
    GiveUp(TransferError),
}

/// The error propagated when the final attempt ends with `outcome`,
/// tagged so callers can tell a timeout from an operation failure.
pub open spec fn spec_final_error(outcome: AttemptOutcome) -> TransferError {
    if outcome is DeadlineExpired {
        TransferError::ExecutionTimeout
    } else {
        TransferError::TransientIo
    }
}

/// One decision of the bounded-retry policy: succeed, sleep and retry,
/// or give up with the last error once attempts are exhausted.
pub fn retry_step(attempt: u32, max_attempts: u32, outcome: AttemptOutcome) -> (d: RetryDecision)
    requires
        1 <= attempt <= max_attempts,
    ensures
        outcome is Success ==> d == RetryDecision::Done,
        !(outcome is Success) && attempt < max_attempts ==> d == RetryDecision::RetryAfter(
            spec_backoff_delay_ms(attempt as nat) as u64,
        ),
        !(outcome is Success) && attempt == max_attempts ==> d == RetryDecision::GiveUp(
            spec_final_error(outcome),
        ),
{
    match outcome {
        AttemptOutcome::Success => RetryDecision::Done,
        _ => {
            if attempt < max_attempts {
                RetryDecision::RetryAfter(backoff_delay_ms(attempt))
            } else if outcome == AttemptOutcome::DeadlineExpired {
                RetryDecision::GiveUp(TransferError::ExecutionTimeout)
            } else {
                RetryDecision::GiveUp(TransferError::TransientIo)
            }
        },
    }
}

/// Index of the first successful outcome among the first `bound`, if any.
pub open spec fn spec_first_success(s: Seq<AttemptOutcome>, i: int, bound: int) -> Option<int>
    decreases bound - i,
{
    if i >= bound {
        None
    } else if s[i] is Success {
        Some(i)
    } else {
        spec_first_success(s, i + 1, bound)
    }
}

/// Replay the bounded-retry policy over a scripted sequence of attempt
/// outcomes, one per attempt the executor would make. Returns which
/// attempt succeeded (1-based) or the final tagged error, together with
/// the exact backoff sleeps performed between attempts.
pub fn run_retry(outcomes: &Vec<AttemptOutcome>, max_attempts: u32) -> (r: (
    Result<u32, TransferError>,
    Vec<u64>,
))
    requires
        1 <= max_attempts,
        outcomes@.len() >= max_attempts,
    ensures
        match spec_first_success(outcomes@, 0, max_attempts as int) {
            Some(i) => r.0 == Ok::<u32, TransferError>((i + 1) as u32) && r.1@.len() == i,
            None => r.0 == Err::<u32, TransferError>(
                spec_final_error(outcomes@[max_attempts - 1]),
            ) && r.1@.len() == max_attempts - 1,
        },
        forall|k: int|
            0 <= k < r.1@.len() ==> r.1@[k] == spec_backoff_delay_ms((k + 1) as nat),
{
    let mut sleeps: Vec<u64> = Vec::new();
    let mut attempt: u32 = 1;
    loop
        invariant
            1 <= max_attempts,
            outcomes@.len() >= max_attempts,
            1 <= attempt <= max_attempts,
            sleeps@.len() == attempt - 1,
            forall|k: int|
                0 <= k < sleeps@.len() ==> sleeps@[k] == spec_backoff_delay_ms((k + 1) as nat),
            spec_first_success(outcomes@, 0, max_attempts as int) == spec_first_success(
                outcomes@,
                attempt - 1,
                max_attempts as int,
            ),
        decreases max_attempts - attempt,
    {
        let outcome = outcomes[(attempt - 1) as usize];
        match retry_step(attempt, max_attempts, outcome) {
            RetryDecision::Done => {
                return (Ok(attempt), sleeps);
            },
            RetryDecision::RetryAfter(delay) => {
                sleeps.push(delay);
                attempt += 1;
            },
            RetryDecision::GiveUp(err) => {
                proof {
                    assert(spec_first_success(
                        outcomes@,
                        max_attempts as int,
                        max_attempts as int,
                    ) is None);
                }
                return (Err(err), sleeps);
            },
        }
    }
}

} // verus!
