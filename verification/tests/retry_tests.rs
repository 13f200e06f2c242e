use media_relay::errors::TransferError;
use media_relay::retry::{
    backoff_delay_ms, retry_step, run_retry, AttemptOutcome, RetryDecision, RETRY_BASE_DELAY_MS,
    RETRY_DELAY_CAP_MS,
};

#[test]
fn backoff_doubles_and_caps() {
    assert_eq!(backoff_delay_ms(1), 1000);
    assert_eq!(backoff_delay_ms(2), 2000);
    assert_eq!(backoff_delay_ms(3), 4000);
    assert_eq!(backoff_delay_ms(4), 8000);
    assert_eq!(backoff_delay_ms(5), 16000);
    assert_eq!(backoff_delay_ms(6), 30000);
    assert_eq!(backoff_delay_ms(40), 30000);
    assert_eq!(backoff_delay_ms(1), RETRY_BASE_DELAY_MS);
    assert_eq!(backoff_delay_ms(6), RETRY_DELAY_CAP_MS);
}

#[test]
fn two_failures_then_success_sleeps_twice() {
    let outcomes = vec![
        AttemptOutcome::Failure,
        AttemptOutcome::Failure,
        AttemptOutcome::Success,
    ];
    let (result, sleeps) = run_retry(&outcomes, 3);
    assert_eq!(result, Ok(3));
    assert_eq!(sleeps, vec![1000, 2000]);
}

#[test]
fn immediate_success_never_sleeps() {
    let outcomes = vec![
        AttemptOutcome::Success,
        AttemptOutcome::Success,
        AttemptOutcome::Success,
    ];
    let (result, sleeps) = run_retry(&outcomes, 3);
    assert_eq!(result, Ok(1));
    assert!(sleeps.is_empty());
}

#[test]
fn exhausted_attempts_propagate_last_error() {
    let outcomes = vec![
        AttemptOutcome::Failure,
        AttemptOutcome::Failure,
        AttemptOutcome::Failure,
    ];
    let (result, sleeps) = run_retry(&outcomes, 3);
    assert_eq!(result, Err(TransferError::TransientIo));
    assert_eq!(sleeps, vec![1000, 2000]);
}

#[test]
fn deadline_expiry_is_tagged_distinctly() {
    let outcomes = vec![
        AttemptOutcome::Failure,
        AttemptOutcome::Failure,
        AttemptOutcome::DeadlineExpired,
    ];
    let (result, _) = run_retry(&outcomes, 3);
    assert_eq!(result, Err(TransferError::ExecutionTimeout));
}

#[test]
fn single_decision_steps() {
    assert_eq!(
        retry_step(1, 3, AttemptOutcome::Success),
        RetryDecision::Done
    );
    assert_eq!(
        retry_step(1, 3, AttemptOutcome::Failure),
        RetryDecision::RetryAfter(1000)
    );
    assert_eq!(
        retry_step(2, 3, AttemptOutcome::DeadlineExpired),
        RetryDecision::RetryAfter(2000)
    );
    assert_eq!(
        retry_step(3, 3, AttemptOutcome::Failure),
        RetryDecision::GiveUp(TransferError::TransientIo)
    );
    assert_eq!(
        retry_step(3, 3, AttemptOutcome::DeadlineExpired),
        RetryDecision::GiveUp(TransferError::ExecutionTimeout)
    );
}
