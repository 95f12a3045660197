use chaos::retry::{Outcome, Retry, RetryAction, MAX_ATTEMPTS, RETRY_DELAY_SECS};

#[test]
fn budget_is_120_attempts_one_second_apart() {
    assert_eq!(MAX_ATTEMPTS, 120);
    assert_eq!(RETRY_DELAY_SECS, 1);
}

#[test]
fn first_attempt_that_succeeds_is_done_at_one() {
    let mut retry = Retry::new();
    assert_eq!(retry.attempts(), 0);
    assert_eq!(
        retry.record(Outcome::Succeeded),
        RetryAction::Done { attempts: 1 }
    );
    assert_eq!(retry.attempts(), 1);
}

#[test]
fn three_failures_then_success_take_four_attempts() {
    let mut retry = Retry::new();
    for _ in 0..3 {
        assert_eq!(
            retry.record(Outcome::Failed),
            RetryAction::RetryAfter { secs: 1 }
        );
    }
    assert_eq!(
        retry.record(Outcome::Succeeded),
        RetryAction::Done { attempts: 4 }
    );
    assert_eq!(retry.attempts(), 4);
}

#[test]
fn the_last_attempt_may_still_succeed() {
    let mut retry = Retry::new();
    for _ in 0..119 {
        assert_eq!(
            retry.record(Outcome::Failed),
            RetryAction::RetryAfter { secs: 1 }
        );
    }
    assert_eq!(
        retry.record(Outcome::Succeeded),
        RetryAction::Done { attempts: 120 }
    );
}

#[test]
fn the_budget_runs_out_at_the_120th_failure() {
    let mut retry = Retry::new();
    for made in 1..120 {
        assert_eq!(
            retry.record(Outcome::Failed),
            RetryAction::RetryAfter { secs: 1 }
        );
        assert_eq!(retry.attempts(), made);
    }
    assert_eq!(
        retry.record(Outcome::Failed),
        RetryAction::GiveUp { attempts: 120 }
    );
    assert_eq!(retry.attempts(), 120);
}

#[test]
fn a_spent_budget_stays_spent() {
    let mut retry = Retry::new();
    for _ in 0..120 {
        let _ = retry.record(Outcome::Failed);
    }
    for outcome in [Outcome::Failed, Outcome::Succeeded, Outcome::Failed] {
        assert_eq!(
            retry.record(outcome),
            RetryAction::GiveUp { attempts: 120 }
        );
        assert_eq!(retry.attempts(), 120);
    }
}
