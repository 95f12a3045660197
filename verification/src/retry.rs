//! The retry policy for calls to the store.
//!
//! A store call that fails is tried again after a fixed delay, until it
//! succeeds or the budget of attempts is spent. The policy is a small state
//! machine: the caller performs the call, reports how it ended, and does what
//! the policy answers.

use vstd::prelude::*;

verus! {

/// Attempts allowed for one store call.
pub const MAX_ATTEMPTS: usize = 120;

/// Seconds between two attempts.
pub const RETRY_DELAY_SECS: u64 = 1;

/// How one attempt ended.
#[derive(Debug, Clone, Copy, PartialEq, Eq, Structural)]
pub enum Outcome {
    Succeeded,
    Failed,
}

/// What to do after an attempt.
#[derive(Debug, Clone, Copy, PartialEq, Eq, Structural)]
pub enum RetryAction {
    /// The call went through at the given attempt.
    Done { attempts: usize },
    /// Wait, then try again.
    RetryAfter { secs: u64 },
    /// The budget is spent: the failure is final.
    GiveUp { attempts: usize },
}

/// The attempts counted after `attempts` were made and one more ended.
pub open spec fn attempts_after(attempts: usize) -> usize {
    if attempts < MAX_ATTEMPTS {
        (attempts + 1) as usize
    } else {
        attempts
    }
}

/// The answer of the policy when `attempts` were made before and one more
/// ended in `outcome`.
pub open spec fn action_after(attempts: usize, outcome: Outcome) -> RetryAction {
    let made = attempts_after(attempts);
    if attempts >= MAX_ATTEMPTS {
        RetryAction::GiveUp { attempts: made }
    } else if outcome == Outcome::Succeeded {
        RetryAction::Done { attempts: made }
    } else if made < MAX_ATTEMPTS {
        RetryAction::RetryAfter { secs: RETRY_DELAY_SECS }
    } else {
        RetryAction::GiveUp { attempts: made }
    }
}

/// The attempts made so far for one store call.
pub struct Retry {
    attempts: usize,
}

impl Retry {
    #[verifier::type_invariant]
    spec fn within_budget(self) -> bool {
        self.attempts <= MAX_ATTEMPTS
    }

    /// Attempts that have ended.
    pub closed spec fn made(&self) -> usize {
        self.attempts
    }

    /// The state before the first attempt.
    pub fn new() -> (r: Self)
        ensures
            r.made() == 0,
    {
        Retry { attempts: 0 }
    }

    /// Attempts that have ended: never more than the budget.
    pub fn attempts(&self) -> (n: usize)
        ensures
            n == self.made(),
            n <= MAX_ATTEMPTS,
    {
        proof {
            use_type_invariant(self);
        }
        self.attempts
    }

    /// Counts one attempt that ended in `outcome` and says what follows.
    pub fn record(&mut self, outcome: Outcome) -> (action: RetryAction)
        ensures
            final(self).made() == attempts_after(old(self).made()),
            final(self).made() <= MAX_ATTEMPTS,
            action == action_after(old(self).made(), outcome),
    {
        proof {
            use_type_invariant(&*self);
        }
        if self.attempts >= MAX_ATTEMPTS {
            return RetryAction::GiveUp { attempts: self.attempts };
        }
        self.attempts = self.attempts + 1;
        match outcome {
            Outcome::Succeeded => RetryAction::Done { attempts: self.attempts },
            Outcome::Failed => {
                if self.attempts < MAX_ATTEMPTS {
                    RetryAction::RetryAfter { secs: RETRY_DELAY_SECS }
                } else {
                    RetryAction::GiveUp { attempts: self.attempts }
                }
            },
        }
    }
}

/// A call that fails `failures` times and then succeeds goes through at
/// attempt `failures + 1`, provided that attempt is within the budget; until
/// then every answer is to wait and try again.
pub proof fn lemma_success_after_failures(failures: usize)
    requires
        failures < MAX_ATTEMPTS,
    ensures
        forall|made: usize|
            made < failures ==> #[trigger] action_after(made, Outcome::Failed)
                == (RetryAction::RetryAfter { secs: RETRY_DELAY_SECS }),
        action_after(failures, Outcome::Succeeded) == (RetryAction::Done {
            attempts: (failures + 1) as usize,
        }),
{
}

/// The budget is final: the failure of the last attempt allowed gives up,
/// and no answer ever counts more attempts than the budget.
pub proof fn lemma_budget_is_final(made: usize, outcome: Outcome)
    requires
        made <= MAX_ATTEMPTS,
    ensures
        attempts_after(made) <= MAX_ATTEMPTS,
        action_after((MAX_ATTEMPTS - 1) as usize, Outcome::Failed) == (RetryAction::GiveUp {
            attempts: MAX_ATTEMPTS,
        }),
        action_after(made, outcome) matches RetryAction::Done { attempts } ==> attempts
            <= MAX_ATTEMPTS,
        action_after(made, outcome) matches RetryAction::GiveUp { attempts } ==> attempts
            == MAX_ATTEMPTS,
{
}

} // verus!
