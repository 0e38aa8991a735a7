//! When a failed operation is tried again.
//!
//! The caller runs the operation and sleeps between the tries; what is
//! decided here is whether there is another try and how long the wait before
//! it may be at most.

use vstd::prelude::*;
use crate::game_error::GameError;

verus! {

/// How often an operation is tried again and how long the waits are.
#[derive(Clone, Copy, Debug, PartialEq, Eq)]
pub struct RetryPolicy {
    /// How many times the operation is tried again after it failed first.
    pub max_retries: u32,
    /// The wait before the first retry, in milliseconds.
    pub initial_delay_ms: u64,
    /// The longest wait, in milliseconds.
    pub max_delay_ms: u64,
}

/// What follows a failed try.
#[derive(Clone, Copy, Debug, PartialEq, Eq)]
pub enum RetryStep {
    /// The failure is final.
    GiveUp,
    /// The operation is tried again after this many milliseconds.
    WaitAndRetry { delay_ms: u64 },
}

impl Default for RetryPolicy {
    /// Three retries, the first after a second, none after more than ten.
    fn default() -> (policy: RetryPolicy)
        ensures
            policy == (RetryPolicy { max_retries: 3, initial_delay_ms: 1000, max_delay_ms: 10000 }),
    {
        RetryPolicy { max_retries: 3, initial_delay_ms: 1000, max_delay_ms: 10000 }
    }
}

impl RetryPolicy {
    /// What follows when try number `attempt` (counted from 0) failed with
    /// `error` and the wait before the next try would be `delay_ms`: the
    /// failure is final if the error is not worth a retry or the retries are
    /// used up, and else the operation is tried again after the wait.
    pub open spec fn step_after(self, attempt: u32, error: GameError, delay_ms: u64) -> RetryStep {
        if !error.retryable() || attempt >= self.max_retries {
            RetryStep::GiveUp
        } else {
            RetryStep::WaitAndRetry { delay_ms }
        }
    }

    /// Decides what follows a failed try.
    pub fn after_failure(&self, attempt: u32, error: &GameError, delay_ms: u64) -> (step: RetryStep)
        ensures
            step == self.step_after(attempt, *error, delay_ms),
    {
        if !error.should_retry() || attempt >= self.max_retries {
            RetryStep::GiveUp
        } else {
            RetryStep::WaitAndRetry { delay_ms }
        }
    }

    /// The wait before the retry after next, given the one that the caller
    /// has scaled up from the last wait: never more than the longest wait.
    pub fn capped_delay(&self, scaled_delay_ms: u64) -> (delay_ms: u64)
        ensures
            delay_ms == if scaled_delay_ms < self.max_delay_ms {
                scaled_delay_ms
            } else {
                self.max_delay_ms
            },
    {
        if scaled_delay_ms < self.max_delay_ms {
            scaled_delay_ms
        } else {
            self.max_delay_ms
        }
    }
}

} // verus!
