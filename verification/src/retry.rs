//! When a failed call to an outside service is tried again, and after how long.
//!
//! Calls are tried a bounded number of times. The wait before the next try doubles
//! with each try.

use vstd::prelude::*;

verus! {

/// How many times a call is tried at most.
pub const MAX_ATTEMPTS: u32 = 3;

/// The status by which a server asks for fewer requests.
pub const TOO_MANY_REQUESTS: u16 = 429;

/// How a call failed.
#[derive(Clone, Copy, Debug, PartialEq, Eq, Structural)]
pub enum CallFailure {
    /// The request did not get through, or no answer came.
    Transport,
    /// The server answered with a status that is no success.
    Status(u16),
    /// The answer could not be read as what was asked for.
    Malformed,
}

/// What to do after a failed try.
#[derive(Clone, Copy, Debug, PartialEq, Eq, Structural)]
pub enum RetryDecision {
    /// Wait this many seconds and try again.
    RetryAfter { secs: u64 },
    /// Report the failure.
    GiveUp,
}

/// The seconds to wait after try number `attempt`, counted from 1: one second after
/// the first, and twice as long after each further one, up to what the type holds.
pub open spec fn backoff_secs(attempt: int) -> int
    decreases attempt,
{
    if attempt <= 1 {
        1
    } else if 2 * backoff_secs(attempt - 1) > u64::MAX {
        u64::MAX as int
    } else {
        2 * backoff_secs(attempt - 1)
    }
}

/// Whether a status says that the server failed.
pub open spec fn server_error(status: u16) -> bool {
    500 <= status <= 599
}

/// Whether a failure may pass if the call is made again: a call that did not get
/// through, a server that failed or asked for fewer requests, an answer that could not
/// be read.
pub open spec fn retryable(failure: CallFailure) -> bool {
    match failure {
        CallFailure::Transport => true,
        CallFailure::Status(s) => s == TOO_MANY_REQUESTS || server_error(s),
        CallFailure::Malformed => true,
    }
}

/// What follows the failure of try number `attempt` where `max_attempts` are
/// allowed.
pub open spec fn retry_decision(attempt: u32, max_attempts: u32, failure: CallFailure) -> RetryDecision {
    if retryable(failure) && attempt < max_attempts {
        RetryDecision::RetryAfter { secs: backoff_secs(attempt as int) as u64 }
    } else {
        RetryDecision::GiveUp
    }
}

/// Whether a failed call of the model may pass if it is made again: a call that did
/// not get through, a server that failed or asked for fewer requests. An answer that
/// cannot be read is not asked for again: what the model answers wrongly is for the
/// repair requests to mend.
pub open spec fn model_call_retryable(failure: CallFailure) -> bool {
    match failure {
        CallFailure::Transport => true,
        CallFailure::Status(s) => s == TOO_MANY_REQUESTS || server_error(s),
        CallFailure::Malformed => false,
    }
}

/// What follows the failure of try number `attempt` of a call of the model, of which
/// [`MAX_ATTEMPTS`] are allowed.
pub open spec fn model_retry_decision(attempt: u32, failure: CallFailure) -> RetryDecision {
    if model_call_retryable(failure) && attempt < MAX_ATTEMPTS {
        RetryDecision::RetryAfter { secs: backoff_secs(attempt as int) as u64 }
    } else {
        RetryDecision::GiveUp
    }
}

/// The waits are at least a second and stay within what the type holds.
pub proof fn lemma_backoff_bounds(attempt: int)
    ensures
        1 <= backoff_secs(attempt) <= u64::MAX,
    decreases attempt,
{
    if attempt > 1 {
        lemma_backoff_bounds(attempt - 1);
    }
}

/// Once the wait is the greatest that the type holds, it stays so.
pub proof fn lemma_backoff_saturated(from: int, attempt: int)
    requires
        1 <= from <= attempt,
        backoff_secs(from) == u64::MAX,
    ensures
        backoff_secs(attempt) == u64::MAX,
    decreases attempt - from,
{
    if from < attempt {
        lemma_backoff_saturated(from, attempt - 1);
    }
}

/// The seconds to wait after try number `attempt`.
pub fn backoff(attempt: u32) -> (r: u64)
    ensures
        r == backoff_secs(attempt as int),
{
    let mut secs: u64 = 1;
    let mut k: u32 = 1;
    while k < attempt && secs < u64::MAX
        invariant
            1 <= k,
            k <= attempt || (attempt == 0 && k == 1),
            secs == backoff_secs(k as int),
        decreases attempt - k,
    {
        secs = if secs > u64::MAX / 2 {
            u64::MAX
        } else {
            secs * 2
        };
        k += 1;
    }
    proof {
        if k < attempt {
            lemma_backoff_saturated(k as int, attempt as int);
        }
    }
    secs
}

/// What to do after try number `attempt` failed, where `max_attempts` are allowed.
pub fn decide_retry(attempt: u32, max_attempts: u32, failure: CallFailure) -> (r: RetryDecision)
    ensures
        r == retry_decision(attempt, max_attempts, failure),
        r is RetryAfter ==> attempt < max_attempts,
{
    let again = match failure {
        CallFailure::Transport => true,
        CallFailure::Status(s) => s == TOO_MANY_REQUESTS || (500 <= s && s <= 599),
        CallFailure::Malformed => true,
    };
    if again && attempt < max_attempts {
        proof {
            lemma_backoff_bounds(attempt as int);
        }
        RetryDecision::RetryAfter { secs: backoff(attempt) }
    } else {
        RetryDecision::GiveUp
    }
}

/// What to do after try number `attempt` of a call of the model failed.
pub fn decide_model_retry(attempt: u32, failure: CallFailure) -> (r: RetryDecision)
    ensures
        r == model_retry_decision(attempt, failure),
        r is RetryAfter ==> attempt < MAX_ATTEMPTS,
{
    match failure {
        CallFailure::Malformed => RetryDecision::GiveUp,
        _ => decide_retry(attempt, MAX_ATTEMPTS, failure),
    }
}

} // verus!
