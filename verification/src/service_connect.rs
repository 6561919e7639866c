//! Connecting to the terminal service at start-up when it was not up yet:
//! a few attempts with a doubling delay, after which terminals are told the
//! service is unavailable.
use vstd::prelude::*;

verus! {

/// The delay before the first retry, in milliseconds.
pub const FIRST_DELAY_MS: u64 = 50;
/// The longest delay between two attempts, in milliseconds.
pub const MAX_DELAY_MS: u64 = 1600;
/// How many attempts are made.
pub const ATTEMPTS: u32 = 6;

/// Where the retries stand.
#[derive(Clone, Copy, Debug, PartialEq, Eq, Structural)]
pub struct ConnectRetry {
    /// The delay that was last waited, in milliseconds.
    pub next_delay_ms: u64,
    /// How many attempts are left.
    pub remaining_attempts: u32,
}

/// What an attempt found.
#[derive(Clone, Copy, Debug, PartialEq, Eq, Structural)]
pub enum ConnectAttempt {
    /// The service's socket does not exist yet.
    NoSocket,
    /// The socket exists and the connection was made.
    Connected,
    /// The socket exists but connecting failed.
    Failed,
}

/// What to do after an attempt.
#[derive(Clone, Copy, Debug, PartialEq, Eq, Structural)]
pub enum ConnectStep {
    /// Try again after this many milliseconds.
    Retry { delay_ms: u64 },
    /// Use the connection: subscribe to agent commands and clear the
    /// unavailable notice of the terminals.
    Connected,
    /// Stop trying and tell the terminals the service is unavailable.
    GiveUp,
}

impl ConnectRetry {
    /// A state reached by the retries: the delay stays within its bounds.
    pub open spec fn wf(self) -> bool {
        FIRST_DELAY_MS <= self.next_delay_ms <= MAX_DELAY_MS
    }

    /// The retries as they start: the first attempt comes after the first
    /// delay, and all attempts are left.
    pub fn new() -> (r: Self)
        ensures
            r.wf(),
            r.next_delay_ms == FIRST_DELAY_MS,
            r.remaining_attempts == ATTEMPTS,
    {
        ConnectRetry { next_delay_ms: FIRST_DELAY_MS, remaining_attempts: ATTEMPTS }
    }
}

/// The step after an attempt, and the retries after it: every attempt uses
/// one up; a connection ends the retries; otherwise the retries give up when
/// none is left and else wait twice as long as before, at most the longest
/// delay.
pub open spec fn spec_connect_step(retry: ConnectRetry, attempt: ConnectAttempt) -> (ConnectStep, ConnectRetry) {
    let remaining = if retry.remaining_attempts == 0 {
        0
    } else {
        (retry.remaining_attempts - 1) as u32
    };
    let doubled = if 2 * retry.next_delay_ms <= MAX_DELAY_MS {
        (2 * retry.next_delay_ms) as u64
    } else {
        MAX_DELAY_MS
    };
    match attempt {
        ConnectAttempt::Connected => (
            ConnectStep::Connected,
            ConnectRetry { remaining_attempts: remaining, ..retry },
        ),
        _ => if remaining == 0 {
            (ConnectStep::GiveUp, ConnectRetry { remaining_attempts: remaining, ..retry })
        } else {
            (
                ConnectStep::Retry { delay_ms: doubled },
                ConnectRetry { next_delay_ms: doubled, remaining_attempts: remaining },
            )
        },
    }
}

/// The step after an attempt (see `spec_connect_step`).
pub fn connect_step(retry: ConnectRetry, attempt: ConnectAttempt) -> (r: (ConnectStep, ConnectRetry))
    requires
        retry.wf(),
    ensures
        r == spec_connect_step(retry, attempt),
        r.1.wf(),
{
    let remaining = retry.remaining_attempts.saturating_sub(1);
    match attempt {
        ConnectAttempt::Connected => (
            ConnectStep::Connected,
            ConnectRetry { next_delay_ms: retry.next_delay_ms, remaining_attempts: remaining },
        ),
        _ => {
            if remaining == 0 {
                (
                    ConnectStep::GiveUp,
                    ConnectRetry { next_delay_ms: retry.next_delay_ms, remaining_attempts: remaining },
                )
            } else {
                let doubled = if retry.next_delay_ms * 2 <= MAX_DELAY_MS {
                    retry.next_delay_ms * 2
                } else {
                    MAX_DELAY_MS
                };
                (
                    ConnectStep::Retry { delay_ms: doubled },
                    ConnectRetry { next_delay_ms: doubled, remaining_attempts: remaining },
                )
            }
        },
    }
}

/// The notice terminals show once the retries gave up (the one they show
/// after a connection is empty).
pub fn unavailable_notice() -> (s: String)
    ensures
        s@ == "vmux service unavailable \u{2014} run `vmux service logs` for details."@,
{
    "vmux service unavailable \u{2014} run `vmux service logs` for details.".to_owned()
}

/// The retries after `n` attempts that all failed, or `None` once they gave up.
pub open spec fn after_failures(retry: ConnectRetry, n: nat) -> Option<ConnectRetry>
    decreases n,
{
    if n == 0 {
        Some(retry)
    } else {
        match after_failures(retry, (n - 1) as nat) {
            Some(r) => match spec_connect_step(r, ConnectAttempt::Failed) {
                (ConnectStep::Retry { .. }, next) => Some(next),
                _ => None,
            },
            None => None,
        }
    }
}

/// The retries end: however the attempts fail, they give up after as many
/// attempts as were left (after one when none was).
pub proof fn law_retries_give_up(retry: ConnectRetry)
    ensures
        after_failures(
            retry,
            if retry.remaining_attempts == 0 {
                1
            } else {
                retry.remaining_attempts as nat
            },
        ) is None,
{
    if retry.remaining_attempts == 0 {
        assert(after_failures(retry, 0) == Some(retry));
    } else {
        lemma_after_failures_counts(retry, (retry.remaining_attempts - 1) as nat);
        let n = (retry.remaining_attempts - 1) as nat;
        assert(after_failures(retry, n + 1) is None);
    }
}

proof fn lemma_after_failures_counts(retry: ConnectRetry, n: nat)
    requires
        n < retry.remaining_attempts,
    ensures
        after_failures(retry, n) matches Some(r) && r.remaining_attempts == retry.remaining_attempts - n,
    decreases n,
{
    if n > 0 {
        lemma_after_failures_counts(retry, (n - 1) as nat);
    }
}

/// The delay between attempts doubles from one retry to the next, up to the
/// longest delay, and the retries stay within their bounds.
pub proof fn law_delay_doubles_up_to_cap(retry: ConnectRetry, attempt: ConnectAttempt)
    requires
        retry.wf(),
    ensures
        spec_connect_step(retry, attempt).1.wf(),
        spec_connect_step(retry, attempt).0 matches ConnectStep::Retry { delay_ms } ==> delay_ms
            == if 2 * retry.next_delay_ms <= MAX_DELAY_MS {
            2 * retry.next_delay_ms
        } else {
            MAX_DELAY_MS as int
        },
{
}

} // verus!
