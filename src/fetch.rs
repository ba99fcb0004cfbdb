use vstd::prelude::*;

verus! {

/// How many times a remote source is tried before its provider's sync fails.
pub const FETCH_ATTEMPTS: u32 = 3;

/// How long, in seconds, one request to a remote source may take.
pub const FETCH_TIMEOUT_SECS: u64 = 60;

/// How one request to a remote source ended.
#[derive(Debug, Clone, Copy, PartialEq, Eq, Structural)]
pub enum FetchOutcome {
    /// A successful response with its body.
    Body,
    /// A response with an unsuccessful HTTP status.
    Status(u16),
    /// No response: a timeout or a connection failure.
    Unreachable,
}

/// What to do after a request.
#[derive(Debug, Clone, Copy, PartialEq, Eq, Structural)]
pub enum FetchStep {
    /// Use the body.
    Done,
    /// Wait this many seconds, then try again.
    Retry { delay_secs: u64 },
    /// Give up and report the failure.
    Fail,
}

/// A failure that may pass: no response at all, or a server error.
pub open spec fn is_transient(o: FetchOutcome) -> bool {
    match o {
        FetchOutcome::Unreachable => true,
        FetchOutcome::Status(s) => 500 <= s <= 599,
        FetchOutcome::Body => false,
    }
}

/// `2^e`.
pub open spec fn two_to(e: nat) -> nat
    decreases e,
{
    if e == 0 {
        1
    } else {
        2 * two_to((e - 1) as nat)
    }
}

/// Decides what follows request number `attempt` (counting from zero): a body is
/// used; a transient failure is retried after `2^(attempt + 1)` seconds while attempts
/// remain; any other failure, or a transient one on the last attempt, fails.
pub fn next_fetch_step(attempt: u32, outcome: FetchOutcome) -> (r: FetchStep)
    requires
        attempt < FETCH_ATTEMPTS,
    ensures
        outcome == FetchOutcome::Body ==> r == FetchStep::Done,
        outcome != FetchOutcome::Body && is_transient(outcome) && attempt + 1 < FETCH_ATTEMPTS
            ==> r == (FetchStep::Retry { delay_secs: two_to((attempt + 1) as nat) as u64 }),
        outcome != FetchOutcome::Body && !(is_transient(outcome) && attempt + 1 < FETCH_ATTEMPTS)
            ==> r == FetchStep::Fail,
{
    match outcome {
        FetchOutcome::Body => FetchStep::Done,
        _ => {
            let transient = match outcome {
                FetchOutcome::Status(s) => 500 <= s && s <= 599,
                _ => true,
            };
            if transient && attempt + 1 < FETCH_ATTEMPTS {
                proof {
                    reveal_with_fuel(two_to, 3);
                }
                let delay: u64 = if attempt == 0 {
                    2
                } else {
                    4
                };
                FetchStep::Retry { delay_secs: delay }
            } else {
                FetchStep::Fail
            }
        },
    }
}

} // verus!
