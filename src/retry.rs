//! The bounded retry policy shared by the whole-transfer path and each chunk
//! fetcher: attempts are numbered from 1 and at most `max_retries` are made.
use vstd::prelude::*;

verus! {

/// What to do next.
#[derive(Clone, Copy, Debug, PartialEq, Eq, Structural)]
pub enum NextStep {
    /// Make attempt number `number`.
    Attempt { number: u32 },
    /// The last attempt succeeded.
    Done,
    /// The budget is used up without a success.
    GiveUp,
}

/// The first step: attempt 1, or giving up at once when no attempt is allowed.
pub fn first_step(max_retries: u32) -> (r: NextStep)
    ensures
        max_retries == 0 ==> r == NextStep::GiveUp,
        max_retries > 0 ==> r == (NextStep::Attempt { number: 1 }),
{
    if max_retries == 0 {
        NextStep::GiveUp
    } else {
        NextStep::Attempt { number: 1 }
    }
}

/// The step after attempt `attempt` ended: done after a success, the next
/// attempt while the budget lasts, else giving up.
pub open spec fn next_step(attempt: u32, max_retries: u32, succeeded: bool) -> NextStep {
    if succeeded {
        NextStep::Done
    } else if attempt < max_retries {
        NextStep::Attempt { number: (attempt + 1) as u32 }
    } else {
        NextStep::GiveUp
    }
}

/// The step after attempt `attempt` ended, successfully or not.
pub fn after_attempt(attempt: u32, max_retries: u32, succeeded: bool) -> (r: NextStep)
    requires
        1 <= attempt <= max_retries,
    ensures
        r == next_step(attempt, max_retries, succeeded),
        r matches NextStep::Attempt { number } ==> attempt < number <= max_retries,
{
    if succeeded {
        NextStep::Done
    } else if attempt < max_retries {
        NextStep::Attempt { number: attempt + 1 }
    } else {
        NextStep::GiveUp
    }
}

} // verus!
