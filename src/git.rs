//! The outcome of updating a local branch from its remote.
use vstd::prelude::*;

verus! {

/// What pulling a branch did.
#[derive(Clone, Copy, Debug, PartialEq, Eq, Structural)]
pub enum FastForwardStatus {
    /// The branch already held the fetched commit.
    UpToDate,
    /// The branch was moved forward to the fetched commit.
    FastForward,
}

/// The outcome of a merge analysis: already up to date, a fast-forward, or
/// `None` where only a real merge would do, which is refused.
pub fn fast_forward_outcome(is_up_to_date: bool, is_fast_forward: bool) -> (r: Option<FastForwardStatus>)
    ensures
        is_up_to_date ==> r == Some(FastForwardStatus::UpToDate),
        !is_up_to_date && is_fast_forward ==> r == Some(FastForwardStatus::FastForward),
        !is_up_to_date && !is_fast_forward ==> r is None,
{
    if is_up_to_date {
        Some(FastForwardStatus::UpToDate)
    } else if is_fast_forward {
        Some(FastForwardStatus::FastForward)
    } else {
        None
    }
}

/// Whether the launcher must be built: after a fresh clone, after a pull
/// that moved the branch forward (`pulled` is `None` where the pull failed),
/// or when no built jar is there yet.
pub fn should_build(cloned: bool, pulled: Option<FastForwardStatus>, jar_exists: bool) -> (r: bool)
    ensures
        r == (cloned || pulled == Some(FastForwardStatus::FastForward) || !jar_exists),
{
    let forwarded = match pulled {
        Some(FastForwardStatus::FastForward) => true,
        _ => false,
    };
    cloned || forwarded || !jar_exists
}

/// The reference of a local branch.
pub fn branch_refname(branch: &str) -> (r: String)
    ensures
        r@ == "refs/heads/"@ + branch@,
{
    let mut r = String::from_str("refs/heads/");
    r.append(branch);
    r
}

} // verus!
