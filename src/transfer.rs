//! The downloader's decisions: reading the advertised length, choosing
//! between one stream and a chunked transfer, and the final digest check.
use vstd::prelude::*;
use crate::error::DownloadError;
use crate::hashing::{digest_matches, hex_of, verify_digest, ExpectedHash, HashingError};
use crate::plan::{plan_chunks, plannable, planned, ByteRange};
use crate::retry::{after_attempt, next_step, NextStep};
use crate::number::{decimal_of, parse_decimal};

verus! {

/// Resources of at most this many bytes are always fetched as one stream.
pub const PARALLEL_THRESHOLD: usize = 5120;

/// How a resource is fetched.
#[derive(Debug)]
pub enum TransferPlan {
    /// One GET without a `Range` header.
    SingleStream,
    /// One ranged GET per range, written back in this order.
    Chunked(Vec<ByteRange>),
}

/// The ranges to fetch concurrently, or `None` for a single stream: only a
/// known length above the threshold for which a plan exists is chunked.
pub open spec fn chunked_plan(content_length: Option<usize>, concurrency: usize) -> Option<
    Seq<ByteRange>,
> {
    match content_length {
        Some(total) => if total > PARALLEL_THRESHOLD && plannable(total as nat, concurrency as nat) {
            Some(planned(total as nat, concurrency as nat))
        } else {
            None
        },
        None => None,
    }
}

/// How many fetch tasks the transfer starts.
pub open spec fn fetch_task_count(content_length: Option<usize>, concurrency: usize) -> nat {
    match chunked_plan(content_length, concurrency) {
        Some(ranges) => ranges.len(),
        None => 1,
    }
}

/// Chooses how to fetch a resource whose probe advertised `content_length`
/// (`None` when the length is unknown).
pub fn choose_transfer(content_length: Option<usize>, concurrency: usize) -> (r: TransferPlan)
    ensures
        r matches TransferPlan::SingleStream ==> chunked_plan(content_length, concurrency) is None,
        r matches TransferPlan::Chunked(v) ==> chunked_plan(content_length, concurrency) == Some(v@),
{
    match content_length {
        None => TransferPlan::SingleStream,
        Some(total) => {
            if total <= PARALLEL_THRESHOLD {
                TransferPlan::SingleStream
            } else {
                match plan_chunks(total, concurrency) {
                    Some(ranges) => TransferPlan::Chunked(ranges),
                    None => TransferPlan::SingleStream,
                }
            }
        },
    }
}

/// A resource of unknown length or of at most the threshold is fetched by a
/// single task.
pub proof fn lemma_small_or_unknown_is_single_fetch(content_length: Option<usize>, concurrency: usize)
    requires
        content_length matches Some(total) ==> total <= PARALLEL_THRESHOLD,
    ensures
        fetch_task_count(content_length, concurrency) == 1,
        chunked_plan(content_length, concurrency) is None,
{
}

/// Reads a `Content-Length` header value as the number of bytes it states;
/// `None` when it is no such number or does not fit in `usize`.
pub fn parse_content_length(s: &str) -> (r: Option<usize>)
    ensures
        r == decimal_of(s@),
{
    parse_decimal(s)
}

/// Whether a finished transfer counts as verified: with no expected hash
/// nothing is checked; with one, the digest of the written bytes must match.
pub open spec fn transfer_verified(expected: Option<&ExpectedHash>, digest: Seq<u8>) -> bool {
    match expected {
        Some(h) => digest_matches(*h, digest),
        None => true,
    }
}

/// Ends a transfer whose bytes are all written: `digest` is the digest of
/// those bytes, and is not read when no hash is expected.
pub fn conclude_transfer(expected: Option<&ExpectedHash>, digest: &[u8]) -> (r: Result<(), DownloadError>)
    ensures
        r is Ok <==> transfer_verified(expected, digest@),
        r matches Err(DownloadError::Hashing(HashingError::HashNotMatch { expected_hash, actual_hash }))
            ==> expected == Some(&expected_hash) && actual_hash@ == hex_of(digest@),
        r matches Err(e) ==> e is Hashing,
{
    match expected {
        None => Ok(()),
        Some(h) => match verify_digest(h, digest) {
            Ok(()) => Ok(()),
            Err(e) => Err(DownloadError::Hashing(e)),
        },
    }
}

/// What follows one attempt of the single-stream path.
#[derive(Debug)]
pub enum StreamStep {
    /// Go on with the retry policy.
    Continue(NextStep),
    /// Stop with this failure.
    Fail(DownloadError),
}

/// The step after single-stream attempt `attempt`: `outcome` is `None` where
/// the stream broke off, else the result of checking what was written. A
/// broken stream is retried while the budget lasts; a completed one ends the
/// transfer, with a digest mismatch as its failure.
pub fn after_stream_attempt(attempt: u32, max_retries: u32, outcome: Option<Result<(), DownloadError>>) -> (r:
    StreamStep)
    requires
        1 <= attempt <= max_retries,
    ensures
        outcome is None ==> r == StreamStep::Continue(next_step(attempt, max_retries, false)),
        outcome matches Some(Ok(())) ==> r == StreamStep::Continue(NextStep::Done),
        outcome matches Some(Err(e)) ==> r == StreamStep::Fail(e),
{
    match outcome {
        None => StreamStep::Continue(after_attempt(attempt, max_retries, false)),
        Some(Ok(())) => StreamStep::Continue(after_attempt(attempt, max_retries, true)),
        Some(Err(e)) => StreamStep::Fail(e),
    }
}

/// Verification depends on the written bytes alone: running a transfer
/// again over a destination that ends with the same bytes gives the same
/// outcome.
pub proof fn lemma_rerun_same_outcome(expected: Option<&ExpectedHash>, first: Seq<u8>, again: Seq<u8>)
    requires
        first == again,
    ensures
        transfer_verified(expected, first) == transfer_verified(expected, again),
{
}

} // verus!
