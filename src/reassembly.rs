//! Putting completed chunks, which arrive in any order, back in plan order,
//! and refusing to reassemble when one is missing.
use vstd::prelude::*;
use crate::error::DownloadError;
use crate::plan::{lemma_plan_in_order_is_resource, offsets_in_order, plannable, planned};

verus! {

/// Every completion names a distinct chunk of a plan of `n` chunks.
pub open spec fn indices_valid(indices: Seq<usize>, n: nat) -> bool {
    &&& forall|p: int| 0 <= p < indices.len() ==> indices[p] < n
    &&& forall|p: int, q: int|
        0 <= p < indices.len() && 0 <= q < indices.len() && p != q ==> indices[p] != indices[q]
}

/// Every chunk `0..n` of the plan has completed.
pub open spec fn all_chunks_present(indices: Seq<usize>, n: nat) -> bool {
    forall|k: nat| k < n ==> #[trigger] indices.contains(k as usize)
}

/// Reassembly may go ahead: every chunk of the plan completed exactly once.
pub open spec fn completions_complete(indices: Seq<usize>, n: nat) -> bool {
    indices_valid(indices, n) && all_chunks_present(indices, n)
}

/// Orders completions for writing.
///
/// `indices[p]` is the plan index of the `p`-th completion received. On
/// success the result lists, for each chunk `0..expected_count` in turn, the
/// position of its completion. A completion outside the plan or a repeated
/// one is `InvalidChunkIndex`; otherwise a chunk that never completed is
/// `ChunkLost`, naming the first such chunk.
pub fn reassembly_order(indices: &Vec<usize>, expected_count: usize) -> (r: Result<
    Vec<usize>,
    DownloadError,
>)
    ensures
        r is Ok <==> completions_complete(indices@, expected_count as nat),
        r matches Ok(order) ==> order.len() == expected_count && forall|k: int|
            0 <= k < expected_count ==> order[k] < indices.len() && indices@[#[trigger] order[k] as int]
                == k,
        r matches Err(e) ==> ((e is InvalidChunkIndex) <==> !indices_valid(indices@, expected_count as nat)),
        r matches Err(DownloadError::InvalidChunkIndex { index }) ==> indices@.contains(index),
        r matches Err(DownloadError::ChunkLost { index }) ==> index < expected_count
            && !indices@.contains(index) && forall|k: nat| k < index ==> #[trigger] indices@.contains(
            k as usize,
        ),
        r matches Err(e) ==> (e is InvalidChunkIndex || e is ChunkLost),
{
    let n: usize = expected_count;
    let mut slots: Vec<Option<usize>> = Vec::new();
    let mut k: usize = 0;
    while k < n
        invariant
            n == expected_count,
            k <= n,
            slots.len() == k,
            forall|j: int| 0 <= j < k ==> slots[j] is None,
        decreases n - k,
    {
        slots.push(None);
        k += 1;
    }
    let mut p: usize = 0;
    while p < indices.len()
        invariant
            n == expected_count,
            p <= indices.len(),
            slots.len() == n,
            forall|j: int| 0 <= j < n ==> (#[trigger] slots[j] matches Some(q) ==> q < p && indices@[q as int] == j),
            forall|j: int| 0 <= j < n ==> (#[trigger] slots[j] is None ==> forall|q: int| 0 <= q < p ==> indices@[q] != j),
            forall|q: int| 0 <= q < p ==> indices@[q] < n && slots[indices@[q] as int] == Some(q as usize),
        decreases indices.len() - p,
    {
        let idx: usize = indices[p];
        if idx >= n {
            proof {
                assert(indices@[p as int] == idx);
                assert(!indices_valid(indices@, n as nat));
            }
            return Err(DownloadError::InvalidChunkIndex { index: idx });
        }
        match slots[idx] {
            Some(q) => {
                proof {
                    assert(indices@[q as int] == idx && q != p);
                    assert(indices@[p as int] == idx);
                }
                return Err(DownloadError::InvalidChunkIndex { index: idx });
            },
            None => {},
        }
        slots.set(idx, Some(p));
        p += 1;
    }
    assert(indices_valid(indices@, n as nat)) by {
        assert forall|a: int, b: int|
            0 <= a < indices.len() && 0 <= b < indices.len() && a != b implies indices@[a] != indices@[b] by {
            assert(slots[indices@[a] as int] == Some(a as usize));
            assert(slots[indices@[b] as int] == Some(b as usize));
        }
    }
    let mut order: Vec<usize> = Vec::new();
    let mut k: usize = 0;
    while k < n
        invariant
            n == expected_count,
            k <= n,
            slots.len() == n,
            p == indices.len(),
            indices_valid(indices@, n as nat),
            forall|j: int| 0 <= j < n ==> (#[trigger] slots[j] matches Some(q) ==> q < p && indices@[q as int] == j),
            forall|j: int| 0 <= j < n ==> (#[trigger] slots[j] is None ==> forall|q: int| 0 <= q < p ==> indices@[q] != j),
            order.len() == k,
            forall|j: int| 0 <= j < k ==> order[j] < indices.len() && indices@[#[trigger] order[j] as int] == j,
        decreases n - k,
    {
        match slots[k] {
            Some(q) => {
                order.push(q);
            },
            None => {
                proof {
                    assert(!indices@.contains(k));
                    assert forall|j: nat| j < k implies #[trigger] indices@.contains(j as usize) by {
                        assert(indices@[order[j as int] as int] == j);
                    }
                    assert(!all_chunks_present(indices@, n as nat)) by {
                        assert(!indices@.contains((k as nat) as usize));
                    }
                    }
                return Err(DownloadError::ChunkLost { index: k });
            },
        }
        k += 1;
    }
    assert forall|j: nat| j < n implies #[trigger] indices@.contains(j as usize) by {
        assert(indices@[order[j as int] as int] == j);
    }
    Ok(order)
}

/// A chunk that never completed makes reassembly fail: a transfer whose
/// fetcher for chunk `lost` used up every attempt cannot end in success.
pub proof fn lemma_lost_chunk_fails(indices: Seq<usize>, expected_count: usize, lost: usize)
    requires
        lost < expected_count,
        !indices.contains(lost),
    ensures
        !completions_complete(indices, expected_count as nat),
{
    assert(!indices.contains((lost as nat) as usize));
}

/// Whatever order the chunks arrived in, writing the completions in the
/// order that `reassembly_order` gives writes the planned ranges in index
/// order, and so every byte of the resource once and in order.
pub proof fn lemma_reassembly_writes_resource(
    total_size: usize,
    concurrency: usize,
    indices: Seq<usize>,
    order: Seq<usize>,
)
    requires
        plannable(total_size as nat, concurrency as nat),
        order.len() == planned(total_size as nat, concurrency as nat).len(),
        forall|k: int| 0 <= k < order.len() ==> order[k] < indices.len() && indices[#[trigger] order[k] as int] == k,
    ensures
        offsets_in_order(
            Seq::new(
                order.len(),
                |k: int| planned(total_size as nat, concurrency as nat)[indices[order[k] as int] as int],
            ),
        ) == Seq::new(total_size as nat, |b: int| b),
{
    let p = planned(total_size as nat, concurrency as nat);
    let written = Seq::new(order.len(), |k: int| p[indices[order[k] as int] as int]);
    assert(written =~= p);
    lemma_plan_in_order_is_resource(total_size, concurrency);
}

} // verus!
