//! Splitting a resource of known size into byte ranges that can be fetched
//! concurrently and written back in index order.
use vstd::prelude::*;

verus! {

/// A closed byte range `start..=end` of a remote resource, as it is written
/// in an HTTP `Range: bytes=start-end` header.
#[derive(Clone, Copy, Debug, PartialEq, Eq, Structural)]
pub struct ByteRange {
    pub start: usize,
    pub end: usize,
}

impl ByteRange {
    /// Whether byte offset `b` lies inside the range.
    pub open spec fn contains(self, b: int) -> bool {
        self.start <= b <= self.end
    }
}

/// Whether byte offset `b` lies in one of the `ranges`.
pub open spec fn covered_by(ranges: Seq<ByteRange>, b: int) -> bool {
    exists|i: int| 0 <= i < ranges.len() && #[trigger] ranges[i].contains(b)
}

/// The concurrency actually planned with: a request for at least as many
/// chunks as there are bytes is halved once.
pub open spec fn effective_concurrency(total_size: nat, concurrency: nat) -> nat {
    if concurrency >= total_size {
        concurrency / 2
    } else {
        concurrency
    }
}

/// Whether a plan exists: a non-empty resource and an effective concurrency
/// between one chunk and one chunk per byte.
pub open spec fn plannable(total_size: nat, concurrency: nat) -> bool {
    let n: nat = effective_concurrency(total_size, concurrency);
    total_size > 0 && 1 <= n && n <= total_size
}

/// Size of every chunk but the last, which also takes the remainder.
pub open spec fn chunk_size(total_size: nat, concurrency: nat) -> nat {
    total_size / effective_concurrency(total_size, concurrency)
}

/// The `i`-th range of the plan.
pub open spec fn planned_range(total_size: nat, concurrency: nat, i: int) -> ByteRange {
    let n: nat = effective_concurrency(total_size, concurrency);
    let cs: nat = chunk_size(total_size, concurrency);
    ByteRange {
        start: (i * cs) as usize,
        end: if i + 1 == n {
            (total_size - 1) as usize
        } else {
            ((i + 1) * cs - 1) as usize
        },
    }
}

/// The whole plan, in index order.
pub open spec fn planned(total_size: nat, concurrency: nat) -> Seq<ByteRange> {
    Seq::new(
        effective_concurrency(total_size, concurrency),
        |i: int| planned_range(total_size, concurrency, i),
    )
}

/// The concurrency to plan with for a resource of `total_size` bytes.
pub fn effective_concurrency_of(total_size: usize, concurrency: usize) -> (r: usize)
    ensures
        r == effective_concurrency(total_size as nat, concurrency as nat),
{
    if concurrency >= total_size {
        concurrency / 2
    } else {
        concurrency
    }
}

proof fn lemma_chunk_bounds(total: nat, n: nat, cs: nat, i: nat)
    requires
        1 <= n <= total,
        cs == total / n,
        i < n,
    ensures
        cs >= 1,
        (i + 1) * cs <= n * cs,
        n * cs <= total,
        i * cs + cs == (i + 1) * cs,
        i * cs <= total - 1,
{
    assert(cs >= 1) by (nonlinear_arith)
        requires 1 <= n <= total, cs == total / n;
    assert(n * cs <= total) by (nonlinear_arith)
        requires 1 <= n, cs == total / n;
    assert((i + 1) * cs <= n * cs) by (nonlinear_arith)
        requires i < n;
    assert(i * cs + cs == (i + 1) * cs) by (nonlinear_arith);
}

/// Splits a resource of `total_size` bytes into consecutive closed ranges.
///
/// The effective concurrency `n` decides the number of ranges; each has
/// `total_size / n` bytes but the last, which ends at the last byte. Where no
/// such plan exists (an empty resource, or a concurrency that leaves no chunk
/// or a chunk of no byte) the result is `None`.
pub fn plan_chunks(total_size: usize, concurrency: usize) -> (r: Option<Vec<ByteRange>>)
    ensures
        r.is_some() == plannable(total_size as nat, concurrency as nat),
        r matches Some(v) ==> v@ == planned(total_size as nat, concurrency as nat),
{
    let n: usize = effective_concurrency_of(total_size, concurrency);
    if total_size == 0 || n == 0 || n > total_size {
        return None;
    }
    let cs: usize = total_size / n;
    let ghost total = total_size as nat;
    let ghost c = concurrency as nat;
    let mut ranges: Vec<ByteRange> = Vec::new();
    let mut k: usize = 0;
    while k < n
        invariant
            1 <= n <= total_size,
            n == effective_concurrency(total, c),
            total == total_size,
            c == concurrency,
            cs == chunk_size(total, c),
            k <= n,
            ranges.len() == k,
            forall|i: int| 0 <= i < k ==> ranges@[i] == planned_range(total, c, i),
        decreases n - k,
    {
        proof {
            lemma_chunk_bounds(total, n as nat, cs as nat, k as nat);
        }
        let start: usize = k * cs;
        let end: usize = if k + 1 == n {
            total_size - 1
        } else {
            start + cs - 1
        };
        ranges.push(ByteRange { start, end });
        k += 1;
    }
    assert(ranges@ =~= planned(total, c));
    Some(ranges)
}

/// The ranges of a plan partition the resource: they are in index order, each
/// is non-empty, each starts right after the one before, the first starts at
/// byte 0 and the last ends at the last byte; so every byte of `[0,
/// total_size)` lies in exactly one range.
pub proof fn lemma_plan_partitions(total_size: usize, concurrency: usize)
    requires
        plannable(total_size as nat, concurrency as nat),
    ensures
        ({
            let p = planned(total_size as nat, concurrency as nat);
            &&& p.len() >= 1
            &&& p[0].start == 0
            &&& p[p.len() - 1].end == total_size - 1
            &&& forall|i: int| 0 <= i < p.len() ==> p[i].start <= p[i].end
            &&& forall|i: int| 0 <= i < p.len() - 1 ==> p[i].end + 1 == p[i + 1].start
            &&& forall|i: int, j: int| 0 <= i < j < p.len() ==> p[i].end < p[j].start
            &&& forall|b: int| 0 <= b < total_size ==> #[trigger] covered_by(p, b)
            &&& forall|b: int, i: int, j: int|
                0 <= i < p.len() && 0 <= j < p.len() && #[trigger] p[i].contains(b)
                    && #[trigger] p[j].contains(b) ==> i == j
        }),
{
    let total: nat = total_size as nat;
    let c: nat = concurrency as nat;
    let n: nat = effective_concurrency(total, c);
    let cs: nat = chunk_size(total, c);
    let p = planned(total, c);
    assert forall|i: int| 0 <= i < p.len() implies p[i].start <= p[i].end && p[i].start == i * cs
        && (i + 1 < n ==> p[i].end == (i + 1) * cs - 1) by {
        lemma_chunk_bounds(total, n, cs, i as nat);
    }
    assert forall|i: int, j: int| 0 <= i < j < p.len() implies p[i].end < p[j].start by {
        lemma_chunk_bounds(total, n, cs, i as nat);
        lemma_chunk_bounds(total, n, cs, j as nat);
        assert((i + 1) * cs <= j * cs) by (nonlinear_arith)
            requires i + 1 <= j, cs >= 1;
    }
    assert forall|b: int| 0 <= b < total_size implies #[trigger] covered_by(p, b) by {
        lemma_chunk_bounds(total, n, cs, 0);
        let q: int = b / cs as int;
        assert(q * cs <= b < (q + 1) * cs && q >= 0) by (nonlinear_arith)
            requires q == b / cs as int, cs >= 1, b >= 0;
        if q + 1 < n {
            lemma_chunk_bounds(total, n, cs, q as nat);
            assert(p[q].contains(b));
        } else {
            let l: int = n - 1;
            lemma_chunk_bounds(total, n, cs, l as nat);
            assert(l * cs <= q * cs) by (nonlinear_arith)
                requires l <= q, cs >= 1;
            assert(p[l as int].contains(b));
        }
    }
    assert forall|b: int, i: int, j: int|
        0 <= i < p.len() && 0 <= j < p.len() && #[trigger] p[i].contains(b)
            && #[trigger] p[j].contains(b) implies i == j by {
        if i < j {
            assert(p[i].end < p[j].start);
        } else if j < i {
            assert(p[j].end < p[i].start);
        }
    }
}

/// The byte offsets of a range, in order.
pub open spec fn range_offsets(r: ByteRange) -> Seq<int> {
    Seq::new((r.end - r.start + 1) as nat, |j: int| r.start + j)
}

/// The byte offsets written when `ranges` are written one after another.
pub open spec fn offsets_in_order(ranges: Seq<ByteRange>) -> Seq<int>
    decreases ranges.len(),
{
    if ranges.len() == 0 {
        Seq::empty()
    } else {
        offsets_in_order(ranges.drop_last()) + range_offsets(ranges.last())
    }
}

/// Writing the ranges of a plan in index order writes every byte of the
/// resource once, in the resource's own order: the destination receives
/// offsets `0, 1, ..., total_size - 1`.
pub proof fn lemma_plan_in_order_is_resource(total_size: usize, concurrency: usize)
    requires
        plannable(total_size as nat, concurrency as nat),
    ensures
        offsets_in_order(planned(total_size as nat, concurrency as nat)) == Seq::new(
            total_size as nat,
            |b: int| b,
        ),
{
    let p = planned(total_size as nat, concurrency as nat);
    lemma_plan_partitions(total_size, concurrency);
    assert forall|k: int| 1 <= k <= p.len() implies #[trigger] offsets_in_order(p.take(k)) == Seq::new(
        (p[k - 1].end + 1) as nat,
        |b: int| b,
    ) by {
        lemma_prefix_offsets(p, k);
    }
    assert(p.take(p.len() as int) =~= p);
}

proof fn lemma_prefix_offsets(p: Seq<ByteRange>, k: int)
    requires
        1 <= k <= p.len(),
        p[0].start == 0,
        forall|i: int| 0 <= i < p.len() ==> p[i].start <= p[i].end,
        forall|i: int| 0 <= i < p.len() - 1 ==> p[i].end + 1 == p[i + 1].start,
    ensures
        offsets_in_order(p.take(k)) == Seq::new((p[k - 1].end + 1) as nat, |b: int| b),
    decreases k,
{
    let t = p.take(k);
    assert(t.drop_last() =~= p.take(k - 1));
    assert(t.last() == p[k - 1]);
    if k == 1 {
        assert(offsets_in_order(p.take(0)) =~= Seq::<int>::empty());
        assert(offsets_in_order(t) =~= Seq::new((p[0].end + 1) as nat, |b: int| b));
    } else {
        lemma_prefix_offsets(p, k - 1);
        assert(p[k - 2].end + 1 == p[k - 1].start);
        assert(offsets_in_order(t) =~= Seq::new((p[k - 1].end + 1) as nat, |b: int| b));
    }
}

} // verus!
