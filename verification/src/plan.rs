//! Segment planner: splits a resource of known byte length into
//! contiguous, non-overlapping ranges, one per concurrent worker.
use vstd::prelude::*;
use vstd::arithmetic::div_mod::lemma_fundamental_div_mod;

verus! {

/// One contiguous byte range of a resource.  `start` is inclusive; a
/// `Some(e)` end is inclusive, while `None` means "from `start` to the end
/// of the stream" and is used only for the final segment of a plan.
#[derive(Clone, Copy, Debug, PartialEq, Eq)]
pub struct Segment {
    pub start: u64,
    pub end: Option<u64>,
}

/// First byte offset after a segment, for a resource of `total` bytes.
pub open spec fn seg_end_exclusive(s: Segment, total: u64) -> int {
    match s.end {
        Some(e) => e + 1,
        None => total as int,
    }
}

/// Number of bytes a segment covers, for a resource of `total` bytes.
pub open spec fn seg_len(s: Segment, total: u64) -> int {
    seg_end_exclusive(s, total) - s.start
}

/// A worker count of zero is lifted to one.
pub open spec fn clamped_workers(workers: u64) -> u64 {
    if workers == 0 {
        1u64
    } else {
        workers
    }
}

/// The worker count the planner actually uses: the requested count,
/// clamped to one, and collapsed to a single worker when the resource is
/// shorter than the worker count (so no zero-length segment is emitted).
pub open spec fn effective_workers(total: u64, workers: u64) -> u64 {
    let w = clamped_workers(workers);
    if total < w {
        1u64
    } else {
        w
    }
}

/// Size of each non-final segment: the total length divided evenly among
/// the workers, the final segment absorbing the remainder.
pub open spec fn plan_block(total: u64, workers: u64) -> u64 {
    total / effective_workers(total, workers)
}

/// Exact shape of a plan with `w` segments of block size `b`: `w - 1`
/// bounded segments of `b` bytes each, then one open final segment.
pub open spec fn plan_shape(segs: Seq<Segment>, w: int, b: int) -> bool {
    &&& segs.len() == w
    &&& forall|i: int|
        0 <= i < w - 1 ==> (#[trigger] segs[i]).start == i * b && segs[i].end == Some(
            ((i + 1) * b - 1) as u64,
        )
    &&& segs[w - 1].start == (w - 1) * b
    &&& segs[w - 1].end is None
}

/// What `plan` returns for a resource of `total` bytes and a requested
/// worker count.
pub open spec fn is_plan(total: u64, workers: u64, segs: Seq<Segment>) -> bool {
    plan_shape(
        segs,
        effective_workers(total, workers) as int,
        plan_block(total, workers) as int,
    )
}

/// A segment lies inside a resource of `total` bytes and does not run
/// backwards.
pub open spec fn seg_in_bounds(seg: Segment, total: u64) -> bool {
    &&& seg.start <= seg_end_exclusive(seg, total)
    &&& seg_end_exclusive(seg, total) <= total
}

/// Segments never overlap: each one ends before any later one begins.
pub open spec fn segs_disjoint(segs: Seq<Segment>, total: u64) -> bool {
    forall|i: int, j: int|
        0 <= i < j < segs.len() ==> seg_end_exclusive(#[trigger] segs[i], total)
            <= (#[trigger] segs[j]).start
}

/// Segments leave no gap: the first starts at zero, each next segment
/// starts exactly where the previous one ended, and the last one ends at
/// the total length.
pub open spec fn segs_contiguous(segs: Seq<Segment>, total: u64) -> bool {
    &&& segs.len() > 0
    &&& segs[0].start == 0
    &&& forall|i: int|
        0 < i < segs.len() ==> (#[trigger] segs[i]).start == seg_end_exclusive(
            segs[i - 1],
            total,
        )
    &&& seg_end_exclusive(segs[segs.len() - 1], total) == total
}

/// Sum of the byte lengths of a sequence of segments.
pub open spec fn sum_seg_lens(segs: Seq<Segment>, total: u64) -> int
    decreases segs.len(),
{
    if segs.len() == 0 {
        0
    } else {
        sum_seg_lens(segs.drop_last(), total) + seg_len(segs.last(), total)
    }
}

proof fn lemma_sum_of_chain(segs: Seq<Segment>, total: u64)
    requires
        segs.len() > 0,
        forall|i: int|
            0 < i < segs.len() ==> (#[trigger] segs[i]).start == seg_end_exclusive(
                segs[i - 1],
                total,
            ),
    ensures
        sum_seg_lens(segs, total) == seg_end_exclusive(segs[segs.len() - 1], total)
            - segs[0].start,
    decreases segs.len(),
{
    if segs.len() > 1 {
        let pre = segs.drop_last();
        assert(forall|i: int|
            0 < i < pre.len() ==> (#[trigger] pre[i]).start == seg_end_exclusive(
                pre[i - 1],
                total,
            )) by {
            assert(forall|i: int| 0 <= i < pre.len() ==> pre[i] == #[trigger] segs[i]);
        }
        lemma_sum_of_chain(pre, total);
        assert(pre[0] == segs[0]);
        assert(pre[pre.len() - 1] == segs[segs.len() - 2]);
        assert(segs.last() == segs[segs.len() - 1]);
        assert(segs[segs.len() - 1].start == seg_end_exclusive(segs[segs.len() - 2], total));
        assert(sum_seg_lens(segs, total) == sum_seg_lens(pre, total) + seg_len(
            segs.last(),
            total,
        ));
    } else {
        reveal_with_fuel(sum_seg_lens, 2);
        assert(segs.drop_last().len() == 0);
        assert(segs.last() == segs[0]);
    }
}

proof fn lemma_chain_monotone(segs: Seq<Segment>, total: u64, i: int, j: int)
    requires
        0 <= i < j < segs.len(),
        forall|k: int|
            0 < k < segs.len() ==> (#[trigger] segs[k]).start == seg_end_exclusive(
                segs[k - 1],
                total,
            ),
        forall|k: int| 0 <= k < segs.len() ==> seg_len(#[trigger] segs[k], total) >= 0,
    ensures
        seg_end_exclusive(segs[i], total) <= segs[j].start,
    decreases j - i,
{
    if j == i + 1 {
        assert(segs[j].start == seg_end_exclusive(segs[i], total));
    } else {
        lemma_chain_monotone(segs, total, i, j - 1);
        assert(seg_len(segs[j - 1], total) >= 0);
        assert(segs[j].start == seg_end_exclusive(segs[j - 1], total));
    }
}

proof fn lemma_plan_block_facts(total: u64, workers: u64)
    ensures
        effective_workers(total, workers) >= 1,
        effective_workers(total, workers) * plan_block(total, workers) <= total,
        effective_workers(total, workers) > 1 ==> plan_block(total, workers) >= 1,
        effective_workers(total, workers) == 1 ==> plan_block(total, workers) == total,
{
    let w = effective_workers(total, workers) as int;
    let b = plan_block(total, workers) as int;
    lemma_fundamental_div_mod(total as int, w);
    if w > 1 {
        assert(total >= clamped_workers(workers));
        assert(b >= 1) by (nonlinear_arith)
            requires
                total >= w,
                w >= 2,
                total as int == w * b + (total as int % w),
                0 <= (total as int % w) && (total as int % w) < w,
                b == total as int / w,
        ;
        assert(w * b <= total);
    } else {
        assert(b == total as int / 1int);
        assert(b == total);
    }
}

/// The planner's output partitions `[0, total)` exactly: the segments are
/// pairwise disjoint, collectively contiguous from offset zero to the total
/// length, and their lengths sum to the total length.  Holds for any total
/// length and any requested worker count of at least one (a count of zero
/// is clamped to one and gives the same plan).
pub proof fn lemma_plan_partition(total: u64, workers: u64, segs: Seq<Segment>)
    requires
        is_plan(total, workers, segs),
    ensures
        segs_contiguous(segs, total),
        segs_disjoint(segs, total),
        sum_seg_lens(segs, total) == total,
        forall|i: int| 0 <= i < segs.len() ==> seg_len(#[trigger] segs[i], total) >= 0,
        forall|i: int| 0 <= i < segs.len() ==> seg_in_bounds(#[trigger] segs[i], total),
{
    let w = effective_workers(total, workers) as int;
    let b = plan_block(total, workers) as int;
    lemma_plan_block_facts(total, workers);

    // The exclusive end and the length of every bounded segment.
    assert forall|i: int| 0 <= i < w - 1 implies seg_end_exclusive(#[trigger] segs[i], total)
        == (i + 1) * b && seg_len(segs[i], total) == b by {
        assert(segs[i].start == i * b);
        assert(segs[i].end == Some(((i + 1) * b - 1) as u64));
        assert(1 <= (i + 1) * b && (i + 1) * b <= w * b && i * b + b == (i + 1) * b)
            by (nonlinear_arith)
            requires
                0 <= i < w - 1,
                w >= 2,
                b >= 1,
        ;
        assert(((i + 1) * b - 1) as u64 == (i + 1) * b - 1);
    }

    // The start of every segment, last included, is its index times `b`.
    assert(segs[w - 1].start == (w - 1) * b);
    assert(forall|i: int| 0 <= i < w ==> (#[trigger] segs[i]).start == i * b);

    // Contiguity.
    assert(segs[0].start == 0 * b);
    assert(0 * b == 0);
    assert forall|i: int| 0 < i < w implies (#[trigger] segs[i]).start == seg_end_exclusive(
        segs[i - 1],
        total,
    ) by {
        assert(0 <= i - 1 < w - 1);
        assert(seg_end_exclusive(segs[i - 1], total) == i * b);
    }
    assert(seg_end_exclusive(segs[w - 1], total) == total);
    assert(segs_contiguous(segs, total));

    // Lengths are non-negative: bounded segments have length `b`, and the
    // final one covers the remainder `total - (w - 1) * b >= 0`.
    assert((w - 1) * b <= w * b) by (nonlinear_arith)
        requires
            w >= 1,
            b >= 0,
    ;
    assert(seg_len(segs[w - 1], total) == total - (w - 1) * b >= 0);
    assert forall|i: int| 0 <= i < segs.len() implies seg_len(#[trigger] segs[i], total)
        >= 0 by {
        if i < w - 1 {
            assert(seg_len(segs[i], total) == b);
        }
    }

    // Disjointness follows from contiguity and non-negative lengths.
    assert forall|i: int, j: int| 0 <= i < j < w implies seg_end_exclusive(
        #[trigger] segs[i],
        total,
    ) <= (#[trigger] segs[j]).start by {
        lemma_chain_monotone(segs, total, i, j);
    }

    // Lengths sum to the total because the chain spans [0, total).
    lemma_sum_of_chain(segs, total);

    // Every segment lies inside [0, total).
    assert forall|i: int| 0 <= i < segs.len() implies seg_in_bounds(#[trigger] segs[i], total) by {
        assert(seg_len(segs[i], total) >= 0);
        if i < w - 1 {
            lemma_chain_monotone(segs, total, i, w - 1);
            assert(seg_end_exclusive(segs[i], total) <= segs[w - 1].start);
            assert(seg_len(segs[w - 1], total) >= 0);
        }
    }
}

/// Clamps a requested worker count to at least one.
pub fn clamp_workers(requested: u64) -> (w: u64)
    ensures
        w == clamped_workers(requested),
        w >= 1,
{
    if requested == 0 {
        1
    } else {
        requested
    }
}

/// Computes the download plan: `w - 1` segments of exactly
/// `total / w` bytes starting at multiples of that block size, and a final
/// open-ended segment absorbing the remainder of the integer division.
/// When the resource is shorter than the worker count the plan degrades to
/// a single open segment instead of emitting empty ranges.
pub fn plan(total: u64, workers: u64) -> (segs: Vec<Segment>)
    ensures
        is_plan(total, workers, segs@),
        segs@.len() == effective_workers(total, workers),
{
    let w0 = clamp_workers(workers);
    let w = if total < w0 {
        1
    } else {
        w0
    };
    assert(w == effective_workers(total, workers));
    let b = total / w;
    assert(b == plan_block(total, workers));
    proof {
        lemma_plan_block_facts(total, workers);
    }

    let mut segs: Vec<Segment> = Vec::new();
    let mut i: u64 = 0;
    while i < w - 1
        invariant
            1 <= w,
            w == effective_workers(total, workers),
            b == plan_block(total, workers),
            0 <= i <= w - 1,
            segs@.len() == i,
            forall|j: int|
                0 <= j < i ==> (#[trigger] segs@[j]).start == j * b && segs@[j].end == Some(
                    ((j + 1) * b - 1) as u64,
                ),
        decreases w - 1 - i,
    {
        assert(w >= 2);
        proof {
            lemma_plan_block_facts(total, workers);
            assert(b >= 1);
            assert(i * b <= (i + 1) * b && (i + 1) * b <= w * b && 1 <= (i + 1) * b)
                by (nonlinear_arith)
                requires
                    0 <= i < w - 1,
                    w >= 2,
                    b >= 1,
            ;
        }
        let start = i * b;
        let end = (i + 1) * b - 1;
        segs.push(Segment { start, end: Some(end) });
        i = i + 1;
    }
    proof {
        lemma_plan_block_facts(total, workers);
        assert((w - 1) * b <= w * b) by (nonlinear_arith)
            requires
                w >= 1,
                b >= 0,
        ;
    }
    let last_start = (w - 1) * b;
    segs.push(Segment { start: last_start, end: None });
    segs
}

} // verus!
