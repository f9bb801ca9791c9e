//! Range fetch workers: the verified part of the streaming loop.  The
//! network hands each worker a sequence of body chunks; the worker places
//! them at its running offset through the shared output capability.
use vstd::prelude::*;
use crate::plan::{
    Segment, seg_end_exclusive, seg_len, seg_in_bounds, is_plan, plan,
    lemma_plan_partition, segs_contiguous, segs_disjoint,
};
use crate::output::{OutputBuffer, WorkerProgress, worker_write_chunk};
use crate::num::{spec_dec, push_dec};

verus! {

/// The value of the range request header a worker sends for its
/// segment: both bounds inclusive, and no upper bound at all for the
/// open final segment, which reads to the end of the stream.
pub open spec fn spec_range_header(seg: Segment) -> Seq<char> {
    match seg.end {
        Some(e) => "bytes="@ + spec_dec(seg.start as int) + "-"@ + spec_dec(e as int),
        None => "bytes="@ + spec_dec(seg.start as int) + "-"@,
    }
}

/// Renders the range request header value for a segment.
pub fn range_header_value(seg: &Segment) -> (r: String)
    ensures
        r@ == spec_range_header(*seg),
{
    let mut out = String::from_str("bytes=");
    push_dec(&mut out, seg.start);
    out.append("-");
    match seg.end {
        Some(e) => {
            push_dec(&mut out, e);
            proof {
                assert(out@ =~= spec_range_header(*seg));
            }
        },
        None => {
            proof {
                assert(out@ =~= spec_range_header(*seg));
            }
        },
    }
    out
}

/// Concatenation of a sequence of byte chunks, in arrival order.
pub open spec fn chunk_bytes(chunks: Seq<Seq<u8>>) -> Seq<u8>
    decreases chunks.len(),
{
    if chunks.len() == 0 {
        Seq::empty()
    } else {
        chunk_bytes(chunks.drop_last()) + chunks.last()
    }
}

/// The bytes carried by a vector of body chunks.
pub open spec fn bytes_of_chunks(chunks: Seq<Vec<u8>>) -> Seq<u8> {
    chunk_bytes(chunks.map_values(|v: Vec<u8>| v@))
}

proof fn lemma_chunk_bytes_take_step(m: Seq<Seq<u8>>, k: int)
    requires
        0 <= k < m.len(),
    ensures
        chunk_bytes(m.take(k + 1)) == chunk_bytes(m.take(k)) + m[k],
{
    assert(m.take(k + 1).drop_last() =~= m.take(k));
    assert(m.take(k + 1).last() == m[k]);
}

proof fn lemma_chunk_bytes_take_le(m: Seq<Seq<u8>>, k: int)
    requires
        0 <= k <= m.len(),
    ensures
        chunk_bytes(m.take(k)).len() <= chunk_bytes(m).len(),
    decreases m.len() - k,
{
    if k == m.len() {
        assert(m.take(k) =~= m);
    } else {
        lemma_chunk_bytes_take_step(m, k);
        lemma_chunk_bytes_take_le(m, k + 1);
    }
}

/// Runs one range fetch worker to stream exhaustion: every received chunk
/// is placed at the worker's running offset, which starts at the segment
/// start.  On return the segment's span holds exactly the received bytes
/// and no byte outside the span has changed — workers of disjoint
/// segments therefore never disturb each other, whatever the interleaving
/// of their individual locked writes.
pub fn run_range_worker(buf: &mut OutputBuffer, seg: Segment, chunks: &Vec<Vec<u8>>)
    requires
        old(buf)@.len() <= u64::MAX,
        seg_in_bounds(seg, old(buf)@.len() as u64),
        bytes_of_chunks(chunks@).len() == seg_len(seg, old(buf)@.len() as u64),
    ensures
        final(buf)@.len() == old(buf)@.len(),
        forall|i: int|
            seg.start <= i < seg_end_exclusive(seg, old(buf)@.len() as u64)
                ==> final(buf)@[i] == bytes_of_chunks(chunks@)[i - seg.start],
        forall|i: int|
            0 <= i < old(buf)@.len() && !(seg.start <= i < seg_end_exclusive(
                seg,
                old(buf)@.len() as u64,
            )) ==> final(buf)@[i] == old(buf)@[i],
{
    let ghost total = old(buf)@.len() as u64;
    let ghost m = chunks@.map_values(|v: Vec<u8>| v@);
    let mut prog = WorkerProgress::start(seg, buf.len() as u64);
    let n = chunks.len();
    let mut k: usize = 0;
    while k < n
        invariant
            n == chunks@.len(),
            m == chunks@.map_values(|v: Vec<u8>| v@),
            0 <= k <= n,
            buf@.len() == old(buf)@.len(),
            total == old(buf)@.len() as u64,
            old(buf)@.len() <= u64::MAX,
            seg_in_bounds(seg, total),
            bytes_of_chunks(chunks@).len() == seg_len(seg, total),
            prog.seg == seg,
            prog.wf(total),
            prog.written == chunk_bytes(m.take(k as int)).len(),
            forall|i: int|
                seg.start <= i < seg.start + prog.written ==> buf@[i] == chunk_bytes(
                    m.take(k as int),
                )[i - seg.start],
            forall|i: int|
                0 <= i < old(buf)@.len() && !(seg.start <= i < seg.start + prog.written)
                    ==> buf@[i] == old(buf)@[i],
        decreases n - k,
    {
        proof {
            lemma_chunk_bytes_take_step(m, k as int);
            lemma_chunk_bytes_take_le(m, k as int + 1);
            assert(m[k as int] == chunks@[k as int]@);
        }
        worker_write_chunk(buf, &mut prog, chunks[k].as_slice());
        k = k + 1;
    }
    proof {
        assert(m.take(n as int) =~= m);
        assert(prog.written == seg_len(seg, total));
    }
}

/// The bytes a range-capable server returns for a byte span: exactly the
/// source bytes of that span.
pub fn copy_range(source: &Vec<u8>, a: usize, b: usize) -> (r: Vec<u8>)
    requires
        a <= b <= source@.len(),
    ensures
        r@ == source@.subrange(a as int, b as int),
{
    let mut r: Vec<u8> = Vec::new();
    let mut i: usize = a;
    while i < b
        invariant
            a <= i <= b <= source@.len(),
            r@ == source@.subrange(a as int, i as int),
        decreases b - i,
    {
        r.push(source[i]);
        proof {
            assert(r@ =~= source@.subrange(a as int, i as int + 1));
        }
        i = i + 1;
    }
    r
}

/// The segmented download path, run against a range-capable source of
/// known bytes: plans the segments, then lets one worker per segment
/// stream that segment's bytes into the shared output.  The completed
/// output is byte-identical to the source, whatever worker count was
/// requested.
pub fn assemble_segmented(source: &Vec<u8>, workers: u64) -> (out: Vec<u8>)
    ensures
        out@ == source@,
{
    let total64 = source.len() as u64;
    let segs = plan(total64, workers);
    proof {
        lemma_plan_partition(total64, workers, segs@);
    }
    let mut buf = OutputBuffer::new(source.len());
    let w = segs.len();
    let mut idx: usize = 0;
    while idx < w
        invariant
            w == segs@.len(),
            0 <= idx <= w,
            total64 == source@.len(),
            buf@.len() == source@.len(),
            source@.len() <= u64::MAX,
            source@.len() <= usize::MAX,
            is_plan(total64, workers, segs@),
            segs_contiguous(segs@, total64),
            segs_disjoint(segs@, total64),
            forall|i: int| 0 <= i < w ==> seg_len(#[trigger] segs@[i], total64) >= 0,
            forall|i: int| 0 <= i < w ==> seg_in_bounds(#[trigger] segs@[i], total64),
            idx > 0 ==> forall|i: int|
                0 <= i < seg_end_exclusive(segs@[idx - 1], total64) ==> buf@[i] == source@[i],
        decreases w - idx,
    {
        let seg = segs[idx];
        proof {
            assert(seg_in_bounds(seg, total64));
            assert(seg.start <= total64);
            assert(seg_end_exclusive(seg, total64) <= total64);
        }
        let a = seg.start as usize;
        let b_excl = match seg.end {
            Some(e) => (e + 1) as usize,
            None => source.len(),
        };
        assert(b_excl == seg_end_exclusive(seg, total64));
        let piece = copy_range(source, a, b_excl);
        proof {
            lemma_bytes_of_single_chunk(piece@);
        }
        let chunks = vec![piece];
        run_range_worker(&mut buf, seg, &chunks);
        proof {
            if idx > 0 {
                assert(segs@[idx as int].start == seg_end_exclusive(
                    segs@[idx as int - 1],
                    total64,
                ));
            }
            assert(forall|i: int|
                0 <= i < seg_end_exclusive(segs@[idx as int], total64) ==> buf@[i]
                    == source@[i]);
        }
        idx = idx + 1;
    }
    proof {
        assert(seg_end_exclusive(segs@[w - 1], total64) == total64);
        assert(buf@ =~= source@);
    }
    buf.into_bytes()
}

proof fn lemma_bytes_of_single_chunk(piece: Seq<u8>)
    ensures
        forall|chunks: Seq<Vec<u8>>|
            chunks.len() == 1 && (#[trigger] chunks[0])@ == piece ==> bytes_of_chunks(chunks)
                == piece,
{
    assert forall|chunks: Seq<Vec<u8>>|
        chunks.len() == 1 && (#[trigger] chunks[0])@ == piece implies bytes_of_chunks(chunks)
        == piece by {
        let m = chunks.map_values(|v: Vec<u8>| v@);
        reveal_with_fuel(chunk_bytes, 2);
        assert(m.len() == 1);
        assert(m.drop_last().len() == 0);
        assert(m.last() == piece);
        assert(chunk_bytes(m) =~= piece);
    }
}

/// The whole-file fallback path, run against the same source: a single
/// worker streams every byte from offset zero with no range header and no
/// locking.  The completed output is byte-identical to the source — and
/// therefore byte-identical to what the segmented path produces.
pub fn assemble_whole(source: &Vec<u8>) -> (out: Vec<u8>)
    ensures
        out@ == source@,
{
    let mut buf = OutputBuffer::new(source.len());
    let seg = Segment { start: 0, end: None };
    let total64 = source.len() as u64;
    assert(seg_in_bounds(seg, total64));
    let piece = copy_range(source, 0, source.len());
    proof {
        lemma_bytes_of_single_chunk(piece@);
        assert(piece@ =~= source@);
    }
    let chunks = vec![piece];
    run_range_worker(&mut buf, seg, &chunks);
    proof {
        assert(buf@ =~= source@);
    }
    buf.into_bytes()
}

/// For a range-capable source, the segmented path and the single
/// whole-file reference path yield byte-identical files: each path's
/// contract pins its output to the source bytes, so the outputs agree.
pub proof fn lemma_segmented_matches_whole(
    source: Seq<u8>,
    segmented_out: Seq<u8>,
    whole_out: Seq<u8>,
)
    requires
        segmented_out == source,
        whole_out == source,
    ensures
        segmented_out == whole_out,
{
}

} // verus!
