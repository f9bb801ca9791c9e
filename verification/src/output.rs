//! Model of the shared output file.  All range fetch workers of one
//! download mutate a single output resource; they reach it only through
//! the narrow positioned-write capability below, which the runtime
//! serializes with a lock scoped to exactly one such write.
use vstd::prelude::*;
use crate::plan::{Segment, seg_end_exclusive, seg_len, seg_in_bounds};

verus! {

/// The bytes of the output file under construction.
pub struct OutputBuffer {
    data: Vec<u8>,
}

impl View for OutputBuffer {
    type V = Seq<u8>;

    closed spec fn view(&self) -> Seq<u8> {
        self.data@
    }
}

impl OutputBuffer {
    /// A fresh output of `len` zero bytes, standing for a newly created
    /// (truncated) destination file of known final size.
    pub fn new(len: usize) -> (b: OutputBuffer)
        ensures
            b@ == Seq::new(len as nat, |i: int| 0u8),
            b@.len() == len,
    {
        let data: Vec<u8> = vec![0u8; len];
        proof {
            assert(data@ =~= Seq::new(len as nat, |i: int| 0u8));
        }
        OutputBuffer { data }
    }

    pub fn len(&self) -> (n: usize)
        ensures
            n == self@.len(),
    {
        self.data.len()
    }

    /// Extracts the completed bytes.
    pub fn into_bytes(self) -> (r: Vec<u8>)
        ensures
            r@ == self@,
    {
        self.data
    }

    /// One positioned write: seek to `offset`, then write all of `chunk`.
    /// Everything outside `[offset, offset + chunk.len())` is untouched.
    /// This is the single operation a worker performs while holding the
    /// output lock.
    pub fn write_at(&mut self, offset: u64, chunk: &[u8])
        requires
            offset + chunk@.len() <= old(self)@.len(),
        ensures
            final(self)@.len() == old(self)@.len(),
            forall|i: int|
                0 <= i < old(self)@.len() && !(offset <= i < offset + chunk@.len())
                    ==> final(self)@[i] == old(self)@[i],
            forall|i: int|
                offset <= i < offset + chunk@.len() ==> final(self)@[i] == chunk@[
                    i - offset
                ],
    {
        let n = self.data.len();
        assert(offset <= n as u64);
        let base = offset as usize;
        let mut j: usize = 0;
        while j < chunk.len()
            invariant
                base == offset,
                base + chunk@.len() <= self@.len(),
                self@.len() <= usize::MAX,
                0 <= j <= chunk@.len(),
                self@.len() == old(self)@.len(),
                forall|i: int|
                    0 <= i < old(self)@.len() && !(offset <= i < offset + j)
                        ==> self@[i] == old(self)@[i],
                forall|i: int| offset <= i < offset + j ==> self@[i] == chunk@[i - offset],
            decreases chunk@.len() - j,
    {
            self.data[base + j] = chunk[j];
            j = j + 1;
        }
    }
}

/// A range fetch worker's progress through its segment: `written` bytes of
/// the segment have already been placed, so the next positioned write goes
/// to offset `seg.start + written`.  A worker never assumes the file
/// cursor persists between its writes; the offset is tracked here.
pub struct WorkerProgress {
    pub seg: Segment,
    pub written: u64,
}

impl WorkerProgress {
    pub open spec fn wf(self, total: u64) -> bool {
        &&& seg_in_bounds(self.seg, total)
        &&& self.written <= seg_len(self.seg, total)
    }

    /// A worker that has just issued its range request and written nothing.
    pub fn start(seg: Segment, total: u64) -> (p: WorkerProgress)
        requires
            seg_in_bounds(seg, total),
        ensures
            p.wf(total),
            p.seg == seg,
            p.written == 0,
    {
        WorkerProgress { seg, written: 0 }
    }

}

/// One iteration of a worker's streaming loop: the next body chunk is
/// placed at the worker's running offset and the offset advances by the
/// chunk's length.  The buffer outside the written span is untouched, so
/// concurrent workers of disjoint segments never disturb each other's
/// bytes.
pub fn worker_write_chunk(buf: &mut OutputBuffer, prog: &mut WorkerProgress, chunk: &[u8])
    requires
        old(prog).wf(old(buf)@.len() as u64),
        old(buf)@.len() <= u64::MAX,
        old(prog).written + chunk@.len() <= seg_len(old(prog).seg, old(buf)@.len() as u64),
    ensures
        final(buf)@.len() == old(buf)@.len(),
        final(prog).seg == old(prog).seg,
        final(prog).written == old(prog).written + chunk@.len(),
        final(prog).wf(old(buf)@.len() as u64),
        forall|i: int|
            old(prog).seg.start + old(prog).written <= i < old(prog).seg.start + old(
                prog,
            ).written + chunk@.len() ==> final(buf)@[i] == chunk@[
                i - old(prog).seg.start - old(prog).written
            ],
        forall|i: int|
            0 <= i < old(buf)@.len() && !(old(prog).seg.start + old(prog).written <= i < old(
                prog,
            ).seg.start + old(prog).written + chunk@.len()) ==> final(buf)@[i] == old(
                buf,
            )@[i],
{
    let offset = prog.seg.start + prog.written;
    buf.write_at(offset, chunk);
    prog.written = prog.written + chunk.len() as u64;
}

} // verus!
