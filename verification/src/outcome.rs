//! Download orchestration decisions: which transfer path to take, and
//! how the results of the spawned workers are aggregated into a single
//! download outcome.
use vstd::prelude::*;
use crate::probe::{ProbeError, ResourceDescriptor};

verus! {

/// Why one worker's transfer failed: the transport broke mid-stream, or
/// the server answered with a non-success status.
#[derive(Clone, Copy, Debug, PartialEq, Eq, Structural)]
pub enum FetchError {
    Transport,
    Status(u16),
}

/// The single failure a download reports.  Worker failures are collapsed
/// into one aggregate `Failed`; the partially written file is left for
/// the caller to remove.
#[derive(Clone, Copy, Debug, PartialEq, Eq, Structural)]
pub enum DownloadError {
    Probe(ProbeError),
    Failed,
}

/// The transfer strategy for one download.
#[derive(Clone, Copy, Debug, PartialEq, Eq, Structural)]
pub enum TransferPath {
    Segmented,
    WholeFile,
}

/// Chooses the transfer path: the segmented path exactly when the probe
/// found the server range-capable, the sequential whole-file fallback
/// otherwise.
pub fn choose_path(desc: &ResourceDescriptor) -> (p: TransferPath)
    ensures
        p == (if desc.range_capable {
            TransferPath::Segmented
        } else {
            TransferPath::WholeFile
        }),
        desc.range_capable <==> p == TransferPath::Segmented,
{
    if desc.range_capable {
        TransferPath::Segmented
    } else {
        TransferPath::WholeFile
    }
}

/// Some worker of the download reported a failure.
pub open spec fn any_failed(results: Seq<Result<(), FetchError>>) -> bool {
    exists|i: int| 0 <= i < results.len() && (#[trigger] results[i]) is Err
}

/// Joins the workers' results into the download outcome: a failure is
/// reported exactly when at least one worker failed, even if every other
/// worker succeeded — there is no silent partial success.  The first
/// error encountered decides; later results are discarded.
pub fn aggregate(results: &Vec<Result<(), FetchError>>) -> (r: Result<(), DownloadError>)
    ensures
        r is Err <==> any_failed(results@),
        r is Err ==> r == Err::<(), DownloadError>(DownloadError::Failed),
{
    let n = results.len();
    let mut i: usize = 0;
    while i < n
        invariant
            n == results@.len(),
            0 <= i <= n,
            forall|j: int| 0 <= j < i ==> !((#[trigger] results@[j]) is Err),
        decreases n - i,
    {
        if results[i].is_err() {
            return Err(DownloadError::Failed);
        }
        i = i + 1;
    }
    Ok(())
}

} // verus!
