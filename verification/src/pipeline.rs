//! Pipeline coordination: the producer loop's handoff of completed
//! downloads to the consumer, and the consumer's per-item decisions,
//! cleanup included.
use vstd::prelude::*;
use crate::channel::{phase, Channel, Phase};
use crate::media::AudioKind;

verus! {

/// The record describing one successfully downloaded item awaiting
/// post-processing.  Constructed only after the item's download outcome
/// is success; no partial item is ever enqueued.
pub struct PipelineItem {
    pub index: usize,
    pub audio: AudioKind,
    pub filename: String,
    pub owner: String,
}

/// The run's closing report: how many items produced a pipeline item
/// and how many failed along the way.
#[derive(Clone, Copy, Debug, PartialEq, Eq, Structural)]
pub struct RunSummary {
    pub succeeded: usize,
    pub failed: usize,
}

/// The pipeline items of the successful outcomes, in producer order.
pub open spec fn successes(outs: Seq<Option<PipelineItem>>) -> Seq<PipelineItem>
    decreases outs.len(),
{
    if outs.len() == 0 {
        Seq::empty()
    } else {
        successes(outs.drop_last()) + (match outs.last() {
            Some(item) => seq![item],
            None => Seq::empty(),
        })
    }
}

proof fn lemma_successes_len(outs: Seq<Option<PipelineItem>>)
    ensures
        successes(outs).len() <= outs.len(),
    decreases outs.len(),
{
    if outs.len() > 0 {
        lemma_successes_len(outs.drop_last());
    }
}

proof fn lemma_successes_take_step(outs: Seq<Option<PipelineItem>>, k: int)
    requires
        0 <= k < outs.len(),
    ensures
        successes(outs.take(k + 1)) == successes(outs.take(k)) + (match outs[k] {
            Some(item) => seq![item],
            None => Seq::<PipelineItem>::empty(),
        }),
{
    assert(outs.take(k + 1).drop_last() =~= outs.take(k));
    assert(outs.take(k + 1).last() == outs[k]);
}

/// The producer loop's handoff stage.  The per-item work has already
/// been attempted, in input order; each successful item carries its
/// pipeline record, each failed one was logged and skipped.  Every
/// record is sent over the channel in that same order — the producer
/// loop is sequential, so enqueue order is input order, not download
/// completion time — and the sending side is then closed.  The summary
/// counts both kinds; a failing item never aborts the run.
pub fn produce_items(outcomes: Vec<Option<PipelineItem>>, ch: &mut Channel<PipelineItem>) -> (s:
    RunSummary)
    requires
        !old(ch).is_closed(),
        old(ch).queue().len() + outcomes@.len() <= old(ch).capacity_spec(),
    ensures
        final(ch).queue() == old(ch).queue() + successes(outcomes@),
        final(ch).is_closed(),
        phase(*final(ch)) != Phase::Producing,
        s.succeeded == successes(outcomes@).len(),
        s.failed == outcomes@.len() - successes(outcomes@).len(),
{
    let ghost all = outcomes@;
    let mut rest = outcomes;
    let total_n = rest.len();
    assert(all.len() == total_n && all.len() <= usize::MAX);
    let mut succeeded: usize = 0;
    let mut failed: usize = 0;
    let ghost k: int = 0;
    let mut done: usize = 0;
    while rest.len() > 0
        invariant
            all.len() <= usize::MAX,
            0 <= done <= all.len(),
            rest@ == all.skip(done as int),
            !ch.is_closed(),
            ch.capacity_spec() == old(ch).capacity_spec(),
            old(ch).queue().len() + all.len() <= old(ch).capacity_spec(),
            ch.queue() == old(ch).queue() + successes(all.take(done as int)),
            succeeded == successes(all.take(done as int)).len(),
            succeeded + failed == done,
        decreases rest@.len(),
    {
        let next = rest.remove(0);
        proof {
            assert(rest@ =~= all.skip(done as int + 1));
            assert(all.skip(done as int)[0] == all[done as int]);
            lemma_successes_take_step(all, done as int);
            lemma_successes_len(all.take(done as int + 1));
            assert(all.take(done as int + 1).len() == done + 1);
        }
        match next {
            Some(item) => {
                ch.send(item);
                succeeded = succeeded + 1;
            },
            None => {
                failed = failed + 1;
            },
        }
        done = done + 1;
    }
    proof {
        assert(all.take(done as int) =~= all);
    }
    ch.close();
    RunSummary { succeeded, failed }
}

/// What the consumer decides to do with one received item.
#[derive(Clone, Copy, Debug, PartialEq, Eq, Structural)]
pub enum ConsumerAction {
    /// The intermediate file is present and the output is not: invoke
    /// the external transform.
    Transform,
    /// The intermediate file is absent: a non-fatal per-item error.
    SkipMissingSource,
    /// The expected output already exists: a non-fatal per-item error.
    SkipOutputExists,
}

/// The consumer's plan for one item: what to do, and which intermediate
/// artifacts to remove afterwards.
#[derive(Clone, Copy, Debug, PartialEq, Eq, Structural)]
pub struct ConsumerPlan {
    pub action: ConsumerAction,
    pub remove_source: bool,
    pub remove_side: bool,
}

/// The consumer's decision for one item, from what it observes on disk.
pub open spec fn spec_consumer_plan(
    source_exists: bool,
    output_exists: bool,
    side_allowed: bool,
) -> ConsumerPlan {
    ConsumerPlan {
        action: if !source_exists {
            ConsumerAction::SkipMissingSource
        } else if output_exists {
            ConsumerAction::SkipOutputExists
        } else {
            ConsumerAction::Transform
        },
        remove_source: true,
        remove_side: side_allowed,
    }
}

/// Decides one received item: transform when the intermediate file is
/// present and the output is not, otherwise skip with a non-fatal
/// error.  The cleanup flags are fixed before the transform ever runs,
/// so cleanup is performed whether the transform succeeds, fails, or
/// the item is skipped.
pub fn consumer_plan(source_exists: bool, output_exists: bool, side_allowed: bool) -> (p:
    ConsumerPlan)
    ensures
        p == spec_consumer_plan(source_exists, output_exists, side_allowed),
{
    let action = if !source_exists {
        ConsumerAction::SkipMissingSource
    } else if output_exists {
        ConsumerAction::SkipOutputExists
    } else {
        ConsumerAction::Transform
    };
    ConsumerPlan { action, remove_source: true, remove_side: side_allowed }
}

/// Cleanup of the intermediate artifact (and of the side artifact, when
/// one was fetched) is part of the consumer's plan on every path: for a
/// transformed item as much as for one skipped for a missing source or
/// a pre-existing output, and independently of whether the transform
/// then succeeds or fails, since the plan is fixed before it runs.
pub proof fn lemma_cleanup_unconditional(
    source_exists: bool,
    output_exists: bool,
    side_allowed: bool,
)
    ensures
        spec_consumer_plan(source_exists, output_exists, side_allowed).remove_source,
        spec_consumer_plan(source_exists, output_exists, side_allowed).remove_side
            == side_allowed,
{
}

} // verus!
