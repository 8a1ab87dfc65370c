//! Progress counters of a tracked job.

use vstd::prelude::*;

verus! {

/// The number of items that are done after one more was counted: a record
/// that is complete stays as it is.
pub open spec fn next_processed(processed: nat, total: nat) -> nat {
    if processed < total {
        processed + 1
    } else {
        processed
    }
}

/// The number of items that are done after `steps` more were counted.
pub open spec fn processed_after(processed: nat, total: nat, steps: nat) -> nat
    decreases steps,
{
    if steps == 0 {
        processed
    } else {
        next_processed(processed_after(processed, total, (steps - 1) as nat), total)
    }
}

/// Counters of a job: how many items it has, and how many of them are done.
///
/// Of every record, no more items are done than there are, and counting
/// never lowers the number of those that are done.
pub trait ProgressTracker: Sized {
    /// Number of items the job was created with.
    spec fn total(&self) -> nat;

    /// Number of items that are done.
    spec fn processed(&self) -> nat;

    /// A fresh record for `total_items` items, none of them done.
    fn new(total_items: usize) -> (tracker: Self)
        ensures
            tracker.total() == total_items,
            tracker.processed() == 0,
    ;

    /// Counts one more item as done. A record that is complete stays as it
    /// is.
    fn increment_processed(&mut self)
        ensures
            final(self).total() == old(self).total(),
            final(self).processed() == next_processed(old(self).processed(), old(self).total()),
    ;

    /// The pair `(processed, total)`.
    fn progress_status(&self) -> (status: (usize, usize))
        ensures
            status.0 == self.processed(),
            status.1 == self.total(),
            status.0 <= status.1,
    ;
}

/// However many items are counted, no more are done than there are, and
/// never fewer than before.
pub proof fn lemma_processed_stays_in_bounds(processed: nat, total: nat, steps: nat)
    requires
        processed <= total,
    ensures
        processed <= processed_after(processed, total, steps) <= total,
        processed_after(processed, total, steps) == if processed + steps <= total {
            processed + steps
        } else {
            total
        },
    decreases steps,
{
    if steps > 0 {
        lemma_processed_stays_in_bounds(processed, total, (steps - 1) as nat);
    }
}

/// A job whose every item was counted once is complete.
pub proof fn lemma_drained_job_is_complete(total: nat)
    ensures
        processed_after(0, total, total) == total,
{
    lemma_processed_stays_in_bounds(0, total, total);
}

/// Counting more items never lowers the number of those that are done.
pub proof fn lemma_processed_is_monotone(processed: nat, total: nat, fewer: nat, more: nat)
    requires
        processed <= total,
        fewer <= more,
    ensures
        processed_after(processed, total, fewer) <= processed_after(processed, total, more),
{
    lemma_processed_stays_in_bounds(processed, total, fewer);
    lemma_processed_stays_in_bounds(processed, total, more);
}

} // verus!
