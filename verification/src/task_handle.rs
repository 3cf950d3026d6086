//! The completion signal: a shared countdown that tells the write-traffic
//! generator when every read-traffic generator has finished.
//!
//! The counter starts at one (the orchestrator's own hold). Duplicating a
//! handle increments it; releasing a handle decrements it; the tracker
//! reports done exactly when it has reached zero. The counter is a single
//! shared atomic integer: many producers mutate it, one consumer reads it,
//! and no lock is involved.
//!
//! The value reached by the shared counter is not visible to the verifier
//! (stores from other threads may interleave arbitrarily), so the counting
//! protocol itself is modelled by [`SignalEvent`] histories: every
//! duplication appends [`SignalEvent::Cloned`], every release appends
//! [`SignalEvent::Released`], and [`signal_count`] gives the counter's value
//! after a history. [`lemma_done_only_after_every_release`] shows the count
//! reaches zero exactly when the original hold and every clone have been
//! released, in whatever order the releases happen.
use vstd::prelude::*;

use std::sync::Arc;
use std::sync::atomic::AtomicUsize;
use std::sync::atomic::Ordering;

verus! {

/// Makes a connected handle/tracker pair whose shared counter starts at 1:
/// the handle stands for the orchestrator's own hold.
pub fn new_task_handles() -> (TaskHandle, TaskCompletion) {
    let count = Arc::new(AtomicUsize::new(1));
    let tracker_count = count.clone();
    (TaskHandle { count }, TaskCompletion { count: tracker_count })
}

/// One hold on the shared countdown. Each read-traffic worker owns one and
/// releases it when it terminates, on success or on failure.
pub struct TaskHandle {
    count: Arc<AtomicUsize>,
}

/// The consuming side of the countdown: read by the write-traffic generator
/// as its loop condition.
pub struct TaskCompletion {
    count: Arc<AtomicUsize>,
}

impl TaskHandle {
    /// Duplicates this hold, atomically incrementing the shared counter.
    pub fn clone_handle(&self) -> TaskHandle {
        self.count.fetch_add(1, Ordering::SeqCst);
        TaskHandle { count: self.count.clone() }
    }

    /// Gives this hold up, atomically decrementing the shared counter. Must
    /// be called exactly once per handle, at the owning worker's exit.
    pub fn release(self) {
        self.count.fetch_sub(1, Ordering::SeqCst);
    }
}

impl TaskCompletion {
    /// True exactly when the shared counter has reached zero, which can only
    /// happen once the original hold and every duplicated handle have been
    /// released.
    pub fn is_done(&self) -> bool {
        self.count.load(Ordering::SeqCst) == 0
    }
}

/// One mutation of the shared counter, in the order the atomic operations
/// took effect.
#[derive(Clone, Copy, Debug, PartialEq, Eq, Structural)]
pub enum SignalEvent {
    Cloned,
    Released,
}

/// The counter's value after a history of mutations, starting from the
/// single original hold.
pub open spec fn signal_count(events: Seq<SignalEvent>) -> int
    decreases events.len(),
{
    if events.len() == 0 {
        1
    } else {
        signal_count(events.drop_last()) + match events.last() {
            SignalEvent::Cloned => 1,
            SignalEvent::Released => -1,
        }
    }
}

/// How many duplications a history holds.
pub open spec fn clones_in(events: Seq<SignalEvent>) -> int
    decreases events.len(),
{
    if events.len() == 0 {
        0
    } else {
        clones_in(events.drop_last()) + if events.last() is Cloned {
            1int
        } else {
            0int
        }
    }
}

/// How many releases a history holds.
pub open spec fn releases_in(events: Seq<SignalEvent>) -> int
    decreases events.len(),
{
    if events.len() == 0 {
        0
    } else {
        releases_in(events.drop_last()) + if events.last() is Released {
            1int
        } else {
            0int
        }
    }
}

/// After any history, the counter holds one (the original hold) plus the
/// number of duplications, minus the number of releases.
pub proof fn lemma_signal_count_is_balance(events: Seq<SignalEvent>)
    ensures
        signal_count(events) == 1 + clones_in(events) - releases_in(events),
    decreases events.len(),
{
    if events.len() > 0 {
        lemma_signal_count_is_balance(events.drop_last());
    }
}

/// The tracker reports done only after every hold is gone: whatever order
/// the events come in, the count is zero exactly when the releases number
/// one (the original hold) more than the duplications; while any hold is
/// still outstanding the count is nonzero.
pub proof fn lemma_done_only_after_every_release(events: Seq<SignalEvent>)
    ensures
        (signal_count(events) == 0) <==> (releases_in(events) == 1 + clones_in(events)),
{
    lemma_signal_count_is_balance(events);
}

} // verus!
