//! The bounded download scheduler's decision logic.
//!
//! The scheduler owns the coordination of the download phase: it submits
//! segment download tasks while the in-flight set is below the concurrency
//! ceiling, drains completions otherwise, stops submitting on the first
//! failure while still draining the in-flight set, and only then surfaces
//! the error. The caller launches tasks and awaits completions; the state
//! machine here decides what to do next, and its well-formedness invariant
//! bounds the in-flight set at every point.

use vstd::prelude::*;

use crate::errors::{FetchError, PipelineError};

verus! {

/// The fixed concurrency ceiling of the download phase.
pub const CONCURRENCY_LIMIT: usize = 10;

/// The scheduler's state. `total` and `limit` are fixed at construction;
/// the counters change as tasks are launched and finish.
pub struct Scheduler {
    /// Length of the work list.
    pub total: usize,
    /// Concurrency ceiling: the in-flight set never grows beyond it.
    pub limit: usize,
    /// Tasks launched so far; also the index of the next segment to launch.
    pub submitted: usize,
    /// Tasks launched and not yet finished.
    pub in_flight: usize,
    /// Tasks finished successfully; grows by one per success.
    pub completed: usize,
    /// Tasks finished in failure.
    pub failed_count: usize,
    /// The first failure observed, if any; set once and kept.
    pub failure: Option<PipelineError>,
}

/// What the scheduler asks its caller to do next.
#[derive(Clone, Copy, Debug, PartialEq, Eq, Structural)]
pub enum SchedulerAction {
    /// Launch the download task of the segment with this index.
    Launch(usize),
    /// Await one completion of the in-flight set.
    Drain,
    /// Every segment finished successfully: the download phase is done.
    Finish,
    /// A task failed and the in-flight set is drained: surface the error.
    Abort(PipelineError),
}

impl Scheduler {
    /// The scheduler's invariant. In particular the in-flight set never
    /// exceeds the ceiling, every in-flight task was submitted, and the
    /// counters account for every submitted task exactly once.
    pub open spec fn wf(self) -> bool {
        &&& 1 <= self.limit
        &&& self.in_flight <= self.limit
        &&& self.submitted <= self.total
        &&& self.completed + self.failed_count + self.in_flight == self.submitted
        &&& (self.failure is Some <==> self.failed_count > 0)
    }

    /// A scheduler for a work list of `total` segments under the given
    /// concurrency ceiling.
    pub fn new(total: usize, limit: usize) -> (s: Scheduler)
        requires
            1 <= limit,
        ensures
            s.wf(),
            s.total == total,
            s.limit == limit,
            s.submitted == 0,
            s.in_flight == 0,
            s.completed == 0,
            s.failed_count == 0,
            s.failure is None,
    {
        Scheduler {
            total,
            limit,
            submitted: 0,
            in_flight: 0,
            completed: 0,
            failed_count: 0,
            failure: None,
        }
    }

    /// Decides the next step. Work is launched exactly while no failure has
    /// been observed, segments remain, and the in-flight set is below the
    /// ceiling; after a failure the in-flight set is only drained; `Finish`
    /// is reached only with every segment completed successfully.
    pub fn next_action(&self) -> (a: SchedulerAction)
        requires
            self.wf(),
        ensures
            a matches SchedulerAction::Launch(i) ==> self.failure is None && i == self.submitted
                && i < self.total && self.in_flight < self.limit,
            (a is Launch <==> (self.failure is None && self.submitted < self.total
                && self.in_flight < self.limit)),
            a matches SchedulerAction::Abort(e) ==> self.failure == Some(e) && self.in_flight
                == 0,
            (a is Abort <==> (self.failure is Some && self.in_flight == 0)),
            (a is Finish <==> (self.failure is None && self.submitted == self.total
                && self.in_flight == 0)),
            a is Finish ==> self.completed == self.total,
            (a is Drain <==> (self.in_flight > 0 && (self.failure is Some || self.submitted
                == self.total || self.in_flight == self.limit))),
    {
        match self.failure {
            Some(e) => {
                if self.in_flight == 0 {
                    SchedulerAction::Abort(e)
                } else {
                    SchedulerAction::Drain
                }
            },
            None => {
                if self.submitted < self.total && self.in_flight < self.limit {
                    SchedulerAction::Launch(self.submitted)
                } else if self.in_flight > 0 {
                    SchedulerAction::Drain
                } else {
                    SchedulerAction::Finish
                }
            },
        }
    }

    /// Records that the task of the next segment was launched.
    pub fn on_launched(&mut self)
        requires
            old(self).wf(),
            old(self).failure is None,
            old(self).submitted < old(self).total,
            old(self).in_flight < old(self).limit,
        ensures
            final(self).wf(),
            final(self).total == old(self).total,
            final(self).limit == old(self).limit,
            final(self).submitted == old(self).submitted + 1,
            final(self).in_flight == old(self).in_flight + 1,
            final(self).completed == old(self).completed,
            final(self).failed_count == old(self).failed_count,
            final(self).failure == old(self).failure,
            final(self).in_flight <= final(self).limit,
    {
        self.submitted = self.submitted + 1;
        self.in_flight = self.in_flight + 1;
    }

    /// Records that one in-flight task finished with the given outcome. A
    /// success grows the completed count by one; a failure is wrapped as a
    /// segment download error and kept if it is the first.
    pub fn on_task_finished(&mut self, outcome: Result<(), FetchError>)
        requires
            old(self).wf(),
            old(self).in_flight > 0,
        ensures
            final(self).wf(),
            final(self).total == old(self).total,
            final(self).limit == old(self).limit,
            final(self).submitted == old(self).submitted,
            final(self).in_flight == old(self).in_flight - 1,
            outcome is Ok ==> final(self).completed == old(self).completed + 1
                && final(self).failed_count == old(self).failed_count
                && final(self).failure == old(self).failure,
            outcome matches Err(e) ==> final(self).completed == old(self).completed
                && final(self).failed_count == old(self).failed_count + 1
                && final(self).failure == (if old(self).failure is Some {
                    old(self).failure
                } else {
                    Some(PipelineError::SegmentDownload(e))
                }),
    {
        self.in_flight = self.in_flight - 1;
        match outcome {
            Ok(()) => {
                self.completed = self.completed + 1;
            },
            Err(e) => {
                self.failed_count = self.failed_count + 1;
                if self.failure.is_none() {
                    self.failure = Some(PipelineError::SegmentDownload(e));
                }
            },
        }
    }
}

/// The concurrency bound: in every well-formed scheduler state, the number
/// of simultaneously in-flight downloads is at most the configured limit.
pub proof fn lemma_concurrency_bound(s: Scheduler)
    requires
        s.wf(),
    ensures
        s.in_flight <= s.limit,
{
}

} // verus!
