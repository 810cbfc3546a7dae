//! The bounded-concurrency dispatcher: the decision core of a scheduler that
//! consumes a lazily produced sequence of tasks, runs at most `limit` of
//! them at a time (all of them when no limit is given), stops issuing work
//! at the first failure, and hands back every collected output or exactly
//! the first failure.
//!
//! The surrounding application drives the actual task objects (polling,
//! suspension, readiness); every decision — whether another task may start,
//! when the dispatch is finished, and what it returns — is taken here.

use vstd::prelude::*;

verus! {

/// A concurrency limit is valid when it is absent (unbounded) or positive.
/// A present zero is a configuration fault: it could never issue any task.
pub open spec fn limit_ok(limit: Option<usize>) -> bool {
    limit != Some(0usize)
}

/// Says whether a concurrency limit is acceptable, so that a caller can
/// refuse the configuration fault before building a dispatcher.
pub fn limit_is_valid(limit: &Option<usize>) -> (b: bool)
    ensures
        b == limit_ok(*limit),
{
    match limit {
        Some(l) => *l > 0,
        None => true,
    }
}

/// The dispatcher's state between events: how many tasks are in flight, the
/// outputs collected so far, the first failure if one was seen, and whether
/// the task source has run dry.
pub struct Dispatcher<T, E> {
    limit: Option<usize>,
    in_flight: usize,
    outputs: Vec<T>,
    failure: Option<E>,
    source_done: bool,
}

impl<T, E> Dispatcher<T, E> {
    /// The configured concurrency limit.
    pub closed spec fn limit_spec(self) -> Option<usize> {
        self.limit
    }

    /// How many started tasks have neither completed nor failed.
    pub closed spec fn in_flight_spec(self) -> nat {
        self.in_flight as nat
    }

    /// The outputs of the tasks that completed, in completion order.
    pub closed spec fn outputs_spec(self) -> Seq<T> {
        self.outputs@
    }

    /// The first failure observed, if any.
    pub closed spec fn failure_spec(self) -> Option<E> {
        self.failure
    }

    /// Whether the task source was reported exhausted.
    pub closed spec fn source_done_spec(self) -> bool {
        self.source_done
    }

    /// The dispatcher's invariant: the limit is valid, and when one is set,
    /// the tasks in flight never exceed it.
    pub open spec fn wf(self) -> bool {
        &&& limit_ok(self.limit_spec())
        &&& self.limit_spec() matches Some(k) ==> self.in_flight_spec() <= k
    }

    /// Whether the dispatch has failed.
    pub open spec fn failed(self) -> bool {
        self.failure_spec() is Some
    }

    /// Whether another task may be started now: never after a failure or
    /// once the source is dry; otherwise whenever capacity remains — always,
    /// if no limit is set.
    pub open spec fn wants_task_spec(self) -> bool {
        &&& !self.failed()
        &&& !self.source_done_spec()
        &&& self.limit_spec() matches Some(k) ==> self.in_flight_spec() < k
    }

    /// A fresh dispatcher: nothing in flight, nothing collected, no failure.
    pub fn new(limit: Option<usize>) -> (d: Dispatcher<T, E>)
        requires
            limit_ok(limit),
        ensures
            d.wf(),
            d.limit_spec() == limit,
            d.in_flight_spec() == 0,
            d.outputs_spec() == Seq::<T>::empty(),
            d.failure_spec() is None,
            !d.source_done_spec(),
    {
        Dispatcher { limit, in_flight: 0, outputs: Vec::new(), failure: None, source_done: false }
    }

    /// How many tasks are in flight, observably.
    pub fn in_flight_count(&self) -> (n: usize)
        ensures
            n == self.in_flight_spec(),
    {
        self.in_flight
    }

    /// How many outputs were collected so far, observably.
    pub fn output_count(&self) -> (n: usize)
        ensures
            n == self.outputs_spec().len(),
    {
        self.outputs.len()
    }

    /// Whether a failure was recorded, observably.
    pub fn has_failed(&self) -> (b: bool)
        ensures
            b == self.failed(),
    {
        self.failure.is_some()
    }

    /// Exec mirror of `wants_task_spec`: asks whether the loop should
    /// request and start another task.
    pub fn wants_task(&self) -> (b: bool)
        ensures
            b == self.wants_task_spec(),
    {
        if self.failure.is_some() || self.source_done {
            false
        } else {
            match self.limit {
                Some(k) => self.in_flight < k,
                None => true,
            }
        }
    }

    /// Records that one more task was started.  Only allowed while the
    /// dispatcher wants a task, which is what keeps the in-flight count
    /// under the limit.
    pub fn task_started(&mut self)
        requires
            old(self).wf(),
            old(self).wants_task_spec(),
            old(self).in_flight_spec() < usize::MAX,
        ensures
            final(self).wf(),
            final(self).in_flight_spec() == old(self).in_flight_spec() + 1,
            final(self).limit_spec() == old(self).limit_spec(),
            final(self).outputs_spec() == old(self).outputs_spec(),
            final(self).failure_spec() == old(self).failure_spec(),
            final(self).source_done_spec() == old(self).source_done_spec(),
    {
        self.in_flight = self.in_flight + 1;
    }

    /// Records that the source produced its last task: no more will be
    /// requested, and the dispatch finishes once the in-flight set drains.
    pub fn source_exhausted(&mut self)
        requires
            old(self).wf(),
        ensures
            final(self).wf(),
            final(self).source_done_spec(),
            final(self).limit_spec() == old(self).limit_spec(),
            final(self).in_flight_spec() == old(self).in_flight_spec(),
            final(self).outputs_spec() == old(self).outputs_spec(),
            final(self).failure_spec() == old(self).failure_spec(),
    {
        self.source_done = true;
    }

    /// Records that producing the next task itself failed.  The failure is
    /// kept verbatim; no further task will be wanted.
    pub fn source_failed(&mut self, e: E)
        requires
            old(self).wf(),
            !old(self).failed(),
        ensures
            final(self).wf(),
            final(self).failure_spec() == Some(e),
            !final(self).wants_task_spec(),
            final(self).limit_spec() == old(self).limit_spec(),
            final(self).outputs_spec() == old(self).outputs_spec(),
    {
        self.failure = Some(e);
    }

    /// Records that one in-flight task completed with an output, which is
    /// appended to the collected outputs (completion order, not submission
    /// order).
    pub fn task_completed(&mut self, output: T)
        requires
            old(self).wf(),
            !old(self).failed(),
            old(self).in_flight_spec() > 0,
        ensures
            final(self).wf(),
            final(self).in_flight_spec() == old(self).in_flight_spec() - 1,
            final(self).outputs_spec() == old(self).outputs_spec().push(output),
            final(self).failure_spec() == old(self).failure_spec(),
            final(self).limit_spec() == old(self).limit_spec(),
            final(self).source_done_spec() == old(self).source_done_spec(),
    {
        self.in_flight = self.in_flight - 1;
        self.outputs.push(output);
    }

    /// Records that one in-flight task failed.  The failure is kept
    /// verbatim, every other in-flight task is abandoned (their eventual
    /// results will be ignored), and no further task will be wanted.
    pub fn task_failed(&mut self, e: E)
        requires
            old(self).wf(),
            !old(self).failed(),
            old(self).in_flight_spec() > 0,
        ensures
            final(self).wf(),
            final(self).failure_spec() == Some(e),
            !final(self).wants_task_spec(),
            final(self).in_flight_spec() == 0,
            final(self).limit_spec() == old(self).limit_spec(),
            final(self).outputs_spec() == old(self).outputs_spec(),
    {
        self.failure = Some(e);
        self.in_flight = 0;
    }

    /// Whether the dispatch is over: either a failure was seen, or the
    /// source is dry and no task is still in flight.
    pub fn is_finished(&self) -> (b: bool)
        ensures
            b == (self.failed() || (self.source_done_spec() && self.in_flight_spec() == 0)),
    {
        self.failure.is_some() || (self.source_done && self.in_flight == 0)
    }

    /// What the dispatch returns: exactly the first failure if one was
    /// seen, otherwise every collected output.
    pub fn into_result(self) -> (r: Result<Vec<T>, E>)
        ensures
            self.failed() ==> (r matches Err(e) && Some(e) == self.failure_spec()),
            !self.failed() ==> (r matches Ok(outputs) && outputs@ == self.outputs_spec()),
    {
        match self.failure {
            Some(e) => Err(e),
            None => Ok(self.outputs),
        }
    }
}

/// Law: with a limit of k, no reachable dispatcher state has more than k
/// tasks in flight.  Every constructor and event handler keeps `wf`, and
/// `wf` bounds the in-flight count by the limit.
pub proof fn lemma_in_flight_bounded<T, E>(d: Dispatcher<T, E>, k: usize)
    requires
        d.wf(),
        d.limit_spec() == Some(k),
    ensures
        d.in_flight_spec() <= k,
{
}

/// Law: without a limit, the dispatcher asks for every task the moment it
/// is available — starting tasks is refused only by a failure or by the
/// source running dry, never by capacity.
pub proof fn lemma_unbounded_starts_all<T, E>(d: Dispatcher<T, E>)
    requires
        d.wf(),
        d.limit_spec() is None,
        !d.failed(),
        !d.source_done_spec(),
    ensures
        d.wants_task_spec(),
{
}

/// Law: the dispatcher fails fast: once any failure is recorded, no further
/// task is ever wanted, and the verdict is exactly that failure.
pub proof fn lemma_fail_fast<T, E>(d: Dispatcher<T, E>, e: E)
    requires
        d.wf(),
        d.failure_spec() == Some(e),
    ensures
        !d.wants_task_spec(),
{
}

} // verus!
