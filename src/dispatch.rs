use vstd::prelude::*;

use crate::executor::ExecutionError;
use crate::timing::BenchmarkResult;

verus! {

/// What the task runner is to do next.
#[derive(Clone, Copy, Debug, PartialEq, Eq, Structural)]
pub enum Action {
    /// Take a permit and start one more attempt.
    Launch,
    /// Wait for a running attempt to finish.
    Wait,
    /// Every attempt has finished.
    Done,
}

/// The bookkeeping of a batch of attempts run with at most a fixed number in
/// flight.  A runner asks `next_action`, and reports each start with `launch`
/// and each end with `finish`; a permit is taken at `launch` and given back at
/// `finish`, whatever the outcome.
pub struct Dispatcher {
    requested: u64,
    concurrency: u64,
    launched: u64,
    active: u64,
    failed: u64,
    results: Vec<BenchmarkResult>,
}

impl Dispatcher {
    /// The number of attempts to make.
    pub closed spec fn requested_count(&self) -> nat {
        self.requested as nat
    }

    /// The most attempts that may be in flight at once.
    pub closed spec fn ceiling(&self) -> nat {
        self.concurrency as nat
    }

    /// The attempts started so far.
    pub closed spec fn launched_count(&self) -> nat {
        self.launched as nat
    }

    /// The attempts started and not yet finished: the permits held.
    pub closed spec fn active_count(&self) -> nat {
        self.active as nat
    }

    /// The attempts that finished with an error.
    pub closed spec fn failed_count(&self) -> nat {
        self.failed as nat
    }

    /// The results of the attempts that completed, in the order they finished.
    pub closed spec fn completed(&self) -> Seq<BenchmarkResult> {
        self.results@
    }

    /// Every started attempt is active, completed or failed, and no more than
    /// the ceiling are active.
    pub open spec fn wf(&self) -> bool {
        &&& self.ceiling() >= 1
        &&& self.launched_count() <= self.requested_count()
        &&& self.active_count() <= self.ceiling()
        &&& self.completed().len() + self.failed_count() + self.active_count()
            == self.launched_count()
    }

    pub open spec fn is_done(&self) -> bool {
        self.launched_count() == self.requested_count() && self.active_count() == 0
    }

    /// What is left to do: each attempt not yet started counts twice (start
    /// and end), each active one once.
    pub open spec fn work_left(&self) -> nat {
        (2 * (self.requested_count() - self.launched_count()) + self.active_count()) as nat
    }

    pub open spec fn may_launch(&self) -> bool {
        self.launched_count() < self.requested_count() && self.active_count() < self.ceiling()
    }

    /// A batch of `requested` attempts with at most `concurrency` in flight.
    pub fn new(requested: u64, concurrency: u64) -> (r: Dispatcher)
        requires
            concurrency >= 1,
        ensures
            r.wf(),
            r.requested_count() == requested,
            r.ceiling() == concurrency,
            r.launched_count() == 0,
            r.active_count() == 0,
            r.failed_count() == 0,
            r.completed().len() == 0,
    {
        Dispatcher {
            requested,
            concurrency,
            launched: 0,
            active: 0,
            failed: 0,
            results: Vec::new(),
        }
    }

    /// Launch while attempts remain and a permit is free; otherwise wait
    /// while any attempt runs; otherwise the batch is done.
    pub fn next_action(&self) -> (a: Action)
        requires
            self.wf(),
        ensures
            a == Action::Launch <==> self.may_launch(),
            a == Action::Wait <==> (!self.may_launch() && self.active_count() > 0),
            a == Action::Done <==> self.is_done(),
    {
        if self.launched < self.requested && self.active < self.concurrency {
            Action::Launch
        } else if self.active > 0 {
            Action::Wait
        } else {
            Action::Done
        }
    }

    /// Records the start of one attempt, which takes a permit.
    pub fn launch(&mut self)
        requires
            old(self).wf(),
            old(self).may_launch(),
        ensures
            final(self).wf(),
            final(self).requested_count() == old(self).requested_count(),
            final(self).ceiling() == old(self).ceiling(),
            final(self).launched_count() == old(self).launched_count() + 1,
            final(self).active_count() == old(self).active_count() + 1,
            final(self).failed_count() == old(self).failed_count(),
            final(self).completed() == old(self).completed(),
            final(self).work_left() < old(self).work_left(),
    {
        self.launched = self.launched + 1;
        self.active = self.active + 1;
    }

    /// Records the end of one attempt, which gives back its permit: a result
    /// is kept, an error is only counted.
    pub fn finish(&mut self, outcome: Result<BenchmarkResult, ExecutionError>)
        requires
            old(self).wf(),
            old(self).active_count() > 0,
        ensures
            final(self).wf(),
            final(self).requested_count() == old(self).requested_count(),
            final(self).ceiling() == old(self).ceiling(),
            final(self).launched_count() == old(self).launched_count(),
            final(self).active_count() == old(self).active_count() - 1,
            final(self).work_left() < old(self).work_left(),
            outcome matches Ok(r) ==> final(self).completed() == old(self).completed().push(r)
                && final(self).failed_count() == old(self).failed_count(),
            outcome is Err ==> final(self).completed() == old(self).completed()
                && final(self).failed_count() == old(self).failed_count() + 1,
    {
        self.active = self.active - 1;
        match outcome {
            Ok(r) => self.results.push(r),
            Err(_) => self.failed = self.failed + 1,
        }
    }

    pub fn requested(&self) -> (r: u64)
        ensures
            r == self.requested_count(),
    {
        self.requested
    }

    pub fn launched(&self) -> (r: u64)
        ensures
            r == self.launched_count(),
    {
        self.launched
    }

    pub fn active(&self) -> (r: u64)
        ensures
            r == self.active_count(),
    {
        self.active
    }

    pub fn failed(&self) -> (r: u64)
        ensures
            r == self.failed_count(),
    {
        self.failed
    }

    pub fn results(&self) -> (r: &Vec<BenchmarkResult>)
        ensures
            r@ == self.completed(),
    {
        &self.results
    }

    /// The collected results, given up by the dispatcher.
    pub fn into_results(self) -> (r: Vec<BenchmarkResult>)
        ensures
            r@ == self.completed(),
    {
        self.results
    }
}

/// A dispatcher never has more attempts in flight than its ceiling.
pub proof fn lemma_active_within_ceiling(d: &Dispatcher)
    requires
        d.wf(),
    ensures
        d.active_count() <= d.ceiling(),
{
}

/// Once done, exactly the requested number of attempts were started, each
/// ended as a collected result or a failure and not both, so the results
/// number at most the requested count and the failures are the difference.
pub proof fn lemma_done_accounts_for_every_attempt(d: &Dispatcher)
    requires
        d.wf(),
        d.is_done(),
    ensures
        d.launched_count() == d.requested_count(),
        d.completed().len() + d.failed_count() == d.requested_count(),
        d.completed().len() <= d.requested_count(),
        d.failed_count() == d.requested_count() - d.completed().len(),
{
}

/// The runner never stalls: until done there is always an attempt to start or
/// one to wait for, and done means that no work is left.
pub proof fn lemma_progress(d: &Dispatcher)
    requires
        d.wf(),
    ensures
        !d.is_done() ==> d.may_launch() || d.active_count() > 0,
        d.is_done() <==> d.work_left() == 0,
{
}

} // verus!
