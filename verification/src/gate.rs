use vstd::prelude::*;

verus! {

/// Whether a permit is available.
pub open spec fn spec_can_acquire(g: TransferGate) -> bool {
    g.in_use < g.capacity
}

/// A process-wide counting semaphore bounding how many end-to-end
/// transfer pipelines run at once.
pub struct TransferGate {
    pub capacity: usize,
    pub in_use: usize,
}

impl TransferGate {
    /// Never more pipelines than permits.
    pub open spec fn wf(self) -> bool {
        self.in_use <= self.capacity
    }

    /// A gate for at most `capacity` concurrent pipelines.
    pub fn new(capacity: usize) -> (g: Self)
        ensures
            g.wf(),
            g.capacity == capacity,
            g.in_use == 0,
    {
        TransferGate { capacity, in_use: 0 }
    }

    /// Take a permit if one is free; with all permits out the caller
    /// must wait for a release.
    pub fn try_acquire(&mut self) -> (granted: bool)
        requires
            old(self).wf(),
        ensures
            final (self).wf(),
            final (self).capacity == old(self).capacity,
            granted == spec_can_acquire(*old(self)),
            granted ==> final (self).in_use == old(self).in_use + 1,
            !granted ==> final (self).in_use == old(self).in_use,
    {
        if self.in_use < self.capacity {
            self.in_use = self.in_use + 1;
            true
        } else {
            false
        }
    }

    /// Return a permit.
    pub fn release(&mut self)
        requires
            old(self).wf(),
            old(self).in_use >= 1,
        ensures
            final (self).wf(),
            final (self).capacity == old(self).capacity,
            final (self).in_use == old(self).in_use - 1,
    {
        self.in_use = self.in_use - 1;
    }

    /// Account for one gated pipeline: the permit is taken before any
    /// network work begins and is given back at the end, for failing
    /// and for succeeding pipelines alike, so no permit leaks.
    pub fn run_gated(&mut self, pipeline_succeeded: bool) -> (r: bool)
        requires
            old(self).wf(),
            spec_can_acquire(*old(self)),
        ensures
            final (self).wf(),
            final (self).capacity == old(self).capacity,
            final (self).in_use == old(self).in_use,
            r == pipeline_succeeded,
    {
        let granted = self.try_acquire();
        let r = pipeline_succeeded;
        self.release();
        r
    }
}

/// With every permit out, one more acquisition is refused, and a single
/// release is exactly what lets it through.
pub proof fn lemma_gate_blocks_until_release(g: TransferGate)
    requires
        g.wf(),
        g.in_use == g.capacity,
        g.capacity >= 1,
    ensures
        !spec_can_acquire(g),
        spec_can_acquire(TransferGate { in_use: (g.in_use - 1) as usize, ..g }),
{
}

/// Tracks detached background work (keep-alive pings, progress tickers)
/// so shutdown can wait for it or cancel it instead of leaking it past
/// the owning request.
pub struct TaskManager {
    pub active_tasks: usize,
}

impl TaskManager {
    /// An empty ledger.
    pub fn new(_max_concurrent: usize) -> (t: Self)
        ensures
            t.active_tasks == 0,
    {
        TaskManager { active_tasks: 0 }
    }

    /// Register one detached task.
    pub fn register(&mut self)
        requires
            old(self).active_tasks < usize::MAX,
        ensures
            final (self).active_tasks == old(self).active_tasks + 1,
    {
        self.active_tasks = self.active_tasks + 1;
    }

    /// One registered task ran to completion.
    pub fn task_done(&mut self)
        requires
            old(self).active_tasks >= 1,
        ensures
            final (self).active_tasks == old(self).active_tasks - 1,
    {
        self.active_tasks = self.active_tasks - 1;
    }

    /// Wait out every registered task: when shutdown returns, none is
    /// left running.
    pub fn shutdown(&mut self)
        ensures
            final (self).active_tasks == 0,
    {
        while self.active_tasks > 0
            decreases self.active_tasks,
        {
            self.task_done();
        }
    }

    /// Cancel every registered task without waiting.
    pub fn abort_all(&mut self)
        ensures
            final (self).active_tasks == 0,
    {
        self.active_tasks = 0;
    }
}

} // verus!
