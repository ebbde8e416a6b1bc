//! The serialization boundary in front of the compiler engine.
//!
//! The engine's incremental memoization is unsound under concurrent
//! mutation, so exactly one job may execute at any instant and jobs
//! run strictly in arrival order, with no priority and no reordering.
//! The worker here is that boundary's bookkeeping: the FIFO queue of
//! accepted jobs and the single running slot.  The execution context
//! itself (a dedicated thread that can block on its own I/O) and the
//! engine call are the caller's: it draws a job with
//! [`CompileWorker::begin_next`], runs the engine, and reports back
//! through [`CompileWorker::finish`].

use vstd::prelude::*;

use crate::coordinator::CompileJob;

verus! {

/// The FIFO job queue and the single running slot of the compile
/// worker.
pub struct CompileWorker {
    /// Accepted jobs, front first.
    pub queue: Vec<CompileJob>,
    /// The submission id of the job currently executing, if any: the
    /// type alone makes more than one executing job unrepresentable.
    pub running: Option<u64>,
    /// Every accepted job id, in acceptance order.
    pub submitted: Ghost<Seq<u64>>,
    /// Every started job id, in start order.
    pub started: Ghost<Seq<u64>>,
}

impl CompileWorker {
    /// The ids still queued, front first.
    pub open spec fn queue_ids(self) -> Seq<u64> {
        Seq::new(self.queue@.len(), |i: int| self.queue@[i].id)
    }

    /// Bookkeeping invariant: what was accepted is what was started
    /// followed by what still waits — so starts can only happen in
    /// acceptance order.
    pub open spec fn wf(self) -> bool {
        self.submitted@ == self.started@ + self.queue_ids()
    }

    pub fn new() -> (r: CompileWorker)
        ensures
            r.wf(),
            r.queue@.len() == 0,
            r.running is None,
            r.submitted@.len() == 0,
            r.started@.len() == 0,
    {
        let r = CompileWorker {
            queue: Vec::new(),
            running: None,
            submitted: Ghost(Seq::empty()),
            started: Ghost(Seq::empty()),
        };
        proof {
            assert(r.submitted@ =~= r.started@ + r.queue_ids());
        }
        r
    }

    pub fn queue_len(&self) -> (r: usize)
        ensures
            r == self.queue@.len(),
    {
        self.queue.len()
    }

    /// Whether a job is executing right now.
    pub fn is_busy(&self) -> (r: bool)
        ensures
            r == (self.running is Some),
    {
        self.running.is_some()
    }

    /// Accepts a job at the back of the queue.
    pub fn submit(&mut self, job: CompileJob)
        requires
            old(self).wf(),
        ensures
            final(self).wf(),
            final(self).queue@ == old(self).queue@.push(job),
            final(self).submitted@ == old(self).submitted@.push(job.id),
            final(self).started@ == old(self).started@,
            final(self).running == old(self).running,
    {
        let ghost id = job.id;
        self.queue.push(job);
        proof {
            self.submitted@ = self.submitted@.push(id);
            assert(self.queue_ids() =~= old(self).queue_ids().push(id));
            assert(self.submitted@ =~= self.started@ + self.queue_ids());
        }
    }

    /// Starts the frontmost queued job, only while none is executing;
    /// `None` when the queue is empty.
    pub fn begin_next(&mut self) -> (r: Option<CompileJob>)
        requires
            old(self).wf(),
            old(self).running is None,
        ensures
            final(self).wf(),
            old(self).queue@.len() == 0 ==> r is None && *final(self) == *old(self),
            old(self).queue@.len() > 0 ==> ({
                &&& r matches Some(j) && j == old(self).queue@[0]
                &&& final(self).queue@ == old(self).queue@.drop_first()
                &&& final(self).running == Some(old(self).queue@[0].id)
                &&& final(self).started@ == old(self).started@.push(old(self).queue@[0].id)
                &&& final(self).submitted@ == old(self).submitted@
            }),
    {
        if self.queue.len() == 0 {
            return None;
        }
        let job = self.queue.remove(0);
        let ghost id = job.id;
        self.running = Some(job.id);
        proof {
            self.started@ = self.started@.push(id);
            assert(self.queue@ =~= old(self).queue@.drop_first());
            assert(self.queue_ids() =~= old(self).queue_ids().drop_first());
            assert(old(self).queue_ids()[0] == id);
            assert(self.started@ + self.queue_ids() =~= old(self).started@
                + old(self).queue_ids());
            assert(self.submitted@ =~= self.started@ + self.queue_ids());
        }
        Some(job)
    }

    /// Records that the running job finished; the worker is free
    /// again.
    pub fn finish(&mut self, job_id: u64)
        requires
            old(self).wf(),
            old(self).running == Some(job_id),
        ensures
            final(self).wf(),
            final(self).running is None,
            final(self).queue@ == old(self).queue@,
            final(self).submitted@ == old(self).submitted@,
            final(self).started@ == old(self).started@,
    {
        self.running = None;
    }
}

/// Jobs start strictly in arrival order: the sequence of started ids
/// is always a prefix of the sequence of accepted ids.
pub proof fn lemma_worker_fifo(w: CompileWorker)
    requires
        w.wf(),
    ensures
        w.started@ == w.submitted@.take(w.started@.len() as int),
{
    assert(w.submitted@.take(w.started@.len() as int) =~= w.started@);
}

} // verus!
