//! Coalescing of compile triggers and ordered publication of results.
//!
//! A [`Coordinator`] tracks one main document through the phases
//! Idle → Compiling → CompilingStale: a trigger arriving while a job
//! is in flight replaces the pending parameters, it is never queued,
//! so a burst of edits costs exactly one follow-up compile of the
//! newest state.  A [`Publisher`] enforces the ordering rule for
//! results: every job carries a monotonically increasing submission
//! id, and a completion whose id does not exceed the last published
//! one is dropped, so published results are strictly increasing in
//! submission id and a stale result can never overwrite a newer one.

use vstd::prelude::*;

use crate::geom::ByteRange;
use crate::source::SourceBuffer;
use crate::workspace::FileKey;

verus! {

/// What caused a compile request.
#[derive(Clone, Copy, PartialEq, Eq, Structural, Debug)]
pub enum TriggerKind {
    Edit,
    ExportRequest,
    PinChange,
}

/// One compile trigger: its cause, the source snapshot to compile,
/// and the first-changed-range hint when the cause was an edit.
#[derive(Debug)]
pub struct Trigger {
    pub kind: TriggerKind,
    pub snapshot: SourceBuffer,
    pub hint: Option<ByteRange>,
}

/// One request for a compile of a specific snapshot, stamped with its
/// submission id; superseded jobs are discarded before submission,
/// never partially executed.
#[derive(Debug)]
pub struct CompileJob {
    pub id: u64,
    pub doc: FileKey,
    pub kind: TriggerKind,
    pub snapshot: SourceBuffer,
    pub hint: Option<ByteRange>,
}

/// The coordinator's phase for its tracked document.
#[derive(Debug)]
pub enum Phase {
    /// Nothing in flight.
    Idle,
    /// One job is in flight and nothing has superseded it.
    Compiling { job_id: u64 },
    /// One job is in flight and the newest superseding trigger waits;
    /// it holds only the latest parameters, never a queue.
    CompilingStale { job_id: u64, pending: Trigger },
}

/// The debouncing rule for results: a completion is accepted only
/// with a submission id above the last published one, so the
/// published sequence is strictly increasing and a superseded job
/// completing late is dropped.
pub struct Publisher {
    /// The submission id of the last published result; 0 before any.
    pub last_published: u64,
    /// Every published submission id, in publication order.
    pub published: Ghost<Seq<u64>>,
}

/// What [`Publisher::offer`] does to (last_published, published log).
pub open spec fn spec_offer(last: u64, log: Seq<u64>, id: u64) -> (u64, Seq<u64>, bool) {
    if id > last {
        (id, log.push(id), true)
    } else {
        (last, log, false)
    }
}

impl Publisher {
    /// The published log is strictly increasing, ends at
    /// `last_published`, and starts empty with `last_published` 0.
    pub open spec fn wf(self) -> bool {
        &&& forall|i: int, j: int|
            0 <= i < j < self.published@.len() ==> self.published@[i] < self.published@[j]
        &&& self.published@.len() > 0 ==> self.published@.last() == self.last_published
        &&& self.published@.len() == 0 ==> self.last_published == 0
    }

    pub fn new() -> (r: Publisher)
        ensures
            r.wf(),
            r.last_published == 0,
            r.published@.len() == 0,
    {
        Publisher { last_published: 0, published: Ghost(Seq::empty()) }
    }

    /// Offers a completed job's result for publication: accepted only
    /// if its submission id exceeds the last published one.
    pub fn offer(&mut self, id: u64) -> (published: bool)
        requires
            old(self).wf(),
        ensures
            final(self).wf(),
            (final(self).last_published, final(self).published@, published) == spec_offer(
                old(self).last_published,
                old(self).published@,
                id,
            ),
            published == (id > old(self).last_published),
            final(self).last_published >= old(self).last_published,
    {
        if id > self.last_published {
            proof {
                let log = self.published@;
                assert forall|i: int, j: int|
                    0 <= i < j < log.push(id).len() implies log.push(id)[i] < log.push(id)[j] by {
                    if j < log.len() {
                    } else {
                        assert(log.push(id)[j] == id);
                        if i < log.len() {
                            assert(log[i] <= log.last() || log.len() == 1 || i == log.len() - 1);
                            if log.len() > 0 && i < log.len() - 1 {
                                assert(log[i] < log[log.len() - 1]);
                            }
                        }
                    }
                }
            }
            self.last_published = id;
            proof {
                self.published@ = self.published@.push(id);
            }
            true
        } else {
            false
        }
    }
}

/// Results are published in strictly increasing submission-id order:
/// of two published results, the later-published one always carries
/// the higher id, so a job submitted earlier can never be published
/// after one submitted later.
pub proof fn lemma_publish_order(p: Publisher, i: int, j: int)
    requires
        p.wf(),
        0 <= i < j < p.published@.len(),
    ensures
        p.published@[i] < p.published@[j],
{
}

/// What a trigger does to (phase, next submission id), and the job it
/// submits when one starts.
pub open spec fn spec_trigger_step(phase: Phase, next_id: u64, doc: FileKey, t: Trigger) -> (
    Phase,
    u64,
    Option<CompileJob>,
) {
    match phase {
        Phase::Idle => (
            Phase::Compiling { job_id: next_id },
            (next_id + 1) as u64,
            Some(
                CompileJob {
                    id: next_id,
                    doc,
                    kind: t.kind,
                    snapshot: t.snapshot,
                    hint: t.hint,
                },
            ),
        ),
        Phase::Compiling { job_id } => (
            Phase::CompilingStale { job_id, pending: t },
            next_id,
            None,
        ),
        Phase::CompilingStale { job_id, pending } => (
            Phase::CompilingStale { job_id, pending: t },
            next_id,
            None,
        ),
    }
}

/// In this single-in-flight model the job being completed is never
/// newer than the in-flight one: ids are issued in order and the
/// in-flight job is the newest issued.
pub open spec fn phase_admits_completion(phase: Phase, job_id: u64) -> bool {
    match phase {
        Phase::Idle => true,
        Phase::Compiling { job_id: cur } => job_id <= cur,
        Phase::CompilingStale { job_id: cur, pending } => job_id <= cur,
    }
}

/// What a completion does to (phase, next id, last published id): the
/// publish decision, and the follow-up job submitted when a stale
/// trigger had accumulated.
pub open spec fn spec_complete_step(
    phase: Phase,
    next_id: u64,
    last_published: u64,
    doc: FileKey,
    job_id: u64,
) -> (Phase, u64, u64, bool, Option<CompileJob>) {
    let published = job_id > last_published;
    let last2 = if published {
        job_id
    } else {
        last_published
    };
    match phase {
        Phase::Compiling { job_id: cur } => if cur == job_id {
            (Phase::Idle, next_id, last2, published, None)
        } else {
            (Phase::Compiling { job_id: cur }, next_id, last2, published, None)
        },
        Phase::CompilingStale { job_id: cur, pending } => if cur == job_id {
            (
                Phase::Compiling { job_id: next_id },
                (next_id + 1) as u64,
                last2,
                published,
                Some(
                    CompileJob {
                        id: next_id,
                        doc,
                        kind: pending.kind,
                        snapshot: pending.snapshot,
                        hint: pending.hint,
                    },
                ),
            )
        } else {
            (Phase::CompilingStale { job_id: cur, pending }, next_id, last2, published, None)
        },
        Phase::Idle => (Phase::Idle, next_id, last2, published, None),
    }
}

/// Coalesces triggers for one tracked main document and decides what
/// to submit and what to publish.
pub struct Coordinator {
    /// The main document this coordinator tracks.
    pub doc: FileKey,
    pub phase: Phase,
    /// The submission id the next job will carry; ids start at 1.
    pub next_id: u64,
    pub publisher: Publisher,
}

impl Coordinator {
    pub open spec fn wf(self) -> bool {
        &&& self.publisher.wf()
        &&& 1 <= self.next_id
        &&& self.publisher.last_published < self.next_id
        &&& match self.phase {
            Phase::Idle => true,
            Phase::Compiling { job_id } => self.publisher.last_published < job_id < self.next_id,
            Phase::CompilingStale { job_id, pending } => self.publisher.last_published < job_id
                < self.next_id,
        }
    }

    pub fn new(doc: FileKey) -> (r: Coordinator)
        ensures
            r.wf(),
            r.doc == doc,
            r.phase is Idle,
            r.next_id == 1,
            r.publisher.published@.len() == 0,
    {
        Coordinator { doc, phase: Phase::Idle, next_id: 1, publisher: Publisher::new() }
    }

    /// Ingests a trigger: from Idle it submits a job at once; with a
    /// job in flight it only replaces the pending parameters, so at
    /// most one job waits and intermediate states are never compiled.
    pub fn on_trigger(&mut self, t: Trigger) -> (r: Option<CompileJob>)
        requires
            old(self).wf(),
            old(self).next_id < u64::MAX,
        ensures
            final(self).wf(),
            final(self).doc == old(self).doc,
            final(self).publisher == old(self).publisher,
            ({
                let (phase2, next2, job) = spec_trigger_step(
                    old(self).phase,
                    old(self).next_id,
                    old(self).doc,
                    t,
                );
                &&& final(self).phase == phase2
                &&& final(self).next_id == next2
                &&& r == job
            }),
    {
        let mut taken = Phase::Idle;
        core::mem::swap(&mut self.phase, &mut taken);
        match taken {
            Phase::Idle => {
                let id = self.next_id;
                self.next_id = self.next_id + 1;
                self.phase = Phase::Compiling { job_id: id };
                Some(
                    CompileJob {
                        id,
                        doc: self.doc,
                        kind: t.kind,
                        snapshot: t.snapshot,
                        hint: t.hint,
                    },
                )
            },
            Phase::Compiling { job_id } => {
                self.phase = Phase::CompilingStale { job_id, pending: t };
                None
            },
            Phase::CompilingStale { job_id, pending } => {
                let _ = pending;
                self.phase = Phase::CompilingStale { job_id, pending: t };
                None
            },
        }
    }

    /// Ingests the completion of job `job_id`: decides whether its
    /// result may be published (only above the last published id) and
    /// immediately re-enters Compiling with the pending trigger when
    /// one had accumulated.
    pub fn on_complete(&mut self, job_id: u64) -> (r: (bool, Option<CompileJob>))
        requires
            old(self).wf(),
            old(self).next_id < u64::MAX,
            job_id < old(self).next_id,
            phase_admits_completion(old(self).phase, job_id),
        ensures
            final(self).wf(),
            final(self).doc == old(self).doc,
            ({
                let (phase2, next2, last2, published, job) = spec_complete_step(
                    old(self).phase,
                    old(self).next_id,
                    old(self).publisher.last_published,
                    old(self).doc,
                    job_id,
                );
                &&& final(self).phase == phase2
                &&& final(self).next_id == next2
                &&& final(self).publisher.last_published == last2
                &&& r.0 == published
                &&& r.1 == job
                &&& final(self).publisher.published@ == spec_offer(
                    old(self).publisher.last_published,
                    old(self).publisher.published@,
                    job_id,
                ).1
            }),
    {
        let mut taken = Phase::Idle;
        core::mem::swap(&mut self.phase, &mut taken);
        match taken {
            Phase::Compiling { job_id: cur } => {
                if cur == job_id {
                    let published = self.publisher.offer(job_id);
                    (published, None)
                } else {
                    self.phase = Phase::Compiling { job_id: cur };
                    let published = self.publisher.offer(job_id);
                    (published, None)
                }
            },
            Phase::CompilingStale { job_id: cur, pending } => {
                if cur == job_id {
                    let published = self.publisher.offer(job_id);
                    let id = self.next_id;
                    self.next_id = self.next_id + 1;
                    self.phase = Phase::Compiling { job_id: id };
                    (
                        published,
                        Some(
                            CompileJob {
                                id,
                                doc: self.doc,
                                kind: pending.kind,
                                snapshot: pending.snapshot,
                                hint: pending.hint,
                            },
                        ),
                    )
                } else {
                    self.phase = Phase::CompilingStale { job_id: cur, pending };
                    let published = self.publisher.offer(job_id);
                    (published, None)
                }
            },
            Phase::Idle => {
                let published = self.publisher.offer(job_id);
                (published, None)
            },
        }
    }
}

/// A burst of triggers folded into (phase, next id), front to back.
pub open spec fn spec_apply_burst(
    phase: Phase,
    next_id: u64,
    doc: FileKey,
    ts: Seq<Trigger>,
    i: int,
) -> (Phase, u64)
    decreases i,
{
    if i <= 0 || i > ts.len() {
        (phase, next_id)
    } else {
        let (phase1, next1) = spec_apply_burst(phase, next_id, doc, ts, i - 1);
        let (phase2, next2, job) = spec_trigger_step(phase1, next1, doc, ts[i - 1]);
        (phase2, next2)
    }
}

/// Coalescing: a burst of triggers arriving from Idle, all before the
/// first job completes, consumes exactly one submission id, and what
/// waits afterwards is exactly the last trigger of the burst — every
/// intermediate trigger is replaced, never queued and never compiled.
pub proof fn lemma_burst_coalesces(next_id: u64, doc: FileKey, ts: Seq<Trigger>)
    requires
        1 <= ts.len(),
        next_id < u64::MAX,
    ensures
        ({
            let (phase1, next1) = spec_apply_burst(Phase::Idle, next_id, doc, ts, ts.len() as int);
            &&& next1 == next_id + 1
            &&& ts.len() == 1 ==> phase1 == (Phase::Compiling { job_id: next_id })
            &&& ts.len() > 1 ==> phase1 == (Phase::CompilingStale {
                job_id: next_id,
                pending: ts.last(),
            })
        }),
    decreases ts.len(),
{
    if ts.len() == 1 {
        assert(spec_apply_burst(Phase::Idle, next_id, doc, ts, 0) == (Phase::Idle, next_id));
    } else {
        let n = ts.len() as int;
        lemma_burst_coalesces(next_id, doc, ts.take(n - 1));
        assert(ts.take(n - 1).len() == n - 1);
        lemma_burst_prefix(Phase::Idle, next_id, doc, ts, n - 1);
        let (phase_p, next_p) = spec_apply_burst(Phase::Idle, next_id, doc, ts, n - 1);
        assert((phase_p, next_p) == spec_apply_burst(Phase::Idle, next_id, doc, ts.take(n - 1), n
            - 1));
        assert(next_p == next_id + 1);
        if n - 1 == 1 {
            assert(phase_p == (Phase::Compiling { job_id: next_id }));
        } else {
            assert(phase_p == (Phase::CompilingStale {
                job_id: next_id,
                pending: ts.take(n - 1).last(),
            }));
        }
        let (phase1, next1, job) = spec_trigger_step(phase_p, next_p, doc, ts[n - 1]);
        assert(spec_apply_burst(Phase::Idle, next_id, doc, ts, n) == (phase1, next1));
        assert(phase1 == (Phase::CompilingStale { job_id: next_id, pending: ts[n - 1] }));
        assert(ts.last() == ts[n - 1]);
    }
}

/// Folding a burst up to `i` agrees with folding its length-`i`
/// prefix.
proof fn lemma_burst_prefix(phase: Phase, next_id: u64, doc: FileKey, ts: Seq<Trigger>, i: int)
    requires
        0 <= i <= ts.len(),
    ensures
        spec_apply_burst(phase, next_id, doc, ts, i) == spec_apply_burst(
            phase,
            next_id,
            doc,
            ts.take(i),
            i,
        ),
    decreases i,
{
    if i > 0 {
        lemma_burst_prefix(phase, next_id, doc, ts, i - 1);
        lemma_burst_prefix(phase, next_id, doc, ts.take(i), i - 1);
        assert(ts.take(i).take(i - 1) =~= ts.take(i - 1));
        assert(ts.take(i)[i - 1] == ts[i - 1]);
    }
}

/// Coalescing, end to end: a burst of two or more triggers arriving
/// from Idle faster than one compile, followed by the two completions
/// that drain it, runs exactly two compiles — the first trigger's and
/// one follow-up carrying the last trigger's snapshot and hint — and
/// what remains published at the end is the follow-up's result: the
/// final published state equals that of compiling only the last
/// trigger.
pub proof fn lemma_burst_publishes_only_last(
    last_published: u64,
    next_id: u64,
    doc: FileKey,
    ts: Seq<Trigger>,
)
    requires
        ts.len() >= 2,
        last_published < next_id,
        next_id < u64::MAX - 1,
    ensures
        ({
            let (phase1, next1) = spec_apply_burst(Phase::Idle, next_id, doc, ts, ts.len() as int);
            let (phase2, next2, last2, published2, follow) = spec_complete_step(
                phase1,
                next1,
                last_published,
                doc,
                next_id,
            );
            &&& published2
            &&& follow matches Some(j) && j.id == next_id + 1 && j.snapshot == ts.last().snapshot
                && j.hint == ts.last().hint && j.kind == ts.last().kind
            &&& ({
                let (phase3, next3, last3, published3, after) = spec_complete_step(
                    phase2,
                    next2,
                    last2,
                    doc,
                    (next_id + 1) as u64,
                );
                &&& published3
                &&& last3 == next_id + 1
                &&& phase3 is Idle
                &&& after is None
            })
        }),
{
    lemma_burst_coalesces(next_id, doc, ts);
    lemma_drain_publishes_last(next_id, ts.last(), (next_id + 1) as u64, last_published, doc);
}

/// Draining after a burst: completing the in-flight job publishes it
/// and immediately starts exactly one follow-up job carrying the last
/// trigger's snapshot and hint; completing that job publishes it and
/// returns to Idle.  The final published submission id is the
/// follow-up job's, so the state that remains published is the result
/// of compiling only the last trigger.
pub proof fn lemma_drain_publishes_last(
    job_id: u64,
    pending: Trigger,
    next_id: u64,
    last_published: u64,
    doc: FileKey,
)
    requires
        last_published < job_id < next_id,
        next_id < u64::MAX,
    ensures
        ({
            let (phase1, next1, last1, published1, job1) = spec_complete_step(
                Phase::CompilingStale { job_id, pending },
                next_id,
                last_published,
                doc,
                job_id,
            );
            &&& published1
            &&& job1 matches Some(j) && j.id == next_id && j.doc == doc && j.snapshot
                == pending.snapshot && j.hint == pending.hint && j.kind == pending.kind
            &&& phase1 == (Phase::Compiling { job_id: next_id })
            &&& ({
                let (phase2, next2, last2, published2, job2) = spec_complete_step(
                    phase1,
                    next1,
                    last1,
                    doc,
                    next_id,
                );
                &&& published2
                &&& last2 == next_id
                &&& phase2 is Idle
                &&& job2 is None
            })
        }),
{
}

} // verus!
