//! Admission control for the scan: one task per file, never more than the
//! cap open at once.
//!
//! The scheduler is a state machine. The driver asks it for the next task,
//! performs the read and the scan, and hands the result back; the scheduler
//! admits a task only while fewer than `limit` are open, aggregates whatever
//! comes back, and is done when nothing is queued and nothing is open. The
//! cap is a hard gate: it bounds open file handles, which is what protects
//! the process from running out of file descriptors.

use vstd::prelude::*;
use crate::validate::{UsageEvent, EventModel, ValidationOutcome};

verus! {

/// One unit of work: a file to scan. Stateless, and retryable on its own.
#[derive(Debug, Clone)]
pub struct ScanTask {
    pub path: String,
}

/// The scan scheduler.
pub struct Scheduler {
    limit: usize,
    queued: Vec<ScanTask>,
    open: usize,
    events: Vec<UsageEvent>,
    failures: usize,
}

impl Scheduler {
    /// The concurrency cap.
    pub closed spec fn limit(&self) -> int {
        self.limit as int
    }

    /// How many tasks are admitted right now.
    pub closed spec fn open_count(&self) -> int {
        self.open as int
    }

    /// The paths not yet handed out, the next one last.
    pub closed spec fn queued_paths(&self) -> Seq<Seq<char>> {
        self.queued@.map_values(|t: ScanTask| t.path@)
    }

    /// Every event handed back so far, in arrival order.
    pub closed spec fn gathered(&self) -> Seq<EventModel> {
        self.events@.map_values(|e: UsageEvent| e@)
    }

    /// How many tasks came back failed.
    pub closed spec fn failure_count(&self) -> int {
        self.failures as int
    }

    /// The cap is positive and never exceeded.
    pub closed spec fn wf(&self) -> bool {
        self.limit >= 1 && self.open <= self.limit
    }

    /// A fresh scheduler over `tasks`, with cap `limit`.
    pub fn new(tasks: Vec<ScanTask>, limit: usize) -> (r: Scheduler)
        requires
            limit >= 1,
        ensures
            r.wf(),
            r.limit() == limit,
            r.open_count() == 0,
            r.queued_paths() == tasks@.map_values(|t: ScanTask| t.path@),
            r.gathered() == Seq::<EventModel>::empty(),
            r.failure_count() == 0,
    {
        let r = Scheduler { limit, queued: tasks, open: 0, events: Vec::new(), failures: 0 };
        proof {
            assert(r.gathered() =~= Seq::<EventModel>::empty());
        }
        r
    }

    /// Hands out the next task, but only while fewer than `limit` tasks are
    /// open: the admission gate.
    pub fn next_task(&mut self) -> (r: Option<ScanTask>)
        requires
            old(self).wf(),
        ensures
            final(self).wf(),
            final(self).limit() == old(self).limit(),
            final(self).gathered() == old(self).gathered(),
            final(self).failure_count() == old(self).failure_count(),
            match r {
                Some(task) => {
                    &&& old(self).open_count() < old(self).limit()
                    &&& old(self).queued_paths().len() > 0
                    &&& task.path@ == old(self).queued_paths().last()
                    &&& final(self).queued_paths() == old(self).queued_paths().drop_last()
                    &&& final(self).open_count() == old(self).open_count() + 1
                },
                None => {
                    &&& old(self).open_count() == old(self).limit() || old(
                        self,
                    ).queued_paths().len() == 0
                    &&& final(self).queued_paths() == old(self).queued_paths()
                    &&& final(self).open_count() == old(self).open_count()
                },
            },
    {
        if self.open < self.limit {
            match self.queued.pop() {
                Some(task) => {
                    self.open = self.open + 1;
                    proof {
                        assert(self.queued_paths() =~= old(self).queued_paths().drop_last());
                    }
                    Some(task)
                }
                None => None,
            }
        } else {
            None
        }
    }

    /// Takes back a finished task together with the unknown-class events its
    /// scan found, and frees its slot.
    pub fn task_finished(&mut self, mut found: Vec<UsageEvent>)
        requires
            old(self).wf(),
            old(self).open_count() > 0,
        ensures
            final(self).wf(),
            final(self).limit() == old(self).limit(),
            final(self).open_count() == old(self).open_count() - 1,
            final(self).queued_paths() == old(self).queued_paths(),
            final(self).gathered() == old(self).gathered() + found@.map_values(
                |e: UsageEvent| e@,
            ),
            final(self).failure_count() == old(self).failure_count(),
    {
        let ghost fseq = found@.map_values(|e: UsageEvent| e@);
        self.open = self.open - 1;
        self.events.append(&mut found);
        proof {
            assert(self.gathered() =~= old(self).gathered() + fseq);
        }
    }

    /// Takes back a task whose file could not be read: its slot is freed and
    /// the aggregate is left untouched, so the rest of the pass goes on.
    pub fn task_failed(&mut self)
        requires
            old(self).wf(),
            old(self).open_count() > 0,
            old(self).failure_count() < usize::MAX,
        ensures
            final(self).wf(),
            final(self).limit() == old(self).limit(),
            final(self).open_count() == old(self).open_count() - 1,
            final(self).queued_paths() == old(self).queued_paths(),
            final(self).gathered() == old(self).gathered(),
            final(self).failure_count() == old(self).failure_count() + 1,
    {
        self.open = self.open - 1;
        self.failures = self.failures + 1;
    }

    /// Whether every task was handed out and every one came back.
    pub fn is_done(&self) -> (r: bool)
        ensures
            r == (self.queued_paths().len() == 0 && self.open_count() == 0),
    {
        self.queued.len() == 0 && self.open == 0
    }

    /// Ends the pass: the verdict is clean exactly when no unknown-class
    /// event came back.
    pub fn into_outcome(self) -> (r: ValidationOutcome)
        ensures
            r.events@.map_values(|e: UsageEvent| e@) == self.gathered(),
            r.event_set() == self.gathered().to_set(),
            r.valid <==> r.event_set().is_empty(),
    {
        let valid = self.events.len() == 0;
        let outcome = ValidationOutcome { valid, events: self.events };
        proof {
            let es = outcome.events@.map_values(|e: UsageEvent| e@);
            if outcome.events@.len() == 0 {
                assert(es =~= Seq::<EventModel>::empty());
                assert forall|x: EventModel| !outcome.event_set().contains(x) by {
                    assert(!es.contains(x));
                }
                assert(outcome.event_set() =~= Set::<EventModel>::empty());
            } else {
                assert(es.contains(es[0]));
                assert(outcome.event_set().contains(es[0]));
            }
        }
        outcome
    }
}

/// The concurrency-cap invariant: at no point does a well-formed scheduler
/// hold more admitted tasks than its cap, whatever the input size; every
/// operation above preserves well-formedness, so the bound holds throughout
/// a pass.
pub proof fn lemma_concurrency_cap(s: &Scheduler)
    requires
        s.wf(),
    ensures
        s.open_count() <= s.limit(),
{
}

} // verus!
