//! Runs of a pool: sequences of steps, taken in any order that the pool
//! allows.
//!
//! The threads of a real pool interleave as the scheduler pleases. A
//! [`Step`] is one atomic operation on the pool, and a run is any sequence
//! of steps in which each is enabled when its turn comes. A statement about
//! all valid runs is therefore a statement about every interleaving.

use crate::counting::count;
use crate::message::Message;
use crate::model::PoolModel;
use crate::worker::WorkerState;
use vstd::prelude::*;

verus! {

/// One atomic operation on a pool.
pub enum Step<J> {
    /// The owner submits a job.
    Execute(J),
    /// The worker with this identity starts a new iteration.
    Acquire(int),
    /// The worker with this identity dequeues the oldest message.
    Receive(int),
    /// The job of the worker with this identity completes.
    Complete(int),
    /// The job of the worker with this identity fails.
    Fail(int),
    /// The owner begins shutdown.
    Shutdown,
}

impl<J> Step<J> {
    /// The step is taken by a worker, not by the owner of the pool.
    pub open spec fn by_worker(self) -> bool {
        !(self is Execute) && !(self is Shutdown)
    }

    /// The job that the step brings into the pool, if any.
    pub open spec fn taken_in(self) -> Seq<J> {
        match self {
            Step::Execute(job) => seq![job],
            _ => Seq::empty(),
        }
    }
}

/// Selects the steps in which a job completes.
pub open spec fn is_complete<J>() -> spec_fn(Step<J>) -> bool {
    |s: Step<J>| s is Complete
}

/// Selects the steps in which a job fails.
pub open spec fn is_fail<J>() -> spec_fn(Step<J>) -> bool {
    |s: Step<J>| s is Fail
}

impl<J> PoolModel<J> {
    /// The pool allows `step` in this state.
    pub open spec fn enabled(self, step: Step<J>) -> bool {
        match step {
            Step::Execute(_) => self.accepting(),
            Step::Acquire(id) => self.worker_in(id, WorkerState::Idle),
            Step::Receive(id) => self.worker_in(id, WorkerState::Acquiring) && self.queue.len() > 0,
            Step::Complete(id) => self.worker_in(id, WorkerState::Running),
            Step::Fail(id) => self.worker_in(id, WorkerState::Running),
            Step::Shutdown => self.accepting(),
        }
    }

    /// The pool after `step`.
    pub open spec fn apply(self, step: Step<J>) -> PoolModel<J> {
        match step {
            Step::Execute(job) => self.execute(job),
            Step::Acquire(id) => self.acquire(id),
            Step::Receive(id) => self.receive(id),
            Step::Complete(id) => self.complete(id),
            Step::Fail(id) => self.fail(id),
            Step::Shutdown => self.shutdown(),
        }
    }

    /// Worker `id` is not blocked: it can start an iteration, dequeue a
    /// message, or finish its job.
    pub open spec fn can_step(self, id: int) -> bool {
        ||| self.enabled(Step::Acquire(id))
        ||| self.enabled(Step::Receive(id))
        ||| self.enabled(Step::Complete(id))
    }

    /// No worker can take a step.
    pub open spec fn quiescent(self) -> bool {
        forall|id: int| 0 <= id < self.workers.len() ==> !#[trigger] self.can_step(id)
    }

    /// The job that `step` hands to a worker, if any.
    pub open spec fn handed_out(self, step: Step<J>) -> Seq<J> {
        match step {
            Step::Receive(_) => if self.queue.len() > 0 {
                match self.queue[0] {
                    Message::NewJob(job) => seq![job],
                    Message::Terminate => Seq::empty(),
                }
            } else {
                Seq::empty()
            },
            _ => Seq::empty(),
        }
    }
}

/// The pool after the steps of a run, taken in order from `m`.
pub open spec fn run<J>(m: PoolModel<J>, steps: Seq<Step<J>>) -> PoolModel<J>
    decreases steps.len(),
{
    if steps.len() == 0 {
        m
    } else {
        run(m, steps.drop_last()).apply(steps.last())
    }
}

/// Each step of the run is enabled when its turn comes.
pub open spec fn valid<J>(m: PoolModel<J>, steps: Seq<Step<J>>) -> bool
    decreases steps.len(),
{
    steps.len() == 0 || (valid(m, steps.drop_last()) && run(m, steps.drop_last()).enabled(
        steps.last(),
    ))
}

/// Every step of the run is taken by a worker: the owner neither submits
/// nor shuts down.
pub open spec fn workers_only<J>(steps: Seq<Step<J>>) -> bool {
    forall|k: int| 0 <= k < steps.len() ==> (#[trigger] steps[k]).by_worker()
}

/// The jobs submitted during a run, in order of submission.
pub open spec fn submitted<J>(steps: Seq<Step<J>>) -> Seq<J>
    decreases steps.len(),
{
    if steps.len() == 0 {
        Seq::empty()
    } else {
        submitted(steps.drop_last()) + steps.last().taken_in()
    }
}

/// The jobs handed to workers during a run, in the order in which they
/// were handed out.
pub open spec fn started<J>(m: PoolModel<J>, steps: Seq<Step<J>>) -> Seq<J>
    decreases steps.len(),
{
    if steps.len() == 0 {
        Seq::empty()
    } else {
        started(m, steps.drop_last()) + run(m, steps.drop_last()).handed_out(steps.last())
    }
}

/// The number of jobs that ran to completion during a run.
pub open spec fn completed<J>(steps: Seq<Step<J>>) -> nat {
    count(steps, is_complete())
}

/// The number of jobs that failed during a run.
pub open spec fn crashed<J>(steps: Seq<Step<J>>) -> nat {
    count(steps, is_fail())
}

} // verus!
