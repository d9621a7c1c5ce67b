//! The pool as the contracts see it: a sequence of workers, the queue they
//! share, and whether the terminate messages have been sent.
//!
//! Every operation of the pool is a function from one [`PoolModel`] to the
//! next. [`PoolModel::wf`] is the invariant that all of them keep, and
//! [`PoolModel::work`] the measure that every step of a worker decreases.

use crate::counting::count;
use crate::message::{Action, Message};
use crate::worker::{WorkerModel, WorkerState};
use vstd::prelude::*;

verus! {

/// Selects the messages that carry a job.
pub open spec fn is_job<J>() -> spec_fn(Message<J>) -> bool {
    |m: Message<J>| m is NewJob
}

/// Selects the terminate messages.
pub open spec fn is_terminate<J>() -> spec_fn(Message<J>) -> bool {
    |m: Message<J>| m is Terminate
}

/// Selects the workers that left their loop on a terminate message.
pub open spec fn has_exited() -> spec_fn(WorkerModel) -> bool {
    |w: WorkerModel| w.exited()
}

/// Selects the workers whose loop ended on a failed job.
pub open spec fn has_failed() -> spec_fn(WorkerModel) -> bool {
    |w: WorkerModel| w.failed
}

/// Selects the workers in the given state.
pub open spec fn in_state(state: WorkerState) -> spec_fn(WorkerModel) -> bool {
    |w: WorkerModel| w.state == state
}

/// The jobs that a queue holds, in the order in which they will be handed
/// out.
pub open spec fn jobs<J>(queue: Seq<Message<J>>) -> Seq<J>
    decreases queue.len(),
{
    if queue.len() == 0 {
        Seq::empty()
    } else {
        match queue.last() {
            Message::NewJob(job) => jobs(queue.drop_last()).push(job),
            Message::Terminate => jobs(queue.drop_last()),
        }
    }
}

/// `n` terminate messages.
pub open spec fn terminates<J>(n: nat) -> Seq<Message<J>> {
    Seq::new(n, |k: int| Message::Terminate)
}

/// The state of a pool.
pub struct PoolModel<J> {
    /// The workers, each at the index that is its identity.
    pub workers: Seq<WorkerModel>,
    /// The shared queue, oldest message first.
    pub queue: Seq<Message<J>>,
    /// Whether shutdown has begun: the terminate messages are sent and the
    /// handles taken.
    pub closing: bool,
}

impl<J> PoolModel<J> {
    /// A new pool of `size` idle workers and an empty queue.
    pub open spec fn init(size: nat) -> PoolModel<J> {
        PoolModel {
            workers: Seq::new(size, |i: int| WorkerModel::spawn(i as nat)),
            queue: Seq::empty(),
            closing: false,
        }
    }

    /// The number of workers.
    pub open spec fn size(self) -> nat {
        self.workers.len()
    }

    /// `id` names a worker of this pool.
    pub open spec fn has_worker(self, id: int) -> bool {
        0 <= id < self.workers.len()
    }

    /// `id` names a worker of this pool that is in the given state.
    pub open spec fn worker_in(self, id: int, state: WorkerState) -> bool {
        self.has_worker(id) && self.workers[id].state == state
    }

    /// Some worker is still in its loop, so the queue has a receiving end.
    pub open spec fn has_receiver(self) -> bool {
        exists|i: int| 0 <= i < self.workers.len() && (#[trigger] self.workers[i]).live()
    }

    /// Every worker has left its loop.
    pub open spec fn all_terminated(self) -> bool {
        forall|i: int| 0 <= i < self.workers.len() ==> !(#[trigger] self.workers[i]).live()
    }

    /// Every worker has left its loop on a terminate message.
    pub open spec fn all_exited(self) -> bool {
        forall|i: int| 0 <= i < self.workers.len() ==> (#[trigger] self.workers[i]).exited()
    }

    /// The pool takes new jobs: shutdown has not begun and the queue has a
    /// receiving end.
    pub open spec fn accepting(self) -> bool {
        !self.closing && self.has_receiver()
    }

    /// What the worker that dequeues next will be asked to do, if the queue
    /// holds anything.
    pub open spec fn next_action(self) -> Option<Action<J>> {
        if self.queue.len() == 0 {
            None
        } else {
            Some(self.queue[0].action())
        }
    }

    /// The pool with worker `id` replaced.
    pub open spec fn with_worker(self, id: int, worker: WorkerModel) -> PoolModel<J> {
        PoolModel { workers: self.workers.update(id, worker), ..self }
    }

    /// The pool after `job` is submitted: one more message at the back of
    /// the queue.
    pub open spec fn execute(self, job: J) -> PoolModel<J> {
        PoolModel { queue: self.queue.push(Message::NewJob(job)), ..self }
    }

    /// The pool after worker `id` starts a new iteration.
    pub open spec fn acquire(self, id: int) -> PoolModel<J> {
        self.with_worker(id, self.workers[id].acquire())
    }

    /// The pool after worker `id` tries to dequeue: with an empty queue
    /// nothing changes; otherwise the oldest message leaves the queue and
    /// goes to that worker.
    pub open spec fn receive(self, id: int) -> PoolModel<J> {
        if self.queue.len() == 0 {
            self
        } else {
            PoolModel {
                workers: self.workers.update(id, self.workers[id].deliver(self.queue[0])),
                queue: self.queue.drop_first(),
                ..self
            }
        }
    }

    /// The pool after the job of worker `id` has completed.
    pub open spec fn complete(self, id: int) -> PoolModel<J> {
        self.with_worker(id, self.workers[id].complete())
    }

    /// The pool after the job of worker `id` has failed.
    pub open spec fn fail(self, id: int) -> PoolModel<J> {
        self.with_worker(id, self.workers[id].fail())
    }

    /// The pool after shutdown has begun: one terminate message per worker
    /// behind everything already queued, and every handle out of its slot.
    pub open spec fn shutdown(self) -> PoolModel<J> {
        PoolModel {
            workers: self.workers.map_values(|w: WorkerModel| w.detach()),
            queue: self.queue + terminates(self.workers.len()),
            closing: true,
        }
    }

    /// In the queue, no job stands behind a terminate message.
    pub open spec fn jobs_first(self) -> bool {
        forall|a: int, b: int|
            0 <= a < b < self.queue.len() && #[trigger] self.queue[a] is Terminate
                ==> #[trigger] self.queue[b] is Terminate
    }

    /// The invariant of a pool.
    ///
    /// - There is at least one worker, and each sits at the index that is
    ///   its identity.
    /// - The handles stay in their slots until shutdown takes them all.
    /// - Before shutdown no terminate message exists. From shutdown on there
    ///   is exactly one per worker: each is either still queued or has made
    ///   one worker exit.
    /// - Terminate messages stand behind all jobs, so once a worker has
    ///   exited no job is left in the queue.
    pub open spec fn wf(self) -> bool {
        &&& self.workers.len() > 0
        &&& forall|i: int|
            0 <= i < self.workers.len() ==> {
                &&& (#[trigger] self.workers[i]).id == i
                &&& self.workers[i].wf()
                &&& self.workers[i].joinable == !self.closing
            }
        &&& count(self.queue, is_terminate()) + count(self.workers, has_exited()) == if self.closing {
            self.workers.len()
        } else {
            0
        }
        &&& self.jobs_first()
        &&& count(self.workers, has_exited()) > 0 ==> count(self.queue, is_job()) == 0
    }

    /// An upper bound on the steps that the workers can still take without
    /// new submissions: three for each queued job (dequeue it, complete it,
    /// come back to the queue), one for each queued terminate message, and
    /// what each worker needs to get back to the queue from where it stands.
    pub open spec fn work(self) -> nat {
        3 * count(self.queue, is_job()) + count(self.queue, is_terminate()) + count(
            self.workers,
            in_state(WorkerState::Idle),
        ) + 2 * count(self.workers, in_state(WorkerState::Running))
    }
}

} // verus!
