//! One worker: its identity, the state of its loop, and the slot that holds
//! the handle of its thread.
//!
//! A worker's loop is a four-state machine:
//!
//! ```text
//!            acquire            deliver(NewJob)
//!   Idle ------------> Acquiring --------------> Running
//!    ^                     |                        |
//!    |                     | deliver(Terminate)     | fail
//!    |                     v                        v
//!    |                Terminated <------------------+
//!    +------------------------------ complete ------+
//! ```
//!
//! `Terminated` has no way out. The transitions are methods whose `requires`
//! names the state they start from, so a caller cannot deliver a message to a
//! worker that is not waiting for one.

use crate::message::{Action, Message};
use vstd::prelude::*;

verus! {

/// Where a worker stands in its loop.
#[derive(Clone, Copy, Debug, PartialEq, Eq, Structural)]
pub enum WorkerState {
    /// Between two iterations: the last job, if any, is done.
    Idle,
    /// Waiting on the shared queue for the next message.
    Acquiring,
    /// Running a job, with the queue released.
    Running,
    /// Out of the loop for good.
    Terminated,
}

/// The right to wait for one worker's thread to exit. Each worker is created
/// with one, and gives it up once.
pub struct ThreadHandle {
    worker: usize,
}

impl View for ThreadHandle {
    type V = nat;

    /// The identity of the worker whose thread this handle waits for.
    closed spec fn view(&self) -> nat {
        self.worker as nat
    }
}

impl ThreadHandle {
    /// The identity of the worker whose thread this handle waits for.
    pub fn worker(&self) -> (id: usize)
        ensures
            id == self@,
    {
        self.worker
    }
}

/// A worker as the contracts see it.
pub struct WorkerModel {
    /// Stable identity, assigned at construction.
    pub id: nat,
    /// Where the worker's loop stands.
    pub state: WorkerState,
    /// Whether the loop ended because a job failed rather than on a
    /// terminate message.
    pub failed: bool,
    /// Whether the slot still holds the thread's handle.
    pub joinable: bool,
}

impl WorkerModel {
    /// A worker as it is right after construction.
    pub open spec fn spawn(id: nat) -> WorkerModel {
        WorkerModel { id, state: WorkerState::Idle, failed: false, joinable: true }
    }

    /// A failed worker is a terminated one.
    pub open spec fn wf(self) -> bool {
        self.failed ==> self.state == WorkerState::Terminated
    }

    /// The worker's thread is still in its loop.
    pub open spec fn live(self) -> bool {
        self.state != WorkerState::Terminated
    }

    /// The worker left its loop on a terminate message.
    pub open spec fn exited(self) -> bool {
        self.state == WorkerState::Terminated && !self.failed
    }

    /// The worker after it starts a new iteration.
    pub open spec fn acquire(self) -> WorkerModel {
        WorkerModel { state: WorkerState::Acquiring, ..self }
    }

    /// The worker after it receives `msg`.
    pub open spec fn deliver<J>(self, msg: Message<J>) -> WorkerModel {
        WorkerModel {
            state: match msg {
                Message::NewJob(_) => WorkerState::Running,
                Message::Terminate => WorkerState::Terminated,
            },
            ..self
        }
    }

    /// The worker after its job has run to completion.
    pub open spec fn complete(self) -> WorkerModel {
        WorkerModel { state: WorkerState::Idle, ..self }
    }

    /// The worker after its job has failed and taken the thread with it.
    pub open spec fn fail(self) -> WorkerModel {
        WorkerModel { state: WorkerState::Terminated, failed: true, ..self }
    }

    /// The worker after its handle has been taken out of the slot.
    pub open spec fn detach(self) -> WorkerModel {
        WorkerModel { joinable: false, ..self }
    }
}

/// One worker of a pool.
pub struct Worker {
    id: usize,
    state: WorkerState,
    failed: bool,
    thread: Option<ThreadHandle>,
}

impl View for Worker {
    type V = WorkerModel;

    closed spec fn view(&self) -> WorkerModel {
        WorkerModel {
            id: self.id as nat,
            state: self.state,
            failed: self.failed,
            joinable: self.thread is Some,
        }
    }
}

impl Worker {
    /// The handle in the slot, if any, is this worker's own.
    pub closed spec fn slot_wf(&self) -> bool {
        self.thread matches Some(handle) ==> handle@ == self.id
    }

    /// A failed worker is terminated, and the slot holds no stranger's
    /// handle.
    pub open spec fn wf(&self) -> bool {
        &&& self@.wf()
        &&& self.slot_wf()
    }

    /// A new worker with identity `id`: idle, with its handle in the slot.
    pub fn new(id: usize) -> (worker: Worker)
        ensures
            worker.wf(),
            worker@ == WorkerModel::spawn(id as nat),
    {
        Worker {
            id,
            state: WorkerState::Idle,
            failed: false,
            thread: Some(ThreadHandle { worker: id }),
        }
    }

    /// The worker's identity.
    pub fn id(&self) -> (id: usize)
        ensures
            id == self@.id,
    {
        self.id
    }

    /// Where the worker's loop stands.
    pub fn state(&self) -> (state: WorkerState)
        ensures
            state == self@.state,
    {
        self.state
    }

    /// Whether the worker's loop ended because a job failed.
    pub fn has_failed(&self) -> (failed: bool)
        ensures
            failed == self@.failed,
    {
        self.failed
    }

    /// Whether the slot still holds the thread's handle.
    pub fn is_joinable(&self) -> (joinable: bool)
        ensures
            joinable == self@.joinable,
    {
        self.thread.is_some()
    }

    /// Starts a new iteration of the loop: the worker goes to wait on the
    /// queue.
    pub fn acquire(&mut self)
        requires
            old(self).wf(),
            old(self)@.state == WorkerState::Idle,
        ensures
            final(self).wf(),
            final(self)@ == old(self)@.acquire(),
    {
        self.state = WorkerState::Acquiring;
    }

    /// Hands the waiting worker the message it dequeued. A job sends it
    /// running and is handed back to be run; a terminate message ends the
    /// loop.
    pub fn deliver<J>(&mut self, msg: Message<J>) -> (action: Action<J>)
        requires
            old(self).wf(),
            old(self)@.state == WorkerState::Acquiring,
        ensures
            final(self).wf(),
            final(self)@ == old(self)@.deliver(msg),
            action == msg.action(),
    {
        match msg {
            Message::NewJob(job) => {
                self.state = WorkerState::Running;
                Action::Run(job)
            },
            Message::Terminate => {
                self.state = WorkerState::Terminated;
                Action::Exit
            },
        }
    }

    /// Records that the running job has completed: the worker is idle again.
    pub fn complete(&mut self)
        requires
            old(self).wf(),
            old(self)@.state == WorkerState::Running,
        ensures
            final(self).wf(),
            final(self)@ == old(self)@.complete(),
    {
        self.state = WorkerState::Idle;
    }

    /// Records that the running job has failed. The failure is not
    /// contained: it ends the worker's thread.
    pub fn fail(&mut self)
        requires
            old(self).wf(),
            old(self)@.state == WorkerState::Running,
        ensures
            final(self).wf(),
            final(self)@ == old(self)@.fail(),
    {
        self.state = WorkerState::Terminated;
        self.failed = true;
    }

    /// Takes the thread's handle out of the slot. The first call returns
    /// it; every later call finds the slot empty.
    pub fn take_thread(&mut self) -> (handle: Option<ThreadHandle>)
        requires
            old(self).wf(),
        ensures
            final(self).wf(),
            final(self)@ == old(self)@.detach(),
            handle is Some <==> old(self)@.joinable,
            handle matches Some(h) ==> h@ == old(self)@.id,
    {
        self.thread.take()
    }
}

} // verus!
