//! The pool: a fixed set of workers and the queue that feeds them.
//!
//! The pool is a monitor. It holds all the state that the workers and the
//! submitting side share, and every operation on it is one atomic step of
//! the protocol. Whoever embeds it supplies the threads: each worker thread
//! calls [`ThreadPool::acquire`], then [`ThreadPool::receive`] until it is
//! handed an action, runs the job outside the pool, and reports back with
//! [`ThreadPool::complete`].

use crate::message::{Action, Message};
use crate::model::PoolModel;
use crate::preservation::{
    lemma_acquire_wf, lemma_complete_wf, lemma_execute_wf, lemma_fail_wf, lemma_init_wf,
    lemma_receive_wf, lemma_shutdown_wf,
};
use crate::worker::{ThreadHandle, Worker, WorkerModel, WorkerState};
use std::collections::VecDeque;
use vstd::prelude::*;

verus! {

/// A fixed-size pool of workers that take jobs of type `J` from a shared
/// first-in, first-out queue.
pub struct ThreadPool<J> {
    workers: Vec<Worker>,
    queue: VecDeque<Message<J>>,
    closing: bool,
}

impl<J> View for ThreadPool<J> {
    type V = PoolModel<J>;

    closed spec fn view(&self) -> PoolModel<J> {
        PoolModel {
            workers: self.workers@.map_values(|w: Worker| w@),
            queue: self.queue@,
            closing: self.closing,
        }
    }
}

impl<J> ThreadPool<J> {
    /// Every slot that holds a handle holds its own worker's.
    pub closed spec fn slots_wf(&self) -> bool {
        forall|i: int| 0 <= i < self.workers.len() ==> (#[trigger] self.workers[i]).slot_wf()
    }

    /// The pool satisfies the invariant of [`PoolModel`].
    pub open spec fn wf(&self) -> bool {
        &&& self@.wf()
        &&& self.slots_wf()
    }

    /// Creates a pool of `size` workers, with identities `0` to `size - 1`,
    /// all idle, and an empty queue. A pool without workers could never run
    /// a job nor take in its own terminate messages, so `size` must not be
    /// zero.
    pub fn new(size: usize) -> (pool: ThreadPool<J>)
        requires
            size > 0,
        ensures
            pool.wf(),
            pool@ == PoolModel::<J>::init(size as nat),
    {
        let mut workers: Vec<Worker> = Vec::with_capacity(size);
        for id in 0..size
            invariant
                workers.len() == id,
                forall|i: int|
                    0 <= i < id ==> (#[trigger] workers[i])@ == WorkerModel::spawn(i as nat)
                        && workers[i].wf(),
        {
            workers.push(Worker::new(id));
        }
        let pool = ThreadPool { workers, queue: VecDeque::new(), closing: false };
        proof {
            assert(pool@.workers =~= PoolModel::<J>::init(size as nat).workers);
            lemma_init_wf::<J>(size as nat);
        }
        pool
    }

    /// The number of workers. It never changes.
    pub fn size(&self) -> (size: usize)
        ensures
            size == self@.size(),
    {
        self.workers.len()
    }

    /// The number of messages in the queue.
    pub fn pending(&self) -> (pending: usize)
        ensures
            pending == self@.queue.len(),
    {
        self.queue.len()
    }

    /// Whether shutdown has begun.
    pub fn is_closing(&self) -> (closing: bool)
        ensures
            closing == self@.closing,
    {
        self.closing
    }

    /// Worker `id`.
    pub fn worker(&self, id: usize) -> (worker: &Worker)
        requires
            self@.has_worker(id as int),
        ensures
            worker@ == self@.workers[id as int],
    {
        &self.workers[id]
    }

    /// Whether some worker is still in its loop.
    pub fn has_receiver(&self) -> (live: bool)
        ensures
            live == self@.has_receiver(),
    {
        for id in 0..self.workers.len()
            invariant
                forall|i: int| 0 <= i < id ==> !(#[trigger] self@.workers[i]).live(),
        {
            if self.workers[id].state() != WorkerState::Terminated {
                assert(self@.workers[id as int].live());
                return true;
            }
        }
        false
    }

    /// Whether every worker has left its loop.
    pub fn all_terminated(&self) -> (done: bool)
        ensures
            done == self@.all_terminated(),
    {
        let live = self.has_receiver();
        !live
    }

    /// Whether the pool takes new jobs: shutdown has not begun and some
    /// worker is still in its loop.
    pub fn is_accepting(&self) -> (accepting: bool)
        ensures
            accepting == self@.accepting(),
    {
        !self.closing && self.has_receiver()
    }

    /// Submits a job: it goes to the back of the queue, to be handed to
    /// whichever worker dequeues it. No job runs during the call.
    ///
    /// A pool whose workers have all left their loops has nobody to hand
    /// the job to, and a pool that is shutting down has sent its last
    /// message; neither takes jobs.
    pub fn execute(&mut self, job: J)
        requires
            old(self).wf(),
            old(self)@.accepting(),
        ensures
            final(self).wf(),
            final(self)@ == old(self)@.execute(job),
    {
        proof {
            lemma_execute_wf(self@, job);
        }
        self.queue.push_back(Message::NewJob(job));
    }

    /// Worker `id` starts a new iteration of its loop and goes to wait on
    /// the queue.
    pub fn acquire(&mut self, id: usize)
        requires
            old(self).wf(),
            old(self)@.worker_in(id as int, WorkerState::Idle),
        ensures
            final(self).wf(),
            final(self)@ == old(self)@.acquire(id as int),
    {
        proof {
            lemma_acquire_wf(self@, id as int);
        }
        let worker = &mut self.workers[id];
        worker.acquire();
        assert(self@.workers =~= old(self)@.acquire(id as int).workers);
    }

    /// Worker `id`, waiting on the queue, tries to dequeue. With an empty
    /// queue it keeps waiting and `None` comes back. Otherwise the oldest
    /// message leaves the queue and the worker acts on it: a job sends it
    /// running and is handed back to be run outside the pool; a terminate
    /// message ends its loop.
    pub fn receive(&mut self, id: usize) -> (action: Option<Action<J>>)
        requires
            old(self).wf(),
            old(self)@.worker_in(id as int, WorkerState::Acquiring),
        ensures
            final(self).wf(),
            final(self)@ == old(self)@.receive(id as int),
            action == old(self)@.next_action(),
    {
        proof {
            lemma_receive_wf(self@, id as int);
        }
        match self.queue.pop_front() {
            None => None,
            Some(msg) => {
                let worker = &mut self.workers[id];
                let action = worker.deliver(msg);
                assert(self@.workers =~= old(self)@.receive(id as int).workers);
                assert(self@.queue =~= old(self)@.receive(id as int).queue);
                Some(action)
            },
        }
    }

    /// Worker `id` reports that its job has run to completion.
    pub fn complete(&mut self, id: usize)
        requires
            old(self).wf(),
            old(self)@.worker_in(id as int, WorkerState::Running),
        ensures
            final(self).wf(),
            final(self)@ == old(self)@.complete(id as int),
    {
        proof {
            lemma_complete_wf(self@, id as int);
        }
        let worker = &mut self.workers[id];
        worker.complete();
        assert(self@.workers =~= old(self)@.complete(id as int).workers);
    }

    /// Records that the job of worker `id` has failed. Nothing contains the
    /// failure: the worker's thread is gone and the pool is one worker
    /// short from here on.
    pub fn fail(&mut self, id: usize)
        requires
            old(self).wf(),
            old(self)@.worker_in(id as int, WorkerState::Running),
        ensures
            final(self).wf(),
            final(self)@ == old(self)@.fail(id as int),
    {
        proof {
            lemma_fail_wf(self@, id as int);
        }
        let worker = &mut self.workers[id];
        worker.fail();
        assert(self@.workers =~= old(self)@.fail(id as int).workers);
    }

    /// Begins shutdown, in two passes. The first sends one terminate
    /// message per worker; the second takes every worker's handle out of
    /// its slot. The handles come back in the order of the workers, for the
    /// caller to wait on each thread in turn.
    ///
    /// All terminate messages are sent before any thread is waited for. A
    /// message goes to whichever worker dequeues it, not to a chosen one,
    /// so every worker that is still in its loop must be able to find one
    /// in the queue before the caller blocks on any of them.
    ///
    /// Shutdown runs once, and needs a receiving end for its messages.
    pub fn shutdown(&mut self) -> (handles: Vec<ThreadHandle>)
        requires
            old(self).wf(),
            old(self)@.accepting(),
        ensures
            final(self).wf(),
            final(self)@ == old(self)@.shutdown(),
            handles.len() == old(self)@.size(),
            forall|i: int| 0 <= i < handles.len() ==> (#[trigger] handles[i])@ == i,
    {
        proof {
            lemma_shutdown_wf(self@);
        }
        let size = self.workers.len();
        for sent in 0..size
            invariant
                size == self.workers.len(),
                self.workers == old(self).workers,
                self.closing == old(self).closing,
                self.queue@ == old(self).queue@ + crate::model::terminates::<J>(sent as nat),
        {
            self.queue.push_back(Message::Terminate);
        }
        let mut handles: Vec<ThreadHandle> = Vec::with_capacity(size);
        for id in 0..size
            invariant
                size == self.workers.len(),
                old(self).wf(),
                !old(self).closing,
                self.closing == old(self).closing,
                self.queue@ == old(self).queue@ + crate::model::terminates::<J>(size as nat),
                self.workers.len() == old(self).workers.len(),
                forall|i: int|
                    0 <= i < id ==> (#[trigger] self.workers[i])@ == old(self).workers[i]@.detach()
                        && self.workers[i].slot_wf(),
                forall|i: int| id <= i < size ==> #[trigger] self.workers[i] == old(self).workers[i],
                handles.len() == id,
                forall|i: int| 0 <= i < id ==> (#[trigger] handles[i])@ == i,
        {
            assert(old(self)@.workers[id as int].joinable);
            let worker = &mut self.workers[id];
            match worker.take_thread() {
                Some(handle) => handles.push(handle),
                None => {},
            }
        }
        self.closing = true;
        assert(self@.workers =~= old(self)@.shutdown().workers);
        handles
    }
}

} // verus!
