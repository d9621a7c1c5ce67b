//! What travels through the shared queue.

use vstd::prelude::*;

verus! {

/// One entry of the shared queue. Each message is consumed by exactly one
/// worker, once.
pub enum Message<J> {
    /// A unit of work, owned by the message until a worker takes it out.
    NewJob(J),
    /// Tells the worker that dequeues it to leave its loop.
    Terminate,
}

/// What a worker does with a message it has dequeued.
pub enum Action<J> {
    /// Run this job to completion, then report back.
    Run(J),
    /// Leave the loop; the thread ends.
    Exit,
}

impl<J> Message<J> {
    /// The action that this message asks of the worker that dequeues it.
    pub open spec fn action(self) -> Action<J> {
        match self {
            Message::NewJob(job) => Action::Run(job),
            Message::Terminate => Action::Exit,
        }
    }

    /// Whether this message carries a job.
    pub fn is_job(&self) -> (b: bool)
        ensures
            b == (self is NewJob),
    {
        match self {
            Message::NewJob(_) => true,
            Message::Terminate => false,
        }
    }

    /// Unwraps the message into the action it asks for.
    pub fn into_action(self) -> (action: Action<J>)
        ensures
            action == self.action(),
    {
        match self {
            Message::NewJob(job) => Action::Run(job),
            Message::Terminate => Action::Exit,
        }
    }
}

} // verus!
