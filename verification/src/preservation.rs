//! Every operation of the pool keeps the invariant, and every step of a
//! worker uses up some of the remaining work.

use crate::counting::{
    count, lemma_count_concat, lemma_count_drop_first, lemma_count_full, lemma_count_pointwise,
    lemma_count_push, lemma_count_update, lemma_count_zero,
};
use crate::message::Message;
use crate::model::{has_exited, is_job, is_terminate, terminates, PoolModel};
use crate::worker::{WorkerModel, WorkerState};
use vstd::prelude::*;

verus! {

/// Every message is a job or a terminate message, never both.
pub proof fn lemma_queue_partition<J>(queue: Seq<Message<J>>)
    ensures
        count(queue, is_job()) + count(queue, is_terminate()) == queue.len(),
    decreases queue.len(),
{
    if queue.len() > 0 {
        lemma_queue_partition(queue.drop_last());
    }
}

/// A run of terminate messages holds no job.
pub proof fn lemma_terminates_count<J>(n: nat)
    ensures
        count(terminates::<J>(n), is_terminate()) == n,
        count(terminates::<J>(n), is_job()) == 0,
{
    lemma_count_full(terminates::<J>(n), is_terminate());
    lemma_queue_partition(terminates::<J>(n));
}

/// Before shutdown the queue holds jobs only and no worker has exited.
pub proof fn lemma_open_pool<J>(m: PoolModel<J>)
    requires
        m.wf(),
        !m.closing,
    ensures
        forall|k: int| 0 <= k < m.queue.len() ==> #[trigger] m.queue[k] is NewJob,
        forall|i: int| 0 <= i < m.workers.len() ==> !(#[trigger] m.workers[i]).exited(),
{
    lemma_count_zero(m.queue, is_terminate());
    lemma_count_zero(m.workers, has_exited());
}

/// A new pool satisfies the invariant.
pub proof fn lemma_init_wf<J>(size: nat)
    requires
        size > 0,
    ensures
        PoolModel::<J>::init(size).wf(),
{
    let m = PoolModel::<J>::init(size);
    lemma_count_zero(m.workers, has_exited());
    assert(m.queue.len() == 0);
}

/// Submitting a job to a pool that is not shutting down keeps the
/// invariant.
pub proof fn lemma_execute_wf<J>(m: PoolModel<J>, job: J)
    requires
        m.wf(),
        !m.closing,
    ensures
        m.execute(job).wf(),
{
    let n = m.execute(job);
    lemma_open_pool(m);
    lemma_count_push(m.queue, Message::NewJob(job), is_terminate());
    assert(n.jobs_first());
}

/// A change of one worker's state between states that are not `Terminated`
/// leaves the number of exited workers alone.
proof fn lemma_update_exited(workers: Seq<WorkerModel>, id: int, w: WorkerModel)
    requires
        0 <= id < workers.len(),
    ensures
        count(workers.update(id, w), has_exited()) + (if workers[id].exited() {
            1nat
        } else {
            0nat
        }) == count(workers, has_exited()) + (if w.exited() {
            1nat
        } else {
            0nat
        }),
{
    lemma_count_update(workers, id, w, has_exited());
}

/// Starting a new iteration keeps the invariant.
pub proof fn lemma_acquire_wf<J>(m: PoolModel<J>, id: int)
    requires
        m.wf(),
        m.worker_in(id, WorkerState::Idle),
    ensures
        m.acquire(id).wf(),
{
    lemma_update_exited(m.workers, id, m.workers[id].acquire());
    assert(m.acquire(id).jobs_first());
}

/// Completing a job keeps the invariant.
pub proof fn lemma_complete_wf<J>(m: PoolModel<J>, id: int)
    requires
        m.wf(),
        m.worker_in(id, WorkerState::Running),
    ensures
        m.complete(id).wf(),
{
    lemma_update_exited(m.workers, id, m.workers[id].complete());
    assert(m.complete(id).jobs_first());
}

/// A failed job keeps the invariant: the worker is gone, but it does not
/// count as exited, so its terminate message stays accounted for.
pub proof fn lemma_fail_wf<J>(m: PoolModel<J>, id: int)
    requires
        m.wf(),
        m.worker_in(id, WorkerState::Running),
    ensures
        m.fail(id).wf(),
{
    lemma_update_exited(m.workers, id, m.workers[id].fail());
    assert(m.fail(id).jobs_first());
}

/// Dequeuing keeps the invariant.
pub proof fn lemma_receive_wf<J>(m: PoolModel<J>, id: int)
    requires
        m.wf(),
        m.worker_in(id, WorkerState::Acquiring),
    ensures
        m.receive(id).wf(),
{
    if m.queue.len() > 0 {
        let n = m.receive(id);
        let msg = m.queue[0];
        lemma_update_exited(m.workers, id, m.workers[id].deliver(msg));
        lemma_count_drop_first(m.queue, is_terminate());
        lemma_count_drop_first(m.queue, is_job());
        assert(n.jobs_first()) by {
            assert forall|a: int, b: int|
                0 <= a < b < n.queue.len() && #[trigger] n.queue[a] is Terminate implies #[trigger] n.queue[b] is Terminate by {
                assert(m.queue[a + 1] is Terminate);
                assert(m.queue[b + 1] is Terminate);
            }
        }
        if msg is Terminate {
            assert forall|k: int| 0 <= k < n.queue.len() implies #[trigger] n.queue[k] is Terminate by {
                assert(m.queue[k + 1] is Terminate);
            }
            lemma_count_full(n.queue, is_terminate());
            lemma_queue_partition(n.queue);
        }
    }
}

/// Beginning shutdown keeps the invariant.
pub proof fn lemma_shutdown_wf<J>(m: PoolModel<J>)
    requires
        m.wf(),
        !m.closing,
    ensures
        m.shutdown().wf(),
{
    let n = m.shutdown();
    lemma_open_pool(m);
    lemma_count_concat(m.queue, terminates::<J>(m.workers.len()), is_terminate());
    lemma_terminates_count::<J>(m.workers.len());
    lemma_count_pointwise(m.workers, has_exited(), n.workers, has_exited());
    assert(n.jobs_first());
}

} // verus!
