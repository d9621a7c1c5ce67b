//! What holds of every pool, whatever the order in which its threads run.

use crate::counting::{
    count, lemma_count_bounded, lemma_count_drop_first, lemma_count_full, lemma_count_pointwise,
    lemma_count_update, lemma_count_zero,
};
use crate::message::Message;
use crate::model::{
    has_exited, has_failed, in_state, is_job, is_terminate, jobs, terminates, PoolModel,
};
use crate::preservation::{
    lemma_acquire_wf, lemma_complete_wf, lemma_execute_wf, lemma_fail_wf, lemma_init_wf,
    lemma_queue_partition, lemma_receive_wf, lemma_shutdown_wf, lemma_terminates_count,
};
use crate::schedule::{
    completed, crashed, run, started, submitted, valid, workers_only, Step,
};
use crate::worker::WorkerState;
use vstd::prelude::*;

verus! {

/// Every enabled step keeps the invariant.
pub proof fn lemma_step_wf<J>(m: PoolModel<J>, step: Step<J>)
    requires
        m.wf(),
        m.enabled(step),
    ensures
        m.apply(step).wf(),
{
    match step {
        Step::Execute(job) => lemma_execute_wf(m, job),
        Step::Acquire(id) => lemma_acquire_wf(m, id),
        Step::Receive(id) => lemma_receive_wf(m, id),
        Step::Complete(id) => lemma_complete_wf(m, id),
        Step::Fail(id) => lemma_fail_wf(m, id),
        Step::Shutdown => lemma_shutdown_wf(m),
    }
}

/// The invariant holds at the end of every valid run that starts from a
/// state in which it holds.
pub proof fn lemma_run_wf<J>(m: PoolModel<J>, steps: Seq<Step<J>>)
    requires
        m.wf(),
        valid(m, steps),
    ensures
        run(m, steps).wf(),
    decreases steps.len(),
{
    if steps.len() > 0 {
        lemma_run_wf(m, steps.drop_last());
        lemma_step_wf(run(m, steps.drop_last()), steps.last());
    }
}

/// The number of workers is fixed at construction, and so is the identity
/// of each: no run changes either.
pub proof fn law_size_is_fixed<J>(m: PoolModel<J>, steps: Seq<Step<J>>)
    requires
        m.wf(),
        valid(m, steps),
    ensures
        run(m, steps).size() == m.size(),
        forall|id: int| 0 <= id < m.size() ==> (#[trigger] run(m, steps).workers[id]).id == id,
    decreases steps.len(),
{
    if steps.len() > 0 {
        law_size_is_fixed(m, steps.drop_last());
        lemma_run_wf(m, steps);
    }
}

/// `Terminated` is absorbing: a worker that has left its loop stays out of
/// it in every run.
pub proof fn law_terminated_is_absorbing<J>(m: PoolModel<J>, steps: Seq<Step<J>>, id: int)
    requires
        m.wf(),
        valid(m, steps),
        m.has_worker(id),
        !m.workers[id].live(),
    ensures
        !run(m, steps).workers[id].live(),
    decreases steps.len(),
{
    if steps.len() > 0 {
        law_terminated_is_absorbing(m, steps.drop_last(), id);
        law_size_is_fixed(m, steps.drop_last());
    }
}

/// The jobs of a queue with one more message at the back.
pub proof fn lemma_jobs_push<J>(queue: Seq<Message<J>>, msg: Message<J>)
    ensures
        jobs(queue.push(msg)) == match msg {
            Message::NewJob(job) => jobs(queue).push(job),
            Message::Terminate => jobs(queue),
        },
{
    assert(queue.push(msg).drop_last() =~= queue);
}

/// The jobs of two queues joined are the jobs of the first, then those of
/// the second.
pub proof fn lemma_jobs_concat<J>(front: Seq<Message<J>>, back: Seq<Message<J>>)
    ensures
        jobs(front + back) == jobs(front) + jobs(back),
    decreases back.len(),
{
    if back.len() == 0 {
        assert(front + back =~= front);
        assert(jobs(front) + jobs(back) =~= jobs(front));
    } else {
        assert((front + back).drop_last() =~= front + back.drop_last());
        lemma_jobs_concat(front, back.drop_last());
        match back.last() {
            Message::NewJob(job) => {
                assert(jobs(front + back) =~= jobs(front) + jobs(back));
            },
            Message::Terminate => {},
        }
    }
}

/// Terminate messages carry no jobs.
pub proof fn lemma_jobs_terminates<J>(n: nat)
    ensures
        jobs(terminates::<J>(n)) == Seq::<J>::empty(),
    decreases n,
{
    if n > 0 {
        assert(terminates::<J>(n).drop_last() =~= terminates::<J>((n - 1) as nat));
        lemma_jobs_terminates::<J>((n - 1) as nat);
    }
}

/// Taking the oldest message out of a queue takes the oldest job out of
/// its jobs, if that message carries one, and nothing otherwise.
pub proof fn lemma_jobs_drop_first<J>(queue: Seq<Message<J>>)
    requires
        queue.len() > 0,
    ensures
        jobs(queue) == match queue[0] {
            Message::NewJob(job) => seq![job] + jobs(queue.drop_first()),
            Message::Terminate => jobs(queue.drop_first()),
        },
{
    let head = Seq::<Message<J>>::empty().push(queue[0]);
    assert(head + queue.drop_first() =~= queue);
    lemma_jobs_concat(head, queue.drop_first());
    lemma_jobs_push(Seq::<Message<J>>::empty(), queue[0]);
    match queue[0] {
        Message::NewJob(job) => {
            assert(jobs(head) =~= seq![job]);
        },
        Message::Terminate => {
            assert(jobs(head) + jobs(queue.drop_first()) =~= jobs(queue.drop_first()));
        },
    }
}

/// One step moves at most one job, and loses none: what was queued plus
/// what the step brings in is what the step hands out plus what is queued
/// afterwards, in this order.
pub proof fn lemma_step_conserves_jobs<J>(m: PoolModel<J>, step: Step<J>)
    requires
        m.enabled(step),
    ensures
        jobs(m.queue) + step.taken_in() == m.handed_out(step) + jobs(m.apply(step).queue),
{
    let before = jobs(m.queue);
    let after = jobs(m.apply(step).queue);
    match step {
        Step::Execute(job) => {
            lemma_jobs_push(m.queue, Message::NewJob(job));
            assert(before + seq![job] =~= Seq::<J>::empty() + before.push(job));
        },
        Step::Receive(id) => {
            lemma_jobs_drop_first(m.queue);
            assert(before + Seq::<J>::empty() =~= before);
            assert(Seq::<J>::empty() + after =~= after);
        },
        Step::Shutdown => {
            lemma_jobs_concat(m.queue, terminates::<J>(m.workers.len()));
            lemma_jobs_terminates::<J>(m.workers.len());
            assert(before + Seq::<J>::empty() =~= before);
            assert(Seq::<J>::empty() + (before + Seq::<J>::empty()) =~= before);
        },
        _ => {
            assert(before + Seq::<J>::empty() =~= Seq::<J>::empty() + before);
        },
    }
}

/// No job is lost and none is handed out twice. In every run, the jobs
/// queued at the start followed by the jobs submitted during the run are
/// the jobs handed to workers during the run followed by the jobs still
/// queued at the end: the same jobs, in the same order. Jobs leave the
/// queue in the order in which they entered it.
pub proof fn law_jobs_are_conserved<J>(m: PoolModel<J>, steps: Seq<Step<J>>)
    requires
        valid(m, steps),
    ensures
        jobs(m.queue) + submitted(steps) == started(m, steps) + jobs(run(m, steps).queue),
    decreases steps.len(),
{
    if steps.len() == 0 {
        assert(jobs(m.queue) + Seq::<J>::empty() =~= Seq::<J>::empty() + jobs(m.queue));
    } else {
        let earlier = steps.drop_last();
        let before = run(m, earlier);
        let step = steps.last();
        law_jobs_are_conserved(m, earlier);
        lemma_step_conserves_jobs(before, step);
        assert(jobs(m.queue) + submitted(steps) =~= (jobs(m.queue) + submitted(earlier))
            + step.taken_in());
        assert((started(m, earlier) + jobs(before.queue)) + step.taken_in() =~= started(
            m,
            earlier,
        ) + (jobs(before.queue) + step.taken_in()));
        assert(started(m, earlier) + (before.handed_out(step) + jobs(run(m, steps).queue))
            =~= started(m, steps) + jobs(run(m, steps).queue));
    }
}

/// One step changes the number of running workers by the job it hands out
/// and the job it ends, and the number of failed workers by the job it
/// fails.
pub proof fn lemma_step_accounts<J>(m: PoolModel<J>, step: Step<J>)
    requires
        m.wf(),
        m.enabled(step),
    ensures
        count(m.workers, in_state(WorkerState::Running)) + m.handed_out(step).len() == count(
            m.apply(step).workers,
            in_state(WorkerState::Running),
        ) + (if step is Complete || step is Fail {
            1nat
        } else {
            0nat
        }),
        count(m.workers, has_failed()) + (if step is Fail {
            1nat
        } else {
            0nat
        }) == count(m.apply(step).workers, has_failed()),
{
    let running = in_state(WorkerState::Running);
    let after = m.apply(step).workers;
    match step {
        Step::Execute(_) => {},
        Step::Shutdown => {
            lemma_count_pointwise(m.workers, running, after, running);
            lemma_count_pointwise(m.workers, has_failed(), after, has_failed());
        },
        Step::Acquire(id) | Step::Receive(id) | Step::Complete(id) | Step::Fail(id) => {
            lemma_count_update(m.workers, id, after[id], running);
            lemma_count_update(m.workers, id, after[id], has_failed());
        },
    }
}

/// Every job handed to a worker is accounted for. In every run, the
/// workers running at the start plus the jobs handed out are the jobs that
/// completed, the jobs that failed, and the workers still running at the
/// end. Each failed job has cost the pool exactly one worker.
pub proof fn law_started_jobs_are_accounted<J>(m: PoolModel<J>, steps: Seq<Step<J>>)
    requires
        m.wf(),
        valid(m, steps),
    ensures
        count(m.workers, in_state(WorkerState::Running)) + started(m, steps).len() == completed(
            steps,
        ) + crashed(steps) + count(run(m, steps).workers, in_state(WorkerState::Running)),
        count(m.workers, has_failed()) + crashed(steps) == count(
            run(m, steps).workers,
            has_failed(),
        ),
    decreases steps.len(),
{
    if steps.len() > 0 {
        law_started_jobs_are_accounted(m, steps.drop_last());
        lemma_run_wf(m, steps.drop_last());
        lemma_step_accounts(run(m, steps.drop_last()), steps.last());
    }
}

/// A queue holds as many jobs as it has messages that carry one.
pub proof fn lemma_jobs_len<J>(queue: Seq<Message<J>>)
    ensures
        jobs(queue).len() == count(queue, is_job()),
    decreases queue.len(),
{
    if queue.len() > 0 {
        lemma_jobs_len(queue.drop_last());
    }
}

/// Once every worker has exited on a terminate message, the queue is
/// empty.
pub proof fn lemma_all_exited_empties_queue<J>(m: PoolModel<J>)
    requires
        m.wf(),
        m.all_exited(),
    ensures
        m.closing,
        m.queue.len() == 0,
{
    lemma_count_full(m.workers, has_exited());
    lemma_queue_partition(m.queue);
}

/// Each submitted job runs exactly once. Take a new pool of any size and
/// any run on it: jobs submitted, workers interleaved in any order,
/// shutdown begun at any point. If at the end every worker has exited on
/// its terminate message, then the jobs handed to workers are the jobs
/// submitted, each once and in the order of submission; each has run to
/// completion; and the queue is empty.
pub proof fn law_every_job_runs_once<J>(size: nat, steps: Seq<Step<J>>)
    requires
        size > 0,
        valid(PoolModel::<J>::init(size), steps),
        run(PoolModel::<J>::init(size), steps).all_exited(),
    ensures
        started(PoolModel::<J>::init(size), steps) == submitted(steps),
        completed(steps) == submitted(steps).len(),
        run(PoolModel::<J>::init(size), steps).queue.len() == 0,
{
    let first = PoolModel::<J>::init(size);
    let last = run(first, steps);
    lemma_init_wf::<J>(size);
    lemma_run_wf(first, steps);
    lemma_all_exited_empties_queue(last);
    law_jobs_are_conserved(first, steps);
    assert(jobs(first.queue) + submitted(steps) =~= submitted(steps));
    assert(started(first, steps) + jobs(last.queue) =~= started(first, steps));
    law_started_jobs_are_accounted(first, steps);
    lemma_count_zero(first.workers, in_state(WorkerState::Running));
    lemma_count_zero(first.workers, has_failed());
    lemma_count_zero(last.workers, in_state(WorkerState::Running));
    lemma_count_zero(last.workers, has_failed());
}

/// Every step of a worker uses up some of the remaining work.
pub proof fn lemma_worker_step_uses_work<J>(m: PoolModel<J>, step: Step<J>)
    requires
        m.enabled(step),
        step.by_worker(),
    ensures
        m.apply(step).work() < m.work(),
{
    let idle = in_state(WorkerState::Idle);
    let running = in_state(WorkerState::Running);
    let after = m.apply(step).workers;
    match step {
        Step::Acquire(id) | Step::Complete(id) | Step::Fail(id) => {
            lemma_count_update(m.workers, id, after[id], idle);
            lemma_count_update(m.workers, id, after[id], running);
        },
        Step::Receive(id) => {
            lemma_count_update(m.workers, id, after[id], idle);
            lemma_count_update(m.workers, id, after[id], running);
            lemma_count_drop_first(m.queue, is_job());
            lemma_count_drop_first(m.queue, is_terminate());
        },
        _ => {},
    }
}

/// A prefix of a run of workers is a run of workers.
proof fn lemma_workers_only_prefix<J>(steps: Seq<Step<J>>)
    requires
        workers_only(steps),
        steps.len() > 0,
    ensures
        workers_only(steps.drop_last()),
        steps.last().by_worker(),
{
    assert forall|k: int| 0 <= k < steps.drop_last().len() implies (
    #[trigger] steps.drop_last()[k]).by_worker() by {
        assert(steps[k].by_worker());
    }
    assert(steps[steps.len() - 1].by_worker());
}

/// Workers submit nothing.
pub proof fn lemma_workers_submit_nothing<J>(steps: Seq<Step<J>>)
    requires
        workers_only(steps),
    ensures
        submitted(steps) == Seq::<J>::empty(),
    decreases steps.len(),
{
    if steps.len() > 0 {
        lemma_workers_only_prefix(steps);
        lemma_workers_submit_nothing(steps.drop_last());
        assert(submitted(steps) =~= Seq::<J>::empty());
    }
}

/// The workers cannot run forever on their own. A run in which only
/// workers take steps is no longer than the work that the pool holds at
/// its start: three steps for each queued job, one for each queued
/// terminate message, and what each worker needs to get back to the queue.
pub proof fn law_worker_runs_are_bounded<J>(m: PoolModel<J>, steps: Seq<Step<J>>)
    requires
        valid(m, steps),
        workers_only(steps),
    ensures
        steps.len() + run(m, steps).work() <= m.work(),
    decreases steps.len(),
{
    if steps.len() > 0 {
        lemma_workers_only_prefix(steps);
        law_worker_runs_are_bounded(m, steps.drop_last());
        lemma_worker_step_uses_work(run(m, steps.drop_last()), steps.last());
    }
}

/// A backlog does not block anybody. While the queue holds a message,
/// every worker that is still in its loop can take a step, however many
/// jobs were submitted and however few workers there are.
pub proof fn law_backlog_is_served<J>(m: PoolModel<J>, id: int)
    requires
        m.has_worker(id),
        m.workers[id].live(),
        m.queue.len() > 0,
    ensures
        m.can_step(id),
{
}

/// When no worker can take a step and one is still in its loop, the queue
/// is empty: every job that was submitted has been handed to a worker.
pub proof fn law_quiescent_pool_has_no_backlog<J>(m: PoolModel<J>)
    requires
        m.quiescent(),
        m.has_receiver(),
    ensures
        m.queue.len() == 0,
{
    let id = choose|i: int| 0 <= i < m.workers.len() && (#[trigger] m.workers[i]).live();
    assert(!m.can_step(id));
}

/// All queued jobs run. Take a pool with any backlog, however many more
/// jobs than workers, and let the workers take steps in any order until
/// none can take another. If a worker is still in its loop then, every job
/// that was queued has been handed to a worker, in the order of the queue;
/// and the workers got there in no more steps than the work that the pool
/// held.
pub proof fn law_every_queued_job_is_handed_out<J>(m: PoolModel<J>, steps: Seq<Step<J>>)
    requires
        valid(m, steps),
        workers_only(steps),
        run(m, steps).quiescent(),
        run(m, steps).has_receiver(),
    ensures
        started(m, steps) == jobs(m.queue),
        run(m, steps).queue.len() == 0,
        steps.len() <= m.work(),
{
    law_quiescent_pool_has_no_backlog(run(m, steps));
    law_worker_runs_are_bounded(m, steps);
    law_jobs_are_conserved(m, steps);
    lemma_workers_submit_nothing(steps);
    assert(jobs(m.queue) + submitted(steps) =~= jobs(m.queue));
    assert(started(m, steps) + jobs(run(m, steps).queue) =~= started(m, steps));
}

/// Shutdown reaches every worker. Once shutdown has begun, a worker that
/// is still in its loop finds a terminate message in the queue, and can
/// take a step: it is never left waiting on an empty queue.
pub proof fn law_shutdown_reaches_every_worker<J>(m: PoolModel<J>, id: int)
    requires
        m.wf(),
        m.closing,
        m.has_worker(id),
        m.workers[id].live(),
    ensures
        count(m.queue, is_terminate()) > 0,
        m.can_step(id),
{
    lemma_count_full(m.workers, has_exited());
    lemma_count_bounded(m.workers, has_exited());
    lemma_count_bounded(m.queue, is_terminate());
}

/// Once shutdown has begun, a pool in which no worker can take a step has
/// no worker left in its loop.
pub proof fn law_shutdown_ends<J>(m: PoolModel<J>)
    requires
        m.wf(),
        m.closing,
        m.quiescent(),
    ensures
        m.all_terminated(),
{
    assert forall|id: int| 0 <= id < m.workers.len() implies !(#[trigger] m.workers[id]).live() by {
        if m.workers[id].live() {
            law_shutdown_reaches_every_worker(m, id);
            assert(!m.can_step(id));
        }
    }
}

/// A pool that is shutting down takes no jobs, and begins no second
/// shutdown.
pub proof fn law_closing_pool_takes_no_jobs<J>(m: PoolModel<J>, job: J)
    requires
        m.closing,
    ensures
        !m.enabled(Step::Execute(job)),
        !m.enabled(Step::Shutdown),
{
}

/// Once shutdown has begun it stays begun, and only workers take steps.
pub proof fn lemma_closing_runs<J>(m: PoolModel<J>, steps: Seq<Step<J>>)
    requires
        m.closing,
        valid(m, steps),
    ensures
        run(m, steps).closing,
        workers_only(steps),
    decreases steps.len(),
{
    if steps.len() > 0 {
        lemma_closing_runs(m, steps.drop_last());
        assert forall|k: int| 0 <= k < steps.len() implies (#[trigger] steps[k]).by_worker() by {
            if k < steps.len() - 1 {
                assert(steps.drop_last()[k].by_worker());
            }
        }
    }
}

/// Only a failed job of its own marks a worker as failed.
pub proof fn lemma_failure_needs_a_failed_job<J>(m: PoolModel<J>, steps: Seq<Step<J>>, id: int)
    requires
        m.wf(),
        valid(m, steps),
        m.has_worker(id),
        crashed(steps) == 0,
    ensures
        run(m, steps).workers[id].failed == m.workers[id].failed,
    decreases steps.len(),
{
    if steps.len() > 0 {
        lemma_failure_needs_a_failed_job(m, steps.drop_last(), id);
        law_size_is_fixed(m, steps.drop_last());
    }
}

/// Releasing the pool ends, and waits for the jobs. Let shutdown begin in
/// any state of the pool, with jobs queued and jobs running, and let the
/// workers take steps in any order.
///
/// - Only workers take steps from then on, and no more of them than the
///   work that the pool holds when shutdown begins.
/// - When no worker can take another step, every worker has left its loop:
///   whoever waits for the threads to exit is not left waiting.
/// - If no job failed on the way, every job that was queued when shutdown
///   began was handed to a worker before the first terminate message, in
///   the order of the queue, and these and the jobs that were running have
///   all completed.
/// - If besides no worker had failed before, every worker has exited on
///   its own terminate message and the queue is empty.
pub proof fn law_release_waits_for_jobs<J>(m: PoolModel<J>, steps: Seq<Step<J>>)
    requires
        m.wf(),
        m.accepting(),
        valid(m.shutdown(), steps),
    ensures
        workers_only(steps),
        steps.len() <= m.shutdown().work(),
        run(m.shutdown(), steps).quiescent() ==> run(m.shutdown(), steps).all_terminated(),
        run(m.shutdown(), steps).quiescent() && crashed(steps) == 0 ==> {
            &&& started(m.shutdown(), steps) == jobs(m.queue)
            &&& completed(steps) == count(m.workers, in_state(WorkerState::Running)) + jobs(
                m.queue,
            ).len()
        },
        run(m.shutdown(), steps).quiescent() && crashed(steps) == 0 && count(
            m.workers,
            has_failed(),
        ) == 0 ==> {
            &&& run(m.shutdown(), steps).all_exited()
            &&& run(m.shutdown(), steps).queue.len() == 0
        },
{
    let first = m.shutdown();
    let last = run(first, steps);
    let running = in_state(WorkerState::Running);
    lemma_shutdown_wf(m);
    lemma_run_wf(first, steps);
    lemma_closing_runs(first, steps);
    lemma_workers_submit_nothing(steps);
    law_worker_runs_are_bounded(first, steps);
    if last.quiescent() {
        law_shutdown_ends(last);
        if crashed(steps) == 0 {
            law_size_is_fixed(first, steps);
            let id = choose|i: int| 0 <= i < m.workers.len() && (#[trigger] m.workers[i]).live();
            assert(!first.workers[id].failed);
            lemma_failure_needs_a_failed_job(first, steps, id);
            assert(last.workers[id].exited());
            lemma_count_zero(last.workers, has_exited());
            lemma_jobs_len(last.queue);
            law_jobs_are_conserved(first, steps);
            lemma_jobs_concat(m.queue, terminates::<J>(m.workers.len()));
            lemma_jobs_terminates::<J>(m.workers.len());
            assert(jobs(first.queue) + submitted(steps) =~= jobs(m.queue));
            assert(jobs(last.queue) =~= Seq::<J>::empty());
            assert(started(first, steps) + jobs(last.queue) =~= started(first, steps));
            law_started_jobs_are_accounted(first, steps);
            lemma_count_pointwise(m.workers, running, first.workers, running);
            lemma_count_zero(last.workers, running);
            if count(m.workers, has_failed()) == 0 {
                lemma_count_pointwise(m.workers, has_failed(), first.workers, has_failed());
                lemma_count_zero(last.workers, has_failed());
                assert(last.all_exited());
                lemma_all_exited_empties_queue(last);
            }
        }
    }
}

/// A pool that is released at once shuts down. Take a new pool of any
/// size, submit nothing, and begin shutdown. Then the workers take at most
/// two steps each, one to reach the queue and one to take a terminate
/// message from it; and when none can take another, every worker has
/// exited and the queue is empty.
pub proof fn law_empty_pool_shuts_down<J>(size: nat, steps: Seq<Step<J>>)
    requires
        size > 0,
        valid(PoolModel::<J>::init(size).shutdown(), steps),
    ensures
        steps.len() <= 2 * size,
        run(PoolModel::<J>::init(size).shutdown(), steps).quiescent() ==> {
            &&& run(PoolModel::<J>::init(size).shutdown(), steps).all_exited()
            &&& run(PoolModel::<J>::init(size).shutdown(), steps).queue.len() == 0
        },
{
    let m = PoolModel::<J>::init(size);
    let first = m.shutdown();
    let last = run(first, steps);
    let running = in_state(WorkerState::Running);
    lemma_init_wf::<J>(size);
    assert(m.workers[0].live());
    law_release_waits_for_jobs(m, steps);
    assert(first.work() == 2 * size) by {
        assert(first.queue =~= terminates::<J>(size));
        lemma_terminates_count::<J>(size);
        lemma_count_full(first.workers, in_state(WorkerState::Idle));
        lemma_count_zero(first.workers, running);
    }
    // Nothing was queued and nothing was running, so no job can have failed.
    lemma_shutdown_wf(m);
    lemma_closing_runs(first, steps);
    lemma_workers_submit_nothing(steps);
    law_jobs_are_conserved(first, steps);
    lemma_jobs_terminates::<J>(size);
    assert(first.queue =~= terminates::<J>(size));
    assert(jobs(first.queue) + submitted(steps) =~= Seq::<J>::empty());
    assert(started(first, steps).len() == 0);
    law_started_jobs_are_accounted(first, steps);
    lemma_count_zero(first.workers, running);
    lemma_count_zero(m.workers, has_failed());
}

} // verus!
