use worker_pool::{Action, ThreadPool, WorkerState};

fn states(pool: &ThreadPool<u32>) -> Vec<WorkerState> {
    let mut all = Vec::new();
    for id in 0..pool.size() {
        all.push(pool.worker(id).state());
    }
    all
}

#[test]
fn new_pool_has_idle_workers_and_empty_queue() {
    let pool: ThreadPool<u32> = ThreadPool::new(3);
    assert_eq!(pool.size(), 3);
    assert_eq!(pool.pending(), 0);
    assert!(!pool.is_closing());
    assert!(pool.has_receiver());
    assert!(pool.is_accepting());
    assert!(!pool.all_terminated());
    for id in 0..3 {
        assert_eq!(pool.worker(id).id(), id);
        assert_eq!(pool.worker(id).state(), WorkerState::Idle);
        assert!(pool.worker(id).is_joinable());
        assert!(!pool.worker(id).has_failed());
    }
}

#[test]
fn pool_of_one_worker_is_the_smallest() {
    let pool: ThreadPool<u32> = ThreadPool::new(1);
    assert_eq!(pool.size(), 1);
    assert!(pool.is_accepting());
}

#[test]
fn execute_queues_without_running() {
    let mut pool: ThreadPool<u32> = ThreadPool::new(2);
    pool.execute(10);
    pool.execute(20);
    pool.execute(30);
    assert_eq!(pool.pending(), 3);
    assert_eq!(states(&pool), vec![WorkerState::Idle, WorkerState::Idle]);
    assert_eq!(pool.size(), 2);
}

#[test]
fn jobs_leave_in_order_of_submission() {
    let mut pool: ThreadPool<u32> = ThreadPool::new(3);
    pool.execute(10);
    pool.execute(20);
    pool.execute(30);
    pool.acquire(2);
    pool.acquire(0);
    pool.acquire(1);
    assert!(matches!(pool.receive(2), Some(Action::Run(10))));
    assert!(matches!(pool.receive(0), Some(Action::Run(20))));
    assert!(matches!(pool.receive(1), Some(Action::Run(30))));
    assert_eq!(pool.pending(), 0);
    assert_eq!(
        states(&pool),
        vec![WorkerState::Running, WorkerState::Running, WorkerState::Running]
    );
}

#[test]
fn each_message_goes_to_one_worker() {
    let mut pool: ThreadPool<u32> = ThreadPool::new(2);
    pool.execute(7);
    pool.acquire(0);
    pool.acquire(1);
    assert!(matches!(pool.receive(1), Some(Action::Run(7))));
    assert!(pool.receive(0).is_none());
    assert_eq!(states(&pool), vec![WorkerState::Acquiring, WorkerState::Running]);
}

#[test]
fn receive_on_empty_queue_keeps_the_worker_waiting() {
    let mut pool: ThreadPool<u32> = ThreadPool::new(1);
    pool.acquire(0);
    assert!(pool.receive(0).is_none());
    assert!(pool.receive(0).is_none());
    assert_eq!(pool.worker(0).state(), WorkerState::Acquiring);
    pool.execute(1);
    assert!(matches!(pool.receive(0), Some(Action::Run(1))));
    assert_eq!(pool.worker(0).state(), WorkerState::Running);
}

#[test]
fn completed_worker_takes_the_next_job() {
    let mut pool: ThreadPool<u32> = ThreadPool::new(1);
    pool.execute(1);
    pool.execute(2);
    pool.acquire(0);
    assert!(matches!(pool.receive(0), Some(Action::Run(1))));
    pool.complete(0);
    assert_eq!(pool.worker(0).state(), WorkerState::Idle);
    pool.acquire(0);
    assert!(matches!(pool.receive(0), Some(Action::Run(2))));
    assert_eq!(pool.pending(), 0);
}

#[test]
fn shutdown_sends_one_terminate_per_worker() {
    let mut pool: ThreadPool<u32> = ThreadPool::new(4);
    pool.execute(5);
    let handles = pool.shutdown();
    assert_eq!(handles.len(), 4);
    assert_eq!(pool.pending(), 5);
    assert!(pool.is_closing());
    assert_eq!(pool.size(), 4);
    pool.acquire(0);
    assert!(matches!(pool.receive(0), Some(Action::Run(5))));
    for id in 1..4 {
        pool.acquire(id);
        assert!(matches!(pool.receive(id), Some(Action::Exit)));
    }
    assert_eq!(pool.pending(), 1);
}

#[test]
fn shutdown_hands_out_handles_in_worker_order() {
    let mut pool: ThreadPool<u32> = ThreadPool::new(3);
    let handles = pool.shutdown();
    let ids: Vec<usize> = handles.iter().map(|h| h.worker()).collect();
    assert_eq!(ids, vec![0, 1, 2]);
    for id in 0..3 {
        assert!(!pool.worker(id).is_joinable());
        assert_eq!(pool.worker(id).state(), WorkerState::Idle);
    }
}

#[test]
fn closing_pool_is_not_accepting() {
    let mut pool: ThreadPool<u32> = ThreadPool::new(2);
    assert!(pool.is_accepting());
    let _ = pool.shutdown();
    assert!(pool.is_closing());
    assert!(pool.has_receiver());
    assert!(!pool.is_accepting());
}

#[test]
fn failed_job_costs_one_worker() {
    let mut pool: ThreadPool<u32> = ThreadPool::new(2);
    pool.execute(1);
    pool.execute(2);
    pool.acquire(0);
    assert!(matches!(pool.receive(0), Some(Action::Run(1))));
    pool.fail(0);
    assert_eq!(pool.worker(0).state(), WorkerState::Terminated);
    assert!(pool.worker(0).has_failed());
    assert!(pool.worker(0).is_joinable());
    assert_eq!(pool.size(), 2);
    assert!(pool.is_accepting());
    pool.acquire(1);
    assert!(matches!(pool.receive(1), Some(Action::Run(2))));
    pool.complete(1);
    assert!(!pool.worker(1).has_failed());
}

#[test]
fn pool_without_live_worker_is_not_accepting() {
    let mut pool: ThreadPool<u32> = ThreadPool::new(2);
    pool.execute(1);
    pool.execute(2);
    pool.execute(3);
    for id in 0..2 {
        pool.acquire(id);
        assert!(matches!(pool.receive(id), Some(Action::Run(_))));
        pool.fail(id);
    }
    assert!(!pool.has_receiver());
    assert!(pool.all_terminated());
    assert!(!pool.is_accepting());
    assert!(!pool.is_closing());
    assert_eq!(pool.pending(), 1);
}

#[test]
fn failed_worker_leaves_its_terminate_message_behind() {
    let mut pool: ThreadPool<u32> = ThreadPool::new(2);
    pool.execute(1);
    pool.acquire(0);
    assert!(matches!(pool.receive(0), Some(Action::Run(1))));
    let handles = pool.shutdown();
    assert_eq!(handles.len(), 2);
    pool.fail(0);
    pool.acquire(1);
    assert!(matches!(pool.receive(1), Some(Action::Exit)));
    assert!(pool.all_terminated());
    assert_eq!(pool.pending(), 1);
    assert!(pool.worker(0).has_failed());
    assert!(!pool.worker(1).has_failed());
}
