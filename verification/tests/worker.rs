use worker_pool::{Action, Message, Worker, WorkerState};

#[test]
fn new_worker_is_idle_with_its_handle() {
    let worker = Worker::new(3);
    assert_eq!(worker.id(), 3);
    assert_eq!(worker.state(), WorkerState::Idle);
    assert!(!worker.has_failed());
    assert!(worker.is_joinable());
}

#[test]
fn worker_runs_a_job_and_comes_back() {
    let mut worker = Worker::new(0);
    worker.acquire();
    assert_eq!(worker.state(), WorkerState::Acquiring);
    let action = worker.deliver(Message::NewJob(41u32));
    assert!(matches!(action, Action::Run(41)));
    assert_eq!(worker.state(), WorkerState::Running);
    worker.complete();
    assert_eq!(worker.state(), WorkerState::Idle);
    assert!(!worker.has_failed());
}

#[test]
fn terminate_message_ends_the_loop() {
    let mut worker = Worker::new(1);
    worker.acquire();
    let action = worker.deliver(Message::<u32>::Terminate);
    assert!(matches!(action, Action::Exit));
    assert_eq!(worker.state(), WorkerState::Terminated);
    assert!(!worker.has_failed());
    assert_eq!(worker.id(), 1);
}

#[test]
fn failed_job_terminates_the_worker() {
    let mut worker = Worker::new(2);
    worker.acquire();
    let _ = worker.deliver(Message::NewJob(7u32));
    worker.fail();
    assert_eq!(worker.state(), WorkerState::Terminated);
    assert!(worker.has_failed());
}

#[test]
fn handle_leaves_the_slot_once() {
    let mut worker = Worker::new(5);
    let first = worker.take_thread();
    assert!(!worker.is_joinable());
    let second = worker.take_thread();
    match first {
        Some(handle) => assert_eq!(handle.worker(), 5),
        None => panic!("a new worker holds its handle"),
    }
    assert!(second.is_none());
    assert_eq!(worker.state(), WorkerState::Idle);
}

#[test]
fn message_says_what_it_asks_for() {
    let job = Message::NewJob(9u8);
    let stop = Message::<u8>::Terminate;
    assert!(job.is_job());
    assert!(!stop.is_job());
    assert!(matches!(job.into_action(), Action::Run(9)));
    assert!(matches!(stop.into_action(), Action::Exit));
}
