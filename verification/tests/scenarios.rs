use std::cell::RefCell;
use std::rc::Rc;
use worker_pool::{Action, ThreadPool, WorkerState};

type Job = Box<dyn FnOnce()>;

/// A job that keeps its worker busy for `turns` turns of the scheduler
/// before it runs.
struct Slow {
    turns: usize,
    job: Job,
}

/// Plays the threads: gives each worker its turn, round after round, until
/// none can take a step. A worker that was handed a job holds it for the
/// turns the job asks for, then runs it and reports back. Returns the number
/// of steps that the workers took.
fn schedule(pool: &mut ThreadPool<Slow>, order: &[usize]) -> usize {
    let mut held: Vec<Option<Slow>> = Vec::new();
    for _ in 0..pool.size() {
        held.push(None);
    }
    let mut steps: usize = 0;
    loop {
        let mut moved = false;
        for &id in order {
            match pool.worker(id).state() {
                WorkerState::Idle => {
                    pool.acquire(id);
                    steps += 1;
                    moved = true;
                }
                WorkerState::Acquiring => match pool.receive(id) {
                    Some(Action::Run(slow)) => {
                        held[id] = Some(slow);
                        steps += 1;
                        moved = true;
                    }
                    Some(Action::Exit) => {
                        steps += 1;
                        moved = true;
                    }
                    None => {}
                },
                WorkerState::Running => {
                    let mut slow = held[id].take().unwrap();
                    if slow.turns > 0 {
                        slow.turns -= 1;
                        held[id] = Some(slow);
                    } else {
                        (slow.job)();
                        pool.complete(id);
                        steps += 1;
                    }
                    moved = true;
                }
                WorkerState::Terminated => {}
            }
        }
        if !moved {
            return steps;
        }
    }
}

fn logging(log: &Rc<RefCell<Vec<usize>>>, index: usize, turns: usize) -> Slow {
    let log = Rc::clone(log);
    Slow { turns, job: Box::new(move || log.borrow_mut().push(index)) }
}

#[test]
fn ten_jobs_on_four_workers_each_run_once() {
    let log = Rc::new(RefCell::new(Vec::new()));
    let mut pool: ThreadPool<Slow> = ThreadPool::new(4);
    for index in 0..10 {
        pool.execute(logging(&log, index, 1));
    }
    let handles = pool.shutdown();
    let steps = schedule(&mut pool, &[0, 1, 2, 3]);
    assert!(pool.all_terminated());
    assert_eq!(handles.len(), 4);
    assert_eq!(pool.pending(), 0);
    let mut seen = log.borrow().clone();
    assert_eq!(seen.len(), 10);
    seen.sort();
    assert_eq!(seen, vec![0, 1, 2, 3, 4, 5, 6, 7, 8, 9]);
    assert_eq!(steps, 3 * 10 + 2 * 4);
}

#[test]
fn release_waits_for_a_slow_job() {
    let log = Rc::new(RefCell::new(Vec::new()));
    let mut pool: ThreadPool<Slow> = ThreadPool::new(2);
    pool.execute(logging(&log, 0, 50));
    pool.execute(logging(&log, 1, 0));
    pool.acquire(0);
    pool.acquire(1);
    let slow = match pool.receive(0) {
        Some(Action::Run(job)) => job,
        _ => panic!("the first worker is handed the first job"),
    };
    let quick = match pool.receive(1) {
        Some(Action::Run(job)) => job,
        _ => panic!("the second worker is handed the second job"),
    };
    let handles = pool.shutdown();
    assert_eq!(handles.len(), 2);
    (quick.job)();
    pool.complete(1);
    pool.acquire(1);
    assert!(matches!(pool.receive(1), Some(Action::Exit)));
    assert_eq!(*log.borrow(), vec![1]);
    assert!(!pool.all_terminated());
    assert_eq!(pool.worker(0).state(), WorkerState::Running);
    assert_eq!(pool.pending(), 1);
    (slow.job)();
    pool.complete(0);
    pool.acquire(0);
    assert!(matches!(pool.receive(0), Some(Action::Exit)));
    assert!(pool.all_terminated());
    assert_eq!(pool.pending(), 0);
    assert_eq!(*log.borrow(), vec![1, 0]);
    assert!(!pool.worker(0).has_failed());
    assert!(!pool.worker(1).has_failed());
}

#[test]
fn scheduled_release_waits_for_a_slow_job() {
    let log = Rc::new(RefCell::new(Vec::new()));
    let mut pool: ThreadPool<Slow> = ThreadPool::new(2);
    pool.execute(logging(&log, 0, 50));
    pool.execute(logging(&log, 1, 0));
    let _ = pool.shutdown();
    let steps = schedule(&mut pool, &[0, 1]);
    assert!(pool.all_terminated());
    assert_eq!(pool.pending(), 0);
    assert_eq!(*log.borrow(), vec![1, 0]);
    assert_eq!(steps, 3 * 2 + 2 * 2);
}

#[test]
fn empty_pool_shuts_down_in_two_steps_per_worker() {
    for size in 1..6 {
        let mut pool: ThreadPool<Slow> = ThreadPool::new(size);
        let handles = pool.shutdown();
        assert_eq!(handles.len(), size);
        assert_eq!(pool.pending(), size);
        let order: Vec<usize> = (0..size).rev().collect();
        let steps = schedule(&mut pool, &order);
        assert_eq!(steps, 2 * size);
        assert!(pool.all_terminated());
        assert_eq!(pool.pending(), 0);
        for id in 0..size {
            assert!(!pool.worker(id).has_failed());
        }
    }
}

#[test]
fn counter_matches_submissions() {
    for jobs in [0usize, 1, 2, 7, 25] {
        let counter = Rc::new(RefCell::new(0usize));
        let mut pool: ThreadPool<Slow> = ThreadPool::new(3);
        for _ in 0..jobs {
            let counter = Rc::clone(&counter);
            pool.execute(Slow { turns: 0, job: Box::new(move || *counter.borrow_mut() += 1) });
        }
        let _ = pool.shutdown();
        schedule(&mut pool, &[2, 0, 1]);
        assert!(pool.all_terminated());
        assert_eq!(*counter.borrow(), jobs);
    }
}

#[test]
fn more_jobs_than_workers_all_run() {
    let log = Rc::new(RefCell::new(Vec::new()));
    let mut pool: ThreadPool<Slow> = ThreadPool::new(2);
    for index in 0..9 {
        pool.execute(logging(&log, index, index % 3));
    }
    let steps = schedule(&mut pool, &[0, 1]);
    assert_eq!(pool.pending(), 0);
    assert!(pool.is_accepting());
    assert_eq!(pool.worker(0).state(), WorkerState::Acquiring);
    assert_eq!(pool.worker(1).state(), WorkerState::Acquiring);
    assert_eq!(steps, 3 * 9 + 2);
    let mut seen = log.borrow().clone();
    seen.sort();
    assert_eq!(seen, vec![0, 1, 2, 3, 4, 5, 6, 7, 8]);
}

#[test]
fn one_worker_runs_jobs_in_order() {
    let log = Rc::new(RefCell::new(Vec::new()));
    let mut pool: ThreadPool<Slow> = ThreadPool::new(1);
    for index in 0..5 {
        pool.execute(logging(&log, index, 0));
    }
    let _ = pool.shutdown();
    schedule(&mut pool, &[0]);
    assert!(pool.all_terminated());
    assert_eq!(*log.borrow(), vec![0, 1, 2, 3, 4]);
}

#[test]
fn jobs_submitted_between_rounds_all_run() {
    let log = Rc::new(RefCell::new(Vec::new()));
    let mut pool: ThreadPool<Slow> = ThreadPool::new(2);
    pool.execute(logging(&log, 0, 2));
    schedule(&mut pool, &[1, 0]);
    pool.execute(logging(&log, 1, 0));
    pool.execute(logging(&log, 2, 1));
    schedule(&mut pool, &[0, 1]);
    assert_eq!(pool.pending(), 0);
    let _ = pool.shutdown();
    schedule(&mut pool, &[0, 1]);
    assert!(pool.all_terminated());
    let mut seen = log.borrow().clone();
    seen.sort();
    assert_eq!(seen, vec![0, 1, 2]);
}
