use rust_webserver::{
    Message, ThreadPool, ThreadPoolCreationError, ThreadPoolSubmitError, WorkerStatus,
};

/// Lets worker `id` take its next message; a job's payload is recorded in `ran`
/// together with its ticket, and the job is finished at once.
fn step_and_finish(pool: &mut ThreadPool<u64>, id: usize, ran: &mut Vec<(u64, u64)>) -> bool {
    match pool.next_message(id) {
        Some(Message::NewJob { ticket, job }) => {
            assert_eq!(pool.worker_status(id), WorkerStatus::Busy(ticket));
            ran.push((ticket, job));
            pool.finish_job(id);
            true
        }
        Some(Message::Terminate) => {
            assert_eq!(pool.worker_status(id), WorkerStatus::Exited);
            true
        }
        None => false,
    }
}

/// Runs every worker until the queue is empty, round robin, then shuts down and
/// joins the workers in order.
fn run_to_stop(pool: &mut ThreadPool<u64>) -> Vec<(u64, u64)> {
    let mut ran = Vec::new();
    pool.terminate_all();
    let n = pool.size();
    let mut progress = true;
    while progress {
        progress = false;
        for id in 0..n {
            if pool.worker_status(id) == WorkerStatus::Idle && step_and_finish(pool, id, &mut ran) {
                progress = true;
            }
        }
    }
    for id in 0..n {
        assert_eq!(pool.worker_status(id), WorkerStatus::Exited);
        pool.record_join(id, false);
    }
    ran
}

#[test]
fn zero_size_is_rejected() {
    let r: Result<ThreadPool<u64>, ThreadPoolCreationError> = ThreadPool::new(0);
    match r {
        Err(e) => {
            assert_eq!(e, ThreadPoolCreationError::ThreadPoolCreatedWithInvalidSize);
            assert_eq!(e.message(), "ThreadPool was initialized with invalid size.");
        }
        Ok(_) => panic!("a pool of zero workers was built"),
    }
}

#[test]
fn new_pool_has_size_idle_workers() {
    for size in [1usize, 2, 4, 17] {
        let pool: ThreadPool<u64> = ThreadPool::new(size).unwrap();
        assert_eq!(pool.size(), size);
        for id in 0..size {
            assert_eq!(pool.worker_status(id), WorkerStatus::Idle);
        }
        assert_eq!(pool.queued_count(), 0);
        assert_eq!(pool.submitted_count(), 0);
        assert!(!pool.is_shutting_down());
        assert!(!pool.is_stopped());
    }
}

#[test]
fn tickets_count_up_from_zero() {
    let mut pool: ThreadPool<u64> = ThreadPool::new(2).unwrap();
    assert_eq!(pool.execute(70), Ok(0));
    assert_eq!(pool.execute(71), Ok(1));
    assert_eq!(pool.execute(72), Ok(2));
    assert_eq!(pool.submitted_count(), 3);
    assert_eq!(pool.queued_count(), 3);
}

#[test]
fn empty_queue_gives_nothing() {
    let mut pool: ThreadPool<u64> = ThreadPool::new(3).unwrap();
    assert!(pool.next_message(1).is_none());
    assert_eq!(pool.worker_status(1), WorkerStatus::Idle);
    assert_eq!(pool.handed_count(), 0);
}

#[test]
fn hundred_jobs_run_exactly_once() {
    let mut pool: ThreadPool<u64> = ThreadPool::new(4).unwrap();
    for id in 0..100u64 {
        pool.execute(1000 + id).unwrap();
    }
    let ran = run_to_stop(&mut pool);
    assert!(pool.is_stopped());
    assert_eq!(pool.completed_count(), 100);
    assert_eq!(pool.queued_count(), 0);
    let mut payloads: Vec<u64> = ran.iter().map(|r| r.1).collect();
    payloads.sort();
    let expected: Vec<u64> = (0..100u64).map(|i| 1000 + i).collect();
    assert_eq!(payloads, expected);
}

#[test]
fn no_jobs_then_shutdown() {
    let mut pool: ThreadPool<u64> = ThreadPool::new(3).unwrap();
    let ran = run_to_stop(&mut pool);
    assert!(ran.is_empty());
    assert!(pool.is_stopped());
    for id in 0..3 {
        assert_eq!(pool.worker_status(id), WorkerStatus::Joined);
    }
}

#[test]
fn more_jobs_than_workers_all_run() {
    let mut pool: ThreadPool<u64> = ThreadPool::new(2).unwrap();
    for id in 0..10u64 {
        pool.execute(id).unwrap();
    }
    // Both workers take a job in each round: ten jobs take five rounds.
    let mut rounds = 0;
    while pool.queued_count() > 0 {
        let first = pool.next_message(0);
        let second = pool.next_message(1);
        assert!(matches!(first, Some(Message::NewJob { .. })));
        assert!(matches!(second, Some(Message::NewJob { .. })));
        pool.finish_job(0);
        pool.finish_job(1);
        rounds += 1;
    }
    assert_eq!(rounds, 5);
    assert_eq!(pool.completed_count(), 10);
}

#[test]
fn crashed_worker_does_not_block_shutdown() {
    let mut pool: ThreadPool<u64> = ThreadPool::new(2).unwrap();
    pool.execute(1).unwrap();
    pool.execute(2).unwrap();
    // Worker 0 takes the first job and its thread dies in it.
    assert!(matches!(pool.next_message(0), Some(Message::NewJob { ticket: 0, job: 1 })));
    // Worker 1 runs the second job normally.
    assert!(matches!(pool.next_message(1), Some(Message::NewJob { ticket: 1, job: 2 })));
    pool.finish_job(1);
    pool.terminate_all();
    assert_eq!(pool.queued_count(), 2);
    assert!(matches!(pool.next_message(1), Some(Message::Terminate)));
    assert_eq!(pool.worker_status(1), WorkerStatus::Exited);
    pool.record_join(0, true);
    pool.record_join(1, false);
    assert!(pool.is_stopped());
    assert_eq!(pool.worker_status(0), WorkerStatus::Crashed);
    assert_eq!(pool.worker_status(1), WorkerStatus::Joined);
    assert_eq!(pool.completed_count(), 1);
    // The terminate message meant for the dead worker is left unread.
    assert_eq!(pool.queued_count(), 1);
}

#[test]
fn no_ticket_reaches_two_workers() {
    let mut pool: ThreadPool<u64> = ThreadPool::new(3).unwrap();
    for id in 0..50u64 {
        pool.execute(id).unwrap();
    }
    let ran = run_to_stop(&mut pool);
    let mut tickets: Vec<u64> = ran.iter().map(|r| r.0).collect();
    assert_eq!(tickets.len(), 50);
    tickets.sort();
    tickets.dedup();
    assert_eq!(tickets.len(), 50);
    for (ticket, job) in ran {
        assert_eq!(ticket, job);
    }
}

#[test]
fn jobs_are_drained_before_terminate() {
    let mut pool: ThreadPool<u64> = ThreadPool::new(1).unwrap();
    pool.execute(5).unwrap();
    pool.execute(6).unwrap();
    pool.terminate_all();
    assert!(matches!(pool.next_message(0), Some(Message::NewJob { ticket: 0, job: 5 })));
    pool.finish_job(0);
    assert!(matches!(pool.next_message(0), Some(Message::NewJob { ticket: 1, job: 6 })));
    pool.finish_job(0);
    assert!(matches!(pool.next_message(0), Some(Message::Terminate)));
    pool.record_join(0, false);
    assert!(pool.is_stopped());
    assert_eq!(pool.completed_count(), 2);
}

#[test]
fn submit_after_shutdown_is_refused() {
    let mut pool: ThreadPool<u64> = ThreadPool::new(2).unwrap();
    pool.terminate_all();
    let r = pool.execute(9);
    assert_eq!(r, Err(ThreadPoolSubmitError::ChannelClosed));
    assert_eq!(
        ThreadPoolSubmitError::ChannelClosed.message(),
        "ThreadPool is shutting down and takes no more jobs."
    );
    assert_eq!(pool.submitted_count(), 0);
    assert_eq!(pool.queued_count(), 2);
}

#[test]
fn second_shutdown_changes_nothing() {
    let mut pool: ThreadPool<u64> = ThreadPool::new(3).unwrap();
    pool.execute(1).unwrap();
    pool.terminate_all();
    assert_eq!(pool.queued_count(), 4);
    pool.terminate_all();
    assert_eq!(pool.queued_count(), 4);
    assert!(pool.is_shutting_down());
}

#[test]
fn dispatch_channel_is_fifo() {
    let mut c: rust_webserver::DispatchChannel<u64> = rust_webserver::DispatchChannel::new();
    assert_eq!(c.receive(), None);
    c.send(3);
    c.send(1);
    c.send(2);
    assert_eq!(c.len(), 3);
    assert_eq!(c.receive(), Some(3));
    assert_eq!(c.receive(), Some(1));
    assert_eq!(c.receive(), Some(2));
    assert_eq!(c.receive(), None);
}
