use thread_pool::thread_pool::{ExecutionError, ThreadPool};

/// Runs the pool's decisions for one task whose send succeeds.
fn submit(pool: &mut ThreadPool, fail_fast: bool) -> Result<(), ExecutionError> {
    pool.execute(fail_fast)?;
    pool.task_sent(true).map(|_| ())
}

#[test]
fn new_pool_holds_its_workers() {
    let pool = ThreadPool::new(5);
    assert_eq!(vec![0, 1, 2, 3, 4], pool.worker_ids());
    assert_eq!(5, pool.maximum_number_of_threads());
    assert_eq!(0, pool.number_active_workers());
    assert_eq!(0, pool.get_pending_tasks());
    assert!(!pool.is_shutdown());
}

#[test]
fn execute_runs_successfully() {
    let mut pool = ThreadPool::new(5);
    let mut results = Vec::new();
    for _ in 0..5 {
        results.push(submit(&mut pool, true));
    }
    assert_eq!(vec![Ok(()); 5], results);
    assert_eq!(5, pool.get_pending_tasks());
    assert_eq!(Err(ExecutionError::NoThreadAvailable), submit(&mut pool, true));
}

#[test]
fn fail_fast_execute_fails_if_max_threads_exceeded() {
    // Single thread
    let mut pool = ThreadPool::new(1);
    let mut results: Vec<Result<(), ExecutionError>> = Vec::new();
    for _ in 0..2 {
        results.push(submit(&mut pool, true));
        // the worker picks the task up and is still running it
        pool.task_started();
    }
    // Second task should result in failure.
    assert_eq!(vec![Ok(()), Err(ExecutionError::NoThreadAvailable)], results);
}

#[test]
fn execute_blocks_without_fail_fast() {
    let mut pool = ThreadPool::new(1);
    let mut results: Vec<Result<(), ExecutionError>> = Vec::new();
    for _ in 0..2 {
        results.push(submit(&mut pool, false));
    }
    assert_eq!(vec![Ok(()), Ok(())], results);
}

#[test]
fn init_shutdown_stops_workers() {
    let mut pool = ThreadPool::new(4);
    let mut results: Vec<Result<(), ExecutionError>> = Vec::new();
    for i in 0..6 {
        results.push(submit(&mut pool, false));
        if i == 4 {
            pool.init_shutdown();
        }
    }
    assert_eq!(
        vec![Ok(()), Ok(()), Ok(()), Ok(()), Ok(()), Err(ExecutionError::Shutdown)],
        results
    );
}

#[test]
fn shutdown_stops_execution() {
    let mut pool = ThreadPool::new(2);
    let mut results: Vec<Result<(), ExecutionError>> = Vec::new();
    for _ in 0..6 {
        results.push(submit(&mut pool, false));
    }
    let order = pool.wait_for_shutdown();
    assert_eq!(vec![Ok(()); 6], results);
    assert_eq!(vec![1, 0], order);
    assert!(pool.worker_ids().is_empty());
    assert_eq!(Err(ExecutionError::Shutdown), pool.execute(false));
}

#[test]
fn refusal_changes_nothing() {
    let mut pool = ThreadPool::new(1);
    assert_eq!(Ok(()), pool.execute(true));
    assert_eq!(Err(ExecutionError::NoThreadAvailable), pool.execute(true));
    assert_eq!(0, pool.number_active_workers());
    assert_eq!(1, pool.get_pending_tasks());
}

#[test]
fn failed_send_gives_back_pending_count() {
    let mut pool = ThreadPool::new(3);
    assert_eq!(Ok(()), pool.execute(false));
    assert_eq!(1, pool.get_pending_tasks());
    assert_eq!(Err(ExecutionError::TaskChannelError), pool.task_sent(false));
    assert_eq!(0, pool.number_active_workers());
    assert_eq!(0, pool.get_pending_tasks());
}

#[test]
fn recovery_refills_removed_workers() {
    let mut pool = ThreadPool::new(3);
    assert_eq!(Some(0), pool.remove_worker(0));
    assert_eq!(vec![1, 2], pool.worker_ids());
    assert_eq!(vec![0], pool.check_and_recover_worker_deficit());
    assert_eq!(vec![1, 2, 0], pool.worker_ids());
    assert_eq!(Vec::<usize>::new(), pool.check_and_recover_worker_deficit());
}

#[test]
fn delivered_task_reports_new_workers() {
    let mut pool = ThreadPool::new(2);
    assert_eq!(Some(1), pool.remove_worker(1));
    assert_eq!(Ok(()), pool.execute(true));
    assert_eq!(Ok(vec![1]), pool.task_sent(true));
    assert_eq!(vec![0, 1], pool.worker_ids());
}

#[test]
fn no_removal_after_shutdown() {
    let mut pool = ThreadPool::new(2);
    assert!(pool.init_shutdown());
    assert!(!pool.init_shutdown());
    assert_eq!(None, pool.remove_worker(1));
    assert_eq!(vec![0, 1], pool.worker_ids());
}

#[test]
fn task_round_trip_counters() {
    let mut pool = ThreadPool::new(2);
    assert_eq!(Ok(()), submit(&mut pool, false));
    pool.task_started();
    assert_eq!(1, pool.number_active_workers());
    assert_eq!(0, pool.get_pending_tasks());
    pool.task_finished();
    assert_eq!(0, pool.number_active_workers());
    assert_eq!(1, pool.number_of_tasks_completed());
}

#[test]
fn counters_wrap_like_atomics() {
    let mut pool = ThreadPool::new(1);
    pool.task_finished();
    assert_eq!(usize::MAX, pool.number_active_workers());
    pool.task_started();
    assert_eq!(0, pool.number_active_workers());
    assert_eq!(usize::MAX, pool.get_pending_tasks());
    assert_eq!(Ok(()), pool.execute(false));
    assert_eq!(0, pool.get_pending_tasks());
}

#[test]
fn wait_for_shutdown_joins_last_first() {
    let mut pool = ThreadPool::new(4);
    assert_eq!(Some(1), pool.remove_worker(1));
    assert_eq!(vec![3, 2, 0], pool.wait_for_shutdown());
    assert!(pool.is_shutdown());
}

#[test]
fn finished_task_frees_its_thread() {
    let mut pool = ThreadPool::new(1);
    assert_eq!(Ok(()), submit(&mut pool, true));
    pool.task_started();
    assert_eq!(Err(ExecutionError::NoThreadAvailable), pool.execute(true));
    pool.task_finished();
    assert_eq!(0, pool.number_active_workers());
    assert_eq!(Ok(()), submit(&mut pool, true));
}

#[test]
fn queued_tasks_keep_fail_fast_refusing() {
    let mut pool = ThreadPool::new(1);
    for _ in 0..3 {
        assert_eq!(Ok(()), submit(&mut pool, false));
    }
    assert_eq!(3, pool.get_pending_tasks());
    pool.task_started();
    assert_eq!(1, pool.number_active_workers());
    assert_eq!(Err(ExecutionError::NoThreadAvailable), pool.execute(true));
}

#[test]
fn pool_of_fifty_threads() {
    let pool = ThreadPool::new(50);
    assert_eq!(50, pool.worker_ids().len());
    assert_eq!(0, pool.number_active_workers());
    assert_eq!(0, pool.get_pending_tasks());
}

#[test]
fn pending_back_to_zero_after_all_picked_up() {
    let mut pool = ThreadPool::new(10);
    for _ in 0..100 {
        assert_eq!(Ok(()), submit(&mut pool, false));
    }
    assert_eq!(100, pool.get_pending_tasks());
    for _ in 0..100 {
        pool.task_started();
        pool.task_finished();
    }
    assert_eq!(0, pool.get_pending_tasks());
    assert_eq!(0, pool.number_active_workers());
    assert_eq!(100, pool.number_of_tasks_completed());
}

#[test]
fn removal_by_id_keeps_ids_distinct() {
    let mut pool = ThreadPool::new(3);
    assert_eq!(Some(1), pool.remove_worker(1));
    assert_eq!(vec![1], pool.check_and_recover_worker_deficit());
    assert_eq!(vec![0, 2, 1], pool.worker_ids());
    assert_eq!(Some(1), pool.remove_worker(2));
    assert_eq!(vec![0, 1], pool.worker_ids());
    assert_eq!(vec![2], pool.check_and_recover_worker_deficit());
    assert_eq!(vec![0, 1, 2], pool.worker_ids());
}

#[test]
fn last_worker_restarts_with_its_id() {
    let mut pool = ThreadPool::new(3);
    assert_eq!(Some(2), pool.remove_worker(2));
    assert_eq!(vec![2], pool.check_and_recover_worker_deficit());
    assert_eq!(vec![0, 1, 2], pool.worker_ids());
}

#[test]
fn pending_tasks_fill_free_threads() {
    let mut pool = ThreadPool::new(2);
    assert_eq!(Ok(()), submit(&mut pool, true));
    assert_eq!(Ok(()), submit(&mut pool, true));
    assert_eq!(Err(ExecutionError::NoThreadAvailable), pool.execute(true));
    pool.task_started();
    pool.task_started();
    assert_eq!(2, pool.number_active_workers());
    assert_eq!(Err(ExecutionError::NoThreadAvailable), pool.execute(true));
    pool.task_finished();
    assert_eq!(Ok(()), pool.execute(true));
}
