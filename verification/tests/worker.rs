use thread_pool::task::Task;
use thread_pool::thread_pool::ThreadPool;
use thread_pool::worker::{thread_exit_result, thread_status, worker_thread_name};

fn outcome_label(result: &Result<(), String>) -> &'static str {
    if result.is_ok() {
        "Success"
    } else {
        "Failure"
    }
}

#[test]
fn runs_task() {
    let mut pool = ThreadPool::new(1);
    assert_eq!(Ok(()), pool.execute(false));
    assert_eq!(Ok(vec![]), pool.task_sent(true));
    pool.task_started();
    assert_eq!(1, pool.number_active_workers());
    pool.task_finished();
    let result = thread_exit_result(false);
    assert_eq!("Success", outcome_label(&result));
    assert_eq!(0, pool.number_active_workers());
    assert_eq!(1, pool.number_of_tasks_completed());
}

#[test]
fn invokes_callack_on_panic() {
    let mut pool = ThreadPool::new(1);
    assert_eq!(Ok(()), pool.execute(false));
    assert_eq!(Ok(vec![]), pool.task_sent(true));
    pool.task_started();
    // the task panics: the count stays one higher until the finish hook runs
    assert_eq!(1, pool.number_active_workers());
    // the finish hook gives the busy count back
    let result = thread_exit_result(true);
    pool.task_panicked();
    assert_eq!("Failure", outcome_label(&result));
    assert_eq!(0, pool.number_active_workers());
    assert_eq!(0, pool.number_of_tasks_completed());
}

#[test]
fn thread_exit_result_on_panic_is_panic_message() {
    assert_eq!(Err("Panic!".to_string()), thread_exit_result(true));
    assert_eq!(Ok(()), thread_exit_result(false));
}

#[test]
fn thread_status_words() {
    assert_eq!("Safe exit", thread_status(&Ok(())));
    assert_eq!("Panicked", thread_status(&Err("Panic!".to_string())));
}

#[test]
fn worker_thread_names() {
    assert_eq!("Worker.Thread-0", worker_thread_name(0));
    assert_eq!("Worker.Thread-17", worker_thread_name(17));
}

#[test]
fn task_new_keeps_id_and_work() {
    let runnable: Box<dyn FnOnce() -> u32 + Send> = Box::new(|| 7);
    let task = Task::new(runnable, "job-1".to_string());
    assert_eq!("job-1", task.id);
    assert_eq!(7, (task.runnable)());
}

#[test]
fn task_describe_quotes_the_id() {
    let task = Task::new(|| (), "job \"1\"".to_string());
    assert_eq!("Job { runnable: \"Runnable\", id: \"job \\\"1\\\"\" }", task.describe());
}
