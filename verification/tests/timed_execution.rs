use thread_pool::decimal::decimal_string;
use thread_pool::timed_execution::{log_time, timing_message, LogTime};

#[test]
fn measures_duration() {
    let _log_time = log_time("test");
    // No assertions
}

#[test]
fn log_time_keeps_the_function_name() {
    let timer = log_time("ThreadPool.new");
    assert_eq!("ThreadPool.new", timer.function());
}

#[test]
fn report_names_the_function() {
    let timer = log_time("Worker.run");
    let line = timer.report();
    assert!(line.starts_with("[timed_execution]:[function:Worker.run]:["));
    assert!(line.ends_with(" ns]\n"));
}

#[test]
fn timing_message_splits_milliseconds() {
    assert_eq!(
        "[timed_execution]:[function:test]:[12 ms, 12345 ns]\n",
        timing_message("test", 12345)
    );
}

#[test]
fn timing_message_under_a_millisecond() {
    assert_eq!(
        "[timed_execution]:[function:f]:[0 ms, 999 ns]\n",
        timing_message("f", 999)
    );
}

#[test]
fn decimal_string_matches_to_string() {
    for n in [0u128, 1, 9, 10, 11, 99, 100, 105, 1000, 123456789, u64::MAX as u128, u128::MAX] {
        assert_eq!(n.to_string(), decimal_string(n));
    }
}

#[test]
fn decimal_string_of_zero() {
    assert_eq!("0", decimal_string(0));
}

#[test]
fn timer_from_a_given_start() {
    let start = std::time::Instant::now();
    let timer = LogTime::new("Worker.new", start);
    assert_eq!("Worker.new", timer.function());
    let line = timer.report();
    assert!(line.starts_with("[timed_execution]:[function:Worker.new]:["));
}
