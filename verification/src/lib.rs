//! A fixed-size thread pool's bookkeeping: which workers exist, how many are
//! busy, how many tasks wait, and when the pool refuses work.
pub mod task;
pub mod thread_pool;
pub mod decimal;
pub mod timed_execution;
pub mod worker;
pub mod pool_laws;
pub mod worker_ids;
