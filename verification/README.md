# thread_pool

A fixed-size thread pool with a fail-fast mode.

- `src/` is the verified bookkeeping of the pool (which workers exist, the
  busy, pending and completed counters, shutdown, refusals, making up a
  shortfall of workers), the worker-side decisions (thread names, exit
  outcomes), worker identifiers (`src/worker_ids.rs`), the timing lines,
  and decimal formatting. `src/pool_laws.rs`
  holds the laws the pool keeps.
- `app/` runs the threads, the task channel, the locks and the timing file,
  and asks the bookkeeping for every decision.
