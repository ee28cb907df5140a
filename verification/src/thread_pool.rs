use crate::worker_ids::{distinct_below, lemma_first_free, lemma_refill, refill, smallest_free};
use vstd::prelude::*;

verus! {

/// Defines the error states returned by `ThreadPool::execute`.
#[derive(Debug, Clone, Copy, PartialEq, Eq, Structural)]
pub enum ExecutionError {
    /// Every thread is busy and the caller asked to fail fast
    NoThreadAvailable,
    /// The internal channel for submitting the tasks failed
    TaskChannelError,
    /// The thread pool is shut down
    Shutdown,
}

/// The largest pool size.
pub const MAX_THREADS: usize = 50;

/// `n + 1` as a shared `usize` counter computes it: wrapping at the top.
pub open spec fn counter_inc(n: usize) -> usize {
    if n == usize::MAX {
        0
    } else {
        (n + 1) as usize
    }
}

/// `n - 1` as a shared `usize` counter computes it: wrapping at zero.
pub open spec fn counter_dec(n: usize) -> usize {
    if n == 0 {
        usize::MAX
    } else {
        (n - 1) as usize
    }
}

/// `n + 1` as a `u64` tally computes it when wrapping at the top.
pub open spec fn tally_inc(n: u64) -> u64 {
    if n == u64::MAX {
        0
    } else {
        (n + 1) as u64
    }
}

/// The abstract state of a pool.
pub struct PoolView {
    /// The fixed number of worker threads the pool keeps.
    pub max_threads: usize,
    /// The identifiers of the live workers, in the order the pool holds them.
    pub workers: Seq<usize>,
    /// The number of busy workers: tasks picked up that have not ended.
    pub active: usize,
    /// The number of accepted tasks not yet picked up by a worker.
    pub pending: usize,
    /// The number of tasks whose work returned normally.
    pub completed: u64,
    /// Whether shutdown has begun (the task channel is then closed).
    pub shutdown: bool,
}

impl PoolView {
    /// A pool size in range, never more workers than that size, and worker
    /// identifiers that are distinct and below the size.
    pub open spec fn wf(self) -> bool {
        &&& 0 < self.max_threads <= MAX_THREADS
        &&& self.workers.len() <= self.max_threads
        &&& distinct_below(self.workers, self.max_threads as nat)
    }

    /// A fresh pool: workers `0 .. max`, nothing busy, nothing pending, open.
    pub open spec fn initial(max: usize) -> PoolView {
        PoolView {
            max_threads: max,
            workers: Seq::new(max as nat, |i: int| i as usize),
            active: 0,
            pending: 0,
            completed: 0,
            shutdown: false,
        }
    }

    /// Whether a task is accepted for sending: the pool is open, and, when
    /// failing fast, some thread is free: busy workers and tasks waiting for
    /// one are fewer than the threads.
    pub open spec fn accepts(self, fail_fast: bool) -> bool {
        !self.shutdown && !(fail_fast && self.active + self.pending >= self.max_threads)
    }

    /// The refusal for a task the pool does not accept.
    pub open spec fn refusal(self, fail_fast: bool) -> ExecutionError {
        if self.shutdown {
            ExecutionError::Shutdown
        } else {
            ExecutionError::NoThreadAvailable
        }
    }

    /// The state after a task is accepted: one more pending.
    pub open spec fn accept(self) -> PoolView {
        PoolView { pending: counter_inc(self.pending), ..self }
    }

    /// How many workers the pool lacks.
    pub open spec fn deficit(self) -> nat {
        (self.max_threads - self.workers.len()) as nat
    }

    /// The identifiers of the workers that make up the shortfall: each is the
    /// smallest identifier not yet held.
    pub open spec fn deficit_ids(self) -> Seq<usize> {
        refill(self.workers, self.max_threads as nat).subrange(
            self.workers.len() as int,
            self.max_threads as int,
        )
    }

    /// The state after the shortfall of workers is made up.
    pub open spec fn recover(self) -> PoolView {
        PoolView { workers: refill(self.workers, self.max_threads as nat), ..self }
    }

    /// The state after an accepted task was handed to the channel
    /// (`delivered`), or the channel refused it: then the task no longer
    /// counts as pending.
    pub open spec fn sent(self, delivered: bool) -> PoolView {
        if delivered {
            self.recover()
        } else {
            PoolView { pending: counter_dec(self.pending), ..self }
        }
    }

    /// The state once shutdown has begun.
    pub open spec fn close(self) -> PoolView {
        PoolView { shutdown: true, ..self }
    }

    /// The state after a worker picks up a task: one more busy, one fewer
    /// pending.
    pub open spec fn start_task(self) -> PoolView {
        PoolView { active: counter_inc(self.active), pending: counter_dec(self.pending), ..self }
    }

    /// The state after a worker's task returned: one fewer busy, one more
    /// completed.
    pub open spec fn finish_task(self) -> PoolView {
        PoolView { active: counter_dec(self.active), completed: tally_inc(self.completed), ..self }
    }

    /// The state after a worker's thread died running a task: one fewer
    /// busy.
    pub open spec fn abandon_task(self) -> PoolView {
        PoolView { active: counter_dec(self.active), ..self }
    }

    /// The state after the worker `id` has exited: it is dropped from the
    /// pool, unless shutdown has begun (or the pool does not hold it).
    pub open spec fn remove_worker(self, id: usize) -> PoolView {
        if !self.shutdown && self.workers.contains(id) {
            PoolView { workers: self.workers.remove(self.workers.index_of(id)), ..self }
        } else {
            self
        }
    }
}

/// The bookkeeping of a fixed-size thread pool: its worker identifiers, its
/// busy and pending counters and its shutdown flag. Each method is one
/// decision of the pool; the caller performs what it decides (spawning,
/// sending, joining threads).
pub struct ThreadPool {
    maximum_number_of_threads: usize,
    workers: Vec<usize>,
    number_active_workers: usize,
    pending_tasks: usize,
    tasks_completed: u64,
    shutdown_initiated: bool,
}

impl View for ThreadPool {
    type V = PoolView;

    closed spec fn view(&self) -> PoolView {
        PoolView {
            max_threads: self.maximum_number_of_threads,
            workers: self.workers@,
            active: self.number_active_workers,
            pending: self.pending_tasks,
            completed: self.tasks_completed,
            shutdown: self.shutdown_initiated,
        }
    }
}

impl ThreadPool {
    #[verifier::type_invariant]
    spec fn inv(self) -> bool {
        self@.wf()
    }

    /// Creates a fixed-size pool with workers `0 .. maximum_number_of_threads`.
    /// The size must be more than 0 and cannot be more than 50.
    pub fn new(maximum_number_of_threads: usize) -> (pool: ThreadPool)
        requires
            0 < maximum_number_of_threads <= MAX_THREADS,
        ensures
            pool@ == PoolView::initial(maximum_number_of_threads),
            pool@.wf(),
            !pool@.shutdown,
            pool@.max_threads == maximum_number_of_threads,
            pool@.workers.len() == maximum_number_of_threads,
            forall|i: int| 0 <= i < maximum_number_of_threads ==> pool@.workers[i] == i,
            pool@.active == 0,
            pool@.pending == 0,
            pool@.completed == 0,
    {
        let mut workers: Vec<usize> = Vec::with_capacity(maximum_number_of_threads);
        let mut id: usize = 0;
        while id < maximum_number_of_threads
            invariant
                id <= maximum_number_of_threads,
                workers@ == Seq::new(id as nat, |i: int| i as usize),
            decreases maximum_number_of_threads - id,
        {
            workers.push(id);
            id = id + 1;
        }
        ThreadPool {
            maximum_number_of_threads,
            workers,
            number_active_workers: 0,
            pending_tasks: 0,
            tasks_completed: 0,
            shutdown_initiated: false,
        }
    }

    /// Decides whether a task is accepted. `Ok` means the task is to be sent
    /// to the workers now, and the pool counts it pending; the outcome of the
    /// send is then reported with `task_sent`.
    /// Refused with `Shutdown` once shutdown has begun, and with
    /// `NoThreadAvailable` when `fail_fast` is set and no thread is free (busy
    /// workers and pending tasks together reach the pool size); a refusal
    /// changes nothing.
    pub fn execute(&mut self, fail_fast: bool) -> (r: Result<(), ExecutionError>)
        ensures
            r is Ok <==> old(self)@.accepts(fail_fast),
            r is Ok ==> final(self)@ == old(self)@.accept(),
            r is Err ==> final(self)@ == old(self)@,
            r is Err ==> r->Err_0 == old(self)@.refusal(fail_fast),
            final(self)@.wf(),
    {
        proof {
            use_type_invariant(&*self);
        }
        if self.shutdown_initiated {
            return Err(ExecutionError::Shutdown);
        }
        if fail_fast && (self.number_active_workers >= self.maximum_number_of_threads
            || self.pending_tasks >= self.maximum_number_of_threads - self.number_active_workers) {
            return Err(ExecutionError::NoThreadAvailable);
        }
        self.pending_tasks = self.pending_tasks.wrapping_add(1);
        proof {
            use_type_invariant(&*self);
        }
        Ok(())
    }

    /// Takes the outcome of sending an accepted task. When the channel
    /// refused it, the task no longer counts as pending and the error is
    /// `TaskChannelError`; otherwise the shortfall of workers is made up and
    /// the identifiers of the workers to start are returned.
    pub fn task_sent(&mut self, delivered: bool) -> (r: Result<Vec<usize>, ExecutionError>)
        ensures
            final(self)@ == old(self)@.sent(delivered),
            delivered ==> r is Ok && r->Ok_0@ == old(self)@.deficit_ids(),
            !delivered ==> r is Err && r->Err_0 == ExecutionError::TaskChannelError,
            final(self)@.wf(),
    {
        proof {
            use_type_invariant(&*self);
        }
        if delivered {
            let ids = self.check_and_recover_worker_deficit();
            Ok(ids)
        } else {
            self.pending_tasks = self.pending_tasks.wrapping_sub(1);
            proof {
                use_type_invariant(&*self);
            }
            Err(ExecutionError::TaskChannelError)
        }
    }

    /// Adds workers until the pool holds its full number again; each new
    /// worker gets the smallest identifier not held at that point.
    /// Returns the identifiers of the added workers, in order.
    pub fn check_and_recover_worker_deficit(&mut self) -> (new_ids: Vec<usize>)
        ensures
            final(self)@ == old(self)@.recover(),
            new_ids@ == old(self)@.deficit_ids(),
            final(self)@.workers.len() == final(self)@.max_threads,
            final(self)@.wf(),
    {
        proof {
            use_type_invariant(&*self);
        }
        let ghost s0 = self@;
        let max = self.maximum_number_of_threads;
        let ghost m = max as nat;
        let mut workers: Vec<usize> = Vec::new();
        std::mem::swap(&mut workers, &mut self.workers);
        let ghost w0 = workers@;
        let mut new_ids: Vec<usize> = Vec::new();
        while workers.len() < max
            invariant
                s0.wf(),
                max == s0.max_threads,
                m == max as nat,
                w0 == s0.workers,
                w0.len() <= workers@.len() <= max,
                distinct_below(workers@, m),
                refill(workers@, m) == refill(w0, m),
                workers@.subrange(0, w0.len() as int) == w0,
                new_ids@ == workers@.subrange(w0.len() as int, workers@.len() as int),
            decreases max - workers@.len(),
        {
            let id = smallest_free(&workers, max);
            proof {
                lemma_first_free(workers@, m);
                let ws = workers@;
                let next = ws.push(id);
                assert forall|a: int, b: int|
                    0 <= a < next.len() && 0 <= b < next.len() && a != b implies next[a] != next[b] by {
                    if a < ws.len() && b < ws.len() {
                        assert(next[a] == ws[a] && next[b] == ws[b]);
                    } else if a < ws.len() {
                        assert(next[a] == ws[a]);
                    } else if b < ws.len() {
                        assert(next[b] == ws[b]);
                    }
                }
                assert forall|a: int| 0 <= a < next.len() implies #[trigger] next[a] < m by {
                    if a < ws.len() {
                        assert(next[a] == ws[a]);
                    }
                }
            }
            let ghost before = workers@;
            workers.push(id);
            new_ids.push(id);
            assert forall|i: int| 0 <= i < w0.len() implies workers@[i] == w0[i] by {
                assert(workers@[i] == before[i]);
                assert(before.subrange(0, w0.len() as int)[i] == before[i]);
            }
            assert(workers@.subrange(0, w0.len() as int) =~= w0);
            assert forall|i: int| 0 <= i < new_ids@.len() - 1 implies new_ids@[i] == workers@[w0.len() + i] by {
                assert(before.subrange(w0.len() as int, before.len() as int)[i] == before[w0.len() + i]);
            }
            assert(new_ids@ =~= workers@.subrange(w0.len() as int, workers@.len() as int));
        }
        proof {
            lemma_refill(w0, m);
            assert(refill(workers@, m) == workers@);
            assert(workers@ =~= refill(w0, m));
            assert(new_ids@ =~= s0.deficit_ids());
        }
        self.workers = workers;
        proof {
            use_type_invariant(&*self);
            assert(self@ =~= s0.recover());
        }
        new_ids
    }

    /// Begins shutdown: the pool refuses all further tasks and the task
    /// channel is closed. Returns whether this call closed it (it is `false`
    /// when shutdown had already begun).
    pub fn init_shutdown(&mut self) -> (closed_now: bool)
        ensures
            final(self)@ == old(self)@.close(),
            final(self)@.shutdown,
            final(self)@.workers == old(self)@.workers,
            final(self)@.active == old(self)@.active,
            final(self)@.pending == old(self)@.pending,
            closed_now == !old(self)@.shutdown,
            final(self)@.wf(),
    {
        proof {
            use_type_invariant(&*self);
        }
        let closed_now = !self.shutdown_initiated;
        self.shutdown_initiated = true;
        proof {
            use_type_invariant(&*self);
        }
        closed_now
    }

    /// Ends the pool: begins shutdown, then gives up every worker, last held
    /// first. Returns the identifiers in that order, which is the order in
    /// which the workers are to be joined; the pool then holds none.
    pub fn wait_for_shutdown(&mut self) -> (order: Vec<usize>)
        ensures
            order@ == old(self)@.workers.reverse(),
            final(self)@ == (PoolView { workers: Seq::empty(), ..old(self)@.close() }),
            final(self)@.wf(),
    {
        self.init_shutdown();
        let mut workers: Vec<usize> = Vec::new();
        std::mem::swap(&mut workers, &mut self.workers);
        let ghost w0 = workers@;
        let mut order: Vec<usize> = Vec::new();
        while workers.len() > 0
            invariant
                workers@.len() + order@.len() == w0.len(),
                workers@ == w0.take(workers@.len() as int),
                order@ == Seq::new(order@.len(), |i: int| w0[w0.len() - 1 - i]),
            decreases workers@.len(),
        {
            let last = workers.pop();
            match last {
                Some(id) => {
                    order.push(id);
                    assert(workers@ =~= w0.take(workers@.len() as int));
                    assert(order@ =~= Seq::new(order@.len(), |i: int| w0[w0.len() - 1 - i]));
                },
                None => {},
            }
        }
        assert(order@ =~= w0.reverse());
        proof {
            use_type_invariant(&*self);
            assert(self@.workers =~= Seq::<usize>::empty());
        }
        order
    }

    /// Records that a worker picked up a task: one more busy, one fewer
    /// pending.
    pub fn task_started(&mut self)
        ensures
            final(self)@ == old(self)@.start_task(),
            final(self)@.wf(),
    {
        proof {
            use_type_invariant(&*self);
        }
        self.number_active_workers = self.number_active_workers.wrapping_add(1);
        self.pending_tasks = self.pending_tasks.wrapping_sub(1);
        proof {
            use_type_invariant(&*self);
        }
    }

    /// Records that a worker's task returned: the worker is no longer busy,
    /// and the task counts as completed.
    pub fn task_finished(&mut self)
        ensures
            final(self)@ == old(self)@.finish_task(),
            final(self)@.wf(),
    {
        proof {
            use_type_invariant(&*self);
        }
        self.number_active_workers = self.number_active_workers.wrapping_sub(1);
        self.tasks_completed = self.tasks_completed.wrapping_add(1);
        proof {
            use_type_invariant(&*self);
        }
    }

    /// Records that a worker's thread died running a task: the worker is no
    /// longer busy, and the task does not count as completed.
    pub fn task_panicked(&mut self)
        ensures
            final(self)@ == old(self)@.abandon_task(),
            final(self)@.wf(),
    {
        proof {
            use_type_invariant(&*self);
        }
        self.number_active_workers = self.number_active_workers.wrapping_sub(1);
        proof {
            use_type_invariant(&*self);
        }
    }

    /// Handles the exit of worker `id`: before shutdown it is dropped from
    /// the pool and its position is returned; once shutdown has begun, or
    /// when the pool does not hold it, nothing is done.
    pub fn remove_worker(&mut self, id: usize) -> (position: Option<usize>)
        ensures
            final(self)@ == old(self)@.remove_worker(id),
            position is Some <==> !old(self)@.shutdown && old(self)@.workers.contains(id),
            position is Some ==> position->0 < old(self)@.workers.len() && old(self)@.workers[position->0 as int] == id,
            final(self)@.wf(),
    {
        proof {
            use_type_invariant(&*self);
        }
        if self.shutdown_initiated {
            return None;
        }
        let ghost s0 = self@;
        let mut i: usize = 0;
        while i < self.workers.len()
            invariant
                self@ == s0,
                old(self)@ == s0,
                s0.wf(),
                !s0.shutdown,
                i <= s0.workers.len(),
                forall|j: int| 0 <= j < i ==> s0.workers[j] != id,
            decreases s0.workers.len() - i,
        {
            if self.workers[i] == id {
                let mut workers: Vec<usize> = Vec::new();
                std::mem::swap(&mut workers, &mut self.workers);
                workers.remove(i);
                proof {
                    let w0 = s0.workers;
                    assert(w0[i as int] == id);
                    assert(w0.contains(id));
                    assert(w0.index_of(id) == i as int);
                    w0.remove_ensures(i as int);
                    assert(workers@ =~= w0.remove(i as int));
                    assert forall|a: int, b: int|
                        0 <= a < workers@.len() && 0 <= b < workers@.len() && a != b implies workers@[a]
                        != workers@[b] by {
                        let oa = if a < i { a } else { a + 1 };
                        let ob = if b < i { b } else { b + 1 };
                        assert(workers@[a] == w0[oa]);
                        assert(workers@[b] == w0[ob]);
                    }
                    assert forall|a: int| 0 <= a < workers@.len() implies #[trigger] workers@[a]
                        < s0.max_threads by {
                        let oa = if a < i { a } else { a + 1 };
                        assert(workers@[a] == w0[oa]);
                    }
                }
                self.workers = workers;
                proof {
                    use_type_invariant(&*self);
                    assert(self@ =~= s0.remove_worker(id));
                }
                return Some(i);
            }
            i = i + 1;
        }
        proof {
            assert(!s0.workers.contains(id));
        }
        None
    }

    /// The number of accepted tasks not yet picked up by a worker.
    pub fn get_pending_tasks(&self) -> (n: usize)
        ensures
            n == self@.pending,
    {
        self.pending_tasks
    }

    /// The number of active workers: those running a task they picked up.
    /// It may be less than the pool size, as threads may have exited on
    /// errors.
    pub fn number_active_workers(&self) -> (n: usize)
        ensures
            n == self@.active,
    {
        self.number_active_workers
    }

    /// The number of tasks completed: those whose work returned.
    pub fn number_of_tasks_completed(&self) -> (n: u64)
        ensures
            n == self@.completed,
    {
        self.tasks_completed
    }

    /// The fixed number of threads the pool keeps.
    pub fn maximum_number_of_threads(&self) -> (n: usize)
        ensures
            n == self@.max_threads,
    {
        self.maximum_number_of_threads
    }

    /// The identifiers of the workers held, in order.
    pub fn worker_ids(&self) -> (ids: Vec<usize>)
        ensures
            ids@ == self@.workers,
    {
        self.workers.clone()
    }

    /// Whether shutdown has begun.
    pub fn is_shutdown(&self) -> (b: bool)
        ensures
            b == self@.shutdown,
    {
        self.shutdown_initiated
    }
}

} // verus!
