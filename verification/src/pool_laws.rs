use crate::thread_pool::{counter_inc, tally_inc, ExecutionError, PoolView, MAX_THREADS};
use crate::worker_ids::{lemma_refill, lemma_refill_in_order};
use vstd::prelude::*;

verus! {

/// A new pool holds exactly its size of workers, numbered `0 .. max` in
/// order, so it has no shortfall to make up.
pub proof fn lemma_new_pool_is_full(max: usize)
    requires
        0 < max <= MAX_THREADS,
    ensures
        PoolView::initial(max).wf(),
        PoolView::initial(max).workers.len() == max,
        forall|i: int| 0 <= i < max ==> PoolView::initial(max).workers[i] == i,
        PoolView::initial(max).deficit_ids().len() == 0,
        PoolView::initial(max).recover() == PoolView::initial(max),
{
    let s = PoolView::initial(max);
    assert(s.workers + s.deficit_ids() =~= s.workers);
}

/// A new pool is open and idle: it is not shut down, nothing is busy,
/// pending or completed, and it accepts a task, failing fast or not.
pub proof fn lemma_new_pool_is_open(max: usize, fail_fast: bool)
    requires
        0 < max <= MAX_THREADS,
    ensures
        !PoolView::initial(max).shutdown,
        PoolView::initial(max).active == 0,
        PoolView::initial(max).pending == 0,
        PoolView::initial(max).completed == 0,
        PoolView::initial(max).accepts(fail_fast),
{
}

/// Beginning shutdown always shuts the pool, whatever it is doing: busy
/// workers and pending tasks do not hold it open, and every task offered
/// afterwards is refused with `Shutdown`.
pub proof fn lemma_close_shuts_down(s: PoolView, fail_fast: bool)
    ensures
        s.close().shutdown,
        !s.close().accepts(fail_fast),
        s.close().refusal(fail_fast) == ExecutionError::Shutdown,
        s.close().active == s.active,
        s.close().pending == s.pending,
        s.close().workers == s.workers,
{
}

/// Making up a shortfall keeps the workers held in front and brings the
/// pool back to its full size with distinct identifiers: the new ones were
/// not held before. A second recovery adds nothing.
pub proof fn lemma_recover_fills_pool(s: PoolView)
    requires
        s.wf(),
    ensures
        s.recover().wf(),
        s.recover().workers.len() == s.max_threads,
        s.recover().workers.subrange(0, s.workers.len() as int) == s.workers,
        s.deficit_ids().len() == s.max_threads - s.workers.len(),
        s.recover().workers == s.workers + s.deficit_ids(),
        forall|i: int| 0 <= i < s.deficit_ids().len() ==> !s.workers.contains(#[trigger] s.deficit_ids()[i]),
        s.recover().deficit_ids().len() == 0,
        s.recover().recover() == s.recover(),
        s.recover().active == s.active,
        s.recover().pending == s.pending,
        s.recover().shutdown == s.shutdown,
{
    let m = s.max_threads as nat;
    lemma_refill(s.workers, m);
    let r = s.recover();
    let d = s.deficit_ids();
    assert(r.workers =~= s.workers + d);
    assert forall|i: int| 0 <= i < d.len() implies !s.workers.contains(#[trigger] d[i]) by {
        if s.workers.contains(d[i]) {
            let k = choose|k: int| 0 <= k < s.workers.len() && s.workers[k] == d[i];
            assert(r.workers[k] == s.workers[k]);
            assert(r.workers[s.workers.len() + i] == d[i]);
        }
    }
}

/// Where the pool holds workers `0 .. n` in order (no worker but the last
/// ones exited), the shortfall is made up with `n .. size` in order.
pub proof fn lemma_recover_in_order(s: PoolView)
    requires
        s.wf(),
        s.workers == Seq::new(s.workers.len(), |i: int| i as usize),
    ensures
        s.deficit_ids() == Seq::new(
            (s.max_threads - s.workers.len()) as nat,
            |i: int| (s.workers.len() + i) as usize,
        ),
{
    lemma_refill_in_order(s.workers.len(), s.max_threads as nat);
    assert(s.deficit_ids() =~= Seq::new(
        (s.max_threads - s.workers.len()) as nat,
        |i: int| (s.workers.len() + i) as usize,
    ));
}

/// Every decision of the pool keeps it well formed: the size stays in range,
/// the pool never holds more workers than its size, and worker identifiers
/// stay distinct and below the size.
pub proof fn lemma_steps_keep_wf(s: PoolView, delivered: bool, id: usize)
    requires
        s.wf(),
    ensures
        s.accept().wf(),
        s.sent(delivered).wf(),
        s.recover().wf(),
        s.close().wf(),
        s.start_task().wf(),
        s.finish_task().wf(),
        s.abandon_task().wf(),
        s.remove_worker(id).wf(),
{
    lemma_recover_fills_pool(s);
    if !s.shutdown && s.workers.contains(id) {
        let w0 = s.workers;
        let k = w0.index_of(id);
        let w = w0.remove(k);
        w0.remove_ensures(k);
        assert forall|a: int, b: int| 0 <= a < w.len() && 0 <= b < w.len() && a != b implies w[a]
            != w[b] by {
            let oa = if a < k { a } else { a + 1 };
            let ob = if b < k { b } else { b + 1 };
            assert(w[a] == w0[oa]);
            assert(w[b] == w0[ob]);
        }
        assert forall|a: int| 0 <= a < w.len() implies #[trigger] w[a] < s.max_threads by {
            let oa = if a < k { a } else { a + 1 };
            assert(w[a] == w0[oa]);
        }
    }
}

/// Removing a worker takes out exactly that worker: no other goes, and it is
/// no longer held.
pub proof fn lemma_remove_takes_that_worker(s: PoolView, id: usize)
    requires
        s.wf(),
        !s.shutdown,
        s.workers.contains(id),
    ensures
        s.remove_worker(id).workers.len() == s.workers.len() - 1,
        !s.remove_worker(id).workers.contains(id),
        forall|x: usize| x != id ==> (s.remove_worker(id).workers.contains(x) <==> s.workers.contains(x)),
{
    let w0 = s.workers;
    let k = w0.index_of(id);
    let w = w0.remove(k);
    w0.remove_ensures(k);
    if w.contains(id) {
        let a = choose|a: int| 0 <= a < w.len() && w[a] == id;
        let oa = if a < k { a } else { a + 1 };
        assert(w[a] == w0[oa]);
    }
    assert forall|x: usize| x != id implies (w.contains(x) <==> w0.contains(x)) by {
        if w.contains(x) {
            let a = choose|a: int| 0 <= a < w.len() && w[a] == x;
            let oa = if a < k { a } else { a + 1 };
            assert(w[a] == w0[oa]);
        }
        if w0.contains(x) {
            let b = choose|b: int| 0 <= b < w0.len() && w0[b] == x;
            let nb = if b < k { b } else { b - 1 };
            assert(w[nb] == x);
        }
    }
}

/// A task is refused exactly when the pool is shut down, or when it fails
/// fast while no thread is free (busy workers and pending tasks reach the
/// size); shutdown takes precedence, and without fail-fast the pool never
/// refuses for want of threads.
pub proof fn lemma_refusals(s: PoolView, fail_fast: bool)
    ensures
        s.shutdown ==> !s.accepts(fail_fast) && s.refusal(fail_fast) == ExecutionError::Shutdown,
        !s.shutdown && fail_fast && s.active + s.pending >= s.max_threads ==> !s.accepts(fail_fast)
            && s.refusal(fail_fast) == ExecutionError::NoThreadAvailable,
        !s.shutdown && !fail_fast ==> s.accepts(fail_fast),
        !s.shutdown && s.active + s.pending < s.max_threads ==> s.accepts(fail_fast),
{
}

/// Shutdown is final: once begun, every decision keeps it, tasks are always
/// refused with `Shutdown`, and exiting workers are no longer removed.
pub proof fn lemma_shutdown_is_final(s: PoolView, fail_fast: bool, delivered: bool, id: usize)
    requires
        s.shutdown,
    ensures
        !s.accepts(fail_fast),
        s.refusal(fail_fast) == ExecutionError::Shutdown,
        s.accept().shutdown,
        s.sent(delivered).shutdown,
        s.close().shutdown,
        s.start_task().shutdown,
        s.finish_task().shutdown,
        s.abandon_task().shutdown,
        s.remove_worker(id) == s,
{
}

/// Beginning shutdown twice is the same as once, and it changes nothing
/// but the flag.
pub proof fn lemma_close_idempotent(s: PoolView)
    ensures
        s.close().close() == s.close(),
        s.close().workers == s.workers,
        s.close().active == s.active,
        s.close().pending == s.pending,
        s.close().max_threads == s.max_threads,
{
}

/// A task whose send fails leaves no trace: the state is as before the task
/// was accepted.
pub proof fn lemma_failed_send_leaves_no_trace(s: PoolView)
    ensures
        s.accept().sent(false) == s,
{
}

/// A task accepted and sent waits as pending; picked up, it makes its
/// worker busy; when it returns, the busy and pending counts are as they
/// were before it was accepted, one more task counts completed, and the pool
/// is at its full size. One whose thread dies counts none completed.
pub proof fn lemma_task_life_cycle(s: PoolView)
    requires
        s.wf(),
    ensures
        s.accept().sent(true).pending == counter_inc(s.pending),
        s.accept().sent(true).start_task().active == counter_inc(s.active),
        s.accept().sent(true).start_task().pending == s.pending,
        s.accept().sent(true).start_task().finish_task() == (PoolView {
            completed: tally_inc(s.completed),
            ..s.recover()
        }),
        s.accept().sent(true).start_task().abandon_task() == s.recover(),
{
    let a = s.accept();
    assert(a.recover().workers == s.recover().workers);
}

/// One event the pool's bookkeeping takes.
pub enum PoolEvent {
    /// A task is offered, failing fast or not.
    Execute(bool),
    /// The outcome of sending the last accepted task.
    Sent(bool),
    /// A worker picks up a task.
    Start,
    /// A worker's task returns.
    Finish,
    /// A worker's thread dies running a task.
    Panic,
    /// Shutdown begins.
    Close,
    /// A worker exits.
    Exit(usize),
}

/// The state after one event.
pub open spec fn step(s: PoolView, e: PoolEvent) -> PoolView {
    match e {
        PoolEvent::Execute(fail_fast) => if s.accepts(fail_fast) {
            s.accept()
        } else {
            s
        },
        PoolEvent::Sent(delivered) => s.sent(delivered),
        PoolEvent::Start => s.start_task(),
        PoolEvent::Finish => s.finish_task(),
        PoolEvent::Panic => s.abandon_task(),
        PoolEvent::Close => s.close(),
        PoolEvent::Exit(id) => s.remove_worker(id),
    }
}

/// The state after a run of events, taken in order.
pub open spec fn replay(s: PoolView, events: Seq<PoolEvent>) -> PoolView
    decreases events.len(),
{
    if events.len() == 0 {
        s
    } else {
        step(replay(s, events.drop_last()), events.last())
    }
}

/// How many offered tasks of a run the pool accepted.
pub open spec fn accepted(s: PoolView, events: Seq<PoolEvent>) -> nat
    decreases events.len(),
{
    if events.len() == 0 {
        0
    } else {
        accepted(s, events.drop_last()) + match events.last() {
            PoolEvent::Execute(fail_fast) => if replay(s, events.drop_last()).accepts(fail_fast) {
                1nat
            } else {
                0nat
            },
            _ => 0nat,
        }
    }
}

/// How many events of a run satisfy `p`.
pub open spec fn count(events: Seq<PoolEvent>, p: spec_fn(PoolEvent) -> bool) -> nat
    decreases events.len(),
{
    if events.len() == 0 {
        0
    } else {
        count(events.drop_last(), p) + if p(events.last()) {
            1nat
        } else {
            0nat
        }
    }
}

/// Failed sends.
pub open spec fn is_failed_send(e: PoolEvent) -> bool {
    e == PoolEvent::Sent(false)
}

/// Pick-ups.
pub open spec fn is_start(e: PoolEvent) -> bool {
    e == PoolEvent::Start
}

/// Ends of tasks, by return or by a dying thread.
pub open spec fn is_end(e: PoolEvent) -> bool {
    e == PoolEvent::Finish || e == PoolEvent::Panic
}

/// Returns of tasks.
pub open spec fn is_finish(e: PoolEvent) -> bool {
    e == PoolEvent::Finish
}

/// A run in which every failed send and pick-up answers to a task accepted
/// before it, and every end to a task picked up before it.
pub open spec fn orderly(s: PoolView, events: Seq<PoolEvent>) -> bool
    decreases events.len(),
{
    if events.len() == 0 {
        true
    } else {
        &&& orderly(s, events.drop_last())
        &&& count(events, |e: PoolEvent| is_failed_send(e)) + count(
            events,
            |e: PoolEvent| is_start(e),
        ) <= accepted(s, events)
        &&& count(events, |e: PoolEvent| is_end(e)) <= count(events, |e: PoolEvent| is_start(e))
    }
}

/// Over any orderly run from a new pool that accepts fewer than
/// `usize::MAX` tasks: the pending count is the number of accepted tasks
/// sent and not yet picked up; the busy count is the number of tasks picked
/// up that have not ended; the completed count is the number of tasks that
/// returned. So once every accepted task has been picked up the pending
/// count is 0, once every one has ended no worker counts as busy, and then
/// (before shutdown) a fail-fast task is accepted again.
pub proof fn lemma_counters_over_run(max: usize, events: Seq<PoolEvent>)
    requires
        0 < max <= MAX_THREADS,
        orderly(PoolView::initial(max), events),
        accepted(PoolView::initial(max), events) < usize::MAX,
    ensures
        replay(PoolView::initial(max), events).max_threads == max,
        replay(PoolView::initial(max), events).pending == accepted(PoolView::initial(max), events)
            - count(events, |e: PoolEvent| is_failed_send(e)) - count(events, |e: PoolEvent| is_start(e)),
        replay(PoolView::initial(max), events).active == count(events, |e: PoolEvent| is_start(e))
            - count(events, |e: PoolEvent| is_end(e)),
        replay(PoolView::initial(max), events).completed == count(events, |e: PoolEvent| is_finish(e)),
        count(events, |e: PoolEvent| is_failed_send(e)) + count(events, |e: PoolEvent| is_start(e))
            == accepted(PoolView::initial(max), events) ==> replay(PoolView::initial(max), events).pending
            == 0,
        count(events, |e: PoolEvent| is_end(e)) == count(events, |e: PoolEvent| is_start(e))
            ==> replay(PoolView::initial(max), events).active == 0,
        count(events, |e: PoolEvent| is_failed_send(e)) + count(events, |e: PoolEvent| is_start(e))
            == accepted(PoolView::initial(max), events) && count(events, |e: PoolEvent| is_end(e))
            == count(events, |e: PoolEvent| is_start(e)) && !replay(PoolView::initial(max), events).shutdown
            ==> replay(PoolView::initial(max), events).accepts(true),
    decreases events.len(),
{
    let s0 = PoolView::initial(max);
    if events.len() > 0 {
        let prev = events.drop_last();
        lemma_accepted_grows(s0, events);
        lemma_finishes_within_ends(prev);
        lemma_counters_over_run(max, prev);
    }
}

/// Returns of tasks are among the ends of tasks.
proof fn lemma_finishes_within_ends(events: Seq<PoolEvent>)
    ensures
        count(events, |e: PoolEvent| is_finish(e)) <= count(events, |e: PoolEvent| is_end(e)),
    decreases events.len(),
{
    if events.len() > 0 {
        lemma_finishes_within_ends(events.drop_last());
    }
}

/// The accepted count of a run is at least that of the run without its last
/// event.
proof fn lemma_accepted_grows(s: PoolView, events: Seq<PoolEvent>)
    requires
        events.len() > 0,
    ensures
        accepted(s, events.drop_last()) <= accepted(s, events),
{
}

} // verus!
