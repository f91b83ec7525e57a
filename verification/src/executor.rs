//! The executor: a fixed pool of workers, the submission API that routes
//! each task to a worker by its identifier, and the graceful join.
//!
//! Task identifiers come from a monotone counter, so they are unique for the
//! executor's lifetime, and the worker owning a task is fixed at submission
//! as `id % N`: a task never migrates. Submission never waits: it is one
//! counter bump and one unbounded-queue push, whatever any worker is doing.

use vstd::prelude::*;
use crate::task::Task;
use crate::channel::{Channel, TaskData};
use crate::worker::{Worker, StepResult, RunResult};
use crate::monitor::TaskDecl;
use crate::TaskId;

verus! {

/// Every task handed to the executor so far, counted where it now sits:
/// admitted into a worker or still queued on its admission channel.
pub open spec fn total_submitted(ws: Seq<Worker>, cs: Seq<Channel>) -> int
    decreases ws.len(),
{
    if ws.len() == 0 || cs.len() == 0 {
        0
    } else {
        total_submitted(ws.drop_last(), cs.drop_last()) + ws.last().num_started
            + cs.last().queue@.len()
    }
}

proof fn lemma_total_nonneg(ws: Seq<Worker>, cs: Seq<Channel>)
    ensures
        total_submitted(ws, cs) >= 0,
    decreases ws.len(),
{
    if ws.len() != 0 && cs.len() != 0 {
        lemma_total_nonneg(ws.drop_last(), cs.drop_last());
    }
}

proof fn lemma_total_update(ws: Seq<Worker>, cs: Seq<Channel>, i: int, w: Worker, c: Channel)
    requires
        ws.len() == cs.len(),
        0 <= i < ws.len(),
    ensures
        total_submitted(ws.update(i, w), cs.update(i, c)) == total_submitted(ws, cs) + (
        w.num_started - ws[i].num_started) + (c.queue@.len() - cs[i].queue@.len()),
    decreases ws.len(),
{
    if i == ws.len() - 1 {
        assert(ws.update(i, w).drop_last() =~= ws.drop_last());
        assert(cs.update(i, c).drop_last() =~= cs.drop_last());
    } else {
        assert(ws.update(i, w).drop_last() =~= ws.drop_last().update(i, w));
        assert(cs.update(i, c).drop_last() =~= cs.drop_last().update(i, c));
        lemma_total_update(ws.drop_last(), cs.drop_last(), i, w, c);
    }
}

proof fn lemma_total_bound(ws: Seq<Worker>, cs: Seq<Channel>, i: int)
    requires
        ws.len() == cs.len(),
        0 <= i < ws.len(),
    ensures
        ws[i].num_started + cs[i].queue@.len() <= total_submitted(ws, cs),
    decreases ws.len(),
{
    lemma_total_nonneg(ws.drop_last(), cs.drop_last());
    if i < ws.len() - 1 {
        lemma_total_bound(ws.drop_last(), cs.drop_last(), i);
        assert(ws.last().num_started + cs.last().queue@.len() >= 0);
    }
}

/// The executor: one admission channel and one worker per pool slot, and the
/// counter the next task identifier comes from.
pub struct Executor {
    pub workers: Vec<Worker>,
    pub channels: Vec<Channel>,
    pub next_id: TaskId,
}

impl Executor {
    /// The executor's invariant: one open channel per worker, at least one
    /// worker, every worker well-formed and still receiving, every queued
    /// task routed to the channel its identifier selects, and every
    /// identifier ever issued accounted for exactly once.
    pub open spec fn wf(self) -> bool {
        &&& self.workers@.len() == self.channels@.len()
        &&& self.workers@.len() >= 1
        &&& forall|i: int|
            0 <= i < self.workers@.len() ==> (#[trigger] self.workers@[i]).wf()
        &&& forall|i: int|
            0 <= i < self.channels@.len() ==> !(#[trigger] self.channels@[i]).closed
        &&& forall|i: int|
            0 <= i < self.workers@.len() ==> (#[trigger] self.workers@[i]).can_receive
        &&& forall|i: int, k: int|
            0 <= i < self.channels@.len() && 0 <= k < self.channels@[i].queue@.len() ==> (
            #[trigger] self.channels@[i].queue@[k]).id as int % self.channels@.len() as int == i
        &&& total_submitted(self.workers@, self.channels@) == self.next_id
    }

    /// Create an executor with `threads` workers, each behind a fresh
    /// admission channel, with the identifier counter at zero.
    pub fn new(threads: usize) -> (r: Executor)
        requires
            threads >= 1,
        ensures
            r.wf(),
            r.next_id == 0,
            r.workers@.len() == threads,
            forall|i: int|
                0 <= i < threads ==> (#[trigger] r.workers@[i]).num_started == 0
                    && r.workers@[i].num_ended == 0 && r.workers@[i].tasks@.len() == 0,
    {
        let mut workers: Vec<Worker> = Vec::new();
        let mut channels: Vec<Channel> = Vec::new();
        let mut k: usize = 0;
        while k < threads
            invariant
                k <= threads,
                workers@.len() == k,
                channels@.len() == k,
                forall|i: int|
                    0 <= i < k ==> (#[trigger] workers@[i]).wf() && workers@[i].can_receive
                        && workers@[i].num_started == 0 && workers@[i].num_ended == 0
                        && workers@[i].tasks@.len() == 0,
                forall|i: int|
                    0 <= i < k ==> !(#[trigger] channels@[i]).closed && channels@[i].queue@.len()
                        == 0,
                total_submitted(workers@, channels@) == 0,
            decreases threads - k,
        {
            let ghost ws_pre = workers@;
            let ghost cs_pre = channels@;
            workers.push(Worker::new());
            channels.push(Channel::new());
            proof {
                assert(workers@.drop_last() =~= ws_pre);
                assert(channels@.drop_last() =~= cs_pre);
            }
            k = k + 1;
        }
        Executor { workers, channels, next_id: 0 }
    }

    /// Allocate the next identifier and send the task to the worker it
    /// selects. Returns the identifier and the selected worker's index.
    fn submit(&mut self, task: Task) -> (r: (TaskId, usize))
        requires
            old(self).wf(),
            old(self).next_id < usize::MAX,
        ensures
            final(self).wf(),
            r.0 == old(self).next_id,
            r.1 as int == old(self).next_id as int % old(self).workers@.len() as int,
            final(self).next_id == old(self).next_id + 1,
            final(self).workers == old(self).workers,
            final(self).channels@.len() == old(self).channels@.len(),
            forall|i: int|
                0 <= i < old(self).channels@.len() && i != r.1 ==> final(self).channels@[i]
                    == old(self).channels@[i],
            final(self).channels@[r.1 as int].queue@ == old(self).channels@[
                r.1 as int
            ].queue@.push(TaskData { task, id: old(self).next_id }),
    {
        let id = self.next_id;
        self.next_id = self.next_id + 1;
        let n = self.channels.len();
        let i = id % n;
        let data = TaskData { task, id };
        let ghost ws_pre = self.workers@;
        let ghost cs_pre = self.channels@;
        self.channels[i].send(data);
        proof {
            assert(self.channels@ =~= cs_pre.update(
                i as int,
                self.channels@[i as int],
            ));
            lemma_total_update(
                ws_pre,
                cs_pre,
                i as int,
                ws_pre[i as int],
                self.channels@[i as int],
            );
            assert(ws_pre.update(i as int, ws_pre[i as int]) =~= ws_pre);
        }
        (id, i)
    }

    /// Submit a task: allocate a fresh identifier by bumping the counter and
    /// push the task onto the admission channel of worker `id % N`. Never
    /// waits: the counter bump and the unbounded push complete in bounded
    /// time whatever any worker is doing.
    pub fn spawn(&mut self, task: Task)
        requires
            old(self).wf(),
            old(self).next_id < usize::MAX,
        ensures
            final(self).wf(),
            final(self).next_id == old(self).next_id + 1,
            final(self).workers == old(self).workers,
            final(self).channels@.len() == old(self).channels@.len(),
            forall|i: int|
                0 <= i < old(self).channels@.len() && i != old(self).next_id as int % old(self).channels@.len() as int ==> final(self).channels@[i] == old(self).channels@[i],
            final(self).channels@[old(self).next_id as int % old(self).channels@.len() as int].queue@
                == old(self).channels@[old(self).next_id as int % old(self).channels@.len() as int].queue@.push(
                TaskData { task, id: old(self).next_id },
            ),
    {
        let _ = self.submit(task);
    }

    /// Submit a task under a human-readable name: as `spawn`, additionally
    /// returning the declaration event the telemetry collaborator consumes,
    /// which records the identifier issued and the worker selected for it.
    pub fn spawn_with_name(&mut self, task: Task, name: String) -> (decl: TaskDecl)
        requires
            old(self).wf(),
            old(self).next_id < usize::MAX,
        ensures
            final(self).wf(),
            final(self).next_id == old(self).next_id + 1,
            final(self).workers == old(self).workers,
            final(self).channels@.len() == old(self).channels@.len(),
            forall|i: int|
                0 <= i < old(self).channels@.len() && i != old(self).next_id as int % old(self).channels@.len() as int ==> final(self).channels@[i] == old(self).channels@[i],
            final(self).channels@[old(self).next_id as int % old(self).channels@.len() as int].queue@
                == old(self).channels@[old(self).next_id as int % old(self).channels@.len() as int].queue@.push(
                TaskData { task, id: old(self).next_id },
            ),
            decl.id == old(self).next_id,
            decl.runner as int == old(self).next_id as int % old(self).workers@.len() as int,
            decl.name == name,
    {
        let (id, runner) = self.submit(task);
        TaskDecl { id, name, runner }
    }

    /// Run one iteration of worker `i`'s main loop against its own channel.
    pub fn step_worker(&mut self, i: usize) -> (r: StepResult)
        requires
            old(self).wf(),
            i < old(self).workers@.len(),
        ensures
            final(self).wf(),
            final(self).next_id == old(self).next_id,
            final(self).workers@.len() == old(self).workers@.len(),
            final(self).channels@.len() == old(self).channels@.len(),
            forall|j: int|
                0 <= j < old(self).workers@.len() && j != i ==> final(self).workers@[j] == old(self).workers@[j] && final(self).channels@[j] == old(self).channels@[j],
            (r is Exited) == (old(self).workers@[i as int].num_started == old(self).workers@[
                i as int
            ].num_ended && !old(self).workers@[i as int].can_receive),
            (r is Parked) == (!(old(self).workers@[i as int].num_started == old(self).workers@[
                i as int
            ].num_ended && !old(self).workers@[i as int].can_receive) && old(self).workers@[
                i as int
            ].common.ready_flags == 0 && !old(self).workers@[i as int].common.task_rx_flag),
            (r is Exited) || (r is Parked) ==> final(self).workers@ == old(self).workers@ && final(self).channels@ == old(self).channels@,
            final(self).workers@[i as int].num_started - old(self).workers@[i as int].num_started
                == old(self).channels@[i as int].queue@.len() - final(self).channels@[
                i as int
            ].queue@.len(),
            final(self).channels@[i as int].queue@.len() <= old(self).channels@[
                i as int
            ].queue@.len(),
            final(self).workers@[i as int].num_ended >= old(self).workers@[i as int].num_ended,
            (r is Worked) && old(self).workers@[i as int].common.task_rx_flag ==> final(self).channels@[i as int].queue@.len() == 0 && final(self).workers@[i as int].can_receive
                && final(self).workers@[i as int].num_started == old(self).workers@[
                i as int
            ].num_started + old(self).channels@[i as int].queue@.len(),
            (r is Worked) && !old(self).workers@[i as int].common.task_rx_flag ==> final(self).channels@[i as int] == old(self).channels@[i as int] && final(self).workers@[
                i as int
            ].num_started == old(self).workers@[i as int].num_started
                && crate::worker::swept_from(
                old(self).workers@[i as int].tasks@,
                old(self).workers@[i as int].common.ready_flags,
                final(self).workers@[i as int].tasks@,
            ),
            (r is Worked) ==> (forall|j: int|
                0 <= j < old(self).workers@[i as int].tasks@.len() && (old(self).workers@[
                    i as int
                ].tasks@[j] is Some) && crate::flags::bit_set(
                    old(self).workers@[i as int].common.ready_flags,
                    ((j % (crate::FLAGS as int)) as usize),
                ) ==> #[trigger] final(self).workers@[i as int].tasks@[j]
                    == crate::worker::slot_after_poll(
                    old(self).workers@[i as int].tasks@[j].unwrap(),
                )),
            (r is Worked) && old(self).workers@[i as int].common.task_rx_flag ==> (exists|
                captured: u64,
            |
                #[trigger] crate::worker::covers(
                    captured,
                    old(self).workers@[i as int].common.ready_flags,
                ) && crate::worker::swept_from(
                    crate::worker::drain_spec(
                        old(self).workers@[i as int].tasks@,
                        old(self).channels@[i as int].queue@,
                    ),
                    captured,
                    final(self).workers@[i as int].tasks@,
                )),
    {
        proof {
            lemma_total_bound(old(self).workers@, old(self).channels@, i as int);
            lemma_total_nonneg(old(self).workers@, old(self).channels@);
        }
        let ghost ws_pre = self.workers@;
        let ghost cs_pre = self.channels@;
        let worker = &mut self.workers[i];
        let chan = &mut self.channels[i];
        let r = worker.step(chan);
        proof {
            assert(self.workers@ =~= ws_pre.update(i as int, self.workers@[i as int]));
            assert(self.channels@ =~= cs_pre.update(i as int, self.channels@[i as int]));
            lemma_total_update(
                ws_pre,
                cs_pre,
                i as int,
                self.workers@[i as int],
                self.channels@[i as int],
            );
            if self.workers@[i as int] == ws_pre[i as int] {
                assert(self.workers@ =~= ws_pre);
            }
            if self.channels@[i as int] == cs_pre[i as int] {
                assert(self.channels@ =~= cs_pre);
            }
        }
        r
    }

    /// Deliver the external event task slot `slot` of worker `i` was waiting
    /// on, through that worker's waker: arm the task and set the slot's
    /// shared readiness bit, as a waker invoked from any thread would.
    pub fn notify(&mut self, i: usize, slot: usize)
        requires
            old(self).wf(),
            i < old(self).workers@.len(),
            slot < old(self).workers@[i as int].tasks@.len(),
        ensures
            final(self).wf(),
            final(self).next_id == old(self).next_id,
            final(self).workers@.len() == old(self).workers@.len(),
            final(self).channels@ == old(self).channels@,
            forall|j: int|
                0 <= j < old(self).workers@.len() && j != i ==> final(self).workers@[j] == old(self).workers@[j],
            final(self).workers@[i as int].common == crate::flags::wake_spec(
                old(self).workers@[i as int].common,
                slot % crate::FLAGS,
            ),
            final(self).workers@[i as int].num_started == old(self).workers@[i as int].num_started,
            final(self).workers@[i as int].num_ended == old(self).workers@[i as int].num_ended,
            final(self).workers@[i as int].can_receive == old(self).workers@[i as int].can_receive,
            final(self).workers@[i as int].tasks@.len() == old(self).workers@[
                i as int
            ].tasks@.len(),
            (old(self).workers@[i as int].tasks@[slot as int] is Some) ==> final(self).workers@[
                i as int
            ].tasks@ == old(self).workers@[i as int].tasks@.update(
                slot as int,
                Some(
                    (TaskData {
                        task: (crate::task::Task {
                            armed: true,
                            ..old(self).workers@[i as int].tasks@[slot as int].unwrap().task
                        }),
                        id: old(self).workers@[i as int].tasks@[slot as int].unwrap().id,
                    }),
                ),
            ),
            (old(self).workers@[i as int].tasks@[slot as int] is None) ==> final(self).workers@[
                i as int
            ].tasks@ == old(self).workers@[i as int].tasks@,
    {
        let ghost ws_pre = self.workers@;
        let worker = &mut self.workers[i];
        worker.notify(slot);
        proof {
            assert(self.workers@ =~= ws_pre.update(i as int, self.workers@[i as int]));
            lemma_total_update(
                ws_pre,
                old(self).channels@,
                i as int,
                self.workers@[i as int],
                old(self).channels@[i as int],
            );
            assert(old(self).channels@.update(
                i as int,
                old(self).channels@[i as int],
            ) =~= old(self).channels@);
        }
    }

    /// Join the executor: close every admission channel — no further
    /// submission is possible — and run every worker to completion under an
    /// iteration budget. Returns whether every worker exited cleanly and how
    /// many tasks ended in total; on a clean join that count is exactly the
    /// number of tasks ever submitted, each polled to completion exactly
    /// once.
    pub fn join(self, fuel: usize) -> (r: (bool, usize))
        requires
            self.wf(),
        ensures
            r.0 ==> r.1 == self.next_id,
            r.1 <= self.next_id,
            self.next_id == 0 && fuel >= 2 ==> r.0,
    {
        let Executor { mut workers, mut channels, next_id } = self;
        let mut total: usize = 0;
        let mut ok = true;
        while workers.len() > 0
            invariant
                workers@.len() == channels@.len(),
                forall|i: int| 0 <= i < workers@.len() ==> (#[trigger] workers@[i]).wf(),
                forall|i: int|
                    0 <= i < workers@.len() ==> (#[trigger] workers@[i]).can_receive || channels@[
                        i
                    ].queue@.len() == 0,
                total + total_submitted(workers@, channels@) <= next_id,
                ok ==> total + total_submitted(workers@, channels@) == next_id,
                next_id == 0 && fuel >= 2 ==> ok,
            decreases workers@.len(),
        {
            let ghost ws_pre = workers@;
            let ghost cs_pre = channels@;
            let mut worker = match workers.pop() {
                Some(w) => w,
                None => {
                    return (false, total);
                },
            };
            let mut chan = match channels.pop() {
                Some(c) => c,
                None => {
                    return (false, total);
                },
            };
            proof {
                lemma_total_nonneg(workers@, channels@);
                lemma_total_nonneg(ws_pre, cs_pre);
            }
            chan.close();
            // closing the channel completes the worker's pending receive,
            // which fires the admission waker
            worker.common.wake(crate::FLAGS);
            proof {
                if next_id == 0 {
                    // nothing was ever submitted: this worker is idle with an
                    // empty queue, so a closed channel lets it exit at once
                    assert(total_submitted(ws_pre, cs_pre) == 0);
                    assert(worker.num_started + chan.queue@.len() <= 0);
                }
            }
            let res = worker.run(&mut chan, fuel);
            let done = match res {
                RunResult::Done => true,
                _ => false,
            };
            if !done {
                ok = false;
            }
            total = total + worker.num_ended;
        }
        (ok, total)
    }
}

} // verus!
