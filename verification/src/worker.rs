//! The worker: one runner that owns a slot table of admitted tasks and polls
//! them to completion, driven by the wake-flag protocol.
//!
//! Per iteration the worker (1) reads and clears the readiness bitmap and the
//! new-task flag, (2) exits when every admitted task has ended and no more can
//! arrive, (3) parks when both reads were empty, (4) drains the admission
//! channel when the new-task flag was set, installing each task in the lowest
//! free slot and marking its bit, and (5) polls every occupied slot whose
//! shared bit was set in the captured bitmap. A set bit means "poll every
//! slot mapping to it": false positives are permitted, false negatives are
//! not, and a false positive is harmless because a pending task with no
//! progress available simply reports Pending again.

use vstd::prelude::*;
use crate::FLAGS;
use crate::flags::{WakerCommon, bit_set, wake_spec, wakes_applied};
use crate::task::{PollStatus, poll_spec};
use crate::channel::{Channel, TaskData, RecvPoll};

verus! {

/// How many slots of the table are occupied.
pub open spec fn live_count(s: Seq<Option<TaskData>>) -> nat
    decreases s.len(),
{
    if s.len() == 0 {
        0nat
    } else {
        live_count(s.drop_last()) + (if s.last() is Some {
            1nat
        } else {
            0nat
        })
    }
}

proof fn lemma_live_count_push(s: Seq<Option<TaskData>>, v: Option<TaskData>)
    ensures
        live_count(s.push(v)) == live_count(s) + (if v is Some {
            1nat
        } else {
            0nat
        }),
{
    assert(s.push(v).drop_last() =~= s);
}

proof fn lemma_live_count_update(s: Seq<Option<TaskData>>, i: int, v: Option<TaskData>)
    requires
        0 <= i < s.len(),
    ensures
        live_count(s.update(i, v)) + (if s[i] is Some {
            1nat
        } else {
            0nat
        }) == live_count(s) + (if v is Some {
            1nat
        } else {
            0nat
        }),
    decreases s.len(),
{
    if i == s.len() - 1 {
        assert(s.update(i, v).drop_last() =~= s.drop_last());
        assert(s.update(i, v).last() == v);
    } else {
        assert(s.update(i, v).drop_last() =~= s.drop_last().update(i, v));
        lemma_live_count_update(s.drop_last(), i, v);
    }
}

/// An empty table has no occupied slot.
pub proof fn lemma_live_count_zero(s: Seq<Option<TaskData>>, i: int)
    requires
        live_count(s) == 0,
        0 <= i < s.len(),
    ensures
        (s[i] is None),
    decreases s.len(),
{
    if i < s.len() - 1 {
        lemma_live_count_zero(s.drop_last(), i);
    }
}

proof fn lemma_live_count_pos(s: Seq<Option<TaskData>>, i: int)
    requires
        0 <= i < s.len(),
        (s[i] is Some),
    ensures
        live_count(s) >= 1,
    decreases s.len(),
{
    if i < s.len() - 1 {
        lemma_live_count_pos(s.drop_last(), i);
    }
}

/// The lowest free slot index at or after `from`; the table's length when
/// every slot from there on is occupied.
pub open spec fn first_free(s: Seq<Option<TaskData>>, from: int) -> int
    decreases s.len() - from,
{
    if from < 0 || from >= s.len() {
        s.len() as int
    } else if s[from] is None {
        from
    } else {
        first_free(s, from + 1)
    }
}

/// The table after installing one task: into the lowest free slot, or
/// appended when every slot is occupied.
pub open spec fn install_spec(s: Seq<Option<TaskData>>, d: TaskData) -> Seq<Option<TaskData>> {
    let i = first_free(s, 0);
    if i < s.len() {
        s.update(i, Some(d))
    } else {
        s.push(Some(d))
    }
}

/// The table after draining a queue in order: each task, oldest first, goes
/// into the then-lowest free slot.
pub open spec fn drain_spec(s: Seq<Option<TaskData>>, q: Seq<TaskData>) -> Seq<Option<TaskData>>
    decreases q.len(),
{
    if q.len() == 0 {
        s
    } else {
        drain_spec(install_spec(s, q.first()), q.drop_first())
    }
}

proof fn lemma_first_free_char(s: Seq<Option<TaskData>>, from: int, i: int)
    requires
        0 <= from <= i <= s.len(),
        forall|j: int| from <= j < i ==> (s[j] is Some),
        i < s.len() ==> (s[i] is None),
    ensures
        first_free(s, from) == i,
    decreases i - from,
{
    if from < i {
        lemma_first_free_char(s, from + 1, i);
    }
}

/// True when the sweep over a captured bitmap polls slot `j`: the slot is
/// occupied and its shared bit is set.
pub open spec fn slot_polled(slots: Seq<Option<TaskData>>, captured: u64, j: int) -> bool {
    &&& 0 <= j < slots.len()
    &&& (slots[j] is Some)
    &&& bit_set(captured, (j % (FLAGS as int)) as usize)
}

/// What one poll leaves in a slot: vacated when the task completed, else the
/// task one step further along.
pub open spec fn slot_after_poll(d: TaskData) -> Option<TaskData> {
    if poll_spec(d.task).1 is Ready {
        None
    } else {
        Some(TaskData { task: poll_spec(d.task).0, id: d.id })
    }
}

/// True when `captured` has every readiness bit of `flags`: a bitmap read
/// at the swap never loses a bit that was set.
pub open spec fn covers(captured: u64, flags: u64) -> bool {
    forall|b: usize| b < 64 && bit_set(flags, b) ==> bit_set(captured, b)
}

/// True when `after` is `before` swept under `captured`: every occupied slot
/// whose shared bit is set moves one poll along, every other slot is kept.
pub open spec fn swept_from(
    before: Seq<Option<TaskData>>,
    captured: u64,
    after: Seq<Option<TaskData>>,
) -> bool {
    &&& after.len() == before.len()
    &&& forall|j: int|
        0 <= j < before.len() ==> after[j] == (if slot_polled(before, captured, j) {
            slot_after_poll(before[j].unwrap())
        } else {
            before[j]
        })
}

/// One worker: the slot table and the termination bookkeeping, plus the
/// wake-flag record it shares with its wakers.
pub struct Worker {
    /// The slot table: `None` is a free slot.
    pub tasks: Vec<Option<TaskData>>,
    /// False once the admission channel was observed closed and drained.
    pub can_receive: bool,
    /// Tasks admitted so far.
    pub num_started: usize,
    /// Tasks polled to completion so far.
    pub num_ended: usize,
    /// The shared wake-flag record.
    pub common: WakerCommon,
}

impl Worker {
    /// Basic accounting: completions never outrun admissions, and the gap
    /// between them is exactly the number of occupied slots.
    pub open spec fn wf(self) -> bool {
        &&& self.num_ended <= self.num_started
        &&& live_count(self.tasks@) == self.num_started - self.num_ended
    }

    /// A fresh worker: empty table, counters at zero, new-task flag raised so
    /// the first iteration checks the channel.
    pub fn new() -> (r: Worker)
        ensures
            r.wf(),
            r.tasks@.len() == 0,
            r.can_receive,
            r.num_started == 0,
            r.num_ended == 0,
            r.common.ready_flags == 0,
            r.common.task_rx_flag,
    {
        Worker {
            tasks: Vec::new(),
            can_receive: true,
            num_started: 0,
            num_ended: 0,
            common: WakerCommon::new(),
        }
    }

    /// The termination test at the top of each iteration: every admitted task
    /// has ended and no more can arrive.
    pub fn should_exit(&self) -> (r: bool)
        ensures
            r == (self.num_started == self.num_ended && !self.can_receive),
    {
        self.num_started == self.num_ended && !self.can_receive
    }

    /// Install a task in the lowest-indexed free slot, appending when the
    /// table is full. Returns the slot index used.
    pub fn install(&mut self, data: TaskData) -> (i: usize)
        requires
            old(self).wf(),
            old(self).num_started < usize::MAX,
        ensures
            final(self).wf(),
            i <= old(self).tasks@.len(),
            forall|j: int| 0 <= j < i ==> (old(self).tasks@[j] is Some),
            i < old(self).tasks@.len() ==> (old(self).tasks@[i as int] is None),
            final(self).tasks@ == install_spec(old(self).tasks@, data),
            final(self).tasks@ == (if i < old(self).tasks@.len() {
                old(self).tasks@.update(i as int, Some(data))
            } else {
                old(self).tasks@.push(Some(data))
            }),
            final(self).num_started == old(self).num_started + 1,
            final(self).num_ended == old(self).num_ended,
            final(self).can_receive == old(self).can_receive,
            final(self).common == old(self).common,
    {
        let len = self.tasks.len();
        let mut i: usize = 0;
        while i < len && self.tasks[i].is_some()
            invariant
                i <= len,
                len == self.tasks@.len(),
                forall|j: int| 0 <= j < i ==> (self.tasks@[j] is Some),
                *self == *old(self),
            decreases len - i,
        {
            i = i + 1;
        }
        proof {
            lemma_first_free_char(self.tasks@, 0, i as int);
        }
        if i < len {
            proof {
                lemma_live_count_update(self.tasks@, i as int, Some(data));
            }
            self.tasks[i] = Some(data);
        } else {
            proof {
                lemma_live_count_push(self.tasks@, Some(data));
            }
            self.tasks.push(Some(data));
        }
        self.num_started = self.num_started + 1;
        i
    }

    /// A waker for slot `i` fires: the event its task was waiting on has
    /// arrived. Arms the task (when the slot is still occupied; a waker may
    /// outlive its task) and sets the slot's shared readiness bit. Callable
    /// at any time between iterations; wakes are idempotent.
    pub fn notify(&mut self, i: usize)
        requires
            old(self).wf(),
            i < old(self).tasks@.len(),
        ensures
            final(self).wf(),
            final(self).tasks@.len() == old(self).tasks@.len(),
            (old(self).tasks@[i as int] is Some) ==> final(self).tasks@ =~= old(self).tasks@.update(
                i as int,
                Some(
                    TaskData {
                        task: crate::task::Task {
                            armed: true,
                            ..old(self).tasks@[i as int].unwrap().task
                        },
                        id: old(self).tasks@[i as int].unwrap().id,
                    },
                ),
            ),
            (old(self).tasks@[i as int] is None) ==> final(self).tasks@ == old(self).tasks@,
            final(self).common == wake_spec(old(self).common, (i % FLAGS) as usize),
            final(self).num_started == old(self).num_started,
            final(self).num_ended == old(self).num_ended,
            final(self).can_receive == old(self).can_receive,
    {
        match &mut self.tasks[i] {
            Some(data) => {
                data.task.notify();
            },
            None => {},
        }
        proof {
            if old(self).tasks@[i as int] is Some {
                lemma_live_count_update(
                    old(self).tasks@,
                    i as int,
                    self.tasks@[i as int],
                );
            } else {
                assert(self.tasks@ =~= old(self).tasks@);
            }
        }
        self.common.wake(i % FLAGS);
    }

    /// Drain the admission channel: repeatedly poll the receive side,
    /// installing each produced task in the lowest free slot and setting that
    /// slot's readiness bit in the locally captured bitmap, so every new task
    /// is polled this same iteration. Stops on Pending (more may come later)
    /// or on closure (none ever will), recording which in `can_receive`.
    /// Returns the updated local bitmap.
    pub fn drain(&mut self, chan: &mut Channel, local_flags: u64) -> (r: u64)
        requires
            old(self).wf(),
            old(self).num_started + old(chan).queue@.len() <= usize::MAX,
        ensures
            final(self).wf(),
            final(self).num_started == old(self).num_started + old(chan).queue@.len(),
            final(self).num_ended == old(self).num_ended,
            final(self).common == old(self).common,
            final(self).can_receive == !old(chan).closed,
            final(chan).queue@.len() == 0,
            final(chan).closed == old(chan).closed,
            final(self).tasks@ == drain_spec(old(self).tasks@, old(chan).queue@),
            final(self).tasks@.len() >= old(self).tasks@.len(),
            forall|j: int|
                0 <= j < old(self).tasks@.len() && (old(self).tasks@[j] is Some)
                    ==> final(self).tasks@[j] == old(self).tasks@[j],
            forall|j: int|
                0 <= j < final(self).tasks@.len() && (#[trigger] final(self).tasks@[j] is Some)
                    && (j >= old(self).tasks@.len() || (old(self).tasks@[j] is None)) ==> (
                old(chan).queue@.contains(final(self).tasks@[j].unwrap()) && bit_set(
                    r,
                    (j % (FLAGS as int)) as usize,
                )),
            forall|b: usize| b < 64 && bit_set(local_flags, b) ==> bit_set(r, b),
    {
        let mut local = local_flags;
        let mut done = false;
        while !done
            invariant
                self.wf(),
                old(self).num_started + old(chan).queue@.len() <= usize::MAX,
                drain_spec(old(self).tasks@, old(chan).queue@) == drain_spec(
                    self.tasks@,
                    chan.queue@,
                ),
                chan.closed == old(chan).closed,
                chan.queue@.len() <= old(chan).queue@.len(),
                chan.queue@ =~= old(chan).queue@.skip(
                    old(chan).queue@.len() - chan.queue@.len(),
                ),
                self.num_started == old(self).num_started + old(chan).queue@.len()
                    - chan.queue@.len(),
                self.num_ended == old(self).num_ended,
                self.common == old(self).common,
                self.tasks@.len() >= old(self).tasks@.len(),
                forall|j: int|
                    0 <= j < old(self).tasks@.len() && (old(self).tasks@[j] is Some)
                        ==> self.tasks@[j] == old(self).tasks@[j],
                forall|j: int|
                    0 <= j < self.tasks@.len() && (#[trigger] self.tasks@[j] is Some) && (j
                        >= old(self).tasks@.len() || (old(self).tasks@[j] is None)) ==> (
                    old(chan).queue@.contains(self.tasks@[j].unwrap()) && bit_set(
                        local,
                        (j % (FLAGS as int)) as usize,
                    )),
                forall|b: usize| b < 64 && bit_set(local_flags, b) ==> bit_set(local, b),
                done ==> chan.queue@.len() == 0 && self.can_receive == !old(chan).closed,
                !done ==> self.can_receive == old(self).can_receive,
            decreases chan.queue@.len(), (if done {
                0int
            } else {
                1int
            }),
        {
            let ghost q_pre = chan.queue@;
            match chan.try_recv() {
                RecvPoll::Received(data) => {
                    let ghost tasks_pre = self.tasks@;
                    let i = self.install(data);
                    proof {
                        assert(data == q_pre.first());
                        assert(chan.queue@ == q_pre.drop_first());
                        assert(drain_spec(tasks_pre, q_pre) == drain_spec(
                            self.tasks@,
                            chan.queue@,
                        ));
                    }
                    let b = i % FLAGS;
                    let mask: u64 = 1u64 << b;
                    proof {
                        assert forall|b2: usize| b2 < 64 && bit_set(local, b2) implies bit_set(
                            local | mask,
                            b2,
                        ) by {
                            crate::flags::lemma_or_bit(local, mask, b2);
                        }
                        crate::flags::lemma_or_bit(local, mask, b);
                        crate::flags::lemma_shift_bit(b, b);
                        assert(old(chan).queue@.contains(data)) by {
                            assert(q_pre[0] == data);
                            assert(q_pre[0] == old(chan).queue@[old(chan).queue@.len() - q_pre.len()]);
                        }
                    }
                    local = local | mask;
                    proof {
                        assert(chan.queue@ =~= old(chan).queue@.skip(
                            old(chan).queue@.len() - chan.queue@.len(),
                        ));
                        assert forall|j: int|
                            0 <= j < self.tasks@.len() && (#[trigger] self.tasks@[j] is Some)
                                && (j >= old(self).tasks@.len() || (
                            old(self).tasks@[j] is None)) implies (old(chan).queue@.contains(
                            self.tasks@[j].unwrap(),
                        ) && bit_set(local, (j % (FLAGS as int)) as usize)) by {
                            if j == i {
                                assert(self.tasks@[j] == Some(data));
                                assert((i as int) % (FLAGS as int) == b);
                            } else {
                                assert(self.tasks@[j] == tasks_pre[j]);
                            }
                        }
                    }
                },
                RecvPoll::Empty => {
                    self.can_receive = true;
                    done = true;
                },
                RecvPoll::Closed => {
                    self.can_receive = false;
                    done = true;
                },
            }
        }
        local
    }

    /// The polling sweep: walk every slot in ascending index order and poll
    /// each occupied slot whose shared bit is set in the captured bitmap.
    /// A completed task's slot is vacated at once and the ended counter
    /// advances; a pending task stays put; a task that woke itself from
    /// inside its poll has its bit set in the live bitmap, so the next
    /// iteration — never this one — polls it again.
    pub fn sweep(&mut self, captured: u64)
        requires
            old(self).wf(),
        ensures
            final(self).wf(),
            final(self).tasks@.len() == old(self).tasks@.len(),
            forall|j: int|
                0 <= j < old(self).tasks@.len() ==> #[trigger] final(self).tasks@[j] == (
                if slot_polled(old(self).tasks@, captured, j) {
                    slot_after_poll(old(self).tasks@[j].unwrap())
                } else {
                    old(self).tasks@[j]
                }),
            final(self).num_started == old(self).num_started,
            final(self).can_receive == old(self).can_receive,
            final(self).num_ended >= old(self).num_ended,
            final(self).common.task_rx_flag == old(self).common.task_rx_flag,
            forall|b: usize|
                b < 64 && bit_set(old(self).common.ready_flags, b) ==> bit_set(
                    final(self).common.ready_flags,
                    b,
                ),
            forall|j: int|
                slot_polled(old(self).tasks@, captured, j) && (#[trigger] slot_after_poll(
                    old(self).tasks@[j].unwrap(),
                ) is Some) && slot_after_poll(old(self).tasks@[j].unwrap()).unwrap().task.armed
                    ==> bit_set(final(self).common.ready_flags, (j % (FLAGS as int)) as usize),
    {
        let len = self.tasks.len();
        let mut i: usize = 0;
        while i < len
            invariant
                i <= len,
                len == self.tasks@.len(),
                len == old(self).tasks@.len(),
                self.wf(),
                self.num_started == old(self).num_started,
                self.can_receive == old(self).can_receive,
                self.num_ended >= old(self).num_ended,
                self.common.task_rx_flag == old(self).common.task_rx_flag,
                forall|j: int|
                    0 <= j < i ==> #[trigger] self.tasks@[j] == (if slot_polled(
                        old(self).tasks@,
                        captured,
                        j,
                    ) {
                        slot_after_poll(old(self).tasks@[j].unwrap())
                    } else {
                        old(self).tasks@[j]
                    }),
                forall|j: int| i <= j < len ==> #[trigger] self.tasks@[j] == old(self).tasks@[j],
                forall|b: usize|
                    b < 64 && bit_set(old(self).common.ready_flags, b) ==> bit_set(
                        self.common.ready_flags,
                        b,
                    ),
                forall|j: int|
                    0 <= j < i && slot_polled(old(self).tasks@, captured, j) && (
                    #[trigger] slot_after_poll(old(self).tasks@[j].unwrap()) is Some)
                        && slot_after_poll(old(self).tasks@[j].unwrap()).unwrap().task.armed
                        ==> bit_set(self.common.ready_flags, (j % (FLAGS as int)) as usize),
            decreases len - i,
        {
            let slot = i % FLAGS;
            let mask: u64 = 1u64 << slot;
            let ready = captured & mask != 0;
            proof {
                crate::flags::lemma_shift_bit(slot, slot);
                assert((i as int) % (FLAGS as int) == slot as int);
                assert(ready == bit_set(captured, slot));
            }
            if ready {
                let ghost pre = self.tasks@;
                let mut taken: Option<TaskData> = None;
                core::mem::swap(&mut taken, &mut self.tasks[i]);
                match taken {
                    None => {
                        proof {
                            assert(self.tasks@ =~= pre);
                        }
                    },
                    Some(mut data) => {
                        proof {
                            lemma_live_count_pos(pre, i as int);
                            lemma_live_count_update(pre, i as int, None);
                        }
                        let status = data.task.poll();
                        match status {
                            PollStatus::Ready => {
                                self.num_ended = self.num_ended + 1;
                            },
                            PollStatus::Pending => {
                                if data.task.armed {
                                    let ghost ready_pre = self.common.ready_flags;
                                    self.common.wake(slot);
                                    proof {
                                        assert forall|b: usize|
                                            b < 64 && bit_set(ready_pre, b) implies bit_set(
                                            self.common.ready_flags,
                                            b,
                                        ) by {
                                            crate::flags::lemma_or_bit(ready_pre, mask, b);
                                        }
                                        crate::flags::lemma_or_bit(ready_pre, mask, slot);
                                    }
                                }
                                proof {
                                    lemma_live_count_update(
                                        self.tasks@,
                                        i as int,
                                        Some(data),
                                    );
                                }
                                self.tasks[i] = Some(data);
                                proof {
                                    assert(self.tasks@ =~= pre.update(
                                        i as int,
                                        slot_after_poll(pre[i as int].unwrap()),
                                    ));
                                }
                            },
                        }
                    },
                }
            }
            i = i + 1;
        }
    }
}

/// A wake is never lost: when the waker for an occupied slot fires at any
/// point between two read-and-resets — among any number of other wakes —
/// the bitmap the worker captures at the next read has that slot's bit set,
/// and the sweep over that capture therefore polls the slot.
pub proof fn lemma_wake_is_not_lost(
    s: WakerCommon,
    idxs: Seq<usize>,
    slots: Seq<Option<TaskData>>,
    j: int,
)
    requires
        0 <= j < slots.len(),
        (slots[j] is Some),
        exists|k: int| 0 <= k < idxs.len() && idxs[k] as int == j % (FLAGS as int),
    ensures
        slot_polled(slots, wakes_applied(s, idxs).ready_flags, j),
{
    let k = choose|k: int| 0 <= k < idxs.len() && idxs[k] as int == j % (FLAGS as int);
    crate::flags::lemma_wakes_superset(s, idxs, k);
}

/// What one worker-loop iteration did.
pub enum StepResult {
    /// The termination test held: every admitted task ended, none can arrive.
    Exited,
    /// Nothing to do: both flag reads were empty and the thread parked.
    Parked,
    /// The iteration drained the channel, swept the slots, or both.
    Worked,
}

/// What a bounded worker main loop ended with.
pub enum RunResult {
    /// Clean exit: every admitted task ran to completion.
    Done,
    /// Parked with no wake in sight: only an external wake can continue it.
    Parked,
    /// The iteration bound ran out first.
    OutOfFuel,
}

impl Worker {
    /// One iteration of the worker main loop: read-and-reset the flags, test
    /// for termination, park when idle, drain the channel when the new-task
    /// flag was up, then sweep the captured bitmap.
    pub fn step(&mut self, chan: &mut Channel) -> (r: StepResult)
        requires
            old(self).wf(),
            old(self).num_started + old(chan).queue@.len() <= usize::MAX,
        ensures
            final(self).wf(),
            (r is Exited) == (old(self).num_started == old(self).num_ended && !old(self).can_receive),
            (r is Exited) ==> *final(self) == *old(self) && *final(chan) == *old(chan),
            (r is Parked) == (!(old(self).num_started == old(self).num_ended && !old(self).can_receive) && old(self).common.ready_flags == 0 && !old(self).common.task_rx_flag),
            (r is Parked) ==> *final(self) == *old(self) && *final(chan) == *old(chan),
            final(self).num_started - old(self).num_started == old(chan).queue@.len() - final(chan).queue@.len(),
            final(chan).queue@.len() <= old(chan).queue@.len(),
            final(chan).closed == old(chan).closed,
            final(self).num_ended >= old(self).num_ended,
            (final(self).can_receive == old(self).can_receive && final(chan).queue@ == old(chan).queue@) || (final(self).can_receive == !old(chan).closed && final(chan).queue@.len() == 0),
            (r is Worked) ==> !final(self).common.task_rx_flag,
            (r is Worked) && old(self).common.task_rx_flag ==> final(chan).queue@.len() == 0 && final(self).can_receive == !old(chan).closed && final(self).num_started == old(self).num_started + old(chan).queue@.len(),
            (r is Worked) && !old(self).common.task_rx_flag ==> *final(chan) == *old(chan) && final(self).can_receive == old(self).can_receive && final(self).num_started == old(self).num_started && swept_from(
                old(self).tasks@,
                old(self).common.ready_flags,
                final(self).tasks@,
            ),
            (r is Worked) ==> (forall|j: int|
                0 <= j < old(self).tasks@.len() && (old(self).tasks@[j] is Some) && bit_set(
                    old(self).common.ready_flags,
                    ((j % (FLAGS as int)) as usize),
                ) ==> #[trigger] final(self).tasks@[j] == slot_after_poll(
                    old(self).tasks@[j].unwrap(),
                )),
            (r is Worked) && old(self).common.task_rx_flag ==> (exists|captured: u64|
                #[trigger] covers(captured, old(self).common.ready_flags) && swept_from(
                    drain_spec(old(self).tasks@, old(chan).queue@),
                    captured,
                    final(self).tasks@,
                )),
    {
        if self.should_exit() {
            return StepResult::Exited;
        }
        let (flags_read, task_rx) = self.common.take();
        if flags_read == 0 && !task_rx {
            proof {
                assert(*self == *old(self));
            }
            return StepResult::Parked;
        }
        let ghost pre_tasks = old(self).tasks@;
        let captured = if task_rx {
            self.drain(chan, flags_read)
        } else {
            flags_read
        };
        let ghost mid_tasks = self.tasks@;
        proof {
            assert forall|j: int|
                0 <= j < pre_tasks.len() && (pre_tasks[j] is Some) implies 0 <= j
                < mid_tasks.len() && mid_tasks[j] == pre_tasks[j] && (bit_set(
                flags_read,
                ((j % (FLAGS as int)) as usize),
            ) ==> bit_set(captured, ((j % (FLAGS as int)) as usize))) by {
                assert(((j % (FLAGS as int)) as usize) < 64);
            }
        }
        self.sweep(captured);
        proof {
            if task_rx {
                assert(covers(captured, flags_read));
                assert(swept_from(mid_tasks, captured, self.tasks@));
            }
            assert forall|j: int|
                0 <= j < pre_tasks.len() && (pre_tasks[j] is Some) && bit_set(
                    flags_read,
                    ((j % (FLAGS as int)) as usize),
                ) implies self.tasks@[j] == slot_after_poll(pre_tasks[j].unwrap()) by {
                assert(slot_polled(mid_tasks, captured, j));
            }
        }
        StepResult::Worked
    }

    /// The worker main loop, bounded by an iteration budget: run until the
    /// termination test holds, the worker parks with no wake pending, or the
    /// budget runs out.
    pub fn run(&mut self, chan: &mut Channel, fuel: usize) -> (r: RunResult)
        requires
            old(self).wf(),
            old(self).num_started + old(chan).queue@.len() <= usize::MAX,
            old(self).can_receive || old(chan).queue@.len() == 0,
        ensures
            final(self).wf(),
            final(self).num_started - old(self).num_started == old(chan).queue@.len() - final(chan).queue@.len(),
            final(chan).queue@.len() <= old(chan).queue@.len(),
            final(chan).closed == old(chan).closed,
            final(self).num_ended >= old(self).num_ended,
            (r is Done) ==> final(self).num_started == final(self).num_ended && !final(self).can_receive && final(chan).queue@.len() == 0 && (forall|j: int|
                0 <= j < final(self).tasks@.len() ==> (final(self).tasks@[j] is None)),
            fuel >= 1 && old(self).num_started == old(self).num_ended && !old(self).can_receive ==> (r is Done),
            fuel >= 2 && old(self).num_started == old(self).num_ended && old(self).common.task_rx_flag && old(chan).closed && old(chan).queue@.len() == 0 ==> (r is Done),
            (r is Parked) ==> final(self).common.ready_flags == 0 && !final(self).common.task_rx_flag && !(final(self).num_started == final(self).num_ended && !final(self).can_receive),
            fuel == 0 ==> (r is OutOfFuel),
    {
        let ghost settled = fuel >= 2 && old(self).num_started == old(self).num_ended && old(self).common.task_rx_flag && old(chan).closed && old(chan).queue@.len() == 0;
        let mut k: usize = 0;
        while k < fuel
            invariant
                self.wf(),
                self.num_started - old(self).num_started == old(chan).queue@.len()
                    - chan.queue@.len(),
                chan.queue@.len() <= old(chan).queue@.len(),
                chan.closed == old(chan).closed,
                self.num_ended >= old(self).num_ended,
                self.can_receive || chan.queue@.len() == 0,
                self.num_started + chan.queue@.len() <= usize::MAX,
                k <= fuel,
                settled == (fuel >= 2 && old(self).num_started == old(self).num_ended && old(self).common.task_rx_flag && old(chan).closed && old(chan).queue@.len() == 0),
                k == 0 ==> *self == *old(self) && *chan == *old(chan),
                fuel >= 1 && old(self).num_started == old(self).num_ended && !old(self).can_receive
                    ==> k == 0,
                settled ==> k <= 1,
                settled && k >= 1 ==> self.num_started == self.num_ended && !self.can_receive,
            decreases fuel - k,
        {
            let res = self.step(chan);
            match res {
                StepResult::Exited => {
                    proof {
                        assert forall|j: int|
                            0 <= j < self.tasks@.len() implies (self.tasks@[j] is None) by {
                            lemma_live_count_zero(self.tasks@, j);
                        }
                    }
                    return RunResult::Done;
                },
                StepResult::Parked => {
                    return RunResult::Parked;
                },
                StepResult::Worked => {},
            }
            k = k + 1;
        }
        RunResult::OutOfFuel
    }
}

} // verus!
