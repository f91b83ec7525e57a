//! The cooperative task model.
//!
//! A task is a pollable unit of work yielding no value. Each poll returns
//! Ready (done) or Pending (not yet); a task that returns Pending has either
//! invoked its own waker from inside the poll or holds the waker for a later
//! external event. The model makes a task's behaviour explicit as a plan: what
//! each effective poll does, in order. A poll that arrives while no progress
//! is available — a shared-bit false positive or a spurious wake — observes
//! Pending and changes nothing but the poll counter, which is exactly the
//! idempotence the executor's bit-sharing policy relies on.

use vstd::prelude::*;

verus! {

/// What one effective poll of a task does.
#[derive(Clone, Copy)]
pub enum PollBehavior {
    /// Return Ready: the task is complete.
    Finish,
    /// Return Pending after invoking its own waker from inside the poll.
    WakeSelf,
    /// Return Pending, holding the waker for a later external event.
    Wait,
}

/// Result of one poll.
#[derive(Clone, Copy)]
pub enum PollStatus {
    Ready,
    Pending,
}

/// A submitted unit of work: a pollable task yielding no value.
pub struct Task {
    /// What each effective poll does, in order.
    pub plan: Vec<PollBehavior>,
    /// How many effective polls have happened.
    pub step: usize,
    /// Whether progress is available: true for a fresh task, after a
    /// self-wake, and after an external event; false after a poll that
    /// parked the task on an external event.
    pub armed: bool,
    /// Total number of polls received, effective or not (saturating).
    pub polls: u64,
}

/// A saturating poll-counter increment.
pub open spec fn count_poll(p: u64) -> u64 {
    if p == u64::MAX {
        p
    } else {
        (p + 1) as u64
    }
}

/// The task after one poll, with the status that poll returns. A poll with
/// no progress available observes Pending and advances nothing; an effective
/// poll consumes the next plan entry.
pub open spec fn poll_spec(t: Task) -> (Task, PollStatus) {
    let counted = Task { polls: count_poll(t.polls), ..t };
    if !t.armed {
        (counted, PollStatus::Pending)
    } else if t.step >= t.plan.len() {
        (Task { armed: false, ..counted }, PollStatus::Pending)
    } else {
        match t.plan[t.step as int] {
            PollBehavior::Finish => (
                Task { step: (t.step + 1) as usize, ..counted },
                PollStatus::Ready,
            ),
            PollBehavior::WakeSelf => (
                Task { step: (t.step + 1) as usize, armed: true, ..counted },
                PollStatus::Pending,
            ),
            PollBehavior::Wait => (
                Task { step: (t.step + 1) as usize, armed: false, ..counted },
                PollStatus::Pending,
            ),
        }
    }
}

impl Task {
    /// A fresh task: nothing polled yet, first poll makes progress.
    pub fn new(plan: Vec<PollBehavior>) -> (r: Task)
        ensures
            r.plan == plan,
            r.step == 0,
            r.armed,
            r.polls == 0,
    {
        Task { plan, step: 0, armed: true, polls: 0 }
    }

    /// One poll. The worker is the only caller: a task is polled through an
    /// exclusive reference, never concurrently with itself.
    pub fn poll(&mut self) -> (r: PollStatus)
        ensures
            *final(self) == poll_spec(*old(self)).0,
            r == poll_spec(*old(self)).1,
    {
        if self.polls < u64::MAX {
            self.polls = self.polls + 1;
        }
        if !self.armed {
            return PollStatus::Pending;
        }
        if self.step >= self.plan.len() {
            self.armed = false;
            return PollStatus::Pending;
        }
        let behavior = self.plan[self.step];
        self.step = self.step + 1;
        match behavior {
            PollBehavior::Finish => PollStatus::Ready,
            PollBehavior::WakeSelf => {
                self.armed = true;
                PollStatus::Pending
            },
            PollBehavior::Wait => {
                self.armed = false;
                PollStatus::Pending
            },
        }
    }

    /// The external event the task was waiting on has arrived: the next poll
    /// can make progress. The waker's bitmap side lives with the worker.
    pub fn notify(&mut self)
        ensures
            *final(self) == (Task { armed: true, ..*old(self) }),
    {
        self.armed = true;
    }
}

/// Polling twice in succession without an intervening wake is safe: when a
/// poll returns Pending and leaves the task unarmed, the next poll observes
/// Pending and changes nothing but the poll counter.
pub proof fn lemma_poll_idempotent_when_unarmed(t: Task)
    requires
        (poll_spec(t).1 is Pending),
        !poll_spec(t).0.armed,
    ensures
        (poll_spec(poll_spec(t).0).1 is Pending),
        poll_spec(poll_spec(t).0).0 == (Task {
            polls: count_poll(poll_spec(t).0.polls),
            ..poll_spec(t).0
        }),
{
}

} // verus!
