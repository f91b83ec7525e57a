//! The admission channel model: the multi-producer single-consumer FIFO
//! through which submissions reach one worker. The queue yields task records
//! in submission order; once every producer is gone the channel is closed and,
//! after draining, the consumer observes closure. In the running system the
//! FIFO is a lock-free library queue and the consumer side is a future; the
//! worker only ever sees the three outcomes modelled here.

use vstd::prelude::*;
use crate::task::Task;
use crate::TaskId;

verus! {

/// A task together with its process-unique identifier, as it travels from
/// submitter to worker slot.
pub struct TaskData {
    pub task: Task,
    pub id: TaskId,
}

/// What one receive attempt yields: a task, "empty but producers remain"
/// (the receive future would return Pending), or "closed and drained" (no
/// more tasks will ever arrive).
pub enum RecvPoll {
    Received(TaskData),
    Empty,
    Closed,
}

/// One worker's admission queue.
pub struct Channel {
    pub queue: Vec<TaskData>,
    pub closed: bool,
}

impl Channel {
    /// A fresh, open, empty channel.
    pub fn new() -> (r: Channel)
        ensures
            r.queue@.len() == 0,
            !r.closed,
    {
        Channel { queue: Vec::new(), closed: false }
    }

    /// A producer sends one record; the channel is unbounded and the send
    /// never waits.
    pub fn send(&mut self, data: TaskData)
        requires
            !old(self).closed,
        ensures
            final(self).queue@ == old(self).queue@.push(data),
            !final(self).closed,
    {
        self.queue.push(data);
    }

    /// The last producer is gone: no further sends; the consumer drains what
    /// is buffered and then observes closure.
    pub fn close(&mut self)
        ensures
            final(self).queue@ == old(self).queue@,
            final(self).closed,
    {
        self.closed = true;
    }

    /// One receive attempt by the owning worker: the oldest buffered record,
    /// else Pending or closure.
    pub fn try_recv(&mut self) -> (r: RecvPoll)
        ensures
            old(self).queue@.len() > 0 ==> {
                &&& r == RecvPoll::Received(old(self).queue@[0])
                &&& final(self).queue@ == old(self).queue@.drop_first()
            },
            old(self).queue@.len() == 0 ==> {
                &&& final(self).queue@ == old(self).queue@
                &&& (old(self).closed ==> r is Closed)
                &&& (!old(self).closed ==> r is Empty)
            },
            final(self).closed == old(self).closed,
    {
        if self.queue.len() > 0 {
            let data = self.queue.remove(0);
            proof {
                assert(self.queue@ =~= old(self).queue@.drop_first());
            }
            RecvPoll::Received(data)
        } else if self.closed {
            RecvPoll::Closed
        } else {
            RecvPoll::Empty
        }
    }
}

} // verus!
