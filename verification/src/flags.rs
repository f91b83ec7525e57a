//! The shared wake-flag record and the waker protocol.
//!
//! A worker and every waker it hands out share one record holding a readiness
//! bitmap of `FLAGS` bits and a one-bit "new task arrived" flag. A waker for
//! slot index `i` sets bit `i % FLAGS`; the special admission waker (index
//! `FLAGS`) sets the new-task flag. The worker reads and clears both with a
//! single swap at the start of each iteration. In the running system the two
//! fields are atomics and the record also carries the worker thread's handle
//! for unparking; the handle plays no part in which slots get polled, so this
//! model is the plain value the atomics hold.

use vstd::prelude::*;
use crate::FLAGS;

verus! {

/// Per-worker coordination record shared with all of that worker's wakers:
/// the readiness bitmap and the new-task flag.
pub struct WakerCommon {
    pub ready_flags: u64,
    pub task_rx_flag: bool,
}

/// True when bit `b` of `flags` is set.
pub open spec fn bit_set(flags: u64, b: usize) -> bool {
    flags & (1u64 << b) != 0
}

/// What one wake does: a slot waker (`index < FLAGS`) ORs its bit into the
/// readiness bitmap; the admission waker (`index >= FLAGS`) stores true into
/// the new-task flag.
pub open spec fn wake_spec(s: WakerCommon, index: usize) -> WakerCommon {
    if index < FLAGS {
        WakerCommon { ready_flags: s.ready_flags | (1u64 << index), ..s }
    } else {
        WakerCommon { task_rx_flag: true, ..s }
    }
}

/// The record after a sequence of wakes, applied in order.
pub open spec fn wakes_applied(s: WakerCommon, idxs: Seq<usize>) -> WakerCommon
    decreases idxs.len(),
{
    if idxs.len() == 0 {
        s
    } else {
        wake_spec(wakes_applied(s, idxs.drop_last()), idxs.last())
    }
}

impl WakerCommon {
    /// Record of a fresh worker: no slot ready, new-task flag raised so that
    /// the first iteration checks the admission channel.
    pub fn new() -> (r: WakerCommon)
        ensures
            r.ready_flags == 0,
            r.task_rx_flag,
    {
        WakerCommon { ready_flags: 0, task_rx_flag: true }
    }

    /// The wake operation a `WakerHandle` performs on its worker's record.
    pub fn wake(&mut self, index: usize)
        ensures
            *final(self) == wake_spec(*old(self), index),
    {
        if index < FLAGS {
            let mask: u64 = 1u64 << index;
            self.ready_flags = self.ready_flags | mask;
        } else {
            self.task_rx_flag = true;
        }
    }

    /// The worker's read-and-reset at the start of an iteration: returns the
    /// bitmap and the flag as they were, leaving both cleared.
    pub fn take(&mut self) -> (r: (u64, bool))
        ensures
            r.0 == old(self).ready_flags,
            r.1 == old(self).task_rx_flag,
            final(self).ready_flags == 0,
            !final(self).task_rx_flag,
    {
        let flags = self.ready_flags;
        let rx = self.task_rx_flag;
        self.ready_flags = 0;
        self.task_rx_flag = false;
        (flags, rx)
    }
}

/// ORing a mask affects exactly the mask's bits.
pub proof fn lemma_or_bit(x: u64, m: u64, b: usize)
    requires
        b < 64,
    ensures
        bit_set(x | m, b) <==> (bit_set(x, b) || bit_set(m, b)),
{
    let bb = b as u64;
    assert((x | m) & (1u64 << bb) != 0 <==> (x & (1u64 << bb) != 0 || m & (1u64 << bb) != 0))
        by (bit_vector)
        requires bb < 64;
}

/// A one-bit mask has exactly its own bit.
pub proof fn lemma_shift_bit(b: usize, b2: usize)
    requires
        b < 64,
        b2 < 64,
    ensures
        bit_set(1u64 << b, b2) <==> b == b2,
{
    let bb = b as u64;
    let cc = b2 as u64;
    assert((1u64 << bb) & (1u64 << cc) != 0 <==> bb == cc) by (bit_vector)
        requires bb < 64 && cc < 64;
}

/// A slot wake leaves its own bit set, and the admission wake leaves the
/// new-task flag raised.
pub proof fn lemma_wake_sets_bit(s: WakerCommon, index: usize)
    ensures
        index < FLAGS ==> bit_set(wake_spec(s, index).ready_flags, index),
        index >= FLAGS ==> wake_spec(s, index).task_rx_flag,
{
    if index < FLAGS {
        let x = s.ready_flags;
        let i = index as u64;
        assert((x | (1u64 << i)) & (1u64 << i) != 0) by (bit_vector)
            requires i < 64;
        assert(1u64 << index == 1u64 << i);
    }
}

/// A wake never clears anything: every readiness bit already set stays set,
/// and a raised new-task flag stays raised.
pub proof fn lemma_wake_monotone(s: WakerCommon, index: usize, b: usize)
    ensures
        bit_set(s.ready_flags, b) ==> bit_set(wake_spec(s, index).ready_flags, b),
        s.task_rx_flag ==> wake_spec(s, index).task_rx_flag,
{
    if index < FLAGS {
        let x = s.ready_flags;
        let i = index as u64;
        let m = 1u64 << b;
        assert(x & m != 0 ==> (x | (1u64 << i)) & m != 0) by (bit_vector);
    }
}

/// Waking the same index twice is the same as waking it once: coalesced
/// wakes cannot accumulate.
pub proof fn lemma_wake_idempotent(s: WakerCommon, index: usize)
    ensures
        wake_spec(wake_spec(s, index), index) == wake_spec(s, index),
{
    if index < FLAGS {
        let x = s.ready_flags;
        let i = index as u64;
        assert((x | (1u64 << i)) | (1u64 << i) == x | (1u64 << i)) by (bit_vector);
    }
}

/// Waking an index any positive number of times leaves the record exactly as
/// one wake does: the worker sees the same flags either way.
pub proof fn lemma_wakes_coalesce(s: WakerCommon, index: usize, n: nat)
    requires
        n >= 1,
    ensures
        wakes_applied(s, Seq::new(n, |k: int| index)) == wake_spec(s, index),
    decreases n,
{
    let idxs = Seq::new(n, |k: int| index);
    assert(idxs.last() == index);
    if n == 1 {
        assert(idxs.drop_last() =~= Seq::<usize>::empty());
        assert(wakes_applied(s, idxs.drop_last()) == s);
    } else {
        assert(idxs.drop_last() =~= Seq::new((n - 1) as nat, |k: int| index));
        lemma_wakes_coalesce(s, index, (n - 1) as nat);
        assert(wakes_applied(s, idxs.drop_last()) == wake_spec(s, index));
        lemma_wake_idempotent(s, index);
    }
}

/// What the worker observes at its next read-and-reset is a superset of the
/// wakes delivered since the previous one: for every slot wake in the
/// sequence its bit is set, and for every admission wake the flag is raised.
pub proof fn lemma_wakes_superset(s: WakerCommon, idxs: Seq<usize>, k: int)
    requires
        0 <= k < idxs.len(),
    ensures
        idxs[k] < FLAGS ==> bit_set(wakes_applied(s, idxs).ready_flags, idxs[k]),
        idxs[k] >= FLAGS ==> wakes_applied(s, idxs).task_rx_flag,
    decreases idxs.len(),
{
    let prev = wakes_applied(s, idxs.drop_last());
    if k == idxs.len() - 1 {
        lemma_wake_sets_bit(prev, idxs.last());
    } else {
        lemma_wakes_superset(s, idxs.drop_last(), k);
        lemma_wake_monotone(prev, idxs.last(), idxs[k]);
    }
}

} // verus!
