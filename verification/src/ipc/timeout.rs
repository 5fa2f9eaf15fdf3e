//! IPC timeouts and per-thread wakeup errors.
//!
//! A thread blocked in IPC may have a deadline in the timeout queue (one slot
//! per thread). The timer tick expires every deadline that has passed, and a
//! woken thread reads (and clears) the error it was woken with.
use vstd::prelude::*;

use crate::ids::ThreadId;
use super::MAX_THREADS;

verus! {

/// A thread's IPC deadline and the error it is woken with when it passes.
#[derive(Debug, Clone, Copy, PartialEq, Eq, Structural)]
pub struct TimeoutEntry {
    pub tid: ThreadId,
    pub wake_at_tick: u64,
    pub error_code: i64,
}

/// True when `e` is a deadline that has passed at tick `now`.
pub open spec fn is_expired(e: Option<TimeoutEntry>, now: u64) -> bool {
    e matches Some(t) && now >= t.wake_at_tick
}

/// The `(thread, error)` pairs of the expired entries among the first `n`
/// slots, in slot order.
pub open spec fn expired_prefix(q: Seq<Option<TimeoutEntry>>, now: u64, n: int) -> Seq<(ThreadId, i64)>
    decreases n,
{
    if n <= 0 {
        Seq::empty()
    } else {
        let rest = expired_prefix(q, now, n - 1);
        if is_expired(q[n - 1], now) {
            rest.push((q[n - 1]->Some_0.tid, q[n - 1]->Some_0.error_code))
        } else {
            rest
        }
    }
}

/// Timeout queue and wakeup-error slots, both indexed by thread id.
pub struct TimeoutTable {
    pub queue: Vec<Option<TimeoutEntry>>,
    pub wakeup_errors: Vec<i64>,
}

impl TimeoutTable {
    /// One slot per thread; an entry sits in the slot of its own thread.
    pub open spec fn wf(&self) -> bool {
        &&& self.queue@.len() == MAX_THREADS
        &&& self.wakeup_errors@.len() == MAX_THREADS
        &&& forall|i: int| 0 <= i < MAX_THREADS ==> (#[trigger] self.queue@[i] matches Some(e) ==> e.tid.0 == i)
    }

    /// No deadlines and no pending errors.
    pub fn new() -> (t: TimeoutTable)
        ensures
            t.wf(),
            forall|i: int| 0 <= i < MAX_THREADS ==> t.queue@[i] is None,
            forall|i: int| 0 <= i < MAX_THREADS ==> t.wakeup_errors@[i] == 0,
    {
        let mut queue: Vec<Option<TimeoutEntry>> = Vec::new();
        let mut wakeup_errors: Vec<i64> = Vec::new();
        let mut i: usize = 0;
        while i < MAX_THREADS
            invariant
                i <= MAX_THREADS,
                queue@.len() == i,
                wakeup_errors@.len() == i,
                forall|j: int| 0 <= j < i ==> queue@[j] is None,
                forall|j: int| 0 <= j < i ==> wakeup_errors@[j] == 0,
            decreases MAX_THREADS - i,
        {
            queue.push(None);
            wakeup_errors.push(0);
            i = i + 1;
        }
        TimeoutTable { queue, wakeup_errors }
    }

    /// Record a deadline for `tid`: woken with `error_code` once the tick
    /// reaches `wake_at_tick`. Replaces any earlier deadline of the thread.
    pub fn set_timeout(&mut self, tid: ThreadId, wake_at_tick: u64, error_code: i64)
        requires
            old(self).wf(),
            (tid.0 as int) < MAX_THREADS,
        ensures
            final(self).wf(),
            final(self).queue@ == old(self).queue@.update(
                tid.0 as int,
                Some(TimeoutEntry { tid, wake_at_tick, error_code }),
            ),
            final(self).wakeup_errors@ == old(self).wakeup_errors@,
    {
        self.queue.set(tid.0 as usize, Some(TimeoutEntry { tid, wake_at_tick, error_code }));
    }

    /// Drop any pending deadline of `tid` (it was woken another way).
    pub fn clear_timeout(&mut self, tid: ThreadId)
        requires
            old(self).wf(),
            (tid.0 as int) < MAX_THREADS,
        ensures
            final(self).wf(),
            final(self).queue@ == old(self).queue@.update(tid.0 as int, None),
            final(self).wakeup_errors@ == old(self).wakeup_errors@,
    {
        self.queue.set(tid.0 as usize, None);
    }

    /// Record that `tid` is woken with `error` and drop its deadline.
    /// (Unblocking the thread is the scheduler's part.)
    pub fn wake_with_error(&mut self, tid: ThreadId, error: i64)
        requires
            old(self).wf(),
            (tid.0 as int) < MAX_THREADS,
        ensures
            final(self).wf(),
            final(self).wakeup_errors@ == old(self).wakeup_errors@.update(tid.0 as int, error),
            final(self).queue@ == old(self).queue@.update(tid.0 as int, None),
    {
        self.wakeup_errors.set(tid.0 as usize, error);
        self.clear_timeout(tid);
    }

    /// Read and clear the error `tid` was woken with; `0` for a normal wakeup.
    pub fn get_wakeup_error(&mut self, tid: ThreadId) -> (e: i64)
        requires
            old(self).wf(),
            (tid.0 as int) < MAX_THREADS,
        ensures
            final(self).wf(),
            e == old(self).wakeup_errors@[tid.0 as int],
            final(self).wakeup_errors@ == old(self).wakeup_errors@.update(tid.0 as int, 0),
            final(self).queue@ == old(self).queue@,
    {
        let e = self.wakeup_errors[tid.0 as usize];
        self.wakeup_errors.set(tid.0 as usize, 0);
        e
    }

    /// Expire every deadline that has passed at `now`: the entry leaves the
    /// queue and its thread's wakeup error becomes the entry's error code.
    /// Returns the expired `(thread, error)` pairs in slot order; the caller
    /// unblocks those threads.
    pub fn expire(&mut self, now: u64) -> (expired: Vec<(ThreadId, i64)>)
        requires
            old(self).wf(),
        ensures
            final(self).wf(),
            expired@ == expired_prefix(old(self).queue@, now, MAX_THREADS as int),
            forall|i: int| 0 <= i < MAX_THREADS ==> #[trigger] final(self).queue@[i] == if is_expired(old(self).queue@[i], now) {
                None
            } else {
                old(self).queue@[i]
            },
            forall|i: int| 0 <= i < MAX_THREADS ==> #[trigger] final(self).wakeup_errors@[i] == if is_expired(old(self).queue@[i], now) {
                old(self).queue@[i]->Some_0.error_code
            } else {
                old(self).wakeup_errors@[i]
            },
    {
        let ghost q0 = self.queue@;
        let ghost e0 = self.wakeup_errors@;
        let mut expired: Vec<(ThreadId, i64)> = Vec::new();
        let mut i: usize = 0;
        while i < MAX_THREADS
            invariant
                i <= MAX_THREADS,
                self.wf(),
                q0.len() == MAX_THREADS,
                e0.len() == MAX_THREADS,
                forall|j: int| 0 <= j < MAX_THREADS ==> (#[trigger] q0[j] matches Some(e) ==> e.tid.0 == j),
                expired@ == expired_prefix(q0, now, i as int),
                forall|j: int| i <= j < MAX_THREADS ==> #[trigger] self.queue@[j] == q0[j],
                forall|j: int| i <= j < MAX_THREADS ==> #[trigger] self.wakeup_errors@[j] == e0[j],
                forall|j: int| 0 <= j < i ==> #[trigger] self.queue@[j] == if is_expired(q0[j], now) { None } else { q0[j] },
                forall|j: int| 0 <= j < i ==> #[trigger] self.wakeup_errors@[j] == if is_expired(q0[j], now) {
                    q0[j]->Some_0.error_code
                } else {
                    e0[j]
                },
            decreases MAX_THREADS - i,
        {
            match self.queue[i] {
                Some(te) => {
                    if now >= te.wake_at_tick {
                        expired.push((te.tid, te.error_code));
                        self.queue.set(i, None);
                        self.wakeup_errors.set(i, te.error_code);
                    }
                },
                None => {},
            }
            i = i + 1;
        }
        expired
    }
}

} // verus!
