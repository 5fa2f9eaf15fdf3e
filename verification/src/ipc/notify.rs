//! Word notifications: a 64-bit bitmap per object. Signalling ORs bits in and
//! hands matching bits to waiters; waiting takes (and clears) the bits of a
//! mask, or registers the thread as a waiter.
use vstd::prelude::*;

use crate::ids::{NotificationId, ProcessId, ThreadId};
use super::{IpcError, MAX_THREADS};

verus! {

/// Notification table size.
pub const MAX_NOTIFICATIONS: usize = 64;
/// Waiters one notification holds.
pub const MAX_WAITERS_PER_NOTIFICATION: usize = 8;

/// A thread waiting on a notification for the bits of `mask`.
#[derive(Debug, Clone, Copy, PartialEq, Eq, Structural)]
pub struct Waiter {
    pub tid: ThreadId,
    pub mask: u64,
}

/// A waiter record for `tid` and `mask`.
pub fn waiter_new(tid: ThreadId, mask: u64) -> (w: Waiter)
    ensures
        w == (Waiter { tid, mask }),
{
    Waiter { tid, mask }
}

/// A notification object: its bit word and its waiter slots.
pub struct NotificationObject {
    pub id: NotificationId,
    pub word: u64,
    pub creator: ProcessId,
    pub waiters: Vec<Option<Waiter>>,
}

/// The word after the signal scan has passed the first `n` waiter slots:
/// each waiter whose mask meets the word takes (clears) the bits it matched.
pub open spec fn scan_word(word: u64, ws: Seq<Option<Waiter>>, n: int) -> u64
    decreases n,
{
    if n <= 0 {
        word
    } else {
        let w = scan_word(word, ws, n - 1);
        match ws[n - 1] {
            Some(wt) => if w & wt.mask != 0 { w & !(w & wt.mask) } else { w },
            None => w,
        }
    }
}

/// True when the waiter in slot `i` is served by the scan.
pub open spec fn scan_hits(word: u64, ws: Seq<Option<Waiter>>, i: int) -> bool {
    ws[i] matches Some(wt) && scan_word(word, ws, i) & wt.mask != 0
}

/// The `(thread, matched bits)` pairs served among the first `n` slots, in
/// slot order.
pub open spec fn scan_woken(word: u64, ws: Seq<Option<Waiter>>, n: int) -> Seq<(ThreadId, u64)>
    decreases n,
{
    if n <= 0 {
        Seq::empty()
    } else {
        let rest = scan_woken(word, ws, n - 1);
        if scan_hits(word, ws, n - 1) {
            let wt = ws[n - 1]->Some_0;
            rest.push((wt.tid, scan_word(word, ws, n - 1) & wt.mask))
        } else {
            rest
        }
    }
}

/// Per-thread result slots after storing each served `(thread, bits)` pair in
/// order (a later pair for the same thread wins).
pub open spec fn stored_results(results: Seq<Option<u64>>, woken: Seq<(ThreadId, u64)>) -> Seq<Option<u64>>
    decreases woken.len(),
{
    if woken.len() == 0 {
        results
    } else {
        let last = woken.last();
        stored_results(results, woken.drop_last()).update(last.0.0 as int, Some(last.1))
    }
}

/// The deadline of a wait of `timeout_ticks` starting at `now`; `u64::MAX`
/// waits forever and the sum saturates.
pub open spec fn wait_deadline(now: u64, timeout_ticks: u64) -> u64 {
    if timeout_ticks == u64::MAX {
        u64::MAX
    } else if now + timeout_ticks > u64::MAX {
        u64::MAX
    } else {
        (now + timeout_ticks) as u64
    }
}

/// The deadline of a wait of `timeout_ticks` starting at `now`.
pub fn compute_wait_deadline(now: u64, timeout_ticks: u64) -> (d: u64)
    ensures
        d == wait_deadline(now, timeout_ticks),
{
    if timeout_ticks == u64::MAX {
        u64::MAX
    } else {
        now.saturating_add(timeout_ticks)
    }
}

/// What a wait found.
#[derive(Debug, Clone, Copy, PartialEq, Eq, Structural)]
pub enum WaitOutcome {
    /// Matching bits were set; they have been taken.
    Ready(u64),
    /// The thread is registered as a waiter and must block.
    Blocked,
}

/// The notification table with the per-thread result and deadline slots.
pub struct NotificationTable {
    pub slots: Vec<Option<NotificationObject>>,
    /// Bits handed to a woken waiter, by thread.
    pub results: Vec<Option<u64>>,
    /// Notification/select wait deadline, by thread (`u64::MAX`: none).
    pub deadlines: Vec<u64>,
}

/// Waiter slots that name only real threads.
pub open spec fn waiters_wf(ws: Seq<Option<Waiter>>) -> bool {
    &&& ws.len() == MAX_WAITERS_PER_NOTIFICATION
    &&& forall|i: int| 0 <= i < ws.len() ==> (#[trigger] ws[i] matches Some(w) ==> (w.tid.0 as int) < MAX_THREADS)
}

/// True when slot `o` holds a waiter of thread `tid`.
pub open spec fn waiter_of(o: Option<Waiter>, tid: ThreadId) -> bool {
    o matches Some(w) && w.tid == tid
}

/// Index of the first waiter of `tid` at or after slot `i`; `-1` if none.
pub open spec fn find_waiter(ws: Seq<Option<Waiter>>, tid: ThreadId, i: int) -> int
    decreases ws.len() - i,
{
    if i < 0 || i >= ws.len() {
        -1
    } else if waiter_of(ws[i], tid) {
        i
    } else {
        find_waiter(ws, tid, i + 1)
    }
}

/// `ws` with the first waiter of thread `tid` removed.
pub open spec fn without_waiter(ws: Seq<Option<Waiter>>, tid: ThreadId) -> Seq<Option<Waiter>> {
    let k = find_waiter(ws, tid, 0);
    if k >= 0 { ws.update(k, None) } else { ws }
}

/// Index of the first free waiter slot at or after `i`; `-1` if none.
pub open spec fn find_free(ws: Seq<Option<Waiter>>, i: int) -> int
    decreases ws.len() - i,
{
    if i < 0 || i >= ws.len() {
        -1
    } else if ws[i] is None {
        i
    } else {
        find_free(ws, i + 1)
    }
}

/// Remove the first waiter of `tid` from `ws`.
fn remove_waiter(ws: &mut Vec<Option<Waiter>>, tid: ThreadId)
    ensures
        final(ws)@ == without_waiter(old(ws)@, tid),
{
    let mut i: usize = 0;
    while i < ws.len()
        invariant
            i <= ws@.len(),
            ws@ == old(ws)@,
            find_waiter(ws@, tid, 0) == find_waiter(ws@, tid, i as int),
        decreases ws@.len() - i,
    {
        match ws[i] {
            Some(w) => {
                if w.tid == tid {
                    ws.set(i, None);
                    return;
                }
            },
            None => {},
        }
        i = i + 1;
    }
}

/// The threads of the occupied waiter slots among the first `n`, in order.
pub open spec fn waiter_threads(ws: Seq<Option<Waiter>>, n: int) -> Seq<ThreadId>
    decreases n,
{
    if n <= 0 {
        Seq::empty()
    } else {
        let rest = waiter_threads(ws, n - 1);
        match ws[n - 1] {
            Some(w) => rest.push(w.tid),
            None => rest,
        }
    }
}

proof fn lemma_find_waiter_bound(ws: Seq<Option<Waiter>>, tid: ThreadId, i: int)
    requires
        i >= 0,
    ensures
        find_waiter(ws, tid, i) < ws.len(),
        find_waiter(ws, tid, i) >= 0 ==> waiter_of(ws[find_waiter(ws, tid, i)], tid),
    decreases ws.len() - i,
{
    if i < ws.len() && !waiter_of(ws[i], tid) {
        lemma_find_waiter_bound(ws, tid, i + 1);
    }
}

impl NotificationTable {
    pub open spec fn wf(&self) -> bool {
        &&& self.slots@.len() == MAX_NOTIFICATIONS
        &&& self.results@.len() == MAX_THREADS
        &&& self.deadlines@.len() == MAX_THREADS
        &&& forall|i: int| 0 <= i < MAX_NOTIFICATIONS ==> (#[trigger] self.slots@[i] matches Some(n) ==> {
            &&& waiters_wf(n.waiters@)
            &&& n.id.0 == i
        })
    }

    /// Record `deadline` as thread `tid`'s wait deadline.
    pub fn set_thread_deadline(&mut self, tid: ThreadId, deadline: u64)
        requires
            old(self).wf(),
            (tid.0 as int) < MAX_THREADS,
        ensures
            final(self).wf(),
            final(self).slots@ == old(self).slots@,
            final(self).results@ == old(self).results@,
            final(self).deadlines@ == old(self).deadlines@.update(tid.0 as int, deadline),
    {
        self.deadlines.set(tid.0 as usize, deadline);
    }

    /// Record the deadline of thread `tid`'s select wait (the same slot as
    /// a notification wait's).
    pub fn set_select_deadline(&mut self, tid: ThreadId, deadline: u64)
        requires
            old(self).wf(),
            (tid.0 as int) < MAX_THREADS,
        ensures
            final(self).wf(),
            final(self).slots@ == old(self).slots@,
            final(self).results@ == old(self).results@,
            final(self).deadlines@ == old(self).deadlines@.update(tid.0 as int, deadline),
    {
        self.set_thread_deadline(tid, deadline);
    }

    /// An empty table: no objects, no results, no deadlines.
    pub fn new() -> (t: NotificationTable)
        ensures
            t.wf(),
            forall|i: int| 0 <= i < MAX_NOTIFICATIONS ==> t.slots@[i] is None,
            forall|i: int| 0 <= i < MAX_THREADS ==> t.results@[i] is None,
            forall|i: int| 0 <= i < MAX_THREADS ==> t.deadlines@[i] == u64::MAX,
    {
        let mut slots: Vec<Option<NotificationObject>> = Vec::new();
        let mut i: usize = 0;
        while i < MAX_NOTIFICATIONS
            invariant
                i <= MAX_NOTIFICATIONS,
                slots@.len() == i,
                forall|j: int| 0 <= j < i ==> slots@[j] is None,
            decreases MAX_NOTIFICATIONS - i,
        {
            slots.push(None);
            i = i + 1;
        }
        let mut results: Vec<Option<u64>> = Vec::new();
        let mut deadlines: Vec<u64> = Vec::new();
        let mut k: usize = 0;
        while k < MAX_THREADS
            invariant
                k <= MAX_THREADS,
                results@.len() == k,
                deadlines@.len() == k,
                forall|j: int| 0 <= j < k ==> results@[j] is None,
                forall|j: int| 0 <= j < k ==> deadlines@[j] == u64::MAX,
            decreases MAX_THREADS - k,
        {
            results.push(None);
            deadlines.push(u64::MAX);
            k = k + 1;
        }
        NotificationTable { slots, results, deadlines }
    }

    /// Create a notification owned by `pid` in the first free slot; `Enomem`
    /// when the table is full.
    pub fn notification_create(&mut self, pid: ProcessId) -> (r: Result<NotificationId, IpcError>)
        requires
            old(self).wf(),
        ensures
            final(self).wf(),
            final(self).results@ == old(self).results@,
            final(self).deadlines@ == old(self).deadlines@,
            (forall|i: int| 0 <= i < MAX_NOTIFICATIONS ==> old(self).slots@[i] is Some) <==> r is Err,
            r is Err ==> r == Err::<NotificationId, IpcError>(IpcError::Enomem) && final(self).slots@ == old(self).slots@,
            r matches Ok(id) ==> {
                &&& (id.0 as int) < MAX_NOTIFICATIONS
                &&& old(self).slots@[id.0 as int] is None
                &&& forall|j: int| 0 <= j < id.0 ==> old(self).slots@[j] is Some
                &&& final(self).slots@[id.0 as int] matches Some(n) && n.id == id && n.word == 0
                    && n.creator == pid && forall|k: int| 0 <= k < n.waiters@.len() ==> n.waiters@[k] is None
                &&& forall|j: int| 0 <= j < MAX_NOTIFICATIONS && j != id.0 ==> final(self).slots@[j] == old(self).slots@[j]
            },
    {
        let mut i: usize = 0;
        while i < MAX_NOTIFICATIONS
            invariant
                i <= MAX_NOTIFICATIONS,
                self.wf(),
                self.slots@ == old(self).slots@,
                self.results@ == old(self).results@,
                self.deadlines@ == old(self).deadlines@,
                forall|j: int| 0 <= j < i ==> self.slots@[j] is Some,
            decreases MAX_NOTIFICATIONS - i,
        {
            if self.slots[i].is_none() {
                let mut waiters: Vec<Option<Waiter>> = Vec::new();
                let mut k: usize = 0;
                while k < MAX_WAITERS_PER_NOTIFICATION
                    invariant
                        k <= MAX_WAITERS_PER_NOTIFICATION,
                        waiters@.len() == k,
                        forall|j: int| 0 <= j < k ==> waiters@[j] is None,
                    decreases MAX_WAITERS_PER_NOTIFICATION - k,
                {
                    waiters.push(None);
                    k = k + 1;
                }
                let id = NotificationId(i as u32);
                self.slots.set(i, Some(NotificationObject { id, word: 0, creator: pid, waiters }));
                return Ok(id);
            }
            i = i + 1;
        }
        Err(IpcError::Enomem)
    }

    /// Signal `id`: OR `bits` into its word, then walk the waiter slots in
    /// order; each waiter whose mask meets the current word takes the matched
    /// bits (they are cleared from the word), leaves its slot, and gets the
    /// bits in its result slot. Returns the served `(thread, bits)` pairs in
    /// slot order; an unknown or out-of-range id changes nothing.
    pub fn notification_signal(&mut self, id: NotificationId, bits: u64) -> (woken: Vec<(ThreadId, u64)>)
        requires
            old(self).wf(),
        ensures
            final(self).wf(),
            final(self).deadlines@ == old(self).deadlines@,
            forall|j: int| 0 <= j < woken@.len() ==> ((#[trigger] woken@[j]).0.0 as int) < MAX_THREADS,
            ((id.0 as int) >= MAX_NOTIFICATIONS || old(self).slots@[id.0 as int] is None) ==> {
                &&& woken@.len() == 0
                &&& final(self).slots@ == old(self).slots@
                &&& final(self).results@ == old(self).results@
            },
            (id.0 as int) < MAX_NOTIFICATIONS ==> (old(self).slots@[id.0 as int] matches Some(n) ==> {
                let w0 = n.word | bits;
                let ws = n.waiters@;
                &&& woken@ == scan_woken(w0, ws, ws.len() as int)
                &&& final(self).slots@[id.0 as int] matches Some(m)
                &&& m.id == n.id && m.creator == n.creator
                &&& m.word == scan_word(w0, ws, ws.len() as int)
                &&& m.waiters@.len() == ws.len()
                &&& forall|i: int| 0 <= i < ws.len() ==> #[trigger] m.waiters@[i] == if scan_hits(w0, ws, i) { None } else { ws[i] }
                &&& forall|j: int| 0 <= j < MAX_NOTIFICATIONS && j != id.0 ==> final(self).slots@[j] == old(self).slots@[j]
                &&& final(self).results@ == stored_results(old(self).results@, woken@)
            }),
    {
        let mut woken: Vec<(ThreadId, u64)> = Vec::new();
        if id.0 as usize >= MAX_NOTIFICATIONS {
            return woken;
        }
        let idx = id.0 as usize;
        let mut taken: Option<NotificationObject> = None;
        self.slots.set_and_swap(idx, &mut taken);
        proof {
            assert(old(self).slots@[idx as int] matches Some(x) ==> waiters_wf(x.waiters@) && x.id.0 == idx);
        }
        match taken {
            None => {
                // The slot was empty and is empty again.
                proof {
                    assert(self.slots@ =~= old(self).slots@);
                    assert(self.results@ == old(self).results@);
                    assert(self.wf());
                }
                woken
            },
            Some(mut n) => {
                let ghost ws = n.waiters@;
                let ghost w0 = n.word | bits;
                let ghost n_id = n.id;
                let ghost n_creator = n.creator;
                n.word = n.word | bits;
                let mut i: usize = 0;
                while i < MAX_WAITERS_PER_NOTIFICATION
                    invariant
                        i <= MAX_WAITERS_PER_NOTIFICATION,
                        waiters_wf(ws),
                        n.id == n_id,
                        n.creator == n_creator,
                        self.slots@ == old(self).slots@.update(idx as int, None),
                        self.results@ == old(self).results@,
                        self.deadlines@ == old(self).deadlines@,
                        n.waiters@.len() == MAX_WAITERS_PER_NOTIFICATION,
                        n.word == scan_word(w0, ws, i as int),
                        woken@ == scan_woken(w0, ws, i as int),
                        forall|j: int| 0 <= j < i ==> #[trigger] n.waiters@[j] == if scan_hits(w0, ws, j) { None } else { ws[j] },
                        forall|j: int| i <= j < MAX_WAITERS_PER_NOTIFICATION ==> #[trigger] n.waiters@[j] == ws[j],
                        forall|j: int| 0 <= j < woken@.len() ==> ((#[trigger] woken@[j]).0.0 as int) < MAX_THREADS,
                    decreases MAX_WAITERS_PER_NOTIFICATION - i,
                {
                    match n.waiters[i] {
                        Some(w) => {
                            let matched = n.word & w.mask;
                            if matched != 0 {
                                n.word = n.word & !matched;
                                woken.push((w.tid, matched));
                                n.waiters.set(i, None);
                            }
                        },
                        None => {},
                    }
                    i = i + 1;
                }
                let mut put = Some(n);
                let ghost newslot = put;
                self.slots.set_and_swap(idx, &mut put);
                let mut k: usize = 0;
                while k < woken.len()
                    invariant
                        k <= woken@.len(),
                        self.results@.len() == MAX_THREADS,
                        self.slots@ == old(self).slots@.update(idx as int, newslot),
                        self.deadlines@ == old(self).deadlines@,
                        forall|j: int| 0 <= j < woken@.len() ==> ((#[trigger] woken@[j]).0.0 as int) < MAX_THREADS,
                        self.results@ == stored_results(old(self).results@, woken@.take(k as int)),
                    decreases woken@.len() - k,
                {
                    let (tid, matched) = woken[k];
                    self.results.set(tid.0 as usize, Some(matched));
                    proof {
                        assert(woken@.take(k as int + 1).drop_last() =~= woken@.take(k as int));
                    }
                    k = k + 1;
                }
                proof {
                    assert(woken@.take(woken@.len() as int) =~= woken@);
                    assert(waiters_wf(newslot->Some_0.waiters@));
                    assert forall|j: int| 0 <= j < MAX_NOTIFICATIONS && j != idx implies self.slots@[j] == old(self).slots@[j] by {}
                    assert(self.wf());
                }
                woken
            },
        }
    }
    /// The wait of `tid` on `id` for the bits of `mask`. Matching bits that
    /// are already set are taken at once (`Ready`, cleared from the word).
    /// Otherwise the thread takes the first free waiter slot and its
    /// deadline is recorded (`Blocked`). `Einval` for an unknown or
    /// out-of-range id, `Enomem` when every waiter slot is taken.
    pub fn wait_begin(&mut self, id: NotificationId, tid: ThreadId, mask: u64, deadline: u64) -> (r: Result<WaitOutcome, IpcError>)
        requires
            old(self).wf(),
            (tid.0 as int) < MAX_THREADS,
        ensures
            final(self).wf(),
            final(self).results@ == old(self).results@,
            ((id.0 as int) >= MAX_NOTIFICATIONS || old(self).slots@[id.0 as int] is None) ==> {
                &&& r == Err::<WaitOutcome, IpcError>(IpcError::Einval)
                &&& final(self).slots@ == old(self).slots@
                &&& final(self).deadlines@ == old(self).deadlines@
            },
            (id.0 as int) < MAX_NOTIFICATIONS ==> (old(self).slots@[id.0 as int] matches Some(n) ==> {
                let matched = n.word & mask;
                let k = find_free(n.waiters@, 0);
                &&& forall|j: int| 0 <= j < MAX_NOTIFICATIONS && j != id.0 ==> final(self).slots@[j] == old(self).slots@[j]
                &&& matched != 0 ==> {
                    &&& r == Ok::<WaitOutcome, IpcError>(WaitOutcome::Ready(matched))
                    &&& final(self).slots@[id.0 as int] == Some(NotificationObject { word: n.word & !matched, ..n })
                    &&& final(self).deadlines@ == old(self).deadlines@
                }
                &&& (matched == 0 && k < 0) ==> {
                    &&& r == Err::<WaitOutcome, IpcError>(IpcError::Enomem)
                    &&& final(self).slots@ == old(self).slots@
                    &&& final(self).deadlines@ == old(self).deadlines@
                }
                &&& (matched == 0 && k >= 0) ==> {
                    &&& r == Ok::<WaitOutcome, IpcError>(WaitOutcome::Blocked)
                    &&& final(self).slots@[id.0 as int] matches Some(m)
                    &&& m.id == n.id && m.word == n.word && m.creator == n.creator
                    &&& m.waiters@ == n.waiters@.update(k, Some(Waiter { tid, mask }))
                    &&& final(self).deadlines@ == old(self).deadlines@.update(tid.0 as int, deadline)
                }
            }),
    {
        if id.0 as usize >= MAX_NOTIFICATIONS {
            return Err(IpcError::Einval);
        }
        let idx = id.0 as usize;
        let mut taken: Option<NotificationObject> = None;
        self.slots.set_and_swap(idx, &mut taken);
        proof {
            assert(old(self).slots@[idx as int] matches Some(x) ==> waiters_wf(x.waiters@) && x.id.0 == idx);
        }
        match taken {
            None => {
                proof {
                    assert(self.slots@ =~= old(self).slots@);
                }
                Err(IpcError::Einval)
            },
            Some(mut n) => {
                let ghost n0 = n;
                let matched = n.word & mask;
                if matched != 0 {
                    n.word = n.word & !matched;
                    let mut put = Some(n);
                    self.slots.set_and_swap(idx, &mut put);
                    proof {
                        assert forall|j: int| 0 <= j < MAX_NOTIFICATIONS && j != idx implies self.slots@[j] == old(self).slots@[j] by {}
                    }
                    return Ok(WaitOutcome::Ready(matched));
                }
                let mut i: usize = 0;
                while i < MAX_WAITERS_PER_NOTIFICATION
                    invariant
                        i <= MAX_WAITERS_PER_NOTIFICATION,
                        n == n0,
                        old(self).slots@[idx as int] == Some(n0),
                        n0.id.0 == idx,
                        idx == id.0,
                        n0.word & mask == 0,
                        old(self).wf(),
                        idx < MAX_NOTIFICATIONS,
                        (tid.0 as int) < MAX_THREADS,
                        waiters_wf(n.waiters@),
                        find_free(n.waiters@, 0) == find_free(n.waiters@, i as int),
                        self.slots@ == old(self).slots@.update(idx as int, None),
                        self.results@ == old(self).results@,
                        self.deadlines@ == old(self).deadlines@,
                    decreases MAX_WAITERS_PER_NOTIFICATION - i,
                {
                    if n.waiters[i].is_none() {
                        n.waiters.set(i, Some(Waiter { tid, mask }));
                        let mut put = Some(n);
                        self.slots.set_and_swap(idx, &mut put);
                        self.deadlines.set(tid.0 as usize, deadline);
                        proof {
                            assert forall|j: int| 0 <= j < MAX_NOTIFICATIONS && j != idx implies self.slots@[j] == old(self).slots@[j] by {}
                        }
                        return Ok(WaitOutcome::Blocked);
                    }
                    i = i + 1;
                }
                let mut put = Some(n);
                self.slots.set_and_swap(idx, &mut put);
                proof {
                    assert(self.slots@ =~= old(self).slots@);
                }
                Err(IpcError::Enomem)
            },
        }
    }

    /// After a blocked wait of `tid` on `id` ends: the bits a signal handed
    /// over (the result slot is cleared), or `Etimedout` when none came, in
    /// which case the thread's waiter registration is removed.
    pub fn wait_finish(&mut self, id: NotificationId, tid: ThreadId) -> (r: Result<u64, IpcError>)
        requires
            old(self).wf(),
            (tid.0 as int) < MAX_THREADS,
            (id.0 as int) < MAX_NOTIFICATIONS,
        ensures
            final(self).wf(),
            final(self).deadlines@ == old(self).deadlines@,
            final(self).results@ == old(self).results@.update(tid.0 as int, None),
            old(self).results@[tid.0 as int] matches Some(bits) ==> {
                &&& r == Ok::<u64, IpcError>(bits)
                &&& final(self).slots@ == old(self).slots@
            },
            old(self).results@[tid.0 as int] is None ==> {
                &&& r == Err::<u64, IpcError>(IpcError::Etimedout)
                &&& forall|j: int| 0 <= j < MAX_NOTIFICATIONS && j != id.0 ==> final(self).slots@[j] == old(self).slots@[j]
                &&& old(self).slots@[id.0 as int] is None ==> final(self).slots@[id.0 as int] is None
                &&& old(self).slots@[id.0 as int] matches Some(n) ==> (final(self).slots@[id.0 as int] matches Some(m)
                    && m.id == n.id && m.word == n.word && m.creator == n.creator
                    && m.waiters@ == without_waiter(n.waiters@, tid))
            },
    {
        let t = tid.0 as usize;
        let res = self.results[t];
        self.results.set(t, None);
        match res {
            Some(bits) => Ok(bits),
            None => {
                self.cleanup_waiter(id, tid);
                Err(IpcError::Etimedout)
            },
        }
    }

    /// Remove the waiter registration of `tid` from notification `id`.
    pub fn cleanup_waiter(&mut self, id: NotificationId, tid: ThreadId)
        requires
            old(self).wf(),
            (id.0 as int) < MAX_NOTIFICATIONS,
        ensures
            final(self).wf(),
            final(self).deadlines@ == old(self).deadlines@,
            final(self).results@ == old(self).results@,
            forall|j: int| 0 <= j < MAX_NOTIFICATIONS && j != id.0 ==> final(self).slots@[j] == old(self).slots@[j],
            old(self).slots@[id.0 as int] is None ==> final(self).slots@[id.0 as int] is None,
            old(self).slots@[id.0 as int] matches Some(n) ==> (final(self).slots@[id.0 as int] matches Some(m)
                && m.id == n.id && m.word == n.word && m.creator == n.creator
                && m.waiters@ == without_waiter(n.waiters@, tid)),
    {
        let idx = id.0 as usize;
        let mut taken: Option<NotificationObject> = None;
        self.slots.set_and_swap(idx, &mut taken);
        proof {
            assert(old(self).slots@[idx as int] matches Some(x) ==> waiters_wf(x.waiters@) && x.id.0 == idx);
        }
        match taken {
            None => {},
            Some(mut n) => {
                remove_waiter(&mut n.waiters, tid);
                proof {
                    let ws = old(self).slots@[idx as int]->Some_0.waiters@;
                    let k = find_waiter(ws, tid, 0);
                    assert(forall|i: int| i >= 0 ==> find_waiter(ws, tid, i) < ws.len()) by {
                        assert forall|i: int| i >= 0 implies find_waiter(ws, tid, i) < ws.len() by {
                            lemma_find_waiter_bound(ws, tid, i);
                        }
                    }
                    assert(waiters_wf(n.waiters@));
                }
                let mut put = Some(n);
                self.slots.set_and_swap(idx, &mut put);
            },
        }
        proof {
            assert forall|j: int| 0 <= j < MAX_NOTIFICATIONS && j != idx implies self.slots@[j] == old(self).slots@[j] by {}
        }
    }

    /// Destroy `id`: the object leaves the table and the threads that were
    /// waiting on it are returned in slot order (they wake with no result,
    /// which their wait reports as a timeout). Nothing for an unknown id.
    pub fn notification_destroy(&mut self, id: NotificationId) -> (woken: Vec<ThreadId>)
        requires
            old(self).wf(),
        ensures
            final(self).wf(),
            final(self).deadlines@ == old(self).deadlines@,
            final(self).results@ == old(self).results@,
            ((id.0 as int) >= MAX_NOTIFICATIONS || old(self).slots@[id.0 as int] is None) ==> {
                &&& woken@.len() == 0
                &&& final(self).slots@ == old(self).slots@
            },
            (id.0 as int) < MAX_NOTIFICATIONS ==> (old(self).slots@[id.0 as int] matches Some(n) ==> {
                &&& woken@ == waiter_threads(n.waiters@, n.waiters@.len() as int)
                &&& final(self).slots@ == old(self).slots@.update(id.0 as int, None)
            }),
    {
        let mut woken: Vec<ThreadId> = Vec::new();
        if id.0 as usize >= MAX_NOTIFICATIONS {
            return woken;
        }
        let idx = id.0 as usize;
        let mut taken: Option<NotificationObject> = None;
        self.slots.set_and_swap(idx, &mut taken);
        proof {
            assert(old(self).slots@[idx as int] matches Some(x) ==> waiters_wf(x.waiters@) && x.id.0 == idx);
            assert forall|j: int| 0 <= j < MAX_NOTIFICATIONS && j != idx implies self.slots@[j] == old(self).slots@[j] by {}
        }
        match taken {
            None => {
                proof {
                    assert(self.slots@ =~= old(self).slots@);
                }
                woken
            },
            Some(n) => {
                let mut i: usize = 0;
                while i < MAX_WAITERS_PER_NOTIFICATION
                    invariant
                        i <= MAX_WAITERS_PER_NOTIFICATION,
                        waiters_wf(n.waiters@),
                        woken@ == waiter_threads(n.waiters@, i as int),
                    decreases MAX_WAITERS_PER_NOTIFICATION - i,
                {
                    match n.waiters[i] {
                        Some(w) => woken.push(w.tid),
                        None => {},
                    }
                    i = i + 1;
                }
                woken
            },
        }
    }
    /// Take the bits of `mask` set in notification `id` (they are cleared);
    /// `0` when none are set or the object is missing.
    pub fn take_matching(&mut self, id: NotificationId, mask: u64) -> (bits: u64)
        requires
            old(self).wf(),
            (id.0 as int) < MAX_NOTIFICATIONS,
        ensures
            final(self).wf(),
            final(self).results@ == old(self).results@,
            final(self).deadlines@ == old(self).deadlines@,
            old(self).slots@[id.0 as int] is None ==> bits == 0 && final(self).slots@ == old(self).slots@,
            old(self).slots@[id.0 as int] matches Some(n) ==> {
                &&& bits == n.word & mask
                &&& bits == 0 ==> final(self).slots@ == old(self).slots@
                &&& bits != 0 ==> final(self).slots@ == old(self).slots@.update(
                    id.0 as int,
                    Some(NotificationObject { word: n.word & !bits, ..n }),
                )
            },
    {
        let idx = id.0 as usize;
        let mut taken: Option<NotificationObject> = None;
        self.slots.set_and_swap(idx, &mut taken);
        proof {
            assert(old(self).slots@[idx as int] matches Some(x) ==> waiters_wf(x.waiters@) && x.id.0 == idx);
        }
        match taken {
            None => {
                proof {
                    assert(self.slots@ =~= old(self).slots@);
                }
                0
            },
            Some(mut n) => {
                let bits = n.word & mask;
                if bits != 0 {
                    n.word = n.word & !bits;
                }
                let mut put = Some(n);
                self.slots.set_and_swap(idx, &mut put);
                proof {
                    assert forall|j: int| 0 <= j < MAX_NOTIFICATIONS && j != idx implies self.slots@[j] == old(self).slots@[j] by {}
                    if bits == 0 {
                        assert(self.slots@ =~= old(self).slots@);
                    }
                }
                bits
            },
        }
    }
    /// Register `tid` with `mask` in the first free waiter slot of `id`, if
    /// the object exists and has one (a select registration; nothing else
    /// changes).
    pub fn add_waiter(&mut self, id: NotificationId, tid: ThreadId, mask: u64)
        requires
            old(self).wf(),
            (id.0 as int) < MAX_NOTIFICATIONS,
            (tid.0 as int) < MAX_THREADS,
        ensures
            final(self).wf(),
            final(self).results@ == old(self).results@,
            final(self).deadlines@ == old(self).deadlines@,
            forall|j: int| 0 <= j < MAX_NOTIFICATIONS && j != id.0 ==> final(self).slots@[j] == old(self).slots@[j],
            old(self).slots@[id.0 as int] is None ==> final(self).slots@ == old(self).slots@,
            old(self).slots@[id.0 as int] matches Some(n) ==> {
                let k = find_free(n.waiters@, 0);
                &&& k < 0 ==> final(self).slots@ == old(self).slots@
                &&& k >= 0 ==> (final(self).slots@[id.0 as int] matches Some(m) && m.id == n.id && m.word == n.word
                    && m.creator == n.creator && m.waiters@ == n.waiters@.update(k, Some(Waiter { tid, mask })))
            },
    {
        let idx = id.0 as usize;
        let mut taken: Option<NotificationObject> = None;
        self.slots.set_and_swap(idx, &mut taken);
        proof {
            assert(old(self).slots@[idx as int] matches Some(x) ==> waiters_wf(x.waiters@) && x.id.0 == idx);
        }
        match taken {
            None => {
                proof {
                    assert(self.slots@ =~= old(self).slots@);
                }
            },
            Some(mut n) => {
                let ghost n0 = n;
                let mut i: usize = 0;
                while i < MAX_WAITERS_PER_NOTIFICATION
                    invariant
                        i <= MAX_WAITERS_PER_NOTIFICATION,
                        n == n0,
                        old(self).slots@[idx as int] == Some(n0),
                        n0.id.0 == idx,
                        idx == id.0,
                        idx < MAX_NOTIFICATIONS,
                        (tid.0 as int) < MAX_THREADS,
                        old(self).wf(),
                        waiters_wf(n.waiters@),
                        find_free(n.waiters@, 0) == find_free(n.waiters@, i as int),
                        self.slots@ == old(self).slots@.update(idx as int, None),
                        self.results@ == old(self).results@,
                        self.deadlines@ == old(self).deadlines@,
                    decreases MAX_WAITERS_PER_NOTIFICATION - i,
                {
                    if n.waiters[i].is_none() {
                        n.waiters.set(i, Some(Waiter { tid, mask }));
                        let mut put = Some(n);
                        self.slots.set_and_swap(idx, &mut put);
                        proof {
                            assert forall|j: int| 0 <= j < MAX_NOTIFICATIONS && j != idx implies self.slots@[j] == old(self).slots@[j] by {}
                        }
                        return;
                    }
                    i = i + 1;
                }
                let mut put = Some(n);
                self.slots.set_and_swap(idx, &mut put);
                proof {
                    assert(self.slots@ =~= old(self).slots@);
                }
            },
        }
    }
}

} // verus!
