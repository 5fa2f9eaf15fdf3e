//! Select: one thread waiting on several channels and notifications at once.
//! This file holds the per-thread select registrations and their wake rules;
//! the scan and registration across the tables are in `ops`.
use vstd::prelude::*;

use crate::ids::{ChannelId, NotificationId, ThreadId};
use crate::task::ThreadState;
use super::notify::MAX_NOTIFICATIONS;
use super::{IpcError, MAX_CHANNELS, MAX_THREADS};

verus! {

/// Sources one select may wait on.
pub const MAX_SELECT_ENTRIES: usize = 8;

/// A select source: a channel, or a notification with a bit mask.
#[derive(Debug, Clone, Copy, PartialEq, Eq, Structural)]
pub enum SelectKind {
    Channel(ChannelId),
    Notification(NotificationId, u64),
}

/// One entry of a select set.
#[derive(Debug, Clone, Copy, PartialEq, Eq, Structural)]
pub struct SelectEntry {
    pub kind: SelectKind,
}

/// True when `entry` names the same source as `source` (channels by id,
/// notifications by id whatever the masks).
pub open spec fn same_source(entry: SelectKind, source: SelectKind) -> bool {
    match (entry, source) {
        (SelectKind::Channel(a), SelectKind::Channel(b)) => a.0 == b.0,
        (SelectKind::Notification(a, _), SelectKind::Notification(b, _)) => a.0 == b.0,
        _ => false,
    }
}

/// True when `entry` names the same source as `source`.
pub fn is_same_source(entry: SelectKind, source: SelectKind) -> (b: bool)
    ensures
        b == same_source(entry, source),
{
    match (entry, source) {
        (SelectKind::Channel(a), SelectKind::Channel(b)) => a.0 == b.0,
        (SelectKind::Notification(a, _), SelectKind::Notification(b, _)) => a.0 == b.0,
        _ => false,
    }
}

/// Index of the first entry at or after `i` naming `source`; `-1` if none.
pub open spec fn first_match(entries: Seq<SelectEntry>, source: SelectKind, i: int) -> int
    decreases entries.len() - i,
{
    if i < 0 || i >= entries.len() {
        -1
    } else if same_source(entries[i].kind, source) {
        i
    } else {
        first_match(entries, source, i + 1)
    }
}

/// True when every id in the entry is inside its table.
pub open spec fn entry_in_range(e: SelectEntry) -> bool {
    match e.kind {
        SelectKind::Channel(c) => (c.0 as int) < MAX_CHANNELS,
        SelectKind::Notification(n, _) => (n.0 as int) < MAX_NOTIFICATIONS,
    }
}

/// A select set is accepted when it has between one and
/// `MAX_SELECT_ENTRIES` entries and every id is in range.
pub open spec fn select_set_valid(entries: Seq<SelectEntry>) -> bool {
    &&& 0 < entries.len() <= MAX_SELECT_ENTRIES
    &&& forall|i: int| 0 <= i < entries.len() ==> entry_in_range(#[trigger] entries[i])
}

/// Check a select set: `Einval` unless it is accepted.
pub fn validate_select(entries: &[SelectEntry]) -> (r: Result<(), IpcError>)
    ensures
        r is Ok <==> select_set_valid(entries@),
        r is Err ==> r == Err::<(), IpcError>(IpcError::Einval),
{
    if entries.len() == 0 || entries.len() > MAX_SELECT_ENTRIES {
        return Err(IpcError::Einval);
    }
    let mut i: usize = 0;
    while i < entries.len()
        invariant
            i <= entries@.len(),
            forall|j: int| 0 <= j < i ==> entry_in_range(#[trigger] entries@[j]),
        decreases entries@.len() - i,
    {
        let ok = match entries[i].kind {
            SelectKind::Channel(c) => (c.0 as usize) < MAX_CHANNELS,
            SelectKind::Notification(n, _) => (n.0 as usize) < MAX_NOTIFICATIONS,
        };
        if !ok {
            return Err(IpcError::Einval);
        }
        i = i + 1;
    }
    Ok(())
}

/// A thread blocked in select: what it waits on and, once woken by a source,
/// which entry fired and with which bits.
pub struct SelectWaiter {
    pub tid: ThreadId,
    pub entries: Vec<SelectEntry>,
    pub ready_index: Option<usize>,
    pub ready_bits: u64,
}

/// Select registrations, by thread.
pub struct SelectTable {
    pub waiters: Vec<Option<SelectWaiter>>,
}

impl SelectTable {
    pub open spec fn wf(&self) -> bool {
        self.waiters@.len() == MAX_THREADS
    }

    /// No registrations.
    pub fn new() -> (t: SelectTable)
        ensures
            t.wf(),
            forall|i: int| 0 <= i < MAX_THREADS ==> t.waiters@[i] is None,
    {
        let mut waiters: Vec<Option<SelectWaiter>> = Vec::new();
        let mut i: usize = 0;
        while i < MAX_THREADS
            invariant
                i <= MAX_THREADS,
                waiters@.len() == i,
                forall|j: int| 0 <= j < i ==> waiters@[j] is None,
            decreases MAX_THREADS - i,
        {
            waiters.push(None);
            i = i + 1;
        }
        SelectTable { waiters }
    }

    /// Register `tid` as blocked in select on `entries`, nothing fired yet.
    pub fn register(&mut self, tid: ThreadId, entries: &[SelectEntry])
        requires
            old(self).wf(),
            (tid.0 as int) < MAX_THREADS,
        ensures
            final(self).wf(),
            final(self).waiters@.len() == old(self).waiters@.len(),
            forall|j: int| 0 <= j < MAX_THREADS && j != tid.0 ==> final(self).waiters@[j] == old(self).waiters@[j],
            final(self).waiters@[tid.0 as int] matches Some(sw) && sw.tid == tid && sw.entries@ == entries@
                && sw.ready_index is None && sw.ready_bits == 0,
    {
        let mut v: Vec<SelectEntry> = Vec::new();
        let mut i: usize = 0;
        while i < entries.len()
            invariant
                i <= entries@.len(),
                v@ == entries@.take(i as int),
            decreases entries@.len() - i,
        {
            v.push(entries[i]);
            proof {
                assert(entries@.take(i as int + 1) =~= entries@.take(i as int).push(entries@[i as int]));
            }
            i = i + 1;
        }
        proof {
            assert(entries@.take(entries@.len() as int) =~= entries@);
        }
        let mut slot = Some(SelectWaiter { tid, entries: v, ready_index: None, ready_bits: 0 });
        self.waiters.set_and_swap(tid.0 as usize, &mut slot);
    }

    /// Take the registration of `tid`: the fired entry and its bits, if a
    /// source fired; the slot becomes empty.
    pub fn take_result(&mut self, tid: ThreadId) -> (r: (Option<usize>, u64))
        requires
            old(self).wf(),
            (tid.0 as int) < MAX_THREADS,
        ensures
            final(self).wf(),
            final(self).waiters@ == old(self).waiters@.update(tid.0 as int, None),
            old(self).waiters@[tid.0 as int] matches Some(sw) ==> r == (sw.ready_index, sw.ready_bits),
            old(self).waiters@[tid.0 as int] is None ==> r == (None::<usize>, 0u64),
    {
        let mut slot: Option<SelectWaiter> = None;
        self.waiters.set_and_swap(tid.0 as usize, &mut slot);
        match slot {
            Some(sw) => (sw.ready_index, sw.ready_bits),
            None => (None, 0),
        }
    }

    /// Drop the registration of `tid` (its select timed out).
    pub fn clear(&mut self, tid: ThreadId)
        requires
            old(self).wf(),
            (tid.0 as int) < MAX_THREADS,
        ensures
            final(self).wf(),
            final(self).waiters@ == old(self).waiters@.update(tid.0 as int, None),
    {
        let mut slot: Option<SelectWaiter> = None;
        self.waiters.set_and_swap(tid.0 as usize, &mut slot);
    }

    /// Mark the first entry of `tid`'s select set that names `source` as
    /// fired with `bits`. Returns whether such an entry exists (nothing
    /// changes when it does not, or when `tid` has no registration).
    pub fn set_select_ready(&mut self, tid: ThreadId, source: SelectKind, bits: u64) -> (hit: bool)
        requires
            old(self).wf(),
            (tid.0 as int) < MAX_THREADS,
        ensures
            final(self).wf(),
            old(self).waiters@[tid.0 as int] is None ==> !hit && final(self).waiters@ == old(self).waiters@,
            old(self).waiters@[tid.0 as int] matches Some(sw) ==> {
                let k = first_match(sw.entries@, source, 0);
                &&& hit == (k >= 0)
                &&& k < 0 ==> final(self).waiters@ == old(self).waiters@
                &&& k >= 0 ==> final(self).waiters@ == old(self).waiters@.update(
                    tid.0 as int,
                    Some(SelectWaiter { ready_index: Some(k as usize), ready_bits: bits, ..sw }),
                )
            },
    {
        let t = tid.0 as usize;
        let mut slot: Option<SelectWaiter> = None;
        self.waiters.set_and_swap(t, &mut slot);
        match slot {
            None => {
                proof {
                    assert(self.waiters@ =~= old(self).waiters@);
                }
                false
            },
            Some(mut sw) => {
                let ghost sw0 = sw;
                let mut i: usize = 0;
                while i < sw.entries.len()
                    invariant
                        sw == sw0,
                        old(self).wf(),
                        t == tid.0,
                        t < MAX_THREADS,
                        old(self).waiters@[t as int] == Some(sw0),
                        self.waiters@ == old(self).waiters@.update(t as int, None),
                        i <= sw.entries@.len(),
                        first_match(sw.entries@, source, 0) == first_match(sw.entries@, source, i as int),
                    decreases sw.entries@.len() - i,
                {
                    if is_same_source(sw.entries[i].kind, source) {
                        sw.ready_index = Some(i);
                        sw.ready_bits = bits;
                        let mut put = Some(sw);
                        self.waiters.set_and_swap(t, &mut put);
                        proof {
                            assert(self.waiters@ =~= old(self).waiters@.update(
                                tid.0 as int,
                                Some(SelectWaiter { ready_index: Some(i), ready_bits: bits, ..sw0 }),
                            ));
                        }
                        return true;
                    }
                    i = i + 1;
                }
                let mut put = Some(sw);
                self.waiters.set_and_swap(t, &mut put);
                proof {
                    assert(self.waiters@ =~= old(self).waiters@);
                }
                false
            },
        }
    }

    /// Wake rule for a source firing toward `tid` whose scheduler state is
    /// `state`: only a thread blocked in select with an entry naming `source`
    /// is select-woken (that entry is marked fired with `bits`; the caller
    /// unblocks the thread). Returns whether it was.
    pub fn try_wake_select(&mut self, tid: ThreadId, state: ThreadState, source: SelectKind, bits: u64) -> (woken: bool)
        requires
            old(self).wf(),
            (tid.0 as int) < MAX_THREADS,
        ensures
            final(self).wf(),
            state != ThreadState::BlockedSelect ==> !woken && final(self).waiters@ == old(self).waiters@,
            state == ThreadState::BlockedSelect ==> {
                &&& old(self).waiters@[tid.0 as int] is None ==> !woken && final(self).waiters@ == old(self).waiters@
                &&& old(self).waiters@[tid.0 as int] matches Some(sw) ==> {
                    let k = first_match(sw.entries@, source, 0);
                    &&& woken == (k >= 0)
                    &&& k < 0 ==> final(self).waiters@ == old(self).waiters@
                    &&& k >= 0 ==> final(self).waiters@ == old(self).waiters@.update(
                        tid.0 as int,
                        Some(SelectWaiter { ready_index: Some(k as usize), ready_bits: bits, ..sw }),
                    )
                }
            },
    {
        match state {
            ThreadState::BlockedSelect => self.set_select_ready(tid, source, bits),
            _ => false,
        }
    }
}

} // verus!
