//! What the IPC and capability logic reads of the scheduler: the thread table
//! (each thread's owning process and scheduling state) and the thread running
//! on each CPU.
use vstd::prelude::*;

use crate::ids::{ProcessId, ThreadId};

verus! {

/// Thread table size.
pub const MAX_THREADS: usize = 64;
/// CPUs (cores) the kernel runs on.
pub const MAX_CPUS: usize = 4;

/// Scheduling state of a thread.
#[derive(Debug, Clone, Copy, PartialEq, Eq, Structural)]
pub enum ThreadState {
    Ready,
    Running,
    /// Blocked in a channel operation (`u64::MAX`: sleeping).
    BlockedIpc { channel: u64 },
    /// Blocked waiting on a notification.
    BlockedNotification { notification: u32 },
    /// Blocked in select.
    BlockedSelect,
    Dead,
}

/// One thread: its owner and its state.
#[derive(Debug, Clone, Copy, PartialEq, Eq, Structural)]
pub struct ThreadRecord {
    pub owner_pid: Option<ProcessId>,
    pub state: ThreadState,
}

/// The thread table and the current thread of each CPU.
pub struct ThreadTable {
    pub threads: Vec<Option<ThreadRecord>>,
    pub current: Vec<Option<ThreadId>>,
}

impl ThreadTable {
    pub open spec fn wf(&self) -> bool {
        &&& self.threads@.len() == MAX_THREADS
        &&& self.current@.len() == MAX_CPUS
        &&& forall|c: int| 0 <= c < MAX_CPUS ==> (#[trigger] self.current@[c] matches Some(t) ==> (t.0 as int) < MAX_THREADS)
    }

    /// The owner of `tid`, if it is a live thread with an owner.
    pub open spec fn owner(&self, tid: ThreadId) -> Option<ProcessId> {
        if (tid.0 as int) < self.threads@.len() {
            match self.threads@[tid.0 as int] {
                Some(t) => t.owner_pid,
                None => None,
            }
        } else {
            None
        }
    }

    /// The state of `tid`; a missing thread counts as `Dead`.
    pub open spec fn state_of(&self, tid: ThreadId) -> ThreadState {
        if (tid.0 as int) < self.threads@.len() {
            match self.threads@[tid.0 as int] {
                Some(t) => t.state,
                None => ThreadState::Dead,
            }
        } else {
            ThreadState::Dead
        }
    }

    /// No threads, nothing running.
    pub fn new() -> (t: ThreadTable)
        ensures
            t.wf(),
            forall|i: int| 0 <= i < MAX_THREADS ==> t.threads@[i] is None,
            forall|c: int| 0 <= c < MAX_CPUS ==> t.current@[c] is None,
    {
        let mut threads: Vec<Option<ThreadRecord>> = Vec::new();
        let mut i: usize = 0;
        while i < MAX_THREADS
            invariant
                i <= MAX_THREADS,
                threads@.len() == i,
                forall|j: int| 0 <= j < i ==> threads@[j] is None,
            decreases MAX_THREADS - i,
        {
            threads.push(None);
            i = i + 1;
        }
        let mut current: Vec<Option<ThreadId>> = Vec::new();
        let mut c: usize = 0;
        while c < MAX_CPUS
            invariant
                c <= MAX_CPUS,
                current@.len() == c,
                forall|j: int| 0 <= j < c ==> current@[j] is None,
            decreases MAX_CPUS - c,
        {
            current.push(None);
            c = c + 1;
        }
        ThreadTable { threads, current }
    }

    /// The state of `tid`; a missing thread counts as `Dead`.
    pub fn thread_state(&self, tid: ThreadId) -> (s: ThreadState)
        requires
            self.wf(),
        ensures
            s == self.state_of(tid),
    {
        if tid.0 as usize >= self.threads.len() {
            return ThreadState::Dead;
        }
        match self.threads[tid.0 as usize] {
            Some(t) => t.state,
            None => ThreadState::Dead,
        }
    }
}

/// The thread running on `cpu`.
pub fn current_thread_id(threads: &ThreadTable, cpu: usize) -> (t: Option<ThreadId>)
    requires
        threads.wf(),
        cpu < MAX_CPUS,
    ensures
        t == threads.current@[cpu as int],
        t matches Some(x) ==> (x.0 as int) < MAX_THREADS,
{
    threads.current[cpu]
}

/// The process that owns `tid`: `None` for an out-of-range id, a missing
/// thread, or a thread without an owner.
pub fn process_of_thread(threads: &ThreadTable, tid: ThreadId) -> (p: Option<ProcessId>)
    requires
        threads.wf(),
    ensures
        p == threads.owner(tid),
{
    let idx = tid.0 as usize;
    if idx >= threads.threads.len() {
        return None;
    }
    match threads.threads[idx] {
        Some(t) => t.owner_pid,
        None => None,
    }
}

/// The process of the thread running on `cpu`.
pub fn current_process_id(threads: &ThreadTable, cpu: usize) -> (p: Option<ProcessId>)
    requires
        threads.wf(),
        cpu < MAX_CPUS,
    ensures
        p == match threads.current@[cpu as int] {
            Some(t) => threads.owner(t),
            None => None,
        },
{
    match current_thread_id(threads, cpu) {
        Some(t) => process_of_thread(threads, t),
        None => None,
    }
}

} // verus!
