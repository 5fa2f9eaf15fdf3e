//! The IPC direct switch and priority inheritance: the thread-state changes
//! of handing the CPU from a caller straight to a receiver already blocked
//! on the channel, and back on reply. Saving and restoring register context
//! is the caller's; these functions decide whether the switch happens and
//! update the scheduling state.
use vstd::prelude::*;

use crate::ids::ThreadId;
use crate::task::{ThreadRecord, ThreadState, ThreadTable, MAX_CPUS, MAX_THREADS};

verus! {

/// Deepest chain of transitive inheritance tracked.
pub const MAX_INHERITANCE_DEPTH: u32 = 8;

/// A thread's scheduling parameters. Classes are ranks: a larger class
/// outranks a smaller one.
#[derive(Debug, Clone, Copy, PartialEq, Eq, Structural)]
pub struct SchedParams {
    /// Base class and priority.
    pub class: u8,
    pub priority: u8,
    /// Class and priority the scheduler uses (raised by inheritance).
    pub effective_class: u8,
    pub effective_priority: u8,
    pub deadline: Option<u64>,
    /// What the thread inherited from its current caller, if anything.
    pub inherited_class: Option<u8>,
    pub inherited_priority: Option<u8>,
    pub inherited_deadline: Option<u64>,
    pub inheritance_depth: u32,
    pub time_slice_remaining: u64,
}

/// Scheduling parameters of every thread slot.
pub open spec fn sched_wf(sched: Seq<SchedParams>) -> bool {
    &&& sched.len() == MAX_THREADS
    &&& forall|i: int| 0 <= i < MAX_THREADS ==> #[trigger] sched[i].inheritance_depth <= MAX_INHERITANCE_DEPTH
}

/// The receiver after a call from `sender`: it records what it inherits,
/// takes the sender's class and priority when the sender outranks its base
/// class, is one level deeper than the sender (capped), and gets the
/// sender's remaining time slice.
pub open spec fn inherit_from(sender: SchedParams, receiver: SchedParams) -> SchedParams {
    let elevate = sender.effective_class > receiver.class;
    SchedParams {
        effective_class: if elevate { sender.effective_class } else { receiver.effective_class },
        effective_priority: if elevate { sender.effective_priority } else { receiver.effective_priority },
        inherited_class: Some(sender.effective_class),
        inherited_priority: Some(sender.effective_priority),
        inherited_deadline: sender.deadline,
        inheritance_depth: if sender.inheritance_depth + 1 < MAX_INHERITANCE_DEPTH {
            (sender.inheritance_depth + 1) as u32
        } else {
            MAX_INHERITANCE_DEPTH
        },
        time_slice_remaining: sender.time_slice_remaining,
        ..receiver
    }
}

/// The replier with its inheritance undone: back to its base class and
/// priority, nothing inherited, one level shallower.
pub open spec fn restore_base(p: SchedParams) -> SchedParams {
    SchedParams {
        effective_class: p.class,
        effective_priority: p.priority,
        inherited_class: None,
        inherited_priority: None,
        inherited_deadline: None,
        inheritance_depth: if p.inheritance_depth > 0 { (p.inheritance_depth - 1) as u32 } else { 0 },
        ..p
    }
}

/// `p` with its time slice set to `slice`.
pub open spec fn with_slice(p: SchedParams, slice: u64) -> SchedParams {
    SchedParams { time_slice_remaining: slice, ..p }
}

/// Both threads are in the table and `waiting` is blocked on IPC.
pub open spec fn switch_possible(threads: Seq<Option<ThreadRecord>>, running: ThreadId, waiting: ThreadId) -> bool {
    &&& (running.0 as int) < MAX_THREADS
    &&& (waiting.0 as int) < MAX_THREADS
    &&& threads[running.0 as int] is Some
    &&& threads[waiting.0 as int] matches Some(w) && w.state is BlockedIpc
}

/// Scheduling parameters after a direct switch from `sender` to
/// `receiver`: the receiver inherits, then the sender's slice is spent.
pub open spec fn sched_after_call(sched: Seq<SchedParams>, sender: ThreadId, receiver: ThreadId) -> Seq<SchedParams> {
    let s = sender.0 as int;
    let r = receiver.0 as int;
    let raised = sched.update(r, inherit_from(sched[s], sched[r]));
    raised.update(s, with_slice(raised[s], 0))
}

/// Thread states after a direct switch: the receiver ready, the sender
/// blocked on IPC.
pub open spec fn threads_after_call(threads: Seq<Option<ThreadRecord>>, sender: ThreadId, receiver: ThreadId) -> Seq<
    Option<ThreadRecord>,
> {
    with_state(with_state(threads, receiver, ThreadState::Ready), sender, ThreadState::BlockedIpc { channel: 0 })
}

/// Scheduling parameters after a reply switch from `replier` to `caller`:
/// the replier's inheritance undone, its remaining slice handed to the
/// caller.
pub open spec fn sched_after_reply(sched: Seq<SchedParams>, replier: ThreadId, caller: ThreadId) -> Seq<SchedParams> {
    let p = replier.0 as int;
    let c = caller.0 as int;
    let restored = sched.update(p, restore_base(sched[p]));
    let handed = restored.update(c, with_slice(restored[c], restored[p].time_slice_remaining));
    handed.update(p, with_slice(handed[p], 0))
}

/// Thread states after a reply switch: the caller running, the replier
/// ready.
pub open spec fn threads_after_reply(threads: Seq<Option<ThreadRecord>>, replier: ThreadId, caller: ThreadId) -> Seq<
    Option<ThreadRecord>,
> {
    with_state(with_state(threads, caller, ThreadState::Running), replier, ThreadState::Ready)
}

/// The thread table with thread `t`'s state set to `s`.
pub open spec fn with_state(threads: Seq<Option<ThreadRecord>>, t: ThreadId, s: ThreadState) -> Seq<
    Option<ThreadRecord>,
> {
    threads.update(t.0 as int, Some(ThreadRecord { state: s, ..threads[t.0 as int]->Some_0 }))
}

fn set_state(tt: &mut ThreadTable, t: ThreadId, s: ThreadState)
    requires
        old(tt).wf(),
        (t.0 as int) < MAX_THREADS,
        old(tt).threads@[t.0 as int] is Some,
    ensures
        final(tt).wf(),
        final(tt).threads@ == with_state(old(tt).threads@, t, s),
        final(tt).current@ == old(tt).current@,
{
    let i = t.0 as usize;
    let mut rec = match tt.threads[i] {
        Some(r) => r,
        None => {
            return;
        },
    };
    rec.state = s;
    tt.threads.set(i, Some(rec));
}

/// Direct switch from `sender` (running on `cpu`) to `receiver`, which is
/// blocked in a receive on the channel the message went to. When both
/// threads exist and the receiver is blocked on IPC: the receiver inherits
/// from the sender (see `inherit_from`) and becomes ready, the sender
/// blocks on IPC with no time slice left, and the receiver becomes `cpu`'s
/// current thread; `true` tells the caller to switch contexts. Otherwise
/// nothing changes and the caller takes the scheduler path.
pub fn try_direct_switch(
    tt: &mut ThreadTable,
    sched: &mut Vec<SchedParams>,
    cpu: usize,
    sender: ThreadId,
    receiver: ThreadId,
) -> (switched: bool)
    requires
        old(tt).wf(),
        sched_wf(old(sched)@),
        cpu < MAX_CPUS,
    ensures
        final(tt).wf(),
        sched_wf(final(sched)@),
        switched == switch_possible(old(tt).threads@, sender, receiver),
        !switched ==> *final(tt) == *old(tt) && final(sched)@ == old(sched)@,
        switched ==> final(sched)@ == sched_after_call(old(sched)@, sender, receiver),
        switched ==> final(tt).threads@ == threads_after_call(old(tt).threads@, sender, receiver),
        switched ==> final(tt).current@ == old(tt).current@.update(cpu as int, Some(receiver)),
{
    let s = sender.0 as usize;
    let r = receiver.0 as usize;
    if s >= tt.threads.len() || r >= tt.threads.len() {
        return false;
    }
    if tt.threads[s].is_none() || tt.threads[r].is_none() {
        return false;
    }
    match tt.threads[r] {
        Some(rec) => match rec.state {
            ThreadState::BlockedIpc { .. } => {},
            _ => {
                return false;
            },
        },
        None => {
            return false;
        },
    }
    let snd = sched[s];
    let mut rcv = sched[r];
    rcv.inherited_class = Some(snd.effective_class);
    rcv.inherited_priority = Some(snd.effective_priority);
    rcv.inherited_deadline = snd.deadline;
    if snd.effective_class > rcv.class {
        rcv.effective_class = snd.effective_class;
        rcv.effective_priority = snd.effective_priority;
    }
    let deeper = snd.inheritance_depth + 1;
    rcv.inheritance_depth = if deeper < MAX_INHERITANCE_DEPTH { deeper } else { MAX_INHERITANCE_DEPTH };
    rcv.time_slice_remaining = snd.time_slice_remaining;
    sched.set(r, rcv);
    set_state(tt, receiver, ThreadState::Ready);

    let mut blocked = sched[s];
    blocked.time_slice_remaining = 0;
    sched.set(s, blocked);
    set_state(tt, sender, ThreadState::BlockedIpc { channel: 0 });

    tt.current.set(cpu, Some(receiver));
    true
}

/// Reply switch from `replier` (running on `cpu`) back to `caller`, which
/// is blocked waiting for the reply. When both threads exist and the caller
/// is blocked on IPC: the replier's inheritance is undone (see
/// `restore_base`), the caller gets the replier's remaining time slice and
/// runs, the replier becomes ready with no slice left, and the caller
/// becomes `cpu`'s current thread. Otherwise nothing changes.
pub fn try_reply_switch(
    tt: &mut ThreadTable,
    sched: &mut Vec<SchedParams>,
    cpu: usize,
    replier: ThreadId,
    caller: ThreadId,
) -> (switched: bool)
    requires
        old(tt).wf(),
        sched_wf(old(sched)@),
        cpu < MAX_CPUS,
    ensures
        final(tt).wf(),
        sched_wf(final(sched)@),
        switched == switch_possible(old(tt).threads@, replier, caller),
        !switched ==> *final(tt) == *old(tt) && final(sched)@ == old(sched)@,
        switched ==> final(sched)@ == sched_after_reply(old(sched)@, replier, caller),
        switched ==> final(tt).threads@ == threads_after_reply(old(tt).threads@, replier, caller),
        switched ==> final(tt).current@ == old(tt).current@.update(cpu as int, Some(caller)),
{
    let p = replier.0 as usize;
    let c = caller.0 as usize;
    if p >= tt.threads.len() || c >= tt.threads.len() {
        return false;
    }
    if tt.threads[p].is_none() || tt.threads[c].is_none() {
        return false;
    }
    match tt.threads[c] {
        Some(rec) => match rec.state {
            ThreadState::BlockedIpc { .. } => {},
            _ => {
                return false;
            },
        },
        None => {
            return false;
        },
    }
    let mut rp = sched[p];
    rp.effective_class = rp.class;
    rp.effective_priority = rp.priority;
    rp.inherited_class = None;
    rp.inherited_priority = None;
    rp.inherited_deadline = None;
    rp.inheritance_depth = if rp.inheritance_depth > 0 { rp.inheritance_depth - 1 } else { 0 };
    sched.set(p, rp);

    let donated = sched[p].time_slice_remaining;
    let mut cl = sched[c];
    cl.time_slice_remaining = donated;
    sched.set(c, cl);
    set_state(tt, caller, ThreadState::Running);

    let mut done = sched[p];
    done.time_slice_remaining = 0;
    sched.set(p, done);
    set_state(tt, replier, ThreadState::Ready);

    tt.current.set(cpu, Some(caller));
    true
}

} // verus!
