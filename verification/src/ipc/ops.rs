//! The IPC operations as the kernel runs them: argument and capability
//! checks, then the table changes, returning the errno-style result and the
//! threads the scheduler must unblock. Blocking itself is the scheduler's
//! part: an operation that must block returns `Blocked`, and its `_finish`
//! half runs once the thread is woken.
use vstd::prelude::*;

use crate::cap::{check_channel_access, check_channel_create, Capability, KernelCapabilitySystem, MAX_PROCESSES};
use crate::ids::{CapabilityTokenId, ChannelId, NotificationId, ProcessId, ThreadId};
use crate::task::{current_process_id, current_thread_id, process_of_thread, ThreadState, ThreadTable, MAX_CPUS};
use super::channel::{deliver, tid_ok, RecvOutcome};
use super::notify::{compute_wait_deadline, find_free, wait_deadline, without_waiter, Waiter, WaitOutcome, MAX_NOTIFICATIONS};
use super::channel::Channel;
use super::ring::RawMessage;
use super::select::{validate_select, select_set_valid, SelectEntry, SelectKind};
use super::{replied, took_reply, IpcError, KernelIpc, ReplySlot, MAX_CHANNELS, MAX_MESSAGE_SIZE, MAX_THREADS};

verus! {

/// The thread running on `cpu` passes the `ChannelAccess(channel)` check;
/// only then is the channel looked up in the table.
pub open spec fn channel_access_granted(
    threads: &ThreadTable,
    caps: &KernelCapabilitySystem,
    cpu: usize,
    channel: ChannelId,
    now: u64,
) -> bool {
    threads.current@[cpu as int] matches Some(t) && access_result(threads, caps, t, channel, now) is Ok
}

/// The `ChannelAccess(channel)` decision for thread `tid`: `Eperm` when the
/// thread has no owning process, then the capability check.
pub open spec fn access_result(
    threads: &ThreadTable,
    caps: &KernelCapabilitySystem,
    tid: ThreadId,
    channel: ChannelId,
    now: u64,
) -> Result<(), IpcError> {
    match threads.owner(tid) {
        None => Err(IpcError::Eperm),
        Some(pid) => if (pid.0 as int) >= MAX_PROCESSES {
            Err(IpcError::Einval)
        } else if caps.process_permits(pid, Capability::ChannelAccess(channel), now) {
            Ok(())
        } else {
            Err(IpcError::Eperm)
        },
    }
}

/// The `ChannelAccess` decision for thread `tid`.
pub fn check_thread_access(
    threads: &ThreadTable,
    caps: &KernelCapabilitySystem,
    tid: ThreadId,
    channel: ChannelId,
    now: u64,
) -> (r: Result<(), IpcError>)
    requires
        threads.wf(),
        caps.wf(),
    ensures
        r == access_result(threads, caps, tid, channel, now),
{
    match process_of_thread(threads, tid) {
        None => Err(IpcError::Eperm),
        Some(pid) => match check_channel_access(caps, pid, channel, now) {
            Ok(()) => Ok(()),
            Err(e) => Err(e),
        },
    }
}

/// Create a channel for thread `creator`: it needs an owning process holding
/// `ChannelCreate` (`Eperm`, or `Einval` for an out-of-range owner), whose
/// authorizing token the channel records; then the table's `create`
/// (`Enospc` when full).
pub fn channel_create(
    ipc: &mut KernelIpc,
    threads: &ThreadTable,
    caps: &KernelCapabilitySystem,
    creator: ThreadId,
    now: u64,
) -> (r: Result<ChannelId, i64>)
    requires
        old(ipc).wf(),
        threads.wf(),
        caps.wf(),
    ensures
        final(ipc).wf(),
        final(ipc).timeouts == old(ipc).timeouts,
        r is Err ==> final(ipc).channels.slots@ == old(ipc).channels.slots@,
        threads.owner(creator) is None ==> r == Err::<ChannelId, i64>(IpcError::Eperm.spec_code() as i64),
        threads.owner(creator) matches Some(pid) ==> {
            &&& (pid.0 as int) >= MAX_PROCESSES ==> r == Err::<ChannelId, i64>(IpcError::Einval.spec_code() as i64)
            &&& ((pid.0 as int) < MAX_PROCESSES && !caps.process_permits(pid, Capability::ChannelCreate, now)) ==> r == Err::<
                ChannelId,
                i64,
            >(IpcError::Eperm.spec_code() as i64)
            &&& ((pid.0 as int) < MAX_PROCESSES && caps.process_permits(pid, Capability::ChannelCreate, now)) ==> {
                &&& (forall|i: int| 0 <= i < MAX_CHANNELS ==> old(ipc).channels.slots@[i] is Some) ==> r == Err::<ChannelId, i64>(
                    IpcError::Enospc.spec_code() as i64,
                )
                &&& r matches Ok(id) ==> {
                    &&& old(ipc).channels.slots@[id.0 as int] is None
                    &&& forall|j: int| 0 <= j < id.0 ==> old(ipc).channels.slots@[j] is Some
                    &&& final(ipc).channels.chan(id) matches Some(c) && c.owner_a == creator && c.ring@.len() == 0
                        && c.creation_cap == Some(caps.authorizing_token(pid, Capability::ChannelCreate, now))
                }
                &&& (exists|i: int| 0 <= i < MAX_CHANNELS && old(ipc).channels.slots@[i] is None) ==> r is Ok
            }
        },
{
    let pid = match process_of_thread(threads, creator) {
        Some(p) => p,
        None => {
            return Err(IpcError::Eperm.code());
        },
    };
    let token = match check_channel_create(caps, pid, now) {
        Ok(t) => t,
        Err(e) => {
            return Err(e.code());
        },
    };
    match ipc.channels.create(creator, Some(token)) {
        Ok(id) => Ok(id),
        Err(e) => Err(e.code()),
    }
}

/// Assign the peer endpoint of `channel`; `Epipe` for a missing channel.
pub fn channel_set_peer(ipc: &mut KernelIpc, channel: ChannelId, peer: ThreadId) -> (r: Result<(), i64>)
    requires
        old(ipc).wf(),
        (channel.0 as int) < MAX_CHANNELS,
    ensures
        final(ipc).wf(),
        final(ipc).timeouts == old(ipc).timeouts,
        old(ipc).channels.chan(channel) is None ==> r == Err::<(), i64>(IpcError::Epipe.spec_code() as i64)
            && final(ipc).channels.slots@ == old(ipc).channels.slots@,
        old(ipc).channels.chan(channel) matches Some(ch) ==> r is Ok && final(ipc).channels.slots@ == old(ipc).channels.slots@.update(channel.0 as int, Some(super::channel::Channel { owner_b: Some(peer), ..ch })),
{
    match ipc.channels.set_peer(channel, peer) {
        Ok(()) => Ok(()),
        Err(e) => Err(e.code()),
    }
}

/// Destroy `channel` with no capability check (kernel-initiated teardown):
/// the channel leaves the table, and its waiting receiver and pending
/// caller are woken with `Epipe` (their deadlines dropped). Returns the
/// threads to unblock; `Epipe` for a missing channel.
pub fn channel_destroy_unchecked(ipc: &mut KernelIpc, channel: ChannelId) -> (r: Result<Vec<ThreadId>, i64>)
    requires
        old(ipc).wf(),
        (channel.0 as int) < MAX_CHANNELS,
    ensures
        final(ipc).wf(),
        final(ipc).channels.slots@ == old(ipc).channels.slots@.update(channel.0 as int, None),
        old(ipc).channels.chan(channel) is None ==> r is Err && r == Err::<Vec<ThreadId>, i64>(IpcError::Epipe.spec_code() as i64)
            && final(ipc).timeouts == old(ipc).timeouts,
        old(ipc).channels.chan(channel) matches Some(ch) ==> r matches Ok(v) && v@ == woken_pair(ch.waiting_receiver, ch.pending_caller)
            && forall|i: int| 0 <= i < v@.len() ==> {
                &&& final(ipc).timeouts.wakeup_errors@[#[trigger] v@[i].0 as int] == IpcError::Epipe.spec_code()
                &&& final(ipc).timeouts.queue@[v@[i].0 as int] is None
            },
{
    match ipc.channels.destroy(channel) {
        Err(e) => Err(e.code()),
        Ok((recv, caller)) => {
            let mut woken: Vec<ThreadId> = Vec::new();
            let code = IpcError::Epipe.code();
            match recv {
                Some(t) => {
                    ipc.timeouts.wake_with_error(t, code);
                    woken.push(t);
                },
                None => {},
            }
            match caller {
                Some(t) => {
                    ipc.timeouts.wake_with_error(t, code);
                    woken.push(t);
                },
                None => {},
            }
            Ok(woken)
        },
    }
}

/// The threads of an optional receiver and an optional caller, in that order.
pub open spec fn woken_pair(a: Option<ThreadId>, b: Option<ThreadId>) -> Seq<ThreadId> {
    let s = match a {
        Some(t) => seq![t],
        None => Seq::empty(),
    };
    match b {
        Some(t) => s.push(t),
        None => s,
    }
}

/// Destroy `channel` on behalf of the thread running on `cpu`: its process
/// needs `ChannelAccess(channel)` (`Eperm` without a current process); then
/// as `channel_destroy_unchecked`.
pub fn channel_destroy(
    ipc: &mut KernelIpc,
    threads: &ThreadTable,
    caps: &KernelCapabilitySystem,
    cpu: usize,
    channel: ChannelId,
    now: u64,
) -> (r: Result<Vec<ThreadId>, i64>)
    requires
        old(ipc).wf(),
        threads.wf(),
        caps.wf(),
        cpu < MAX_CPUS,
        channel_access_granted(threads, caps, cpu, channel, now) ==> (channel.0 as int) < MAX_CHANNELS,
    ensures
        final(ipc).wf(),
        ({
            let pid = match threads.current@[cpu as int] {
                Some(t) => threads.owner(t),
                None => None,
            };
            &&& pid is None ==> r == Err::<Vec<ThreadId>, i64>(IpcError::Eperm.spec_code() as i64)
                && final(ipc).channels.slots@ == old(ipc).channels.slots@
            &&& pid matches Some(p) ==> {
                &&& (p.0 as int) >= MAX_PROCESSES ==> r == Err::<Vec<ThreadId>, i64>(IpcError::Einval.spec_code() as i64)
                    && final(ipc).channels.slots@ == old(ipc).channels.slots@
                &&& ((p.0 as int) < MAX_PROCESSES && !caps.process_permits(p, Capability::ChannelAccess(channel), now)) ==> r
                    == Err::<Vec<ThreadId>, i64>(IpcError::Eperm.spec_code() as i64) && final(ipc).channels.slots@ == old(ipc).channels.slots@
                &&& ((p.0 as int) < MAX_PROCESSES && caps.process_permits(p, Capability::ChannelAccess(channel), now))
                    ==> final(ipc).channels.slots@ == old(ipc).channels.slots@.update(channel.0 as int, None)
                    && (old(ipc).channels.chan(channel) is None <==> r is Err)
            }
        }),
{
    let pid = match current_process_id(threads, cpu) {
        Some(p) => p,
        None => {
            return Err(IpcError::Eperm.code());
        },
    };
    match check_channel_access(caps, pid, channel, now) {
        Ok(()) => {},
        Err(e) => {
            return Err(e.code());
        },
    }
    channel_destroy_unchecked(ipc, channel)
}

/// The caller's message: sender `t` and the bytes of `buf`.
pub open spec fn message_from(m: RawMessage, t: ThreadId, buf: Seq<u8>) -> bool {
    m.wf() && m.sender == t && m.payload() == buf
}

/// Asynchronous send on `channel` by the thread running on `cpu`.
/// `Enospc` for a payload over `MAX_MESSAGE_SIZE`; `Eperm` without a current
/// thread; the `ChannelAccess` decision; then `Epipe` (missing or dead
/// channel) or `Eagain` (ring full). On success `0`, the message is queued,
/// and the waiting receiver (if any) stops waiting, loses its deadline and
/// is returned for unblocking.
pub fn ipc_send(
    ipc: &mut KernelIpc,
    threads: &ThreadTable,
    caps: &KernelCapabilitySystem,
    cpu: usize,
    channel: ChannelId,
    send_buf: &[u8],
    now: u64,
) -> (r: (i64, Option<ThreadId>))
    requires
        old(ipc).wf(),
        threads.wf(),
        caps.wf(),
        cpu < MAX_CPUS,
        send_buf@.len() <= MAX_MESSAGE_SIZE && channel_access_granted(threads, caps, cpu, channel, now) ==> (channel.0 as int)
            < MAX_CHANNELS,
    ensures
        final(ipc).wf(),
        r.0 != 0 ==> r.1 is None && final(ipc).channels.slots@ == old(ipc).channels.slots@ && final(ipc).timeouts == old(ipc).timeouts,
        send_buf@.len() > MAX_MESSAGE_SIZE ==> r.0 == IpcError::Enospc.spec_code(),
        (send_buf@.len() <= MAX_MESSAGE_SIZE && threads.current@[cpu as int] is None) ==> r.0 == IpcError::Eperm.spec_code(),
        send_buf@.len() <= MAX_MESSAGE_SIZE ==> (threads.current@[cpu as int] matches Some(t) ==> {
            let acc = access_result(threads, caps, t, channel, now);
            &&& acc matches Err(e) ==> r.0 == e.spec_code()
            &&& acc is Ok ==> {
                &&& old(ipc).channels.chan(channel) is None ==> r.0 == IpcError::Epipe.spec_code()
                &&& old(ipc).channels.chan(channel) matches Some(ch) ==> {
                    &&& ch.is_dead() ==> r.0 == IpcError::Epipe.spec_code()
                    &&& (!ch.is_dead() && ch.ring@.len() >= super::RING_CAPACITY) ==> r.0 == IpcError::Eagain.spec_code()
                    &&& (!ch.is_dead() && ch.ring@.len() < super::RING_CAPACITY) ==> {
                        &&& r == (0i64, ch.waiting_receiver)
                        &&& final(ipc).channels.chan(channel) matches Some(d)
                        &&& d.waiting_receiver is None && d.pending_caller == ch.pending_caller
                        &&& d.ring@.len() == ch.ring@.len() + 1
                        &&& d.ring@.take(ch.ring@.len() as int) == ch.ring@
                        &&& message_from(d.ring@.last(), t, send_buf@)
                        &&& ch.waiting_receiver matches Some(w) ==> final(ipc).timeouts.queue@ == old(ipc).timeouts.queue@.update(
                            w.0 as int,
                            None,
                        )
                    }
                }
            }
        }),
{
    if send_buf.len() > MAX_MESSAGE_SIZE {
        return (IpcError::Enospc.code(), None);
    }
    let t = match current_thread_id(threads, cpu) {
        Some(t) => t,
        None => {
            return (IpcError::Eperm.code(), None);
        },
    };
    match check_thread_access(threads, caps, t, channel, now) {
        Ok(()) => {},
        Err(e) => {
            return (e.code(), None);
        },
    }
    let msg = RawMessage::new(t, send_buf);
    match ipc.channels.send(channel, msg) {
        Err(e) => (e.code(), None),
        Ok(recv) => {
            match recv {
                Some(w) => {
                    ipc.timeouts.clear_timeout(w);
                },
                None => {},
            }
            proof {
                let ch = old(ipc).channels.chan(channel)->Some_0;
                let d = ipc.channels.chan(channel)->Some_0;
                assert(d.ring@.take(ch.ring@.len() as int) =~= ch.ring@);
            }
            (0, recv)
        },
    }
}

/// How the request half of a call ended.
#[derive(Debug, Clone, Copy, PartialEq, Eq, Structural)]
pub enum CallStart {
    /// The request is queued and the caller must block; `Some` names the
    /// receiver that was waiting (to switch to directly or unblock).
    Blocked(Option<ThreadId>),
}

/// The request half of a synchronous call on `channel` by the thread on
/// `cpu`, whose reply buffer holds `recv_len` bytes. `Enospc` for an
/// oversized request, `Eperm` without a current thread, the `ChannelAccess`
/// decision. A timeout of 0 asks for a call that does not block, which can
/// never see its reply: `Etimedout` at once, nothing queued. Then the
/// table's `call_enqueue` rules (`Epipe`, `Eagain`, `Enospc`). On success
/// the caller's reply slot is registered (nothing written yet), a waiting
/// receiver loses its deadline, and the caller gets the deadline
/// `now + timeout_ticks`, woken with `Etimedout`.
pub fn ipc_call_begin(
    ipc: &mut KernelIpc,
    threads: &ThreadTable,
    caps: &KernelCapabilitySystem,
    cpu: usize,
    channel: ChannelId,
    send_buf: &[u8],
    recv_len: usize,
    timeout_ticks: u64,
    now: u64,
) -> (r: Result<CallStart, i64>)
    requires
        old(ipc).wf(),
        threads.wf(),
        caps.wf(),
        cpu < MAX_CPUS,
        send_buf@.len() <= MAX_MESSAGE_SIZE && channel_access_granted(threads, caps, cpu, channel, now) && timeout_ticks != 0
            ==> (channel.0 as int) < MAX_CHANNELS,
        now + timeout_ticks <= u64::MAX,
    ensures
        final(ipc).wf(),
        r is Err ==> final(ipc).channels.slots@ == old(ipc).channels.slots@ && final(ipc).timeouts == old(ipc).timeouts
            && final(ipc).reply_slots@ == old(ipc).reply_slots@,
        send_buf@.len() > MAX_MESSAGE_SIZE ==> r == Err::<CallStart, i64>(IpcError::Enospc.spec_code() as i64),
        (send_buf@.len() <= MAX_MESSAGE_SIZE && threads.current@[cpu as int] is None) ==> r == Err::<CallStart, i64>(
            IpcError::Eperm.spec_code() as i64,
        ),
        send_buf@.len() <= MAX_MESSAGE_SIZE ==> (threads.current@[cpu as int] matches Some(t) ==> {
            let acc = access_result(threads, caps, t, channel, now);
            &&& acc matches Err(e) ==> r == Err::<CallStart, i64>(e.spec_code() as i64)
            &&& (acc is Ok && timeout_ticks == 0) ==> r == Err::<CallStart, i64>(IpcError::Etimedout.spec_code() as i64)
            &&& (acc is Ok && timeout_ticks > 0) ==> {
                &&& old(ipc).channels.chan(channel) is None ==> r == Err::<CallStart, i64>(IpcError::Epipe.spec_code() as i64)
                &&& old(ipc).channels.chan(channel) matches Some(ch) ==> {
                    &&& ch.is_dead() ==> r == Err::<CallStart, i64>(IpcError::Epipe.spec_code() as i64)
                    &&& (!ch.is_dead() && ch.pending_caller is Some) ==> r == Err::<CallStart, i64>(IpcError::Eagain.spec_code() as i64)
                    &&& (!ch.is_dead() && ch.pending_caller is None && ch.ring@.len() >= super::RING_CAPACITY) ==> r == Err::<
                        CallStart,
                        i64,
                    >(IpcError::Enospc.spec_code() as i64)
                    &&& (!ch.is_dead() && ch.pending_caller is None && ch.ring@.len() < super::RING_CAPACITY) ==> {
                        &&& r == Ok::<CallStart, i64>(CallStart::Blocked(ch.waiting_receiver))
                        &&& final(ipc).channels.chan(channel) matches Some(d)
                        &&& d.pending_caller == Some(t) && d.waiting_receiver is None
                        &&& d.ring@.len() == ch.ring@.len() + 1
                        &&& message_from(d.ring@.last(), t, send_buf@)
                        &&& final(ipc).reply_slots@ == old(ipc).reply_slots@.update(t.0 as int, final(ipc).reply_slots@[t.0 as int])
                        &&& final(ipc).reply_slots@[t.0 as int] matches Some(s) && s.buf_len == recv_len && s.bytes_written == 0
                        &&& final(ipc).timeouts.queue@[t.0 as int] == Some(
                            super::timeout::TimeoutEntry {
                                tid: t,
                                wake_at_tick: (now + timeout_ticks) as u64,
                                error_code: IpcError::Etimedout.spec_code() as i64,
                            },
                        )
                    }
                }
            }
        }),
{
    if send_buf.len() > MAX_MESSAGE_SIZE {
        return Err(IpcError::Enospc.code());
    }
    let t = match current_thread_id(threads, cpu) {
        Some(t) => t,
        None => {
            return Err(IpcError::Eperm.code());
        },
    };
    match check_thread_access(threads, caps, t, channel, now) {
        Ok(()) => {},
        Err(e) => {
            return Err(e.code());
        },
    }
    if timeout_ticks == 0 {
        return Err(IpcError::Etimedout.code());
    }
    let msg = RawMessage::new(t, send_buf);
    let recv = match ipc.channels.call_enqueue(channel, t, msg) {
        Ok(recv) => recv,
        Err(e) => {
            return Err(e.code());
        },
    };
    match recv {
        Some(w) => {
            ipc.timeouts.clear_timeout(w);
        },
        None => {},
    }
    ipc.reply_slots.set(t.0 as usize, Some(ReplySlot { buf_len: recv_len, bytes_written: 0, data: [0u8; 256] }));
    ipc.timeouts.set_timeout(t, now + timeout_ticks, IpcError::Etimedout.code());
    Ok(CallStart::Blocked(recv))
}

/// After a blocked caller `t` is woken: its deadline is dropped and its
/// reply slot taken. If it was woken with an error (timeout, `Epipe`,
/// cancel), it stops being the channel's pending caller, its buffer is left
/// alone and the error is returned; otherwise the reply bytes in its slot
/// are copied into `recv_buf` (as many as fit) and their number returned
/// (0 without a reply slot).
pub fn ipc_call_finish(ipc: &mut KernelIpc, t: ThreadId, channel: ChannelId, recv_buf: &mut [u8]) -> (r: i64)
    requires
        old(ipc).wf(),
        (t.0 as int) < MAX_THREADS,
        (channel.0 as int) < MAX_CHANNELS,
    ensures
        final(ipc).wf(),
        final(ipc).timeouts.queue@ == old(ipc).timeouts.queue@.update(t.0 as int, None),
        final(ipc).timeouts.wakeup_errors@ == old(ipc).timeouts.wakeup_errors@.update(t.0 as int, 0),
        final(ipc).reply_slots@ == old(ipc).reply_slots@.update(t.0 as int, None),
        old(ipc).timeouts.wakeup_errors@[t.0 as int] != 0 ==> {
            &&& r == old(ipc).timeouts.wakeup_errors@[t.0 as int]
            &&& final(recv_buf)@ == old(recv_buf)@
            &&& old(ipc).channels.chan(channel) matches Some(ch) ==> (ch.pending_caller == Some(t) ==> final(ipc).channels.slots@ == old(ipc).channels.slots@.update(
                channel.0 as int,
                Some(super::channel::Channel { pending_caller: None, ..ch }),
            ))
        },
        old(ipc).timeouts.wakeup_errors@[t.0 as int] == 0 ==> {
            &&& final(ipc).channels.slots@ == old(ipc).channels.slots@
            &&& match old(ipc).reply_slots@[t.0 as int] {
                Some(s) => took_reply(s, old(recv_buf)@, final(recv_buf)@, r as int),
                None => r == 0 && final(recv_buf)@ == old(recv_buf)@,
            }
        },
{
    ipc.timeouts.clear_timeout(t);
    let mut slot: Option<ReplySlot> = None;
    ipc.reply_slots.set_and_swap(t.0 as usize, &mut slot);
    proof {
        assert(ipc.reply_slots@ =~= old(ipc).reply_slots@.update(t.0 as int, None));
    }
    let error = ipc.timeouts.get_wakeup_error(t);
    if error != 0 {
        ipc.channels.clear_pending_caller(channel, t);
        return error;
    }
    match slot {
        Some(s) => {
            let msg = RawMessage { sender: t, len: s.bytes_written, data: s.data };
            let n = deliver(&msg, recv_buf);
            proof {
                assert(msg.payload().subrange(0, n as int) =~= s.data@.subrange(0, n as int));
            }
            n as i64
        },
        None => 0,
    }
}

/// How the first half of a receive ended.
#[derive(Debug, Clone, Copy, PartialEq, Eq, Structural)]
pub enum RecvStep {
    /// A message was copied: bytes copied and its sender.
    Done(usize, ThreadId),
    /// The receiver must block.
    Blocked,
}

/// The first half of a receive on `channel` by the thread on `cpu` into
/// `recv_buf`: `Eperm` without a current thread, the `ChannelAccess`
/// decision, then the table's `recv_poll`. A queued message is copied (as
/// much as fits); otherwise the thread waits, with the deadline
/// `now + timeout_ticks` unless the timeout is `u64::MAX`.
pub fn ipc_recv_begin(
    ipc: &mut KernelIpc,
    threads: &ThreadTable,
    caps: &KernelCapabilitySystem,
    cpu: usize,
    channel: ChannelId,
    recv_buf: &mut [u8],
    timeout_ticks: u64,
    now: u64,
) -> (r: Result<RecvStep, i64>)
    requires
        old(ipc).wf(),
        threads.wf(),
        caps.wf(),
        cpu < MAX_CPUS,
        channel_access_granted(threads, caps, cpu, channel, now) ==> (channel.0 as int) < MAX_CHANNELS,
        timeout_ticks < u64::MAX ==> now + timeout_ticks <= u64::MAX,
    ensures
        final(ipc).wf(),
        r is Err ==> final(ipc).channels.slots@ == old(ipc).channels.slots@ && final(ipc).timeouts == old(ipc).timeouts,
        threads.current@[cpu as int] is None ==> r == Err::<RecvStep, i64>(IpcError::Eperm.spec_code() as i64),
        threads.current@[cpu as int] matches Some(t) ==> {
            let acc = access_result(threads, caps, t, channel, now);
            &&& acc matches Err(e) ==> r == Err::<RecvStep, i64>(e.spec_code() as i64)
            &&& acc is Ok ==> {
                &&& old(ipc).channels.chan(channel) is None ==> r == Err::<RecvStep, i64>(IpcError::Epipe.spec_code() as i64)
                &&& old(ipc).channels.chan(channel) matches Some(ch) ==> {
                    &&& ch.is_dead() ==> r == Err::<RecvStep, i64>(IpcError::Epipe.spec_code() as i64)
                    &&& (!ch.is_dead() && ch.ring@.len() > 0) ==> {
                        let m = ch.ring@[0];
                        let n = if m.len < old(recv_buf)@.len() { m.len as int } else { old(recv_buf)@.len() as int };
                        &&& r == Ok::<RecvStep, i64>(RecvStep::Done(n as usize, m.sender))
                        &&& final(recv_buf)@.subrange(0, n) == m.payload().subrange(0, n)
                        &&& final(ipc).channels.chan(channel) matches Some(d) && d.ring@ == ch.ring@.drop_first()
                    }
                    &&& (!ch.is_dead() && ch.ring@.len() == 0 && (timeout_ticks == 0 || ch.waiting_receiver is Some)) ==> r == Err::<
                        RecvStep,
                        i64,
                    >(IpcError::Eagain.spec_code() as i64)
                    &&& (!ch.is_dead() && ch.ring@.len() == 0 && timeout_ticks != 0 && ch.waiting_receiver is None) ==> {
                        &&& r == Ok::<RecvStep, i64>(RecvStep::Blocked)
                        &&& final(ipc).channels.chan(channel) matches Some(d) && d.waiting_receiver == Some(t)
                        &&& timeout_ticks < u64::MAX ==> final(ipc).timeouts.queue@[t.0 as int] == Some(
                            super::timeout::TimeoutEntry {
                                tid: t,
                                wake_at_tick: (now + timeout_ticks) as u64,
                                error_code: IpcError::Etimedout.spec_code() as i64,
                            },
                        )
                        &&& timeout_ticks == u64::MAX ==> final(ipc).timeouts == old(ipc).timeouts
                    }
                }
            }
        },
{
    let t = match current_thread_id(threads, cpu) {
        Some(t) => t,
        None => {
            return Err(IpcError::Eperm.code());
        },
    };
    match check_thread_access(threads, caps, t, channel, now) {
        Ok(()) => {},
        Err(e) => {
            return Err(e.code());
        },
    }
    match ipc.channels.recv_poll(channel, t, timeout_ticks) {
        Err(e) => Err(e.code()),
        Ok(RecvOutcome::Message(m)) => {
            let n = deliver(&m, recv_buf);
            Ok(RecvStep::Done(n, m.sender))
        },
        Ok(RecvOutcome::Blocked) => {
            if timeout_ticks < u64::MAX {
                ipc.timeouts.set_timeout(t, now + timeout_ticks, IpcError::Etimedout.code());
            }
            Ok(RecvStep::Blocked)
        },
    }
}

/// After a blocked receiver `t` is woken: its deadline is dropped and it
/// stops being the waiting receiver. A wakeup error is returned as is;
/// otherwise the oldest message is copied (`Epipe` for a channel gone
/// meanwhile, `Eagain` when nothing is queued).
pub fn ipc_recv_finish(ipc: &mut KernelIpc, t: ThreadId, channel: ChannelId, recv_buf: &mut [u8]) -> (r: Result<(usize, ThreadId), i64>)
    requires
        old(ipc).wf(),
        (t.0 as int) < MAX_THREADS,
        (channel.0 as int) < MAX_CHANNELS,
    ensures
        final(ipc).wf(),
        final(ipc).timeouts.queue@ == old(ipc).timeouts.queue@.update(t.0 as int, None),
        final(ipc).timeouts.wakeup_errors@ == old(ipc).timeouts.wakeup_errors@.update(t.0 as int, 0),
        old(ipc).timeouts.wakeup_errors@[t.0 as int] != 0 ==> r == Err::<(usize, ThreadId), i64>(
            old(ipc).timeouts.wakeup_errors@[t.0 as int],
        ),
        old(ipc).timeouts.wakeup_errors@[t.0 as int] == 0 ==> {
            &&& old(ipc).channels.chan(channel) is None ==> r == Err::<(usize, ThreadId), i64>(IpcError::Epipe.spec_code() as i64)
            &&& old(ipc).channels.chan(channel) matches Some(ch) ==> {
                &&& ch.ring@.len() == 0 ==> r == Err::<(usize, ThreadId), i64>(IpcError::Eagain.spec_code() as i64)
                &&& ch.ring@.len() > 0 ==> {
                    let m = ch.ring@[0];
                    let n = if m.len < old(recv_buf)@.len() { m.len as int } else { old(recv_buf)@.len() as int };
                    &&& r == Ok::<(usize, ThreadId), i64>((n as usize, m.sender))
                    &&& final(recv_buf)@.subrange(0, n) == m.payload().subrange(0, n)
                }
            }
        },
{
    ipc.timeouts.clear_timeout(t);
    ipc.channels.clear_waiting_receiver(channel, t);
    let error = ipc.timeouts.get_wakeup_error(t);
    if error != 0 {
        return Err(error);
    }
    match ipc.channels.recv_retry(channel) {
        Err(e) => Err(e.code()),
        Ok(m) => {
            let n = deliver(&m, recv_buf);
            Ok((n, m.sender))
        },
    }
}

/// Reply with `reply_buf` on `channel`, from the thread on `cpu` (no
/// capability check). `Enospc` for an oversized reply, `Eperm` without a
/// current thread, `Epipe` for a missing channel, `Eproto` when no call is
/// pending. Otherwise the pending caller is taken: if it registered a reply
/// slot, the first `min(reply length, buf_len)` bytes of the reply are
/// written into it (the caller's finishing half copies them out); its
/// deadline is dropped. Returns `0` with the caller (to switch to or
/// unblock) and the byte count written.
pub fn ipc_reply(ipc: &mut KernelIpc, threads: &ThreadTable, cpu: usize, channel: ChannelId, reply_buf: &[u8]) -> (r: (
    i64,
    Option<(ThreadId, usize)>,
))
    requires
        old(ipc).wf(),
        threads.wf(),
        cpu < MAX_CPUS,
        reply_buf@.len() <= MAX_MESSAGE_SIZE && threads.current@[cpu as int] is Some ==> (channel.0 as int) < MAX_CHANNELS,
    ensures
        final(ipc).wf(),
        r.0 != 0 ==> r.1 is None && final(ipc).channels.slots@ == old(ipc).channels.slots@ && final(ipc).reply_slots@ == old(ipc).reply_slots@ && final(ipc).timeouts == old(ipc).timeouts,
        reply_buf@.len() > MAX_MESSAGE_SIZE ==> r.0 == IpcError::Enospc.spec_code(),
        (reply_buf@.len() <= MAX_MESSAGE_SIZE && threads.current@[cpu as int] is None) ==> r.0 == IpcError::Eperm.spec_code(),
        (reply_buf@.len() <= MAX_MESSAGE_SIZE && threads.current@[cpu as int] is Some) ==> {
            &&& old(ipc).channels.chan(channel) is None ==> r.0 == IpcError::Epipe.spec_code()
            &&& old(ipc).channels.chan(channel) matches Some(ch) ==> {
                &&& ch.pending_caller is None ==> r.0 == IpcError::Eproto.spec_code()
                &&& ch.pending_caller matches Some(c) ==> {
                    let n: usize = match old(ipc).reply_slots@[c.0 as int] {
                        Some(s) => if reply_buf@.len() < s.buf_len { reply_buf@.len() as usize } else { s.buf_len },
                        None => 0,
                    };
                    &&& r == (0i64, Some((c, n)))
                    &&& final(ipc).channels.slots@ == old(ipc).channels.slots@.update(
                        channel.0 as int,
                        Some(super::channel::Channel { pending_caller: None, ..ch }),
                    )
                    &&& final(ipc).reply_slots@ == old(ipc).reply_slots@.update(c.0 as int, final(ipc).reply_slots@[c.0 as int])
                    &&& match old(ipc).reply_slots@[c.0 as int] {
                        Some(s) => final(ipc).reply_slots@[c.0 as int] matches Some(s2) && replied(s, reply_buf@, s2),
                        None => final(ipc).reply_slots@[c.0 as int] is None,
                    }
                    &&& final(ipc).timeouts.queue@ == old(ipc).timeouts.queue@.update(c.0 as int, None)
                }
            }
        },
{
    if reply_buf.len() > MAX_MESSAGE_SIZE {
        return (IpcError::Enospc.code(), None);
    }
    match current_thread_id(threads, cpu) {
        Some(_) => {},
        None => {
            return (IpcError::Eperm.code(), None);
        },
    }
    let caller = match ipc.channels.take_pending_caller(channel) {
        Err(e) => {
            return (e.code(), None);
        },
        Ok(None) => {
            // `take_pending_caller` found nothing to take: the table is as it was.
            proof {
                let ch = old(ipc).channels.chan(channel)->Some_0;
                assert(super::channel::Channel { pending_caller: None, ..ch } == ch);
                assert(ipc.channels.slots@ =~= old(ipc).channels.slots@);
            }
            return (IpcError::Eproto.code(), None);
        },
        Ok(Some(c)) => c,
    };
    let ci = caller.0 as usize;
    let n: usize = match ipc.reply_slots[ci] {
        Some(s) => {
            let n = if reply_buf.len() < s.buf_len { reply_buf.len() } else { s.buf_len };
            let part = vstd::slice::slice_subrange(reply_buf, 0, n);
            let m = RawMessage::new(caller, part);
            ipc.reply_slots.set(ci, Some(ReplySlot { bytes_written: n, data: m.data, ..s }));
            proof {
                assert(m.data@.subrange(0, n as int) =~= m.payload());
                assert(part@ =~= reply_buf@.subrange(0, n as int));
            }
            n
        },
        None => 0,
    };
    ipc.timeouts.clear_timeout(caller);
    (0, Some((caller, n)))
}

/// Cancel the pending call on `channel`, for the process of the thread on
/// `cpu` (`Eperm` without one; then the `ChannelAccess` check). `Epipe` for
/// a missing channel; `0` when no call is pending. Otherwise the caller
/// stops being pending, is woken with `Ecanceled`, and is returned.
pub fn ipc_cancel(
    ipc: &mut KernelIpc,
    threads: &ThreadTable,
    caps: &KernelCapabilitySystem,
    cpu: usize,
    channel: ChannelId,
    now: u64,
) -> (r: (i64, Option<ThreadId>))
    requires
        old(ipc).wf(),
        threads.wf(),
        caps.wf(),
        cpu < MAX_CPUS,
        channel_access_granted(threads, caps, cpu, channel, now) ==> (channel.0 as int) < MAX_CHANNELS,
    ensures
        final(ipc).wf(),
        r.1 is None ==> final(ipc).timeouts == old(ipc).timeouts,
        r.0 != 0 ==> r.1 is None && final(ipc).channels.slots@ == old(ipc).channels.slots@,
        ({
            let pid = match threads.current@[cpu as int] {
                Some(t) => threads.owner(t),
                None => None,
            };
            &&& pid is None ==> r.0 == IpcError::Eperm.spec_code()
            &&& pid matches Some(p) ==> {
                &&& (p.0 as int) >= MAX_PROCESSES ==> r.0 == IpcError::Einval.spec_code()
                &&& ((p.0 as int) < MAX_PROCESSES && !caps.process_permits(p, Capability::ChannelAccess(channel), now)) ==> r.0
                    == IpcError::Eperm.spec_code()
                &&& ((p.0 as int) < MAX_PROCESSES && caps.process_permits(p, Capability::ChannelAccess(channel), now)) ==> {
                    &&& old(ipc).channels.chan(channel) is None ==> r.0 == IpcError::Epipe.spec_code()
                    &&& old(ipc).channels.chan(channel) matches Some(ch) ==> {
                        &&& r == (0i64, ch.pending_caller)
                        &&& final(ipc).channels.slots@ == old(ipc).channels.slots@.update(
                            channel.0 as int,
                            Some(super::channel::Channel { pending_caller: None, ..ch }),
                        )
                        &&& ch.pending_caller matches Some(c) ==> final(ipc).timeouts.wakeup_errors@ == old(ipc).timeouts.wakeup_errors@.update(c.0 as int, IpcError::Ecanceled.spec_code() as i64)
                    }
                }
            }
        }),
{
    let pid = match current_process_id(threads, cpu) {
        Some(p) => p,
        None => {
            return (IpcError::Eperm.code(), None);
        },
    };
    match check_channel_access(caps, pid, channel, now) {
        Ok(()) => {},
        Err(e) => {
            return (e.code(), None);
        },
    }
    match ipc.channels.take_pending_caller(channel) {
        Err(e) => (e.code(), None),
        Ok(None) => (0, None),
        Ok(Some(c)) => {
            ipc.timeouts.wake_with_error(c, IpcError::Ecanceled.code());
            (0, Some(c))
        },
    }
}

/// Create a notification owned by `pid`; `Enomem` when the table is full.
pub fn notification_create(ipc: &mut KernelIpc, pid: ProcessId) -> (r: Result<NotificationId, i64>)
    requires
        old(ipc).wf(),
    ensures
        final(ipc).wf(),
        final(ipc).channels.slots@ == old(ipc).channels.slots@,
        (forall|i: int| 0 <= i < MAX_NOTIFICATIONS ==> old(ipc).notifications.slots@[i] is Some) <==> r is Err,
        r is Err ==> r == Err::<NotificationId, i64>(IpcError::Enomem.spec_code() as i64),
        r matches Ok(id) ==> old(ipc).notifications.slots@[id.0 as int] is None && (final(ipc).notifications.slots@[id.0 as int] matches Some(
            n,
        ) && n.word == 0 && n.creator == pid),
{
    match ipc.notifications.notification_create(pid) {
        Ok(id) => Ok(id),
        Err(e) => Err(e.code()),
    }
}

/// Threads woken by a signal, in the order the signal served them.
pub open spec fn woken_threads(w: Seq<(ThreadId, u64)>) -> Seq<ThreadId> {
    w.map_values(|p: (ThreadId, u64)| p.0)
}

/// Signal notification `id` with `bits` (see `NotificationTable::
/// notification_signal`). Each served waiter that is blocked in select has
/// the notification's entry of its select set marked fired with the matched
/// bits. Returns the served threads, all to be unblocked.
pub fn notification_signal(ipc: &mut KernelIpc, threads: &ThreadTable, id: NotificationId, bits: u64) -> (woken: Vec<ThreadId>)
    requires
        old(ipc).wf(),
        threads.wf(),
    ensures
        final(ipc).wf(),
        final(ipc).channels.slots@ == old(ipc).channels.slots@,
        final(ipc).timeouts == old(ipc).timeouts,
        ((id.0 as int) >= MAX_NOTIFICATIONS || old(ipc).notifications.slots@[id.0 as int] is None) ==> woken@.len() == 0
            && final(ipc).notifications.slots@ == old(ipc).notifications.slots@,
        (id.0 as int) < MAX_NOTIFICATIONS ==> (old(ipc).notifications.slots@[id.0 as int] matches Some(n) ==> {
            let w0 = n.word | bits;
            let ws = n.waiters@;
            &&& woken@ == woken_threads(super::notify::scan_woken(w0, ws, ws.len() as int))
            &&& final(ipc).notifications.slots@[id.0 as int] matches Some(m) && m.word == super::notify::scan_word(
                w0,
                ws,
                ws.len() as int,
            ) && m.waiters@.len() == ws.len() && (forall|i: int|
                0 <= i < ws.len() ==> #[trigger] m.waiters@[i] == if super::notify::scan_hits(w0, ws, i) {
                    None
                } else {
                    ws[i]
                })
            &&& final(ipc).notifications.results@ == super::notify::stored_results(
                old(ipc).notifications.results@,
                super::notify::scan_woken(w0, ws, ws.len() as int),
            )
        }),
{
    let served = ipc.notifications.notification_signal(id, bits);
    let ghost nslots = ipc.notifications.slots@;
    let ghost nresults = ipc.notifications.results@;
    let mut woken: Vec<ThreadId> = Vec::new();
    let mut i: usize = 0;
    while i < served.len()
        invariant
            i <= served@.len(),
            ipc.wf(),
            threads.wf(),
            ipc.channels.slots@ == old(ipc).channels.slots@,
            ipc.timeouts == old(ipc).timeouts,
            ipc.notifications.slots@ == nslots,
            ipc.notifications.results@ == nresults,
            forall|j: int| 0 <= j < served@.len() ==> ((#[trigger] served@[j]).0.0 as int) < MAX_THREADS,
            woken@ == woken_threads(served@.take(i as int)),
        decreases served@.len() - i,
    {
        let (tid, matched) = served[i];
        let state = threads.thread_state(tid);
        let _ = ipc.selects.try_wake_select(tid, state, SelectKind::Notification(id, matched), matched);
        woken.push(tid);
        proof {
            assert(served@.take(i as int + 1) =~= served@.take(i as int).push(served@[i as int]));
            assert(woken_threads(served@.take(i as int + 1)) =~= woken_threads(served@.take(i as int)).push(tid));
        }
        i = i + 1;
    }
    proof {
        assert(served@.take(served@.len() as int) =~= served@);
    }
    woken
}

/// The first half of a wait on notification `id` for the bits of `mask` by
/// the thread on `cpu`: `Einval` for an out-of-range id, no current thread,
/// or a missing object; matching bits already set are taken at once;
/// otherwise the thread registers as a waiter (`Enomem` when full) with the
/// deadline `now + timeout_ticks` (saturating; `u64::MAX` waits forever).
pub fn notification_wait_begin(
    ipc: &mut KernelIpc,
    threads: &ThreadTable,
    cpu: usize,
    id: NotificationId,
    mask: u64,
    timeout_ticks: u64,
    now: u64,
) -> (r: Result<WaitOutcome, i64>)
    requires
        old(ipc).wf(),
        threads.wf(),
        cpu < MAX_CPUS,
    ensures
        final(ipc).wf(),
        final(ipc).channels.slots@ == old(ipc).channels.slots@,
        final(ipc).timeouts == old(ipc).timeouts,
        r is Err ==> final(ipc).notifications.slots@ == old(ipc).notifications.slots@,
        (id.0 as int) >= MAX_NOTIFICATIONS ==> r == Err::<WaitOutcome, i64>(IpcError::Einval.spec_code() as i64),
        ((id.0 as int) < MAX_NOTIFICATIONS && threads.current@[cpu as int] is None) ==> r == Err::<WaitOutcome, i64>(
            IpcError::Einval.spec_code() as i64,
        ),
        (id.0 as int) < MAX_NOTIFICATIONS ==> (threads.current@[cpu as int] matches Some(t) ==> {
            &&& old(ipc).notifications.slots@[id.0 as int] is None ==> r == Err::<WaitOutcome, i64>(IpcError::Einval.spec_code() as i64)
            &&& old(ipc).notifications.slots@[id.0 as int] matches Some(n) ==> {
                let matched = n.word & mask;
                let k = super::notify::find_free(n.waiters@, 0);
                &&& matched != 0 ==> r == Ok::<WaitOutcome, i64>(WaitOutcome::Ready(matched)) && (final(ipc).notifications.slots@[id.0 as int] matches Some(m) && m.word == n.word & !matched)
                &&& (matched == 0 && k < 0) ==> r == Err::<WaitOutcome, i64>(IpcError::Enomem.spec_code() as i64)
                &&& (matched == 0 && k >= 0) ==> {
                    &&& r == Ok::<WaitOutcome, i64>(WaitOutcome::Blocked)
                    &&& final(ipc).notifications.slots@[id.0 as int] matches Some(m)
                    &&& m.waiters@ == n.waiters@.update(k, Some(super::notify::Waiter { tid: t, mask }))
                    &&& final(ipc).notifications.deadlines@[t.0 as int] == wait_deadline(now, timeout_ticks)
                }
            }
        }),
{
    if id.0 as usize >= MAX_NOTIFICATIONS {
        return Err(IpcError::Einval.code());
    }
    let t = match current_thread_id(threads, cpu) {
        Some(t) => t,
        None => {
            return Err(IpcError::Einval.code());
        },
    };
    let deadline = compute_wait_deadline(now, timeout_ticks);
    match ipc.notifications.wait_begin(id, t, mask, deadline) {
        Ok(o) => Ok(o),
        Err(e) => Err(e.code()),
    }
}

/// After a blocked waiter `t` on `id` is woken: the bits a signal handed it,
/// or `Etimedout` (its registration is removed).
pub fn notification_wait_finish(ipc: &mut KernelIpc, t: ThreadId, id: NotificationId) -> (r: Result<u64, i64>)
    requires
        old(ipc).wf(),
        (t.0 as int) < MAX_THREADS,
        (id.0 as int) < MAX_NOTIFICATIONS,
    ensures
        final(ipc).wf(),
        final(ipc).channels.slots@ == old(ipc).channels.slots@,
        final(ipc).notifications.results@ == old(ipc).notifications.results@.update(t.0 as int, None),
        old(ipc).notifications.results@[t.0 as int] matches Some(bits) ==> r == Ok::<u64, i64>(bits),
        old(ipc).notifications.results@[t.0 as int] is None ==> r == Err::<u64, i64>(IpcError::Etimedout.spec_code() as i64)
            && (old(ipc).notifications.slots@[id.0 as int] matches Some(n) ==> (final(ipc).notifications.slots@[id.0 as int] matches Some(
            m,
        ) && m.waiters@ == super::notify::without_waiter(n.waiters@, t))),
{
    match ipc.notifications.wait_finish(id, t) {
        Ok(b) => Ok(b),
        Err(e) => Err(e.code()),
    }
}

/// The threads among the first `n` whose notification/select deadline has
/// passed at `now` and that are blocked on a notification or in select,
/// in thread order: the ones a deadline sweep wakes.
pub open spec fn deadline_expired(deadlines: Seq<u64>, threads: &ThreadTable, now: u64, n: int) -> Seq<ThreadId>
    decreases n,
{
    if n <= 0 {
        Seq::empty()
    } else {
        let rest = deadline_expired(deadlines, threads, now, n - 1);
        let t = ThreadId((n - 1) as u32);
        if deadlines[n - 1] <= now && (threads.state_of(t) is BlockedNotification || threads.state_of(t) is BlockedSelect) {
            rest.push(t)
        } else {
            rest
        }
    }
}

/// Thread `t`'s deadline has passed at `now` and it is blocked on
/// notification `j`: the sweep takes its waiter registration there.
pub open spec fn sweeps_waiter(deadlines: Seq<u64>, threads: &ThreadTable, now: u64, j: int, t: ThreadId) -> bool {
    &&& deadlines[t.0 as int] <= now
    &&& threads.state_of(t) matches ThreadState::BlockedNotification { notification } && notification == j
}

/// The waiter slots `ws` of notification `j` once the sweep has passed the
/// first `n` threads: each swept thread leaves its (first) slot.
pub open spec fn swept_waiters(
    ws: Seq<Option<Waiter>>,
    j: int,
    deadlines: Seq<u64>,
    threads: &ThreadTable,
    now: u64,
    n: int,
) -> Seq<Option<Waiter>>
    decreases n,
{
    if n <= 0 {
        ws
    } else {
        let prev = swept_waiters(ws, j, deadlines, threads, now, n - 1);
        if sweeps_waiter(deadlines, threads, now, j, ThreadId((n - 1) as u32)) {
            without_waiter(prev, ThreadId((n - 1) as u32))
        } else {
            prev
        }
    }
}

/// Notification slot `j` went from `o` to `f` in a sweep that passed the
/// first `n` threads: same object, swept waiter slots.
pub open spec fn swept_slot(
    o: Option<super::notify::NotificationObject>,
    f: Option<super::notify::NotificationObject>,
    j: int,
    deadlines: Seq<u64>,
    threads: &ThreadTable,
    now: u64,
    n: int,
) -> bool {
    match o {
        None => f is None,
        Some(x) => f matches Some(y) && y.id == x.id && y.word == x.word && y.creator == x.creator
            && y.waiters@ == swept_waiters(x.waiters@, j, deadlines, threads, now, n),
    }
}

/// Expire notification and select waits whose deadline has passed at `now`:
/// the deadline is reset to "none"; a thread blocked on a notification
/// loses its waiter registration there, a thread blocked in select loses
/// its select registration; those threads are returned for unblocking, in
/// thread order. Threads in other states are left alone.
pub fn check_notification_timeouts(ipc: &mut KernelIpc, threads: &ThreadTable, now: u64) -> (woken: Vec<ThreadId>)
    requires
        old(ipc).wf(),
        threads.wf(),
    ensures
        final(ipc).wf(),
        final(ipc).channels.slots@ == old(ipc).channels.slots@,
        final(ipc).timeouts == old(ipc).timeouts,
        woken@ == deadline_expired(old(ipc).notifications.deadlines@, threads, now, MAX_THREADS as int),
        forall|i: int| 0 <= i < MAX_THREADS ==> #[trigger] final(ipc).notifications.deadlines@[i] == if old(ipc).notifications.deadlines@[i] <= now {
            u64::MAX
        } else {
            old(ipc).notifications.deadlines@[i]
        },
        forall|i: int| 0 <= i < MAX_THREADS ==> #[trigger] final(ipc).selects.waiters@[i] == if old(ipc).notifications.deadlines@[i] <= now && threads.state_of(ThreadId(i as u32)) is BlockedSelect {
            None
        } else {
            old(ipc).selects.waiters@[i]
        },
        forall|j: int|
            0 <= j < MAX_NOTIFICATIONS ==> swept_slot(
                old(ipc).notifications.slots@[j],
                #[trigger] final(ipc).notifications.slots@[j],
                j,
                old(ipc).notifications.deadlines@,
                threads,
                now,
                MAX_THREADS as int,
            ),
        final(ipc).notifications.results@ == old(ipc).notifications.results@,
{
    let mut woken: Vec<ThreadId> = Vec::new();
    let ghost n0 = ipc.notifications.slots@;
    let ghost d0 = ipc.notifications.deadlines@;
    let ghost s0 = ipc.selects.waiters@;
    let mut i: usize = 0;
    while i < MAX_THREADS
        invariant
            i <= MAX_THREADS,
            ipc.wf(),
            threads.wf(),
            d0.len() == MAX_THREADS,
            s0.len() == MAX_THREADS,
            ipc.channels.slots@ == old(ipc).channels.slots@,
            ipc.timeouts == old(ipc).timeouts,
            d0 == old(ipc).notifications.deadlines@,
            s0 == old(ipc).selects.waiters@,
            woken@ == deadline_expired(d0, threads, now, i as int),
            forall|j: int| 0 <= j < i ==> #[trigger] ipc.notifications.deadlines@[j] == if d0[j] <= now { u64::MAX } else { d0[j] },
            forall|j: int| i <= j < MAX_THREADS ==> #[trigger] ipc.notifications.deadlines@[j] == d0[j],
            forall|j: int| 0 <= j < i ==> #[trigger] ipc.selects.waiters@[j] == if d0[j] <= now && threads.state_of(
                ThreadId(j as u32),
            ) is BlockedSelect {
                None
            } else {
                s0[j]
            },
            forall|j: int| i <= j < MAX_THREADS ==> #[trigger] ipc.selects.waiters@[j] == s0[j],
            n0 == old(ipc).notifications.slots@,
            ipc.notifications.results@ == old(ipc).notifications.results@,
            forall|j: int|
                0 <= j < MAX_NOTIFICATIONS ==> swept_slot(n0[j], #[trigger] ipc.notifications.slots@[j], j, d0, threads, now, i as int),
        decreases MAX_THREADS - i,
    {
        let t = ThreadId(i as u32);
        let ghost before = ipc.notifications.slots@;
        if ipc.notifications.deadlines[i] <= now {
            ipc.notifications.deadlines.set(i, u64::MAX);
            match threads.thread_state(t) {
                ThreadState::BlockedNotification { notification } => {
                    if (notification as usize) < MAX_NOTIFICATIONS {
                        ipc.notifications.cleanup_waiter(NotificationId(notification), t);
                    }
                    woken.push(t);
                    proof {
                        assert forall|j: int| 0 <= j < MAX_NOTIFICATIONS implies swept_slot(
                            n0[j],
                            #[trigger] ipc.notifications.slots@[j],
                            j,
                            d0,
                            threads,
                            now,
                            i + 1,
                        ) by {
                            assert(swept_slot(n0[j], before[j], j, d0, threads, now, i as int));
                        }
                    }
                },
                ThreadState::BlockedSelect => {
                    ipc.selects.clear(t);
                    woken.push(t);
                },
                _ => {},
            }
        }
        i = i + 1;
    }
    woken
}

/// The timer tick's timeout sweep at `now`: expire IPC deadlines (each
/// expired thread gets its entry's error as wakeup error), then expire
/// notification and select waits. Returns the threads to unblock: the IPC
/// ones in slot order, then the others.
pub fn check_timeouts(ipc: &mut KernelIpc, threads: &ThreadTable, now: u64) -> (woken: Vec<ThreadId>)
    requires
        old(ipc).wf(),
        threads.wf(),
    ensures
        final(ipc).wf(),
        final(ipc).channels.slots@ == old(ipc).channels.slots@,
        woken@ == super::timeout::expired_prefix(old(ipc).timeouts.queue@, now, MAX_THREADS as int).map_values(
            |p: (ThreadId, i64)| p.0,
        ) + deadline_expired(old(ipc).notifications.deadlines@, threads, now, MAX_THREADS as int),
        forall|i: int| 0 <= i < MAX_THREADS ==> #[trigger] final(ipc).timeouts.queue@[i] == if super::timeout::is_expired(
            old(ipc).timeouts.queue@[i],
            now,
        ) {
            None
        } else {
            old(ipc).timeouts.queue@[i]
        },
        forall|i: int| 0 <= i < MAX_THREADS ==> #[trigger] final(ipc).timeouts.wakeup_errors@[i] == if super::timeout::is_expired(
            old(ipc).timeouts.queue@[i],
            now,
        ) {
            old(ipc).timeouts.queue@[i]->Some_0.error_code
        } else {
            old(ipc).timeouts.wakeup_errors@[i]
        },
{
    let expired = ipc.timeouts.expire(now);
    let mut woken: Vec<ThreadId> = Vec::new();
    let mut i: usize = 0;
    while i < expired.len()
        invariant
            i <= expired@.len(),
            woken@ == expired@.take(i as int).map_values(|p: (ThreadId, i64)| p.0),
        decreases expired@.len() - i,
    {
        woken.push(expired[i].0);
        proof {
            assert(expired@.take(i as int + 1) =~= expired@.take(i as int).push(expired@[i as int]));
            assert(expired@.take(i as int + 1).map_values(|p: (ThreadId, i64)| p.0) =~= expired@.take(i as int).map_values(
                |p: (ThreadId, i64)| p.0,
            ).push(expired@[i as int].0));
        }
        i = i + 1;
    }
    proof {
        assert(expired@.take(expired@.len() as int) =~= expired@);
    }
    let ghost q_after = ipc.timeouts.queue@;
    let mut more = check_notification_timeouts(ipc, threads, now);
    let ghost w1 = woken@;
    let ghost m1 = more@;
    woken.append(&mut more);
    proof {
        assert(woken@ =~= w1 + m1);
    }
    woken
}

/// Put the thread on `cpu` to sleep for `ticks` (> 0): a deadline
/// `now + ticks` with no error. Returns whether the thread must block
/// (not for zero ticks or without a current thread).
pub fn sleep_ticks(ipc: &mut KernelIpc, threads: &ThreadTable, cpu: usize, ticks: u64, now: u64) -> (blocked: bool)
    requires
        old(ipc).wf(),
        threads.wf(),
        cpu < MAX_CPUS,
        now + ticks <= u64::MAX,
    ensures
        final(ipc).wf(),
        final(ipc).channels.slots@ == old(ipc).channels.slots@,
        blocked == (ticks != 0 && threads.current@[cpu as int] is Some),
        !blocked ==> *final(ipc) == *old(ipc),
        final(ipc).timeouts.wakeup_errors@ == old(ipc).timeouts.wakeup_errors@,
        blocked ==> ({
            let t = threads.current@[cpu as int]->Some_0;
            final(ipc).timeouts.queue@ == old(ipc).timeouts.queue@.update(
                t.0 as int,
                Some(super::timeout::TimeoutEntry { tid: t, wake_at_tick: (now + ticks) as u64, error_code: 0 }),
            )
        }),
{
    if ticks == 0 {
        return false;
    }
    let t = match current_thread_id(threads, cpu) {
        Some(t) => t,
        None => {
            return false;
        },
    };
    ipc.timeouts.set_timeout(t, now + ticks, 0);
    true
}

/// Entry `e` is a channel.
pub open spec fn is_channel_entry(e: SelectEntry) -> bool {
    e.kind is Channel
}

/// The capability decision for a select set of thread `tid`: a set without
/// channels passes; otherwise the thread needs an owning process (`Eperm`)
/// in range (`Einval`) holding `ChannelAccess` to every channel (`Eperm`).
pub open spec fn select_access(
    threads: &ThreadTable,
    caps: &KernelCapabilitySystem,
    tid: ThreadId,
    entries: Seq<SelectEntry>,
    now: u64,
) -> Result<(), IpcError> {
    if !(exists|i: int| 0 <= i < entries.len() && is_channel_entry(#[trigger] entries[i])) {
        Ok(())
    } else {
        match threads.owner(tid) {
            None => Err(IpcError::Eperm),
            Some(pid) => if (pid.0 as int) >= MAX_PROCESSES {
                Err(IpcError::Einval)
            } else if forall|i: int|
                0 <= i < entries.len() && is_channel_entry(#[trigger] entries[i]) ==> caps.process_permits(
                    pid,
                    Capability::ChannelAccess(entries[i].kind->Channel_0),
                    now,
                ) {
                Ok(())
            } else {
                Err(IpcError::Eperm)
            },
        }
    }
}

/// The capability decision for a select set.
fn check_channel_entries(
    threads: &ThreadTable,
    caps: &KernelCapabilitySystem,
    tid: ThreadId,
    entries: &[SelectEntry],
    now: u64,
) -> (r: Result<(), IpcError>)
    requires
        threads.wf(),
        caps.wf(),
    ensures
        r == select_access(threads, caps, tid, entries@, now),
{
    let mut any = false;
    let mut i: usize = 0;
    while i < entries.len()
        invariant
            i <= entries@.len(),
            any == exists|j: int| 0 <= j < i && is_channel_entry(#[trigger] entries@[j]),
        decreases entries@.len() - i,
    {
        match entries[i].kind {
            SelectKind::Channel(_) => {
                any = true;
            },
            _ => {},
        }
        i = i + 1;
    }
    if !any {
        return Ok(());
    }
    let pid = match process_of_thread(threads, tid) {
        Some(p) => p,
        None => {
            return Err(IpcError::Eperm);
        },
    };
    if pid.0 as usize >= MAX_PROCESSES {
        // What the access check of the first channel entry answers.
        return Err(IpcError::Einval);
    }
    let mut k: usize = 0;
    while k < entries.len()
        invariant
            k <= entries@.len(),
            caps.wf(),
            (pid.0 as int) < MAX_PROCESSES,
            threads.owner(tid) == Some(pid),
            exists|j: int| 0 <= j < entries@.len() && is_channel_entry(#[trigger] entries@[j]),
            forall|j: int| 0 <= j < k && is_channel_entry(#[trigger] entries@[j]) ==> caps.process_permits(
                pid,
                Capability::ChannelAccess(entries@[j].kind->Channel_0),
                now,
            ),
        decreases entries@.len() - k,
    {
        match entries[k].kind {
            SelectKind::Channel(c) => {
                match check_channel_access(caps, pid, c, now) {
                    Ok(()) => {},
                    Err(e) => {
                        return Err(e);
                    },
                }
            },
            _ => {},
        }
        k = k + 1;
    }
    Ok(())
}

/// Entry `e` is ready: a channel with a queued message, or a notification
/// whose word meets the mask.
pub open spec fn entry_ready(ipc: &KernelIpc, e: SelectEntry) -> bool {
    match e.kind {
        SelectKind::Channel(c) => ipc.channels.chan(c) matches Some(ch) && ch.ring@.len() > 0,
        SelectKind::Notification(n, mask) => ipc.notifications.slots@[n.0 as int] matches Some(o) && o.word & mask != 0,
    }
}

/// Index of the first ready entry at or after `i`; `-1` if none.
pub open spec fn first_ready(ipc: &KernelIpc, entries: Seq<SelectEntry>, i: int) -> int
    decreases entries.len() - i,
{
    if i < 0 || i >= entries.len() {
        -1
    } else if entry_ready(ipc, entries[i]) {
        i
    } else {
        first_ready(ipc, entries, i + 1)
    }
}

/// How the first half of a select ended.
#[derive(Debug, Clone, Copy, PartialEq, Eq, Structural)]
pub enum SelectStep {
    /// Entry `.0` was ready; `.1` the notification bits taken (0 for a channel).
    Ready(usize, u64),
    /// Nothing was ready; the thread is registered and must block.
    Blocked,
}

/// Scan a valid select set in order for the first ready entry; a ready
/// notification gives up the matched bits.
fn scan_entries(ipc: &mut KernelIpc, entries: &[SelectEntry]) -> (r: Option<(usize, u64)>)
    requires
        old(ipc).wf(),
        select_set_valid(entries@),
    ensures
        final(ipc).wf(),
        final(ipc).channels.slots@ == old(ipc).channels.slots@,
        final(ipc).timeouts == old(ipc).timeouts,
        final(ipc).selects.waiters@ == old(ipc).selects.waiters@,
        first_ready(old(ipc), entries@, 0) < 0 ==> r is None && final(ipc).notifications.slots@ == old(ipc).notifications.slots@,
        first_ready(old(ipc), entries@, 0) >= 0 ==> {
            let k = first_ready(old(ipc), entries@, 0);
            &&& r matches Some((i, bits)) && i == k
            &&& entries@[k].kind matches SelectKind::Channel(_) ==> r == Some((k as usize, 0u64))
                && final(ipc).notifications.slots@ == old(ipc).notifications.slots@
            &&& entries@[k].kind matches SelectKind::Notification(n, mask) ==> ({
                let o = old(ipc).notifications.slots@[n.0 as int]->Some_0;
                &&& r == Some((k as usize, o.word & mask))
                &&& final(ipc).notifications.slots@[n.0 as int] matches Some(m) && m.word == o.word & !(o.word & mask)
            })
        },
{
    let mut i: usize = 0;
    while i < entries.len()
        invariant
            i <= entries@.len(),
            select_set_valid(entries@),
            ipc.wf(),
            ipc.channels.slots@ == old(ipc).channels.slots@,
            ipc.notifications.slots@ == old(ipc).notifications.slots@,
            ipc.timeouts == old(ipc).timeouts,
            ipc.selects.waiters@ == old(ipc).selects.waiters@,
            first_ready(old(ipc), entries@, 0) == first_ready(old(ipc), entries@, i as int),
        decreases entries@.len() - i,
    {
        match entries[i].kind {
            SelectKind::Channel(c) => {
                proof {
                    assert(super::select::entry_in_range(entries@[i as int]));
                }
                if ipc.channels.has_message(c) {
                    return Some((i, 0));
                }
            },
            SelectKind::Notification(n, mask) => {
                proof {
                    assert(super::select::entry_in_range(entries@[i as int]));
                }
                let bits = ipc.notifications.take_matching(n, mask);
                if bits != 0 {
                    return Some((i, bits));
                }
            },
        }
        i = i + 1;
    }
    None
}

/// Among the first `n` entries, one names channel `c`.
pub open spec fn names_channel(entries: Seq<SelectEntry>, c: int, n: int) -> bool
    decreases n,
{
    if n <= 0 {
        false
    } else {
        names_channel(entries, c, n - 1) || (entries[n - 1].kind matches SelectKind::Channel(x) && x.0 == c)
    }
}

/// Channel slot `c` after thread `t` registered on the first `n` entries:
/// it became the waiting receiver if the set names the channel and it had
/// none.
pub open spec fn registered_slot(o: Option<Channel>, c: int, t: ThreadId, entries: Seq<SelectEntry>, n: int) -> Option<Channel> {
    if names_channel(entries, c, n) && (o matches Some(ch) && ch.waiting_receiver is None) {
        Some(Channel { waiting_receiver: Some(t), ..o->Some_0 })
    } else {
        o
    }
}

/// Channel slot `c` after thread `t` left the first `n` entries: it stops
/// being the waiting receiver of a named channel it was waiting on.
pub open spec fn unregistered_slot(o: Option<Channel>, c: int, t: ThreadId, entries: Seq<SelectEntry>, n: int) -> Option<Channel> {
    if names_channel(entries, c, n) && (o matches Some(ch) && ch.waiting_receiver == Some(t)) {
        Some(Channel { waiting_receiver: None, ..o->Some_0 })
    } else {
        o
    }
}

/// The waiter slots of notification `id` after thread `t` registered on the
/// first `n` entries: each entry naming it takes the first free slot (with
/// its mask) while there is one.
pub open spec fn waiters_added(ws: Seq<Option<Waiter>>, t: ThreadId, id: int, entries: Seq<SelectEntry>, n: int) -> Seq<
    Option<Waiter>,
>
    decreases n,
{
    if n <= 0 {
        ws
    } else {
        let prev = waiters_added(ws, t, id, entries, n - 1);
        match entries[n - 1].kind {
            SelectKind::Notification(x, mask) => if x.0 == id && find_free(prev, 0) >= 0 {
                prev.update(find_free(prev, 0), Some(Waiter { tid: t, mask }))
            } else {
                prev
            },
            SelectKind::Channel(_) => prev,
        }
    }
}

/// The waiter slots of notification `id` after thread `t` left the first
/// `n` entries: each entry naming it removes `t`'s first waiter slot.
pub open spec fn waiters_removed(ws: Seq<Option<Waiter>>, t: ThreadId, id: int, entries: Seq<SelectEntry>, n: int) -> Seq<
    Option<Waiter>,
>
    decreases n,
{
    if n <= 0 {
        ws
    } else {
        let prev = waiters_removed(ws, t, id, entries, n - 1);
        match entries[n - 1].kind {
            SelectKind::Notification(x, _) => if x.0 == id { without_waiter(prev, t) } else { prev },
            SelectKind::Channel(_) => prev,
        }
    }
}

/// Register thread `t` on every source of a valid select set: it becomes the
/// waiting receiver of each channel that has none, and takes a free waiter
/// slot of each notification.
fn register_on_sources(ipc: &mut KernelIpc, t: ThreadId, entries: &[SelectEntry])
    requires
        old(ipc).wf(),
        select_set_valid(entries@),
        (t.0 as int) < MAX_THREADS,
    ensures
        final(ipc).wf(),
        final(ipc).timeouts == old(ipc).timeouts,
        final(ipc).selects.waiters@ == old(ipc).selects.waiters@,
        final(ipc).notifications.deadlines@ == old(ipc).notifications.deadlines@,
        final(ipc).notifications.results@ == old(ipc).notifications.results@,
        forall|c: int| 0 <= c < MAX_CHANNELS ==> #[trigger] final(ipc).channels.slots@[c] == registered_slot(
            old(ipc).channels.slots@[c], c, t, entries@, entries@.len() as int),
        forall|j: int| 0 <= j < MAX_NOTIFICATIONS ==> match #[trigger] old(ipc).notifications.slots@[j] {
            None => final(ipc).notifications.slots@[j] is None,
            Some(o) => final(ipc).notifications.slots@[j] matches Some(m) && m.id == o.id && m.word == o.word
                && m.creator == o.creator && m.waiters@ == waiters_added(o.waiters@, t, j, entries@, entries@.len() as int),
        },
{
    let mut i: usize = 0;
    while i < entries.len()
        invariant
            i <= entries@.len(),
            select_set_valid(entries@),
            (t.0 as int) < MAX_THREADS,
            ipc.wf(),
            old(ipc).wf(),
            ipc.timeouts == old(ipc).timeouts,
            ipc.selects.waiters@ == old(ipc).selects.waiters@,
            ipc.notifications.deadlines@ == old(ipc).notifications.deadlines@,
            ipc.notifications.results@ == old(ipc).notifications.results@,
            forall|c: int| 0 <= c < MAX_CHANNELS ==> #[trigger] ipc.channels.slots@[c] == registered_slot(
                old(ipc).channels.slots@[c], c, t, entries@, i as int),
            forall|j: int| 0 <= j < MAX_NOTIFICATIONS ==> match #[trigger] old(ipc).notifications.slots@[j] {
                None => ipc.notifications.slots@[j] is None,
                Some(o) => ipc.notifications.slots@[j] matches Some(m) && m.id == o.id && m.word == o.word
                    && m.creator == o.creator && m.waiters@ == waiters_added(o.waiters@, t, j, entries@, i as int),
            },
        decreases entries@.len() - i,
    {
        proof {
            assert(super::select::entry_in_range(entries@[i as int]));
        }
        let ghost chans = ipc.channels.slots@;
        let ghost notes = ipc.notifications.slots@;
        match entries[i].kind {
            SelectKind::Channel(c) => {
                ipc.channels.register_receiver(c, t);
                proof {
                    assert forall|d: int| 0 <= d < MAX_CHANNELS implies #[trigger] ipc.channels.slots@[d] == registered_slot(
                        old(ipc).channels.slots@[d], d, t, entries@, i + 1) by {
                        assert(names_channel(entries@, d, i + 1) == (names_channel(entries@, d, i as int) || d == c.0));
                    }
                    assert forall|j: int| 0 <= j < MAX_NOTIFICATIONS implies waiters_added(
                        old(ipc).notifications.slots@[j]->Some_0.waiters@, t, j, entries@, i + 1) == waiters_added(
                        old(ipc).notifications.slots@[j]->Some_0.waiters@, t, j, entries@, i as int) by {}
                }
            },
            SelectKind::Notification(n, mask) => {
                ipc.notifications.add_waiter(n, t, mask);
                proof {
                    assert forall|d: int| 0 <= d < MAX_CHANNELS implies #[trigger] ipc.channels.slots@[d] == registered_slot(
                        old(ipc).channels.slots@[d], d, t, entries@, i + 1) by {
                        assert(names_channel(entries@, d, i + 1) == names_channel(entries@, d, i as int));
                    }
                    assert forall|j: int| 0 <= j < MAX_NOTIFICATIONS implies match #[trigger] old(ipc).notifications.slots@[j] {
                        None => ipc.notifications.slots@[j] is None,
                        Some(o) => ipc.notifications.slots@[j] matches Some(m) && m.id == o.id && m.word == o.word
                            && m.creator == o.creator && m.waiters@ == waiters_added(o.waiters@, t, j, entries@, i + 1),
                    } by {
                        assert(notes[j] == ipc.notifications.slots@[j] || j == n.0);
                    }
                }
            },
        }
        i = i + 1;
    }
}

/// Undo the registration of thread `t` on the sources of a valid select set.
fn unregister_from_sources(ipc: &mut KernelIpc, t: ThreadId, entries: &[SelectEntry])
    requires
        old(ipc).wf(),
        select_set_valid(entries@),
    ensures
        final(ipc).wf(),
        final(ipc).timeouts == old(ipc).timeouts,
        final(ipc).selects.waiters@ == old(ipc).selects.waiters@,
        final(ipc).notifications.deadlines@ == old(ipc).notifications.deadlines@,
        final(ipc).notifications.results@ == old(ipc).notifications.results@,
        forall|c: int| 0 <= c < MAX_CHANNELS ==> #[trigger] final(ipc).channels.slots@[c] == unregistered_slot(
            old(ipc).channels.slots@[c], c, t, entries@, entries@.len() as int),
        forall|j: int| 0 <= j < MAX_NOTIFICATIONS ==> match #[trigger] old(ipc).notifications.slots@[j] {
            None => final(ipc).notifications.slots@[j] is None,
            Some(o) => final(ipc).notifications.slots@[j] matches Some(m) && m.id == o.id && m.word == o.word
                && m.creator == o.creator && m.waiters@ == waiters_removed(o.waiters@, t, j, entries@, entries@.len() as int),
        },
{
    let mut i: usize = 0;
    while i < entries.len()
        invariant
            i <= entries@.len(),
            select_set_valid(entries@),
            ipc.wf(),
            old(ipc).wf(),
            ipc.timeouts == old(ipc).timeouts,
            ipc.selects.waiters@ == old(ipc).selects.waiters@,
            ipc.notifications.deadlines@ == old(ipc).notifications.deadlines@,
            ipc.notifications.results@ == old(ipc).notifications.results@,
            forall|c: int| 0 <= c < MAX_CHANNELS ==> #[trigger] ipc.channels.slots@[c] == unregistered_slot(
                old(ipc).channels.slots@[c], c, t, entries@, i as int),
            forall|j: int| 0 <= j < MAX_NOTIFICATIONS ==> match #[trigger] old(ipc).notifications.slots@[j] {
                None => ipc.notifications.slots@[j] is None,
                Some(o) => ipc.notifications.slots@[j] matches Some(m) && m.id == o.id && m.word == o.word
                    && m.creator == o.creator && m.waiters@ == waiters_removed(o.waiters@, t, j, entries@, i as int),
            },
        decreases entries@.len() - i,
    {
        proof {
            assert(super::select::entry_in_range(entries@[i as int]));
        }
        let ghost notes = ipc.notifications.slots@;
        match entries[i].kind {
            SelectKind::Channel(c) => {
                ipc.channels.clear_waiting_receiver(c, t);
                proof {
                    assert forall|d: int| 0 <= d < MAX_CHANNELS implies #[trigger] ipc.channels.slots@[d] == unregistered_slot(
                        old(ipc).channels.slots@[d], d, t, entries@, i + 1) by {
                        assert(names_channel(entries@, d, i + 1) == (names_channel(entries@, d, i as int) || d == c.0));
                    }
                    assert forall|j: int| 0 <= j < MAX_NOTIFICATIONS implies waiters_removed(
                        old(ipc).notifications.slots@[j]->Some_0.waiters@, t, j, entries@, i + 1) == waiters_removed(
                        old(ipc).notifications.slots@[j]->Some_0.waiters@, t, j, entries@, i as int) by {}
                }
            },
            SelectKind::Notification(n, _) => {
                ipc.notifications.cleanup_waiter(n, t);
                proof {
                    assert forall|d: int| 0 <= d < MAX_CHANNELS implies #[trigger] ipc.channels.slots@[d] == unregistered_slot(
                        old(ipc).channels.slots@[d], d, t, entries@, i + 1) by {
                        assert(names_channel(entries@, d, i + 1) == names_channel(entries@, d, i as int));
                    }
                    assert forall|j: int| 0 <= j < MAX_NOTIFICATIONS implies match #[trigger] old(ipc).notifications.slots@[j] {
                        None => ipc.notifications.slots@[j] is None,
                        Some(o) => ipc.notifications.slots@[j] matches Some(m) && m.id == o.id && m.word == o.word
                            && m.creator == o.creator && m.waiters@ == waiters_removed(o.waiters@, t, j, entries@, i + 1),
                    } by {
                        assert(notes[j] == ipc.notifications.slots@[j] || j == n.0);
                    }
                }
            },
        }
        i = i + 1;
    }
}

/// The first half of a select by the thread on `cpu`: `Einval` without a
/// current thread or for an invalid set, then the capability decision for
/// the set, all before any source is looked at. The first ready entry (in
/// order) is returned at once; otherwise the thread is registered (select
/// table, every source) with the deadline of `timeout_ticks` and must block.
pub fn ipc_select_begin(
    ipc: &mut KernelIpc,
    threads: &ThreadTable,
    caps: &KernelCapabilitySystem,
    cpu: usize,
    entries: &[SelectEntry],
    timeout_ticks: u64,
    now: u64,
) -> (r: Result<SelectStep, i64>)
    requires
        old(ipc).wf(),
        threads.wf(),
        caps.wf(),
        cpu < MAX_CPUS,
    ensures
        final(ipc).wf(),
        final(ipc).timeouts == old(ipc).timeouts,
        r is Err ==> final(ipc).channels.slots@ == old(ipc).channels.slots@ && final(ipc).notifications.slots@ == old(ipc).notifications.slots@ && final(ipc).selects.waiters@ == old(ipc).selects.waiters@,
        threads.current@[cpu as int] is None ==> r == Err::<SelectStep, i64>(IpcError::Einval.spec_code() as i64),
        threads.current@[cpu as int] matches Some(t) ==> {
            &&& !select_set_valid(entries@) ==> r == Err::<SelectStep, i64>(IpcError::Einval.spec_code() as i64)
            &&& select_set_valid(entries@) ==> {
                let acc = select_access(threads, caps, t, entries@, now);
                let k = first_ready(old(ipc), entries@, 0);
                &&& acc matches Err(e) ==> r == Err::<SelectStep, i64>(e.spec_code() as i64)
                &&& (acc is Ok && k >= 0) ==> {
                    &&& entries@[k].kind matches SelectKind::Channel(_) ==> r == Ok::<SelectStep, i64>(SelectStep::Ready(k as usize, 0))
                    &&& entries@[k].kind matches SelectKind::Notification(n, mask) ==> r == Ok::<SelectStep, i64>(
                        SelectStep::Ready(k as usize, old(ipc).notifications.slots@[n.0 as int]->Some_0.word & mask),
                    )
                    &&& final(ipc).selects.waiters@ == old(ipc).selects.waiters@
                }
                &&& (acc is Ok && k < 0) ==> {
                    &&& r == Ok::<SelectStep, i64>(SelectStep::Blocked)
                    &&& final(ipc).selects.waiters@[t.0 as int] matches Some(sw) && sw.tid == t && sw.entries@ == entries@
                        && sw.ready_index is None
                    &&& final(ipc).notifications.deadlines@[t.0 as int] == wait_deadline(now, timeout_ticks)
                }
            }
        },
{
    let t = match current_thread_id(threads, cpu) {
        Some(t) => t,
        None => {
            return Err(IpcError::Einval.code());
        },
    };
    match validate_select(entries) {
        Ok(()) => {},
        Err(e) => {
            return Err(e.code());
        },
    }
    match check_channel_entries(threads, caps, t, entries, now) {
        Ok(()) => {},
        Err(e) => {
            return Err(e.code());
        },
    }
    match scan_entries(ipc, entries) {
        Some((i, bits)) => {
            return Ok(SelectStep::Ready(i, bits));
        },
        None => {},
    }
    let deadline = compute_wait_deadline(now, timeout_ticks);
    ipc.selects.register(t, entries);
    register_on_sources(ipc, t, entries);
    ipc.notifications.set_select_deadline(t, deadline);
    Ok(SelectStep::Blocked)
}

/// After a thread `t` blocked in select on `entries` is woken: its select
/// registration is taken and it leaves every source. The fired entry and its
/// bits, or `Etimedout` when none fired.
pub fn ipc_select_finish(ipc: &mut KernelIpc, t: ThreadId, entries: &[SelectEntry]) -> (r: Result<(usize, u64), i64>)
    requires
        old(ipc).wf(),
        (t.0 as int) < MAX_THREADS,
        select_set_valid(entries@),
    ensures
        final(ipc).wf(),
        final(ipc).timeouts == old(ipc).timeouts,
        final(ipc).selects.waiters@ == old(ipc).selects.waiters@.update(t.0 as int, None),
        ({
            let res = match old(ipc).selects.waiters@[t.0 as int] {
                Some(sw) => (sw.ready_index, sw.ready_bits),
                None => (None, 0u64),
            };
            &&& res.0 matches Some(i) ==> r == Ok::<(usize, u64), i64>((i, res.1))
            &&& res.0 is None ==> r == Err::<(usize, u64), i64>(IpcError::Etimedout.spec_code() as i64)
        }),
{
    let (ready_index, ready_bits) = ipc.selects.take_result(t);
    unregister_from_sources(ipc, t, entries);
    match ready_index {
        Some(i) => Ok((i, ready_bits)),
        None => Err(IpcError::Etimedout.code()),
    }
}

/// Revoke token `token_id` in process `pid` (with its direct children), then
/// destroy every channel created under it (their blocked threads are woken
/// with `Epipe`). Returns the threads to unblock.
pub fn revoke_in_process(
    caps: &mut KernelCapabilitySystem,
    ipc: &mut KernelIpc,
    pid: ProcessId,
    token_id: CapabilityTokenId,
) -> (woken: Vec<ThreadId>)
    requires
        old(caps).wf(),
        old(ipc).wf(),
    ensures
        final(caps).wf(),
        final(ipc).wf(),
        forall|j: int| 0 <= j < MAX_PROCESSES && j != pid.0 ==> final(caps).procs@[j] == old(caps).procs@[j],
        old(caps).has_process(pid) ==> forall|i: int|
            0 <= i < old(caps).tokens_of(pid).len() ==> #[trigger] final(caps).tokens_of(pid)[i] == crate::cap::revoked_by(
                old(caps).tokens_of(pid)[i],
                token_id,
            ),
        forall|i: int| 0 <= i < MAX_CHANNELS ==> #[trigger] final(ipc).channels.slots@[i] == if old(ipc).channels.slots@[i] matches Some(
            ch,
        ) && ch.creation_cap == Some(token_id) {
            None
        } else {
            old(ipc).channels.slots@[i]
        },
{
    caps.revoke_token(pid, token_id);
    revoke_channels_for_cap(ipc, token_id)
}

/// Destroy every channel created under `token_id`; the threads to unblock.
pub fn revoke_channels_for_cap(ipc: &mut KernelIpc, token_id: CapabilityTokenId) -> (woken: Vec<ThreadId>)
    requires
        old(ipc).wf(),
    ensures
        final(ipc).wf(),
        forall|i: int| 0 <= i < MAX_CHANNELS ==> #[trigger] final(ipc).channels.slots@[i] == if old(ipc).channels.slots@[i] matches Some(
            ch,
        ) && ch.creation_cap == Some(token_id) {
            None
        } else {
            old(ipc).channels.slots@[i]
        },
{
    let ids = ipc.channels.created_under(token_id);
    let ghost s0 = old(ipc).channels.slots@;
    proof {
        lemma_created_under(s0, token_id, MAX_CHANNELS as int);
    }
    let mut woken: Vec<ThreadId> = Vec::new();
    let mut k: usize = 0;
    while k < ids.len()
        invariant
            k <= ids@.len(),
            ipc.wf(),
            s0.len() == MAX_CHANNELS,
            ids@ == super::channel::created_under_prefix(s0, token_id, MAX_CHANNELS as int),
            forall|j: int| 0 <= j < ids@.len() ==> ((#[trigger] ids@[j]).0 as int) < MAX_CHANNELS,
            forall|a: int, b: int| 0 <= a < b < ids@.len() ==> (#[trigger] ids@[a]).0 < (#[trigger] ids@[b]).0,
            forall|i: int| 0 <= i < MAX_CHANNELS ==> (#[trigger] in_ids(ids@, i) <==> (s0[i] matches Some(ch) && ch.creation_cap == Some(token_id))),
            forall|i: int| 0 <= i < MAX_CHANNELS ==> #[trigger] ipc.channels.slots@[i] == if in_ids(ids@.take(k as int), i) {
                None
            } else {
                s0[i]
            },
        decreases ids@.len() - k,
    {
        let c = ids[k];
        let ghost before = ipc.channels.slots@;
        match channel_destroy_unchecked(ipc, c) {
            Ok(mut w) => {
                woken.append(&mut w);
            },
            Err(_) => {},
        }
        proof {
            assert forall|i: int| 0 <= i < MAX_CHANNELS implies #[trigger] ipc.channels.slots@[i] == if in_ids(ids@.take(k as int + 1), i) {
                None
            } else {
                s0[i]
            } by {
                if i == c.0 {
                    assert(ids@.take(k as int + 1)[k as int] == c);
                } else {
                    assert(ipc.channels.slots@[i] == before[i]);
                    if in_ids(ids@.take(k as int + 1), i) {
                        let j = choose|j: int| 0 <= j < k + 1 && #[trigger] ids@.take(k as int + 1)[j].0 == i;
                        assert(j != k);
                        assert(ids@.take(k as int)[j].0 == i);
                    } else {
                        assert forall|j: int| 0 <= j < k implies #[trigger] ids@.take(k as int)[j].0 != i by {
                            assert(ids@.take(k as int + 1)[j] == ids@.take(k as int)[j]);
                        }
                    }
                }
            }
        }
        k = k + 1;
    }
    proof {
        assert(ids@.take(ids@.len() as int) =~= ids@);
    }
    woken
}

/// Some id in `ids` names channel slot `i`.
pub open spec fn in_ids(ids: Seq<ChannelId>, i: int) -> bool {
    exists|j: int| 0 <= j < ids.len() && #[trigger] ids[j].0 == i
}

proof fn lemma_created_under(s: Seq<Option<super::channel::Channel>>, token: CapabilityTokenId, n: int)
    requires
        0 <= n <= s.len(),
        s.len() == MAX_CHANNELS,
    ensures
        ({
            let ids = super::channel::created_under_prefix(s, token, n);
            &&& forall|j: int| 0 <= j < ids.len() ==> 0 <= (#[trigger] ids[j]).0 < n
            &&& forall|a: int, b: int| 0 <= a < b < ids.len() ==> (#[trigger] ids[a]).0 < (#[trigger] ids[b]).0
            &&& forall|i: int| 0 <= i < n ==> (#[trigger] in_ids(ids, i) <==> (s[i] matches Some(ch) && ch.creation_cap == Some(token)))
            &&& forall|i: int| n <= i < MAX_CHANNELS ==> !#[trigger] in_ids(ids, i)
        }),
    decreases n,
{
    if n > 0 {
        lemma_created_under(s, token, n - 1);
        let rest = super::channel::created_under_prefix(s, token, n - 1);
        let ids = super::channel::created_under_prefix(s, token, n);
        assert forall|i: int| 0 <= i < MAX_CHANNELS implies (#[trigger] in_ids(ids, i) <==> (in_ids(rest, i) || (i == n - 1 && (s[n
            - 1] matches Some(ch) && ch.creation_cap == Some(token))))) by {
            if s[n - 1] matches Some(ch) && ch.creation_cap == Some(token) {
                if in_ids(ids, i) {
                    let j = choose|j: int| 0 <= j < ids.len() && #[trigger] ids[j].0 == i;
                    if j < rest.len() {
                        assert(rest[j] == ids[j]);
                    }
                }
                if in_ids(rest, i) {
                    let j = choose|j: int| 0 <= j < rest.len() && #[trigger] rest[j].0 == i;
                    assert(ids[j] == rest[j]);
                }
                if i == n - 1 {
                    assert(ids[rest.len() as int].0 == i);
                }
            }
        }
    }
}

impl KernelCapabilitySystem {
    /// Capability-kit revoke: revoke the live token behind `handle` in
    /// `holder`'s table (with its direct children) and destroy the channels
    /// created under it. `InvalidHandle` for a missing process or a handle
    /// without a live token. On success the threads to unblock.
    pub fn revoke(&mut self, ipc: &mut KernelIpc, holder: ProcessId, handle: crate::cap::CapabilityHandle) -> (r: Result<
        Vec<ThreadId>,
        crate::cap::CapabilityError,
    >)
        requires
            old(self).wf(),
            old(ipc).wf(),
        ensures
            final(self).wf(),
            final(ipc).wf(),
            ({
                let ts = old(self).tokens_of(holder);
                let live = old(self).has_process(holder) && (handle.0 as int) < ts.len() && (ts[handle.0 as int] matches Some(
                    t,
                ) && !t.revoked);
                &&& !live ==> r == Err::<Vec<ThreadId>, crate::cap::CapabilityError>(
                    crate::cap::CapabilityError::InvalidHandle { handle },
                ) && final(self).procs@ == old(self).procs@ && final(ipc).channels.slots@ == old(ipc).channels.slots@
                &&& live ==> {
                    let id = ts[handle.0 as int]->Some_0.id;
                    &&& r is Ok
                    &&& forall|i: int| 0 <= i < ts.len() ==> #[trigger] final(self).tokens_of(holder)[i] == crate::cap::revoked_by(
                        ts[i],
                        id,
                    )
                    &&& forall|i: int| 0 <= i < MAX_CHANNELS ==> #[trigger] final(ipc).channels.slots@[i] == if old(ipc).channels.slots@[i] matches Some(ch) && ch.creation_cap == Some(id) {
                        None
                    } else {
                        old(ipc).channels.slots@[i]
                    }
                }
            }),
    {
        if holder.0 as usize >= MAX_PROCESSES {
            return Err(crate::cap::CapabilityError::InvalidHandle { handle });
        }
        let id = match &self.procs[holder.0 as usize] {
            Some(p) => match p.cap_table.get(handle) {
                Some(t) => t.id,
                None => {
                    return Err(crate::cap::CapabilityError::InvalidHandle { handle });
                },
            },
            None => {
                return Err(crate::cap::CapabilityError::InvalidHandle { handle });
            },
        };
        self.revoke_token(holder, id);
        let w = revoke_channels_for_cap(ipc, id);
        Ok(w)
    }
}

} // verus!
