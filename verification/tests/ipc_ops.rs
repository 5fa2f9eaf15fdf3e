use aios_kernel::cap::{grant_to_process, Capability, KernelCapabilitySystem, MAX_PROCESSES};
use aios_kernel::ids::{ChannelId, ProcessId, ThreadId};
use aios_kernel::ipc::notify::WaitOutcome;
use aios_kernel::ipc::ops::{
    channel_create, channel_destroy, ipc_call_begin, ipc_cancel, ipc_call_finish, ipc_recv_begin, ipc_recv_finish, ipc_reply, ipc_select_begin,
    ipc_send, notification_create, notification_signal, notification_wait_begin, notification_wait_finish, check_timeouts,
    revoke_in_process, sleep_ticks, CallStart, RecvStep, SelectStep,
};
use aios_kernel::ipc::select::{SelectEntry, SelectKind};
use aios_kernel::ipc::shmem::{
    process_cleanup_shared_memory, region_dmap_addr, region_size, shared_memory_create, shared_memory_map,
    shared_memory_prepare, shared_memory_share, shared_memory_unmap, VmFlags, DIRECT_MAP_BASE, VM_READ, VM_WRITE,
};

use aios_kernel::ipc::{IpcError, KernelIpc, MAX_CHANNELS};
use aios_kernel::task::{ThreadRecord, ThreadState, ThreadTable};

/// Thread 1 (process 1) runs on CPU 0, thread 2 (process 2) on CPU 1;
/// process 1 may create channels.
fn world() -> (KernelIpc, ThreadTable, KernelCapabilitySystem) {
    let ipc = KernelIpc::new();
    let mut tt = ThreadTable::new();
    tt.threads[1] = Some(ThreadRecord { owner_pid: Some(ProcessId(1)), state: ThreadState::Running });
    tt.threads[2] = Some(ThreadRecord { owner_pid: Some(ProcessId(2)), state: ThreadState::Running });
    tt.current[0] = Some(ThreadId(1));
    tt.current[1] = Some(ThreadId(2));
    let mut caps = KernelCapabilitySystem::new();
    caps.add_process(ProcessId(1));
    caps.add_process(ProcessId(2));
    grant_to_process(&mut caps, ProcessId(1), Capability::ChannelCreate, false, 0).unwrap();
    (ipc, tt, caps)
}

fn access(caps: &mut KernelCapabilitySystem, pid: u32, ch: ChannelId) {
    grant_to_process(caps, ProcessId(pid), Capability::ChannelAccess(ch), false, 0).unwrap();
}

#[test]
fn send_then_receive_through_the_operations() {
    let (mut ipc, tt, mut caps) = world();
    let ch = channel_create(&mut ipc, &tt, &caps, ThreadId(1), 0).unwrap();
    assert_eq!(ch, ChannelId(0));
    // Thread 2's process holds no ChannelCreate.
    assert_eq!(channel_create(&mut ipc, &tt, &caps, ThreadId(2), 0), Err(IpcError::Eperm.code()));
    // No ChannelAccess yet: the send is refused.
    assert_eq!(ipc_send(&mut ipc, &tt, &caps, 0, ch, b"hello", 0), (IpcError::Eperm.code(), None));
    access(&mut caps, 1, ch);
    access(&mut caps, 2, ch);
    assert_eq!(ipc_send(&mut ipc, &tt, &caps, 0, ch, b"hello", 0), (0, None));
    assert_eq!(ipc_send(&mut ipc, &tt, &caps, 0, ch, &[0u8; 300], 0).0, IpcError::Enospc.code());
    let mut buf = [0u8; 16];
    match ipc_recv_begin(&mut ipc, &tt, &caps, 1, ch, &mut buf, 100, 0) {
        Ok(RecvStep::Done(n, from)) => {
            assert_eq!(n, 5);
            assert_eq!(from, ThreadId(1));
            assert_eq!(&buf[..5], b"hello");
        },
        other => panic!("expected a message, got {:?}", other.err()),
    }
    // Nothing left: the receiver must block.
    assert!(matches!(ipc_recv_begin(&mut ipc, &tt, &caps, 1, ch, &mut buf, 100, 0), Ok(RecvStep::Blocked)));
}

#[test]
fn call_and_reply_through_the_operations() {
    let (mut ipc, tt, mut caps) = world();
    let ch = channel_create(&mut ipc, &tt, &caps, ThreadId(1), 0).unwrap();
    access(&mut caps, 1, ch);
    access(&mut caps, 2, ch);
    // The server (thread 2) waits first.
    let mut sbuf = [0u8; 32];
    assert!(matches!(ipc_recv_begin(&mut ipc, &tt, &caps, 1, ch, &mut sbuf, 1000, 0), Ok(RecvStep::Blocked)));
    // The client calls: the waiting server is named for the direct switch.
    match ipc_call_begin(&mut ipc, &tt, &caps, 0, ch, b"ping", 8, 1000, 0) {
        Ok(CallStart::Blocked(receiver)) => assert_eq!(receiver, Some(ThreadId(2))),
        other => panic!("call refused: {:?}", other.err()),
    }
    assert_eq!(ipc_recv_finish(&mut ipc, ThreadId(2), ch, &mut sbuf), Ok((4, ThreadId(1))));
    assert_eq!(&sbuf[..4], b"ping");
    // The reply is capped at the caller's 8-byte buffer, and those are the
    // bytes the caller gets.
    assert_eq!(ipc_reply(&mut ipc, &tt, 1, ch, b"pong-and-some-more!!"), (0, Some((ThreadId(1), 8))));
    let mut reply = [0xAAu8; 10];
    assert_eq!(ipc_call_finish(&mut ipc, ThreadId(1), ch, &mut reply), 8);
    assert_eq!(&reply[..8], b"pong-and");
    assert_eq!(&reply[8..], &[0xAA, 0xAA]);
    // A second reply has no pending call.
    assert_eq!(ipc_reply(&mut ipc, &tt, 1, ch, b"x").0, IpcError::Eproto.code());
    // A call with timeout 0 does not block: it times out at once, queueing nothing.
    assert_eq!(ipc_call_begin(&mut ipc, &tt, &caps, 0, ch, b"now", 8, 0, 0).err(), Some(IpcError::Etimedout.code()));
    let mut sbuf2 = [0u8; 8];
    assert_eq!(ipc_recv_begin(&mut ipc, &tt, &caps, 1, ch, &mut sbuf2, 0, 0).err(), Some(IpcError::Eagain.code()));
}

#[test]
fn select_checks_every_channel_before_anything_else() {
    let (mut ipc, tt, mut caps) = world();
    let owned_a = channel_create(&mut ipc, &tt, &caps, ThreadId(1), 0).unwrap();
    let owned_b = channel_create(&mut ipc, &tt, &caps, ThreadId(1), 0).unwrap();
    let denied = channel_create(&mut ipc, &tt, &caps, ThreadId(1), 0).unwrap();
    access(&mut caps, 1, owned_a);
    access(&mut caps, 1, owned_b);
    let chan = |id: ChannelId| SelectEntry { kind: SelectKind::Channel(id) };
    let eperm = Err(IpcError::Eperm.code());
    let einval = Err(IpcError::Einval.code());

    // A ready channel the caller may not access is refused, alone or first.
    access(&mut caps, 2, denied);
    assert_eq!(ipc_send(&mut ipc, &tt, &caps, 1, denied, b"x", 0).0, 0);
    assert_eq!(ipc_select_begin(&mut ipc, &tt, &caps, 0, &[chan(denied)], 50, 0), eperm);
    assert_eq!(ipc_select_begin(&mut ipc, &tt, &caps, 0, &[chan(denied), chan(owned_a)], 50, 0), eperm);

    // Nothing ready, accessible channel first: still refused, and no
    // waiter is left behind.
    let mut drain = [0u8; 8];
    assert!(matches!(ipc_recv_begin(&mut ipc, &tt, &caps, 1, denied, &mut drain, 0, 0), Ok(RecvStep::Done(1, _))));
    assert_eq!(ipc_select_begin(&mut ipc, &tt, &caps, 0, &[chan(owned_a), chan(denied)], 50, 0), eperm);
    assert!(ipc.selects.waiters[1].is_none());

    // A set the caller owns: the message on owned_b makes entry 1 ready.
    assert_eq!(ipc_send(&mut ipc, &tt, &caps, 0, owned_b, b"SELECT", 0).0, 0);
    assert_eq!(
        ipc_select_begin(&mut ipc, &tt, &caps, 0, &[chan(owned_a), chan(owned_b)], 50, 0),
        Ok(SelectStep::Ready(1, 0))
    );

    // An out-of-range id is EINVAL, whether the rest is accessible or not.
    let bad = ChannelId(MAX_CHANNELS as u32);
    assert_eq!(ipc_select_begin(&mut ipc, &tt, &caps, 0, &[chan(owned_a), chan(bad)], 50, 0), einval);
    assert_eq!(ipc_select_begin(&mut ipc, &tt, &caps, 0, &[chan(denied), chan(bad)], 50, 0), einval);
}

#[test]
fn notification_signal_wakes_and_wait_takes_bits() {
    let (mut ipc, tt, _caps) = world();
    let n = notification_create(&mut ipc, ProcessId(1)).unwrap();
    assert_eq!(notification_wait_begin(&mut ipc, &tt, 1, n, 0b0110, 100, 0), Ok(WaitOutcome::Blocked));
    // Bits outside the mask wake nobody.
    assert!(notification_signal(&mut ipc, &tt, n, 0b1000).is_empty());
    assert_eq!(notification_signal(&mut ipc, &tt, n, 0b0010), vec![ThreadId(2)]);
    assert_eq!(notification_wait_finish(&mut ipc, ThreadId(2), n), Ok(0b0010));
    // The unmatched bit stays in the word for the next waiter.
    assert_eq!(notification_wait_begin(&mut ipc, &tt, 0, n, 0b1000, 100, 0), Ok(WaitOutcome::Ready(0b1000)));
}

#[test]
fn sharing_with_an_out_of_range_process_is_einval() {
    let (mut ipc, _tt, mut caps) = world();
    grant_to_process(&mut caps, ProcessId(1), Capability::SharedMemoryCreate, false, 0).unwrap();
    let rw = VmFlags(VM_READ | VM_WRITE);
    let plan = shared_memory_prepare(&caps, ProcessId(1), 4096, rw, 0).unwrap();
    let region = shared_memory_create(&mut ipc.regions, &mut caps, ProcessId(1), plan, rw, Some(0x4000_0000), 0).unwrap();
    let far = ProcessId(MAX_PROCESSES as u32);
    assert_eq!(shared_memory_share(&ipc.regions, &mut caps, ProcessId(1), region, far, 0), Err(IpcError::Einval));
    // Only the creator may share.
    assert_eq!(shared_memory_share(&ipc.regions, &mut caps, ProcessId(2), region, ProcessId(1), 0), Err(IpcError::Eperm));
    assert_eq!(shared_memory_share(&ipc.regions, &mut caps, ProcessId(1), region, ProcessId(2), 0), Ok(()));
}

#[test]
fn sleeping_thread_wakes_at_its_deadline() {
    let (mut ipc, tt, _caps) = world();
    assert!(!sleep_ticks(&mut ipc, &tt, 0, 0, 10));
    assert!(sleep_ticks(&mut ipc, &tt, 0, 5, 10));
    assert!(check_timeouts(&mut ipc, &tt, 14).is_empty());
    assert_eq!(check_timeouts(&mut ipc, &tt, 15), vec![ThreadId(1)]);
    // It fires once.
    assert!(check_timeouts(&mut ipc, &tt, 20).is_empty());
}

#[test]
fn receive_timeout_expires_the_waiter() {
    let (mut ipc, tt, mut caps) = world();
    let ch = channel_create(&mut ipc, &tt, &caps, ThreadId(1), 0).unwrap();
    access(&mut caps, 2, ch);
    let mut buf = [0u8; 4];
    assert!(matches!(ipc_recv_begin(&mut ipc, &tt, &caps, 1, ch, &mut buf, 30, 100), Ok(RecvStep::Blocked)));
    assert!(check_timeouts(&mut ipc, &tt, 129).is_empty());
    assert_eq!(check_timeouts(&mut ipc, &tt, 130), vec![ThreadId(2)]);
    assert_eq!(ipc_recv_finish(&mut ipc, ThreadId(2), ch, &mut buf), Err(IpcError::Etimedout.code()));
}

#[test]
fn revoking_the_creation_capability_destroys_its_channels() {
    let (mut ipc, tt, mut caps) = world();
    let ch = channel_create(&mut ipc, &tt, &caps, ThreadId(1), 0).unwrap();
    access(&mut caps, 2, ch);
    let mut buf = [0u8; 4];
    assert!(matches!(ipc_recv_begin(&mut ipc, &tt, &caps, 1, ch, &mut buf, 1000, 0), Ok(RecvStep::Blocked)));
    let token = ipc.channels.slots[0].as_ref().unwrap().creation_cap.unwrap();
    let woken = revoke_in_process(&mut caps, &mut ipc, ProcessId(1), token);
    assert_eq!(woken, vec![ThreadId(2)]);
    assert!(ipc.channels.slots[0].is_none());
    // Without the token no new channel can be made.
    assert_eq!(channel_create(&mut ipc, &tt, &caps, ThreadId(1), 0), Err(IpcError::Eperm.code()));
}

#[test]
fn exiting_process_drops_its_mappings() {
    let (mut ipc, _tt, mut caps) = world();
    grant_to_process(&mut caps, ProcessId(1), Capability::SharedMemoryCreate, false, 0).unwrap();
    let rw = VmFlags(VM_READ | VM_WRITE);
    let plan = shared_memory_prepare(&caps, ProcessId(1), 4096, rw, 0).unwrap();
    let a = shared_memory_create(&mut ipc.regions, &mut caps, ProcessId(1), plan, rw, Some(0x4000_0000), 0).unwrap();
    let b = shared_memory_create(&mut ipc.regions, &mut caps, ProcessId(1), plan, rw, Some(0x4010_0000), 0).unwrap();
    assert_eq!(region_dmap_addr(&ipc.regions, a), Some(DIRECT_MAP_BASE.wrapping_add(0x4000_0000)));
    // Process 1 maps both; process 2 shares and maps region b.
    shared_memory_map(&mut ipc.regions, &caps, ProcessId(1), a, rw, 0).unwrap();
    shared_memory_map(&mut ipc.regions, &caps, ProcessId(1), b, rw, 0).unwrap();
    shared_memory_share(&ipc.regions, &mut caps, ProcessId(1), b, ProcessId(2), 0).unwrap();
    shared_memory_map(&mut ipc.regions, &caps, ProcessId(2), b, rw, 0).unwrap();
    // Process 1 exits: region a (its only user) is freed, b survives.
    let freed = process_cleanup_shared_memory(&mut ipc.regions, ProcessId(1));
    assert_eq!(freed, vec![(0x4000_0000, 0)]);
    assert_eq!(region_size(&ipc.regions, a), None);
    assert_eq!(region_size(&ipc.regions, b), Some(4096));
    // Then process 2's unmap frees b.
    assert_eq!(shared_memory_unmap(&mut ipc.regions, ProcessId(2), b), Ok(Some((0x4010_0000, 0))));
}

#[test]
fn destroy_and_cancel_wake_blocked_threads() {
    let (mut ipc, tt, mut caps) = world();
    let ch = channel_create(&mut ipc, &tt, &caps, ThreadId(1), 0).unwrap();
    access(&mut caps, 1, ch);
    access(&mut caps, 2, ch);
    // Thread 1 calls (no server yet); thread 2 cancels it.
    assert!(ipc_call_begin(&mut ipc, &tt, &caps, 0, ch, b"q", 4, 100, 0).is_ok());
    assert_eq!(ipc_cancel(&mut ipc, &tt, &caps, 1, ch, 0), (0, Some(ThreadId(1))));
    let mut reply = [7u8; 4];
    assert_eq!(ipc_call_finish(&mut ipc, ThreadId(1), ch, &mut reply), IpcError::Ecanceled.code());
    assert_eq!(reply, [7u8; 4]);
    // Nothing pending any more.
    assert_eq!(ipc_cancel(&mut ipc, &tt, &caps, 1, ch, 0), (0, None));
    // The cancelled request itself stays queued.
    let mut buf = [0u8; 4];
    assert!(matches!(ipc_recv_begin(&mut ipc, &tt, &caps, 1, ch, &mut buf, 100, 0), Ok(RecvStep::Done(1, _))));
    // A receiver blocked on the channel is woken when it is destroyed.
    assert!(matches!(ipc_recv_begin(&mut ipc, &tt, &caps, 1, ch, &mut buf, 100, 0), Ok(RecvStep::Blocked)));
    assert_eq!(channel_destroy(&mut ipc, &tt, &caps, 0, ch, 0), Ok(vec![ThreadId(2)]));
    assert_eq!(ipc_recv_finish(&mut ipc, ThreadId(2), ch, &mut buf), Err(IpcError::Epipe.code()));
    assert_eq!(channel_destroy(&mut ipc, &tt, &caps, 0, ch, 0), Err(IpcError::Epipe.code()));
}

#[test]
fn signal_clears_the_served_waiter_and_records_its_bits() {
    let (mut ipc, tt, _caps) = world();
    let n = notification_create(&mut ipc, ProcessId(1)).unwrap();
    assert_eq!(notification_wait_begin(&mut ipc, &tt, 1, n, 0b0110, 100, 0), Ok(WaitOutcome::Blocked));
    let waiting = |ipc: &KernelIpc| {
        ipc.notifications.slots[n.0 as usize].as_ref().unwrap().waiters.iter().filter(|w| w.as_ref().map(|w| w.tid) == Some(ThreadId(2))).count()
    };
    assert_eq!(waiting(&ipc), 1);
    assert_eq!(notification_signal(&mut ipc, &tt, n, 0b0110), vec![ThreadId(2)]);
    assert_eq!(ipc.notifications.results[2], Some(0b0110));
    assert_eq!(waiting(&ipc), 0);
    assert_eq!(ipc.notifications.slots[n.0 as usize].as_ref().unwrap().word, 0);
}

#[test]
fn notification_deadline_removes_the_waiter() {
    let (mut ipc, mut tt, _caps) = world();
    let n = notification_create(&mut ipc, ProcessId(1)).unwrap();
    assert_eq!(notification_wait_begin(&mut ipc, &tt, 1, n, 0b1, 30, 0), Ok(WaitOutcome::Blocked));
    tt.threads[2] = Some(ThreadRecord { owner_pid: Some(ProcessId(2)), state: ThreadState::BlockedNotification { notification: n.0 } });
    assert!(check_timeouts(&mut ipc, &tt, 29).is_empty());
    assert_eq!(check_timeouts(&mut ipc, &tt, 30), vec![ThreadId(2)]);
    assert!(ipc.notifications.slots[n.0 as usize].as_ref().unwrap().waiters.iter().all(|w| w.is_none()));
    assert_eq!(ipc.notifications.deadlines[2], u64::MAX);
    // A later signal finds nobody to serve.
    assert!(notification_signal(&mut ipc, &tt, n, 0b1).is_empty());
    assert_eq!(notification_wait_finish(&mut ipc, ThreadId(2), n), Err(IpcError::Etimedout.code()));
}

#[test]
fn sweep_hands_each_woken_thread_its_entry_error() {
    let (mut ipc, tt, mut caps) = world();
    // A zero-tick sleep changes nothing.
    assert!(!sleep_ticks(&mut ipc, &tt, 0, 0, 10));
    assert!(ipc.timeouts.queue.iter().all(|e| e.is_none()));
    assert!(sleep_ticks(&mut ipc, &tt, 0, 5, 10));
    let ch = channel_create(&mut ipc, &tt, &caps, ThreadId(1), 0).unwrap();
    access(&mut caps, 2, ch);
    let mut buf = [0u8; 4];
    assert!(matches!(ipc_recv_begin(&mut ipc, &tt, &caps, 1, ch, &mut buf, 5, 10), Ok(RecvStep::Blocked)));
    ipc.timeouts.wakeup_errors[1] = 77;
    assert_eq!(check_timeouts(&mut ipc, &tt, 15), vec![ThreadId(1), ThreadId(2)]);
    // The sleeper wakes normally, the receiver with a timeout.
    assert_eq!(ipc.timeouts.wakeup_errors[1], 0);
    assert_eq!(ipc.timeouts.wakeup_errors[2], IpcError::Etimedout.code());
}

#[test]
fn an_unknown_channel_without_access_is_refused_by_the_check() {
    let (mut ipc, tt, caps) = world();
    let far = ChannelId(MAX_CHANNELS as u32 + 5);
    assert_eq!(ipc_send(&mut ipc, &tt, &caps, 0, far, b"x", 0), (IpcError::Eperm.code(), None));
    assert_eq!(ipc_cancel(&mut ipc, &tt, &caps, 0, far, 0), (IpcError::Eperm.code(), None));
    let mut buf = [0u8; 4];
    assert_eq!(ipc_recv_begin(&mut ipc, &tt, &caps, 0, far, &mut buf, 10, 0).err(), Some(IpcError::Eperm.code()));
    assert_eq!(channel_destroy(&mut ipc, &tt, &caps, 0, far, 0).err(), Some(IpcError::Eperm.code()));
}

#[test]
fn wait_after_an_unwaited_signal_returns_at_once() {
    let (mut ipc, tt, _caps) = world();
    let n = notification_create(&mut ipc, ProcessId(1)).unwrap();
    assert!(notification_signal(&mut ipc, &tt, n, 0b1011).is_empty());
    assert_eq!(notification_wait_begin(&mut ipc, &tt, 0, n, 0b0011, 100, 0), Ok(WaitOutcome::Ready(0b0011)));
    assert_eq!(ipc.notifications.slots[n.0 as usize].as_ref().unwrap().word, 0b1000);
}
