use aios_kernel::cap::{
    check_channel_access, check_channel_create, check_shared_memory_access, grant_to_process, Capability,
    KernelCapabilitySystem,
};
use aios_kernel::ids::{ChannelId, NotificationId, ProcessId, SharedMemoryId, ThreadId};
use aios_kernel::ipc::channel::{ChannelTable, RecvOutcome};
use aios_kernel::ipc::notify::{compute_wait_deadline, NotificationTable, WaitOutcome};
use aios_kernel::ipc::ring::{MessageRing, RawMessage};
use aios_kernel::ipc::select::{is_same_source, validate_select, SelectEntry, SelectKind, SelectTable};
use aios_kernel::ipc::shmem::{
    order_for_pages, region_size, shared_memory_create, shared_memory_map, shared_memory_prepare,
    shared_memory_unmap, size_pages, SharedRegionTable, VmFlags, VM_EXECUTE, VM_READ, VM_WRITE,
};
use aios_kernel::ipc::timeout::TimeoutTable;
use aios_kernel::ipc::direct::{try_direct_switch, try_reply_switch, SchedParams};
use aios_kernel::task::{ThreadRecord, ThreadState, ThreadTable, MAX_THREADS};
use aios_kernel::ipc::{IpcError, RING_CAPACITY};

fn msg(sender: u32, bytes: &[u8]) -> RawMessage {
    RawMessage::new(ThreadId(sender), bytes)
}

#[test]
fn ring_is_first_in_first_out() {
    let mut r = MessageRing::new();
    assert!(r.push(msg(1, b"a")));
    assert!(r.push(msg(1, b"b")));
    assert!(r.push(msg(1, b"c")));
    assert_eq!(r.len(), 3);
    assert_eq!(r.pop().unwrap().len, 1);
    let m = r.pop().unwrap();
    assert_eq!(m.data[0], b'b');
    let m = r.pop().unwrap();
    assert_eq!(m.data[0], b'c');
    assert!(r.pop().is_none());
    assert!(r.is_empty());
}

#[test]
fn ring_refuses_push_when_full() {
    let mut r = MessageRing::new();
    for i in 0..RING_CAPACITY {
        assert!(r.push(msg(1, &[i as u8])));
    }
    assert!(!r.push(msg(1, b"x")));
    assert_eq!(r.len(), RING_CAPACITY);
    assert_eq!(r.pop().unwrap().data[0], 0);
}

#[test]
fn channel_send_then_receive_delivers_message() {
    let mut t = ChannelTable::new();
    let c = t.create(ThreadId(1), None).unwrap();
    assert_eq!(t.send(c, msg(1, b"hi")), Ok(None));
    assert!(t.has_message(c));
    match t.recv_poll(c, ThreadId(2), 10) {
        Ok(RecvOutcome::Message(m)) => {
            assert_eq!(m.len, 2);
            assert_eq!(&m.data[..2], b"hi");
            assert_eq!(m.sender, ThreadId(1));
        },
        _ => panic!("expected a message"),
    }
    assert!(!t.has_message(c));
}

#[test]
fn channel_errors() {
    let mut t = ChannelTable::new();
    // No such channel.
    assert_eq!(t.send(ChannelId(5), msg(1, b"x")), Err(IpcError::Epipe));
    let c = t.create(ThreadId(1), None).unwrap();
    // Empty and no timeout: try again.
    assert!(matches!(t.recv_poll(c, ThreadId(2), 0), Err(IpcError::Eagain)));
    // Empty with a timeout: the receiver blocks.
    assert!(matches!(t.recv_poll(c, ThreadId(2), 5), Ok(RecvOutcome::Blocked)));
    // A send now reports the waiting receiver to wake.
    assert_eq!(t.send(c, msg(1, b"y")), Ok(Some(ThreadId(2))));
    for _ in 1..RING_CAPACITY {
        assert!(t.send(c, msg(1, b"z")).is_ok());
    }
    assert_eq!(t.send(c, msg(1, b"w")), Err(IpcError::Eagain));
    assert!(t.destroy(c).is_ok());
    assert_eq!(t.send(c, msg(1, b"x")), Err(IpcError::Epipe));
}

#[test]
fn notification_signal_then_wait_takes_bits() {
    let mut n = NotificationTable::new();
    let id = n.notification_create(ProcessId(1)).unwrap();
    let woken = n.notification_signal(id, 0b1010);
    assert!(woken.is_empty());
    // Only the masked bit is taken.
    assert_eq!(n.wait_begin(id, ThreadId(3), 0b0010, 100), Ok(WaitOutcome::Ready(0b0010)));
    assert_eq!(n.wait_begin(id, ThreadId(3), 0b1000, 100), Ok(WaitOutcome::Ready(0b1000)));
    // Nothing left: the waiter blocks.
    assert_eq!(n.wait_begin(id, ThreadId(3), 0b1111, 100), Ok(WaitOutcome::Blocked));
}

#[test]
fn notification_signal_wakes_blocked_waiter() {
    let mut n = NotificationTable::new();
    let id = n.notification_create(ProcessId(1)).unwrap();
    assert_eq!(n.wait_begin(id, ThreadId(4), 0b0110, 100), Ok(WaitOutcome::Blocked));
    let woken = n.notification_signal(id, 0b0101);
    assert_eq!(woken, vec![(ThreadId(4), 0b0100)]);
    assert_eq!(n.wait_finish(id, ThreadId(4)), Ok(0b0100));
    // The unmatched bit stays for a later wait.
    assert_eq!(n.wait_begin(id, ThreadId(5), 0b0001, 100), Ok(WaitOutcome::Ready(0b0001)));
}

#[test]
fn notification_wait_on_unknown_object_is_invalid() {
    let mut n = NotificationTable::new();
    assert_eq!(n.wait_begin(NotificationId(3), ThreadId(1), 1, 0), Err(IpcError::Einval));
    // A wait that was never served times out.
    let id = n.notification_create(ProcessId(1)).unwrap();
    assert_eq!(n.wait_finish(id, ThreadId(9)), Err(IpcError::Etimedout));
}

#[test]
fn wait_deadline_saturates() {
    assert_eq!(compute_wait_deadline(100, 50), 150);
    assert_eq!(compute_wait_deadline(u64::MAX - 1, 10), u64::MAX);
    assert_eq!(compute_wait_deadline(5, u64::MAX), u64::MAX);
}

#[test]
fn timeout_fires_once_at_its_tick() {
    let mut t = TimeoutTable::new();
    t.set_timeout(ThreadId(7), 100, IpcError::Etimedout.code());
    assert!(t.expire(99).is_empty());
    assert_eq!(t.expire(100), vec![(ThreadId(7), -110)]);
    assert!(t.expire(200).is_empty());
    assert_eq!(t.get_wakeup_error(ThreadId(7)), -110);
    assert_eq!(t.get_wakeup_error(ThreadId(7)), 0);
}

#[test]
fn error_codes_are_negative_errno() {
    assert_eq!(IpcError::Eperm.code(), -1);
    assert_eq!(IpcError::Eagain.code(), -11);
    assert_eq!(IpcError::Epipe.code(), -32);
    assert_eq!(IpcError::Etimedout.code(), -110);
    assert_eq!(IpcError::Ecanceled.code(), -125);
}

#[test]
fn capability_checks_fail_closed() {
    let mut caps = KernelCapabilitySystem::new();
    caps.add_process(ProcessId(2));
    assert_eq!(check_channel_create(&caps, ProcessId(2), 0), Err(IpcError::Eperm));
    assert_eq!(check_channel_access(&caps, ProcessId(2), ChannelId(1), 0), Err(IpcError::Eperm));
    assert_eq!(check_channel_create(&caps, ProcessId(200), 0), Err(IpcError::Einval));
    assert!(grant_to_process(&mut caps, ProcessId(2), Capability::ChannelCreate, false, 0).is_ok());
    assert!(check_channel_create(&caps, ProcessId(2), 5).is_ok());
    // Access to one channel does not give access to another.
    assert!(grant_to_process(&mut caps, ProcessId(2), Capability::ChannelAccess(ChannelId(1)), false, 0).is_ok());
    assert_eq!(check_channel_access(&caps, ProcessId(2), ChannelId(1), 0), Ok(()));
    assert_eq!(check_channel_access(&caps, ProcessId(2), ChannelId(2), 0), Err(IpcError::Eperm));
    // Granting to a missing process is refused.
    assert_eq!(
        grant_to_process(&mut caps, ProcessId(3), Capability::ChannelCreate, false, 0),
        Err(IpcError::Eperm)
    );
}

#[test]
fn revoked_token_no_longer_authorizes() {
    let mut caps = KernelCapabilitySystem::new();
    caps.add_process(ProcessId(1));
    assert!(grant_to_process(&mut caps, ProcessId(1), Capability::ChannelCreate, false, 0).is_ok());
    let token = check_channel_create(&caps, ProcessId(1), 0).unwrap();
    caps.revoke_token(ProcessId(1), token);
    assert_eq!(check_channel_create(&caps, ProcessId(1), 0), Err(IpcError::Eperm));
}

#[test]
fn shared_memory_sizes() {
    assert_eq!(size_pages(0), 1);
    assert_eq!(size_pages(4096), 1);
    assert_eq!(size_pages(4097), 2);
    assert_eq!(order_for_pages(1), 0);
    assert_eq!(order_for_pages(3), 2);
    assert_eq!(order_for_pages(4), 2);
    assert_eq!(order_for_pages(5), 3);
}

#[test]
fn shared_memory_lifecycle_and_w_xor_x() {
    let mut caps = KernelCapabilitySystem::new();
    caps.add_process(ProcessId(1));
    caps.add_process(ProcessId(2));
    let rw = VmFlags(VM_READ | VM_WRITE);
    let wx = VmFlags(VM_WRITE | VM_EXECUTE);
    // No capability: refused.
    assert_eq!(shared_memory_prepare(&caps, ProcessId(1), 8192, rw, 0).err(), Some(IpcError::Eperm));
    assert!(grant_to_process(&mut caps, ProcessId(1), Capability::SharedMemoryCreate, false, 0).is_ok());
    // W^X: refused even with the capability.
    assert_eq!(shared_memory_prepare(&caps, ProcessId(1), 8192, wx, 0).err(), Some(IpcError::Eperm));
    let plan = shared_memory_prepare(&caps, ProcessId(1), 8192, rw, 0).unwrap();
    assert_eq!(plan.order, 1);
    assert_eq!(plan.size_bytes, 8192);
    let mut regions = SharedRegionTable::new();
    assert_eq!(
        shared_memory_create(&mut regions, &mut caps, ProcessId(1), plan, wx, Some(0x4000_0000), 0),
        Err(IpcError::Eperm)
    );
    assert_eq!(
        shared_memory_create(&mut regions, &mut caps, ProcessId(1), plan, rw, None, 0),
        Err(IpcError::Enospc)
    );
    let id = shared_memory_create(&mut regions, &mut caps, ProcessId(1), plan, rw, Some(0x4000_0000), 0).unwrap();
    assert_eq!(region_size(&regions, id), Some(8192));
    // The creator holds access; another process does not.
    assert!(check_shared_memory_access(&caps, ProcessId(1), id.0, 0).is_ok());
    assert_eq!(shared_memory_map(&mut regions, &caps, ProcessId(2), id, rw, 0), Err(IpcError::Eperm));
    // Mapping with more rights than the region allows, or W+X, is refused.
    assert_eq!(
        shared_memory_map(&mut regions, &caps, ProcessId(1), id, VmFlags(VM_READ | VM_EXECUTE), 0),
        Err(IpcError::Eperm)
    );
    assert_eq!(shared_memory_map(&mut regions, &caps, ProcessId(1), id, wx, 0), Err(IpcError::Eperm));
    let va = shared_memory_map(&mut regions, &caps, ProcessId(1), id, rw, 0).unwrap();
    assert!(va > 0);
    assert_eq!(shared_memory_map(&mut regions, &caps, ProcessId(1), id, rw, 0), Err(IpcError::Eexist));
    // The last unmap frees the pages.
    assert_eq!(shared_memory_unmap(&mut regions, ProcessId(1), id), Ok(Some((0x4000_0000, 1))));
    assert_eq!(shared_memory_unmap(&mut regions, ProcessId(1), id), Err(IpcError::Epipe));
    assert_eq!(region_size(&regions, SharedMemoryId(id.0)), None);
}

fn params(class: u8, priority: u8, slice: u64) -> SchedParams {
    SchedParams {
        class,
        priority,
        effective_class: class,
        effective_priority: priority,
        deadline: None,
        inherited_class: None,
        inherited_priority: None,
        inherited_deadline: None,
        inheritance_depth: 0,
        time_slice_remaining: slice,
    }
}

fn two_threads(server_state: ThreadState) -> (ThreadTable, Vec<SchedParams>) {
    let mut tt = ThreadTable::new();
    tt.threads[1] = Some(ThreadRecord { owner_pid: Some(ProcessId(2)), state: ThreadState::Running });
    tt.threads[2] = Some(ThreadRecord { owner_pid: Some(ProcessId(3)), state: server_state });
    let mut sched = vec![params(0, 0, 0); MAX_THREADS];
    sched[1] = params(3, 7, 40); // interactive caller
    sched[2] = params(1, 2, 5); // normal server
    (tt, sched)
}

#[test]
fn direct_switch_raises_server_and_reply_restores_it() {
    let (mut tt, mut sched) = two_threads(ThreadState::BlockedIpc { channel: 4 });
    assert!(try_direct_switch(&mut tt, &mut sched, 0, ThreadId(1), ThreadId(2)));
    assert_eq!(tt.current[0], Some(ThreadId(2)));
    assert_eq!(tt.thread_state(ThreadId(2)), ThreadState::Ready);
    assert_eq!(tt.thread_state(ThreadId(1)), ThreadState::BlockedIpc { channel: 0 });
    assert_eq!((sched[2].effective_class, sched[2].effective_priority), (3, 7));
    assert_eq!(sched[2].inherited_class, Some(3));
    assert_eq!(sched[2].inheritance_depth, 1);
    assert_eq!(sched[2].time_slice_remaining, 40);
    assert_eq!(sched[1].time_slice_remaining, 0);

    assert!(try_reply_switch(&mut tt, &mut sched, 0, ThreadId(2), ThreadId(1)));
    assert_eq!(tt.current[0], Some(ThreadId(1)));
    assert_eq!(tt.thread_state(ThreadId(1)), ThreadState::Running);
    assert_eq!(tt.thread_state(ThreadId(2)), ThreadState::Ready);
    assert_eq!((sched[2].effective_class, sched[2].effective_priority), (1, 2));
    assert_eq!(sched[2].inherited_class, None);
    assert_eq!(sched[2].inheritance_depth, 0);
    assert_eq!(sched[1], params(3, 7, 40));
    assert_eq!(sched[2].time_slice_remaining, 0);
}

#[test]
fn lower_class_caller_does_not_raise_server() {
    let (mut tt, mut sched) = two_threads(ThreadState::BlockedIpc { channel: 4 });
    sched[1] = params(0, 9, 10);
    assert!(try_direct_switch(&mut tt, &mut sched, 1, ThreadId(1), ThreadId(2)));
    assert_eq!((sched[2].effective_class, sched[2].effective_priority), (1, 2));
    assert_eq!(sched[2].inherited_class, Some(0));
    assert_eq!(sched[2].inherited_priority, Some(9));
}

#[test]
fn direct_switch_needs_a_blocked_receiver() {
    let (mut tt, mut sched) = two_threads(ThreadState::Ready);
    let before = sched.clone();
    assert!(!try_direct_switch(&mut tt, &mut sched, 0, ThreadId(1), ThreadId(2)));
    assert_eq!(sched, before);
    assert_eq!(tt.current[0], None);
    // Missing or out-of-range threads: no switch either.
    assert!(!try_direct_switch(&mut tt, &mut sched, 0, ThreadId(1), ThreadId(9)));
    assert!(!try_direct_switch(&mut tt, &mut sched, 0, ThreadId(1), ThreadId(500)));
    // Nor a reply to a caller that is not waiting.
    assert!(!try_reply_switch(&mut tt, &mut sched, 0, ThreadId(2), ThreadId(1)));
}

#[test]
fn select_table_records_which_entry_fired() {
    let entries = [
        SelectEntry { kind: SelectKind::Channel(ChannelId(3)) },
        SelectEntry { kind: SelectKind::Notification(NotificationId(1), 0xF0) },
        SelectEntry { kind: SelectKind::Notification(NotificationId(1), 0x0F) },
    ];
    assert_eq!(validate_select(&entries), Ok(()));
    assert_eq!(validate_select(&[]), Err(IpcError::Einval));
    assert_eq!(validate_select(&[SelectEntry { kind: SelectKind::Channel(ChannelId(64)) }; 1]), Err(IpcError::Einval));
    assert_eq!(validate_select(&[SelectEntry { kind: SelectKind::Channel(ChannelId(0)) }; 9]), Err(IpcError::Einval));
    assert!(is_same_source(
        SelectKind::Notification(NotificationId(1), 1),
        SelectKind::Notification(NotificationId(1), 2)
    ));
    assert!(!is_same_source(SelectKind::Channel(ChannelId(1)), SelectKind::Notification(NotificationId(1), 1)));

    let mut t = SelectTable::new();
    // Not blocked in select: no wake.
    assert!(!t.try_wake_select(ThreadId(5), ThreadState::BlockedSelect, SelectKind::Channel(ChannelId(3)), 0));
    t.register(ThreadId(5), &entries);
    assert!(!t.try_wake_select(ThreadId(5), ThreadState::Running, SelectKind::Channel(ChannelId(3)), 0));
    assert!(!t.try_wake_select(ThreadId(5), ThreadState::BlockedSelect, SelectKind::Channel(ChannelId(4)), 0));
    // The first entry naming the notification fires.
    assert!(t.try_wake_select(ThreadId(5), ThreadState::BlockedSelect, SelectKind::Notification(NotificationId(1), 0), 0x30));
    assert_eq!(t.take_result(ThreadId(5)), (Some(1), 0x30));
    assert_eq!(t.take_result(ThreadId(5)), (None, 0));
    t.register(ThreadId(6), &entries);
    assert!(t.set_select_ready(ThreadId(6), SelectKind::Channel(ChannelId(3)), 0));
    t.clear(ThreadId(6));
    assert!(t.waiters[6].is_none());
}

#[test]
fn destroying_a_notification_wakes_its_waiters() {
    let mut n = NotificationTable::new();
    let id = n.notification_create(ProcessId(1)).unwrap();
    assert_eq!(n.wait_begin(id, ThreadId(3), 1, u64::MAX), Ok(WaitOutcome::Blocked));
    assert_eq!(n.wait_begin(id, ThreadId(4), 2, u64::MAX), Ok(WaitOutcome::Blocked));
    // Thread 3 gives up (timeout): only thread 4 is still waiting.
    n.cleanup_waiter(id, ThreadId(3));
    assert_eq!(n.notification_destroy(id), vec![ThreadId(4)]);
    assert!(n.notification_destroy(id).is_empty());
    n.set_thread_deadline(ThreadId(4), 77);
    assert_eq!(n.deadlines[4], 77);
}

#[test]
fn empty_message_is_all_zero() {
    let m = RawMessage::empty();
    assert_eq!((m.sender, m.len), (ThreadId(0), 0));
    assert!(m.data.iter().all(|b| *b == 0));
}

#[test]
fn a_full_ring_drains_in_push_order() {
    let mut r = MessageRing::new();
    for i in 0..RING_CAPACITY {
        assert!(r.push(msg(1, &[i as u8])));
    }
    for i in 0..RING_CAPACITY {
        assert_eq!(r.pop().unwrap().data[0], i as u8);
    }
    assert!(r.pop().is_none());
}
