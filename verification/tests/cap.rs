use aios_kernel::cap::{
    check_shared_memory_create, Capability, CapabilityError, CapabilityHandle, KernelCapabilitySystem,
};
use aios_kernel::ids::{ChannelId, ProcessId, ThreadId};
use aios_kernel::ipc::ops::channel_create;
use aios_kernel::ipc::{IpcError, KernelIpc};
use aios_kernel::task::{ThreadRecord, ThreadState, ThreadTable};

#[test]
fn kit_grant_check_and_list() {
    let mut caps = KernelCapabilitySystem::new();
    // No process 4 yet.
    assert_eq!(caps.grant(ProcessId(4), Capability::DebugPrint, ProcessId(0), 0), Err(CapabilityError::TableFull));
    caps.add_process(ProcessId(4));
    assert_eq!(
        caps.check(ProcessId(4), &Capability::DebugPrint, 0),
        Err(CapabilityError::NotGranted { requested: Capability::DebugPrint })
    );
    assert_eq!(caps.grant(ProcessId(4), Capability::DebugPrint, ProcessId(0), 5), Ok(CapabilityHandle(0)));
    assert_eq!(caps.grant(ProcessId(4), Capability::SpawnAgent, ProcessId(0), 6), Ok(CapabilityHandle(1)));
    assert_eq!(caps.check(ProcessId(4), &Capability::SpawnAgent, 7), Ok(CapabilityHandle(1)));
    let active = caps.list_active(ProcessId(4), 7);
    assert_eq!(active.len(), 2);
    assert_eq!(active[0].capability, Capability::DebugPrint);
    assert_eq!(active[0].created_at_tick, 5);
    assert!(active[1].delegatable);
    assert!(caps.list_active(ProcessId(9), 7).is_empty());
}

#[test]
fn kit_revoke_by_handle_destroys_channels_made_under_it() {
    let mut caps = KernelCapabilitySystem::new();
    caps.add_process(ProcessId(1));
    let h = caps.grant(ProcessId(1), Capability::ChannelCreate, ProcessId(0), 0).unwrap();
    let mut ipc = KernelIpc::new();
    let mut tt = ThreadTable::new();
    tt.threads[1] = Some(ThreadRecord { owner_pid: Some(ProcessId(1)), state: ThreadState::Running });
    let ch = channel_create(&mut ipc, &tt, &caps, ThreadId(1), 0).unwrap();
    assert_eq!(ch, ChannelId(0));
    assert_eq!(caps.revoke(&mut ipc, ProcessId(1), h), Ok(vec![]));
    assert!(ipc.channels.slots[0].is_none());
    // The token is gone: revoking again is an invalid handle.
    assert_eq!(
        caps.revoke(&mut ipc, ProcessId(1), h),
        Err(CapabilityError::InvalidHandle { handle: h })
    );
    assert!(caps.list_active(ProcessId(1), 0).is_empty());
}

#[test]
fn shared_memory_create_needs_its_capability() {
    let mut caps = KernelCapabilitySystem::new();
    assert_eq!(check_shared_memory_create(&caps, ProcessId(70), 0), Err(IpcError::Einval));
    caps.add_process(ProcessId(3));
    assert_eq!(check_shared_memory_create(&caps, ProcessId(3), 0), Err(IpcError::Eperm));
    caps.grant(ProcessId(3), Capability::SharedMemoryCreate, ProcessId(0), 0).unwrap();
    assert!(check_shared_memory_create(&caps, ProcessId(3), 0).is_ok());
}
