//! Early boot phases and boot timing.
use vstd::prelude::*;

verus! {

/// Early boot milestones, in order.
#[derive(Debug, Clone, Copy, PartialEq, Eq, Structural)]
pub enum EarlyBootPhase {
    EntryPoint,
    ExceptionVectors,
    DeviceTreeParsed,
    UartReady,
    InterruptsReady,
    TimerReady,
    MmuEnabled,
    PageAllocatorReady,
    HeapReady,
    RngReady,
    KaslrApplied,
    CapabilityManagerReady,
    IpcReady,
    AuditLogReady,
    ProcessManagerReady,
    ProvenanceReady,
    Complete,
}

/// The phase's number (its position, from 0).
pub open spec fn phase_number(p: EarlyBootPhase) -> u32 {
    match p {
        EarlyBootPhase::EntryPoint => 0,
        EarlyBootPhase::ExceptionVectors => 1,
        EarlyBootPhase::DeviceTreeParsed => 2,
        EarlyBootPhase::UartReady => 3,
        EarlyBootPhase::InterruptsReady => 4,
        EarlyBootPhase::TimerReady => 5,
        EarlyBootPhase::MmuEnabled => 6,
        EarlyBootPhase::PageAllocatorReady => 7,
        EarlyBootPhase::HeapReady => 8,
        EarlyBootPhase::RngReady => 9,
        EarlyBootPhase::KaslrApplied => 10,
        EarlyBootPhase::CapabilityManagerReady => 11,
        EarlyBootPhase::IpcReady => 12,
        EarlyBootPhase::AuditLogReady => 13,
        EarlyBootPhase::ProcessManagerReady => 14,
        EarlyBootPhase::ProvenanceReady => 15,
        EarlyBootPhase::Complete => 16,
    }
}

impl EarlyBootPhase {
    /// The phase's number.
    pub fn number(self) -> (n: u32)
        ensures
            n == phase_number(self),
    {
        match self {
            EarlyBootPhase::EntryPoint => 0,
            EarlyBootPhase::ExceptionVectors => 1,
            EarlyBootPhase::DeviceTreeParsed => 2,
            EarlyBootPhase::UartReady => 3,
            EarlyBootPhase::InterruptsReady => 4,
            EarlyBootPhase::TimerReady => 5,
            EarlyBootPhase::MmuEnabled => 6,
            EarlyBootPhase::PageAllocatorReady => 7,
            EarlyBootPhase::HeapReady => 8,
            EarlyBootPhase::RngReady => 9,
            EarlyBootPhase::KaslrApplied => 10,
            EarlyBootPhase::CapabilityManagerReady => 11,
            EarlyBootPhase::IpcReady => 12,
            EarlyBootPhase::AuditLogReady => 13,
            EarlyBootPhase::ProcessManagerReady => 14,
            EarlyBootPhase::ProvenanceReady => 15,
            EarlyBootPhase::Complete => 16,
        }
    }

    /// The phase numbered `n`, for `n` up to 16.
    pub fn from_number(n: u32) -> (p: Option<EarlyBootPhase>)
        ensures
            n <= 16 <==> p is Some,
            p matches Some(q) ==> phase_number(q) == n,
    {
        match n {
            0 => Some(EarlyBootPhase::EntryPoint),
            1 => Some(EarlyBootPhase::ExceptionVectors),
            2 => Some(EarlyBootPhase::DeviceTreeParsed),
            3 => Some(EarlyBootPhase::UartReady),
            4 => Some(EarlyBootPhase::InterruptsReady),
            5 => Some(EarlyBootPhase::TimerReady),
            6 => Some(EarlyBootPhase::MmuEnabled),
            7 => Some(EarlyBootPhase::PageAllocatorReady),
            8 => Some(EarlyBootPhase::HeapReady),
            9 => Some(EarlyBootPhase::RngReady),
            10 => Some(EarlyBootPhase::KaslrApplied),
            11 => Some(EarlyBootPhase::CapabilityManagerReady),
            12 => Some(EarlyBootPhase::IpcReady),
            13 => Some(EarlyBootPhase::AuditLogReady),
            14 => Some(EarlyBootPhase::ProcessManagerReady),
            15 => Some(EarlyBootPhase::ProvenanceReady),
            16 => Some(EarlyBootPhase::Complete),
            _ => None,
        }
    }
}

/// The counter value at boot and the current phase's number.
pub struct BootTiming {
    pub start_ticks: u64,
    pub current_phase: u64,
}

/// Record the counter value at which boot started.
pub fn init_boot_timing(timing: &mut BootTiming, counter: u64)
    ensures
        final(timing).start_ticks == counter,
        final(timing).current_phase == old(timing).current_phase,
{
    timing.start_ticks = counter;
}

/// Milliseconds since boot started, for counter value `counter` at
/// frequency `freq` (0 when the frequency is not set).
pub fn boot_elapsed_ms(timing: &BootTiming, counter: u64, freq: u64) -> (ms: u64)
    requires
        freq != 0 ==> counter >= timing.start_ticks,
        freq != 0 ==> (counter - timing.start_ticks) * 1000 <= u64::MAX,
    ensures
        ms == (if freq == 0 { 0 } else { ((counter - timing.start_ticks) * 1000) / (freq as int) }),
{
    if freq == 0 {
        return 0;
    }
    let elapsed = counter - timing.start_ticks;
    (elapsed * 1000) / freq
}

/// Enter `phase`; whether it is announced on the console (from
/// `UartReady` on).
pub fn advance_boot_phase(timing: &mut BootTiming, phase: EarlyBootPhase) -> (announce: bool)
    ensures
        final(timing).current_phase == phase_number(phase),
        final(timing).start_ticks == old(timing).start_ticks,
        announce == (phase_number(phase) >= 3),
{
    timing.current_phase = phase.number() as u64;
    phase.number() >= 3
}

/// The current phase: the stored number's low 32 bits name it when they
/// are at most 16, otherwise `EntryPoint`.
pub fn current_boot_phase(timing: &BootTiming) -> (p: EarlyBootPhase)
    ensures
        (timing.current_phase % 0x1_0000_0000) <= 16 ==> phase_number(p) == timing.current_phase % 0x1_0000_0000,
        (timing.current_phase % 0x1_0000_0000) > 16 ==> p == EarlyBootPhase::EntryPoint,
{
    let cp = timing.current_phase;
    let val = (cp & 0xFFFF_FFFF) as u32;
    assert(cp & 0xFFFF_FFFF == cp % 0x1_0000_0000) by (bit_vector);
    match EarlyBootPhase::from_number(val) {
        Some(p) => p,
        None => EarlyBootPhase::EntryPoint,
    }
}

} // verus!
