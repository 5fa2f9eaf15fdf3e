//! The generic timer: its configuration and the per-tick bookkeeping of the
//! timer interrupt.
use vstd::prelude::*;

verus! {

/// Cores the kernel brings up.
pub const MAX_CORES: usize = 4;

/// The generic timer as configured at boot.
pub struct Timer {
    frequency_hz: u64,
    tick_interval: u64,
    timer_irq: u32,
}

impl Timer {
    pub closed spec fn spec_frequency(&self) -> u64 {
        self.frequency_hz
    }

    pub closed spec fn spec_tick_interval(&self) -> u64 {
        self.tick_interval
    }

    pub closed spec fn spec_irq(&self) -> u32 {
        self.timer_irq
    }

    /// The timer for counter frequency `frequency_hz` (which must be set)
    /// on interrupt `irq`: a 1 ms tick is `frequency_hz / 1000` counts.
    pub fn new(frequency_hz: u64, irq: u32) -> (t: Timer)
        requires
            frequency_hz > 0,
        ensures
            t.spec_frequency() == frequency_hz,
            t.spec_tick_interval() == frequency_hz / 1000,
            t.spec_irq() == irq,
    {
        Timer { frequency_hz, tick_interval: frequency_hz / 1000, timer_irq: irq }
    }

    /// Counter frequency in Hz.
    pub fn frequency(&self) -> (f: u64)
        ensures
            f == self.spec_frequency(),
    {
        self.frequency_hz
    }

    /// The timer's interrupt id.
    pub fn irq(&self) -> (i: u32)
        ensures
            i == self.spec_irq(),
    {
        self.timer_irq
    }

    /// Counts per 1 ms tick.
    pub fn tick_interval(&self) -> (t: u64)
        ensures
            t == self.spec_tick_interval(),
    {
        self.tick_interval
    }
}

/// The tick reload value shared by all cores, and the global tick count.
pub struct TickState {
    pub tick_interval: u64,
    pub tick_count: u64,
}

/// Record the tick reload value the secondary cores use.
pub fn set_tick_interval(state: &mut TickState, interval: u64)
    ensures
        final(state).tick_interval == interval,
        final(state).tick_count == old(state).tick_count,
{
    state.tick_interval = interval;
}

/// What one timer interrupt on a core does besides the scheduler tick and
/// the timeout sweep.
#[derive(Debug, Clone, Copy, PartialEq, Eq, Structural)]
pub struct TickActions {
    /// Reload the timer with this many counts.
    pub rearm: Option<u64>,
    /// Flush the log buffers (core 0, every 4th tick).
    pub drain_logs: bool,
    /// Print a heartbeat with this tick number (core 0, every 1000th tick).
    pub heartbeat: Option<u64>,
    /// Run load balancing (every 4th tick).
    pub load_balance: bool,
    /// Mark input polling due (core 0, every 16th tick).
    pub input_poll_due: bool,
}

/// Whether a secondary core's timer starts: only once a tick interval is set.
pub fn secondary_timer_interval(state: &TickState) -> (r: Option<u64>)
    ensures
        r == (if state.tick_interval == 0 { None::<u64> } else { Some(state.tick_interval) }),
{
    if state.tick_interval == 0 { None } else { Some(state.tick_interval) }
}

/// The timer interrupt on core `cpu` (clamped to the last core). Core 0
/// counts the tick (wrapping) and drives log draining, the heartbeat and
/// input polling from the tick number; every core reloads the timer when an
/// interval is set and balances load every 4th tick.
pub fn timer_tick_handler(state: &mut TickState, cpu: usize) -> (a: TickActions)
    ensures
        final(state).tick_interval == old(state).tick_interval,
        a.rearm == (if old(state).tick_interval > 0 { Some(old(state).tick_interval) } else { None::<u64> }),
        ({
            let core = if cpu < MAX_CORES - 1 { cpu } else { (MAX_CORES - 1) as usize };
            let t = old(state).tick_count;
            let after = if core == 0 { (if t == u64::MAX { 0 } else { t + 1 }) as u64 } else { t };
            &&& final(state).tick_count == after
            &&& a.drain_logs == (core == 0 && t % 4 == 0)
            &&& a.heartbeat == (if core == 0 && t % 1000 == 0 { Some(t) } else { None::<u64> })
            &&& a.load_balance == (after % 4 == 0)
            &&& a.input_poll_due == (core == 0 && after % 16 == 0)
        }),
{
    let rearm = if state.tick_interval > 0 { Some(state.tick_interval) } else { None };
    let core = if cpu < MAX_CORES - 1 { cpu } else { MAX_CORES - 1 };
    let mut drain_logs = false;
    let mut heartbeat: Option<u64> = None;
    if core == 0 {
        let tick = state.tick_count;
        state.tick_count = state.tick_count.wrapping_add(1);
        drain_logs = tick % 4 == 0;
        if tick % 1000 == 0 {
            heartbeat = Some(tick);
        }
    }
    let tick = state.tick_count;
    TickActions {
        rearm,
        drain_logs,
        heartbeat,
        load_balance: tick % 4 == 0,
        input_poll_due: core == 0 && tick % 16 == 0,
    }
}

} // verus!
